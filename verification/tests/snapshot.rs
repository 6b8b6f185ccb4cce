use indexer_for_wallet::access_keys::AccessKey;
use indexer_for_wallet::enums::{AccessKeyAction, AccessKeyPermission, ExecutionStatus};
use indexer_for_wallet::snapshot::{access_keys_from_state, dump_existing_access_keys};
use indexer_for_wallet::store::AccessKeysTable;
use indexer_for_wallet::views::{AccessKeyPermissionView, StateRecord};

fn key_record(account_id: &str, public_key: &str, permission: AccessKeyPermissionView) -> StateRecord {
    StateRecord::AccessKey {
        account_id: account_id.to_owned(),
        public_key: public_key.to_owned(),
        permission,
    }
}

#[test]
fn extraction_keeps_only_access_key_records() {
    let records = vec![
        key_record("alice", "pk1", AccessKeyPermissionView::FullAccess),
        StateRecord::Other,
        key_record("bob", "pk2", AccessKeyPermissionView::FunctionCall),
        StateRecord::Other,
    ];
    let out = access_keys_from_state(&records, 500);
    assert_eq!(out.len(), 2);
    assert_eq!(out[0].account_id, "alice");
    assert_eq!(out[0].permission, AccessKeyPermission::FullAccess);
    assert_eq!(out[1].account_id, "bob");
    assert_eq!(out[1].permission, AccessKeyPermission::FunctionCall);
    for row in &out {
        assert_eq!(row.action, AccessKeyAction::Add);
        assert_eq!(row.status, ExecutionStatus::Success);
        assert_eq!(row.receipt_hash, "genesis");
        assert_eq!(row.block_height, 500);
    }
}

#[test]
fn snapshot_round_trip_yields_one_settled_row_per_record() {
    let n = 137usize;
    let records: Vec<StateRecord> = (0..n)
        .map(|i| key_record(&format!("account{}", i), &format!("pk{}", i), AccessKeyPermissionView::FullAccess))
        .collect();
    let mut table = AccessKeysTable::new();
    dump_existing_access_keys(&mut table, &records, 900, 10);
    assert_eq!(table.len(), n);
    for row in table.rows().iter() {
        assert_eq!(row.status, ExecutionStatus::Success);
        assert_eq!(row.receipt_hash, "genesis");
        assert_eq!(row.block_height, 900);
        assert_eq!(row.action, AccessKeyAction::Add);
    }
}

#[test]
fn a_rebuild_replaces_stale_rows() {
    let mut table = AccessKeysTable::new();
    table.insert_on_conflict_do_nothing(vec![AccessKey {
        public_key: "stale".to_owned(),
        account_id: "old".to_owned(),
        action: AccessKeyAction::Add,
        status: ExecutionStatus::Pending,
        receipt_hash: "r0".to_owned(),
        block_height: 1,
        permission: AccessKeyPermission::FullAccess,
    }]);
    let records = vec![key_record("alice", "pk1", AccessKeyPermissionView::FullAccess)];
    dump_existing_access_keys(&mut table, &records, 77, 5000);
    assert_eq!(table.len(), 1);
    assert_eq!(table.rows()[0].public_key, "pk1");
    assert_eq!(table.rows()[0].receipt_hash, "genesis");
}

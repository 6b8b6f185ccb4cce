use indexer_for_wallet::access_keys::AccessKey;
use indexer_for_wallet::enums::{AccessKeyAction, AccessKeyPermission, ExecutionStatus};
use indexer_for_wallet::reconciler::{handle_outcomes, partition_outcomes, update_receipt_status};
use indexer_for_wallet::store::AccessKeysTable;
use indexer_for_wallet::views::{ExecutionOutcomeView, ExecutionStatusView};

fn outcome(receipt_id: &str, status: ExecutionStatusView) -> ExecutionOutcomeView {
    ExecutionOutcomeView { receipt_id: receipt_id.to_owned(), status }
}

fn pending_row(public_key: &str, receipt_hash: &str) -> AccessKey {
    AccessKey {
        public_key: public_key.to_owned(),
        account_id: "alice".to_owned(),
        action: AccessKeyAction::Add,
        status: ExecutionStatus::Pending,
        receipt_hash: receipt_hash.to_owned(),
        block_height: 1,
        permission: AccessKeyPermission::FullAccess,
    }
}

#[test]
fn outcomes_partition_by_classified_status() {
    let outcomes = vec![
        outcome("r1", ExecutionStatusView::SuccessValue),
        outcome("r2", ExecutionStatusView::Failure),
        outcome("r3", ExecutionStatusView::SuccessReceiptId),
        outcome("r4", ExecutionStatusView::Unknown),
    ];
    let (failed, succeeded) = partition_outcomes(&outcomes);
    assert_eq!(failed, vec!["r2".to_owned(), "r4".to_owned()]);
    assert_eq!(succeeded, vec!["r1".to_owned(), "r3".to_owned()]);
}

#[test]
fn unknown_status_collapses_to_failed() {
    assert_eq!(
        ExecutionStatus::from(ExecutionStatusView::Unknown),
        ExecutionStatus::Failed
    );
    assert_eq!(
        ExecutionStatus::from(ExecutionStatusView::Failure),
        ExecutionStatus::Failed
    );
    assert_eq!(
        ExecutionStatus::from(ExecutionStatusView::SuccessValue),
        ExecutionStatus::Success
    );
    assert_eq!(
        ExecutionStatus::from(ExecutionStatusView::SuccessReceiptId),
        ExecutionStatus::Success
    );
}

#[test]
fn reconciliation_settles_each_group_and_nothing_else() {
    let mut table = AccessKeysTable::new();
    table.insert_on_conflict_do_nothing(vec![
        pending_row("pk1", "r1"),
        pending_row("pk2", "r2"),
        pending_row("pk3", "r3"),
    ]);
    let outcomes = vec![
        outcome("r1", ExecutionStatusView::SuccessValue),
        outcome("r2", ExecutionStatusView::Failure),
    ];
    let (failed_touched, succeeded_touched) = handle_outcomes(&mut table, &outcomes);
    assert_eq!(failed_touched, 1);
    assert_eq!(succeeded_touched, 1);
    let rows = table.rows();
    assert_eq!(rows[0].status, ExecutionStatus::Success);
    assert_eq!(rows[1].status, ExecutionStatus::Failed);
    assert_eq!(rows[2].status, ExecutionStatus::Pending);
    // only the status moved
    assert_eq!(rows[0].public_key, "pk1");
    assert_eq!(rows[0].account_id, "alice");
    assert_eq!(rows[0].block_height, 1);
    assert_eq!(rows[0].permission, AccessKeyPermission::FullAccess);
}

#[test]
fn update_with_no_ids_touches_nothing() {
    let mut table = AccessKeysTable::new();
    table.insert_on_conflict_do_nothing(vec![pending_row("pk1", "r1")]);
    let touched = update_receipt_status(&mut table, &Vec::new(), ExecutionStatus::Failed);
    assert_eq!(touched, 0);
    assert_eq!(table.rows()[0].status, ExecutionStatus::Pending);
}

#[test]
fn an_outcome_for_an_unknown_receipt_updates_nothing() {
    let mut table = AccessKeysTable::new();
    table.insert_on_conflict_do_nothing(vec![pending_row("pk1", "r1")]);
    let outcomes = vec![outcome("not-a-row", ExecutionStatusView::SuccessValue)];
    let (failed_touched, succeeded_touched) = handle_outcomes(&mut table, &outcomes);
    assert_eq!(failed_touched, 0);
    assert_eq!(succeeded_touched, 0);
    assert_eq!(table.rows()[0].status, ExecutionStatus::Pending);
}

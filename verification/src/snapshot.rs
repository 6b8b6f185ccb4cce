//! The snapshot extractor: turns a full state snapshot into settled
//! lifecycle records, and the table-replacing rebuild built on it.

use vstd::prelude::*;

use crate::access_keys::{same_natural_key, views_of, AccessKey, AccessKeyView};
use crate::bulk::insert_in_chunks;
use crate::enums::{
    permission_of_view, AccessKeyAction, AccessKeyPermission, ExecutionStatus,
};
use crate::store::{lemma_insert_all_fresh, spec_insert_ignore, AccessKeysTable};
use crate::views::{AccessKeyPermissionView, StateRecord};

verus! {

/// The row one access-key state entry yields: an addition, already
/// settled, keyed to the sentinel receipt hash.
pub open spec fn snapshot_record(
    account_id: Seq<char>,
    public_key: Seq<char>,
    permission: AccessKeyPermissionView,
    height: u64,
) -> AccessKeyView {
    AccessKeyView {
        public_key: public_key,
        account_id: account_id,
        action: AccessKeyAction::Add,
        status: ExecutionStatus::Success,
        receipt_hash: "genesis"@,
        block_height: height as int,
        permission: permission_of_view(permission),
    }
}

/// The rows of a snapshot: one per access-key state entry, in order;
/// every other record kind is ignored.
pub open spec fn snapshot_records(records: Seq<StateRecord>, height: u64) -> Seq<AccessKeyView>
    decreases records.len(),
{
    if records.len() == 0 {
        Seq::empty()
    } else {
        let rest = snapshot_records(records.skip(1), height);
        match records[0] {
            StateRecord::AccessKey { account_id, public_key, permission } => seq![
                snapshot_record(account_id@, public_key@, permission, height),
            ] + rest,
            StateRecord::Other => rest,
        }
    }
}

/// A row as the snapshot extractor leaves it: an addition, settled
/// Success, keyed to the sentinel receipt hash at the snapshot height,
/// with a permission a key can be granted.
pub open spec fn snapshot_row_settled(r: AccessKeyView, height: u64) -> bool {
    r.action == AccessKeyAction::Add && r.status == ExecutionStatus::Success && r.receipt_hash
        == "genesis"@ && r.block_height == height as int && r.permission
        != AccessKeyPermission::NotApplicable
}

/// The snapshot extractor: one settled record per access-key entry of
/// the snapshot, at the height the snapshot was captured.
#[verifier::loop_isolation(false)]
pub fn access_keys_from_state(records: &Vec<StateRecord>, height: u64) -> (out: Vec<AccessKey>)
    ensures
        views_of(out@) == snapshot_records(records@, height),
{
    let mut out: Vec<AccessKey> = Vec::new();
    let n = records.len();
    let mut i: usize = 0;
    proof {
        assert(records@.skip(0) =~= records@);
        assert(views_of(out@) + snapshot_records(records@, height) =~= snapshot_records(
            records@,
            height,
        ));
    }
    while i < n
        invariant
            i <= n,
            views_of(out@) + snapshot_records(records@.skip(i as int), height) == snapshot_records(
                records@,
                height,
            ),
        decreases n - i,
    {
        proof {
            assert(records@.skip(i as int)[0] == records@[i as int]);
            assert(records@.skip(i as int).skip(1) =~= records@.skip(i as int + 1));
        }
        let ghost before: Seq<AccessKey> = out@;
        match &records[i] {
            StateRecord::AccessKey { account_id, public_key, permission } => {
                out.push(
                    AccessKey {
                        public_key: public_key.clone(),
                        account_id: account_id.clone(),
                        action: AccessKeyAction::Add,
                        status: ExecutionStatus::Success,
                        receipt_hash: "genesis".to_owned(),
                        block_height: height,
                        permission: AccessKeyPermission::from(*permission),
                    },
                );
                proof {
                    assert(views_of(out@) =~= views_of(before).push(out@.last()@));
                }
            },
            StateRecord::Other => {},
        }
        proof {
            assert(views_of(out@) + snapshot_records(records@.skip(i as int + 1), height)
                =~= views_of(before) + snapshot_records(records@.skip(i as int), height));
        }
        i = i + 1;
    }
    proof {
        assert(snapshot_records(records@.skip(n as int), height) =~= Seq::<AccessKeyView>::empty());
        assert(views_of(out@) =~= views_of(out@) + snapshot_records(
            records@.skip(n as int),
            height,
        ));
    }
    out
}

/// Extracts the snapshot's access keys and bulk-inserts them in chunks.
/// Returns the number of chunks submitted.
pub fn insert_access_keys_from_dumped_state(
    table: &mut AccessKeysTable,
    records: &Vec<StateRecord>,
    height: u64,
    chunk_size: usize,
) -> (chunks_done: usize)
    requires
        old(table).well_formed(),
        chunk_size > 0,
    ensures
        final(table)@ == spec_insert_ignore(old(table)@, snapshot_records(records@, height)),
        final(table).well_formed(),
        snapshot_records(records@, height).len() == 0 ==> chunks_done == 0,
        snapshot_records(records@, height).len() > 0 ==> (chunks_done - 1) * chunk_size
            < snapshot_records(records@, height).len() <= chunks_done * chunk_size,
{
    let access_keys = access_keys_from_state(records, height);
    proof {
        assert(access_keys@.len() == snapshot_records(records@, height).len());
    }
    insert_in_chunks(table, access_keys, chunk_size)
}

/// The one-shot rebuild: clears the table, then loads the snapshot,
/// inside one logical operation window so no stale row survives.
/// Returns the number of chunks submitted.
pub fn dump_existing_access_keys(
    table: &mut AccessKeysTable,
    records: &Vec<StateRecord>,
    height: u64,
    chunk_size: usize,
) -> (chunks_done: usize)
    requires
        chunk_size > 0,
    ensures
        final(table)@ == spec_insert_ignore(
            Seq::empty(),
            snapshot_records(records@, height),
        ),
        final(table).well_formed(),
        snapshot_records(records@, height).len() == 0 ==> chunks_done == 0,
        snapshot_records(records@, height).len() > 0 ==> (chunks_done - 1) * chunk_size
            < snapshot_records(records@, height).len() <= chunks_done * chunk_size,
{
    table.delete_all();
    insert_access_keys_from_dumped_state(table, records, height, chunk_size)
}

/// Law: every row the snapshot extractor yields is settled.
pub proof fn lemma_snapshot_records_settled(records: Seq<StateRecord>, height: u64)
    ensures
        forall|j: int|
            0 <= j < snapshot_records(records, height).len() ==> snapshot_row_settled(
                #[trigger] snapshot_records(records, height)[j],
                height,
            ),
    decreases records.len(),
{
    if records.len() > 0 {
        lemma_snapshot_records_settled(records.skip(1), height);
        let whole = snapshot_records(records, height);
        let rest = snapshot_records(records.skip(1), height);
        assert forall|j: int| 0 <= j < whole.len() implies snapshot_row_settled(
            #[trigger] whole[j],
            height,
        ) by {
            match records[0] {
                StateRecord::AccessKey { account_id, public_key, permission } => {
                    if j > 0 {
                        assert(whole[j] == rest[j - 1]);
                    }
                },
                StateRecord::Other => {
                    assert(whole[j] == rest[j]);
                },
            }
        }
    }
}

/// Law: snapshot round trip. When a snapshot's access-key entries name
/// pairwise distinct (account, key) pairs, rebuilding from it yields
/// exactly one row per access-key entry, each settled: an addition with
/// status Success, the sentinel receipt hash, and the snapshot height.
pub proof fn lemma_snapshot_roundtrip(records: Seq<StateRecord>, height: u64)
    requires
        forall|k: int, l: int|
            0 <= k < l < snapshot_records(records, height).len() ==> !same_natural_key(
                snapshot_records(records, height)[k],
                snapshot_records(records, height)[l],
            ),
    ensures
        spec_insert_ignore(Seq::empty(), snapshot_records(records, height)) == snapshot_records(
            records,
            height,
        ),
        forall|j: int|
            0 <= j < snapshot_records(records, height).len() ==> snapshot_row_settled(
                #[trigger] snapshot_records(records, height)[j],
                height,
            ),
{
    let rows = snapshot_records(records, height);
    lemma_insert_all_fresh(Seq::empty(), rows);
    assert(Seq::empty() + rows =~= rows);
    lemma_snapshot_records_settled(records, height);
}

} // verus!

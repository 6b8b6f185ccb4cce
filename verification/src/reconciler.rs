//! The status reconciler: classifies a block's execution outcomes into
//! failed and succeeded groups and issues one targeted update per group.

use vstd::prelude::*;

use crate::access_keys::{same_natural_key, AccessKeyView};
use crate::enums::{status_of_view, ExecutionStatus};
use crate::store::{
    count_matching, receipt_id_set, spec_update_status, AccessKeysTable,
};
use crate::views::ExecutionOutcomeView;

verus! {

/// The receipt ids of the outcomes that classify as failed, in order.
pub open spec fn failed_ids(outcomes: Seq<ExecutionOutcomeView>) -> Seq<String>
    decreases outcomes.len(),
{
    if outcomes.len() == 0 {
        Seq::empty()
    } else if status_of_view(outcomes[0].status) == ExecutionStatus::Failed {
        seq![outcomes[0].receipt_id] + failed_ids(outcomes.skip(1))
    } else {
        failed_ids(outcomes.skip(1))
    }
}

/// The receipt ids of the outcomes that classify as succeeded, in order.
pub open spec fn succeeded_ids(outcomes: Seq<ExecutionOutcomeView>) -> Seq<String>
    decreases outcomes.len(),
{
    if outcomes.len() == 0 {
        Seq::empty()
    } else if status_of_view(outcomes[0].status) == ExecutionStatus::Success {
        seq![outcomes[0].receipt_id] + succeeded_ids(outcomes.skip(1))
    } else {
        succeeded_ids(outcomes.skip(1))
    }
}

/// The table after a reconciliation: the failed group's update, then
/// the succeeded group's update.
pub open spec fn spec_reconcile(
    rows: Seq<AccessKeyView>,
    failed: Set<Seq<char>>,
    succeeded: Set<Seq<char>>,
) -> Seq<AccessKeyView> {
    spec_update_status(
        spec_update_status(rows, failed, ExecutionStatus::Failed),
        succeeded,
        ExecutionStatus::Success,
    )
}

/// Splits a block's outcomes into a failed group and a succeeded group
/// of receipt ids. No outcome classifies as pending; the arm stands
/// only so that an inconsistent status is skipped rather than grouped.
#[verifier::loop_isolation(false)]
pub fn partition_outcomes(outcomes: &Vec<ExecutionOutcomeView>) -> (groups: (
    Vec<String>,
    Vec<String>,
))
    ensures
        groups.0@ == failed_ids(outcomes@),
        groups.1@ == succeeded_ids(outcomes@),
{
    let mut failed_receipt_ids: Vec<String> = Vec::new();
    let mut succeeded_receipt_ids: Vec<String> = Vec::new();
    let n = outcomes.len();
    let mut i: usize = 0;
    proof {
        assert(outcomes@.skip(0) =~= outcomes@);
    }
    while i < n
        invariant
            i <= n,
            failed_receipt_ids@ + failed_ids(outcomes@.skip(i as int)) == failed_ids(outcomes@),
            succeeded_receipt_ids@ + succeeded_ids(outcomes@.skip(i as int)) == succeeded_ids(
                outcomes@,
            ),
        decreases n - i,
    {
        proof {
            assert(outcomes@.skip(i as int)[0] == outcomes@[i as int]);
            assert(outcomes@.skip(i as int).skip(1) =~= outcomes@.skip(i as int + 1));
        }
        let ghost failed_before = failed_receipt_ids@;
        let ghost succeeded_before = succeeded_receipt_ids@;
        let status = ExecutionStatus::from(outcomes[i].status);
        match status {
            ExecutionStatus::Success => {
                succeeded_receipt_ids.push(outcomes[i].receipt_id.clone());
            },
            ExecutionStatus::Failed => {
                failed_receipt_ids.push(outcomes[i].receipt_id.clone());
            },
            ExecutionStatus::Pending => {
                // unreachable by classification; skipped, never grouped
            },
        }
        proof {
            assert(failed_receipt_ids@ + failed_ids(outcomes@.skip(i as int + 1)) =~= failed_before
                + failed_ids(outcomes@.skip(i as int)));
            assert(succeeded_receipt_ids@ + succeeded_ids(outcomes@.skip(i as int + 1))
                =~= succeeded_before + succeeded_ids(outcomes@.skip(i as int)));
        }
        i = i + 1;
    }
    proof {
        assert(outcomes@.skip(n as int) =~= Seq::<ExecutionOutcomeView>::empty());
        assert(failed_receipt_ids@ =~= failed_receipt_ids@ + failed_ids(outcomes@.skip(n as int)));
        assert(succeeded_receipt_ids@ =~= succeeded_receipt_ids@ + succeeded_ids(
            outcomes@.skip(n as int),
        ));
    }
    (failed_receipt_ids, succeeded_receipt_ids)
}

/// One targeted update: set the status of every row whose receipt hash
/// is among the ids. Pending is never an update target on this path.
/// Returns the number of rows touched; a difference from the number of
/// ids is informational, not an error -- an id may repeat, belong to a
/// receipt that never produced a row, or have been settled by an
/// earlier retry.
pub fn update_receipt_status(
    table: &mut AccessKeysTable,
    receipt_ids: &Vec<String>,
    status: ExecutionStatus,
) -> (rows_touched: usize)
    requires
        status != ExecutionStatus::Pending,
    ensures
        final(table)@ == spec_update_status(old(table)@, receipt_id_set(receipt_ids@), status),
        rows_touched == count_matching(old(table)@, receipt_id_set(receipt_ids@)),
        old(table).well_formed() ==> final(table).well_formed(),
{
    if receipt_ids.is_empty() {
        proof {
            lemma_update_with_no_ids(table@, receipt_ids@, status);
        }
        return 0;
    }
    table.update_status_by_receipt_hashes(receipt_ids, status)
}

/// Law: an update with no ids matches no row and changes nothing.
proof fn lemma_update_with_no_ids(
    rows: Seq<AccessKeyView>,
    ids: Seq<String>,
    status: ExecutionStatus,
)
    requires
        ids.len() == 0,
    ensures
        spec_update_status(rows, receipt_id_set(ids), status) == rows,
        count_matching(rows, receipt_id_set(ids)) == 0,
    decreases rows.len(),
{
    assert(forall|h: Seq<char>| !receipt_id_set(ids).contains(h));
    assert(spec_update_status(rows, receipt_id_set(ids), status) =~= rows);
    if rows.len() > 0 {
        lemma_update_with_no_ids(rows.skip(1), ids, status);
    }
}

/// Reconciles one block's outcomes: partitions them, then issues the
/// failed group's update and the succeeded group's update. Returns how
/// many rows each update touched.
pub fn handle_outcomes(table: &mut AccessKeysTable, outcomes: &Vec<ExecutionOutcomeView>) -> (touched: (
    usize,
    usize,
))
    ensures
        final(table)@ == spec_reconcile(
            old(table)@,
            receipt_id_set(failed_ids(outcomes@)),
            receipt_id_set(succeeded_ids(outcomes@)),
        ),
        old(table).well_formed() ==> final(table).well_formed(),
        touched.0 == count_matching(old(table)@, receipt_id_set(failed_ids(outcomes@))),
        touched.1 == count_matching(
            spec_update_status(
                old(table)@,
                receipt_id_set(failed_ids(outcomes@)),
                ExecutionStatus::Failed,
            ),
            receipt_id_set(succeeded_ids(outcomes@)),
        ),
{
    let groups = partition_outcomes(outcomes);
    let failed_touched = update_receipt_status(table, &groups.0, ExecutionStatus::Failed);
    let succeeded_touched = update_receipt_status(table, &groups.1, ExecutionStatus::Success);
    (failed_touched, succeeded_touched)
}

/// Law: reconciliation safety. A reconciliation keeps every row's
/// natural key and every field but the status; a row whose hash is in
/// the succeeded group and not in the failed group ends Success, one in
/// the failed group and not in the succeeded group ends Failed, and one
/// in neither group is untouched. With disjoint groups -- each receipt
/// id classifies one way -- no failed-group row is left Pending or
/// Success, and no succeeded-group row is left Pending or Failed.
pub proof fn lemma_reconciliation_safety(
    rows: Seq<AccessKeyView>,
    failed: Set<Seq<char>>,
    succeeded: Set<Seq<char>>,
)
    ensures
        spec_reconcile(rows, failed, succeeded).len() == rows.len(),
        forall|j: int|
            0 <= j < rows.len() ==> {
                let u = #[trigger] spec_reconcile(rows, failed, succeeded)[j];
                same_natural_key(u, rows[j]) && u.permission == rows[j].permission
                    && u.block_height == rows[j].block_height && (succeeded.contains(
                    rows[j].receipt_hash,
                ) ==> u.status == ExecutionStatus::Success) && (failed.contains(
                    rows[j].receipt_hash,
                ) && !succeeded.contains(rows[j].receipt_hash) ==> u.status
                    == ExecutionStatus::Failed) && (!failed.contains(rows[j].receipt_hash)
                    && !succeeded.contains(rows[j].receipt_hash) ==> u == rows[j])
            },
{
}

} // verus!

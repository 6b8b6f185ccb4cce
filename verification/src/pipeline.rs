//! The pipeline orchestrator: one iteration per incoming block payload,
//! classifying its receipts, upserting the derived rows, and
//! reconciling its outcomes.

use vstd::prelude::*;

use crate::access_keys::{records_of_receipt, views_of, AccessKey, AccessKeyView};
use crate::enums::{status_of_view, ExecutionStatus};
use crate::reconciler::{failed_ids, handle_outcomes, spec_reconcile, succeeded_ids};
use crate::store::{receipt_id_set, spec_insert_ignore, AccessKeysTable};
use crate::views::{ChunkView, ExecutionOutcomeView, ReceiptView, StreamerMessage};

verus! {

/// All execution outcomes a block's chunks deliver, in chunk order.
pub open spec fn all_outcomes(chunks: Seq<ChunkView>) -> Seq<ExecutionOutcomeView>
    decreases chunks.len(),
{
    if chunks.len() == 0 {
        Seq::empty()
    } else {
        chunks[0].receipt_execution_outcomes@ + all_outcomes(chunks.skip(1))
    }
}

/// The status already known for a receipt: the classification of the
/// first outcome delivered for it in this block, if any.
pub open spec fn spec_status_for(
    outcomes: Seq<ExecutionOutcomeView>,
    receipt_id: Seq<char>,
) -> Option<ExecutionStatus>
    decreases outcomes.len(),
{
    if outcomes.len() == 0 {
        None
    } else if outcomes[0].receipt_id@ == receipt_id {
        Some(status_of_view(outcomes[0].status))
    } else {
        spec_status_for(outcomes.skip(1), receipt_id)
    }
}

/// The rows a list of receipts implies, each receipt classified with
/// its already-known status.
pub open spec fn records_of_receipts(
    receipts: Seq<ReceiptView>,
    outcomes: Seq<ExecutionOutcomeView>,
    height: u64,
) -> Seq<AccessKeyView>
    decreases receipts.len(),
{
    if receipts.len() == 0 {
        Seq::empty()
    } else {
        records_of_receipt(receipts[0], height, spec_status_for(outcomes, receipts[0].receipt_id@))
            + records_of_receipts(receipts.skip(1), outcomes, height)
    }
}

/// The rows a block's chunks imply, chunk by chunk.
pub open spec fn records_of_chunks(
    chunks: Seq<ChunkView>,
    outcomes: Seq<ExecutionOutcomeView>,
    height: u64,
) -> Seq<AccessKeyView>
    decreases chunks.len(),
{
    if chunks.len() == 0 {
        Seq::empty()
    } else {
        records_of_receipts(chunks[0].receipts@, outcomes, height) + records_of_chunks(
            chunks.skip(1),
            outcomes,
            height,
        )
    }
}

/// The rows one block implies.
pub open spec fn records_of_block(chunks: Seq<ChunkView>, height: u64) -> Seq<AccessKeyView> {
    records_of_chunks(chunks, all_outcomes(chunks), height)
}

/// Gathers a block's outcomes across its chunks, in chunk order.
#[verifier::loop_isolation(false)]
pub fn collect_execution_outcomes(chunks: &Vec<ChunkView>) -> (outcomes: Vec<
    ExecutionOutcomeView,
>)
    ensures
        outcomes@ == all_outcomes(chunks@),
{
    let mut outcomes: Vec<ExecutionOutcomeView> = Vec::new();
    let n = chunks.len();
    let mut i: usize = 0;
    proof {
        assert(chunks@.skip(0) =~= chunks@);
    }
    while i < n
        invariant
            i <= n,
            outcomes@ + all_outcomes(chunks@.skip(i as int)) == all_outcomes(chunks@),
        decreases n - i,
    {
        proof {
            assert(chunks@.skip(i as int)[0] == chunks@[i as int]);
            assert(chunks@.skip(i as int).skip(1) =~= chunks@.skip(i as int + 1));
        }
        let chunk_outcomes = &chunks[i].receipt_execution_outcomes;
        let m = chunk_outcomes.len();
        let mut j: usize = 0;
        while j < m
            invariant
                j <= m,
                outcomes@ + chunk_outcomes@.skip(j as int) + all_outcomes(
                    chunks@.skip(i as int + 1),
                ) == all_outcomes(chunks@),
            decreases m - j,
        {
            let rebuilt = ExecutionOutcomeView {
                receipt_id: chunk_outcomes[j].receipt_id.clone(),
                status: chunk_outcomes[j].status,
            };
            proof {
                assert(rebuilt == chunk_outcomes@[j as int]);
            }
            let ghost before = outcomes@;
            outcomes.push(rebuilt);
            proof {
                assert(outcomes@ + chunk_outcomes@.skip(j as int + 1) =~= before
                    + chunk_outcomes@.skip(j as int));
            }
            j = j + 1;
        }
        proof {
            assert(chunk_outcomes@.skip(m as int) =~= Seq::<ExecutionOutcomeView>::empty());
            assert(outcomes@ + chunk_outcomes@.skip(m as int) =~= outcomes@);
        }
        i = i + 1;
    }
    proof {
        assert(all_outcomes(chunks@.skip(n as int)) =~= Seq::<ExecutionOutcomeView>::empty());
        assert(outcomes@ =~= outcomes@ + all_outcomes(chunks@.skip(n as int)));
    }
    outcomes
}

/// Looks up the status already known for a receipt among the block's
/// outcomes.
#[verifier::loop_isolation(false)]
pub fn receipt_status(outcomes: &Vec<ExecutionOutcomeView>, receipt_id: &String) -> (status:
    Option<ExecutionStatus>)
    ensures
        status == spec_status_for(outcomes@, receipt_id@),
{
    let n = outcomes.len();
    let mut i: usize = 0;
    proof {
        assert(outcomes@.skip(0) =~= outcomes@);
    }
    while i < n
        invariant
            i <= n,
            spec_status_for(outcomes@.skip(i as int), receipt_id@) == spec_status_for(
                outcomes@,
                receipt_id@,
            ),
        decreases n - i,
    {
        proof {
            assert(outcomes@.skip(i as int)[0] == outcomes@[i as int]);
            assert(outcomes@.skip(i as int).skip(1) =~= outcomes@.skip(i as int + 1));
        }
        if outcomes[i].receipt_id == *receipt_id {
            return Some(ExecutionStatus::from(outcomes[i].status));
        }
        i = i + 1;
    }
    proof {
        assert(outcomes@.skip(n as int) =~= Seq::<ExecutionOutcomeView>::empty());
    }
    None
}

/// Derives all lifecycle rows of one block and upserts them in one
/// statement, each receipt classified with the status its own block
/// already delivered, if any. Returns how many rows were inserted.
#[verifier::loop_isolation(false)]
pub fn insert_receipts(table: &mut AccessKeysTable, height: u64, chunks: &Vec<ChunkView>) -> (inserted: usize)
    requires
        old(table).well_formed(),
    ensures
        final(table)@ == spec_insert_ignore(old(table)@, records_of_block(chunks@, height)),
        final(table).well_formed(),
        final(table)@.len() == old(table)@.len() + inserted,
{
    let outcomes = collect_execution_outcomes(chunks);
    let mut access_keys: Vec<AccessKey> = Vec::new();
    let n = chunks.len();
    let mut i: usize = 0;
    proof {
        assert(chunks@.skip(0) =~= chunks@);
        assert(views_of(access_keys@) + records_of_chunks(chunks@, outcomes@, height)
            =~= records_of_block(chunks@, height));
    }
    while i < n
        invariant
            i <= n,
            views_of(access_keys@) + records_of_chunks(chunks@.skip(i as int), outcomes@, height)
                == records_of_block(chunks@, height),
        decreases n - i,
    {
        proof {
            assert(chunks@.skip(i as int)[0] == chunks@[i as int]);
            assert(chunks@.skip(i as int).skip(1) =~= chunks@.skip(i as int + 1));
        }
        let receipts = &chunks[i].receipts;
        let m = receipts.len();
        let mut j: usize = 0;
        proof {
            assert(receipts@.skip(0) =~= receipts@);
        }
        while j < m
            invariant
                j <= m,
                views_of(access_keys@) + records_of_receipts(
                    receipts@.skip(j as int),
                    outcomes@,
                    height,
                ) + records_of_chunks(chunks@.skip(i as int + 1), outcomes@, height)
                    == records_of_block(chunks@, height),
            decreases m - j,
        {
            proof {
                assert(receipts@.skip(j as int)[0] == receipts@[j as int]);
                assert(receipts@.skip(j as int).skip(1) =~= receipts@.skip(j as int + 1));
            }
            let status = receipt_status(&outcomes, &receipts[j].receipt_id);
            let mut derived = AccessKey::from_receipt_view(&receipts[j], height, status);
            let ghost before = access_keys@;
            let ghost derived_views = views_of(derived@);
            access_keys.append(&mut derived);
            proof {
                assert(views_of(access_keys@) =~= views_of(before) + derived_views);
                assert(views_of(access_keys@) + records_of_receipts(
                    receipts@.skip(j as int + 1),
                    outcomes@,
                    height,
                ) =~= views_of(before) + records_of_receipts(
                    receipts@.skip(j as int),
                    outcomes@,
                    height,
                ));
            }
            j = j + 1;
        }
        proof {
            assert(records_of_receipts(receipts@.skip(m as int), outcomes@, height) =~= Seq::<
                AccessKeyView,
            >::empty());
            assert(views_of(access_keys@) + records_of_chunks(
                chunks@.skip(i as int + 1),
                outcomes@,
                height,
            ) =~= views_of(access_keys@) + records_of_receipts(
                receipts@.skip(m as int),
                outcomes@,
                height,
            ) + records_of_chunks(chunks@.skip(i as int + 1), outcomes@, height));
        }
        i = i + 1;
    }
    proof {
        assert(records_of_chunks(chunks@.skip(n as int), outcomes@, height) =~= Seq::<
            AccessKeyView,
        >::empty());
        assert(views_of(access_keys@) =~= records_of_block(chunks@, height));
    }
    if !access_keys.is_empty() {
        table.insert_on_conflict_do_nothing(access_keys)
    } else {
        proof {
            assert(views_of(access_keys@) =~= Seq::<AccessKeyView>::empty());
        }
        0
    }
}

/// The table one block payload leaves behind: the block's rows
/// upserted, then the failed group's update, then the succeeded
/// group's.
pub open spec fn spec_handle_message(
    rows: Seq<AccessKeyView>,
    msg: StreamerMessage,
) -> Seq<AccessKeyView> {
    spec_reconcile(
        spec_insert_ignore(rows, records_of_block(msg.chunks@, msg.block_height)),
        receipt_id_set(failed_ids(all_outcomes(msg.chunks@))),
        receipt_id_set(succeeded_ids(all_outcomes(msg.chunks@))),
    )
}

/// One pipeline iteration: classifies and upserts the block's receipts,
/// then reconciles the block's outcomes. The insert precedes the
/// updates that may target its rows; everything written is an upsert or
/// a keyed status update, so replaying a block leaves the same table.
pub fn handle_message(table: &mut AccessKeysTable, streamer_message: &StreamerMessage)
    requires
        old(table).well_formed(),
    ensures
        final(table)@ == spec_handle_message(old(table)@, *streamer_message),
        final(table).well_formed(),
{
    insert_receipts(table, streamer_message.block_height, &streamer_message.chunks);
    let outcomes = collect_execution_outcomes(&streamer_message.chunks);
    handle_outcomes(table, &outcomes);
}

} // verus!

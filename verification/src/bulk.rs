//! The bulk writer: chunking, the retry policy, progress reporting, and
//! the chunked upsert.
//!
//! Transient storage failures are an outside event; the writer exposes
//! the decision -- retry after the fixed delay, or give up -- and the
//! upsert itself is idempotent, so a retried chunk is harmless.

use vstd::prelude::*;

use crate::access_keys::{views_of, AccessKey, AccessKeyView};
use crate::store::{lemma_insert_append, spec_insert_ignore, AccessKeysTable};

verus! {

/// Fixed delay before a retry, in milliseconds.
pub const RETRY_INTERVAL_MILLIS: u64 = 100;

/// Reference number of records per upsert statement.
pub const INSERT_CHUNK_SIZE: usize = 5000;

/// How a caller wants transient storage failures retried: forever for
/// streaming paths -- a stuck chunk only delays visibility -- or a
/// bounded number of attempts where eventual failure reporting is
/// preferred.
#[derive(Clone, Copy, Debug, PartialEq, Eq, Structural)]
pub enum RetryPolicy {
    Unbounded,
    Limited { max_attempts: u64 },
}

/// What to do after a failed attempt.
#[derive(Clone, Copy, Debug, PartialEq, Eq, Structural)]
pub enum RetryDecision {
    RetryAfterDelay { delay_millis: u64 },
    GiveUp,
}

/// The decision owed after a number of failed attempts under a policy.
pub open spec fn spec_retry_decision(policy: RetryPolicy, attempts_made: u64) -> RetryDecision {
    match policy {
        RetryPolicy::Unbounded => RetryDecision::RetryAfterDelay {
            delay_millis: RETRY_INTERVAL_MILLIS,
        },
        RetryPolicy::Limited { max_attempts } => if attempts_made < max_attempts {
            RetryDecision::RetryAfterDelay { delay_millis: RETRY_INTERVAL_MILLIS }
        } else {
            RetryDecision::GiveUp
        },
    }
}

/// Decides whether a failed attempt is retried after the fixed delay or
/// surfaced to the caller.
pub fn retry_decision(policy: RetryPolicy, attempts_made: u64) -> (d: RetryDecision)
    ensures
        d == spec_retry_decision(policy, attempts_made),
{
    match policy {
        RetryPolicy::Unbounded => RetryDecision::RetryAfterDelay {
            delay_millis: RETRY_INTERVAL_MILLIS,
        },
        RetryPolicy::Limited { max_attempts } => {
            if attempts_made < max_attempts {
                RetryDecision::RetryAfterDelay { delay_millis: RETRY_INTERVAL_MILLIS }
            } else {
                RetryDecision::GiveUp
            }
        },
    }
}

/// Percentage of chunks completed, for operator-visible progress.
pub fn progress_percent(completed: usize, total: usize) -> (p: usize)
    requires
        0 < total,
        completed <= total,
    ensures
        p == completed as int * 100 / total as int,
        p <= 100,
{
    proof {
        assert(completed as int * 100 / total as int <= 100) by (nonlinear_arith)
            requires
                0 < total,
                completed <= total,
        ;
    }
    let wide = (completed as u128) * 100 / (total as u128);
    wide as usize
}

/// The chunks' contents, concatenated back together.
pub open spec fn concat_chunks(chunks: Seq<Seq<AccessKeyView>>) -> Seq<AccessKeyView>
    decreases chunks.len(),
{
    if chunks.len() == 0 {
        Seq::empty()
    } else {
        chunks[0] + concat_chunks(chunks.skip(1))
    }
}

/// The contents of each chunk.
pub open spec fn chunk_views(chunks: Seq<Vec<AccessKey>>) -> Seq<Seq<AccessKeyView>> {
    chunks.map_values(|c: Vec<AccessKey>| views_of(c@))
}

/// Law: appending a chunk appends its contents to the concatenation.
pub proof fn lemma_concat_push(chunks: Seq<Seq<AccessKeyView>>, tail: Seq<AccessKeyView>)
    ensures
        concat_chunks(chunks.push(tail)) == concat_chunks(chunks) + tail,
    decreases chunks.len(),
{
    if chunks.len() == 0 {
        let single = chunks.push(tail);
        assert(single[0] == tail);
        assert(single.skip(1) =~= Seq::<Seq<AccessKeyView>>::empty());
        assert(concat_chunks(single.skip(1)) == Seq::<AccessKeyView>::empty());
        assert(concat_chunks(single) == tail + Seq::<AccessKeyView>::empty());
        assert(tail + Seq::<AccessKeyView>::empty() =~= tail);
        assert(concat_chunks(chunks) + tail =~= tail);
    } else {
        assert(chunks.push(tail)[0] == chunks[0]);
        assert(chunks.push(tail).skip(1) =~= chunks.skip(1).push(tail));
        lemma_concat_push(chunks.skip(1), tail);
        assert(chunks[0] + (concat_chunks(chunks.skip(1)) + tail) =~= (chunks[0] + concat_chunks(
            chunks.skip(1),
        )) + tail);
    }
}

/// Partitions a batch into chunks of the given size, in order, only the
/// last chunk possibly smaller. An empty batch yields no chunk; any
/// other batch yields the fewest chunks of that size that hold it.
#[verifier::loop_isolation(false)]
pub fn chunks_of(records: Vec<AccessKey>, chunk_size: usize) -> (chunks: Vec<Vec<AccessKey>>)
    requires
        chunk_size > 0,
    ensures
        concat_chunks(chunk_views(chunks@)) == views_of(records@),
        forall|j: int| 0 <= j < chunks@.len() ==> 0 < #[trigger] chunks@[j]@.len() <= chunk_size,
        forall|j: int| 0 <= j < chunks@.len() - 1 ==> #[trigger] chunks@[j]@.len() == chunk_size,
        records@.len() == 0 ==> chunks@.len() == 0,
        records@.len() > 0 ==> (chunks@.len() - 1) * chunk_size < records@.len() <= chunks@.len()
            * chunk_size,
{
    let ghost all: Seq<AccessKeyView> = views_of(records@);
    let mut rest = records;
    let mut chunks: Vec<Vec<AccessKey>> = Vec::new();
    proof {
        assert(concat_chunks(chunk_views(chunks@)) + views_of(rest@) =~= all);
    }
    while rest.len() > chunk_size
        invariant
            concat_chunks(chunk_views(chunks@)) + views_of(rest@) == all,
            forall|j: int| 0 <= j < chunks@.len() ==> #[trigger] chunks@[j]@.len() == chunk_size,
            chunks@.len() * chunk_size + rest@.len() == all.len(),
        decreases rest@.len(),
    {
        let ghost chunks_before = chunks@;
        let ghost rest_before: Seq<AccessKey> = rest@;
        let tail = rest.split_off(chunk_size);
        chunks.push(rest);
        rest = tail;
        proof {
            assert(chunks@ =~= chunks_before.push(chunks@.last()));
            assert(chunk_views(chunks@) =~= chunk_views(chunks_before).push(
                views_of(chunks@.last()@),
            ));
            lemma_concat_push(chunk_views(chunks_before), views_of(chunks@.last()@));
            assert(views_of(chunks@.last()@) + views_of(rest@) =~= views_of(rest_before));
            assert((concat_chunks(chunk_views(chunks_before)) + views_of(chunks@.last()@))
                + views_of(rest@) =~= concat_chunks(chunk_views(chunks_before)) + views_of(
                rest_before,
            ));
            assert(chunks@.len() * chunk_size == chunks_before.len() * chunk_size + chunk_size)
                by (nonlinear_arith)
                requires
                    chunks@.len() == chunks_before.len() + 1,
            ;
        }
    }
    let ghost chunks_full = chunks@;
    if rest.len() > 0 {
        chunks.push(rest);
        proof {
            assert(chunks@ =~= chunks_full.push(chunks@.last()));
            assert(chunk_views(chunks@) =~= chunk_views(chunks_full).push(
                views_of(chunks@.last()@),
            ));
            lemma_concat_push(chunk_views(chunks_full), views_of(chunks@.last()@));
            assert((chunks@.len() - 1) * chunk_size < all.len() <= chunks@.len() * chunk_size)
                by (nonlinear_arith)
                requires
                    chunks@.len() == chunks_full.len() + 1,
                    chunks_full.len() * chunk_size + chunks@.last()@.len() == all.len(),
                    0 < chunks@.last()@.len() <= chunk_size,
            ;
        }
    } else {
        proof {
            assert(views_of(rest@) =~= Seq::<AccessKeyView>::empty());
            assert(concat_chunks(chunk_views(chunks@)) =~= concat_chunks(chunk_views(chunks@))
                + views_of(rest@));
            if all.len() > 0 {
                assert(chunks@.len() > 0) by (nonlinear_arith)
                    requires
                        chunks@.len() * chunk_size == all.len(),
                        all.len() > 0,
                ;
                assert((chunks@.len() - 1) * chunk_size < all.len() <= chunks@.len() * chunk_size)
                    by (nonlinear_arith)
                    requires
                        chunks@.len() * chunk_size == all.len(),
                        chunks@.len() > 0,
                        chunk_size > 0,
                ;
            }
        }
    }
    chunks
}

/// The insert path of the bulk writer: upserts a batch chunk by chunk,
/// one upsert statement per chunk, chunks in order. The table ends as
/// if the whole batch had been one statement, whatever the chunking.
/// Returns the number of chunks submitted.
#[verifier::loop_isolation(false)]
pub fn insert_in_chunks(
    table: &mut AccessKeysTable,
    records: Vec<AccessKey>,
    chunk_size: usize,
) -> (chunks_done: usize)
    requires
        old(table).well_formed(),
        chunk_size > 0,
    ensures
        final(table)@ == spec_insert_ignore(old(table)@, views_of(records@)),
        final(table).well_formed(),
        records@.len() == 0 ==> chunks_done == 0,
        records@.len() > 0 ==> (chunks_done - 1) * chunk_size < records@.len() <= chunks_done
            * chunk_size,
{
    let ghost orig: Seq<AccessKeyView> = old(table)@;
    let ghost all: Seq<AccessKeyView> = views_of(records@);
    let mut remaining = chunks_of(records, chunk_size);
    let total_chunks = remaining.len();
    let mut chunks_done: usize = 0;
    while remaining.len() > 0
        invariant
            table.well_formed(),
            chunks_done + remaining@.len() == total_chunks,
            spec_insert_ignore(table@, concat_chunks(chunk_views(remaining@)))
                == spec_insert_ignore(orig, all),
        decreases remaining@.len(),
    {
        let ghost remaining_before = remaining@;
        let chunk = remaining.remove(0);
        proof {
            assert(chunk_views(remaining_before)[0] == views_of(chunk@));
            assert(chunk_views(remaining_before).skip(1) =~= chunk_views(remaining@));
        }
        let ghost table_before: Seq<AccessKeyView> = table@;
        table.insert_on_conflict_do_nothing(chunk);
        proof {
            lemma_insert_append(
                table_before,
                views_of(chunk@),
                concat_chunks(chunk_views(remaining@)),
            );
        }
        chunks_done = chunks_done + 1;
    }
    proof {
        assert(concat_chunks(chunk_views(remaining@)) =~= Seq::<AccessKeyView>::empty());
    }
    chunks_done
}

} // verus!

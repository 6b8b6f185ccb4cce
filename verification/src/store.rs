//! The persisted lifecycle table, modeled.
//!
//! The storage engine is an external collaborator that is relied on for
//! one statement at a time: an upsert that ignores natural-key
//! conflicts, a filtered status update, and a table clear. This module
//! states what each statement does to the table and proves the laws the
//! pipeline depends on.

use vstd::prelude::*;

use crate::access_keys::{same_natural_key, views_of, AccessKey, AccessKeyView};
use crate::enums::ExecutionStatus;

verus! {

/// Whether a row with the given natural key is present.
pub open spec fn key_present(rows: Seq<AccessKeyView>, r: AccessKeyView) -> bool {
    exists|j: int| 0 <= j < rows.len() && same_natural_key(rows[j], r)
}

/// No two rows share a natural key.
pub open spec fn keys_unique(rows: Seq<AccessKeyView>) -> bool {
    forall|i: int, j: int|
        0 <= i < j < rows.len() ==> !same_natural_key(rows[i], rows[j])
}

/// The rows after one upsert statement that ignores conflicts: each
/// incoming record is appended unless a row with its natural key is
/// already there, rows appended earlier in the same statement included.
pub open spec fn spec_insert_ignore(
    rows: Seq<AccessKeyView>,
    recs: Seq<AccessKeyView>,
) -> Seq<AccessKeyView>
    decreases recs.len(),
{
    if recs.len() == 0 {
        rows
    } else if key_present(rows, recs[0]) {
        spec_insert_ignore(rows, recs.skip(1))
    } else {
        spec_insert_ignore(rows.push(recs[0]), recs.skip(1))
    }
}

/// The status a row has after one filtered update statement.
pub open spec fn with_status(r: AccessKeyView, status: ExecutionStatus) -> AccessKeyView {
    AccessKeyView {
        public_key: r.public_key,
        account_id: r.account_id,
        action: r.action,
        status: status,
        receipt_hash: r.receipt_hash,
        block_height: r.block_height,
        permission: r.permission,
    }
}

/// The rows after one filtered update statement: every row whose
/// receipt hash is in the set gets the status, the others stay.
pub open spec fn spec_update_status(
    rows: Seq<AccessKeyView>,
    hashes: Set<Seq<char>>,
    status: ExecutionStatus,
) -> Seq<AccessKeyView> {
    rows.map(
        |i: int, r: AccessKeyView|
            if hashes.contains(r.receipt_hash) {
                with_status(r, status)
            } else {
                r
            },
    )
}

/// How many rows a filtered update matches.
pub open spec fn count_matching(rows: Seq<AccessKeyView>, hashes: Set<Seq<char>>) -> nat
    decreases rows.len(),
{
    if rows.len() == 0 {
        0
    } else {
        (if hashes.contains(rows[0].receipt_hash) {
            1nat
        } else {
            0nat
        }) + count_matching(rows.skip(1), hashes)
    }
}

/// The lifecycle table. Its one invariant: exactly one row per natural
/// key, so re-delivery of an event never duplicates a row.
pub struct AccessKeysTable {
    rows: Vec<AccessKey>,
}

impl View for AccessKeysTable {
    type V = Seq<AccessKeyView>;

    closed spec fn view(&self) -> Seq<AccessKeyView> {
        views_of(self.rows@)
    }
}

impl AccessKeysTable {
    pub open spec fn well_formed(&self) -> bool {
        keys_unique(self@)
    }

    /// An empty table.
    pub fn new() -> (t: Self)
        ensures
            t@ == Seq::<AccessKeyView>::empty(),
            t.well_formed(),
    {
        let t = AccessKeysTable { rows: Vec::new() };
        proof {
            assert(t@ =~= Seq::<AccessKeyView>::empty());
        }
        t
    }

    /// The rows, for reading the table out.
    pub fn rows(&self) -> (rows: &Vec<AccessKey>)
        ensures
            views_of(rows@) == self@,
    {
        &self.rows
    }

    /// How many rows the table holds.
    pub fn len(&self) -> (n: usize)
        ensures
            n == self@.len(),
    {
        self.rows.len()
    }

    /// The table-clearing statement that precedes a snapshot rebuild.
    pub fn delete_all(&mut self)
        ensures
            final(self)@ == Seq::<AccessKeyView>::empty(),
            final(self).well_formed(),
    {
        self.rows.clear();
        proof {
            assert(self@ =~= Seq::<AccessKeyView>::empty());
        }
    }

    /// Whether a row with the record's natural key is already there.
    fn contains_key(&self, rec: &AccessKey) -> (found: bool)
        ensures
            found == key_present(self@, rec@),
    {
        let n = self.rows.len();
        let mut j: usize = 0;
        while j < n
            invariant
                n == self.rows@.len(),
                j <= n,
                forall|i: int| 0 <= i < j ==> !same_natural_key(self@[i], rec@),
            decreases n - j,
        {
            if same_key(&self.rows[j], rec) {
                proof {
                    assert(same_natural_key(self@[j as int], rec@));
                }
                return true;
            }
            j = j + 1;
        }
        false
    }

    /// One upsert statement: insert every record, and on a natural-key
    /// conflict leave the existing row untouched. Returns how many rows
    /// were inserted.
    #[verifier::loop_isolation(false)]
    pub fn insert_on_conflict_do_nothing(&mut self, records: Vec<AccessKey>) -> (inserted: usize)
        requires
            old(self).well_formed(),
        ensures
            final(self)@ == spec_insert_ignore(old(self)@, views_of(records@)),
            final(self).well_formed(),
            final(self)@.len() == old(self)@.len() + inserted,
    {
        let ghost orig: Seq<AccessKeyView> = self@;
        let mut inserted: usize = 0;
        let mut remaining = records;
        proof {
            assert(views_of(remaining@) =~= views_of(records@));
        }
        while remaining.len() > 0
            invariant
                self.well_formed(),
                spec_insert_ignore(orig, views_of(records@)) == spec_insert_ignore(
                    self@,
                    views_of(remaining@),
                ),
                self@.len() == orig.len() + inserted,
            decreases remaining.len(),
        {
            let ghost before_rows: Seq<AccessKeyView> = self@;
            let ghost before_recs: Seq<AccessKey> = remaining@;
            let rec = remaining.remove(0);
            proof {
                assert(views_of(before_recs)[0] == rec@);
                assert(views_of(before_recs).skip(1) =~= views_of(remaining@));
            }
            if !self.contains_key(&rec) {
                let ghost r: AccessKeyView = rec@;
                self.rows.push(rec);
                let grown = self.rows.len();
                proof {
                    assert(grown == views_of(self.rows@).len());
                    assert(inserted < grown);
                }
                inserted = inserted + 1;
                proof {
                    assert(self@ =~= before_rows.push(r));
                    assert forall|i: int, j: int| 0 <= i < j < self@.len() implies
                        !same_natural_key(self@[i], self@[j]) by {
                        if j == self@.len() - 1 {
                            assert(!key_present(before_rows, r));
                            assert(self@[i] == before_rows[i]);
                        }
                    }
                }
            }
        }
        proof {
            assert(views_of(remaining@) =~= Seq::<AccessKeyView>::empty());
        }
        inserted
    }

    /// One filtered update statement: set the status of every row whose
    /// receipt hash is among the ids. Returns how many rows matched,
    /// which the caller may compare with how many ids it sent.
    #[verifier::loop_isolation(false)]
    pub fn update_status_by_receipt_hashes(
        &mut self,
        receipt_ids: &Vec<String>,
        status: ExecutionStatus,
    ) -> (rows_touched: usize)
        ensures
            final(self)@ == spec_update_status(old(self)@, receipt_id_set(receipt_ids@), status),
            rows_touched == count_matching(old(self)@, receipt_id_set(receipt_ids@)),
            old(self).well_formed() ==> final(self).well_formed(),
    {
        let ghost orig: Seq<AccessKeyView> = self@;
        let ghost hashes: Set<Seq<char>> = receipt_id_set(receipt_ids@);
        let n = self.rows.len();
        let mut rows_touched: usize = 0;
        let mut k: usize = 0;
        proof {
            assert(orig.skip(0) =~= orig);
        }
        while k < n
            invariant
                n == self.rows@.len(),
                n == orig.len(),
                k <= n,
                rows_touched <= k,
                forall|j: int| 0 <= j < k ==> self@[j] == spec_update_status(
                    orig,
                    hashes,
                    status,
                )[j],
                forall|j: int| k <= j < n ==> self@[j] == orig[j],
                rows_touched + count_matching(orig.skip(k as int), hashes) == count_matching(
                    orig,
                    hashes,
                ),
            decreases n - k,
        {
            proof {
                lemma_count_matching_skip(orig, hashes, k as int);
                assert(self@[k as int] == self.rows@[k as int]@);
                assert(orig[k as int].receipt_hash == self.rows@[k as int].receipt_hash@);
            }
            let matched = contains_receipt_id(receipt_ids, &self.rows[k].receipt_hash);
            if matched {
                let updated = AccessKey {
                    public_key: self.rows[k].public_key.clone(),
                    account_id: self.rows[k].account_id.clone(),
                    action: self.rows[k].action,
                    status,
                    receipt_hash: self.rows[k].receipt_hash.clone(),
                    block_height: self.rows[k].block_height,
                    permission: self.rows[k].permission,
                };
                let ghost before: Seq<AccessKey> = self.rows@;
                proof {
                    assert(updated@ == with_status(orig[k as int], status));
                }
                self.rows[k] = updated;
                proof {
                    assert(self@ =~= views_of(before).update(
                        k as int,
                        with_status(orig[k as int], status),
                    ));
                    assert(hashes.contains(orig[k as int].receipt_hash));
                    assert(self@[k as int] == spec_update_status(orig, hashes, status)[k as int]);
                }
                rows_touched = rows_touched + 1;
            } else {
                proof {
                    assert(!hashes.contains(orig[k as int].receipt_hash));
                    assert(self@[k as int] == spec_update_status(orig, hashes, status)[k as int]);
                }
            }
            k = k + 1;
        }
        proof {
            assert(orig.skip(n as int) =~= Seq::<AccessKeyView>::empty());
            assert(self@ =~= spec_update_status(orig, hashes, status));
            if keys_unique(orig) {
                assert forall|i: int, j: int| 0 <= i < j < self@.len() implies
                    !same_natural_key(self@[i], self@[j]) by {
                    assert(!same_natural_key(orig[i], orig[j]));
                }
            }
        }
        rows_touched
    }
}

/// Whether two rows carry the same natural key.
fn same_key(a: &AccessKey, b: &AccessKey) -> (r: bool)
    ensures
        r == same_natural_key(a@, b@),
{
    a.public_key == b.public_key && a.account_id == b.account_id && a.action == b.action
        && a.receipt_hash == b.receipt_hash
}

/// The receipt hashes named by a list of ids.
pub open spec fn receipt_id_set(ids: Seq<String>) -> Set<Seq<char>> {
    Set::new(|h: Seq<char>| exists|i: int| 0 <= i < ids.len() && ids[i]@ == h)
}

/// Whether a receipt hash is among the ids.
fn contains_receipt_id(ids: &Vec<String>, hash: &String) -> (found: bool)
    ensures
        found == receipt_id_set(ids@).contains(hash@),
{
    let n = ids.len();
    let mut j: usize = 0;
    while j < n
        invariant
            n == ids@.len(),
            j <= n,
            forall|i: int| 0 <= i < j ==> ids@[i]@ != hash@,
        decreases n - j,
    {
        if ids[j] == *hash {
            proof {
                assert(ids@[j as int]@ == hash@);
                assert(receipt_id_set(ids@).contains(hash@));
            }
            return true;
        }
        j = j + 1;
    }
    proof {
        assert(!receipt_id_set(ids@).contains(hash@));
    }
    false
}

/// Law: an upsert keeps every existing row unchanged and in place: on a
/// natural-key conflict the first written values win.
pub proof fn lemma_insert_preserves_rows(rows: Seq<AccessKeyView>, recs: Seq<AccessKeyView>)
    ensures
        spec_insert_ignore(rows, recs).len() >= rows.len(),
        forall|j: int|
            0 <= j < rows.len() ==> #[trigger] spec_insert_ignore(rows, recs)[j] == rows[j],
    decreases recs.len(),
{
    if recs.len() > 0 {
        if key_present(rows, recs[0]) {
            lemma_insert_preserves_rows(rows, recs.skip(1));
        } else {
            lemma_insert_preserves_rows(rows.push(recs[0]), recs.skip(1));
        }
    }
}

/// Law: a key present before an upsert is still present after it.
pub proof fn lemma_insert_keeps_present(
    rows: Seq<AccessKeyView>,
    recs: Seq<AccessKeyView>,
    r: AccessKeyView,
)
    requires
        key_present(rows, r),
    ensures
        key_present(spec_insert_ignore(rows, recs), r),
{
    lemma_insert_preserves_rows(rows, recs);
    let j = choose|j: int| 0 <= j < rows.len() && same_natural_key(rows[j], r);
    assert(spec_insert_ignore(rows, recs)[j] == rows[j]);
}

/// Law: after an upsert, every record of the batch has its key present.
pub proof fn lemma_insert_makes_present(
    rows: Seq<AccessKeyView>,
    recs: Seq<AccessKeyView>,
    k: int,
)
    requires
        0 <= k < recs.len(),
    ensures
        key_present(spec_insert_ignore(rows, recs), recs[k]),
    decreases recs.len(),
{
    if k == 0 {
        if key_present(rows, recs[0]) {
            lemma_insert_keeps_present(rows, recs.skip(1), recs[0]);
        } else {
            let grown = rows.push(recs[0]);
            assert(same_natural_key(grown[rows.len() as int], recs[0]));
            lemma_insert_keeps_present(grown, recs.skip(1), recs[0]);
        }
    } else {
        assert(recs.skip(1)[k - 1] == recs[k]);
        if key_present(rows, recs[0]) {
            lemma_insert_makes_present(rows, recs.skip(1), k - 1);
        } else {
            lemma_insert_makes_present(rows.push(recs[0]), recs.skip(1), k - 1);
        }
    }
}

/// Law: an upsert whose every record's key is already present changes
/// nothing.
pub proof fn lemma_insert_all_present_noop(rows: Seq<AccessKeyView>, recs: Seq<AccessKeyView>)
    requires
        forall|k: int| 0 <= k < recs.len() ==> key_present(rows, #[trigger] recs[k]),
    ensures
        spec_insert_ignore(rows, recs) == rows,
    decreases recs.len(),
{
    if recs.len() > 0 {
        assert(key_present(rows, recs[0]));
        assert(forall|k: int|
            0 <= k < recs.skip(1).len() ==> key_present(rows, #[trigger] recs.skip(1)[k]));
        lemma_insert_all_present_noop(rows, recs.skip(1));
    }
}

/// Law: delivering the same batch a second time changes nothing; the
/// upsert is idempotent, so re-delivery and replay are safe.
pub proof fn lemma_insert_idempotent(rows: Seq<AccessKeyView>, recs: Seq<AccessKeyView>)
    ensures
        spec_insert_ignore(spec_insert_ignore(rows, recs), recs) == spec_insert_ignore(rows, recs),
{
    let once = spec_insert_ignore(rows, recs);
    assert forall|k: int| 0 <= k < recs.len() implies key_present(once, #[trigger] recs[k]) by {
        lemma_insert_makes_present(rows, recs, k);
    }
    lemma_insert_all_present_noop(once, recs);
}

/// Law: repeating a filtered update changes nothing more, so retrying
/// the whole update statement after a transient failure is safe.
pub proof fn lemma_update_idempotent(
    rows: Seq<AccessKeyView>,
    hashes: Set<Seq<char>>,
    status: ExecutionStatus,
)
    ensures
        spec_update_status(spec_update_status(rows, hashes, status), hashes, status)
            == spec_update_status(rows, hashes, status),
{
    assert(spec_update_status(spec_update_status(rows, hashes, status), hashes, status)
        =~= spec_update_status(rows, hashes, status));
}

/// Law: one upsert of a concatenation equals two upserts in sequence,
/// so chunking a batch does not change the resulting table.
pub proof fn lemma_insert_append(
    rows: Seq<AccessKeyView>,
    a: Seq<AccessKeyView>,
    b: Seq<AccessKeyView>,
)
    ensures
        spec_insert_ignore(rows, a + b) == spec_insert_ignore(spec_insert_ignore(rows, a), b),
    decreases a.len(),
{
    if a.len() == 0 {
        assert(a + b =~= b);
    } else {
        assert((a + b)[0] == a[0]);
        assert((a + b).skip(1) =~= a.skip(1) + b);
        if key_present(rows, a[0]) {
            lemma_insert_append(rows, a.skip(1), b);
        } else {
            lemma_insert_append(rows.push(a[0]), a.skip(1), b);
        }
    }
}

/// Law: when no incoming key is already present and the incoming keys
/// are pairwise distinct, an upsert appends the whole batch.
pub proof fn lemma_insert_all_fresh(rows: Seq<AccessKeyView>, recs: Seq<AccessKeyView>)
    requires
        forall|k: int| 0 <= k < recs.len() ==> !key_present(rows, #[trigger] recs[k]),
        forall|k: int, l: int|
            0 <= k < l < recs.len() ==> !same_natural_key(recs[k], recs[l]),
    ensures
        spec_insert_ignore(rows, recs) == rows + recs,
    decreases recs.len(),
{
    if recs.len() == 0 {
        assert(rows + recs =~= rows);
    } else {
        assert(!key_present(rows, recs[0]));
        let grown = rows.push(recs[0]);
        assert forall|k: int|
            0 <= k < recs.skip(1).len() implies !key_present(grown, #[trigger] recs.skip(1)[k]) by {
            assert(recs.skip(1)[k] == recs[k + 1]);
            assert(!same_natural_key(recs[0], recs[k + 1]));
            assert(forall|j: int|
                0 <= j < rows.len() ==> !same_natural_key(#[trigger] grown[j], recs[k + 1]));
            assert(grown[rows.len() as int] == recs[0]);
        }
        assert(forall|k: int, l: int|
            0 <= k < l < recs.skip(1).len() ==> !same_natural_key(
                #[trigger] recs.skip(1)[k],
                #[trigger] recs.skip(1)[l],
            ));
        lemma_insert_all_fresh(grown, recs.skip(1));
        assert(grown + recs.skip(1) =~= rows + recs);
    }
}

/// Law: one step of the matched-row count, read off the first row.
proof fn lemma_count_matching_skip(rows: Seq<AccessKeyView>, hashes: Set<Seq<char>>, k: int)
    requires
        0 <= k < rows.len(),
    ensures
        count_matching(rows.skip(k), hashes) == (if hashes.contains(rows[k].receipt_hash) {
            1nat
        } else {
            0nat
        }) + count_matching(rows.skip(k + 1), hashes),
{
    assert(rows.skip(k)[0] == rows[k]);
    assert(rows.skip(k).skip(1) =~= rows.skip(k + 1));
}

} // verus!

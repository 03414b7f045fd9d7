//! In-memory model of the relational store's contract: a batched insert that
//! silently ignores rows whose `(source_name, article_id)` key is already
//! present, and reports the ids of the rows it actually kept. The pipeline's
//! dedup-on-write guarantee is stated and proved against this model.

use vstd::prelude::*;

use crate::news::InsertNewsInput;

verus! {

/// Relies on std's `str` equality: two string slices are equal exactly when
/// their character sequences are.
#[verifier::external_body]
pub(crate) fn str_eq(a: &str, b: &str) -> (r: bool)
    ensures
        r == (a@ == b@),
{
    a == b
}

/// Whether some row of `rows` carries the dedup key `k`.
pub open spec fn has_key(rows: Seq<InsertNewsInput>, k: (Seq<char>, Seq<char>)) -> bool {
    exists|j: int| 0 <= j < rows.len() && rows[j].dedup_key() == k
}

/// The key set after offering `inputs`, in order, to a store already holding
/// the keys `ks`.
pub open spec fn keys_after(ks: Set<(Seq<char>, Seq<char>)>, inputs: Seq<InsertNewsInput>) -> Set<(Seq<char>, Seq<char>)>
    decreases inputs.len(),
{
    if inputs.len() == 0 {
        ks
    } else {
        keys_after(ks.insert(inputs[0].dedup_key()), inputs.skip(1))
    }
}

/// How many of `inputs`, offered in order to a store already holding the keys
/// `ks`, are actually kept: one per key not seen before, repeats within
/// `inputs` counted once.
pub open spec fn inserted_count(ks: Set<(Seq<char>, Seq<char>)>, inputs: Seq<InsertNewsInput>) -> int
    decreases inputs.len(),
{
    if inputs.len() == 0 {
        0
    } else {
        (if ks.contains(inputs[0].dedup_key()) { 0int } else { 1int })
            + inserted_count(ks.insert(inputs[0].dedup_key()), inputs.skip(1))
    }
}

/// The rows a store already holding the keys `ks` keeps out of `inputs`,
/// in order: each input whose key was not seen before, repeats within
/// `inputs` kept once.
pub open spec fn kept_rows(ks: Set<(Seq<char>, Seq<char>)>, inputs: Seq<InsertNewsInput>) -> Seq<InsertNewsInput>
    decreases inputs.len(),
{
    if inputs.len() == 0 {
        Seq::empty()
    } else {
        let rest = kept_rows(ks.insert(inputs[0].dedup_key()), inputs.skip(1));
        if ks.contains(inputs[0].dedup_key()) {
            rest
        } else {
            seq![inputs[0]] + rest
        }
    }
}

/// Offering one more row after `s` keeps what `s` alone kept, and adds the
/// new row exactly when its key is new.
proof fn lemma_kept_rows_snoc(ks: Set<(Seq<char>, Seq<char>)>, s: Seq<InsertNewsInput>, x: InsertNewsInput)
    ensures
        kept_rows(ks, s.push(x)) == kept_rows(ks, s)
            + (if keys_after(ks, s).contains(x.dedup_key()) { Seq::<InsertNewsInput>::empty() } else { seq![x] }),
    decreases s.len(),
{
    if s.len() == 0 {
        assert(s.push(x)[0] == x);
        assert(s.push(x).skip(1) =~= Seq::<InsertNewsInput>::empty());
        assert(kept_rows(ks.insert(x.dedup_key()), s.push(x).skip(1)) =~= Seq::<InsertNewsInput>::empty());
        assert(kept_rows(ks, s) =~= Seq::<InsertNewsInput>::empty());
        if ks.contains(x.dedup_key()) {
            assert(kept_rows(ks, s.push(x)) =~= kept_rows(ks, s) + Seq::<InsertNewsInput>::empty());
        } else {
            assert(kept_rows(ks, s.push(x)) =~= kept_rows(ks, s) + seq![x]);
        }
    } else {
        assert(s.push(x)[0] == s[0]);
        assert(s.push(x).skip(1) =~= s.skip(1).push(x));
        let ks1 = ks.insert(s[0].dedup_key());
        lemma_kept_rows_snoc(ks1, s.skip(1), x);
        assert(keys_after(ks, s) == keys_after(ks1, s.skip(1)));
        if ks.contains(s[0].dedup_key()) {
            assert(kept_rows(ks, s.push(x)) == kept_rows(ks1, s.skip(1).push(x)));
            assert(kept_rows(ks, s) == kept_rows(ks1, s.skip(1)));
        } else {
            assert(kept_rows(ks, s.push(x)) == seq![s[0]] + kept_rows(ks1, s.skip(1).push(x)));
            assert(kept_rows(ks, s) == seq![s[0]] + kept_rows(ks1, s.skip(1)));
            assert((seq![s[0]] + kept_rows(ks1, s.skip(1)))
                + (if keys_after(ks1, s.skip(1)).contains(x.dedup_key()) { Seq::<InsertNewsInput>::empty() } else { seq![x] })
                =~= seq![s[0]] + (kept_rows(ks1, s.skip(1))
                    + (if keys_after(ks1, s.skip(1)).contains(x.dedup_key()) { Seq::<InsertNewsInput>::empty() } else { seq![x] })));
        }
    }
}

/// Two record runs offered one after the other keep what the first keeps,
/// then what the second keeps against the keys the first left behind.
pub proof fn lemma_kept_rows_concat(ks: Set<(Seq<char>, Seq<char>)>, s1: Seq<InsertNewsInput>, s2: Seq<InsertNewsInput>)
    ensures
        kept_rows(ks, s1 + s2) == kept_rows(ks, s1) + kept_rows(keys_after(ks, s1), s2),
    decreases s1.len(),
{
    if s1.len() == 0 {
        assert(s1 + s2 =~= s2);
        assert(kept_rows(ks, s1) =~= Seq::<InsertNewsInput>::empty());
        assert(kept_rows(ks, s1) + kept_rows(ks, s2) =~= kept_rows(ks, s2));
    } else {
        assert((s1 + s2)[0] == s1[0]);
        assert((s1 + s2).skip(1) =~= s1.skip(1) + s2);
        let ks1 = ks.insert(s1[0].dedup_key());
        lemma_kept_rows_concat(ks1, s1.skip(1), s2);
        if !ks.contains(s1[0].dedup_key()) {
            assert((seq![s1[0]] + kept_rows(ks1, s1.skip(1))) + kept_rows(keys_after(ks1, s1.skip(1)), s2)
                =~= seq![s1[0]] + (kept_rows(ks1, s1.skip(1)) + kept_rows(keys_after(ks1, s1.skip(1)), s2)));
        }
    }
}

/// Offering one more row after `s` keeps the keys of `s` and adds the new
/// row's key.
proof fn lemma_keys_after_snoc(ks: Set<(Seq<char>, Seq<char>)>, s: Seq<InsertNewsInput>, x: InsertNewsInput)
    ensures
        keys_after(ks, s.push(x)) == keys_after(ks, s).insert(x.dedup_key()),
    decreases s.len(),
{
    if s.len() == 0 {
        assert(s.push(x).skip(1) =~= Seq::<InsertNewsInput>::empty());
        assert(keys_after(ks, s.push(x)) == keys_after(ks.insert(x.dedup_key()), Seq::empty()));
    } else {
        assert(s.push(x)[0] == s[0]);
        assert(s.push(x).skip(1) =~= s.skip(1).push(x));
        lemma_keys_after_snoc(ks.insert(s[0].dedup_key()), s.skip(1), x);
    }
}

/// Offering one more row after `s` keeps the count for `s` and adds one
/// exactly when the new row's key is new.
proof fn lemma_inserted_count_snoc(ks: Set<(Seq<char>, Seq<char>)>, s: Seq<InsertNewsInput>, x: InsertNewsInput)
    ensures
        inserted_count(ks, s.push(x)) == inserted_count(ks, s)
            + (if keys_after(ks, s).contains(x.dedup_key()) { 0int } else { 1int }),
    decreases s.len(),
{
    if s.len() == 0 {
        assert(s.push(x)[0] == x);
        assert(s.push(x).skip(1) =~= Seq::<InsertNewsInput>::empty());
        assert(inserted_count(ks, s.push(x))
            == (if ks.contains(x.dedup_key()) { 0int } else { 1int })
                + inserted_count(ks.insert(x.dedup_key()), s.push(x).skip(1)));
        assert(inserted_count(ks.insert(x.dedup_key()), s.push(x).skip(1)) == 0);
        assert(inserted_count(ks, s) == 0);
        assert(keys_after(ks, s) == ks);
    } else {
        assert(s.push(x)[0] == s[0]);
        assert(s.push(x).skip(1) =~= s.skip(1).push(x));
        lemma_inserted_count_snoc(ks.insert(s[0].dedup_key()), s.skip(1), x);
        assert(inserted_count(ks, s.push(x))
            == (if ks.contains(s[0].dedup_key()) { 0int } else { 1int })
                + inserted_count(ks.insert(s[0].dedup_key()), s.skip(1).push(x)));
        assert(keys_after(ks, s) == keys_after(ks.insert(s[0].dedup_key()), s.skip(1)));
        assert(inserted_count(ks, s)
            == (if ks.contains(s[0].dedup_key()) { 0int } else { 1int })
                + inserted_count(ks.insert(s[0].dedup_key()), s.skip(1)));
    }
}

/// A batch never reports more kept rows than it offered, nor a negative
/// number.
pub proof fn lemma_inserted_count_bounds(ks: Set<(Seq<char>, Seq<char>)>, s: Seq<InsertNewsInput>)
    ensures
        0 <= inserted_count(ks, s) <= s.len(),
    decreases s.len(),
{
    if s.len() > 0 {
        lemma_inserted_count_bounds(ks.insert(s[0].dedup_key()), s.skip(1));
    }
}

/// Offering two record runs one after the other holds the keys of both.
pub proof fn lemma_keys_after_concat(ks: Set<(Seq<char>, Seq<char>)>, s1: Seq<InsertNewsInput>, s2: Seq<InsertNewsInput>)
    ensures
        keys_after(ks, s1 + s2) == keys_after(keys_after(ks, s1), s2),
    decreases s1.len(),
{
    if s1.len() == 0 {
        assert(s1 + s2 =~= s2);
    } else {
        assert((s1 + s2)[0] == s1[0]);
        assert((s1 + s2).skip(1) =~= s1.skip(1) + s2);
        lemma_keys_after_concat(ks.insert(s1[0].dedup_key()), s1.skip(1), s2);
    }
}

/// Offering two record runs one after the other keeps as many rows as the
/// first run alone, plus what the second keeps against the keys the first
/// left behind.
pub proof fn lemma_inserted_count_concat(ks: Set<(Seq<char>, Seq<char>)>, s1: Seq<InsertNewsInput>, s2: Seq<InsertNewsInput>)
    ensures
        inserted_count(ks, s1 + s2)
            == inserted_count(ks, s1) + inserted_count(keys_after(ks, s1), s2),
    decreases s1.len(),
{
    if s1.len() == 0 {
        assert(s1 + s2 =~= s2);
    } else {
        assert((s1 + s2)[0] == s1[0]);
        assert((s1 + s2).skip(1) =~= s1.skip(1) + s2);
        lemma_inserted_count_concat(ks.insert(s1[0].dedup_key()), s1.skip(1), s2);
    }
}

/// Every key offered is present afterwards, and no held key is lost.
pub proof fn lemma_keys_after_covers(ks: Set<(Seq<char>, Seq<char>)>, s: Seq<InsertNewsInput>)
    ensures
        forall|j: int| 0 <= j < s.len() ==> keys_after(ks, s).contains(#[trigger] s[j].dedup_key()),
        forall|k: (Seq<char>, Seq<char>)| ks.contains(k) ==> keys_after(ks, s).contains(k),
    decreases s.len(),
{
    if s.len() > 0 {
        let k0 = s[0].dedup_key();
        lemma_keys_after_covers(ks.insert(k0), s.skip(1));
        assert forall|j: int| 0 <= j < s.len() implies keys_after(ks, s).contains(#[trigger] s[j].dedup_key()) by {
            if j == 0 {
                assert(ks.insert(k0).contains(k0));
            } else {
                assert(s.skip(1)[j - 1] == s[j]);
            }
        }
        assert forall|k: (Seq<char>, Seq<char>)| ks.contains(k) implies keys_after(ks, s).contains(k) by {
            assert(ks.insert(k0).contains(k));
        }
    }
}

/// Rows whose keys are all already held are all ignored.
proof fn lemma_count_zero_when_present(ks: Set<(Seq<char>, Seq<char>)>, s: Seq<InsertNewsInput>)
    requires
        forall|j: int| 0 <= j < s.len() ==> ks.contains(#[trigger] s[j].dedup_key()),
    ensures
        inserted_count(ks, s) == 0,
    decreases s.len(),
{
    if s.len() > 0 {
        assert(ks.insert(s[0].dedup_key()) =~= ks);
        assert forall|j: int| 0 <= j < s.skip(1).len() implies ks.contains(#[trigger] s.skip(1)[j].dedup_key()) by {
            assert(s.skip(1)[j] == s[j + 1]);
        }
        lemma_count_zero_when_present(ks, s.skip(1));
    }
}

/// Dedup idempotence across runs: a later run whose rows all carry keys of a
/// prior run — the duplicate subset — adds nothing to the inserted total,
/// whatever the store held before either run.
pub proof fn lemma_duplicate_subset_inserts_nothing(
    ks: Set<(Seq<char>, Seq<char>)>,
    first: Seq<InsertNewsInput>,
    second: Seq<InsertNewsInput>,
)
    requires
        forall|i: int| 0 <= i < second.len()
            ==> exists|j: int| 0 <= j < first.len()
                && (#[trigger] second[i]).dedup_key() == first[j].dedup_key(),
    ensures
        inserted_count(keys_after(ks, first), second) == 0,
{
    lemma_keys_after_covers(ks, first);
    assert forall|i: int| 0 <= i < second.len()
        implies keys_after(ks, first).contains(#[trigger] second[i].dedup_key()) by {
        let j = choose|j: int| 0 <= j < first.len()
            && second[i].dedup_key() == first[j].dedup_key();
        assert(keys_after(ks, first).contains(first[j].dedup_key()));
    }
    lemma_count_zero_when_present(keys_after(ks, first), second);
}

/// Dedup idempotence: once a run of rows has been offered to the store,
/// offering the same rows again inserts nothing, whatever keys the store
/// held before.
pub proof fn lemma_dedup_idempotence(ks: Set<(Seq<char>, Seq<char>)>, s: Seq<InsertNewsInput>)
    ensures
        inserted_count(keys_after(ks, s), s) == 0,
{
    lemma_keys_after_covers(ks, s);
    lemma_count_zero_when_present(keys_after(ks, s), s);
}

/// The store model: rows kept so far, each under a row id equal to its
/// one-based position, and the batches the insert calls offered, in call
/// order.
pub struct NewsStore {
    rows: Vec<InsertNewsInput>,
    received_batches: Ghost<Seq<Seq<InsertNewsInput>>>,
}

impl NewsStore {
    /// The rows the store holds, in insertion order.
    pub closed spec fn rows_view(self) -> Seq<InsertNewsInput> {
        self.rows@
    }

    /// The batches the store's insert calls offered so far, in call order.
    pub closed spec fn batches_received(self) -> Seq<Seq<InsertNewsInput>> {
        self.received_batches@
    }

    /// How many batched insert calls the store has received.
    pub open spec fn inserts_received(self) -> nat {
        self.batches_received().len()
    }

    /// The dedup keys the store holds.
    pub open spec fn keys(self) -> Set<(Seq<char>, Seq<char>)> {
        Set::new(|k: (Seq<char>, Seq<char>)| has_key(self.rows_view(), k))
    }

    pub fn new() -> (r: NewsStore)
        ensures
            r.rows_view() == Seq::<InsertNewsInput>::empty(),
            r.batches_received() == Seq::<Seq<InsertNewsInput>>::empty(),
    {
        NewsStore { rows: Vec::new(), received_batches: Ghost(Seq::empty()) }
    }

    /// How many rows the store holds.
    pub fn len(&self) -> (r: usize)
        ensures
            r == self.rows_view().len(),
    {
        self.rows.len()
    }

    /// Whether a row with `input`'s dedup key is already held.
    fn contains_key(&self, input: &InsertNewsInput) -> (r: bool)
        ensures
            r == self.keys().contains(input.dedup_key()),
    {
        let n = self.rows.len();
        let mut i: usize = 0;
        while i < n
            invariant
                n == self.rows_view().len(),
                i <= n,
                forall|j: int| 0 <= j < i ==> (#[trigger] self.rows_view()[j]).dedup_key() != input.dedup_key(),
            decreases n - i,
        {
            let row = &self.rows[i];
            if str_eq(row.source_name.as_str(), input.source_name.as_str())
                && str_eq(row.article_id.as_str(), input.article_id.as_str()) {
                return true;
            }
            i = i + 1;
        }
        false
    }

    /// Conflict-ignore batched insert: keeps each offered row whose key is not
    /// yet held (first occurrence wins within the batch), ignores the rest,
    /// and returns the row ids of the kept rows — each its one-based position
    /// among the stored rows, so exactly as many ids as keys that were new.
    pub fn insert_news(&mut self, inputs: Vec<InsertNewsInput>) -> (ids: Vec<i32>)
        requires
            old(self).rows_view().len() + inputs@.len() <= i32::MAX,
        ensures
            ids@.len() == inserted_count(old(self).keys(), inputs@),
            forall|j: int| 0 <= j < ids@.len()
                ==> ids@[j] == old(self).rows_view().len() + j + 1,
            final(self).keys() == keys_after(old(self).keys(), inputs@),
            final(self).rows_view() == old(self).rows_view() + kept_rows(old(self).keys(), inputs@),
            final(self).rows_view().len() == old(self).rows_view().len() + ids@.len(),
            final(self).batches_received() == old(self).batches_received().push(inputs@),
    {
        proof {
            self.received_batches@ = self.received_batches@.push(inputs@);
        }
        let ghost all = inputs@;
        let ghost ks0 = self.keys();
        let ghost rows0_seq = self.rows_view();
        let ghost rows0 = self.rows_view().len() as int;
        let mut rest = inputs;
        let mut ids: Vec<i32> = Vec::new();
        proof {
            assert(all.take(0) =~= Seq::<InsertNewsInput>::empty());
            assert(rows0_seq + kept_rows(ks0, all.take(0)) =~= rows0_seq);
        }
        while rest.len() > 0
            invariant
                rest@.len() <= all.len(),
                rest@ =~= all.skip(all.len() - rest@.len()),
                self.keys() == keys_after(ks0, all.take(all.len() - rest@.len())),
                self.rows_view() =~= rows0_seq + kept_rows(ks0, all.take(all.len() - rest@.len())),
                ids@.len() == inserted_count(ks0, all.take(all.len() - rest@.len())),
                forall|j: int| 0 <= j < ids@.len() ==> ids@[j] == rows0 + j + 1,
                self.rows_view().len() == rows0 + ids@.len(),
                self.rows_view().len() <= rows0 + (all.len() - rest@.len()),
                self.batches_received() == old(self).batches_received().push(inputs@),
                rows0 + all.len() <= i32::MAX,
            decreases rest@.len(),
        {
            let ghost done = all.len() - rest@.len();
            let ghost pre_rest = rest@;
            let input = rest.remove(0);
            proof {
                assert(input == pre_rest[0]);
                assert(pre_rest[0] == all[done]);
                assert(rest@ =~= all.skip(done + 1));
                assert(all.take(done + 1) =~= all.take(done).push(all[done]));
                lemma_keys_after_snoc(ks0, all.take(done), input);
                lemma_inserted_count_snoc(ks0, all.take(done), input);
                lemma_kept_rows_snoc(ks0, all.take(done), input);
            }
            let known = self.contains_key(&input);
            if !known {
                let ghost pre_rows = self.rows_view();
                let id = self.rows.len() as i32 + 1;
                self.rows.push(input);
                ids.push(id);
                proof {
                    assert forall|k: (Seq<char>, Seq<char>)| self.keys().contains(k)
                        == keys_after(ks0, all.take(done + 1)).contains(k) by {
                        if has_key(self.rows_view(), k) {
                            let j = choose|j: int| 0 <= j < self.rows_view().len()
                                && self.rows_view()[j].dedup_key() == k;
                            if j < pre_rows.len() {
                                assert(has_key(pre_rows, k));
                            } else {
                                assert(self.rows_view()[j] == input);
                            }
                        }
                        if keys_after(ks0, all.take(done)).insert(input.dedup_key()).contains(k) {
                            if keys_after(ks0, all.take(done)).contains(k) {
                                let j = choose|j: int| 0 <= j < pre_rows.len()
                                    && pre_rows[j].dedup_key() == k;
                                assert(self.rows_view()[j] == pre_rows[j]);
                            } else {
                                assert(self.rows_view().last() == input);
                            }
                        }
                    }
                    assert(self.keys() =~= keys_after(ks0, all.take(done + 1)));
                    assert(self.rows_view() =~= (rows0_seq + kept_rows(ks0, all.take(done))) + seq![input]);
                    assert(self.rows_view() =~= rows0_seq + kept_rows(ks0, all.take(done + 1)));
                }
            } else {
                proof {
                    assert(keys_after(ks0, all.take(done)).insert(input.dedup_key())
                        =~= keys_after(ks0, all.take(done)));
                    assert(kept_rows(ks0, all.take(done + 1))
                        =~= kept_rows(ks0, all.take(done)));
                }
            }
        }
        proof {
            assert(all.take(all.len() as int) =~= all);
        }
        ids
    }
}

} // verus!

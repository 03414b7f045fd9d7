//! The batching sink: the single consumer of the pipeline's channel. It
//! accumulates normalized rows and hands them out in groups of the configured
//! batch size, with one trailing partial group; the caller issues one store
//! insert per group.

use vstd::prelude::*;

use crate::div_ceil;
use crate::news::InsertNewsInput;

verus! {

/// All records of `batches`, laid end to end in order.
pub open spec fn batches_concat(batches: Seq<Seq<InsertNewsInput>>) -> Seq<InsertNewsInput>
    decreases batches.len(),
{
    if batches.len() == 0 {
        Seq::empty()
    } else {
        batches_concat(batches.drop_last()) + batches.last()
    }
}

/// Laying batches end to end can start from the front.
pub proof fn lemma_batches_concat_head(batches: Seq<Seq<InsertNewsInput>>)
    requires
        batches.len() > 0,
    ensures
        batches_concat(batches) == batches[0] + batches_concat(batches.skip(1)),
    decreases batches.len(),
{
    if batches.len() == 1 {
        assert(batches.drop_last().len() == 0);
        assert(batches.skip(1).len() == 0);
        assert(batches.last() == batches[0]);
        assert(batches_concat(batches.drop_last()) =~= Seq::<InsertNewsInput>::empty());
        assert(batches_concat(batches.skip(1)) =~= Seq::<InsertNewsInput>::empty());
        assert(batches_concat(batches) == batches_concat(batches.drop_last()) + batches.last());
        assert(batches_concat(batches) =~= batches[0] + batches_concat(batches.skip(1)));
    } else {
        let dl = batches.drop_last();
        lemma_batches_concat_head(dl);
        assert(dl[0] == batches[0]);
        assert(batches.skip(1).drop_last() =~= dl.skip(1));
        assert(batches.skip(1).last() == batches.last());
        assert(batches_concat(batches.skip(1))
            == batches_concat(dl.skip(1)) + batches.last());
        assert(batches_concat(batches) == (batches[0] + batches_concat(dl.skip(1))) + batches.last());
        assert((batches[0] + batches_concat(dl.skip(1))) + batches.last()
            =~= batches[0] + (batches_concat(dl.skip(1)) + batches.last()));
    }
}

/// The batches a run of the sink hands out for `records` and batch size `b`:
/// all of size `b` except that a final remainder of `records.len() % b`
/// records, when there is one, forms a last short batch.
pub open spec fn is_batching_of(batches: Seq<Seq<InsertNewsInput>>, records: Seq<InsertNewsInput>, b: int) -> bool {
    &&& batches_concat(batches) == records
    &&& batches.len() == div_ceil(records.len() as int, b)
    &&& forall|i: int| 0 <= i < batches.len() - 1 ==> (#[trigger] batches[i]).len() == b
    &&& batches.len() > 0 ==> batches.last().len() == (if records.len() as int % b == 0 { b } else { records.len() as int % b })
}

/// Accumulates rows and yields one full batch at a time; the rows it has not
/// yet yielded wait in `buffer`, always fewer than one batch.
pub struct BatchSink {
    batch_size: usize,
    buffer: Vec<InsertNewsInput>,
    inserted_news_count: usize,
}

impl BatchSink {
    /// The sink never holds a full batch back.
    pub closed spec fn wf(self) -> bool {
        self.buffer@.len() < self.batch_size
    }

    /// Rows accepted and not yet yielded.
    pub closed spec fn buffered(self) -> Seq<InsertNewsInput> {
        self.buffer@
    }

    /// The configured batch size.
    pub closed spec fn spec_batch_size(self) -> int {
        self.batch_size as int
    }

    /// Running total of rows the store acknowledged.
    pub closed spec fn inserted(self) -> int {
        self.inserted_news_count as int
    }

    pub fn new(batch_size: usize) -> (r: BatchSink)
        requires
            batch_size >= 1,
        ensures
            r.wf(),
            r.spec_batch_size() == batch_size,
            r.buffered() == Seq::<InsertNewsInput>::empty(),
            r.inserted() == 0,
    {
        BatchSink { batch_size, buffer: Vec::new(), inserted_news_count: 0 }
    }

    /// Takes one row. When the row completes a batch, that batch comes back
    /// out, oldest row first, and the buffer starts over; otherwise the row
    /// waits in the buffer.
    pub fn accept(&mut self, input: InsertNewsInput) -> (flush: Option<Vec<InsertNewsInput>>)
        requires
            old(self).wf(),
        ensures
            final(self).wf(),
            final(self).spec_batch_size() == old(self).spec_batch_size(),
            final(self).inserted() == old(self).inserted(),
            old(self).buffered().len() + 1 == old(self).spec_batch_size() ==> {
                &&& flush matches Some(b) && b@ == old(self).buffered().push(input)
                &&& final(self).buffered() == Seq::<InsertNewsInput>::empty()
            },
            old(self).buffered().len() + 1 < old(self).spec_batch_size() ==> {
                &&& flush is None
                &&& final(self).buffered() == old(self).buffered().push(input)
            },
    {
        self.buffer.push(input);
        if self.buffer.len() >= self.batch_size {
            let mut drained: Vec<InsertNewsInput> = Vec::new();
            std::mem::swap(&mut drained, &mut self.buffer);
            Some(drained)
        } else {
            None
        }
    }

    /// After the channel has closed and drained: the remaining partial batch,
    /// when any rows wait; the buffer is left empty.
    pub fn finish(&mut self) -> (flush: Option<Vec<InsertNewsInput>>)
        requires
            old(self).wf(),
        ensures
            final(self).wf(),
            final(self).spec_batch_size() == old(self).spec_batch_size(),
            final(self).inserted() == old(self).inserted(),
            final(self).buffered() == Seq::<InsertNewsInput>::empty(),
            old(self).buffered().len() > 0 ==> (flush matches Some(b) && b@ == old(self).buffered()),
            old(self).buffered().len() == 0 ==> flush is None,
    {
        if self.buffer.len() > 0 {
            let mut drained: Vec<InsertNewsInput> = Vec::new();
            std::mem::swap(&mut drained, &mut self.buffer);
            Some(drained)
        } else {
            None
        }
    }

    /// Adds one store acknowledgement to the running total.
    pub fn add_inserted(&mut self, n: usize)
        requires
            old(self).inserted() + n <= usize::MAX,
        ensures
            final(self).wf() == old(self).wf(),
            final(self).spec_batch_size() == old(self).spec_batch_size(),
            final(self).buffered() == old(self).buffered(),
            final(self).inserted() == old(self).inserted() + n,
    {
        self.inserted_news_count = self.inserted_news_count + n;
    }

    /// The running total, as the sink reports it when the channel closes.
    pub fn inserted_news_count(&self) -> (r: usize)
        ensures
            r == self.inserted(),
    {
        self.inserted_news_count
    }
}

/// Runs a whole record stream through a fresh sink and returns every batch it
/// yields, in order: for `k` records and batch size `b`, `k / b` full batches
/// and, when `k % b > 0`, one last batch of `k % b` records, together exactly
/// the input.
pub fn plan_batches(records: Vec<InsertNewsInput>, batch_size: usize) -> (batches: Vec<Vec<InsertNewsInput>>)
    requires
        batch_size >= 1,
    ensures
        is_batching_of(batches@.map_values(|b: Vec<InsertNewsInput>| b@), records@, batch_size as int),
{
    let ghost all = records@;
    let mut rest = records;
    let mut sink = BatchSink::new(batch_size);
    let mut batches: Vec<Vec<InsertNewsInput>> = Vec::new();
    let ghost b = batch_size as int;
    proof {
        assert(sink.buffered().len() == 0);
        assert(batches@.len() == 0);
        assert(batches@.len() * b == 0) by (nonlinear_arith)
            requires batches@.len() == 0;
    }
    while rest.len() > 0
        invariant
            batch_size >= 1,
            b == batch_size as int,
            sink.wf(),
            sink.spec_batch_size() == batch_size,
            rest@.len() <= all.len(),
            all.len() - rest@.len() == batches@.len() * b + sink.buffered().len(),
            batches_concat(batches@.map_values(|v: Vec<InsertNewsInput>| v@)) + sink.buffered()
                =~= all.take(all.len() - rest@.len()),
            rest@ =~= all.skip(all.len() - rest@.len()),
            forall|i: int| 0 <= i < batches@.len() ==> (#[trigger] batches@[i])@.len() == b,
        decreases rest@.len(),
    {
        let ghost done_before = all.len() - rest@.len();
        let ghost pre_rest = rest@;
        let ghost pre_buffered = sink.buffered();
        let ghost pre_concat = batches_concat(batches@.map_values(|v: Vec<InsertNewsInput>| v@));
        let input = rest.remove(0);
        proof {
            assert(input == pre_rest[0]);
            assert(pre_rest[0] == all[done_before]);
            assert(rest@ =~= all.skip(done_before + 1));
            assert(all.take(done_before + 1) =~= all.take(done_before).push(all[done_before]));
        }
        if let Some(full) = sink.accept(input) {
            let ghost old_map = batches@.map_values(|v: Vec<InsertNewsInput>| v@);
            let ghost pre_batches = batches@;
            batches.push(full);
            proof {
                assert(pre_buffered.len() < b);
                if pre_buffered.len() + 1 < b {
                    assert(false);
                }
                assert(pre_buffered.len() + 1 == b);
                assert(full@ == pre_buffered.push(input));
                assert(full@.len() == b);
                assert(batches@.len() * b == pre_batches.len() * b + b) by (nonlinear_arith)
                    requires batches@.len() == pre_batches.len() + 1;
                assert forall|i: int| 0 <= i < batches@.len() implies (#[trigger] batches@[i])@.len() == b by {
                    if i < pre_batches.len() {
                        assert(batches@[i] == pre_batches[i]);
                    } else {
                        assert(batches@[i] == full);
                    }
                }
                let new_map = batches@.map_values(|v: Vec<InsertNewsInput>| v@);
                assert(new_map.drop_last() =~= old_map);
                assert(new_map.last() == full@);
                assert(batches_concat(new_map) == batches_concat(old_map) + full@);
                assert(full@ == pre_buffered.push(input));
                assert(batches_concat(new_map) + sink.buffered()
                    =~= (pre_concat + pre_buffered).push(input));
                assert(batches_concat(new_map) + sink.buffered() =~= all.take(done_before + 1));
            }
        } else {
            proof {
                let m = batches@.map_values(|v: Vec<InsertNewsInput>| v@);
                assert(sink.buffered() == pre_buffered.push(input));
                assert(batches_concat(m) + sink.buffered()
                    =~= (pre_concat + pre_buffered).push(input));
                assert(batches_concat(m) + sink.buffered() =~= all.take(done_before + 1));
            }
        }
    }
    assert(all.take(all.len() as int) =~= all);
    let ghost full_count = batches@.len() as int;
    let ghost tail_len = sink.buffered().len() as int;
    if let Some(tail) = sink.finish() {
        let ghost old_map = batches@.map_values(|v: Vec<InsertNewsInput>| v@);
        batches.push(tail);
        proof {
            let new_map = batches@.map_values(|v: Vec<InsertNewsInput>| v@);
            assert(new_map.drop_last() =~= old_map);
            assert(new_map.last() == tail@);
            assert(batches_concat(new_map) =~= all);
            vstd::arithmetic::div_mod::lemma_fundamental_div_mod_converse_div(
                all.len() as int, b, full_count, tail_len);
            vstd::arithmetic::div_mod::lemma_fundamental_div_mod_converse_mod(
                all.len() as int, b, full_count, tail_len);
        }
    } else {
        proof {
            let m = batches@.map_values(|v: Vec<InsertNewsInput>| v@);
            assert(batches_concat(m) =~= all);
            vstd::arithmetic::div_mod::lemma_fundamental_div_mod_converse_div(
                all.len() as int, b, full_count, 0);
            vstd::arithmetic::div_mod::lemma_fundamental_div_mod_converse_mod(
                all.len() as int, b, full_count, 0);
        }
    }
    batches
}

} // verus!

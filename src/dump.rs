use vstd::prelude::*;

use crate::abort::ChunkIoAbort;
use crate::copy::{clone_items, copy_items, spliced};
use crate::step::ChunkStep;

verus! {

/// The state of a dump: the linear source and how many of its items, counted
/// from the front, have been pushed into the sink so far.
pub struct DumpView<T> {
    pub source: Seq<T>,
    pub performed: nat,
}

impl<T> DumpView<T> {
    /// A dump of `source` that has not moved anything yet.
    pub open spec fn start(source: Seq<T>) -> DumpView<T> {
        DumpView { source, performed: 0 }
    }

    pub open spec fn wf(self) -> bool {
        self.performed <= self.source.len()
    }

    /// How many items of the source are still to be pushed.
    pub open spec fn remaining(self) -> nat {
        (self.source.len() - self.performed) as nat
    }

    /// What the loop does next: finish once the source is used up, else ask
    /// for room for what remains.
    pub open spec fn next_step(self) -> ChunkStep {
        if self.performed >= self.source.len() {
            ChunkStep::Finished(self.performed as usize)
        } else {
            ChunkStep::Request(self.remaining() as usize)
        }
    }

    /// How many items go into a writable chunk of `chunk_len` items: never
    /// more than remain; the rest of the chunk is left alone.
    pub open spec fn give_len(self, chunk_len: nat) -> nat {
        if chunk_len <= self.remaining() {
            chunk_len
        } else {
            self.remaining()
        }
    }

    /// The items that go into the writable chunk `sink`.
    pub open spec fn piece(self, sink: Seq<T>) -> Seq<T> {
        self.source.subrange(
            self.performed as int,
            (self.performed + self.give_len(sink.len())) as int,
        )
    }

    /// What the writable chunk `sink` holds after the dump wrote into it.
    pub open spec fn sink_after(self, sink: Seq<T>) -> Seq<T> {
        spliced(sink, 0, self.source, self.performed as int, self.give_len(sink.len()) as int)
    }

    /// The state after the writable chunk `sink` was filled.
    pub open spec fn after_chunk(self, sink: Seq<T>) -> DumpView<T> {
        DumpView { source: self.source, performed: self.performed + self.give_len(sink.len()) }
    }
}

/// The state after each writable chunk of `sinks` was handed to the dump in
/// order.
pub open spec fn dump_after_all<T>(v: DumpView<T>, sinks: Seq<Seq<T>>) -> DumpView<T>
    decreases sinks.len(),
{
    if sinks.len() == 0 {
        v
    } else {
        dump_after_all(v, sinks.drop_last()).after_chunk(sinks.last())
    }
}

/// The items that the sink received, in order, over the writable chunks
/// `sinks`.
pub open spec fn dump_written<T>(v: DumpView<T>, sinks: Seq<Seq<T>>) -> Seq<T>
    decreases sinks.len(),
{
    if sinks.len() == 0 {
        Seq::empty()
    } else {
        dump_written(v, sinks.drop_last()) + dump_after_all(v, sinks.drop_last()).piece(
            sinks.last(),
        )
    }
}

/// Dump engine: pushes a linear source into writable chunks handed out by a
/// chunked sink until the whole source is consumed.
///
/// The driver asks `next_step` what to do. On `Request(n)` it asks the sink
/// for room for up to `n` items, hands each writable chunk of the reply to
/// `give_chunk` (or `give_chunk_cloned`) in order, and asks again; if the
/// sink fails instead, `abort` turns its error into the report. On
/// `Finished(n)` the dump is done.
pub struct DumpEngine<T> {
    source: Vec<T>,
    performed: usize,
}

impl<T> View for DumpEngine<T> {
    type V = DumpView<T>;

    closed spec fn view(&self) -> DumpView<T> {
        DumpView { source: self.source@, performed: self.performed as nat }
    }
}

impl<T> DumpEngine<T> {
    /// Starts a dump of the whole of `source`.
    pub fn new(source: Vec<T>) -> (r: Self)
        ensures
            r@ == DumpView::start(source@),
            r@.wf(),
    {
        DumpEngine { source, performed: 0 }
    }

    /// The number of items the dump moves in all.
    pub fn source_len(&self) -> (r: usize)
        ensures
            r == self@.source.len(),
    {
        self.source.len()
    }

    /// The number of items moved so far.
    pub fn performed(&self) -> (r: usize)
        ensures
            r == self@.performed,
    {
        self.performed
    }

    /// Ends the dump and hands the source back.
    pub fn into_source(self) -> (r: Vec<T>)
        ensures
            r@ == self@.source,
    {
        self.source
    }

    pub fn next_step(&self) -> (r: ChunkStep)
        requires
            self@.wf(),
        ensures
            r == self@.next_step(),
    {
        if self.performed >= self.source.len() {
            ChunkStep::Finished(self.performed)
        } else {
            ChunkStep::Request(self.source.len() - self.performed)
        }
    }

    /// The report for a sink that failed with `error`: it counts the items
    /// moved so far.
    pub fn abort<E>(&self, error: E) -> (r: ChunkIoAbort<E>)
        ensures
            r.error() == error,
            r.progress() == self@.performed,
    {
        ChunkIoAbort::new(error, self.performed)
    }

    fn give_len(&self, chunk_len: usize) -> (r: usize)
        requires
            self@.wf(),
        ensures
            r == self@.give_len(chunk_len as nat),
            self@.source.len() <= usize::MAX,
    {
        let remaining = self.source.len() - self.performed;
        if chunk_len <= remaining {
            chunk_len
        } else {
            remaining
        }
    }
}

impl<T: Copy> DumpEngine<T> {
    /// Copies the next items of the source to the front of the writable
    /// chunk `sink`, as many as fit and remain, and returns their number.
    pub fn give_chunk(&mut self, sink: &mut [T]) -> (r: usize)
        requires
            old(self)@.wf(),
        ensures
            final(self)@ == old(self)@.after_chunk(old(sink)@),
            final(self)@.wf(),
            final(sink)@ == old(self)@.sink_after(old(sink)@),
            r == old(self)@.give_len(old(sink)@.len()),
    {
        let n = self.give_len(sink.len());
        copy_items(self.source.as_slice(), self.performed, sink, 0, n);
        self.performed = self.performed + n;
        n
    }
}

impl<T: Clone> DumpEngine<T> {
    /// Clones the next items of the source to the front of the writable
    /// chunk `sink`, as many as fit and remain, and returns their number.
    pub fn give_chunk_cloned(&mut self, sink: &mut [T]) -> (r: usize)
        requires
            old(self)@.wf(),
        ensures
            final(self)@ == old(self)@.after_chunk(old(sink)@),
            final(self)@.wf(),
            r == old(self)@.give_len(old(sink)@.len()),
            final(sink)@.len() == old(sink)@.len(),
            forall|j: int| r <= j < old(sink)@.len() ==> #[trigger] final(sink)@[j] == old(sink)@[j],
            forall|j: int|
                0 <= j < r ==> cloned(old(self)@.source[old(self)@.performed + j], #[trigger] final(sink)@[j]),
    {
        let n = self.give_len(sink.len());
        clone_items(self.source.as_slice(), self.performed, sink, 0, n);
        assert forall|j: int| 0 <= j < n implies cloned(
            self.source@[self.performed + j],
            #[trigger] sink@[j],
        ) by {
            assert(sink@[0 + j] == sink@[j]);
        }
        self.performed = self.performed + n;
        n
    }
}

/// The dump state after `sinks`, from the start: the sink has received the
/// front of the source, as much of it as the chunks had room for.
proof fn lemma_dump_from_start<T>(source: Seq<T>, sinks: Seq<Seq<T>>)
    ensures
        ({
            let m = dump_after_all(DumpView::start(source), sinks);
            let room = sinks.flatten().len();
            &&& m.wf()
            &&& m.source == source
            &&& m.performed == if room <= source.len() { room } else { source.len() }
            &&& dump_written(DumpView::start(source), sinks) == source.take(m.performed as int)
        }),
    decreases sinks.len(),
{
    if sinks.len() == 0 {
        assert(sinks.flatten() =~= Seq::<T>::empty());
        assert(source.take(0) =~= Seq::<T>::empty());
    } else {
        let front = sinks.drop_last();
        let c = sinks.last();
        lemma_dump_from_start(source, front);
        assert(front.push(c) =~= sinks);
        front.lemma_flatten_push(c);
        let m0 = dump_after_all(DumpView::start(source), front);
        let m = m0.after_chunk(c);
        assert(dump_written(DumpView::start(source), sinks) =~= source.take(m.performed as int));
    }
}

/// A writable chunk after the dump wrote into it holds the dump's piece at
/// its front, and the rest of it is as it was: nothing spills into room that
/// the dump did not use.
pub proof fn lemma_dump_sink_holds_piece<T>(v: DumpView<T>, sink: Seq<T>)
    requires
        v.wf(),
    ensures
        v.sink_after(sink).len() == sink.len(),
        v.sink_after(sink).take(v.give_len(sink.len()) as int) == v.piece(sink),
        v.sink_after(sink).skip(v.give_len(sink.len()) as int) == sink.skip(
            v.give_len(sink.len()) as int,
        ),
{
    let n = v.give_len(sink.len()) as int;
    assert(v.sink_after(sink).take(n) =~= v.piece(sink));
    assert(v.sink_after(sink).skip(n) =~= sink.skip(n));
}

/// A dump into writable chunks with room for at least the whole source
/// finishes with the whole source moved, and the sink received exactly the
/// source, in order, however the room was split into chunks.
pub proof fn lemma_dump_conservation<T>(source: Seq<T>, sinks: Seq<Seq<T>>)
    requires
        sinks.flatten().len() >= source.len(),
    ensures
        dump_after_all(DumpView::start(source), sinks).next_step() == ChunkStep::Finished(
            source.len() as usize,
        ),
        dump_written(DumpView::start(source), sinks) == source,
{
    lemma_dump_from_start(source, sinks);
    assert(source.take(source.len() as int) =~= source);
}

/// A dump whose sink offered room for `k` items, `k` not more than the source
/// holds, has moved exactly `k` items, the first `k` of the source: an abort
/// at that point reports `k`.
pub proof fn lemma_dump_abort_accounting<T>(source: Seq<T>, sinks: Seq<Seq<T>>)
    requires
        sinks.flatten().len() <= source.len(),
    ensures
        dump_after_all(DumpView::start(source), sinks).performed == sinks.flatten().len(),
        dump_written(DumpView::start(source), sinks) == source.take(sinks.flatten().len() as int),
{
    lemma_dump_from_start(source, sinks);
}

/// Across the chunks of a dump, the count of items moved never decreases and
/// never exceeds the source's length.
pub proof fn lemma_dump_progress_monotonic<T>(source: Seq<T>, sinks: Seq<Seq<T>>, i: int, j: int)
    requires
        0 <= i <= j <= sinks.len(),
    ensures
        dump_after_all(DumpView::start(source), sinks.take(i)).performed
            <= dump_after_all(DumpView::start(source), sinks.take(j)).performed,
        dump_after_all(DumpView::start(source), sinks.take(j)).performed <= source.len(),
    decreases j - i,
{
    lemma_dump_from_start(source, sinks.take(j));
    if i < j {
        lemma_dump_progress_monotonic(source, sinks, i, j - 1);
        assert(sinks.take(j).drop_last() =~= sinks.take(j - 1));
    }
}

/// A dump of an empty source finishes at once with nothing moved: it asks the
/// sink for nothing.
pub proof fn lemma_dump_zero_length<T>(source: Seq<T>)
    requires
        source.len() == 0,
    ensures
        DumpView::start(source).next_step() == ChunkStep::Finished(0),
{
}

} // verus!

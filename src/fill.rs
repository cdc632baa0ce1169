use vstd::prelude::*;

use crate::abort::ChunkIoAbort;
use crate::copy::{clone_items, copy_items, spliced};
use crate::step::ChunkStep;

verus! {

/// The state of a fill: the linear target and how many of its items, counted
/// from the front, have been written so far.
pub struct FillView<T> {
    pub target: Seq<T>,
    pub performed: nat,
}

impl<T> FillView<T> {
    /// A fill of `target` that has not moved anything yet.
    pub open spec fn start(target: Seq<T>) -> FillView<T> {
        FillView { target, performed: 0 }
    }

    pub open spec fn wf(self) -> bool {
        self.performed <= self.target.len()
    }

    /// How many items the target still needs.
    pub open spec fn remaining(self) -> nat {
        (self.target.len() - self.performed) as nat
    }

    /// What the loop does next: finish once the target is full, else ask for
    /// what remains.
    pub open spec fn next_step(self) -> ChunkStep {
        if self.performed >= self.target.len() {
            ChunkStep::Finished(self.performed as usize)
        } else {
            ChunkStep::Request(self.remaining() as usize)
        }
    }

    /// How many items are taken from a chunk of `chunk_len` items: never more
    /// than the target still needs; the surplus stays in the buffer.
    pub open spec fn take_len(self, chunk_len: nat) -> nat {
        if chunk_len <= self.remaining() {
            chunk_len
        } else {
            self.remaining()
        }
    }

    /// The state after the front of `chunk` was copied into the target.
    pub open spec fn after_chunk(self, chunk: Seq<T>) -> FillView<T> {
        let n = self.take_len(chunk.len());
        FillView {
            target: spliced(self.target, self.performed as int, chunk, 0, n as int),
            performed: self.performed + n,
        }
    }
}

/// The state after each chunk of `chunks` was handed to the fill in order.
pub open spec fn fill_after_all<T>(v: FillView<T>, chunks: Seq<Seq<T>>) -> FillView<T>
    decreases chunks.len(),
{
    if chunks.len() == 0 {
        v
    } else {
        fill_after_all(v, chunks.drop_last()).after_chunk(chunks.last())
    }
}

/// Fill engine: copies chunks handed out by a chunked source into a linear
/// target until the target is full.
///
/// The driver asks `next_step` what to do. On `Request(n)` it asks the source
/// for up to `n` items, hands each chunk of the reply to `take_chunk` (or
/// `take_chunk_cloned`) in order, and asks again; if the source fails instead,
/// `abort` turns its error into the report. On `Finished(n)` the fill is done.
pub struct FillEngine<T> {
    target: Vec<T>,
    performed: usize,
}

impl<T> View for FillEngine<T> {
    type V = FillView<T>;

    closed spec fn view(&self) -> FillView<T> {
        FillView { target: self.target@, performed: self.performed as nat }
    }
}

impl<T> FillEngine<T> {
    /// Starts a fill of the whole of `target`.
    pub fn new(target: Vec<T>) -> (r: Self)
        ensures
            r@ == FillView::start(target@),
            r@.wf(),
    {
        FillEngine { target, performed: 0 }
    }

    /// The number of items the fill moves in all.
    pub fn target_len(&self) -> (r: usize)
        ensures
            r == self@.target.len(),
    {
        self.target.len()
    }

    /// The number of items moved so far.
    pub fn performed(&self) -> (r: usize)
        ensures
            r == self@.performed,
    {
        self.performed
    }

    /// The target as it stands: its first `performed()` items are written.
    pub fn target(&self) -> (r: &Vec<T>)
        ensures
            r@ == self@.target,
    {
        &self.target
    }

    /// Ends the fill and hands the target back.
    pub fn into_target(self) -> (r: Vec<T>)
        ensures
            r@ == self@.target,
    {
        self.target
    }

    pub fn next_step(&self) -> (r: ChunkStep)
        requires
            self@.wf(),
        ensures
            r == self@.next_step(),
    {
        if self.performed >= self.target.len() {
            ChunkStep::Finished(self.performed)
        } else {
            ChunkStep::Request(self.target.len() - self.performed)
        }
    }

    /// The report for a source that failed with `error`: it counts the items
    /// moved so far.
    pub fn abort<E>(&self, error: E) -> (r: ChunkIoAbort<E>)
        ensures
            r.error() == error,
            r.progress() == self@.performed,
    {
        ChunkIoAbort::new(error, self.performed)
    }

    fn take_len(&self, chunk_len: usize) -> (r: usize)
        requires
            self@.wf(),
        ensures
            r == self@.take_len(chunk_len as nat),
            self@.target.len() <= usize::MAX,
    {
        let remaining = self.target.len() - self.performed;
        if chunk_len <= remaining {
            chunk_len
        } else {
            remaining
        }
    }
}

impl<T: Copy> FillEngine<T> {
    /// Copies the front of `chunk` into the target, as much as it still
    /// needs, and returns the number of items copied.
    pub fn take_chunk(&mut self, chunk: &[T]) -> (r: usize)
        requires
            old(self)@.wf(),
        ensures
            final(self)@ == old(self)@.after_chunk(chunk@),
            final(self)@.wf(),
            r == old(self)@.take_len(chunk@.len()),
    {
        let n = self.take_len(chunk.len());
        copy_items(chunk, 0, self.target.as_mut_slice(), self.performed, n);
        self.performed = self.performed + n;
        n
    }
}

impl<T: Clone> FillEngine<T> {
    /// Clones the front of `chunk` into the target, as much as it still
    /// needs, and returns the number of items cloned.
    pub fn take_chunk_cloned(&mut self, chunk: &[T]) -> (r: usize)
        requires
            old(self)@.wf(),
        ensures
            r == old(self)@.take_len(chunk@.len()),
            final(self)@.performed == old(self)@.performed + r,
            final(self)@.wf(),
            final(self)@.target.len() == old(self)@.target.len(),
            forall|j: int|
                0 <= j < old(self)@.performed || old(self)@.performed + r <= j < old(self)@.target.len()
                    ==> #[trigger] final(self)@.target[j] == old(self)@.target[j],
            forall|j: int|
                0 <= j < r ==> cloned(chunk@[j], #[trigger] final(self)@.target[old(self)@.performed + j]),
    {
        let n = self.take_len(chunk.len());
        clone_items(chunk, 0, self.target.as_mut_slice(), self.performed, n);
        self.performed = self.performed + n;
        n
    }
}

/// The fill state after `chunks`, from the start: the target holds the front
/// of the chunks' concatenation, as much of it as fits.
proof fn lemma_fill_from_start<T>(target: Seq<T>, chunks: Seq<Seq<T>>)
    ensures
        ({
            let m = fill_after_all(FillView::start(target), chunks);
            let f = chunks.flatten();
            &&& m.wf()
            &&& m.performed == if f.len() <= target.len() { f.len() } else { target.len() }
            &&& m.target == spliced(target, 0, f, 0, m.performed as int)
        }),
    decreases chunks.len(),
{
    let f = chunks.flatten();
    if chunks.len() == 0 {
        assert(f =~= Seq::<T>::empty());
        assert(spliced(target, 0, f, 0, 0) =~= target);
    } else {
        let front = chunks.drop_last();
        let c = chunks.last();
        lemma_fill_from_start(target, front);
        assert(front.push(c) =~= chunks);
        front.lemma_flatten_push(c);
        let fp = front.flatten();
        assert(f =~= fp + c);
        let m0 = fill_after_all(FillView::start(target), front);
        let m = m0.after_chunk(c);
        let n = m0.take_len(c.len());
        assert(m.target =~= spliced(target, 0, f, 0, m.performed as int)) by {
            if n > 0 {
                assert(m0.performed == fp.len());
            }
        }
    }
}

/// A fill whose source delivered at least as many items as the target holds
/// finishes with the whole target written, and the target then holds the
/// delivered items in order, however they were split into chunks.
pub proof fn lemma_fill_conservation<T>(target: Seq<T>, chunks: Seq<Seq<T>>)
    requires
        chunks.flatten().len() >= target.len(),
    ensures
        fill_after_all(FillView::start(target), chunks).next_step() == ChunkStep::Finished(
            target.len() as usize,
        ),
        fill_after_all(FillView::start(target), chunks).target == chunks.flatten().take(
            target.len() as int,
        ),
{
    lemma_fill_from_start(target, chunks);
    let m = fill_after_all(FillView::start(target), chunks);
    assert(m.target =~= chunks.flatten().take(target.len() as int));
}

/// A fill whose source delivered `k` items, `k` not more than the target
/// holds, has moved exactly `k` items, and those are the delivered ones in
/// order: an abort at that point reports `k`.
pub proof fn lemma_fill_abort_accounting<T>(target: Seq<T>, chunks: Seq<Seq<T>>)
    requires
        chunks.flatten().len() <= target.len(),
    ensures
        fill_after_all(FillView::start(target), chunks).performed == chunks.flatten().len(),
        fill_after_all(FillView::start(target), chunks).target.take(
            chunks.flatten().len() as int,
        ) == chunks.flatten(),
{
    lemma_fill_from_start(target, chunks);
    let m = fill_after_all(FillView::start(target), chunks);
    assert(m.target.take(chunks.flatten().len() as int) =~= chunks.flatten());
}

/// Across the chunks of a fill, the count of items moved never decreases and
/// never exceeds the target's length.
pub proof fn lemma_fill_progress_monotonic<T>(target: Seq<T>, chunks: Seq<Seq<T>>, i: int, j: int)
    requires
        0 <= i <= j <= chunks.len(),
    ensures
        fill_after_all(FillView::start(target), chunks.take(i)).performed
            <= fill_after_all(FillView::start(target), chunks.take(j)).performed,
        fill_after_all(FillView::start(target), chunks.take(j)).performed <= target.len(),
    decreases j - i,
{
    lemma_fill_from_start(target, chunks.take(j));
    if i < j {
        lemma_fill_progress_monotonic(target, chunks, i, j - 1);
        assert(chunks.take(j).drop_last() =~= chunks.take(j - 1));
    }
}

/// A fill of an empty target finishes at once with nothing moved: it asks the
/// source for nothing.
pub proof fn lemma_fill_zero_length<T>(target: Seq<T>)
    requires
        target.len() == 0,
    ensures
        FillView::start(target).next_step() == ChunkStep::Finished(0),
{
}

} // verus!

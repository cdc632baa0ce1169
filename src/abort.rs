use vstd::prelude::*;

verus! {

/// Detail of an aborted chunk operation: the error that stopped it and how
/// many items were moved before the error came.
pub trait TrChunkIoAbort {
    type LastErr;

    /// The error that caused the abort.
    spec fn spec_last_error(&self) -> Self::LastErr;

    /// The number of items moved before the error occurred.
    spec fn spec_item_count(&self) -> nat;

    /// The error that caused the abort.
    fn last_error(&self) -> (r: &Self::LastErr)
        ensures
            *r == self.spec_last_error(),
    ;

    /// The item count of the operation performed before the error occurred.
    fn item_count(&self) -> (r: usize)
        ensures
            r == self.spec_item_count(),
    ;
}

/// Abort report of a fill or dump operation.
///
/// Progress follows the item-count convention: `item_count` is the number of
/// elements that were moved before `last_error` stopped the operation.
#[derive(Debug)]
pub struct ChunkIoAbort<E> {
    last_error_: E,
    item_count_: usize,
}

impl<E> ChunkIoAbort<E> {
    /// The error held by the report.
    pub closed spec fn error(&self) -> E {
        self.last_error_
    }

    /// The progress held by the report.
    pub closed spec fn progress(&self) -> nat {
        self.item_count_ as nat
    }

    pub fn new(last_error: E, item_count: usize) -> (r: Self)
        ensures
            r.error() == last_error,
            r.progress() == item_count,
    {
        ChunkIoAbort { last_error_: last_error, item_count_: item_count }
    }

    pub fn item_count(&self) -> (r: usize)
        ensures
            r == self.progress(),
    {
        self.item_count_
    }

    pub fn last_error(&self) -> (r: &E)
        ensures
            *r == self.error(),
    {
        &self.last_error_
    }
}

impl<E> TrChunkIoAbort for ChunkIoAbort<E> {
    type LastErr = E;

    closed spec fn spec_last_error(&self) -> E {
        self.error()
    }

    closed spec fn spec_item_count(&self) -> nat {
        self.progress()
    }

    fn last_error(&self) -> (r: &E) {
        ChunkIoAbort::last_error(self)
    }

    fn item_count(&self) -> (r: usize) {
        ChunkIoAbort::item_count(self)
    }
}

} // verus!

use vstd::prelude::*;

verus! {

/// What a copy loop does next.
#[derive(Debug, Clone, Copy, PartialEq, Eq, Structural)]
pub enum ChunkStep {
    /// Ask the chunked buffer for up to this many more items, then hand each
    /// chunk of its reply to the engine in order.
    Request(usize),
    /// The operation is complete; this many items were moved in all.
    Finished(usize),
}

} // verus!

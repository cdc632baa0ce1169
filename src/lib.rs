//! Copy loops between chunked buffers and linear buffers.
//!
//! A chunked buffer (a ring buffer, for instance) hands out its readable or
//! writable space as a sequence of contiguous chunks. The engines here move
//! elements between such chunks and one caller-owned linear buffer, keeping
//! an exact count of the elements moved so far, so that an abort can report
//! precisely how much work was done.
mod abort;
mod copy;
mod dump;
mod fill;
mod step;

pub use abort::{ChunkIoAbort, TrChunkIoAbort};
pub use copy::{clone_items, copy_items, spliced};
pub use dump::{
    dump_after_all, dump_written, lemma_dump_abort_accounting, lemma_dump_conservation,
    lemma_dump_progress_monotonic, lemma_dump_sink_holds_piece, lemma_dump_zero_length,
    DumpEngine, DumpView,
};
pub use fill::{
    fill_after_all, lemma_fill_abort_accounting, lemma_fill_conservation,
    lemma_fill_progress_monotonic, lemma_fill_zero_length, FillEngine, FillView,
};
pub use step::ChunkStep;

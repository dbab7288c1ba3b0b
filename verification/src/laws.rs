use vstd::prelude::*;

use crate::bufferable::Bufferable;
use crate::layered_duplexer::LayeredDuplexer;
use crate::layered_writer::LayeredWriter;
use crate::raw::RawRead;
use crate::raw::RawWrite;
use crate::read_layered::ReadLayered;
use crate::write_layered::WriteLayered;

verus! {

/// LAW: an ended writer carries no trace of *how* it ended.
///
/// `close` and `abandon` both leave the adapter not open with its
/// accepted bytes unchanged — exactly the state this lemma relates — and
/// every operation contract of [`WriteLayered`] is phrased over
/// `is_open` and `accepted` alone. So an abandon followed by any
/// operation behaves identically to a close having happened, except that
/// only the close itself could have reported a flush error.
pub proof fn law_ended_writer_is_uniform<Inner: RawWrite>(
    before: &LayeredWriter<Inner>,
    after_close: &LayeredWriter<Inner>,
    after_abandon: &LayeredWriter<Inner>,
)
    requires
        !after_close.is_open(),
        after_close.accepted() == before.accepted(),
        !after_abandon.is_open(),
        after_abandon.accepted() == before.accepted(),
    ensures
        after_close.is_open() == after_abandon.is_open(),
        after_close.accepted() == after_abandon.accepted(),
{
}

/// LAW: an ended duplexer carries no trace of *how* it ended.
///
/// Closing and abandoning both leave the stream not open with its
/// accepted bytes unchanged, and the read and write contracts drive
/// their ended-stream behavior by `is_open` alone: a status-read after
/// either transition reports `(0, End)`, and a write fails with the
/// fixed `StreamAlreadyEnded` error.
pub proof fn law_ended_duplexer_is_uniform<Inner: RawRead + RawWrite>(
    before: &LayeredDuplexer<Inner>,
    after_close: &LayeredDuplexer<Inner>,
    after_abandon: &LayeredDuplexer<Inner>,
)
    requires
        !after_close.is_open(),
        after_close.accepted() == before.accepted(),
        !after_abandon.is_open(),
        after_abandon.accepted() == before.accepted(),
    ensures
        after_close.is_open() == after_abandon.is_open(),
        after_close.accepted() == after_abandon.accepted(),
{
}

} // verus!

//! Byte-stream I/O with explicit stream-lifecycle status.
//!
//! Plain read/write interfaces overload a zero-byte transfer to mean
//! end-of-stream. This library instead pairs every primitive transfer with a
//! three-way [`Status`] (`Open(Active)`, `Open(Push)`, `End`), so that
//! composed buffering layers always know whether more data may come and
//! whether they should flush now. Adapter types wrap a raw transport and
//! enforce a strict open/closed lifecycle on top of that contract.
//!
//! The pieces, leaves first:
//!
//! - [`Status`] and [`Activity`]: the vocabulary everything else speaks.
//! - [`RawRead`] and [`RawWrite`]: the transport side a stream is built
//!   over, together with in-memory transports ([`VecSource`], [`VecSink`],
//!   [`VecDuplex`]) and scriptable ones ([`ScriptedReader`],
//!   [`ScriptedWriter`]) for exercising every path.
//! - [`ReadLayered`], [`WriteLayered`], [`Bufferable`], [`Closeable`] and
//!   [`HalfDuplexLayered`]: the status-aware capabilities, with the
//!   higher-level operations (read-to-end, read-exact, write-all and their
//!   vectored forms) derived from the primitives as `default_*` functions.
//! - [`LayeredReader`], [`LayeredWriter`], [`LayeredDuplexer`] and
//!   [`SliceReader`]: the adapter state machines implementing those
//!   capabilities over a transport, open until closed or abandoned exactly
//!   once.
//! - [`AsyncReadLayered`] and [`AsyncWriteLayered`]: the same contracts
//!   re-expressed for single-attempt, poll-based scheduling via
//!   [`Readiness`].
//!
//! Every capability carries an abstract byte model — `delivered` for the
//! read side, `accepted` for the write side — and the contracts are stated
//! over those models, so callers know exactly which bytes moved, not just
//! how many.

mod async_read_layered;
mod async_write_layered;
mod bufferable;
mod closeable;
mod duplex_layered;
mod error;
mod laws;
mod layered_duplexer;
mod layered_reader;
mod layered_writer;
mod lifecycle;
mod mem;
mod raw;
mod read_layered;
mod slice_reader;
mod status;
mod write_layered;

pub use async_read_layered::{
    default_poll_read, default_poll_read_vectored, default_poll_read_vectored_with_status,
    AsyncReadLayered, Readiness,
};
pub use async_write_layered::{default_poll_write_vectored, AsyncWriteLayered};
pub use bufferable::{default_suggested_buffer_size, Bufferable};
pub use closeable::Closeable;
pub use duplex_layered::HalfDuplexLayered;
pub use error::{stream_already_ended, IoError};
pub use laws::{law_ended_duplexer_is_uniform, law_ended_writer_is_uniform};
pub use layered_duplexer::LayeredDuplexer;
pub use layered_reader::LayeredReader;
pub use layered_writer::LayeredWriter;
pub use lifecycle::Lifecycle;
pub use mem::{ReadStep, ScriptedReader, ScriptedWriter, VecDuplex, VecSink, VecSource, WriteStep};
pub use raw::{RawRead, RawWrite};
pub use read_layered::{
    decoded_utf8, default_is_read_vectored, default_read, default_read_exact_using_status,
    default_read_to_end, default_read_to_string, default_read_vectored,
    default_read_vectored_with_status, first_nonempty, read_exact_post, to_std_io_read_result,
    vectored_read_post, ReadLayered, STALL_LIMIT,
};
pub use slice_reader::SliceReader;
pub use status::{Activity, Status};
pub use write_layered::{
    concat_bufs, default_is_write_vectored, default_write_all, default_write_all_vectored,
    default_write_vectored, WriteLayered,
};

use vstd::prelude::*;

verus! {

/// The error taxonomy shared by transports and adapters.
///
/// Adapters propagate a transport's error verbatim, with one exception:
/// `Interrupted` is transient and is retried (or reported as a zero-byte
/// open read) rather than surfaced as a failure of the stream itself.
#[derive(Copy, Clone, Eq, PartialEq, Structural, Debug)]
pub enum IoError {
    /// A transient interruption; the operation should simply be retried.
    Interrupted,
    /// The fixed broken-pipe-class error returned by every operation on an
    /// adapter whose stream has already been closed or abandoned. It is
    /// the adapter layer's own error: raw transports never produce it.
    StreamAlreadyEnded,
    /// The stream ended before a read-exact could fill its destination.
    UnexpectedEof,
    /// A write consumed zero bytes of a non-empty buffer.
    WriteZero,
    /// Collected bytes did not form valid UTF-8. It is the decoding
    /// layer's own error: streams and raw transports never produce it.
    InvalidUtf8,
    /// Any other transport fault.
    Other,
}

/// The fixed error reported for operations on an already-ended stream.
pub fn stream_already_ended() -> (e: IoError)
    ensures
        e == IoError::StreamAlreadyEnded,
{
    IoError::StreamAlreadyEnded
}

} // verus!

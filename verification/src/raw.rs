use vstd::prelude::*;

use crate::error::IoError;

verus! {

/// The inbound transport interface a reading adapter is built over: a
/// blocking primitive transfer from some byte source into a caller-supplied
/// buffer.
///
/// A transfer fills a prefix of `buf` and reports how many bytes it placed
/// there; a zero-byte result on a non-empty buffer is the transport's
/// conventional end-of-stream signal, which the adapters reinterpret. The
/// abstract model `delivered` names every byte the transport has handed out
/// so far, so that contracts up the stack can speak about content without
/// fixing what a particular transport will produce next.
pub trait RawRead {
    /// All bytes this transport has delivered so far, oldest first.
    spec fn delivered(&self) -> Seq<u8>;

    /// Whether this transport is an interactive line-editing source, whose
    /// reads return whole lines; used only to pick an adapter construction
    /// mode.
    spec fn line_discipline(&self) -> bool;

    /// Read some bytes into a prefix of `buf`, leaving the rest of `buf`
    /// unchanged.
    fn raw_read(&mut self, buf: &mut Vec<u8>) -> (r: Result<usize, IoError>)
        ensures
            final(buf)@.len() == old(buf)@.len(),
            final(self).line_discipline() == old(self).line_discipline(),
            match r {
                Ok(n) => {
                    &&& n <= old(buf)@.len()
                    &&& final(self).delivered() == old(self).delivered() + final(buf)@.subrange(
                        0,
                        n as int,
                    )
                    &&& final(buf)@.skip(n as int) == old(buf)@.skip(n as int)
                },
                Err(e) => final(self).delivered() == old(self).delivered() && final(buf)@ == old(
                    buf,
                )@ && e != IoError::InvalidUtf8,
            },
    ;

    /// Report the line discipline of this source.
    fn is_line_by_line(&self) -> (r: bool)
        ensures
            r == self.line_discipline(),
    ;
}

/// The outbound transport interface a writing adapter is built over: a
/// blocking primitive transfer of a prefix of `buf` into some byte sink,
/// plus a flush.
///
/// The abstract model `accepted` names every byte the transport has taken
/// responsibility for so far. A failed transfer accepts nothing.
///
/// A transport reports transport conditions only: it never fails with
/// `StreamAlreadyEnded`, which is the lifecycle error of the adapter
/// layer above.
pub trait RawWrite {
    /// All bytes this transport has accepted so far, oldest first.
    spec fn accepted(&self) -> Seq<u8>;

    /// Write some prefix of `buf`, reporting how many bytes were accepted.
    fn raw_write(&mut self, buf: &[u8]) -> (r: Result<usize, IoError>)
        ensures
            match r {
                Ok(n) => n <= buf@.len() && final(self).accepted() == old(self).accepted()
                    + buf@.subrange(0, n as int),
                Err(e) => final(self).accepted() == old(self).accepted() && e
                    != IoError::StreamAlreadyEnded,
            },
    ;

    /// Push any buffered bytes down to their destination.
    fn raw_flush(&mut self) -> (r: Result<(), IoError>)
        ensures
            final(self).accepted() == old(self).accepted(),
            r matches Err(e) ==> e != IoError::StreamAlreadyEnded,
    ;
}

} // verus!

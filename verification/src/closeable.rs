use vstd::prelude::*;

use crate::bufferable::Bufferable;
use crate::error::IoError;

verus! {

/// Output resources that can be *closed*: flushed and permanently ended,
/// with any buffered error reported, after which they are no longer open.
pub trait Closeable: Bufferable {
    /// Flush any buffers and declare the end of the stream, reporting any
    /// errors that occur.
    fn close(&mut self) -> (r: Result<(), IoError>)
        ensures
            !final(self).is_open(),
    ;
}

} // verus!

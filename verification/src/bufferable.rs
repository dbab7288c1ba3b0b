use vstd::prelude::*;

verus! {

/// The buffer-lifecycle capability shared by readers and writers.
///
/// `is_open` is the abstract lifecycle state of the resource: once it is
/// false the stream has permanently ended and the transport is gone.
pub trait Bufferable {
    /// Whether the resource still holds a usable stream.
    spec fn is_open(&self) -> bool;

    /// Close the resource and abandon any pending buffered contents or
    /// errors, without flushing.
    fn abandon(&mut self)
        ensures
            !final(self).is_open(),
    ;

    /// A suggested size, in bytes, of read or write buffers for this
    /// stream.
    fn suggested_buffer_size(&self) -> usize {
        0x2000
    }
}

/// Default implementation of [`Bufferable::suggested_buffer_size`].
pub fn default_suggested_buffer_size<Inner: Bufferable>(_inner: &Inner) -> (r: usize)
    ensures
        r == 0x2000,
{
    // The same as the default buffer size used by common buffered streams.
    0x2000
}

} // verus!

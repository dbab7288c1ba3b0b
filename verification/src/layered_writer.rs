use vstd::prelude::*;
use vstd::pervasive::unreached;

use crate::bufferable::Bufferable;
use crate::error::stream_already_ended;
use crate::error::IoError;
use crate::lifecycle::Lifecycle;
use crate::raw::RawWrite;
use crate::write_layered::WriteLayered;

verus! {

/// Adapts a raw byte sink to the status-aware write capability,
/// enforcing the open/closed lifecycle on top of it: once the stream has
/// been closed or abandoned, every operation fails with the fixed
/// `StreamAlreadyEnded` error, and a transport fault implicitly abandons
/// the stream so a possibly corrupt sink is never reused.
///
/// Close or abandon a writer before letting go of it: dropping one that
/// is still open silently discards its sink without the final flush, so
/// buffered bytes and any pending error are lost.
pub struct LayeredWriter<Inner> {
    inner: Lifecycle<Inner>,
    done: Ghost<Seq<u8>>,
}

impl<Inner: RawWrite> LayeredWriter<Inner> {
    /// Wrap `inner`.
    pub fn new(inner: Inner) -> (r: Self)
        ensures
            r.is_open(),
            r.accepted() == inner.accepted(),
    {
        LayeredWriter { inner: Lifecycle::Open(inner), done: Ghost(Seq::empty()) }
    }

    /// A reference to the underlying sink, which must still be owned: in
    /// this library reaching for the transport of an ended stream is a
    /// programming error, not a runtime condition.
    pub fn get_ref(&self) -> (r: &Inner)
        requires
            self.is_open(),
        ensures
            r.accepted() == self.accepted(),
    {
        match &self.inner {
            Lifecycle::Open(t) => t,
            Lifecycle::Closed => unreached(),
        }
    }

    /// A mutable reference to the underlying sink, which must still be
    /// owned. It is inadvisable to write to the sink directly.
    pub fn get_mut(&mut self) -> (r: &mut Inner)
        requires
            old(self).is_open(),
    {
        match &mut self.inner {
            Lifecycle::Open(t) => t,
            Lifecycle::Closed => unreached(),
        }
    }

    /// Close this writer — flush the sink — and return it; once the
    /// stream has already ended this fails with the fixed error, and if
    /// the final flush fails the sink is discarded with the error.
    pub fn close_into_inner(self) -> (r: Result<Inner, IoError>)
        ensures
            !self.is_open() ==> r == Result::<Inner, IoError>::Err(IoError::StreamAlreadyEnded),
            r matches Ok(t) ==> self.is_open() && t.accepted() == self.accepted(),
    {
        match self.inner {
            Lifecycle::Open(mut t) => match t.raw_flush() {
                Ok(u) => Ok(t),
                Err(e) => Err(e),
            },
            Lifecycle::Closed => Err(stream_already_ended()),
        }
    }

    /// Consume this writer and return the sink, if the stream is still
    /// open; nothing is flushed.
    pub fn abandon_into_inner(self) -> (r: Option<Inner>)
        ensures
            self.is_open() <==> r is Some,
            r matches Some(t) ==> t.accepted() == self.accepted(),
    {
        match self.inner {
            Lifecycle::Open(t) => Some(t),
            Lifecycle::Closed => None,
        }
    }
}

impl<Inner: RawWrite> Bufferable for LayeredWriter<Inner> {
    closed spec fn is_open(&self) -> bool {
        self.inner is Open
    }

    fn abandon(&mut self)
        ensures
            final(self).accepted() == old(self).accepted(),
    {
        let ghost d = self.accepted();
        self.done = Ghost(d);
        let mut taken = Lifecycle::Closed;
        core::mem::swap(&mut taken, &mut self.inner);
    }

    fn suggested_buffer_size(&self) -> (r: usize)
        ensures
            r == 0x2000,
    {
        0x2000
    }
}

impl<Inner: RawWrite> WriteLayered for LayeredWriter<Inner> {
    closed spec fn accepted(&self) -> Seq<u8> {
        match self.inner {
            Lifecycle::Open(t) => t.accepted(),
            Lifecycle::Closed => self.done@,
        }
    }

    fn write(&mut self, buf: &[u8]) -> (r: Result<usize, IoError>) {
        let mut taken = Lifecycle::Closed;
        core::mem::swap(&mut taken, &mut self.inner);
        match taken {
            Lifecycle::Closed => Err(stream_already_ended()),
            Lifecycle::Open(mut t) => {
                match t.raw_write(buf) {
                    Ok(n) => {
                        self.inner = Lifecycle::Open(t);
                        Ok(n)
                    },
                    Err(e) => {
                        if e == IoError::Interrupted {
                            self.inner = Lifecycle::Open(t);
                        } else {
                            self.done = Ghost(t.accepted());
                        }
                        Err(e)
                    },
                }
            },
        }
    }

    fn flush(&mut self) -> (r: Result<(), IoError>) {
        let mut taken = Lifecycle::Closed;
        core::mem::swap(&mut taken, &mut self.inner);
        match taken {
            Lifecycle::Closed => Err(stream_already_ended()),
            Lifecycle::Open(mut t) => {
                match t.raw_flush() {
                    Ok(u) => {
                        self.inner = Lifecycle::Open(t);
                        Ok(())
                    },
                    Err(e) => {
                        if e == IoError::Interrupted {
                            self.inner = Lifecycle::Open(t);
                        } else {
                            self.done = Ghost(t.accepted());
                        }
                        Err(e)
                    },
                }
            },
        }
    }

    fn close(&mut self) -> (r: Result<(), IoError>) {
        let mut taken = Lifecycle::Closed;
        core::mem::swap(&mut taken, &mut self.inner);
        match taken {
            Lifecycle::Closed => Err(stream_already_ended()),
            Lifecycle::Open(mut t) => {
                let r = t.raw_flush();
                self.done = Ghost(t.accepted());
                r
            },
        }
    }
}

} // verus!

use vstd::prelude::*;

use crate::async_read_layered::Readiness;
use crate::bufferable::Bufferable;
use crate::error::IoError;
use crate::layered_writer::LayeredWriter;
use crate::raw::RawWrite;
use crate::read_layered::lemma_first_nonempty_holds;
use crate::status::Activity;
use crate::status::Status;
use crate::write_layered::WriteLayered;

verus! {

/// The poll-based mirror of the status-aware write capability: the same
/// contract as the blocking form, re-expressed for cooperative
/// scheduling. A `Pending` result reports no partial progress.
pub trait AsyncWriteLayered: Bufferable {
    /// All bytes this stream has accepted so far, oldest first.
    spec fn accepted(&self) -> Seq<u8>;

    /// Single-attempt write of some prefix of `buf`.
    fn poll_write(&mut self, buf: &[u8]) -> (r: Readiness<Result<usize, IoError>>)
        ensures
            match r {
                Readiness::Pending => {
                    &&& final(self).accepted() == old(self).accepted()
                    &&& final(self).is_open() == old(self).is_open()
                },
                Readiness::Ready(res) => match res {
                    Ok(n) => {
                        &&& n <= buf@.len()
                        &&& old(self).is_open()
                        &&& final(self).is_open()
                        &&& final(self).accepted() == old(self).accepted() + buf@.subrange(
                            0,
                            n as int,
                        )
                    },
                    Err(e) => {
                        &&& final(self).accepted() == old(self).accepted()
                        &&& (e == IoError::StreamAlreadyEnded <==> !old(self).is_open())
                        &&& (!old(self).is_open() ==> !final(self).is_open())
                        &&& (e == IoError::Interrupted ==> old(self).is_open() && final(self).is_open())
                        &&& (old(self).is_open() && e != IoError::Interrupted ==> !final(self).is_open())
                    },
                },
            },
    ;

    /// Single-attempt flush.
    fn poll_flush(&mut self) -> (r: Readiness<Result<(), IoError>>)
        ensures
            final(self).accepted() == old(self).accepted(),
            match r {
                Readiness::Pending => final(self).is_open() == old(self).is_open(),
                Readiness::Ready(res) => match res {
                    Ok(u) => old(self).is_open() && final(self).is_open(),
                    Err(e) => {
                        &&& (e == IoError::StreamAlreadyEnded <==> !old(self).is_open())
                        &&& (!old(self).is_open() ==> !final(self).is_open())
                        &&& (e == IoError::Interrupted ==> old(self).is_open() && final(self).is_open())
                        &&& (old(self).is_open() && e != IoError::Interrupted ==> !final(self).is_open())
                    },
                },
            },
    ;

    /// Single-attempt close: once it completes — successfully or not —
    /// the stream is no longer open.
    fn poll_close(&mut self) -> (r: Readiness<Result<(), IoError>>)
        ensures
            final(self).accepted() == old(self).accepted(),
            match r {
                Readiness::Pending => final(self).is_open() == old(self).is_open(),
                Readiness::Ready(res) => !final(self).is_open() && (res == Result::<
                    (),
                    IoError,
                >::Err(IoError::StreamAlreadyEnded) <==> !old(self).is_open()),
            },
    ;

    /// Like `poll_flush`, but driven by a status describing the future of
    /// the stream: `Open(Active)` does nothing, `Open(Push)` flushes, and
    /// `End` closes.
    fn flush_with_status(&mut self, status: Status) -> (r: Readiness<Result<(), IoError>>)
        ensures
            final(self).accepted() == old(self).accepted(),
            status == Status::Open(Activity::Active) ==> r == Readiness::<
                Result<(), IoError>,
            >::Ready(Ok(())) && final(self).is_open() == old(self).is_open(),
            status is End && r is Ready ==> !final(self).is_open(),
    {
        match status {
            Status::Open(Activity::Active) => Readiness::Ready(Ok(())),
            Status::Open(Activity::Push) => self.poll_flush(),
            Status::End => self.poll_close(),
        }
    }
}

/// Default implementation of a single-attempt legacy vectored write in
/// terms of [`AsyncWriteLayered::poll_write`]: the write is delegated to
/// the first non-empty buffer.
pub fn default_poll_write_vectored<Inner: AsyncWriteLayered>(
    inner: &mut Inner,
    bufs: &Vec<Vec<u8>>,
) -> (r: Readiness<Result<usize, IoError>>)
    ensures
        ({
            let i = crate::read_layered::first_nonempty(bufs@);
            match r {
                Readiness::Pending => {
                    &&& final(inner).accepted() == old(inner).accepted()
                    &&& final(inner).is_open() == old(inner).is_open()
                },
                Readiness::Ready(res) => match res {
                    Ok(n) => {
                        &&& old(inner).is_open()
                        &&& final(inner).is_open()
                        &&& if i < bufs@.len() {
                            n <= bufs@[i]@.len() && final(inner).accepted() == old(inner).accepted() + bufs@[i]@.subrange(0, n as int)
                        } else {
                            n == 0 && final(inner).accepted() == old(inner).accepted()
                        }
                    },
                    Err(e) => {
                        &&& final(inner).accepted() == old(inner).accepted()
                        &&& (e == IoError::StreamAlreadyEnded <==> !old(inner).is_open())
                        &&& (e == IoError::Interrupted ==> old(inner).is_open() && final(inner).is_open())
                    },
                },
            }
        }),
{
    let ghost obufs = bufs@;
    let mut i: usize = 0;
    while i < bufs.len() && bufs[i].len() == 0
        invariant
            0 <= i <= bufs.len(),
            bufs@ == obufs,
            forall|j: int| 0 <= j < i ==> obufs[j]@.len() == 0,
        decreases bufs@.len() - i,
    {
        i = i + 1;
    }
    proof {
        lemma_first_nonempty_holds(obufs, i as int);
    }
    if i == bufs.len() {
        let empty_buf: Vec<u8> = Vec::new();
        let r = inner.poll_write(empty_buf.as_slice());
        proof {
            if r matches Readiness::Ready(res) && res is Ok {
                assert(inner.accepted() =~= old(inner).accepted());
            }
        }
        match r {
            Readiness::Ready(res) => match res {
                Ok(n) => Readiness::Ready(Ok(0)),
                Err(e) => Readiness::Ready(Err(e)),
            },
            Readiness::Pending => Readiness::Pending,
        }
    } else {
        inner.poll_write(bufs[i].as_slice())
    }
}

/// A blocking adapter satisfies the single-attempt contract trivially:
/// it always completes, so a poll is just the blocking operation.
impl<Inner: RawWrite> AsyncWriteLayered for LayeredWriter<Inner> {
    open spec fn accepted(&self) -> Seq<u8> {
        WriteLayered::accepted(self)
    }

    fn poll_write(&mut self, buf: &[u8]) -> (r: Readiness<Result<usize, IoError>>) {
        Readiness::Ready(WriteLayered::write(self, buf))
    }

    fn poll_flush(&mut self) -> (r: Readiness<Result<(), IoError>>) {
        Readiness::Ready(WriteLayered::flush(self))
    }

    fn poll_close(&mut self) -> (r: Readiness<Result<(), IoError>>) {
        Readiness::Ready(WriteLayered::close(self))
    }
}

} // verus!

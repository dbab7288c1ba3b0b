use vstd::prelude::*;

use crate::bufferable::Bufferable;
use crate::error::IoError;
use crate::layered_reader::LayeredReader;
use crate::raw::RawRead;
use crate::read_layered::lemma_first_nonempty_holds;
use crate::read_layered::to_std_io_read_result;
use crate::read_layered::vectored_read_post;
use crate::read_layered::ReadLayered;
use crate::status::Status;

verus! {

/// The single-attempt outcome of a poll-based operation: either the
/// operation completed with a result, or it could make no progress yet
/// and the caller must re-register interest and try again later.
///
/// This is the abstract "blocking or pending" shape shared by the
/// poll-based mirrors; how suspension is actually expressed (a waker, a
/// task) is plumbing that lives outside this library.
#[derive(PartialEq, Eq, Debug)]
pub enum Readiness<T> {
    /// The operation completed.
    Ready(T),
    /// No progress could be made yet; nothing happened.
    Pending,
}

/// The poll-based mirror of the status-aware read capability: the same
/// contract as the blocking form, re-expressed for cooperative
/// scheduling. A `Pending` result reports no partial progress: the
/// stream and the destination are exactly as they were.
pub trait AsyncReadLayered: Bufferable {
    /// All bytes this stream has handed to callers so far, oldest first.
    spec fn delivered(&self) -> Seq<u8>;

    /// Single-attempt `read_with_status`.
    fn poll_read_with_status(&mut self, buf: &mut Vec<u8>) -> (r: Readiness<
        Result<(usize, Status), IoError>,
    >)
        ensures
            final(buf)@.len() == old(buf)@.len(),
            match r {
                Readiness::Pending => {
                    &&& final(self).delivered() == old(self).delivered()
                    &&& final(self).is_open() == old(self).is_open()
                    &&& final(buf)@ == old(buf)@
                },
                Readiness::Ready(res) => match res {
                    Ok((n, s)) => {
                        &&& n <= old(buf)@.len()
                        &&& final(self).delivered() == old(self).delivered()
                            + final(buf)@.subrange(0, n as int)
                        &&& final(buf)@.skip(n as int) == old(buf)@.skip(n as int)
                        &&& (s is End ==> !final(self).is_open())
                        &&& (s is Open ==> final(self).is_open())
                        &&& (!old(self).is_open() ==> n == 0 && s is End)
                    },
                    Err(e) => {
                        &&& e != IoError::Interrupted
                        &&& e != IoError::InvalidUtf8
                        &&& old(self).is_open()
                        &&& !final(self).is_open()
                        &&& final(self).delivered() == old(self).delivered()
                        &&& final(buf)@ == old(buf)@
                    },
                },
            },
    ;

    /// Single-attempt `read_vectored_with_status`, reading into the first
    /// non-empty buffer of `bufs`.
    fn poll_read_vectored_with_status(&mut self, bufs: &mut Vec<Vec<u8>>) -> (r: Readiness<
        Result<(usize, Status), IoError>,
    >)
        ensures
            match r {
                Readiness::Pending => {
                    &&& final(self).delivered() == old(self).delivered()
                    &&& final(self).is_open() == old(self).is_open()
                    &&& final(bufs)@.len() == old(bufs)@.len()
                    &&& (forall|j: int|
                        0 <= j < old(bufs)@.len() ==> final(bufs)@[j]@ == old(bufs)@[j]@)
                },
                Readiness::Ready(res) => vectored_read_post(
                    old(self).delivered(),
                    old(self).is_open(),
                    final(self).delivered(),
                    final(self).is_open(),
                    old(bufs)@,
                    final(bufs)@,
                    res,
                ),
            },
    {
        let ghost obufs = old(bufs)@;
        let mut i: usize = 0;
        while i < bufs.len() && bufs[i].len() == 0
            invariant
                0 <= i <= bufs.len(),
                bufs@ == obufs,
                forall|j: int| 0 <= j < i ==> obufs[j]@.len() == 0,
            decreases bufs@.len() - i,
        {
            i = i + 1;
        }
        proof {
            lemma_first_nonempty_holds(obufs, i as int);
        }
        if i == bufs.len() {
            let mut empty_buf: Vec<u8> = Vec::new();
            let r = self.poll_read_with_status(&mut empty_buf);
            proof {
                if r matches Readiness::Ready(res) && res is Ok {
                    assert(self.delivered() =~= old(self).delivered());
                }
            }
            r
        } else {
            let mut b: Vec<u8> = Vec::new();
            core::mem::swap(&mut b, &mut bufs[i]);
            let r = self.poll_read_with_status(&mut b);
            core::mem::swap(&mut b, &mut bufs[i]);
            proof {
                assert(forall|j: int|
                    0 <= j < obufs.len() && j != i ==> bufs@[j]@ == obufs[j]@);

            }
            r
        }
    }

    /// Some streams require a buffer of at least a certain size.
    fn minimum_buffer_size(&self) -> usize {
        0
    }
}

/// Default implementation of a single-attempt legacy read in terms of
/// [`AsyncReadLayered::poll_read_with_status`]: the completed result goes
/// through the usual zero-means-end translation.
pub fn default_poll_read<Inner: AsyncReadLayered>(inner: &mut Inner, buf: &mut Vec<u8>) -> (r:
    Readiness<Result<usize, IoError>>)
    ensures
        final(buf)@.len() == old(buf)@.len(),
        !old(inner).is_open() ==> (r is Pending || r == Readiness::<Result<usize, IoError>>::Ready(
            Ok(0),
        )),
        match r {
            Readiness::Pending => {
                &&& final(inner).delivered() == old(inner).delivered()
                &&& final(inner).is_open() == old(inner).is_open()
                &&& final(buf)@ == old(buf)@
            },
            Readiness::Ready(res) => match res {
                Ok(n) => {
                    &&& n <= old(buf)@.len()
                    &&& final(inner).delivered() == old(inner).delivered() + final(buf)@.subrange(0, n as int)
                    &&& (n == 0 ==> !final(inner).is_open())
                },
                Err(e) => {
                    &&& final(inner).delivered() == old(inner).delivered()
                    &&& final(buf)@ == old(buf)@
                    &&& (e == IoError::Interrupted ==> final(inner).is_open())
                },
            },
        },
{
    match inner.poll_read_with_status(buf) {
        Readiness::Ready(res) => match res {
            Ok(size_and_status) => {
                proof {
                    if size_and_status.0 == 0 {
                        assert(buf@.skip(0) =~= buf@);
                        assert(old(buf)@.skip(0) =~= old(buf)@);
                        assert(inner.delivered() =~= old(inner).delivered());
                    }
                }
                Readiness::Ready(to_std_io_read_result(size_and_status))
            },
            Err(e) => Readiness::Ready(Err(e)),
        },
        Readiness::Pending => Readiness::Pending,
    }
}

/// Default implementation of a single-attempt legacy vectored read in
/// terms of [`AsyncReadLayered::poll_read_vectored_with_status`].
pub fn default_poll_read_vectored<Inner: AsyncReadLayered>(
    inner: &mut Inner,
    bufs: &mut Vec<Vec<u8>>,
) -> (r: Readiness<Result<usize, IoError>>)
    ensures
        match r {
            Readiness::Pending => {
                &&& final(inner).delivered() == old(inner).delivered()
                &&& final(inner).is_open() == old(inner).is_open()
                &&& final(bufs)@.len() == old(bufs)@.len()
                &&& (forall|j: int|
                    0 <= j < old(bufs)@.len() ==> final(bufs)@[j]@ == old(bufs)@[j]@)
            },
            Readiness::Ready(res) => match res {
                Ok(n) => n == 0 ==> !final(inner).is_open(),
                Err(e) => e == IoError::Interrupted ==> final(inner).is_open(),
            },
        },
{
    match inner.poll_read_vectored_with_status(bufs) {
        Readiness::Ready(res) => match res {
            Ok(size_and_status) => Readiness::Ready(to_std_io_read_result(size_and_status)),
            Err(e) => Readiness::Ready(Err(e)),
        },
        Readiness::Pending => Readiness::Pending,
    }
}

/// Default implementation of
/// [`AsyncReadLayered::poll_read_vectored_with_status`] in terms of
/// [`AsyncReadLayered::poll_read_with_status`].
pub fn default_poll_read_vectored_with_status<Inner: AsyncReadLayered>(
    inner: &mut Inner,
    bufs: &mut Vec<Vec<u8>>,
) -> (r: Readiness<Result<(usize, Status), IoError>>)
    ensures
        match r {
            Readiness::Pending => {
                &&& final(inner).delivered() == old(inner).delivered()
                &&& final(inner).is_open() == old(inner).is_open()
                &&& final(bufs)@.len() == old(bufs)@.len()
                &&& (forall|j: int|
                    0 <= j < old(bufs)@.len() ==> final(bufs)@[j]@ == old(bufs)@[j]@)
            },
            Readiness::Ready(res) => vectored_read_post(
                old(inner).delivered(),
                old(inner).is_open(),
                final(inner).delivered(),
                final(inner).is_open(),
                old(bufs)@,
                final(bufs)@,
                res,
            ),
        },
{
    inner.poll_read_vectored_with_status(bufs)
}

/// A blocking adapter satisfies the single-attempt contract trivially:
/// it always completes, so a poll is just the blocking operation.
impl<Inner: RawRead> AsyncReadLayered for LayeredReader<Inner> {
    open spec fn delivered(&self) -> Seq<u8> {
        ReadLayered::delivered(self)
    }

    fn poll_read_with_status(&mut self, buf: &mut Vec<u8>) -> (r: Readiness<
        Result<(usize, Status), IoError>,
    >) {
        Readiness::Ready(ReadLayered::read_with_status(self, buf))
    }
}

} // verus!

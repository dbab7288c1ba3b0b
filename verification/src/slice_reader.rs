use vstd::prelude::*;
use vstd::slice::slice_index_get;
use vstd::slice::slice_subrange;

use crate::bufferable::Bufferable;
use crate::error::IoError;
use crate::read_layered::ReadLayered;
use crate::status::Activity;
use crate::status::Status;

verus! {

/// Adapts a byte slice to the status-aware read capability: reads hand out
/// the bytes of the slice in order, and the read that exhausts it already
/// carries `Status::End`, so no extra zero-byte probe is needed.
pub struct SliceReader<'a> {
    slice: &'a [u8],
    pos: usize,
    abandoned: bool,
    hist: Ghost<Seq<u8>>,
}

impl<'a> SliceReader<'a> {
    /// The bytes this reader has yet to hand out.
    pub closed spec fn remaining(&self) -> Seq<u8> {
        if self.abandoned || self.pos > self.slice@.len() {
            Seq::empty()
        } else {
            self.slice@.skip(self.pos as int)
        }
    }

    /// Wrap `slice`; the reader will deliver exactly those bytes.
    pub fn new(slice: &'a [u8]) -> (r: Self)
        ensures
            r.remaining() == slice@,
            r.delivered() == Seq::<u8>::empty(),
    {
        let r = SliceReader { slice, pos: 0, abandoned: false, hist: Ghost(Seq::empty()) };
        proof {
            assert(r.remaining() =~= slice@);
        }
        r
    }

    /// Copy the next `min(buf.len(), remaining)` bytes into a prefix of
    /// `buf`, advancing past them.
    fn take_prefix(&mut self, buf: &mut Vec<u8>) -> (n: usize)
        ensures
            final(buf)@.len() == old(buf)@.len(),
            n == if old(buf)@.len() < old(self).remaining().len() {
                old(buf)@.len()
            } else {
                old(self).remaining().len()
            },
            final(buf)@.subrange(0, n as int) == old(self).remaining().take(n as int),
            final(buf)@.skip(n as int) == old(buf)@.skip(n as int),
            final(self).remaining() == old(self).remaining().skip(n as int),
            final(self).delivered() == old(self).delivered() + final(buf)@.subrange(0, n as int),
            final(self).abandoned_flag() == old(self).abandoned_flag(),
    {
        if self.abandoned || self.pos >= self.slice.len() || buf.len() == 0 {
            proof {
                assert(self.remaining() =~= self.remaining().skip(0));
                assert(buf@.subrange(0, 0) =~= self.remaining().take(0));
                assert(buf@.skip(0) =~= old(buf)@.skip(0));
                assert(self.delivered() =~= old(self).delivered() + buf@.subrange(0, 0));
            }
            return 0;
        }
        let avail = self.slice.len() - self.pos;
        let k = if buf.len() < avail {
            buf.len()
        } else {
            avail
        };
        let mut j: usize = 0;
        while j < k
            invariant
                k <= avail,
                avail == self.slice@.len() - self.pos,
                self.pos + k <= self.slice@.len(),
                self.slice@.len() <= usize::MAX,
                0 <= j <= k,
                k <= buf@.len(),
                buf@.len() == old(buf)@.len(),
                self == old(self),
                !self.abandoned,
                forall|t: int| 0 <= t < j ==> buf@[t] == self.slice@[self.pos + t],
                forall|t: int| j <= t < buf@.len() ==> buf@[t] == old(buf)@[t],
            decreases k - j,
        {
            let b = *slice_index_get(self.slice, self.pos + j);
            buf[j] = b;
            j = j + 1;
        }
        let ghost delta = buf@.subrange(0, k as int);
        proof {
            assert(delta =~= old(self).remaining().take(k as int));
        }
        self.pos = self.pos + k;
        self.hist = Ghost(self.hist@ + delta);
        proof {
            assert(buf@.skip(k as int) =~= old(buf)@.skip(k as int));
            assert(self.remaining() =~= old(self).remaining().skip(k as int));
            assert(self.delivered() =~= old(self).delivered() + buf@.subrange(0, k as int));
        }
        k
    }

    /// Ghost view of whether the reader was abandoned.
    pub closed spec fn abandoned_flag(&self) -> bool {
        self.abandoned
    }

    /// A plain read with the legacy meaning: the count alone, and zero
    /// once the slice is exhausted.
    pub fn read(&mut self, buf: &mut Vec<u8>) -> (r: Result<usize, IoError>)
        ensures
            final(buf)@.len() == old(buf)@.len(),
            r matches Ok(n) && n == if old(buf)@.len() < old(self).remaining().len() {
                old(buf)@.len()
            } else {
                old(self).remaining().len()
            } && final(buf)@.subrange(0, n as int) == old(self).remaining().take(n as int)
                && final(self).remaining() == old(self).remaining().skip(n as int),
    {
        let n = self.take_prefix(buf);
        Ok(n)
    }

    /// A legacy exact read, straight off the slice: it succeeds exactly
    /// when enough bytes remain, and on failure consumes nothing.
    pub fn read_exact(&mut self, buf: &mut Vec<u8>) -> (r: Result<(), IoError>)
        ensures
            final(buf)@.len() == old(buf)@.len(),
            r is Ok <==> old(buf)@.len() <= old(self).remaining().len(),
            r is Ok ==> final(buf)@ == old(self).remaining().take(old(buf)@.len() as int)
                && final(self).remaining() == old(self).remaining().skip(old(buf)@.len() as int),
            r is Err ==> r == Result::<(), IoError>::Err(IoError::UnexpectedEof) && final(buf)@
                == old(buf)@ && final(self).remaining() == old(self).remaining(),
    {
        let want = buf.len();
        let available = if self.abandoned || self.pos > self.slice.len() {
            0
        } else {
            self.slice.len() - self.pos
        };
        if want > available {
            return Err(IoError::UnexpectedEof);
        }
        let n = self.take_prefix(buf);
        proof {
            assert(buf@.subrange(0, n as int) =~= buf@);
        }
        Ok(())
    }

    /// A legacy read-to-end, straight off the slice: append everything
    /// that remains in one step.
    pub fn read_to_end(&mut self, buf: &mut Vec<u8>) -> (r: Result<usize, IoError>)
        ensures
            r matches Ok(n) && n == old(self).remaining().len(),
            final(buf)@ == old(buf)@ + old(self).remaining(),
            final(self).remaining() == Seq::<u8>::empty(),
            final(self).delivered() == old(self).delivered() + old(self).remaining(),
    {
        if self.abandoned || self.pos >= self.slice.len() {
            proof {
                assert(self.remaining() =~= Seq::<u8>::empty());
                assert(buf@ =~= old(buf)@ + self.remaining());
                assert(self.delivered() =~= old(self).delivered() + self.remaining());
            }
            return Ok(0);
        }
        let start = self.pos;
        let n = self.slice.len() - start;
        buf.extend_from_slice(slice_subrange(self.slice, start, self.slice.len()));
        let ghost delta = self.slice@.skip(start as int);
        self.pos = self.slice.len();
        self.hist = Ghost(self.hist@ + delta);
        proof {
            assert(old(self).remaining() =~= self.slice@.subrange(
                start as int,
                self.slice@.len() as int,
            ));
            assert(self.remaining() =~= Seq::<u8>::empty());
            assert(buf@ =~= old(buf)@ + old(self).remaining());
        }
        Ok(n)
    }
}

impl<'a> Bufferable for SliceReader<'a> {
    closed spec fn is_open(&self) -> bool {
        self.remaining().len() > 0
    }

    fn abandon(&mut self)
        ensures
            final(self).delivered() == old(self).delivered(),
            final(self).remaining() == Seq::<u8>::empty(),
    {
        self.abandoned = true;
        proof {
            assert(self.remaining() =~= Seq::<u8>::empty());
        }
    }

    fn suggested_buffer_size(&self) -> (r: usize)
        ensures
            r == 0,
    {
        // This is just copying values in memory, so no need to buffer.
        0
    }
}

impl<'a> ReadLayered for SliceReader<'a> {
    closed spec fn delivered(&self) -> Seq<u8> {
        self.hist@
    }

    fn read_with_status(&mut self, buf: &mut Vec<u8>) -> (r: Result<(usize, Status), IoError>)
        ensures
            ({
                let n = if old(buf)@.len() < old(self).remaining().len() {
                    old(buf)@.len() as int
                } else {
                    old(self).remaining().len() as int
                };
                &&& r matches Ok((m, s)) && m == n
                &&& final(buf)@.subrange(0, n) == old(self).remaining().take(n)
                &&& final(self).remaining() == old(self).remaining().skip(n)
                &&& (r matches Ok((m, s)) && s == if final(self).remaining().len() == 0 {
                    Status::End
                } else {
                    Status::Open(Activity::Active)
                })
            }),
    {
        let n = self.take_prefix(buf);
        let at_end = self.abandoned || self.pos >= self.slice.len();
        proof {
            assert(at_end == (self.remaining().len() == 0));
        }
        if at_end {
            Ok((n, Status::End))
        } else {
            Ok((n, Status::active()))
        }
    }

    fn minimum_buffer_size(&self) -> (r: usize)
        ensures
            r == 0,
    {
        0
    }
}

} // verus!

use vstd::prelude::*;

use crate::bufferable::Bufferable;
use crate::error::stream_already_ended;
use crate::error::IoError;
use crate::lifecycle::Lifecycle;
use crate::raw::RawRead;
use crate::raw::RawWrite;
use crate::read_layered::default_read;
use crate::read_layered::first_nonempty;
use crate::read_layered::lemma_first_nonempty_holds;
use crate::read_layered::decoded_utf8;
use crate::read_layered::default_read_to_end;
use crate::read_layered::default_read_to_string;
use crate::read_layered::default_read_vectored;
use crate::read_layered::ReadLayered;
use crate::status::Activity;
use crate::status::Status;
use crate::write_layered::WriteLayered;

verus! {

/// Adapts a bidirectional raw transport to both status-aware
/// capabilities at once, on a single open/closed lifecycle.
///
/// The transport here is inseparable: closing or abandoning the stream
/// ends both directions together. After that, status-reads report
/// `(0, End)` and writes fail with the fixed `StreamAlreadyEnded` error.
/// The read side offers the same construction-time modes as the reading
/// adapter: end-as-push and line-by-line.
///
/// Close or abandon a duplexer before letting go of it: dropping one
/// that is still open silently discards its transport without the final
/// flush, so buffered bytes and any pending error are lost.
pub struct LayeredDuplexer<Inner> {
    inner: Lifecycle<Inner>,
    eos_as_push: bool,
    line_by_line: bool,
    done_read: Ghost<Seq<u8>>,
    done_write: Ghost<Seq<u8>>,
}

impl<Inner: RawRead + RawWrite> LayeredDuplexer<Inner> {
    /// Whether a transport end-of-stream is reported as `Push`.
    pub closed spec fn eos_push_mode(&self) -> bool {
        self.eos_as_push
    }

    /// Whether reads ending in a newline are reported as `Push`.
    pub closed spec fn line_mode(&self) -> bool {
        self.line_by_line
    }

    /// Wrap `inner` with default settings.
    pub fn new(inner: Inner) -> (r: Self)
        ensures
            r.is_open(),
            r.delivered() == inner.delivered(),
            r.accepted() == inner.accepted(),
            !r.eos_push_mode(),
            !r.line_mode(),
    {
        LayeredDuplexer {
            inner: Lifecycle::Open(inner),
            eos_as_push: false,
            line_by_line: false,
            done_read: Ghost(Seq::empty()),
            done_write: Ghost(Seq::empty()),
        }
    }

    /// Wrap `inner`; when it reports end of stream, report a push but keep
    /// the stream open and continue to read data on it.
    pub fn with_eos_as_push(inner: Inner) -> (r: Self)
        ensures
            r.is_open(),
            r.delivered() == inner.delivered(),
            r.accepted() == inner.accepted(),
            r.eos_push_mode(),
            !r.line_mode(),
    {
        LayeredDuplexer {
            inner: Lifecycle::Open(inner),
            eos_as_push: true,
            line_by_line: false,
            done_read: Ghost(Seq::empty()),
            done_write: Ghost(Seq::empty()),
        }
    }

    /// Wrap an `inner` which reads its input line by line, such as an
    /// interactive terminal.
    pub fn line_by_line(inner: Inner) -> (r: Self)
        ensures
            r.is_open(),
            r.delivered() == inner.delivered(),
            r.accepted() == inner.accepted(),
            !r.eos_push_mode(),
            r.line_mode(),
    {
        LayeredDuplexer {
            inner: Lifecycle::Open(inner),
            eos_as_push: false,
            line_by_line: true,
            done_read: Ghost(Seq::empty()),
            done_write: Ghost(Seq::empty()),
        }
    }

    /// Wrap `inner`, switching on line-by-line mode exactly when the
    /// transport reports an interactive line discipline.
    pub fn maybe_terminal(inner: Inner) -> (r: Self)
        ensures
            r.is_open(),
            r.delivered() == inner.delivered(),
            r.accepted() == inner.accepted(),
            !r.eos_push_mode(),
            r.line_mode() == inner.line_discipline(),
    {
        if inner.is_line_by_line() {
            Self::line_by_line(inner)
        } else {
            Self::new(inner)
        }
    }

    /// Close this duplexer — flush the transport — and return it; once
    /// the stream has already ended this fails with the fixed error, and
    /// if the final flush fails the transport is discarded with the
    /// error.
    pub fn close_into_inner(self) -> (r: Result<Inner, IoError>)
        ensures
            !self.is_open() ==> r == Result::<Inner, IoError>::Err(IoError::StreamAlreadyEnded),
            r matches Ok(t) ==> self.is_open() && t.accepted() == self.accepted(),
    {
        match self.inner {
            Lifecycle::Open(mut t) => match t.raw_flush() {
                Ok(u) => Ok(t),
                Err(e) => Err(e),
            },
            Lifecycle::Closed => Err(stream_already_ended()),
        }
    }

    /// Consume this duplexer and return the transport, if the stream is
    /// still open; nothing is flushed.
    pub fn abandon_into_inner(self) -> (r: Option<Inner>)
        ensures
            self.is_open() <==> r is Some,
            r matches Some(t) ==> t.accepted() == self.accepted() && t.delivered()
                == self.delivered(),
    {
        match self.inner {
            Lifecycle::Open(t) => Some(t),
            Lifecycle::Closed => None,
        }
    }

    /// A plain read with the legacy meaning: zero means end-of-stream and
    /// a zero-byte open read is reported as the `Interrupted` retry
    /// signal.
    pub fn read(&mut self, buf: &mut Vec<u8>) -> (r: Result<usize, IoError>)
        ensures
            final(buf)@.len() == old(buf)@.len(),
            !old(self).is_open() ==> r == Result::<usize, IoError>::Ok(0) && final(buf)@ == old(buf)@,
            match r {
                Ok(n) => {
                    &&& n <= old(buf)@.len()
                    &&& final(self).delivered() == old(self).delivered() + final(buf)@.subrange(
                        0,
                        n as int,
                    )
                    &&& (n == 0 ==> !final(self).is_open())
                },
                Err(e) => {
                    &&& final(self).delivered() == old(self).delivered()
                    &&& final(buf)@ == old(buf)@
                    &&& (e == IoError::Interrupted ==> final(self).is_open())
                    &&& (e != IoError::Interrupted ==> !final(self).is_open())
                },
            },
    {
        default_read(self, buf)
    }

    /// A legacy read-to-end: grow `buf` by every byte the stream delivers
    /// until it ends.
    pub fn read_to_end(&mut self, buf: &mut Vec<u8>) -> (r: Result<usize, IoError>)
        ensures
            old(self).delivered() == final(self).delivered().take(
                old(self).delivered().len() as int,
            ),
            !old(self).is_open() ==> r == Result::<usize, IoError>::Ok(0) && final(buf)@ == old(buf)@,
            match r {
                Ok(n) => {
                    &&& final(buf)@ == old(buf)@ + final(self).delivered().skip(
                        old(self).delivered().len() as int,
                    )
                    &&& final(buf)@.len() == old(buf)@.len() + n
                    &&& !final(self).is_open()
                },
                Err(e) => {
                    &&& final(buf)@ == old(buf)@
                    &&& (e == IoError::Interrupted ==> final(self).is_open())
                    &&& (e != IoError::Interrupted ==> !final(self).is_open())
                },
            },
    {
        default_read_to_end(self, buf)
    }

    /// A legacy read-to-string: collect every remaining byte of the
    /// stream and append it as UTF-8 text.
    pub fn read_to_string(&mut self, buf: &mut String) -> (r: Result<usize, IoError>)
        ensures
            match r {
                Ok(n) => {
                    let delta = final(self).delivered().skip(old(self).delivered().len() as int);
                    &&& n == delta.len()
                    &&& decoded_utf8(delta) is Some
                    &&& final(buf)@ == old(buf)@ + decoded_utf8(delta)->0
                    &&& !final(self).is_open()
                },
                Err(e) => {
                    &&& final(buf)@ == old(buf)@
                    &&& (e == IoError::Interrupted ==> final(self).is_open())
                    &&& (e != IoError::Interrupted ==> !final(self).is_open())
                    &&& (e == IoError::InvalidUtf8 ==> decoded_utf8(
                        final(self).delivered().skip(old(self).delivered().len() as int),
                    ) is None)
                },
            },
    {
        default_read_to_string(self, buf)
    }

    /// A legacy exact read: fill all of `buf` or fail, with the trailing
    /// status discarded.
    pub fn read_exact(&mut self, buf: &mut Vec<u8>) -> (r: Result<(), IoError>)
        ensures
            final(buf)@.len() == old(buf)@.len(),
            old(self).delivered() == final(self).delivered().take(
                old(self).delivered().len() as int,
            ),
            old(buf)@.len() == 0 ==> r is Ok,
            !old(self).is_open() && old(buf)@.len() > 0 ==> r == Result::<(), IoError>::Err(
                IoError::UnexpectedEof,
            ),
            match r {
                Ok(u) => final(self).delivered() == old(self).delivered() + final(buf)@,
                Err(e) => {
                    &&& final(buf)@ == old(buf)@
                    &&& (e == IoError::Interrupted ==> final(self).is_open())
                    &&& (e != IoError::Interrupted ==> !final(self).is_open())
                },
            },
    {
        match self.read_exact_using_status(buf) {
            Ok(_status) => Ok(()),
            Err(e) => Err(e),
        }
    }

    /// A legacy vectored read: the count alone, into the first non-empty
    /// buffer, with a zero-byte open read reported as the `Interrupted`
    /// retry signal.
    pub fn read_vectored(&mut self, bufs: &mut Vec<Vec<u8>>) -> (r: Result<usize, IoError>)
        ensures
            final(bufs)@.len() == old(bufs)@.len(),
            !old(self).is_open() ==> r == Result::<usize, IoError>::Ok(0) && !final(self).is_open(),
            match r {
                Ok(n) => n == 0 ==> !final(self).is_open(),
                Err(e) => {
                    &&& final(self).delivered() == old(self).delivered()
                    &&& (forall|j: int|
                        0 <= j < old(bufs)@.len() ==> final(bufs)@[j]@ == old(bufs)@[j]@)
                    &&& (e == IoError::Interrupted ==> final(self).is_open())
                    &&& (e != IoError::Interrupted ==> !final(self).is_open())
                },
            },
    {
        default_read_vectored(self, bufs)
    }
}

impl<Inner: RawRead + RawWrite> Bufferable for LayeredDuplexer<Inner> {
    closed spec fn is_open(&self) -> bool {
        self.inner is Open
    }

    fn abandon(&mut self)
        ensures
            final(self).delivered() == old(self).delivered(),
            final(self).accepted() == old(self).accepted(),
            final(self).eos_push_mode() == old(self).eos_push_mode(),
            final(self).line_mode() == old(self).line_mode(),
    {
        let ghost d = self.delivered();
        let ghost a = self.accepted();
        self.done_read = Ghost(d);
        self.done_write = Ghost(a);
        let mut taken = Lifecycle::Closed;
        core::mem::swap(&mut taken, &mut self.inner);
    }

    fn suggested_buffer_size(&self) -> (r: usize)
        ensures
            r == 0x2000,
    {
        0x2000
    }
}

impl<Inner: RawRead + RawWrite> ReadLayered for LayeredDuplexer<Inner> {
    closed spec fn delivered(&self) -> Seq<u8> {
        match self.inner {
            Lifecycle::Open(t) => RawRead::delivered(&t),
            Lifecycle::Closed => self.done_read@,
        }
    }

    fn read_with_status(&mut self, buf: &mut Vec<u8>) -> (r: Result<(usize, Status), IoError>)
        ensures
            final(self).eos_push_mode() == old(self).eos_push_mode(),
            final(self).line_mode() == old(self).line_mode(),
            match r {
                Ok((n, s)) => {
                    &&& (!old(self).is_open() ==> n == 0 && s is End && final(buf)@ == old(buf)@)
                    &&& (old(self).eos_push_mode() && old(self).is_open() ==> final(self).is_open())
                    &&& (n > 0 ==> s is Open)
                    &&& (n > 0 ==> ((s == Status::Open(Activity::Push)) <==> (old(self).line_mode() && final(buf)@[n - 1] == 10)))
                    &&& (n == 0 && s is Open && old(self).is_open() ==> (s == Status::Open(
                        Activity::Active,
                    ) || old(self).eos_push_mode()))
                },
                Err(e) => true,
            },
    {
        let mut taken = Lifecycle::Closed;
        core::mem::swap(&mut taken, &mut self.inner);
        match taken {
            Lifecycle::Closed => {
                proof {
                    assert(self.delivered() =~= old(self).delivered() + buf@.subrange(0, 0));
                    assert(buf@.skip(0) =~= old(buf)@.skip(0));
                }
                Ok((0, Status::End))
            },
            Lifecycle::Open(mut t) => {
                match t.raw_read(buf) {
                    Ok(k) => {
                        proof {
                            if k == 0 {
                                assert(RawRead::delivered(&t) =~= old(self).delivered());
                            }
                        }
                        if k == 0 && buf.len() > 0 {
                            if self.eos_as_push {
                                self.inner = Lifecycle::Open(t);
                                proof {
                                    assert(self.delivered() =~= old(self).delivered()
                                        + buf@.subrange(0, 0));
                                }
                                Ok((0, Status::push()))
                            } else {
                                self.done_read = Ghost(RawRead::delivered(&t));
                                self.done_write = Ghost(RawWrite::accepted(&t));
                                proof {
                                    assert(self.delivered() =~= old(self).delivered()
                                        + buf@.subrange(0, 0));
                                }
                                Ok((0, Status::End))
                            }
                        } else {
                            let s = if self.line_by_line && k > 0 {
                                if buf[k - 1] == 10u8 {
                                    Status::push()
                                } else {
                                    Status::active()
                                }
                            } else {
                                Status::active()
                            };
                            self.inner = Lifecycle::Open(t);
                            proof {
                                if k == 0 {
                                    assert(self.delivered() =~= old(self).delivered()
                                        + buf@.subrange(0, 0));
                                }
                            }
                            Ok((k, s))
                        }
                    },
                    Err(e) => {
                        if e == IoError::Interrupted {
                            self.inner = Lifecycle::Open(t);
                            proof {
                                assert(self.delivered() =~= old(self).delivered() + buf@.subrange(
                                    0,
                                    0,
                                ));
                                assert(buf@.skip(0) =~= old(buf)@.skip(0));
                            }
                            Ok((0, Status::active()))
                        } else {
                            self.done_read = Ghost(RawRead::delivered(&t));
                            self.done_write = Ghost(RawWrite::accepted(&t));
                            Err(e)
                        }
                    },
                }
            },
        }
    }


    /// Like the direct read, into the first non-empty buffer: the mode
    /// laws of this adapter hold on the vectored path too.
    fn read_vectored_with_status(&mut self, bufs: &mut Vec<Vec<u8>>) -> (r: Result<
        (usize, Status),
        IoError,
    >)
        ensures
            final(self).eos_push_mode() == old(self).eos_push_mode(),
            final(self).line_mode() == old(self).line_mode(),
            match r {
                Ok((n, s)) => {
                    let i = first_nonempty(old(bufs)@);
                    &&& (!old(self).is_open() ==> n == 0 && s is End)
                    &&& (old(self).eos_push_mode() && old(self).is_open() ==> final(self).is_open())
                    &&& (n > 0 ==> s is Open)
                    &&& (n > 0 ==> i < old(bufs)@.len() && ((s == Status::Open(Activity::Push))
                        <==> (old(self).line_mode() && final(bufs)@[i]@[n - 1] == 10)))
                    &&& (n == 0 && s is Open && old(self).is_open() ==> (s == Status::Open(
                        Activity::Active,
                    ) || old(self).eos_push_mode()))
                },
                Err(e) => true,
            },
    {
        let ghost obufs = old(bufs)@;
        let mut i: usize = 0;
        while i < bufs.len() && bufs[i].len() == 0
            invariant
                0 <= i <= bufs.len(),
                bufs@ == obufs,
                forall|j: int| 0 <= j < i ==> obufs[j]@.len() == 0,
            decreases bufs@.len() - i,
        {
            i = i + 1;
        }
        proof {
            lemma_first_nonempty_holds(obufs, i as int);
        }
        if i == bufs.len() {
            let mut empty_buf: Vec<u8> = Vec::new();
            let r = self.read_with_status(&mut empty_buf);
            proof {
                if r is Ok {
                    assert(ReadLayered::delivered(self) =~= ReadLayered::delivered(&*old(self)));
                }
            }
            r
        } else {
            let mut b: Vec<u8> = Vec::new();
            core::mem::swap(&mut b, &mut bufs[i]);
            let r = self.read_with_status(&mut b);
            core::mem::swap(&mut b, &mut bufs[i]);
            proof {
                assert(forall|j: int|
                    0 <= j < obufs.len() && j != i ==> bufs@[j]@ == obufs[j]@);
            }
            r
        }
    }

    fn minimum_buffer_size(&self) -> (r: usize) {
        0
    }
}

impl<Inner: RawRead + RawWrite> WriteLayered for LayeredDuplexer<Inner> {
    closed spec fn accepted(&self) -> Seq<u8> {
        match self.inner {
            Lifecycle::Open(t) => RawWrite::accepted(&t),
            Lifecycle::Closed => self.done_write@,
        }
    }

    fn write(&mut self, buf: &[u8]) -> (r: Result<usize, IoError>) {
        let mut taken = Lifecycle::Closed;
        core::mem::swap(&mut taken, &mut self.inner);
        match taken {
            Lifecycle::Closed => Err(stream_already_ended()),
            Lifecycle::Open(mut t) => {
                match t.raw_write(buf) {
                    Ok(n) => {
                        self.inner = Lifecycle::Open(t);
                        Ok(n)
                    },
                    Err(e) => {
                        if e == IoError::Interrupted {
                            self.inner = Lifecycle::Open(t);
                        } else {
                            self.done_read = Ghost(RawRead::delivered(&t));
                            self.done_write = Ghost(RawWrite::accepted(&t));
                        }
                        Err(e)
                    },
                }
            },
        }
    }

    fn flush(&mut self) -> (r: Result<(), IoError>) {
        let mut taken = Lifecycle::Closed;
        core::mem::swap(&mut taken, &mut self.inner);
        match taken {
            Lifecycle::Closed => Err(stream_already_ended()),
            Lifecycle::Open(mut t) => {
                match t.raw_flush() {
                    Ok(u) => {
                        self.inner = Lifecycle::Open(t);
                        Ok(())
                    },
                    Err(e) => {
                        if e == IoError::Interrupted {
                            self.inner = Lifecycle::Open(t);
                        } else {
                            self.done_read = Ghost(RawRead::delivered(&t));
                            self.done_write = Ghost(RawWrite::accepted(&t));
                        }
                        Err(e)
                    },
                }
            },
        }
    }

    fn close(&mut self) -> (r: Result<(), IoError>) {
        let mut taken = Lifecycle::Closed;
        core::mem::swap(&mut taken, &mut self.inner);
        match taken {
            Lifecycle::Closed => Err(stream_already_ended()),
            Lifecycle::Open(mut t) => {
                let r = t.raw_flush();
                self.done_read = Ghost(RawRead::delivered(&t));
                self.done_write = Ghost(RawWrite::accepted(&t));
                r
            },
        }
    }
}

} // verus!

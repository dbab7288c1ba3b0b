use vstd::prelude::*;
use vstd::slice::slice_subrange;

use crate::bufferable::Bufferable;
use crate::error::IoError;
use crate::status::Activity;
use crate::status::Status;

verus! {

/// How many consecutive zero-progress open reads or writes the default
/// algorithms tolerate before they give up with the `Interrupted` retry
/// signal. A bound is needed so that every retry loop provably terminates;
/// a stream that stalls this long is reported to the caller, who may simply
/// call again.
pub const STALL_LIMIT: usize = 32;

/// The status-aware read capability.
///
/// The primitive operation returns a transfer count *and* a [`Status`]; a
/// zero count is never by itself an end-of-stream signal — the end of the
/// stream is reported only as `Status::End`. The abstract model `delivered`
/// names every byte handed to callers so far, so that the derived
/// operations can state exactly which bytes they return.
pub trait ReadLayered: Bufferable {
    /// All bytes this stream has handed to callers so far, oldest first.
    spec fn delivered(&self) -> Seq<u8>;

    /// Read some bytes into a prefix of `buf` and report the stream's
    /// status. Once the stream is no longer open this reports `(0, End)`
    /// forever; it never fails with `Interrupted`, and any other failure
    /// ends the stream.
    fn read_with_status(&mut self, buf: &mut Vec<u8>) -> (r: Result<(usize, Status), IoError>)
        ensures
            final(buf)@.len() == old(buf)@.len(),
            match r {
                Ok((n, s)) => {
                    &&& n <= old(buf)@.len()
                    &&& final(self).delivered() == old(self).delivered() + final(buf)@.subrange(
                        0,
                        n as int,
                    )
                    &&& final(buf)@.skip(n as int) == old(buf)@.skip(n as int)
                    &&& (s is End ==> !final(self).is_open())
                    &&& (s is Open ==> final(self).is_open())
                    &&& (!old(self).is_open() ==> n == 0 && s is End)
                },
                Err(e) => {
                    &&& e != IoError::Interrupted
                    &&& e != IoError::InvalidUtf8
                    &&& old(self).is_open()
                    &&& !final(self).is_open()
                    &&& final(self).delivered() == old(self).delivered()
                    &&& final(buf)@ == old(buf)@
                },
            },
    ;

    /// Like `read_with_status`, reading into the first non-empty buffer of
    /// `bufs`.
    fn read_vectored_with_status(&mut self, bufs: &mut Vec<Vec<u8>>) -> (r: Result<
        (usize, Status),
        IoError,
    >)
        ensures
            vectored_read_post(
                old(self).delivered(),
                old(self).is_open(),
                final(self).delivered(),
                final(self).is_open(),
                old(bufs)@,
                final(bufs)@,
                r,
            ),
    {
        let ghost obufs = old(bufs)@;
        let mut i: usize = 0;
        while i < bufs.len() && bufs[i].len() == 0
            invariant
                0 <= i <= bufs.len(),
                bufs@ == obufs,
                forall|j: int| 0 <= j < i ==> obufs[j]@.len() == 0,
            decreases bufs@.len() - i,
        {
            i = i + 1;
        }
        proof {
            lemma_first_nonempty_holds(obufs, i as int);
        }
        if i == bufs.len() {
            let mut empty_buf: Vec<u8> = Vec::new();
            let r = self.read_with_status(&mut empty_buf);
            proof {
                if r is Ok {
                    assert(self.delivered() =~= old(self).delivered());
                }
            }
            r
        } else {
            let mut b: Vec<u8> = Vec::new();
            core::mem::swap(&mut b, &mut bufs[i]);
            let r = self.read_with_status(&mut b);
            core::mem::swap(&mut b, &mut bufs[i]);
            proof {
                assert(forall|j: int|
                    0 <= j < obufs.len() && j != i ==> bufs@[j]@ == obufs[j]@);
            }
            r
        }
    }

    /// Read exactly `buf.len()` bytes, failing with `UnexpectedEof` if the
    /// stream ends first; on success the status of the final sub-read is
    /// passed through, so a trailing `Push` or `End` is not lost. If the
    /// stream stalls — repeatedly reporting open zero-byte reads — the call
    /// fails with the `Interrupted` retry signal and the destination is
    /// left unchanged.
    fn read_exact_using_status(&mut self, buf: &mut Vec<u8>) -> (r: Result<Status, IoError>)
        ensures
            read_exact_post(
                old(self).delivered(),
                old(self).is_open(),
                final(self).delivered(),
                final(self).is_open(),
                old(buf)@,
                final(buf)@,
                r,
            ),
    {
        let want = buf.len();
        if want == 0 {
            proof {
                assert(old(self).delivered().take(old(self).delivered().len() as int) =~= old(self).delivered());
                assert(self.delivered() =~= old(self).delivered() + buf@);
            }
            return Ok(Status::active());
        }
        let ghost start = old(self).delivered();
        let mut out: Vec<u8> = Vec::new();
        let mut patience: usize = STALL_LIMIT;
        loop
            invariant
                0 < want == old(buf)@.len(),
                out@.len() < want,
                1 <= patience <= STALL_LIMIT,
                self.delivered() == start + out@,
                start == old(self).delivered(),
                buf@ == old(buf)@,
                !old(self).is_open() ==> !self.is_open() && out@.len() == 0,
            decreases want - out@.len(), patience,
        {
            let missing: usize = want - out.len();
            let mut scratch: Vec<u8> = vec![0u8; missing];
            match self.read_with_status(&mut scratch) {
                Ok((n, s)) => {
                    out.extend_from_slice(slice_subrange(scratch.as_slice(), 0, n));
                    proof {
                        assert(self.delivered() =~= start + out@);
                        lemma_take_of_append(start, out@);
                    }
                    if s.is_end() {
                        if out.len() == want {
                            *buf = out;
                            return Ok(s);
                        }
                        return Err(IoError::UnexpectedEof);
                    }
                    if out.len() == want {
                        *buf = out;
                        return Ok(s);
                    }
                    if n == 0 {
                        if patience <= 1 {
                            return Err(IoError::Interrupted);
                        }
                        patience = patience - 1;
                    } else {
                        patience = STALL_LIMIT;
                    }
                },
                Err(e) => {
                    proof {
                        lemma_take_of_append(start, out@);
                    }
                    return Err(e);
                },
            }
        }
    }

    /// Some streams require a buffer of at least a certain size.
    fn minimum_buffer_size(&self) -> usize;
}

/// What a completed vectored read guarantees: the designated buffer (the
/// first non-empty one) behaves exactly as the destination of
/// `read_with_status`, and every other buffer is untouched.
pub open spec fn vectored_read_post(
    pre_delivered: Seq<u8>,
    pre_open: bool,
    post_delivered: Seq<u8>,
    post_open: bool,
    old_bufs: Seq<Vec<u8>>,
    new_bufs: Seq<Vec<u8>>,
    r: Result<(usize, Status), IoError>,
) -> bool {
    let i = first_nonempty(old_bufs);
    &&& new_bufs.len() == old_bufs.len()
    &&& match r {
        Ok((n, s)) => {
            &&& (s is End ==> !post_open)
            &&& (s is Open ==> post_open)
            &&& (!pre_open ==> n == 0 && s is End)
            &&& if i < old_bufs.len() {
                &&& n <= old_bufs[i]@.len()
                &&& new_bufs[i]@.len() == old_bufs[i]@.len()
                &&& post_delivered == pre_delivered + new_bufs[i]@.subrange(0, n as int)
                &&& new_bufs[i]@.skip(n as int) == old_bufs[i]@.skip(n as int)
                &&& (forall|j: int|
                    0 <= j < old_bufs.len() && j != i ==> new_bufs[j]@ == old_bufs[j]@)
            } else {
                &&& n == 0
                &&& post_delivered == pre_delivered
                &&& (forall|j: int| 0 <= j < old_bufs.len() ==> new_bufs[j]@ == old_bufs[j]@)
            }
        },
        Err(e) => {
            &&& e != IoError::Interrupted
            &&& e != IoError::InvalidUtf8
            &&& pre_open
            &&& !post_open
            &&& post_delivered == pre_delivered
            &&& (forall|j: int| 0 <= j < old_bufs.len() ==> new_bufs[j]@ == old_bufs[j]@)
        },
    }
}

/// What a completed read-exact guarantees: on success the destination was
/// filled entirely with the bytes the stream delivered during the call; on
/// failure the destination is untouched and anything read meanwhile is
/// discarded.
pub open spec fn read_exact_post(
    pre_delivered: Seq<u8>,
    pre_open: bool,
    post_delivered: Seq<u8>,
    post_open: bool,
    old_buf: Seq<u8>,
    new_buf: Seq<u8>,
    r: Result<Status, IoError>,
) -> bool {
    &&& new_buf.len() == old_buf.len()
    &&& pre_delivered == post_delivered.take(pre_delivered.len() as int)
    &&& (old_buf.len() == 0 ==> r is Ok)
    &&& (!pre_open && old_buf.len() > 0 ==> r == Result::<Status, IoError>::Err(
        IoError::UnexpectedEof,
    ))
    &&& match r {
        Ok(s) => {
            &&& post_delivered == pre_delivered + new_buf
            &&& (old_buf.len() == 0 ==> post_delivered == pre_delivered && post_open == pre_open
                && s == Status::Open(Activity::Active) && new_buf == old_buf)
            &&& (old_buf.len() > 0 ==> (s is End ==> !post_open) && (s is Open
                ==> post_open))
        },
        Err(e) => {
            &&& new_buf == old_buf
            &&& (e == IoError::Interrupted ==> post_open)
            &&& (e != IoError::Interrupted ==> !post_open)
            &&& (e == IoError::UnexpectedEof ==> old_buf.len() > 0)
        },
    }
}

/// The index of the first non-empty buffer of `bs`, or `bs.len()` if every
/// buffer is empty.
pub open spec fn first_nonempty(bs: Seq<Vec<u8>>) -> int
    decreases bs.len(),
{
    if bs.len() == 0 {
        0
    } else if bs[0]@.len() > 0 {
        0
    } else {
        1 + first_nonempty(bs.skip(1))
    }
}

/// `first_nonempty` is a well-formed index: it lies within `0 ..= bs.len()`
/// and lands on a non-empty buffer when one exists.
pub proof fn lemma_first_nonempty_bounds(bs: Seq<Vec<u8>>)
    ensures
        0 <= first_nonempty(bs) <= bs.len(),
        first_nonempty(bs) < bs.len() ==> bs[first_nonempty(bs)]@.len() > 0,
    decreases bs.len(),
{
    if bs.len() > 0 && bs[0]@.len() == 0 {
        lemma_first_nonempty_bounds(bs.skip(1));
        if first_nonempty(bs.skip(1)) < bs.skip(1).len() {
            assert(bs.skip(1)[first_nonempty(bs.skip(1))] == bs[first_nonempty(bs)]);
        }
    }
}

/// An index with only empty buffers before it, and a non-empty one at it
/// (or none anywhere), is exactly `first_nonempty`.
pub proof fn lemma_first_nonempty_holds(bs: Seq<Vec<u8>>, i: int)
    requires
        0 <= i <= bs.len(),
        forall|j: int| 0 <= j < i ==> bs[j]@.len() == 0,
        i < bs.len() ==> bs[i]@.len() > 0,
    ensures
        first_nonempty(bs) == i,
    decreases i,
{
    if i > 0 {
        assert(bs[0]@.len() == 0);
        assert forall|j: int| 0 <= j < i - 1 implies bs.skip(1)[j]@.len() == 0 by {
            assert(bs.skip(1)[j] == bs[j + 1]);
        }
        if i - 1 < bs.skip(1).len() {
            assert(bs.skip(1)[i - 1] == bs[i]);
        }
        lemma_first_nonempty_holds(bs.skip(1), i - 1);
    }
}

proof fn lemma_skip_zero(s: Seq<u8>)
    ensures
        s.skip(0) == s,
{
    assert(s.skip(0) =~= s);
}

proof fn lemma_take_of_append(a: Seq<u8>, b: Seq<u8>)
    ensures
        (a + b).take(a.len() as int) == a,
{
    assert((a + b).take(a.len() as int) =~= a);
}

/// Translate a `(count, status)` pair to the legacy contract where zero
/// means end-of-stream: a zero-byte open read becomes an `Interrupted`
/// error (meaning "retry, this is not the end"), and otherwise only the
/// count survives — a `Push` is not observable through this translation.
pub fn to_std_io_read_result(size_and_status: (usize, Status)) -> (r: Result<usize, IoError>)
    ensures
        r == (if size_and_status.0 == 0 && size_and_status.1 is Open {
            Result::<usize, IoError>::Err(IoError::Interrupted)
        } else {
            Result::<usize, IoError>::Ok(size_and_status.0)
        }),
{
    match size_and_status {
        (0, Status::Open(_)) => Err(IoError::Interrupted),
        (size, _) => Ok(size),
    }
}

/// Default implementation of a legacy read in terms of
/// [`ReadLayered::read_with_status`].
pub fn default_read<Inner: ReadLayered>(inner: &mut Inner, buf: &mut Vec<u8>) -> (r: Result<
    usize,
    IoError,
>)
    ensures
        final(buf)@.len() == old(buf)@.len(),
        !old(inner).is_open() ==> r == Result::<usize, IoError>::Ok(0) && final(buf)@ == old(buf)@,
        match r {
            Ok(n) => {
                &&& n <= old(buf)@.len()
                &&& final(inner).delivered() == old(inner).delivered() + final(buf)@.subrange(
                    0,
                    n as int,
                )
                &&& final(buf)@.skip(n as int) == old(buf)@.skip(n as int)
                &&& (n == 0 ==> !final(inner).is_open())
            },
            Err(e) => {
                &&& final(inner).delivered() == old(inner).delivered()
                &&& final(buf)@ == old(buf)@
                &&& (e == IoError::Interrupted ==> final(inner).is_open())
                &&& (e != IoError::Interrupted ==> old(inner).is_open() && !final(inner).is_open())
            },
        },
{
    match inner.read_with_status(buf) {
        Ok(size_and_status) => {
            proof {
                if size_and_status.0 == 0 {
                    lemma_skip_zero(buf@);
                    lemma_skip_zero(old(buf)@);
                    assert(inner.delivered() =~= old(inner).delivered());
                }
            }
            to_std_io_read_result(size_and_status)
        },
        Err(e) => Err(e),
    }
}

/// Default implementation of a legacy vectored read in terms of
/// [`ReadLayered::read_vectored_with_status`].
pub fn default_read_vectored<Inner: ReadLayered>(inner: &mut Inner, bufs: &mut Vec<Vec<u8>>) -> (r:
    Result<usize, IoError>)
    ensures
        final(bufs)@.len() == old(bufs)@.len(),
        !old(inner).is_open() ==> r == Result::<usize, IoError>::Ok(0) && !final(inner).is_open(),
        match r {
            Ok(n) => {
                let i = first_nonempty(old(bufs)@);
                &&& (n == 0 ==> !final(inner).is_open())
                &&& if i < old(bufs)@.len() {
                    &&& n <= old(bufs)@[i]@.len()
                    &&& final(bufs)@[i]@.len() == old(bufs)@[i]@.len()
                    &&& final(inner).delivered() == old(inner).delivered() + final(bufs)@[i]@.subrange(0, n as int)
                    &&& final(bufs)@[i]@.skip(n as int) == old(bufs)@[i]@.skip(n as int)
                    &&& (forall|j: int|
                        0 <= j < old(bufs)@.len() && j != i ==> final(bufs)@[j]@ == old(bufs)@[j]@)
                } else {
                    &&& n == 0
                    &&& final(inner).delivered() == old(inner).delivered()
                    &&& (forall|j: int|
                        0 <= j < old(bufs)@.len() ==> final(bufs)@[j]@ == old(bufs)@[j]@)
                }
            },
            Err(e) => {
                &&& final(inner).delivered() == old(inner).delivered()
                &&& (forall|j: int| 0 <= j < old(bufs)@.len() ==> final(bufs)@[j]@ == old(bufs)@[j]@)
                &&& (e == IoError::Interrupted ==> final(inner).is_open())
                &&& (e != IoError::Interrupted ==> old(inner).is_open() && !final(inner).is_open())
            },
        },
{
    match inner.read_vectored_with_status(bufs) {
        Ok(size_and_status) => {
            proof {
                if size_and_status.0 == 0 {
                    let i = first_nonempty(old(bufs)@);
                    if i < old(bufs)@.len() {
                        lemma_skip_zero(bufs@[i]@);
                        lemma_skip_zero(old(bufs)@[i]@);
                    }
                    assert(inner.delivered() =~= old(inner).delivered());
                }
            }
            to_std_io_read_result(size_and_status)
        },
        Err(e) => Err(e),
    }
}

/// Default implementation of [`ReadLayered::read_vectored_with_status`] in
/// terms of [`ReadLayered::read_with_status`]: the read is delegated to the
/// first non-empty buffer.
pub fn default_read_vectored_with_status<Inner: ReadLayered>(
    inner: &mut Inner,
    bufs: &mut Vec<Vec<u8>>,
) -> (r: Result<(usize, Status), IoError>)
    ensures
        vectored_read_post(
            old(inner).delivered(),
            old(inner).is_open(),
            final(inner).delivered(),
            final(inner).is_open(),
            old(bufs)@,
            final(bufs)@,
            r,
        ),
{
    inner.read_vectored_with_status(bufs)
}

/// Default implementation of [`ReadLayered::read_exact_using_status`] in
/// terms of [`ReadLayered::read_with_status`].
pub fn default_read_exact_using_status<Inner: ReadLayered>(
    inner: &mut Inner,
    buf: &mut Vec<u8>,
) -> (r: Result<Status, IoError>)
    ensures
        read_exact_post(
            old(inner).delivered(),
            old(inner).is_open(),
            final(inner).delivered(),
            final(inner).is_open(),
            old(buf)@,
            final(buf)@,
            r,
        ),
{
    inner.read_exact_using_status(buf)
}

/// Default implementation of a legacy read-to-end in terms of
/// [`ReadLayered::read_with_status`].
///
/// The destination grows by exactly the bytes the stream delivers, the
/// returned count is that growth, and the read length is paced by the
/// stream's suggested and minimum buffer sizes. On any error — including
/// the `Interrupted` retry signal produced when the stream stalls — the
/// destination is rolled back to its length at the start of the call.
pub fn default_read_to_end<Inner: ReadLayered>(inner: &mut Inner, buf: &mut Vec<u8>) -> (r: Result<
    usize,
    IoError,
>)
    ensures
        old(inner).delivered() == final(inner).delivered().take(
            old(inner).delivered().len() as int,
        ),
        !old(inner).is_open() ==> r == Result::<usize, IoError>::Ok(0) && final(buf)@ == old(buf)@,
        match r {
            Ok(n) => {
                &&& final(buf)@ == old(buf)@ + final(inner).delivered().skip(
                    old(inner).delivered().len() as int,
                )
                &&& final(buf)@.len() == old(buf)@.len() + n
                &&& !final(inner).is_open()
            },
            Err(e) => {
                &&& e != IoError::InvalidUtf8
                &&& final(buf)@ == old(buf)@
                &&& (e == IoError::Interrupted ==> final(inner).is_open())
                &&& (e != IoError::Interrupted ==> !final(inner).is_open())
            },
        },
{
    let start_len = buf.len();
    let buffer_size = inner.suggested_buffer_size();
    let mut read_len: usize = buffer_size;
    let mut patience: usize = STALL_LIMIT;
    let ghost start = old(inner).delivered();
    let ghost buf0 = old(buf)@;
    loop
        invariant
            start_len == buf0.len(),
            buf0 == old(buf)@,
            start == old(inner).delivered(),
            1 <= patience <= STALL_LIMIT,
            buf@.len() <= usize::MAX,
            buf@.len() >= buf0.len(),
            buf@.take(buf0.len() as int) == buf0,
            inner.delivered() == start + buf@.skip(buf0.len() as int),
            !old(inner).is_open() ==> !inner.is_open() && buf@ == buf0,
        decreases usize::MAX - buf@.len(), patience,
    {
        let mut scratch: Vec<u8> = vec![0u8; read_len];
        match inner.read_with_status(&mut scratch) {
            Ok((size, status)) => {
                buf.extend_from_slice(slice_subrange(scratch.as_slice(), 0, size));
                proof {
                    vstd::std_specs::vec::axiom_spec_len(buf);
                    assert(buf@.take(buf0.len() as int) =~= buf0);
                    assert(inner.delivered() =~= start + buf@.skip(buf0.len() as int));
                }
                match status {
                    Status::Open(_) => {
                        if size == 0 {
                            if patience <= 1 {
                                let ghost delta = buf@.skip(buf0.len() as int);
                                buf.truncate(start_len);
                                proof {
                                    lemma_take_of_append(start, delta);
                                    assert(buf@ =~= buf0);
                                }
                                return Err(IoError::Interrupted);
                            }
                            patience = patience - 1;
                        } else {
                            patience = STALL_LIMIT;
                        }
                        read_len = read_len - size;
                        if read_len < inner.minimum_buffer_size() {
                            read_len = if read_len <= usize::MAX - buffer_size {
                                read_len + buffer_size
                            } else {
                                usize::MAX
                            };
                        }
                    },
                    Status::End => {
                        let n = buf.len() - start_len;
                        proof {
                            lemma_take_of_append(start, buf@.skip(buf0.len() as int));
                            assert(buf@ =~= buf@.take(buf0.len() as int) + buf@.skip(
                                buf0.len() as int,
                            ));
                        }
                        return Ok(n);
                    },
                }
            },
            Err(e) => {
                let ghost delta = buf@.skip(buf0.len() as int);
                buf.truncate(start_len);
                proof {
                    lemma_take_of_append(start, delta);
                    assert(buf@ =~= buf0);
                }
                return Err(e);
            },
        }
    }
}

/// What decoding a byte sequence as UTF-8 yields, if it is valid; the
/// decoding rules themselves are not restated here — this names the
/// result of the standard conversion, which depends on the bytes alone.
pub uninterp spec fn decoded_utf8(bytes: Seq<u8>) -> Option<Seq<char>>;

/// Relies on String::from_utf8: it succeeds exactly on valid UTF-8, and
/// its result depends on the bytes alone.
#[verifier::external_body]
fn string_from_utf8(bytes: Vec<u8>) -> (r: Option<String>)
    ensures
        r is Some <==> decoded_utf8(bytes@) is Some,
        r matches Some(s) ==> s@ == decoded_utf8(bytes@)->0,
{
    match String::from_utf8(bytes) {
        Ok(s) => Some(s),
        Err(_) => None,
    }
}

/// Relies on String::push_str: it appends the argument's characters.
#[verifier::external_body]
fn string_push_str(s: &mut String, t: &str)
    ensures
        final(s)@ == old(s)@ + t@,
{
    s.push_str(t)
}

/// Default implementation of a legacy read-to-string in terms of
/// [`default_read_to_end`]: collect every remaining byte of the stream,
/// require the collected bytes to be valid UTF-8, and append the decoded
/// text. On any failure — a stream error or invalid UTF-8 — the
/// destination is untouched.
pub fn default_read_to_string<Inner: ReadLayered>(inner: &mut Inner, buf: &mut String) -> (r:
    Result<usize, IoError>)
    ensures
        old(inner).delivered() == final(inner).delivered().take(
            old(inner).delivered().len() as int,
        ),
        match r {
            Ok(n) => {
                let delta = final(inner).delivered().skip(old(inner).delivered().len() as int);
                &&& n == delta.len()
                &&& decoded_utf8(delta) is Some
                &&& final(buf)@ == old(buf)@ + decoded_utf8(delta)->0
                &&& !final(inner).is_open()
            },
            Err(e) => {
                &&& final(buf)@ == old(buf)@
                &&& (e == IoError::Interrupted ==> final(inner).is_open())
                &&& (e != IoError::Interrupted ==> !final(inner).is_open())
                &&& (e == IoError::InvalidUtf8 ==> decoded_utf8(
                    final(inner).delivered().skip(old(inner).delivered().len() as int),
                ) is None)
            },
        },
{
    let mut bytes: Vec<u8> = Vec::new();
    match default_read_to_end(inner, &mut bytes) {
        Ok(n) => {
            let ghost collected = bytes@;
            proof {
                assert(collected =~= inner.delivered().skip(old(inner).delivered().len() as int));
            }
            match string_from_utf8(bytes) {
                Some(text) => {
                    string_push_str(buf, text.as_str());
                    Ok(n)
                },
                None => Err(IoError::InvalidUtf8),
            }
        },
        Err(e) => Err(e),
    }
}

/// Default implementation of a legacy `is_read_vectored` accompanying
/// [`default_read_vectored_with_status`], which gains nothing from
/// vectored reads.
pub fn default_is_read_vectored<Inner: ReadLayered>(_inner: &Inner) -> (r: bool)
    ensures
        r == false,
{
    false
}

} // verus!

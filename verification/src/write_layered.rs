use vstd::prelude::*;
use vstd::slice::slice_subrange;
use vstd::slice::slice_to_vec;

use crate::bufferable::Bufferable;
use crate::error::IoError;
use crate::read_layered::first_nonempty;
use crate::read_layered::STALL_LIMIT;
use crate::status::Activity;
use crate::status::Status;

verus! {

/// The status-aware write capability: ordinary writes plus `close`, which
/// flushes and permanently ends the stream, and `flush_with_status`, which
/// lets one call site drive a no-op, a flush, or a close depending on the
/// status it is propagating from an upstream read.
///
/// The abstract model `accepted` names every byte the stream has taken
/// responsibility for so far. Every operation on a stream that is no
/// longer open fails with the fixed `StreamAlreadyEnded` error, and any
/// transport fault other than a transient `Interrupted` ends the stream
/// (an implicit abandon), so a possibly corrupt transport is never reused.
pub trait WriteLayered: Bufferable {
    /// All bytes this stream has accepted so far, oldest first.
    spec fn accepted(&self) -> Seq<u8>;

    /// Write some prefix of `buf`, reporting how many bytes were accepted.
    fn write(&mut self, buf: &[u8]) -> (r: Result<usize, IoError>)
        ensures
            match r {
                Ok(n) => {
                    &&& n <= buf@.len()
                    &&& old(self).is_open()
                    &&& final(self).is_open()
                    &&& final(self).accepted() == old(self).accepted() + buf@.subrange(
                        0,
                        n as int,
                    )
                },
                Err(e) => {
                    &&& final(self).accepted() == old(self).accepted()
                    &&& (e == IoError::StreamAlreadyEnded <==> !old(self).is_open())
                    &&& (!old(self).is_open() ==> !final(self).is_open())
                    &&& (e == IoError::Interrupted ==> old(self).is_open() && final(self).is_open())
                    &&& (old(self).is_open() && e != IoError::Interrupted ==> !final(self).is_open())
                },
            },
    ;

    /// Push any buffered bytes down toward their destination.
    fn flush(&mut self) -> (r: Result<(), IoError>)
        ensures
            final(self).accepted() == old(self).accepted(),
            match r {
                Ok(u) => old(self).is_open() && final(self).is_open(),
                Err(e) => {
                    &&& (e == IoError::StreamAlreadyEnded <==> !old(self).is_open())
                    &&& (!old(self).is_open() ==> !final(self).is_open())
                    &&& (e == IoError::Interrupted ==> old(self).is_open() && final(self).is_open())
                    &&& (old(self).is_open() && e != IoError::Interrupted ==> !final(self).is_open())
                },
            },
    ;

    /// Flush any buffers and declare the end of the stream: whatever the
    /// outcome, the stream is no longer open afterwards, and closing an
    /// already-ended stream fails with the fixed error.
    fn close(&mut self) -> (r: Result<(), IoError>)
        ensures
            !final(self).is_open(),
            final(self).accepted() == old(self).accepted(),
            r == Result::<(), IoError>::Err(IoError::StreamAlreadyEnded) <==> !old(
                self,
            ).is_open(),
    ;

    /// Like `flush`, but driven by a status describing the future of the
    /// stream: `Open(Active)` does nothing, `Open(Push)` flushes, and
    /// `End` closes.
    fn flush_with_status(&mut self, status: Status) -> (r: Result<(), IoError>)
        ensures
            final(self).accepted() == old(self).accepted(),
            status == Status::Open(Activity::Active) ==> r is Ok && final(self).is_open() == old(self).is_open(),
            status == Status::Open(Activity::Push) ==> match r {
                Ok(u) => old(self).is_open() && final(self).is_open(),
                Err(e) => !old(self).is_open() ==> e == IoError::StreamAlreadyEnded,
            },
            status is End ==> !final(self).is_open() && (!old(self).is_open() ==> r
                == Result::<(), IoError>::Err(IoError::StreamAlreadyEnded)),
    {
        match status {
            Status::Open(Activity::Active) => Ok(()),
            Status::Open(Activity::Push) => self.flush(),
            Status::End => self.close(),
        }
    }
}

/// The bytes of a buffer list, concatenated in order.
pub open spec fn concat_bufs(bs: Seq<Vec<u8>>) -> Seq<u8>
    decreases bs.len(),
{
    if bs.len() == 0 {
        Seq::empty()
    } else {
        bs[0]@ + concat_bufs(bs.skip(1))
    }
}

/// Default implementation of a legacy vectored write in terms of
/// [`WriteLayered::write`]: the write is delegated to the first non-empty
/// buffer.
pub fn default_write_vectored<Inner: WriteLayered>(inner: &mut Inner, bufs: &Vec<Vec<u8>>) -> (r:
    Result<usize, IoError>)
    ensures
        ({
            let i = first_nonempty(bufs@);
            match r {
                Ok(n) => {
                    &&& old(inner).is_open()
                    &&& final(inner).is_open()
                    &&& if i < bufs@.len() {
                        n <= bufs@[i]@.len() && final(inner).accepted() == old(inner).accepted()
                            + bufs@[i]@.subrange(0, n as int)
                    } else {
                        n == 0 && final(inner).accepted() == old(inner).accepted()
                    }
                },
                Err(e) => {
                    &&& final(inner).accepted() == old(inner).accepted()
                    &&& (e == IoError::StreamAlreadyEnded <==> !old(inner).is_open())
                    &&& (!old(inner).is_open() ==> !final(inner).is_open())
                    &&& (e == IoError::Interrupted ==> old(inner).is_open() && final(inner).is_open())
                    &&& (old(inner).is_open() && e != IoError::Interrupted ==> !final(inner).is_open())
                },
            }
        }),
{
    let ghost obufs = bufs@;
    let mut i: usize = 0;
    while i < bufs.len() && bufs[i].len() == 0
        invariant
            0 <= i <= bufs.len(),
            bufs@ == obufs,
            forall|j: int| 0 <= j < i ==> obufs[j]@.len() == 0,
        decreases bufs@.len() - i,
    {
        i = i + 1;
    }
    proof {
        crate::read_layered::lemma_first_nonempty_holds(obufs, i as int);
    }
    if i == bufs.len() {
        let empty_buf: Vec<u8> = Vec::new();
        let r = inner.write(empty_buf.as_slice());
        proof {
            if r is Ok {
                assert(inner.accepted() =~= old(inner).accepted());
            }
        }
        match r {
            Ok(n) => Ok(0),
            Err(e) => Err(e),
        }
    } else {
        inner.write(bufs[i].as_slice())
    }
}

/// Default implementation of a legacy `is_write_vectored` accompanying
/// [`default_write_vectored`], which gains nothing from vectored writes.
pub fn default_is_write_vectored<Inner: WriteLayered>(_inner: &Inner) -> (r: bool)
    ensures
        r == false,
{
    false
}

/// Default implementation of a legacy write-all in terms of
/// [`WriteLayered::write`]: write until the whole buffer is accepted. A
/// zero-byte write result is a fatal `WriteZero` error, not a retry;
/// transient `Interrupted` failures are retried, up to the stall budget.
pub fn default_write_all<Inner: WriteLayered>(inner: &mut Inner, buf: &[u8]) -> (r: Result<
    (),
    IoError,
>)
    ensures
        old(inner).accepted() == final(inner).accepted().take(old(inner).accepted().len() as int),
        buf@.len() == 0 ==> r == Result::<(), IoError>::Ok(()),
        match r {
            Ok(u) => {
                &&& final(inner).accepted() == old(inner).accepted() + buf@
                &&& (buf@.len() > 0 ==> final(inner).is_open())
            },
            Err(e) => {
                &&& final(inner).accepted().len() - old(inner).accepted().len() <= buf@.len()
                &&& final(inner).accepted() == old(inner).accepted() + buf@.subrange(
                    0,
                    final(inner).accepted().len() - old(inner).accepted().len(),
                )
                &&& (e == IoError::Interrupted ==> final(inner).is_open())
                &&& (e == IoError::StreamAlreadyEnded <==> !old(inner).is_open())
            },
        },
{
    let ghost start = old(inner).accepted();
    let mut idx: usize = 0;
    let mut patience: usize = STALL_LIMIT;
    loop
        invariant
            idx <= buf@.len(),
            1 <= patience <= STALL_LIMIT,
            start == old(inner).accepted(),
            inner.accepted() == start + buf@.subrange(0, idx as int),
            idx > 0 ==> inner.is_open(),
            old(inner).is_open() == inner.is_open(),
        decreases buf@.len() - idx, patience,
    {
        proof {
            lemma_take_of_append(start, buf@.subrange(0, idx as int));
        }
        if idx == buf.len() {
            proof {
                assert(buf@.subrange(0, idx as int) =~= buf@);
            }
            return Ok(());
        }
        let rest = slice_subrange(buf, idx, buf.len());
        match inner.write(rest) {
            Ok(n) => {
                proof {
                    assert(buf@.subrange(0, idx + n) =~= buf@.subrange(0, idx as int)
                        + rest@.subrange(0, n as int));
                    assert(inner.accepted() =~= start + buf@.subrange(0, idx + n));
                }
                if n == 0 {
                    return Err(IoError::WriteZero);
                }
                idx = idx + n;
                patience = STALL_LIMIT;
            },
            Err(e) => {
                if e == IoError::Interrupted && patience > 1 {
                    patience = patience - 1;
                } else {
                    return Err(e);
                }
            },
        }
    }
}

proof fn lemma_take_of_append(a: Seq<u8>, b: Seq<u8>)
    ensures
        (a + b).take(a.len() as int) == a,
{
    assert((a + b).take(a.len() as int) =~= a);
}

/// Drop `n` already-written bytes from the front of a buffer list:
/// fully consumed buffers are removed and a partially consumed first
/// buffer is trimmed, using bounds-checked cursors throughout. Leading
/// empty buffers are removed even when `n` is zero.
fn advance_bufs(bufs: &mut Vec<Vec<u8>>, n: usize)
    requires
        n as int <= concat_bufs(old(bufs)@).len(),
    ensures
        concat_bufs(final(bufs)@) == concat_bufs(old(bufs)@).skip(n as int),
        final(bufs)@.len() <= old(bufs)@.len(),
        final(bufs)@.len() > 0 ==> final(bufs)@[0]@.len() > 0,
        n == 0 && old(bufs)@.len() > 0 && old(bufs)@[0]@.len() == 0 ==> final(bufs)@.len() < old(bufs)@.len(),
{
    let mut rem = n;
    loop
        invariant
            rem <= n,
            rem as int <= concat_bufs(bufs@).len(),
            concat_bufs(bufs@).skip(rem as int) == concat_bufs(old(bufs)@).skip(n as int),
            bufs@.len() <= old(bufs)@.len(),
            n == 0 && old(bufs)@.len() > 0 && old(bufs)@[0]@.len() == 0 ==> bufs@.len() < old(bufs)@.len() || (bufs@.len() > 0 && bufs@[0]@.len() == 0),
        decreases bufs@.len(),
    {
        if bufs.len() == 0 {
            proof {
                lemma_skip_zero_bytes(concat_bufs(bufs@));
            }
            return;
        }
        let first_len = bufs[0].len();
        proof {
            lemma_concat_unfold(bufs@);
        }
        if rem >= first_len {
            let ghost pre = bufs@;
            let discarded = bufs.remove(0);
            proof {
                assert(bufs@ =~= pre.skip(1));
                lemma_skip_of_append(discarded@, concat_bufs(pre.skip(1)), rem as int);
            }
            rem = rem - first_len;
        } else {
            // 0 <= rem < first_len: trim the first buffer and stop.
            if rem > 0 {
                let ghost pre = bufs@;
                let first = bufs.remove(0);
                let tail = slice_to_vec(slice_subrange(first.as_slice(), rem, first.len()));
                bufs.insert(0, tail);
                proof {
                    assert(bufs@.skip(1) =~= pre.skip(1));
                    lemma_concat_unfold(bufs@);
                    lemma_skip_of_append_short(first@, concat_bufs(pre.skip(1)), rem as int);
                    lemma_skip_zero_bytes(concat_bufs(bufs@));
                }
            } else {
                proof {
                    lemma_skip_zero_bytes(concat_bufs(bufs@));
                }
            }
            return;
        }
    }
}

proof fn lemma_skip_zero_bytes(s: Seq<u8>)
    ensures
        s.skip(0) == s,
{
    assert(s.skip(0) =~= s);
}

proof fn lemma_concat_unfold(bs: Seq<Vec<u8>>)
    requires
        bs.len() > 0,
    ensures
        concat_bufs(bs) == bs[0]@ + concat_bufs(bs.skip(1)),
        concat_bufs(bs).len() >= bs[0]@.len(),
{
}

/// `(a + b).skip(k) == b.skip(k - a.len())` when `k` covers all of `a`.
proof fn lemma_skip_of_append(a: Seq<u8>, b: Seq<u8>, k: int)
    requires
        a.len() <= k <= a.len() + b.len(),
    ensures
        (a + b).skip(k) == b.skip(k - a.len()),
{
    assert((a + b).skip(k) =~= b.skip(k - a.len()));
}

/// `(a + b).skip(k) == a.skip(k) + b` when `k` stays within `a`.
proof fn lemma_skip_of_append_short(a: Seq<u8>, b: Seq<u8>, k: int)
    requires
        0 <= k <= a.len(),
    ensures
        (a + b).skip(k) == a.skip(k) + b,
{
    assert((a + b).skip(k) =~= a.skip(k) + b);
}

/// Default implementation of a legacy vectored write-all in terms of
/// [`default_write_vectored`]: write until every buffer is consumed,
/// advancing past fully consumed buffers and trimming a partially
/// consumed one before retrying. A zero-byte write of remaining data is a
/// fatal `WriteZero` error; `Interrupted` is retried up to the stall
/// budget.
pub fn default_write_all_vectored<Inner: WriteLayered>(
    inner: &mut Inner,
    bufs: &mut Vec<Vec<u8>>,
) -> (r: Result<(), IoError>)
    ensures
        old(inner).accepted() == final(inner).accepted().take(old(inner).accepted().len() as int),
        old(bufs)@.len() == 0 ==> r == Result::<(), IoError>::Ok(()),
        match r {
            Ok(u) => {
                &&& final(inner).accepted() == old(inner).accepted() + concat_bufs(old(bufs)@)
                &&& concat_bufs(final(bufs)@).len() == 0
            },
            Err(e) => {
                &&& final(inner).accepted().len() - old(inner).accepted().len() <= concat_bufs(
                    old(bufs)@,
                ).len()
                &&& final(inner).accepted() == old(inner).accepted() + concat_bufs(
                    old(bufs)@,
                ).subrange(0, final(inner).accepted().len() - old(inner).accepted().len())
                &&& (e == IoError::Interrupted ==> final(inner).is_open())
                &&& (e == IoError::StreamAlreadyEnded ==> !old(inner).is_open())
                &&& (!old(inner).is_open() && concat_bufs(old(bufs)@).len() > 0 ==> e
                    == IoError::StreamAlreadyEnded)
            },
        },
{
    let ghost whole = concat_bufs(old(bufs)@);
    let ghost start = old(inner).accepted();
    let mut patience: usize = STALL_LIMIT;
    loop
        invariant
            start == old(inner).accepted(),
            whole == concat_bufs(old(bufs)@),
            1 <= patience <= STALL_LIMIT,
            concat_bufs(bufs@).len() <= whole.len(),
            inner.accepted() == start + whole.take(whole.len() - concat_bufs(bufs@).len()),
            concat_bufs(bufs@) == whole.skip(whole.len() - concat_bufs(bufs@).len()),
            bufs@.len() <= old(bufs)@.len(),
            old(inner).is_open() == inner.is_open(),
        decreases concat_bufs(bufs@).len() + bufs@.len(), patience,
    {
        proof {
            lemma_take_of_append(start, whole.take(whole.len() - concat_bufs(bufs@).len()));
        }
        if bufs.len() == 0 {
            proof {
                assert(whole.take(whole.len() as int) =~= whole);
                assert(whole.skip(whole.len() - concat_bufs(bufs@).len()) =~= concat_bufs(
                    bufs@,
                ));
            }
            return Ok(());
        }
        let ghost pre_bufs = bufs@;
        let ghost consumed = whole.len() - concat_bufs(pre_bufs).len();
        match default_write_vectored(inner, bufs) {
            Ok(n) => {
                if n == 0 {
                    proof {
                        crate::read_layered::lemma_first_nonempty_bounds(pre_bufs);
                        let i = first_nonempty(pre_bufs);
                        if i < pre_bufs.len() {
                            assert(pre_bufs[i]@.subrange(0, 0) =~= Seq::<u8>::empty());
                        }
                        assert(inner.accepted() =~= start + whole.take(consumed));
                    }
                    advance_bufs(bufs, 0);
                    proof {
                        lemma_skip_zero_bytes(concat_bufs(pre_bufs));
                    }
                    if bufs.len() > 0 {
                        return Err(IoError::WriteZero);
                    }
                    proof {
                        // Every buffer was empty, so nothing remained.
                        assert(concat_bufs(bufs@) =~= Seq::<u8>::empty());
                        assert(concat_bufs(pre_bufs).len() == 0);
                    }
                } else {
                    proof {
                        crate::read_layered::lemma_first_nonempty_bounds(pre_bufs);
                        let i = first_nonempty(pre_bufs);
                        lemma_first_nonempty_in_concat(pre_bufs);
                        lemma_first_nonempty_prefix(pre_bufs, n as int);
                        lemma_take_then_skip_take(whole, consumed, n as int);
                        assert(inner.accepted() =~= start + whole.take(consumed + n));
                    }
                    advance_bufs(bufs, n);
                    proof {
                        lemma_take_then_skip_take(whole, consumed, n as int);
                        assert(concat_bufs(bufs@) =~= whole.skip(consumed + n));
                    }
                    patience = STALL_LIMIT;
                }
            },
            Err(e) => {
                if e == IoError::Interrupted && patience > 1 {
                    patience = patience - 1;
                } else {
                    return Err(e);
                }
            },
        }
    }
}

/// The first non-empty buffer starts at the front of the concatenation,
/// so a write of `n` of its bytes consumes a prefix of the concatenation.
proof fn lemma_first_nonempty_prefix(bs: Seq<Vec<u8>>, n: int)
    requires
        0 <= first_nonempty(bs) < bs.len(),
        0 <= n <= bs[first_nonempty(bs)]@.len(),
    ensures
        bs[first_nonempty(bs)]@.subrange(0, n) == concat_bufs(bs).take(n),
    decreases bs.len(),
{
    lemma_concat_unfold(bs);
    if bs[0]@.len() > 0 {
        assert(first_nonempty(bs) == 0);
        assert(bs[0]@.subrange(0, n) =~= concat_bufs(bs).take(n));
    } else {
        crate::read_layered::lemma_first_nonempty_bounds(bs.skip(1));
        assert(first_nonempty(bs) == 1 + first_nonempty(bs.skip(1)));
        assert(bs.skip(1)[first_nonempty(bs.skip(1))] == bs[first_nonempty(bs)]);
        lemma_first_nonempty_prefix(bs.skip(1), n);
        assert(concat_bufs(bs) =~= concat_bufs(bs.skip(1)));
        assert(concat_bufs(bs).take(n) =~= concat_bufs(bs.skip(1)).take(n));
    }
}

/// The designated buffer of a vectored write holds at most the whole
/// concatenation.
proof fn lemma_first_nonempty_in_concat(bs: Seq<Vec<u8>>)
    requires
        0 <= first_nonempty(bs) < bs.len(),
    ensures
        bs[first_nonempty(bs)]@.len() <= concat_bufs(bs).len(),
    decreases bs.len(),
{
    lemma_concat_unfold(bs);
    if bs[0]@.len() == 0 && bs.len() > 1 {
        crate::read_layered::lemma_first_nonempty_bounds(bs.skip(1));
        assert(first_nonempty(bs) == 1 + first_nonempty(bs.skip(1)));
        assert(bs.skip(1)[first_nonempty(bs.skip(1))] == bs[first_nonempty(bs)]);
        lemma_first_nonempty_in_concat(bs.skip(1));
        assert(concat_bufs(bs) =~= concat_bufs(bs.skip(1)));
    }
}

/// Consuming `n` more bytes moves the prefix boundary of `w` forward.
proof fn lemma_take_then_skip_take(w: Seq<u8>, a: int, n: int)
    requires
        0 <= a,
        0 <= n,
        a + n <= w.len(),
    ensures
        w.take(a) + w.skip(a).take(n) == w.take(a + n),
        w.skip(a).skip(n) == w.skip(a + n),
{
    assert(w.take(a) + w.skip(a).take(n) =~= w.take(a + n));
    assert(w.skip(a).skip(n) =~= w.skip(a + n));
}

} // verus!

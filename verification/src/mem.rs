use vstd::prelude::*;
use vstd::slice::slice_subrange;

use crate::bufferable::Bufferable;
use crate::closeable::Closeable;
use crate::error::IoError;
use crate::raw::RawRead;
use crate::raw::RawWrite;

verus! {

/// An in-memory byte source: reads hand out the bytes of `data` in order
/// and report the conventional zero-byte end-of-stream once exhausted.
pub struct VecSource {
    data: Vec<u8>,
    pos: usize,
    hist: Ghost<Seq<u8>>,
}

impl VecSource {
    /// The bytes this source has yet to hand out.
    pub closed spec fn remaining(&self) -> Seq<u8> {
        if self.pos <= self.data@.len() {
            self.data@.skip(self.pos as int)
        } else {
            Seq::empty()
        }
    }

    /// Wrap `data` as a source that will deliver exactly those bytes.
    pub fn new(data: Vec<u8>) -> (r: Self)
        ensures
            r.remaining() == data@,
            r.delivered() == Seq::<u8>::empty(),
    {
        let r = VecSource { data, pos: 0, hist: Ghost(Seq::empty()) };
        proof {
            assert(r.remaining() =~= r.data@);
        }
        r
    }
}

impl RawRead for VecSource {
    closed spec fn delivered(&self) -> Seq<u8> {
        self.hist@
    }

    closed spec fn line_discipline(&self) -> bool {
        false
    }

    fn raw_read(&mut self, buf: &mut Vec<u8>) -> (r: Result<usize, IoError>)
        ensures
            match r {
                Ok(n) => {
                    &&& final(self).remaining() == old(self).remaining().skip(n as int)
                    &&& n == if old(buf)@.len() < old(self).remaining().len() {
                        old(buf)@.len()
                    } else {
                        old(self).remaining().len()
                    }
                },
                Err(e) => false,
            },
    {
        if self.pos >= self.data.len() || buf.len() == 0 {
            proof {
                assert(self.delivered() =~= old(self).delivered() + buf@.subrange(0, 0));
                assert(buf@.skip(0) =~= old(buf)@.skip(0));
                assert(self.remaining() =~= self.remaining().skip(0));
            }
            return Ok(0);
        }
        let avail = self.data.len() - self.pos;
        let k = if buf.len() < avail {
            buf.len()
        } else {
            avail
        };
        let mut j: usize = 0;
        while j < k
            invariant
                k <= avail,
                avail == self.data@.len() - self.pos,
                self.pos + k <= self.data@.len(),
                self.data@.len() <= usize::MAX,
                0 <= j <= k,
                k <= buf@.len(),
                buf@.len() == old(buf)@.len(),
                self == old(self),
                forall|t: int| 0 <= t < j ==> buf@[t] == self.data@[self.pos + t],
                forall|t: int| j <= t < buf@.len() ==> buf@[t] == old(buf)@[t],
            decreases k - j,
        {
            let b = self.data[self.pos + j];
            buf[j] = b;
            j = j + 1;
        }
        let ghost delta = buf@.subrange(0, k as int);
        proof {
            assert(delta =~= self.data@.subrange(self.pos as int, self.pos + k));
        }
        self.pos = self.pos + k;
        self.hist = Ghost(self.hist@ + delta);
        proof {
            assert(self.delivered() =~= old(self).delivered() + buf@.subrange(0, k as int));
            assert(buf@.skip(k as int) =~= old(buf)@.skip(k as int));
            assert(self.remaining() =~= old(self).remaining().skip(k as int));
        }
        Ok(k)
    }

    fn is_line_by_line(&self) -> (r: bool) {
        false
    }
}

/// A step of a scripted source: what its next read will do.
pub enum ReadStep {
    /// Deliver these bytes (or a prefix of them, if the destination is
    /// smaller; the rest of the chunk is then discarded).
    Chunk(Vec<u8>),
    /// Fail once with the transient `Interrupted` error.
    Interrupt,
    /// Fail once with a transport fault.
    Fault,
    /// Report a zero-byte read — the conventional end-of-stream signal —
    /// while later steps may still deliver data, like a growing file.
    Eos,
}

/// A byte source that replays a fixed script of read outcomes, then
/// reports end-of-stream forever. It can also claim to be an interactive
/// line-editing source, which makes it a convenient stand-in for a
/// terminal whose reads return whole lines.
pub struct ScriptedReader {
    steps: Vec<ReadStep>,
    next: usize,
    interactive: bool,
    hist: Ghost<Seq<u8>>,
}

impl ScriptedReader {
    /// A source that will play back `steps`, one per read.
    pub fn new(steps: Vec<ReadStep>) -> (r: Self)
        ensures
            r.delivered() == Seq::<u8>::empty(),
            !r.line_discipline(),
    {
        ScriptedReader { steps, next: 0, interactive: false, hist: Ghost(Seq::empty()) }
    }

    /// Like `new`, but the source reports an interactive line discipline.
    pub fn new_interactive(steps: Vec<ReadStep>) -> (r: Self)
        ensures
            r.delivered() == Seq::<u8>::empty(),
            r.line_discipline(),
    {
        ScriptedReader { steps, next: 0, interactive: true, hist: Ghost(Seq::empty()) }
    }
}

impl ScriptedReader {
    /// The script this source plays back.
    pub closed spec fn script(&self) -> Seq<ReadStep> {
        self.steps@
    }

    /// How many steps have been consumed.
    pub closed spec fn cursor(&self) -> int {
        self.next as int
    }
}

impl RawRead for ScriptedReader {
    closed spec fn delivered(&self) -> Seq<u8> {
        self.hist@
    }

    closed spec fn line_discipline(&self) -> bool {
        self.interactive
    }

    fn raw_read(&mut self, buf: &mut Vec<u8>) -> (r: Result<usize, IoError>)
        ensures
            final(self).script() == old(self).script(),
            final(self).cursor() == if old(self).cursor() < old(self).script().len() {
                old(self).cursor() + 1
            } else {
                old(self).cursor()
            },
            ({
                let c = old(self).cursor();
                if c >= old(self).script().len() {
                    r == Result::<usize, IoError>::Ok(0)
                } else {
                    match old(self).script()[c] {
                        ReadStep::Chunk(bytes) => r matches Ok(n) && n == if old(buf)@.len()
                            < bytes@.len() {
                            old(buf)@.len()
                        } else {
                            bytes@.len()
                        } && final(buf)@.subrange(0, n as int) == bytes@.take(n as int),
                        ReadStep::Interrupt => r == Result::<usize, IoError>::Err(
                            IoError::Interrupted,
                        ),
                        ReadStep::Fault => r == Result::<usize, IoError>::Err(IoError::Other),
                        ReadStep::Eos => r == Result::<usize, IoError>::Ok(0),
                    }
                }
            }),
    {
        if self.next >= self.steps.len() {
            proof {
                assert(self.delivered() =~= old(self).delivered() + buf@.subrange(0, 0));
                assert(buf@.skip(0) =~= old(buf)@.skip(0));
            }
            return Ok(0);
        }
        let idx = self.next;
        self.next = idx + 1;
        match &self.steps[idx] {
            ReadStep::Chunk(bytes) => {
                let k = if buf.len() < bytes.len() {
                    buf.len()
                } else {
                    bytes.len()
                };
                let ghost bytes0 = bytes@;
                let mut j: usize = 0;
                while j < k
                    invariant
                        0 <= j <= k,
                        k <= buf@.len(),
                        k <= bytes0.len(),
                        buf@.len() == old(buf)@.len(),
                        bytes0 == bytes@,
                        forall|t: int| 0 <= t < j ==> buf@[t] == bytes0[t],
                        forall|t: int| j <= t < buf@.len() ==> buf@[t] == old(buf)@[t],
                    decreases k - j,
                {
                    let b = bytes[j];
                    buf[j] = b;
                    j = j + 1;
                }
                let ghost delta = buf@.subrange(0, k as int);
                self.hist = Ghost(self.hist@ + delta);
                proof {
                    assert(self.delivered() =~= old(self).delivered() + buf@.subrange(
                        0,
                        k as int,
                    ));
                    assert(buf@.skip(k as int) =~= old(buf)@.skip(k as int));
                    assert(buf@.subrange(0, k as int) =~= bytes0.take(k as int));
                }
                Ok(k)
            },
            ReadStep::Interrupt => {
                proof {
                    assert(buf@ =~= old(buf)@);
                }
                Err(IoError::Interrupted)
            },
            ReadStep::Fault => {
                proof {
                    assert(buf@ =~= old(buf)@);
                }
                Err(IoError::Other)
            },
            ReadStep::Eos => {
                proof {
                    assert(self.delivered() =~= old(self).delivered() + buf@.subrange(0, 0));
                    assert(buf@.skip(0) =~= old(buf)@.skip(0));
                }
                Ok(0)
            },
        }
    }

    fn is_line_by_line(&self) -> (r: bool)
        ensures
            r == self.line_discipline(),
    {
        self.interactive
    }
}

/// An in-memory byte sink that accepts at most a fixed number of bytes per
/// write call, counts its write calls, and flushes trivially. It stands in
/// for a transport when exercising the write adapters; a per-call cap of
/// zero makes it a sink whose writes accept nothing.
pub struct VecSink {
    data: Vec<u8>,
    max_per_call: usize,
    calls: usize,
    finished: bool,
}

impl VecSink {
    /// An unbounded sink.
    pub fn new() -> (r: Self)
        ensures
            r.accepted() == Seq::<u8>::empty(),
            r.is_open(),
    {
        VecSink { data: Vec::new(), max_per_call: usize::MAX, calls: 0, finished: false }
    }

    /// A sink that accepts at most `max` bytes for each write call.
    pub fn with_max_write(max: usize) -> (r: Self)
        ensures
            r.accepted() == Seq::<u8>::empty(),
            r.is_open(),
    {
        VecSink { data: Vec::new(), max_per_call: max, calls: 0, finished: false }
    }

    /// The bytes accepted so far.
    pub fn contents(&self) -> (r: &Vec<u8>)
        ensures
            r@ == self.accepted(),
    {
        &self.data
    }

    /// How many write calls this sink has served.
    pub fn write_calls(&self) -> usize {
        self.calls
    }

    /// Consume the sink, keeping the bytes it accepted.
    pub fn into_inner(self) -> (r: Vec<u8>)
        ensures
            r@ == self.accepted(),
    {
        self.data
    }
}

impl RawWrite for VecSink {
    closed spec fn accepted(&self) -> Seq<u8> {
        self.data@
    }

    fn raw_write(&mut self, buf: &[u8]) -> (r: Result<usize, IoError>)
        ensures
            r matches Ok(n) && n == if buf@.len() < old(self).max_cap() {
                buf@.len()
            } else {
                old(self).max_cap()
            },
    {
        let k = if buf.len() < self.max_per_call {
            buf.len()
        } else {
            self.max_per_call
        };
        self.data.extend_from_slice(slice_subrange(buf, 0, k));
        if self.calls < usize::MAX {
            self.calls = self.calls + 1;
        }
        Ok(k)
    }

    fn raw_flush(&mut self) -> (r: Result<(), IoError>) {
        Ok(())
    }
}

impl VecSink {
    /// Ghost view of the per-call cap.
    pub closed spec fn max_cap(&self) -> nat {
        self.max_per_call as nat
    }
}

impl Bufferable for VecSink {
    closed spec fn is_open(&self) -> bool {
        !self.finished
    }

    fn abandon(&mut self) {
        self.finished = true;
    }

    fn suggested_buffer_size(&self) -> usize {
        // Writing to memory needs no buffering.
        0
    }
}

impl Closeable for VecSink {
    fn close(&mut self) -> (r: Result<(), IoError>)
        ensures
            r is Ok,
            final(self).accepted() == old(self).accepted(),
    {
        // There is never a buffered error to report.
        self.finished = true;
        Ok(())
    }
}

/// A step of a scripted sink: what its next write will do.
#[derive(Copy, Clone)]
pub enum WriteStep {
    /// Accept up to this many bytes.
    Accept(usize),
    /// Fail once with the transient `Interrupted` error.
    Interrupt,
    /// Fail once with a transport fault.
    Fault,
}

/// A byte sink that replays a fixed script of write outcomes, then
/// accepts everything. Flushing can also be scripted to fail once.
pub struct ScriptedWriter {
    steps: Vec<WriteStep>,
    next: usize,
    data: Vec<u8>,
    flush_faults: usize,
}

impl ScriptedWriter {
    /// A sink that will play back `steps`, one per write.
    pub fn new(steps: Vec<WriteStep>) -> (r: Self)
        ensures
            r.accepted() == Seq::<u8>::empty(),
    {
        ScriptedWriter { steps, next: 0, data: Vec::new(), flush_faults: 0 }
    }

    /// The bytes accepted so far.
    pub fn contents(&self) -> (r: &Vec<u8>)
        ensures
            r@ == self.accepted(),
    {
        &self.data
    }

    /// Like `new`, but the first `flush_faults` flushes fail with a
    /// transport fault.
    pub fn with_flush_faults(steps: Vec<WriteStep>, flush_faults: usize) -> (r: Self)
        ensures
            r.accepted() == Seq::<u8>::empty(),
    {
        ScriptedWriter { steps, next: 0, data: Vec::new(), flush_faults }
    }
}

impl ScriptedWriter {
    /// The script this sink plays back.
    pub closed spec fn script(&self) -> Seq<WriteStep> {
        self.steps@
    }

    /// How many steps have been consumed.
    pub closed spec fn cursor(&self) -> int {
        self.next as int
    }

    /// How many upcoming flushes will fail.
    pub closed spec fn pending_flush_faults(&self) -> int {
        self.flush_faults as int
    }
}

impl RawWrite for ScriptedWriter {
    closed spec fn accepted(&self) -> Seq<u8> {
        self.data@
    }

    fn raw_write(&mut self, buf: &[u8]) -> (r: Result<usize, IoError>)
        ensures
            final(self).script() == old(self).script(),
            final(self).cursor() == if old(self).cursor() < old(self).script().len() {
                old(self).cursor() + 1
            } else {
                old(self).cursor()
            },
            ({
                let c = old(self).cursor();
                if c >= old(self).script().len() {
                    r == Result::<usize, IoError>::Ok(buf@.len() as usize)
                } else {
                    match old(self).script()[c] {
                        WriteStep::Accept(m) => r matches Ok(n) && n == if buf@.len() < m {
                            buf@.len()
                        } else {
                            m as nat
                        },
                        WriteStep::Interrupt => r == Result::<usize, IoError>::Err(
                            IoError::Interrupted,
                        ),
                        WriteStep::Fault => r == Result::<usize, IoError>::Err(IoError::Other),
                    }
                }
            }),
    {
        if self.next >= self.steps.len() {
            self.data.extend_from_slice(buf);
            proof {
                assert(buf@.subrange(0, buf@.len() as int) =~= buf@);
            }
            return Ok(buf.len());
        }
        let step = self.steps[self.next];
        self.next = self.next + 1;
        match step {
            WriteStep::Accept(m) => {
                let k = if buf.len() < m {
                    buf.len()
                } else {
                    m
                };
                self.data.extend_from_slice(slice_subrange(buf, 0, k));
                Ok(k)
            },
            WriteStep::Interrupt => Err(IoError::Interrupted),
            WriteStep::Fault => Err(IoError::Other),
        }
    }

    fn raw_flush(&mut self) -> (r: Result<(), IoError>)
        ensures
            r is Ok <==> old(self).pending_flush_faults() == 0,
            final(self).pending_flush_faults() == if old(self).pending_flush_faults() > 0 {
                old(self).pending_flush_faults() - 1
            } else {
                0
            },
    {
        if self.flush_faults > 0 {
            self.flush_faults = self.flush_faults - 1;
            return Err(IoError::Other);
        }
        Ok(())
    }
}

/// An in-memory bidirectional transport: reads hand out the bytes of
/// `input` in order, writes accumulate into `output`.
pub struct VecDuplex {
    input: VecSource,
    output: Vec<u8>,
}

impl VecDuplex {
    /// A transport whose read side will deliver exactly `input`.
    pub fn new(input: Vec<u8>) -> (r: Self)
        ensures
            r.delivered() == Seq::<u8>::empty(),
            r.accepted() == Seq::<u8>::empty(),
    {
        VecDuplex { input: VecSource::new(input), output: Vec::new() }
    }

    /// The bytes written so far.
    pub fn written(&self) -> (r: &Vec<u8>)
        ensures
            r@ == self.accepted(),
    {
        &self.output
    }
}

impl RawRead for VecDuplex {
    closed spec fn delivered(&self) -> Seq<u8> {
        self.input.delivered()
    }

    closed spec fn line_discipline(&self) -> bool {
        false
    }

    fn raw_read(&mut self, buf: &mut Vec<u8>) -> (r: Result<usize, IoError>) {
        self.input.raw_read(buf)
    }

    fn is_line_by_line(&self) -> (r: bool) {
        false
    }
}

impl RawWrite for VecDuplex {
    closed spec fn accepted(&self) -> Seq<u8> {
        self.output@
    }

    fn raw_write(&mut self, buf: &[u8]) -> (r: Result<usize, IoError>)
        ensures
            r matches Ok(n) && n == buf@.len(),
    {
        self.output.extend_from_slice(buf);
        proof {
            assert(buf@.subrange(0, buf@.len() as int) =~= buf@);
        }
        Ok(buf.len())
    }

    fn raw_flush(&mut self) -> (r: Result<(), IoError>) {
        Ok(())
    }
}

} // verus!

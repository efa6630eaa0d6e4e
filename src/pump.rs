//! The relay pump: one readiness notification's worth of forwarding from a
//! source socket to its peer.
//!
//! The pump does no I/O itself. It tells its driver what to do next
//! ([`PumpAction`]): read at most so many bytes from the source, write the
//! bytes it holds to the destination, or stop with a [`Verdict`]. The driver
//! performs the action and hands back what came of it.
//!
//! Everything read in one invocation is gathered behind whatever an earlier
//! invocation could not yet write, and then written to the destination once,
//! in order. What the destination does not take stays in the direction's
//! [`Flow`] until the destination is writable again; while that backlog is
//! large, the source is not read. A zero-length read means the source has
//! ended: the direction is reported closed once everything before it has
//! been written.
use vstd::prelude::*;

verus! {

/// The receive buffer's size at the start of each invocation.
pub const INITIAL_CAPACITY: usize = 4096;

/// How much the receive buffer grows when one burst of reads fills it.
pub const GROWTH: usize = 1024;

/// While this many bytes or more wait for the destination, the source is
/// not read.
pub const BACKLOG_LIMIT: usize = 65536;

/// What came of one read from the source.
#[derive(Clone, Copy, Debug, PartialEq, Eq, Structural)]
pub enum ReadOutcome {
    /// The read returned bytes; none at all means end of stream.
    Data,
    /// Nothing is available right now.
    WouldBlock,
    /// A signal interrupted the read.
    Interrupted,
    /// Any other error.
    Failed,
}

/// What came of one write to the destination.
#[derive(Clone, Copy, Debug, PartialEq, Eq, Structural)]
pub enum WriteOutcome {
    /// The write accepted this many bytes.
    Wrote(usize),
    WouldBlock,
    Interrupted,
    Failed,
}

/// Why a pump gave up on its session.
#[derive(Clone, Copy, Debug, PartialEq, Eq, Structural)]
pub enum PumpError {
    ReadFailed,
    WriteFailed,
    /// The destination took no byte at all of a non-empty write.
    WriteZero,
}

/// How one invocation of the pump ended.
#[derive(Clone, Copy, Debug, PartialEq, Eq, Structural)]
pub enum Verdict {
    /// The session stays.
    Open,
    /// The source reached end of stream and everything it sent has been
    /// written: tear the session down.
    Closed,
    /// An I/O error ends the session.
    Failed(PumpError),
}

/// Where a pump stands.
#[derive(Clone, Copy, Debug, PartialEq, Eq, Structural)]
pub enum Phase {
    Reading,
    Writing,
    Done(Verdict),
}

/// What the driver is to do next.
#[derive(Clone, Copy, Debug, PartialEq, Eq, Structural)]
pub enum PumpAction {
    /// Read at most this many bytes from the source.
    Read(usize),
    /// Write the bytes the pump holds to the destination.
    Write,
    /// Nothing more to do in this invocation.
    Finish(Verdict),
}

/// One direction of a session between invocations of its pump: the bytes
/// read from the source that the destination has not taken yet, and whether
/// the source has ended.
pub struct Flow {
    pub backlog: Vec<u8>,
    pub ended: bool,
}

impl Flow {
    /// A direction with nothing pending, whose source is open.
    pub fn new() -> (f: Flow)
        ensures
            f.backlog@ == Seq::<u8>::empty(),
            !f.ended,
    {
        Flow { backlog: Vec::new(), ended: false }
    }

    /// Whether bytes wait for the destination.
    pub fn is_backlogged(&self) -> (r: bool)
        ensures
            r == (self.backlog@.len() > 0),
    {
        self.backlog.len() > 0
    }

    /// Whether the source is still to be read: it has not ended, and the
    /// bytes waiting for the destination are under the limit.
    pub fn wants_reading(&self) -> (r: bool)
        ensures
            r == reads_first(true, self.backlog@, self.ended),
    {
        !self.ended && self.backlog.len() < BACKLOG_LIMIT
    }
}

/// The verdict for a session when two pumps ran for it in one event: a
/// failure outweighs a close, which outweighs staying open.
pub open spec fn worse_of(a: Verdict, b: Verdict) -> Verdict {
    match (a, b) {
        (Verdict::Failed(e), _) => Verdict::Failed(e),
        (_, Verdict::Failed(e)) => Verdict::Failed(e),
        (Verdict::Closed, _) => Verdict::Closed,
        (_, Verdict::Closed) => Verdict::Closed,
        _ => Verdict::Open,
    }
}

/// Combines the verdicts of two pumps that ran for one session.
pub fn worse(a: Verdict, b: Verdict) -> (r: Verdict)
    ensures
        r == worse_of(a, b),
{
    match (a, b) {
        (Verdict::Failed(e), _) => Verdict::Failed(e),
        (_, Verdict::Failed(e)) => Verdict::Failed(e),
        (Verdict::Closed, _) => Verdict::Closed,
        (_, Verdict::Closed) => Verdict::Closed,
        _ => Verdict::Open,
    }
}

/// The abstract state of a pump.
pub struct PumpView {
    /// The bytes held for the destination, in the order they were read.
    pub received: Seq<u8>,
    /// The receive buffer's current size.
    pub capacity: nat,
    /// Whether the source has reached end of stream.
    pub closed: bool,
    pub phase: Phase,
}

/// The verdict when nothing went wrong.
pub open spec fn settled(closed: bool) -> Verdict {
    if closed {
        Verdict::Closed
    } else {
        Verdict::Open
    }
}

/// Whether a pump starts by reading: its source is readable and open, and
/// the backlog is under the limit.
pub open spec fn reads_first(readable: bool, backlog: Seq<u8>, ended: bool) -> bool {
    readable && !ended && backlog.len() < BACKLOG_LIMIT
}

/// A pump at the start of an invocation, taking over a direction's backlog.
/// One that does not read goes straight to writing the backlog, if any.
pub open spec fn initial(readable: bool, backlog: Seq<u8>, ended: bool) -> PumpView {
    let s = PumpView {
        received: backlog,
        capacity: (backlog.len() + INITIAL_CAPACITY) as nat,
        closed: ended,
        phase: Phase::Reading,
    };
    if reads_first(readable, backlog, ended) {
        s
    } else {
        after_reading(s)
    }
}

/// Reading is over: write what was gathered, if anything was.
pub open spec fn after_reading(s: PumpView) -> PumpView {
    if s.received.len() > 0 {
        PumpView { phase: Phase::Writing, ..s }
    } else {
        PumpView { phase: Phase::Done(settled(s.closed)), ..s }
    }
}

/// The pump after a read from the source; `chunk` is what a `Data` read
/// returned. The buffer grows when a burst fills it; should it no longer
/// be able to grow, reading stops there.
pub open spec fn read_step(s: PumpView, outcome: ReadOutcome, chunk: Seq<u8>) -> PumpView {
    if s.phase != Phase::Reading {
        s
    } else {
        match outcome {
            ReadOutcome::Data => {
                if chunk.len() == 0 {
                    after_reading(PumpView { closed: true, ..s })
                } else {
                    let r = s.received + chunk;
                    if r.len() < s.capacity {
                        PumpView { received: r, ..s }
                    } else if s.capacity + GROWTH <= usize::MAX {
                        PumpView { received: r, capacity: (s.capacity + GROWTH) as nat, ..s }
                    } else {
                        after_reading(PumpView { received: r, ..s })
                    }
                }
            },
            ReadOutcome::WouldBlock => after_reading(s),
            ReadOutcome::Interrupted => s,
            ReadOutcome::Failed => PumpView {
                phase: Phase::Done(Verdict::Failed(PumpError::ReadFailed)),
                ..s
            },
        }
    }
}

/// How many of `len` bytes a write of `n` took.
pub open spec fn taken_by(n: usize, len: int) -> int {
    if (n as int) < len {
        n as int
    } else {
        len
    }
}

/// The verdict once a write is over with `rest` still held.
pub open spec fn after_write(closed: bool, rest: Seq<u8>) -> Verdict {
    settled(closed && rest.len() == 0)
}

/// The pump after writing what it holds to the destination. What the
/// destination did not take is kept, in order, for a later invocation.
pub open spec fn write_step(s: PumpView, outcome: WriteOutcome) -> PumpView {
    if s.phase != Phase::Writing {
        s
    } else {
        match outcome {
            WriteOutcome::Wrote(n) => {
                if n == 0 {
                    PumpView { phase: Phase::Done(Verdict::Failed(PumpError::WriteZero)), ..s }
                } else {
                    let rest = s.received.subrange(taken_by(n, s.received.len() as int), s.received.len() as int);
                    PumpView { received: rest, phase: Phase::Done(after_write(s.closed, rest)), ..s }
                }
            },
            WriteOutcome::WouldBlock => PumpView {
                phase: Phase::Done(after_write(s.closed, s.received)),
                ..s
            },
            WriteOutcome::Interrupted => s,
            WriteOutcome::Failed => PumpView {
                phase: Phase::Done(Verdict::Failed(PumpError::WriteFailed)),
                ..s
            },
        }
    }
}

/// What a pump in state `s` asks its driver to do.
pub open spec fn action_of(s: PumpView) -> PumpAction {
    match s.phase {
        Phase::Reading => PumpAction::Read((s.capacity - s.received.len()) as usize),
        Phase::Writing => PumpAction::Write,
        Phase::Done(v) => PumpAction::Finish(v),
    }
}

/// One read as the driver reports it: its outcome, and for `Data` the bytes.
pub type ReadEvent = (ReadOutcome, Seq<u8>);

/// The bytes that the `Data` reads among `events` returned, in order.
pub open spec fn data_of(events: Seq<ReadEvent>) -> Seq<u8>
    decreases events.len(),
{
    if events.len() == 0 {
        Seq::empty()
    } else {
        let e = events.last();
        data_of(events.drop_last()) + if e.0 == ReadOutcome::Data {
            e.1
        } else {
            Seq::empty()
        }
    }
}

/// The pump after taking in `events`, one after another.
pub open spec fn feed(s: PumpView, events: Seq<ReadEvent>) -> PumpView
    decreases events.len(),
{
    if events.len() == 0 {
        s
    } else {
        read_step(feed(s, events.drop_last()), events.last().0, events.last().1)
    }
}

/// While a pump is reading, it holds exactly what it held before followed by
/// every byte its reads returned, in the order they were read: nothing is
/// lost, duplicated or reordered on the way to the destination.
pub proof fn lemma_pump_keeps_every_byte(s: PumpView, events: Seq<ReadEvent>)
    requires
        forall|i: int| 0 <= i < events.len() ==> #[trigger] feed(s, events.take(i)).phase
            == Phase::Reading,
    ensures
        feed(s, events).received == s.received + data_of(events),
    decreases events.len(),
{
    if events.len() == 0 {
        assert(s.received + data_of(events) == s.received);
    } else {
        let prefix = events.drop_last();
        assert forall|i: int| 0 <= i < prefix.len() implies #[trigger] feed(s, prefix.take(i)).phase
            == Phase::Reading by {
            assert(prefix.take(i) == events.take(i));
            assert(feed(s, events.take(i)).phase == Phase::Reading);
        }
        lemma_pump_keeps_every_byte(s, prefix);
        assert(events.take(prefix.len() as int) == prefix);
        assert(feed(s, events.take(prefix.len() as int)).phase == Phase::Reading);
        let e = events.last();
        if e.0 == ReadOutcome::Data {
            assert(s.received + data_of(events) == s.received + data_of(prefix) + e.1);
        } else {
            assert(s.received + data_of(events) == s.received + data_of(prefix));
        }
    }
}

/// When the source reaches end of stream, whatever the pump had gathered is
/// first written to the destination; once written in full, the session is
/// reported closed. With nothing gathered, it is reported closed at once.
pub proof fn lemma_end_of_stream_forwards_then_closes(s: PumpView)
    requires
        s.phase == Phase::Reading,
        s.received.len() <= usize::MAX,
    ensures
        ({
            let t = read_step(s, ReadOutcome::Data, Seq::empty());
            &&& t.received == s.received
            &&& t.closed
            &&& s.received.len() > 0 ==> t.phase == Phase::Writing && write_step(
                t,
                WriteOutcome::Wrote(t.received.len() as usize),
            ).phase == Phase::Done(Verdict::Closed)
            &&& s.received.len() == 0 ==> t.phase == Phase::Done(Verdict::Closed)
        }),
{
}

/// A write hands the destination a prefix of what the pump holds and keeps
/// the rest, so the bytes written now followed by those kept are exactly the
/// bytes held before: nothing is dropped when the destination pushes back.
/// The direction is reported closed only when its source has ended and
/// nothing is kept.
pub proof fn lemma_write_keeps_the_rest(s: PumpView, outcome: WriteOutcome)
    requires
        s.phase == Phase::Writing,
        outcome != WriteOutcome::Wrote(0),
        outcome != WriteOutcome::Failed,
        outcome != WriteOutcome::Interrupted,
    ensures
        ({
            let t = write_step(s, outcome);
            let k = match outcome {
                WriteOutcome::Wrote(n) => taken_by(n, s.received.len() as int),
                _ => 0,
            };
            &&& s.received == s.received.subrange(0, k) + t.received
            &&& t.phase == Phase::Done(settled(s.closed && t.received.len() == 0))
        }),
{
    let t = write_step(s, outcome);
    let k = match outcome {
        WriteOutcome::Wrote(n) => taken_by(n, s.received.len() as int),
        _ => 0,
    };
    assert(s.received == s.received.subrange(0, k) + t.received);
}

/// A pump that is still reading has not seen its source end.
proof fn lemma_reading_is_open(s: PumpView, events: Seq<ReadEvent>)
    requires
        s.phase == Phase::Reading ==> !s.closed,
    ensures
        feed(s, events).phase == Phase::Reading ==> !feed(s, events).closed,
    decreases events.len(),
{
    if events.len() > 0 {
        lemma_reading_is_open(s, events.drop_last());
    }
}

/// One whole invocation with nothing carried over: reads return data (with
/// interrupted reads possibly in between) while the pump keeps reading, and
/// then one read ends the burst, by end of stream or by having nothing more
/// right now. What the pump then writes, in its one write, is exactly the
/// concatenation of what was read; nothing is written when nothing was read.
/// If the destination takes it all, nothing is held back, and the session is
/// reported closed exactly when the burst ended by end of stream.
pub proof fn lemma_invocation_forwards_everything(events: Seq<ReadEvent>, last: ReadEvent)
    requires
        forall|i: int|
            0 <= i <= events.len() ==> #[trigger] feed(
                initial(true, Seq::empty(), false),
                events.take(i),
            ).phase == Phase::Reading,
        last.0 == ReadOutcome::WouldBlock || (last.0 == ReadOutcome::Data && last.1.len() == 0),
    ensures
        ({
            let t = read_step(feed(initial(true, Seq::empty(), false), events), last.0, last.1);
            let ended = last.0 == ReadOutcome::Data;
            &&& t.received == data_of(events)
            &&& data_of(events).len() > 0 ==> t.phase == Phase::Writing
            &&& data_of(events).len() == 0 ==> t.phase == Phase::Done(settled(ended))
            &&& forall|n: usize|
                data_of(events).len() > 0 && n as int >= t.received.len() ==> {
                    let w = #[trigger] write_step(t, WriteOutcome::Wrote(n));
                    &&& w.received.len() == 0
                    &&& w.phase == Phase::Done(settled(ended))
                }
        }),
{
    let s0 = initial(true, Seq::empty(), false);
    assert forall|i: int| 0 <= i < events.len() implies #[trigger] feed(s0, events.take(i)).phase
        == Phase::Reading by {
        assert(feed(s0, events.take(i)).phase == Phase::Reading);
    }
    lemma_pump_keeps_every_byte(s0, events);
    lemma_reading_is_open(s0, events);
    assert(events.take(events.len() as int) == events);
    assert(feed(s0, events.take(events.len() as int)).phase == Phase::Reading);
    assert(s0.received + data_of(events) == data_of(events));
}

/// The state of one invocation of the relay pump.
pub struct Pump {
    received: Vec<u8>,
    capacity: usize,
    closed: bool,
    phase: Phase,
}

impl View for Pump {
    type V = PumpView;

    closed spec fn view(&self) -> PumpView {
        PumpView {
            received: self.received@,
            capacity: self.capacity as nat,
            closed: self.closed,
            phase: self.phase,
        }
    }
}

impl Pump {
    /// The buffer never holds more than its size, and while reading there is
    /// always room for at least one more byte.
    pub open spec fn wf(&self) -> bool {
        &&& self@.received.len() <= self@.capacity <= usize::MAX
        &&& self@.phase == Phase::Reading ==> self@.received.len() < self@.capacity
    }

    /// Starts an invocation for one direction of a session; `readable` tells
    /// whether the event reports the source readable.
    pub fn new(readable: bool, flow: Flow) -> (p: Pump)
        requires
            flow.backlog@.len() <= usize::MAX - INITIAL_CAPACITY,
        ensures
            p.wf(),
            p@ == initial(readable, flow.backlog@, flow.ended),
    {
        let capacity = flow.backlog.len() + INITIAL_CAPACITY;
        let mut p = Pump {
            received: flow.backlog,
            capacity,
            closed: flow.ended,
            phase: Phase::Reading,
        };
        if !(readable && !flow.ended && p.received.len() < BACKLOG_LIMIT) {
            p.settle_reading();
        }
        p
    }

    /// What the driver is to do next.
    pub fn action(&self) -> (a: PumpAction)
        requires
            self.wf(),
        ensures
            a == action_of(self@),
    {
        match self.phase {
            Phase::Reading => PumpAction::Read(self.capacity - self.received.len()),
            Phase::Writing => PumpAction::Write,
            Phase::Done(v) => PumpAction::Finish(v),
        }
    }

    /// The bytes to write to the destination, in the order they were read.
    pub fn pending(&self) -> (r: &[u8])
        ensures
            r@ == self@.received,
    {
        self.received.as_slice()
    }

    /// Ends the invocation, handing back what the destination has yet to
    /// take and whether the source has ended.
    pub fn into_flow(self) -> (f: Flow)
        ensures
            f.backlog@ == self@.received,
            f.ended == self@.closed,
    {
        Flow { backlog: self.received, ended: self.closed }
    }

    fn settle_reading(&mut self)
        requires
            old(self)@.received.len() <= old(self)@.capacity <= usize::MAX,
        ensures
            final(self)@ == after_reading(old(self)@),
            final(self).wf(),
    {
        if self.received.len() > 0 {
            self.phase = Phase::Writing;
        } else {
            self.phase = Phase::Done(if self.closed { Verdict::Closed } else { Verdict::Open });
        }
    }

    /// Takes in what came of a read. For `Data`, `chunk` is the bytes read,
    /// at most as many as the last `Read` action allowed.
    pub fn on_read(&mut self, outcome: ReadOutcome, chunk: &[u8]) -> (a: PumpAction)
        requires
            old(self).wf(),
            old(self)@.phase == Phase::Reading && outcome == ReadOutcome::Data ==> chunk@.len()
                <= old(self)@.capacity - old(self)@.received.len(),
        ensures
            final(self).wf(),
            final(self)@ == read_step(old(self)@, outcome, chunk@),
            a == action_of(final(self)@),
    {
        if self.phase != Phase::Reading {
            return self.action();
        }
        match outcome {
            ReadOutcome::Data => {
                if chunk.len() == 0 {
                    self.closed = true;
                    self.settle_reading();
                } else {
                    let ghost start = self@;
                    let mut i: usize = 0;
                    while i < chunk.len()
                        invariant
                            i <= chunk@.len(),
                            self@ == (PumpView {
                                received: start.received + chunk@.subrange(0, i as int),
                                ..start
                            }),
                        decreases chunk@.len() - i,
                    {
                        self.received.push(chunk[i]);
                        i = i + 1;
                        proof {
                            assert(chunk@.subrange(0, i as int) == chunk@.subrange(0, i - 1).push(
                                chunk@[i - 1],
                            ));
                        }
                    }
                    proof {
                        assert(chunk@.subrange(0, chunk@.len() as int) == chunk@);
                    }
                    if self.received.len() < self.capacity {
                    } else if self.capacity <= usize::MAX - GROWTH {
                        self.capacity = self.capacity + GROWTH;
                    } else {
                        self.settle_reading();
                    }
                }
            },
            ReadOutcome::WouldBlock => {
                self.settle_reading();
            },
            ReadOutcome::Interrupted => {},
            ReadOutcome::Failed => {
                self.phase = Phase::Done(Verdict::Failed(PumpError::ReadFailed));
            },
        }
        self.action()
    }

    /// Takes in what came of writing [`Pump::pending`] to the destination.
    pub fn on_write(&mut self, outcome: WriteOutcome) -> (a: PumpAction)
        requires
            old(self).wf(),
        ensures
            final(self).wf(),
            final(self)@ == write_step(old(self)@, outcome),
            a == action_of(final(self)@),
    {
        if self.phase != Phase::Writing {
            return self.action();
        }
        match outcome {
            WriteOutcome::Wrote(n) => {
                if n == 0 {
                    self.phase = Phase::Done(Verdict::Failed(PumpError::WriteZero));
                } else {
                    let len = self.received.len();
                    let k = if n < len { n } else { len };
                    self.received = self.received.split_off(k);
                    self.phase = Phase::Done(
                        if self.closed && self.received.len() == 0 {
                            Verdict::Closed
                        } else {
                            Verdict::Open
                        },
                    );
                }
            },
            WriteOutcome::WouldBlock => {
                self.phase = Phase::Done(
                    if self.closed && self.received.len() == 0 {
                        Verdict::Closed
                    } else {
                        Verdict::Open
                    },
                );
            },
            WriteOutcome::Interrupted => {},
            WriteOutcome::Failed => {
                self.phase = Phase::Done(Verdict::Failed(PumpError::WriteFailed));
            },
        }
        self.action()
    }
}

} // verus!

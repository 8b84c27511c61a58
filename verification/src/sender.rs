//! The pulse sender: transmission status and the tick state machine.
//!
//! A loaded pulse train partitions the timeline from tick 0 onward into
//! consecutive segments, one per stored duration. Even-numbered segments are
//! marks (carrier on), odd-numbered segments are spaces (carrier off). On
//! every tick the machine maps the elapsed tick count to the segment it falls
//! in and reports the carrier state; past the last segment it reports idle.

use vstd::prelude::*;

pub mod buffer;
pub mod hal;

use buffer::written_len;
use buffer::PulsedataBuffer;

verus! {

/// Transmission state reported on every tick.
#[derive(Clone, Copy, Debug, PartialEq, Eq, Structural)]
pub enum Status {
    /// No transmission is in progress.
    Idle,
    /// A pulse train is being transmitted; the payload says whether the
    /// carrier is currently on (a mark) or off (a space).
    Transmit(bool),
    /// The loaded pulse train is malformed and cannot be transmitted.
    Error,
}

/// Total duration of a pulse train: the sum of all its segments.
pub open spec fn sum_of(pulses: Seq<u32>) -> int
    decreases pulses.len(),
{
    if pulses.len() == 0 {
        0
    } else {
        pulses[0] + sum_of(pulses.drop_first())
    }
}

/// Whether a pulse train holds a zero-length segment. Such a segment can
/// never be transmitted (no tick falls inside it), so the train counts as
/// malformed.
pub open spec fn has_zero(pulses: Seq<u32>) -> bool {
    exists|i: int| 0 <= i < pulses.len() && pulses[i] == 0
}

/// Index of the segment that the instant `ts` falls in, counting segment
/// boundaries cumulatively from tick 0.
pub open spec fn segment_of(pulses: Seq<u32>, ts: int) -> int
    decreases pulses.len(),
{
    if pulses.len() == 0 {
        0
    } else if ts < pulses[0] {
        0
    } else {
        1 + segment_of(pulses.drop_first(), ts - pulses[0])
    }
}

/// The status of a transmission `ts` ticks after its load: idle when nothing
/// is loaded or the whole train has been sent, an error when the train holds
/// a zero-length segment, and otherwise a mark or a space by the parity of
/// the segment that `ts` falls in.
pub open spec fn status_of(pulses: Seq<u32>, ts: int) -> Status {
    if pulses.len() == 0 {
        Status::Idle
    } else if has_zero(pulses) {
        Status::Error
    } else if ts < sum_of(pulses) {
        Status::Transmit(segment_of(pulses, ts) % 2 == 0)
    } else {
        Status::Idle
    }
}

proof fn lemma_sum_nonneg(pulses: Seq<u32>)
    ensures
        sum_of(pulses) >= 0,
    decreases pulses.len(),
{
    if pulses.len() > 0 {
        lemma_sum_nonneg(pulses.drop_first());
    }
}

proof fn lemma_sum_take_succ(pulses: Seq<u32>, i: int)
    requires
        0 <= i < pulses.len(),
    ensures
        sum_of(pulses.take(i + 1)) == sum_of(pulses.take(i)) + pulses[i],
    decreases i,
{
    if i == 0 {
        assert(pulses.take(0) =~= Seq::<u32>::empty());
        assert(pulses.take(1).drop_first() =~= Seq::<u32>::empty());
        assert(pulses.take(1)[0] == pulses[0]);
    } else {
        lemma_sum_take_succ(pulses.drop_first(), i - 1);
        assert(pulses.take(i + 1).drop_first() =~= pulses.drop_first().take(i));
        assert(pulses.take(i).drop_first() =~= pulses.drop_first().take(i - 1));
        assert(pulses.take(i + 1)[0] == pulses[0]);
        assert(pulses.take(i)[0] == pulses[0]);
    }
}

proof fn lemma_sum_take_le(pulses: Seq<u32>, i: int)
    requires
        0 <= i <= pulses.len(),
    ensures
        sum_of(pulses.take(i)) <= sum_of(pulses),
    decreases pulses.len() - i,
{
    if i == pulses.len() {
        assert(pulses.take(i) =~= pulses);
    } else {
        lemma_sum_take_succ(pulses, i);
        lemma_sum_take_le(pulses, i + 1);
    }
}

proof fn lemma_segment_at(pulses: Seq<u32>, ts: int, i: int)
    requires
        0 <= i < pulses.len(),
        sum_of(pulses.take(i)) <= ts,
        ts < sum_of(pulses.take(i)) + pulses[i],
    ensures
        segment_of(pulses, ts) == i,
        ts < sum_of(pulses),
    decreases i,
{
    lemma_sum_take_succ(pulses, i);
    lemma_sum_take_le(pulses, i + 1);
    if i == 0 {
        assert(pulses.take(0) =~= Seq::<u32>::empty());
    } else {
        assert(pulses.take(i)[0] == pulses[0]);
        assert(pulses.take(i).drop_first() =~= pulses.drop_first().take(i - 1));
        lemma_sum_nonneg(pulses.drop_first().take(i - 1));
        assert(pulses.drop_first()[i - 1] == pulses[i]);
        lemma_segment_at(pulses.drop_first(), ts - pulses[0], i - 1);
    }
}

/// Walks the cumulative segment boundaries of `pulses` and returns the
/// status that holds `ts` ticks into the transmission.
fn transmit_status(pulses: &[u32], ts: u32) -> (r: Status)
    ensures
        r == status_of(pulses@, ts as int),
{
    let n: usize = pulses.len();
    if n == 0 {
        return Status::Idle;
    }
    let mut i: usize = 0;
    while i < n
        invariant
            i <= n,
            n == pulses@.len(),
            forall|j: int| 0 <= j < i ==> pulses@[j] != 0,
        decreases n - i,
    {
        if pulses[i] == 0 {
            return Status::Error;
        }
        i = i + 1;
    }
    let mut acc: u64 = 0;
    let mut i: usize = 0;
    while i < n
        invariant
            i <= n,
            n == pulses@.len(),
            forall|j: int| 0 <= j < n ==> pulses@[j] != 0,
            acc == sum_of(pulses@.take(i as int)),
            acc <= ts as u64,
        decreases n - i,
    {
        let d: u32 = pulses[i];
        let next: u64 = acc + (d as u64);
        if (ts as u64) < next {
            proof {
                lemma_segment_at(pulses@, ts as int, i as int);
            }
            return Status::Transmit(i % 2 == 0);
        }
        proof {
            lemma_sum_take_succ(pulses@, i as int);
        }
        acc = next;
        i = i + 1;
    }
    proof {
        assert(pulses@.take(n as int) =~= pulses@);
    }
    Status::Idle
}

/// The status a tick reports is a pure function of the stored pulse train
/// and the elapsed tick count alone: equal trains and equal counts give
/// the equal status, however often it is asked.
pub proof fn lemma_tick_deterministic(pulses1: Seq<u32>, ts1: u32, pulses2: Seq<u32>, ts2: u32)
    requires
        pulses1 == pulses2,
        ts1 == ts2,
    ensures
        status_of(pulses1, ts1 as int) == status_of(pulses2, ts2 as int),
{
}

/// A transmission never sticks: once the elapsed tick count reaches the
/// train's total duration, the reported status is idle again, and a fresh
/// load can follow.
pub proof fn lemma_transmission_completes(pulses: Seq<u32>, ts: u32)
    requires
        ts as int >= sum_of(pulses),
        !has_zero(pulses),
    ensures
        status_of(pulses, ts as int) == Status::Idle,
{
}

/// A malformed train never reaches a transmitting state: a zero-length
/// segment surfaces as an error on every tick, instead of stalling or
/// crashing the machine.
pub proof fn lemma_malformed_surfaces_as_error(pulses: Seq<u32>, ts: u32)
    requires
        pulses.len() > 0,
        has_zero(pulses),
    ensures
        status_of(pulses, ts as int) == Status::Error,
{
}

/// The contract a protocol type implements to take part in transmission:
/// it fixes a command value type and writes a command's pulse durations
/// into a caller-supplied window. The carrier frequency `F` may influence
/// the duration values an encoder produces for the same logical command.
pub trait ProtocolEncoder<const F: u32> {
    /// The protocol's command value type.
    type Cmd;

    /// Encoder-internal configuration data.
    type EncoderData;

    /// The configuration the encoder runs with.
    const DATA: Self::EncoderData;

    /// The full pulse train that `cmd` encodes to at carrier frequency `F`.
    spec fn pulses(cmd: &Self::Cmd) -> Seq<u32>;

    /// Writes the head of the command's pulse train into `buf`, starting at
    /// offset zero, and returns how many durations were written: all that
    /// the command needs, or as many as fit in the window, whichever is
    /// fewer. Entries past the written count are left untouched; the window
    /// itself bounds the write, so the caller controls overflow protection.
    fn encode(cmd: &Self::Cmd, buf: &mut [u32]) -> (written: usize)
        ensures
            written == written_len(old(buf)@.len() as int, Self::pulses(cmd).len() as int),
            final(buf)@.len() == old(buf)@.len(),
            forall|i: int| 0 <= i < written ==> final(buf)@[i] == Self::pulses(cmd)[i],
            forall|i: int|
                written <= i < final(buf)@.len() ==> final(buf)@[i] == old(buf)@[i],
    ;
}

/// An encoder whose command already is a pulse train: it copies the given
/// durations unchanged, at any carrier frequency. Useful for replaying a
/// captured or hand-written train through the sender.
pub struct RawEncoder;

impl<const F: u32> ProtocolEncoder<F> for RawEncoder {
    type Cmd = Vec<u32>;

    type EncoderData = u32;

    const DATA: u32 = 0;

    open spec fn pulses(cmd: &Vec<u32>) -> Seq<u32> {
        cmd@
    }

    fn encode(cmd: &Vec<u32>, buf: &mut [u32]) -> (written: usize) {
        let n: usize = if buf.len() < cmd.len() {
            buf.len()
        } else {
            cmd.len()
        };
        let mut i: usize = 0;
        while i < n
            invariant
                i <= n,
                n == written_len(old(buf)@.len() as int, cmd@.len() as int),
                buf@.len() == old(buf)@.len(),
                n <= buf@.len(),
                n <= cmd@.len(),
                forall|j: int| 0 <= j < i ==> buf@[j] == cmd@[j],
                forall|j: int| i <= j < buf@.len() ==> buf@[j] == old(buf)@[j],
            decreases n - i,
        {
            buf[i] = cmd[i];
            i = i + 1;
        }
        n
    }
}

/// A pulse buffer together with the transmission status that the most
/// recent tick reported. `Idle` before the first tick.
pub struct PulsedataSender<const S: usize> {
    /// The stored pulse train.
    pub ptb: PulsedataBuffer<S>,
    /// Status returned by the most recent tick.
    pub status: Status,
}

impl<const S: usize> PulsedataSender<S> {
    /// Well-formed: the buffer's cursor stays within its capacity.
    pub open spec fn wf(&self) -> bool {
        self.ptb.wf()
    }

    /// Returns a sender with an empty buffer, at rest.
    pub fn new() -> (r: Self)
        ensures
            r.wf(),
            r.ptb@ == Seq::<u32>::empty(),
            r.status == Status::Idle,
    {
        Self { ptb: PulsedataBuffer::new(), status: Status::Idle }
    }

    /// Discards any previously stored train and loads the encoding of `c`
    /// from the start of the buffer, truncated at capacity if need be.
    pub fn load_command<E: ProtocolEncoder<F>, const F: u32>(&mut self, c: &E::Cmd)
        requires
            old(self).wf(),
        ensures
            final(self).wf(),
            final(self).ptb@ == E::pulses(c).take(
                written_len(S as int, E::pulses(c).len() as int),
            ),
            final(self).status == old(self).status,
    {
        self.ptb.reset();
        self.ptb.load::<E, F>(c);
        proof {
            assert(Seq::<u32>::empty() + E::pulses(c).take(
                written_len(S as int, E::pulses(c).len() as int),
            ) =~= E::pulses(c).take(written_len(S as int, E::pulses(c).len() as int)));
        }
    }

    /// Reports the status `ts` ticks after the last load and remembers it.
    /// The status is a function of the stored train and `ts` alone; the
    /// train itself is left untouched.
    pub fn tick(&mut self, ts: u32) -> (r: Status)
        requires
            old(self).wf(),
        ensures
            final(self).wf(),
            final(self).ptb == old(self).ptb,
            r == status_of(old(self).ptb@, ts as int),
            final(self).status == r,
    {
        let status = transmit_status(self.ptb.buffer(), ts);
        self.status = status;
        status
    }

    /// The stored pulse train as a read-only slice.
    pub fn buffer(&self) -> (r: &[u32])
        requires
            self.wf(),
        ensures
            r@ == self.ptb@,
    {
        self.ptb.buffer()
    }
}

} // verus!

//! Binding of a pulse sender to a physical PWM output.

use vstd::prelude::*;

use crate::sender::buffer::written_len;
use crate::sender::ProtocolEncoder;
use crate::sender::PulsedataSender;
use crate::sender::Status;
use crate::sender::status_of;

verus! {

/// The capability a PWM output provides: switching the carrier on and off.
/// Implemented outside the library for the concrete hardware; both calls
/// are synchronous and side-effect-only.
pub trait PwmPin {
    /// Switches the carrier on.
    fn enable(&mut self);

    /// Switches the carrier off.
    fn disable(&mut self);
}

/// Drives a PWM pin from a pulse sender, tick by tick, and enforces that
/// only one command is in flight at a time.
pub struct Sender<P, const F: u32, const S: usize> {
    /// The PWM output that gates the carrier.
    pub pin: P,
    /// Ticks elapsed since the last load, wrapping on overflow.
    pub counter: u32,
    /// The pulse sender that holds the train and its status.
    pub buffer: PulsedataSender<S>,
}

impl<P: PwmPin, const F: u32, const S: usize> Sender<P, F, S> {
    /// Well-formed: the embedded sender is.
    pub open spec fn wf(&self) -> bool {
        self.buffer.wf()
    }

    /// Returns a sender at rest, bound to `pin`, with an empty buffer.
    pub fn new(pin: P) -> (r: Self)
        ensures
            r.wf(),
            r.pin == pin,
            r.counter == 0,
            r.buffer.ptb@ == Seq::<u32>::empty(),
            r.buffer.status == Status::Idle,
    {
        Self { pin, counter: 0, buffer: PulsedataSender::new() }
    }

    /// Loads the encoding of `cmd` and restarts the tick counter, but only
    /// while no transmission is in flight: called in any other status, it
    /// is a silent no-op and the loaded train and counter are untouched.
    /// That gate also holds after a tick has reported an error, since the
    /// status is then not idle; to recover from a faulty train, discard it
    /// through the embedded sender's `load_command` or its buffer's
    /// `reset`, both reachable on the public `buffer` field.
    pub fn load<Proto: ProtocolEncoder<F>>(&mut self, cmd: &Proto::Cmd)
        requires
            old(self).wf(),
        ensures
            final(self).wf(),
            final(self).buffer.status == old(self).buffer.status,
            final(self).pin == old(self).pin,
            old(self).buffer.status == Status::Idle ==> {
                &&& final(self).buffer.ptb@ == Proto::pulses(cmd).take(
                    written_len(S as int, Proto::pulses(cmd).len() as int),
                )
                &&& final(self).counter == 0
            },
            old(self).buffer.status != Status::Idle ==> *final(self) == *old(self),
    {
        if self.buffer.status == Status::Idle {
            self.buffer.load_command::<Proto, F>(cmd);
            self.counter = 0;
        }
    }

    /// The currently loaded pulse train, for diagnostics and tests.
    pub fn buffer(&self) -> (r: &[u32])
        requires
            self.wf(),
        ensures
            r@ == self.buffer.ptb@,
    {
        self.buffer.buffer()
    }

    /// Advances the wrapping tick counter, asks the pulse sender for the
    /// status at the tick that just elapsed, and actuates the pin: the
    /// carrier is on during a mark and off in every other status, so an
    /// error or the end of the train fails safe. Returns the status so the
    /// caller can detect completion or a fault.
    pub fn tick(&mut self) -> (r: Status)
        requires
            old(self).wf(),
        ensures
            final(self).wf(),
            final(self).buffer.ptb == old(self).buffer.ptb,
            r == status_of(old(self).buffer.ptb@, old(self).counter as int),
            final(self).buffer.status == r,
            final(self).counter == vstd::wrapping::u32_specs::wrapping_add(old(self).counter, 1),
    {
        let status = self.buffer.tick(self.counter);
        self.counter = self.counter.wrapping_add(1);
        match status {
            Status::Transmit(true) => self.pin.enable(),
            Status::Transmit(false) => self.pin.disable(),
            Status::Idle => self.pin.disable(),
            Status::Error => self.pin.disable(),
        };
        status
    }
}

} // verus!

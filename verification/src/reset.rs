//! The reset line of the controller and the delays that its reset needs.

use vstd::prelude::*;

verus! {

/// A digital output, such as the pin that drives the controller's reset line.
pub trait OutputPin {
    /// Why the pin could not be driven.
    type Error;

    /// Drives the pin low.
    fn set_low(&mut self) -> Result<(), Self::Error>;

    /// Drives the pin high.
    fn set_high(&mut self) -> Result<(), Self::Error>;
}

/// A blocking delay in milliseconds.
pub trait DelayMs {
    /// Returns after at least `ms` milliseconds.
    fn delay_ms(&mut self, ms: u8);
}

/// One step of a reset.
pub ghost enum ResetStep {
    /// The reset line was driven low.
    Low,
    /// The reset line was driven high.
    High,
    /// The driver waited for so many milliseconds.
    Wait(u8),
}

/// A reset pin and a delay, together with the history of what was done with
/// them. The history is ghost state: it lets the contract of a reset state
/// its steps and their order, and which error a failure came with.
pub struct ResetLine<RST: OutputPin, DELAY> {
    rst: RST,
    delay: DELAY,
    done: Ghost<Seq<ResetStep>>,
    failure: Ghost<Option<RST::Error>>,
}

impl<RST: OutputPin, DELAY: DelayMs> ResetLine<RST, DELAY> {
    /// The pin that drives the reset line.
    pub closed spec fn pin(&self) -> RST {
        self.rst
    }

    /// The delay that the waits are made with.
    pub closed spec fn timer(&self) -> DELAY {
        self.delay
    }

    /// The steps carried out so far, oldest first.
    pub closed spec fn steps(&self) -> Seq<ResetStep> {
        self.done@
    }

    /// The error of the last step that failed; `None` where none has.
    pub closed spec fn failed(&self) -> Option<RST::Error> {
        self.failure@
    }

    /// Takes ownership of a pin and a delay. Nothing has been done yet.
    pub fn new(rst: RST, delay: DELAY) -> (line: Self)
        ensures
            line.pin() == rst,
            line.timer() == delay,
            line.steps() == Seq::<ResetStep>::empty(),
            line.failed() is None,
    {
        ResetLine { rst, delay, done: Ghost(Seq::empty()), failure: Ghost(None) }
    }

    /// Drives the line low and hands the pin's answer on. The step enters
    /// the history exactly when the pin reports success; its error is kept
    /// when it reports a failure.
    pub fn set_low(&mut self) -> (r: Result<(), RST::Error>)
        ensures
            r is Ok ==> final(self).steps() == old(self).steps().push(ResetStep::Low),
            r is Ok ==> final(self).failed() == old(self).failed(),
            r is Err ==> final(self).steps() == old(self).steps(),
            r matches Err(e) ==> final(self).failed() == Some(e),
    {
        let r = self.rst.set_low();
        proof {
            if r is Ok {
                self.done@ = self.done@.push(ResetStep::Low);
            } else {
                self.failure@ = Some(r->Err_0);
            }
        }
        r
    }

    /// Drives the line high and hands the pin's answer on. The step enters
    /// the history exactly when the pin reports success; its error is kept
    /// when it reports a failure.
    pub fn set_high(&mut self) -> (r: Result<(), RST::Error>)
        ensures
            r is Ok ==> final(self).steps() == old(self).steps().push(ResetStep::High),
            r is Ok ==> final(self).failed() == old(self).failed(),
            r is Err ==> final(self).steps() == old(self).steps(),
            r matches Err(e) ==> final(self).failed() == Some(e),
    {
        let r = self.rst.set_high();
        proof {
            if r is Ok {
                self.done@ = self.done@.push(ResetStep::High);
            } else {
                self.failure@ = Some(r->Err_0);
            }
        }
        r
    }

    /// Waits for `ms` milliseconds.
    pub fn delay_ms(&mut self, ms: u8)
        ensures
            final(self).steps() == old(self).steps().push(ResetStep::Wait(ms)),
            final(self).failed() == old(self).failed(),
    {
        self.delay.delay_ms(ms);
        proof {
            self.done@ = self.done@.push(ResetStep::Wait(ms));
        }
    }

    /// Gives the pin and the delay back.
    pub fn release(self) -> (parts: (RST, DELAY))
        ensures
            parts.0 == self.pin(),
            parts.1 == self.timer(),
    {
        (self.rst, self.delay)
    }
}

} // verus!

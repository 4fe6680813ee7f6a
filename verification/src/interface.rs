//! The serial bus that carries commands and data to the controller.

use vstd::prelude::*;

verus! {

/// Why the bus could not carry out a transfer.
#[derive(Clone, Copy, Debug, PartialEq, Eq, Structural)]
pub enum DisplayError {
    /// Invalid data format selected for the interface.
    InvalidFormatError,
    /// Unable to write to the bus.
    BusWriteError,
    /// Unable to assert or de-assert the data/command switching signal.
    DCError,
    /// Unable to assert the chip select signal.
    CSError,
    /// The requested data format is not implemented by the interface.
    DataFormatNotImplemented,
    /// Unable to assert or de-assert the reset signal.
    RSError,
    /// Attempted to write to a pixel outside the display's bounds.
    OutOfBoundsError,
}

/// One transfer over the bus: its phase and the bytes it carried.
pub ghost enum Transfer {
    /// Bytes sent in the command phase.
    Command(Seq<u8>),
    /// Bytes sent in the data phase.
    Data(Seq<u8>),
}

/// Whether a series of transfers was cut short: `after` is `before` followed
/// by the first transfers of `plan`, in order, but not by all of them.
pub open spec fn cut_short(before: Seq<Transfer>, after: Seq<Transfer>, plan: Seq<Transfer>) -> bool {
    exists|k: int| 0 <= k < plan.len() && after == before + #[trigger] plan.take(k)
}

/// A part that was cut short cuts the whole short: where `step` follows
/// `done` within a longer plan and was cut short, so was the plan.
pub proof fn lemma_cut_short_within(
    before: Seq<Transfer>,
    after: Seq<Transfer>,
    done: Seq<Transfer>,
    step: Seq<Transfer>,
    rest: Seq<Transfer>,
)
    requires
        cut_short(before + done, after, step),
    ensures
        cut_short(before, after, done + step + rest),
{
    let k = choose|k: int| 0 <= k < step.len() && after == (before + done) + #[trigger] step.take(k);
    let plan = done + step + rest;
    assert(plan.take(done.len() + k) =~= done + step.take(k));
    assert(before + plan.take(done.len() + k) =~= (before + done) + step.take(k));
}

/// The first part of a plan that was cut short cuts the plan short.
pub proof fn lemma_cut_short_at_start(
    before: Seq<Transfer>,
    after: Seq<Transfer>,
    first: Seq<Transfer>,
    rest: Seq<Transfer>,
)
    requires
        cut_short(before, after, first),
    ensures
        cut_short(before, after, first + rest),
{
    let k = choose|k: int| 0 <= k < first.len() && after == before + #[trigger] first.take(k);
    assert((first + rest).take(k) =~= first.take(k));
}

/// A write-only bus with separate command and data phases.
///
/// Both operations block until the bytes are transmitted or the transfer has
/// failed. Nothing is promised of their outcome: the driver is correct for
/// every implementation.
pub trait WriteOnlyDataCommand {
    /// Transmits `cmds` in the command phase.
    fn send_commands(&mut self, cmds: &[u8]) -> Result<(), DisplayError>;

    /// Transmits `buf` in the data phase.
    fn send_data(&mut self, buf: &[u8]) -> Result<(), DisplayError>;
}

/// A bus together with the history of what it did with the transfers handed
/// to it.
///
/// The history is ghost state: it costs nothing at run time, and lets the
/// driver's contracts state exactly which bytes were handed to the bus, in
/// which phase and in which order, and which error a failure came with.
pub struct Bus<DI> {
    iface: DI,
    accepted: Ghost<Seq<Transfer>>,
    failure: Ghost<Option<DisplayError>>,
}

impl<DI> Bus<DI> {
    /// The interface that carries the transfers.
    pub closed spec fn interface(&self) -> DI {
        self.iface
    }

    /// The transfers that the bus has accepted so far, oldest first.
    pub closed spec fn sent(&self) -> Seq<Transfer> {
        self.accepted@
    }

    /// The error of the last transfer that failed; `None` where none has.
    pub closed spec fn failed(&self) -> Option<DisplayError> {
        self.failure@
    }

}

impl<DI: WriteOnlyDataCommand> Bus<DI> {
    /// Takes ownership of an interface. Nothing has been sent yet.
    pub fn new(iface: DI) -> (bus: Self)
        ensures
            bus.interface() == iface,
            bus.sent() == Seq::<Transfer>::empty(),
            bus.failed() is None,
    {
        Bus { iface, accepted: Ghost(Seq::empty()), failure: Ghost(None) }
    }

    /// Sends `cmds` in the command phase and hands the interface's answer
    /// on. The transfer enters the history exactly when the interface
    /// reports success; its error is kept when it reports a failure.
    pub fn send_commands(&mut self, cmds: &[u8]) -> (r: Result<(), DisplayError>)
        ensures
            r is Ok ==> final(self).sent() == old(self).sent().push(Transfer::Command(cmds@)),
            r is Ok ==> final(self).failed() == old(self).failed(),
            r is Err ==> final(self).sent() == old(self).sent(),
            r matches Err(e) ==> final(self).failed() == Some(e),
    {
        let r = self.iface.send_commands(cmds);
        proof {
            if r is Ok {
                self.accepted@ = self.accepted@.push(Transfer::Command(cmds@));
            } else {
                self.failure@ = Some(r->Err_0);
            }
        }
        r
    }

    /// Sends `buf` in the data phase and hands the interface's answer on.
    /// The transfer enters the history exactly when the interface reports
    /// success; its error is kept when it reports a failure.
    pub fn send_data(&mut self, buf: &[u8]) -> (r: Result<(), DisplayError>)
        ensures
            r is Ok ==> final(self).sent() == old(self).sent().push(Transfer::Data(buf@)),
            r is Ok ==> final(self).failed() == old(self).failed(),
            r is Err ==> final(self).sent() == old(self).sent(),
            r matches Err(e) ==> final(self).failed() == Some(e),
    {
        let r = self.iface.send_data(buf);
        proof {
            if r is Ok {
                self.accepted@ = self.accepted@.push(Transfer::Data(buf@));
            } else {
                self.failure@ = Some(r->Err_0);
            }
        }
        r
    }

    /// Gives the interface back.
    pub fn release(self) -> (iface: DI)
        ensures
            iface == self.interface(),
    {
        self.iface
    }
}

} // verus!

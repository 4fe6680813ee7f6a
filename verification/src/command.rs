//! The controller's commands and their byte encoding.

use vstd::prelude::*;
use crate::interface::{cut_short, Bus, DisplayError, Transfer, WriteOnlyDataCommand};

verus! {

/// Commands - subset of the supported commands
#[derive(Clone, Copy, Debug)]
#[allow(dead_code)]
pub enum Command {
    /// Set command unlock
    Unlock,
    /// Set the column address
    SetColumnAddress(u8, u8),
    /// Set the row address
    SetRowAddress(u8, u8),
    /// Set the divide and osc freq
    SetDisplayClock(u8),
    /// Set the multiplex ratio
    SetMuxRatio(u8),
    /// Shift mapping RAM counter
    SetDisplayOffset(u8),
    /// Shift mapping RAM display start line
    SetStartLine(u8),
    /// Set horizontal address increment
    SetRemapFormat(u8, u8),
    /// GPIO pins
    SetGPIO(u8),
    /// Function selection
    SetFunctionSelection(u8),
    /// Set Display Enhancement A
    SetDisplayEnhancementA(u8, u8),
    /// Set Contrast current
    SetContrastCurrent(u8),
    /// Set Master current
    SetMasterCurrent(u8),
    /// Set linear gray scale table
    SetLinearGrayScaleTable,
    /// Set phase length
    SetPhaseLength(u8),
    /// Set Display Enhancement B
    SetDisplayEnhancementB(u8, u8),
    /// Set pre-charge voltage
    SetPrechargeVoltage(u8),
    /// Set pre-charge period
    SetPrechargePeriod(u8),
    /// Set common pins voltage level
    SetVCOMH(u8),
    /// Set normal display mode
    NormalDisplayMode,
    /// Set all pixels on
    AllPixelsOn,
    /// Set all pixels off
    AllPixelsOff,
    /// Exit partial display
    ExitPartialDisplay,
    /// Write the data following this command
    WriteRAM,
    /// Sleep mode off
    DisplayOn,
    /// Sleep mode on
    DisplayOff,
}

impl Command {
    /// The opcode byte of the command.
    pub open spec fn opcode(self) -> u8 {
        match self {
            Command::Unlock => 0xFD,
            Command::SetColumnAddress(_, _) => 0x15,
            Command::SetRowAddress(_, _) => 0x75,
            Command::SetDisplayClock(_) => 0xB3,
            Command::SetMuxRatio(_) => 0xCA,
            Command::SetDisplayOffset(_) => 0xA2,
            Command::SetStartLine(_) => 0xA1,
            Command::SetRemapFormat(_, _) => 0xA0,
            Command::SetGPIO(_) => 0xB5,
            Command::SetFunctionSelection(_) => 0xAB,
            Command::SetDisplayEnhancementA(_, _) => 0xB4,
            Command::SetContrastCurrent(_) => 0xC1,
            Command::SetMasterCurrent(_) => 0xC7,
            Command::SetLinearGrayScaleTable => 0xB9,
            Command::SetPhaseLength(_) => 0xB1,
            Command::SetDisplayEnhancementB(_, _) => 0xD1,
            Command::SetPrechargeVoltage(_) => 0xBB,
            Command::SetPrechargePeriod(_) => 0xB6,
            Command::SetVCOMH(_) => 0xBE,
            Command::NormalDisplayMode => 0xA6,
            Command::AllPixelsOn => 0xA5,
            Command::AllPixelsOff => 0xA4,
            Command::ExitPartialDisplay => 0xA9,
            Command::WriteRAM => 0x5C,
            Command::DisplayOn => 0xAF,
            Command::DisplayOff => 0xAE,
        }
    }

    /// The parameter bytes that follow the opcode, in the order the variant
    /// declares them. Unlocking always carries the key `0x12`.
    pub open spec fn params(self) -> Seq<u8> {
        match self {
            Command::Unlock => seq![0x12u8],
            Command::SetColumnAddress(a, b)
            | Command::SetRowAddress(a, b)
            | Command::SetRemapFormat(a, b)
            | Command::SetDisplayEnhancementA(a, b)
            | Command::SetDisplayEnhancementB(a, b) => seq![a, b],
            Command::SetDisplayClock(a)
            | Command::SetMuxRatio(a)
            | Command::SetDisplayOffset(a)
            | Command::SetStartLine(a)
            | Command::SetGPIO(a)
            | Command::SetFunctionSelection(a)
            | Command::SetContrastCurrent(a)
            | Command::SetMasterCurrent(a)
            | Command::SetPhaseLength(a)
            | Command::SetPrechargeVoltage(a)
            | Command::SetPrechargePeriod(a)
            | Command::SetVCOMH(a) => seq![a],
            Command::SetLinearGrayScaleTable
            | Command::NormalDisplayMode
            | Command::AllPixelsOn
            | Command::AllPixelsOff
            | Command::ExitPartialDisplay
            | Command::WriteRAM
            | Command::DisplayOn
            | Command::DisplayOff => Seq::empty(),
        }
    }

    /// The complete encoding: the opcode, then the parameters.
    pub open spec fn bytes(self) -> Seq<u8> {
        seq![self.opcode()] + self.params()
    }

    /// The bus traffic of the command: the opcode alone in the command phase
    /// and, only where there are parameters, all of them in one data phase.
    pub open spec fn transfers(self) -> Seq<Transfer> {
        if self.params().len() == 0 {
            seq![Transfer::Command(seq![self.opcode()])]
        } else {
            seq![Transfer::Command(seq![self.opcode()]), Transfer::Data(self.params())]
        }
    }

    /// Encodes the command into a fixed buffer of three bytes. The second
    /// component is the number of bytes that belong to the encoding; the
    /// bytes past it are zero.
    pub fn encode(self) -> (out: ([u8; 3], usize))
        ensures
            1 <= out.1 <= 3,
            out.0@.take(out.1 as int) == self.bytes(),
            forall|i: int| out.1 <= i < 3 ==> out.0@[i] == 0,
    {
        let out: ([u8; 3], usize) = match self {
            Command::Unlock => ([0xFD, 0x12, 0], 2),
            Command::SetColumnAddress(a, b) => ([0x15, a, b], 3),
            Command::SetRowAddress(a, b) => ([0x75, a, b], 3),
            Command::SetDisplayClock(a) => ([0xB3, a, 0], 2),
            Command::SetMuxRatio(a) => ([0xCA, a, 0], 2),
            Command::SetDisplayOffset(a) => ([0xA2, a, 0], 2),
            Command::SetStartLine(a) => ([0xA1, a, 0], 2),
            Command::SetRemapFormat(a, b) => ([0xA0, a, b], 3),
            Command::SetGPIO(a) => ([0xB5, a, 0], 2),
            Command::SetFunctionSelection(a) => ([0xAB, a, 0], 2),
            Command::SetDisplayEnhancementA(a, b) => ([0xB4, a, b], 3),
            Command::SetContrastCurrent(a) => ([0xC1, a, 0], 2),
            Command::SetMasterCurrent(a) => ([0xC7, a, 0], 2),
            Command::SetLinearGrayScaleTable => ([0xB9, 0, 0], 1),
            Command::SetPhaseLength(a) => ([0xB1, a, 0], 2),
            Command::SetDisplayEnhancementB(a, b) => ([0xD1, a, b], 3),
            Command::SetPrechargeVoltage(a) => ([0xBB, a, 0], 2),
            Command::SetPrechargePeriod(a) => ([0xB6, a, 0], 2),
            Command::SetVCOMH(a) => ([0xBE, a, 0], 2),
            Command::NormalDisplayMode => ([0xA6, 0, 0], 1),
            Command::AllPixelsOff => ([0xA4, 0, 0], 1),
            Command::AllPixelsOn => ([0xA5, 0, 0], 1),
            Command::ExitPartialDisplay => ([0xA9, 0, 0], 1),
            Command::WriteRAM => ([0x5C, 0, 0], 1),
            Command::DisplayOn => ([0xAF, 0, 0], 1),
            Command::DisplayOff => ([0xAE, 0, 0], 1),
        };
        assert(out.0@.take(out.1 as int) =~= self.bytes());
        out
    }

    /// Sends the command over the bus: the opcode as one command-phase
    /// transfer, then the parameters, if any, as one data-phase transfer.
    ///
    /// A failure of the bus ends the command and is handed on with the error
    /// that the bus reported: the history then holds the opcode's transfer if
    /// it was the parameters that failed, and nothing new otherwise.
    pub fn send<DI: WriteOnlyDataCommand>(self, iface: &mut Bus<DI>) -> (r: Result<
        (),
        DisplayError,
    >)
        ensures
            r is Ok ==> final(iface).sent() == old(iface).sent() + self.transfers(),
            r is Ok ==> final(iface).failed() == old(iface).failed(),
            r is Err ==> cut_short(old(iface).sent(), final(iface).sent(), self.transfers()),
            r matches Err(e) ==> final(iface).failed() == Some(e),
    {
        let (data, len) = self.encode();
        proof {
            let encoded = data@.take(len as int);
            assert(encoded.len() == len);
            assert(self.params().len() == len - 1);
            assert(encoded[0] == self.opcode());
            assert forall|i: int| 0 <= i < len - 1 implies data@[i + 1] == self.params()[i] by {
                assert(encoded[i + 1] == self.bytes()[i + 1]);
            }
            assert(data@.subrange(0, 1) =~= seq![self.opcode()]);
            assert(data@.subrange(1, len as int) =~= self.params());
        }
        match iface.send_commands(&data[0..1]) {
            Ok(()) => {},
            Err(e) => {
                assert(old(iface).sent() + self.transfers().take(0) =~= old(iface).sent());
                return Err(e);
            },
        }
        if len > 1 {
            match iface.send_data(&data[1..len]) {
                Ok(()) => {},
                Err(e) => {
                    assert(old(iface).sent() + self.transfers().take(1) =~= old(iface).sent().push(
                        Transfer::Command(seq![self.opcode()]),
                    ));
                    return Err(e);
                },
            }
            assert(old(iface).sent() + self.transfers() =~= old(iface).sent().push(
                Transfer::Command(seq![self.opcode()]),
            ).push(Transfer::Data(self.params())));
        } else {
            assert(old(iface).sent() + self.transfers() =~= old(iface).sent().push(
                Transfer::Command(seq![self.opcode()]),
            ));
        }
        Ok(())
    }
}

/// The bus traffic of a series of commands sent one after another.
pub open spec fn transfers_of(cmds: Seq<Command>) -> Seq<Transfer>
    decreases cmds.len(),
{
    if cmds.len() == 0 {
        Seq::empty()
    } else {
        transfers_of(cmds.drop_last()) + cmds.last().transfers()
    }
}

/// The traffic of two series sent one after the other is the traffic of the
/// first followed by that of the second.
pub proof fn lemma_transfers_of_concat(first: Seq<Command>, second: Seq<Command>)
    ensures
        transfers_of(first + second) == transfers_of(first) + transfers_of(second),
    decreases second.len(),
{
    if second.len() == 0 {
        assert(first + second =~= first);
        assert(transfers_of(first) + transfers_of(second) =~= transfers_of(first));
    } else {
        lemma_transfers_of_concat(first, second.drop_last());
        assert((first + second).drop_last() =~= first + second.drop_last());
        assert((first + second).last() == second.last());
        assert(transfers_of(first + second) =~= transfers_of(first) + transfers_of(second));
    }
}

/// The traffic of a series is the traffic of its first `i` commands, then
/// that of command `i`, then that of the commands after it.
pub proof fn lemma_transfers_of_split(cmds: Seq<Command>, i: int)
    requires
        0 <= i < cmds.len(),
    ensures
        transfers_of(cmds.take(i + 1)) == transfers_of(cmds.take(i)) + cmds[i].transfers(),
        transfers_of(cmds) == transfers_of(cmds.take(i)) + cmds[i].transfers() + transfers_of(
            cmds.skip(i + 1),
        ),
{
    assert(cmds.take(i + 1).drop_last() =~= cmds.take(i));
    assert(cmds.take(i + 1).last() == cmds[i]);
    assert(cmds =~= cmds.take(i + 1) + cmds.skip(i + 1));
    lemma_transfers_of_concat(cmds.take(i + 1), cmds.skip(i + 1));
}

} // verus!

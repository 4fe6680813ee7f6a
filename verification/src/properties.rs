//! Container to store and set display properties

use vstd::prelude::*;
use crate::command::{transfers_of, Command};
use crate::displaysize::DisplaySize;
use crate::interface::{
    cut_short, lemma_cut_short_at_start, lemma_cut_short_within, Bus, DisplayError, Transfer,
    WriteOnlyDataCommand,
};

verus! {

/// The commands that set the controller's draw window to the columns from
/// `start.0` to `end.0` and the rows from `start.1` to `end.1`.
pub open spec fn draw_address_commands(start: (u8, u8), end: (u8, u8)) -> Seq<Command> {
    seq![Command::SetColumnAddress(start.0, end.0), Command::SetRowAddress(start.1, end.1)]
}

/// Display properties struct
pub struct DisplayProperties<DI> {
    iface: Bus<DI>,
    display_size: DisplaySize,
    draw_area_start: (u8, u8),
    draw_area_end: (u8, u8),
}

impl<DI> DisplayProperties<DI> {
    /// The transfers that the bus has accepted, oldest first.
    pub closed spec fn sent(&self) -> Seq<Transfer> {
        self.iface.sent()
    }

    /// The error of the last transfer that failed; `None` where none has.
    pub closed spec fn failed(&self) -> Option<DisplayError> {
        self.iface.failed()
    }

    /// The interface that carries the transfers.
    pub closed spec fn interface(&self) -> DI {
        self.iface.interface()
    }

    /// The configured display size.
    pub closed spec fn size(&self) -> DisplaySize {
        self.display_size
    }

    /// The draw area: its first column and row, then its last column and row.
    pub closed spec fn draw_area(&self) -> ((u8, u8), (u8, u8)) {
        (self.draw_area_start, self.draw_area_end)
    }

}

impl<DI: WriteOnlyDataCommand> DisplayProperties<DI> {
    /// Create new DisplayProperties instance
    pub fn new(iface: DI, display_size: DisplaySize) -> (properties: DisplayProperties<DI>)
        ensures
            properties.interface() == iface,
            properties.size() == display_size,
            properties.draw_area() == ((0u8, 0u8), (0u8, 0u8)),
            properties.sent() == Seq::<Transfer>::empty(),
            properties.failed() is None,
    {
        DisplayProperties {
            iface: Bus::new(iface),
            display_size,
            draw_area_start: (0, 0),
            draw_area_end: (0, 0),
        }
    }

    /// Set the position in the framebuffer of the display where any sent data should be
    /// drawn. This method can be used for changing the affected area on the screen as well
    /// as (re-)setting the start point of the next `draw` call.
    ///
    /// The area is stored whether or not the commands go through.
    pub fn set_draw_area(&mut self, start: (u8, u8), end: (u8, u8)) -> (r: Result<
        (),
        DisplayError,
    >)
        ensures
            final(self).draw_area() == (start, end),
            final(self).size() == old(self).size(),
            r is Ok ==> final(self).sent() == old(self).sent() + transfers_of(
                draw_address_commands(start, end),
            ),
            r is Err ==> cut_short(
                old(self).sent(),
                final(self).sent(),
                transfers_of(draw_address_commands(start, end)),
            ),
            r is Ok ==> final(self).failed() == old(self).failed(),
            r matches Err(e) ==> final(self).failed() == Some(e),
    {
        self.draw_area_start = start;
        self.draw_area_end = end;

        self.send_draw_address()
    }

    /// Send the data to the display for drawing at the current position in the framebuffer
    /// and advance the position accordingly. Cf. `set_draw_area` to modify the affected area by
    /// this method.
    pub fn draw(&mut self, buffer: &[u8]) -> (r: Result<(), DisplayError>)
        ensures
            final(self).draw_area() == old(self).draw_area(),
            final(self).size() == old(self).size(),
            r is Ok ==> final(self).sent() == old(self).sent().push(Transfer::Data(buffer@)),
            r is Err ==> final(self).sent() == old(self).sent(),
            r is Ok ==> final(self).failed() == old(self).failed(),
            r matches Err(e) ==> final(self).failed() == Some(e),
    {
        self.iface.send_data(buffer)
    }

    /// Sends the commands that set the controller's draw window to the
    /// stored draw area: the column range, then the row range.
    pub fn send_draw_address(&mut self) -> (r: Result<(), DisplayError>)
        ensures
            final(self).draw_area() == old(self).draw_area(),
            final(self).size() == old(self).size(),
            r is Ok ==> final(self).sent() == old(self).sent() + transfers_of(
                draw_address_commands(old(self).draw_area().0, old(self).draw_area().1),
            ),
            r is Err ==> cut_short(
                old(self).sent(),
                final(self).sent(),
                transfers_of(
                    draw_address_commands(old(self).draw_area().0, old(self).draw_area().1),
                ),
            ),
            r is Ok ==> final(self).failed() == old(self).failed(),
            r matches Err(e) ==> final(self).failed() == Some(e),
    {
        let columns = Command::SetColumnAddress(self.draw_area_start.0, self.draw_area_end.0);
        let rows = Command::SetRowAddress(self.draw_area_start.1, self.draw_area_end.1);
        let ghost cmds = draw_address_commands(self.draw_area().0, self.draw_area().1);
        proof {
            reveal_with_fuel(transfers_of, 3);
            assert(cmds.drop_last() =~= seq![columns]);
            assert(cmds.drop_last().drop_last() =~= Seq::<Command>::empty());
            assert(transfers_of(cmds) =~= columns.transfers() + rows.transfers());
        }
        match columns.send(&mut self.iface) {
            Ok(()) => {},
            Err(e) => {
                proof {
                    lemma_cut_short_at_start(
                        old(self).sent(),
                        self.sent(),
                        columns.transfers(),
                        rows.transfers(),
                    );
                }
                return Err(e);
            },
        }
        match rows.send(&mut self.iface) {
            Ok(()) => {
                assert(self.sent() =~= old(self).sent() + (columns.transfers()
                    + rows.transfers()));
                Ok(())
            },
            Err(e) => {
                proof {
                    lemma_cut_short_within(
                        old(self).sent(),
                        self.sent(),
                        columns.transfers(),
                        rows.transfers(),
                        Seq::empty(),
                    );
                    assert(columns.transfers() + rows.transfers() + Seq::<Transfer>::empty()
                        =~= columns.transfers() + rows.transfers());
                }
                Err(e)
            },
        }
    }

    /// Get the configured display size
    pub fn get_size(&self) -> (size: DisplaySize)
        ensures
            size == self.size(),
    {
        self.display_size
    }

    /// Get display dimensions: the width, then the height, in pixels
    pub fn get_dimensions(&self) -> (dims: (u8, u8))
        ensures
            dims == self.size().spec_dimensions(),
    {
        self.display_size.dimensions()
    }
}

} // verus!

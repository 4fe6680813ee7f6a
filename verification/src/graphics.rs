//! Buffered display module for panels that are configured by a
//! [`DisplaySize`] and always flushed as a whole.

use vstd::prelude::*;
use crate::command::transfers_of;
use crate::displaysize::DisplaySize;
use crate::framebuffer::{nibble_set, update_lower_nibble, update_upper_nibble};
use crate::interface::{
    cut_short, lemma_cut_short_at_start, DisplayError, Transfer, WriteOnlyDataCommand,
};
use crate::pixel::Point;
use crate::properties::{draw_address_commands, DisplayProperties};
use crate::region::{region_fits, touched, DirtyRegion, DirtyRegionTracker};
use crate::reset::{DelayMs, OutputPin, ResetLine, ResetStep};

verus! {

/// Number of bytes in the buffer: two pixels per byte on 128 by 64 pixels.
pub const BUFFER_SIZE: usize = 128 * 64 / 2;

/// The gray value that a pixel is stored with: black for `0`, the brightest
/// for anything else.
pub open spec fn luma_of(value: u8) -> u8 {
    if value == 0 {
        0
    } else {
        0x0F
    }
}

/// The image of a panel and the rectangle of bytes that changed in it.
pub ghost struct Frame {
    /// The buffer, row by row, two pixels per byte.
    pub bytes: Seq<u8>,
    /// The rectangle of bytes that changed; `None` where nothing changed.
    pub region: Option<DirtyRegion>,
}

impl Frame {
    /// Whether `(x, y)` is a pixel of a panel of size `size`.
    pub open spec fn on_panel(size: DisplaySize, x: int, y: int) -> bool {
        0 <= x < size.spec_dimensions().0 && 0 <= y < size.spec_dimensions().1
    }

    /// The index of the byte that holds pixel `(x, y)` of a panel of size `size`.
    pub open spec fn index(size: DisplaySize, x: int, y: int) -> int {
        x / 2 + y * (size.spec_dimensions().0 as int / 2)
    }

    /// The byte that holds pixel `(x, y)` after the pixel is turned on, for
    /// a `value` other than zero, or off.
    pub open spec fn byte_with(self, size: DisplaySize, x: int, y: int, value: u8) -> u8 {
        nibble_set(self.bytes[Self::index(size, x, y)], x, luma_of(value))
    }

    /// The frame after pixel `(x, y)` is turned on or off. A pixel off the
    /// panel, and one that already is what it is set to, leaves the frame as
    /// it is; any other is stored, and its byte is touched.
    pub open spec fn with_pixel(self, size: DisplaySize, x: int, y: int, value: u8) -> Frame {
        if Self::on_panel(size, x, y) && self.byte_with(size, x, y, value)
            != self.bytes[Self::index(size, x, y)] {
            Frame {
                bytes: self.bytes.update(
                    Self::index(size, x, y),
                    self.byte_with(size, x, y, value),
                ),
                region: touched(self.region, (x / 2) as u8, y as u8),
            }
        } else {
            self
        }
    }

    /// The frame after `pixels`, each a position and whether it is on, are
    /// drawn one after another.
    pub open spec fn with_pixels(self, size: DisplaySize, pixels: Seq<(Point, bool)>) -> Frame
        decreases pixels.len(),
    {
        if pixels.len() == 0 {
            self
        } else {
            self.with_pixels(size, pixels.drop_last()).with_pixel(
                size,
                pixels.last().0.x as int,
                pixels.last().0.y as int,
                if pixels.last().1 {
                    1
                } else {
                    0
                },
            )
        }
    }
}

/// The steps of a reset: the line high, low and high again, with 10 ms after
/// each.
pub open spec fn reset_steps() -> Seq<ResetStep> {
    seq![
        ResetStep::High,
        ResetStep::Wait(10),
        ResetStep::Low,
        ResetStep::Wait(10),
        ResetStep::High,
        ResetStep::Wait(10),
    ]
}

/// The bus traffic of a flush: the commands that set the draw window to the
/// whole panel, then the whole image in one data transfer.
pub open spec fn flush_transfers(size: DisplaySize, bytes: Seq<u8>) -> Seq<Transfer> {
    transfers_of(
        draw_address_commands(
            (size.spec_column_offset(), 0),
            (
                (size.spec_dimensions().0 + size.spec_column_offset()) as u8,
                size.spec_dimensions().1,
            ),
        ),
    ).push(
        Transfer::Data(
            bytes.take(size.spec_dimensions().0 as int * size.spec_dimensions().1 as int / 2),
        ),
    )
}

/// Graphics mode handler
pub struct GraphicsMode<DI> {
    properties: DisplayProperties<DI>,
    buffer: [u8; BUFFER_SIZE],
    dirty: DirtyRegionTracker,
}

impl<DI> GraphicsMode<DI> {
    /// The image and the rectangle of bytes that changed since the last flush.
    pub closed spec fn frame(&self) -> Frame {
        Frame { bytes: self.buffer@, region: self.dirty@ }
    }

    /// The display properties that the mode was made with, in their present
    /// state.
    pub closed spec fn properties(&self) -> DisplayProperties<DI> {
        self.properties
    }

    /// The configured display size.
    pub open spec fn size(&self) -> DisplaySize {
        self.properties().size()
    }

    /// The transfers that the bus has accepted, oldest first.
    pub open spec fn sent(&self) -> Seq<Transfer> {
        self.properties().sent()
    }

    /// The error of the last transfer that failed; `None` where none has.
    pub open spec fn failed(&self) -> Option<DisplayError> {
        self.properties().failed()
    }
}

impl<DI: WriteOnlyDataCommand> GraphicsMode<DI> {

    /// Create new GraphicsMode instance
    pub fn new(properties: DisplayProperties<DI>) -> (mode: Self)
        ensures
            mode.frame() == (Frame {
                bytes: Seq::new(BUFFER_SIZE as nat, |i: int| 0u8),
                region: None,
            }),
            mode.properties() == properties,
    {
        let mode = GraphicsMode {
            properties,
            buffer: [0u8;BUFFER_SIZE],
            dirty: DirtyRegionTracker::new(),
        };
        assert(mode.buffer@ =~= Seq::new(BUFFER_SIZE as nat, |i: int| 0u8));
        mode
    }

    /// Release all resources used by GraphicsMode
    pub fn release(self) -> (properties: DisplayProperties<DI>)
        ensures
            properties == self.properties(),
    {
        self.properties
    }

    /// Clear the display buffer. You need to call `disp.flush()` for any effect on the screen
    pub fn clear(&mut self)
        ensures
            final(self).frame().bytes == Seq::new(BUFFER_SIZE as nat, |i: int| 0u8),
            final(self).frame().region == old(self).frame().region,
            final(self).properties() == old(self).properties(),
    {
        self.buffer = [0u8;BUFFER_SIZE];
        assert(self.buffer@ =~= Seq::new(BUFFER_SIZE as nat, |i: int| 0u8));
    }

    /// Reset display: drives the reset line high, low and high again, and
    /// waits 10 ms after each.
    ///
    /// This should be called before `init` or any other methods. A failure
    /// of the pin ends the reset at once and is handed on.
    pub fn reset<RST: OutputPin, DELAY: DelayMs>(
        &mut self,
        line: &mut ResetLine<RST, DELAY>,
    ) -> (r: Result<(), RST::Error>)
        ensures
            r is Ok ==> final(line).steps() == old(line).steps() + reset_steps(),
            r is Ok ==> final(line).failed() == old(line).failed(),
            r is Err ==> final(line).steps() == old(line).steps() || final(line).steps() == old(
                line,
            ).steps() + reset_steps().take(2) || final(line).steps() == old(line).steps()
                + reset_steps().take(4),
            r matches Err(e) ==> final(line).failed() == Some(e),
            final(self).frame() == old(self).frame(),
            final(self).properties() == old(self).properties(),
    {
        match line.set_high() {
            Ok(()) => {},
            Err(e) => {
                return Err(e);
            },
        }
        line.delay_ms(10);
        assert(line.steps() =~= old(line).steps() + reset_steps().take(2));
        match line.set_low() {
            Ok(()) => {},
            Err(e) => {
                return Err(e);
            },
        }
        line.delay_ms(10);
        assert(line.steps() =~= old(line).steps() + reset_steps().take(4));
        match line.set_high() {
            Ok(()) => {},
            Err(e) => {
                return Err(e);
            },
        }
        line.delay_ms(10);
        assert(line.steps() =~= old(line).steps() + reset_steps());
        Ok(())
    }

    /// Write out data to display
    ///
    /// The draw window is set to the whole panel, then the whole image is
    /// sent in one data transfer. When all of it went through, the changed
    /// rectangle is forgotten; at the first failure the flush stops and
    /// leaves it as it was.
    pub fn flush(&mut self) -> (r: Result<(), DisplayError>)
        ensures
            r is Ok ==> final(self).sent() == old(self).sent() + flush_transfers(
                old(self).size(),
                old(self).frame().bytes,
            ),
            r is Ok ==> final(self).frame() == (Frame {
                bytes: old(self).frame().bytes,
                region: None,
            }),
            r is Err ==> cut_short(
                old(self).sent(),
                final(self).sent(),
                flush_transfers(old(self).size(), old(self).frame().bytes),
            ),
            r is Ok ==> final(self).failed() == old(self).failed(),
            r matches Err(e) ==> final(self).failed() == Some(e),
            r is Err ==> final(self).frame() == old(self).frame(),
            final(self).size() == old(self).size(),
            final(self).properties().draw_area() == (
                (old(self).size().spec_column_offset(), 0u8),
                (
                    (old(self).size().spec_dimensions().0 + old(self).size().spec_column_offset()) as u8,
                    old(self).size().spec_dimensions().1,
                ),
            ),
    {
        let display_size = self.properties.get_size();

        // Ensure the display buffer is at the origin of the display before we send the full frame
        // to prevent accidental offsets
        let (display_width, display_height) = display_size.dimensions();
        let column_offset = display_size.column_offset();
        let ghost header = transfers_of(
            draw_address_commands(
                (column_offset, 0),
                ((display_width + column_offset) as u8, display_height),
            ),
        );
        let length: usize = (display_width as usize) * (display_height as usize) / 2;
        let ghost image = seq![Transfer::Data(self.buffer@.take(length as int))];
        assert(flush_transfers(self.size(), self.frame().bytes) =~= header + image);
        match self.properties.set_draw_area(
            (column_offset, 0),
            (display_width + column_offset, display_height),
        ) {
            Ok(()) => {},
            Err(e) => {
                proof {
                    lemma_cut_short_at_start(
                        old(self).sent(),
                        self.sent(),
                        header,
                        image,
                    );
                }
                return Err(e);
            },
        }
        match self.properties.draw(
            vstd::slice::slice_subrange(self.buffer.as_slice(), 0, length),
        ) {
            Ok(()) => {
                assert(self.sent() =~= old(self).sent() + (header + image));
                self.dirty.reset();
                Ok(())
            },
            Err(e) => {
                proof {
                    assert((header + image).take(header.len() as int) =~= header);
                }
                Err(e)
            },
        }
    }

    /// Turn a pixel on or off. A non-zero `value` is treated as on, `0` as off. If the X and Y
    /// coordinates are out of the bounds of the display, this method call is a noop.
    ///
    /// A pixel that is on is stored as the brightest gray, one that is off
    /// as black. Where that changes a byte of the buffer, the byte is
    /// registered as changed.
    pub fn set_pixel(&mut self, x: u32, y: u32, value: u8)
        ensures
            final(self).frame() == old(self).frame().with_pixel(
                old(self).size(),
                x as int,
                y as int,
                value,
            ),
            !Frame::on_panel(old(self).size(), x as int, y as int) ==> final(self).frame() == old(
                self,
            ).frame(),
            final(self).properties() == old(self).properties(),
    {
        let (display_width, display_height) = self.properties.get_size().dimensions();
        if x >= display_width as u32 || y >= display_height as u32 {
            return ;
        }
        let col: usize = x as usize;
        let row: usize = y as usize;
        let index: usize = col / 2 + row * (display_width as usize / 2);
        let luma: u8 = if value == 0 {
            0
        } else {
            0x0F
        };
        let stored: u8 = self.buffer[index];
        let new_val: u8 = if col % 2 == 0 {
            update_upper_nibble(stored, luma)
        } else {
            update_lower_nibble(stored, luma)
        };
        if new_val != stored {
            self.buffer[index] = new_val;
            self.dirty.touch((col / 2) as u8, row as u8);
        }
    }

    /// Draws `pixels`, each a position and whether it is on, one after
    /// another. Positions off the panel are discarded.
    pub fn draw_iter(&mut self, pixels: &[(Point, bool)])
        ensures
            final(self).frame() == old(self).frame().with_pixels(old(self).size(), pixels@),
            final(self).properties() == old(self).properties(),
    {
        let n: usize = pixels.len();
        let mut i: usize = 0;
        while i < n
            invariant
                n == pixels@.len(),
                i <= n,
                self.frame() == old(self).frame().with_pixels(
                    old(self).size(),
                    pixels@.take(i as int),
                ),
                self.properties() == old(self).properties(),
            decreases n - i,
        {
            proof {
                assert(pixels@.take(i + 1).drop_last() =~= pixels@.take(i as int));
                assert(pixels@.take(i + 1).last() == pixels@[i as int]);
            }
            let (pos, on) = pixels[i];
            if pos.x >= 0 && pos.y >= 0 {
                self.set_pixel(pos.x as u32, pos.y as u32, if on {
                    1
                } else {
                    0
                });
            }
            i += 1;
        }
        assert(pixels@.take(n as int) =~= pixels@);
    }

    /// Get display dimensions: the width, then the height, in pixels
    pub fn get_dimensions(&self) -> (dims: (u8, u8))
        ensures
            dims == self.size().spec_dimensions(),
    {
        self.properties.get_dimensions()
    }

    /// The bytes of the buffer, row by row.
    pub fn buffer(&self) -> (bytes: &[u8; BUFFER_SIZE])
        ensures
            bytes@ == self.frame().bytes,
    {
        &self.buffer
    }

    /// The rectangle of bytes that changed since the last flush; `None`
    /// where nothing changed.
    pub fn dirty_region(&self) -> (region: Option<DirtyRegion>)
        ensures
            region == self.frame().region,
            region_fits(region),
    {
        self.dirty.region()
    }
}

} // verus!

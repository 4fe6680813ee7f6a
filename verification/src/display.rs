//! main display module

use vstd::prelude::*;
use crate::command::{lemma_transfers_of_split, transfers_of, Command};
use crate::framebuffer::{
    byte_index, fill_byte, in_bounds, lemma_write_then_read, pixel_of, with_pixel, Framebuffer,
    BUFFER_SIZE, DISPLAY_HEIGHT, DISPLAY_WIDTH, ROW_BYTES,
};
use crate::interface::{
    cut_short, lemma_cut_short_at_start, lemma_cut_short_within, Bus, DisplayError, Transfer,
    WriteOnlyDataCommand,
};
use crate::pixel::{Gray4, Pixel};
use crate::region::{
    lemma_region_of_push, region_fits, region_of, touched, DirtyRegion, DirtyRegionTracker,
};
use crate::reset::{DelayMs, OutputPin, ResetLine, ResetStep};

verus! {

/// What the driver holds in memory: the desired image and the bookkeeping of
/// what changed since the last partial flush.
pub ghost struct Canvas {
    /// The framebuffer, row by row, two pixels per byte.
    pub bytes: Seq<u8>,
    /// The rectangle of bytes that changed; `None` where nothing changed.
    pub region: Option<DirtyRegion>,
    /// How many writes changed a byte, counted up to `u16::MAX`.
    pub changed: u16,
}

impl Canvas {
    /// The canvas of a new driver: all black, nothing changed.
    pub open spec fn blank() -> Canvas {
        Canvas { bytes: Seq::new(BUFFER_SIZE as nat, |i: int| 0u8), region: None, changed: 0 }
    }

    /// Whether drawing `pixel` changes the canvas: its position is on the
    /// grid and holds another gray value.
    pub open spec fn changed_by(self, pixel: Pixel) -> bool {
        in_bounds(pixel.0.x as int, pixel.0.y as int) && pixel_of(
            self.bytes,
            pixel.0.x as int,
            pixel.0.y as int,
        ) != pixel.1@
    }

    /// The canvas after `pixel` is drawn. A pixel that changes the canvas is
    /// stored, its byte is touched and the count goes up; any other pixel
    /// leaves the canvas as it is.
    pub open spec fn drawn(self, pixel: Pixel) -> Canvas {
        if self.changed_by(pixel) {
            Canvas {
                bytes: with_pixel(self.bytes, pixel.0.x as int, pixel.0.y as int, pixel.1@),
                region: touched(self.region, (pixel.0.x / 2) as u8, pixel.0.y as u8),
                changed: if self.changed < u16::MAX {
                    (self.changed + 1) as u16
                } else {
                    self.changed
                },
            }
        } else {
            self
        }
    }

    /// The canvas after `pixels` are drawn one after another.
    pub open spec fn drawn_all(self, pixels: Seq<Pixel>) -> Canvas
        decreases pixels.len(),
    {
        if pixels.len() == 0 {
            self
        } else {
            self.drawn_all(pixels.drop_last()).drawn(pixels.last())
        }
    }

    /// The bytes that are touched while `pixels` are drawn one after
    /// another, each as its column-byte and its row: one for every pixel
    /// that changes the canvas when its turn comes.
    pub open spec fn touches(self, pixels: Seq<Pixel>) -> Seq<(u8, u8)>
        decreases pixels.len(),
    {
        if pixels.len() == 0 {
            Seq::empty()
        } else if self.drawn_all(pixels.drop_last()).changed_by(pixels.last()) {
            self.touches(pixels.drop_last()).push(
                ((pixels.last().0.x / 2) as u8, pixels.last().0.y as u8),
            )
        } else {
            self.touches(pixels.drop_last())
        }
    }
}

/// What the controller adds to a column address: its RAM is wider than the
/// panel, and the panel's first column sits at this address.
pub const COLUMN_OFFSET: u8 = 0x1C;

/// The first column-byte of the window that a partial flush sends for `r`:
/// the least column-byte of `r`, rounded down to an even one.
pub open spec fn window_start(r: DirtyRegion) -> int {
    r.col_min - r.col_min % 2
}

/// The greatest column-byte of `r`, rounded down to an even one. The window
/// of a partial flush ends with the column-byte after it.
pub open spec fn window_end(r: DirtyRegion) -> int {
    r.col_max - r.col_max % 2
}

/// The number of bytes that a partial flush sends for each row of `r`.
pub open spec fn window_width(r: DirtyRegion) -> int {
    window_end(r) - window_start(r) + 2
}

/// The commands that open the controller's draw window for `r`: the column
/// range in the controller's address units, the row range, and the start of
/// a write to its RAM.
pub open spec fn window_commands(r: DirtyRegion) -> Seq<Command> {
    seq![
        Command::SetColumnAddress(
            (window_start(r) / 2 + COLUMN_OFFSET) as u8,
            (window_end(r) / 2 + COLUMN_OFFSET) as u8,
        ),
        Command::SetRowAddress(r.row_min, r.row_max),
        Command::WriteRAM,
    ]
}

/// The bytes of row `row` that lie in the window of `r`.
pub open spec fn window_row(bytes: Seq<u8>, r: DirtyRegion, row: int) -> Seq<u8> {
    bytes.subrange(
        window_start(r) + row * ROW_BYTES,
        window_start(r) + row * ROW_BYTES + window_width(r),
    )
}

/// One data transfer for each row of `r`, from the top down.
pub open spec fn window_rows(bytes: Seq<u8>, r: DirtyRegion) -> Seq<Transfer> {
    Seq::new(
        (r.row_max - r.row_min + 1) as nat,
        |k: int| Transfer::Data(window_row(bytes, r, r.row_min + k)),
    )
}

/// The bus traffic of a partial flush: nothing where nothing changed; else
/// the window commands, then the rows of the window.
pub open spec fn flush_transfers(canvas: Canvas) -> Seq<Transfer> {
    match canvas.region {
        None => Seq::empty(),
        Some(r) => transfers_of(window_commands(r)) + window_rows(canvas.bytes, r),
    }
}

/// The commands that open the draw window for the whole panel.
pub open spec fn full_window_commands() -> Seq<Command> {
    seq![
        Command::SetColumnAddress(0x1C, 0x5B),
        Command::SetRowAddress(0x00, 0x3F),
        Command::WriteRAM,
    ]
}

/// The bus traffic of a full flush: the commands for the whole panel, then
/// the whole framebuffer in one data transfer.
pub open spec fn flush_all_transfers(bytes: Seq<u8>) -> Seq<Transfer> {
    transfers_of(full_window_commands()).push(Transfer::Data(bytes))
}

/// The commands that set the controller up, in the order that its data
/// sheet prescribes.
pub open spec fn init_commands() -> Seq<Command> {
    seq![
        Command::Unlock,
        Command::DisplayOff,
        Command::SetColumnAddress(0x1C, 0x5B),
        Command::SetRowAddress(0x00, 0x3F),
        Command::SetDisplayClock(0x91),
        Command::SetMuxRatio(0x3F),
        Command::SetDisplayOffset(0x00),
        Command::SetStartLine(0x00),
        Command::SetRemapFormat(0x14, 0x11),
        Command::SetGPIO(0x00),
        Command::SetFunctionSelection(0x01),
        Command::SetDisplayEnhancementA(0xA0, 0xFD),
        Command::SetDisplayEnhancementB(0xA2, 0x20),
        Command::SetContrastCurrent(0xCF),
        Command::SetMasterCurrent(0x0F),
        Command::SetLinearGrayScaleTable,
        Command::SetPhaseLength(0xE2),
        Command::SetPrechargeVoltage(0x1F),
        Command::SetPrechargePeriod(0x08),
        Command::SetVCOMH(0x07),
        Command::NormalDisplayMode,
        Command::DisplayOn,
    ]
}

/// The steps of a reset: the line low for 10 ms, then high for 200 ms.
pub open spec fn reset_steps() -> Seq<ResetStep> {
    seq![ResetStep::Low, ResetStep::Wait(10), ResetStep::High, ResetStep::Wait(200)]
}

/// The window of a partial flush starts and ends on an even column-byte,
/// covers every column-byte of the region, and stays within the row.
pub proof fn lemma_window_covers(r: DirtyRegion)
    requires
        region_fits(Some(r)),
    ensures
        window_start(r) % 2 == 0,
        window_end(r) % 2 == 0,
        0 <= window_start(r) <= r.col_min,
        r.col_max <= window_end(r) + 1,
        window_width(r) == window_end(r) - window_start(r) + 2,
        2 <= window_width(r),
        window_start(r) + window_width(r) <= ROW_BYTES,
        forall|col: int, row: int|
            r.contains(col, row) ==> window_start(r) <= col < window_start(r) + window_width(r),
{
}

/// Drawing a pixel off the grid changes nothing: not the image, not the
/// bounding box, not the count of changes.
pub proof fn lemma_draw_off_grid(canvas: Canvas, pixel: Pixel)
    requires
        !in_bounds(pixel.0.x as int, pixel.0.y as int),
    ensures
        canvas.drawn(pixel) == canvas,
{
}

/// A pixel of the grid that was drawn reads back with its gray value, and
/// every other pixel of the grid reads as before.
pub proof fn lemma_draw_then_read(canvas: Canvas, pixel: Pixel)
    requires
        canvas.bytes.len() == BUFFER_SIZE,
        in_bounds(pixel.0.x as int, pixel.0.y as int),
        pixel.1@ <= 15,
    ensures
        pixel_of(canvas.drawn(pixel).bytes, pixel.0.x as int, pixel.0.y as int) == pixel.1@,
        forall|x: int, y: int|
            in_bounds(x, y) && (x != pixel.0.x || y != pixel.0.y) ==> #[trigger] pixel_of(
                canvas.drawn(pixel).bytes,
                x,
                y,
            ) == pixel_of(canvas.bytes, x, y),
{
    lemma_write_then_read(canvas.bytes, pixel.0.x as int, pixel.0.y as int, pixel.1@);
}

/// The bounding box covers what changed. After any series of pixels is
/// drawn, the image has kept its size, the bounding box lies on the grid and
/// has not shrunk, and every byte that differs from what the image held
/// before lies in it.
pub proof fn lemma_changes_within_region(canvas: Canvas, pixels: Seq<Pixel>)
    requires
        canvas.bytes.len() == BUFFER_SIZE,
        region_fits(canvas.region),
    ensures
        canvas.drawn_all(pixels).bytes.len() == BUFFER_SIZE,
        region_fits(canvas.drawn_all(pixels).region),
        canvas.region is Some ==> canvas.drawn_all(pixels).region is Some,
        forall|col: int, row: int|
            canvas.region is Some && canvas.region->0.contains(col, row)
                ==> #[trigger] canvas.drawn_all(pixels).region->0.contains(col, row),
        forall|i: int|
            0 <= i < BUFFER_SIZE && #[trigger] canvas.drawn_all(pixels).bytes[i] != canvas.bytes[i]
                ==> canvas.drawn_all(pixels).region is Some && canvas.drawn_all(
                pixels,
            ).region->0.contains(i % (ROW_BYTES as int), i / (ROW_BYTES as int)),
    decreases pixels.len(),
{
    if pixels.len() > 0 {
        let before = canvas.drawn_all(pixels.drop_last());
        let pixel = pixels.last();
        let after = before.drawn(pixel);
        lemma_changes_within_region(canvas, pixels.drop_last());
        assert(after == canvas.drawn_all(pixels));
        assert forall|col: int, row: int|
            canvas.region is Some && canvas.region->0.contains(
                col,
                row,
            ) implies #[trigger] after.region->0.contains(col, row) by {
            assert(before.region->0.contains(col, row));
        }
        if before.changed_by(pixel) {
            let x = pixel.0.x as int;
            let y = pixel.0.y as int;
            let index = byte_index(x, y);
            assert(index % (ROW_BYTES as int) == x / 2 && index / (ROW_BYTES as int) == y);
            assert(after.region->0.contains(x / 2, y));
            assert forall|i: int|
                0 <= i < BUFFER_SIZE && #[trigger] after.bytes[i]
                    != canvas.bytes[i] implies after.region is Some && after.region->0.contains(
                i % (ROW_BYTES as int),
                i / (ROW_BYTES as int),
            ) by {
                if i != index {
                    assert(after.bytes[i] == before.bytes[i]);
                    assert(before.region->0.contains(
                        i % (ROW_BYTES as int),
                        i / (ROW_BYTES as int),
                    ));
                }
            }
        }
    }
}

/// The bounding box is tight. Starting with nothing changed, the bounding
/// box after any series of pixels is drawn is the region of the bytes that
/// were touched on the way; which is their bounding box, whatever the order.
pub proof fn lemma_region_of_touches(canvas: Canvas, pixels: Seq<Pixel>)
    requires
        canvas.region is None,
    ensures
        canvas.drawn_all(pixels).region == region_of(canvas.touches(pixels)),
    decreases pixels.len(),
{
    if pixels.len() > 0 {
        lemma_region_of_touches(canvas, pixels.drop_last());
        if canvas.drawn_all(pixels.drop_last()).changed_by(pixels.last()) {
            lemma_region_of_push(
                canvas.touches(pixels.drop_last()),
                (pixels.last().0.x / 2) as u8,
                pixels.last().0.y as u8,
            );
        }
    }
}

/// A partial flush leaves no change out. After any series of pixels is
/// drawn on a canvas with nothing changed before, every byte that differs
/// from what the image held lies in a row that the flush sends, and is one
/// of the bytes sent for that row.
pub proof fn lemma_flush_sends_changes(canvas: Canvas, pixels: Seq<Pixel>, i: int)
    requires
        canvas.bytes.len() == BUFFER_SIZE,
        canvas.region is None,
        0 <= i < BUFFER_SIZE,
        canvas.drawn_all(pixels).bytes[i] != canvas.bytes[i],
    ensures
        canvas.drawn_all(pixels).region matches Some(r) && {
            let row = i / (ROW_BYTES as int);
            let col = i % (ROW_BYTES as int);
            &&& r.row_min <= row <= r.row_max
            &&& window_start(r) <= col < window_start(r) + window_width(r)
            &&& flush_transfers(canvas.drawn_all(pixels))[5 + (row - r.row_min)] == Transfer::Data(
                window_row(canvas.drawn_all(pixels).bytes, r, row),
            )
            &&& window_row(canvas.drawn_all(pixels).bytes, r, row)[col - window_start(r)]
                == canvas.drawn_all(pixels).bytes[i]
        },
{
    let after = canvas.drawn_all(pixels);
    lemma_changes_within_region(canvas, pixels);
    let r = after.region->0;
    let row = i / (ROW_BYTES as int);
    let col = i % (ROW_BYTES as int);
    assert(r.contains(col, row));
    lemma_window_covers(r);
    lemma_flush_traffic(after);
    assert(flush_transfers(after)[5 + (row - r.row_min)] == Transfer::Data(
        window_row(after.bytes, r, r.row_min + (row - r.row_min)),
    ));
    assert(window_start(r) + row * ROW_BYTES + (col - window_start(r)) == i);
}

/// A full flush sends the window of the whole panel and then the whole
/// framebuffer, whatever the bounding box holds.
pub proof fn lemma_flush_all_traffic(bytes: Seq<u8>)
    ensures
        flush_all_transfers(bytes) == seq![
            Transfer::Command(seq![0x15u8]),
            Transfer::Data(seq![0x1Cu8, 0x5Bu8]),
            Transfer::Command(seq![0x75u8]),
            Transfer::Data(seq![0x00u8, 0x3Fu8]),
            Transfer::Command(seq![0x5Cu8]),
            Transfer::Data(bytes),
        ],
{
    lemma_window_traffic(0x1C, 0x5B, 0x00, 0x3F);
    assert(flush_all_transfers(bytes) =~= seq![
        Transfer::Command(seq![0x15u8]),
        Transfer::Data(seq![0x1Cu8, 0x5Bu8]),
        Transfer::Command(seq![0x75u8]),
        Transfer::Data(seq![0x00u8, 0x3Fu8]),
        Transfer::Command(seq![0x5Cu8]),
        Transfer::Data(bytes),
    ]);
}

/// The traffic of the three commands that open a draw window.
proof fn lemma_window_traffic(col_start: u8, col_end: u8, row_start: u8, row_end: u8)
    ensures
        transfers_of(
            seq![
                Command::SetColumnAddress(col_start, col_end),
                Command::SetRowAddress(row_start, row_end),
                Command::WriteRAM,
            ],
        ) == seq![
            Transfer::Command(seq![0x15u8]),
            Transfer::Data(seq![col_start, col_end]),
            Transfer::Command(seq![0x75u8]),
            Transfer::Data(seq![row_start, row_end]),
            Transfer::Command(seq![0x5Cu8]),
        ],
{
    let cmds = seq![
        Command::SetColumnAddress(col_start, col_end),
        Command::SetRowAddress(row_start, row_end),
        Command::WriteRAM,
    ];
    reveal_with_fuel(transfers_of, 4);
    assert(cmds.drop_last() =~= seq![
        Command::SetColumnAddress(col_start, col_end),
        Command::SetRowAddress(row_start, row_end),
    ]);
    assert(cmds.drop_last().drop_last() =~= seq![Command::SetColumnAddress(col_start, col_end)]);
    assert(cmds.drop_last().drop_last().drop_last() =~= Seq::<Command>::empty());
    assert(Command::SetColumnAddress(col_start, col_end).params() =~= seq![col_start, col_end]);
    assert(Command::SetRowAddress(row_start, row_end).params() =~= seq![row_start, row_end]);
    assert(transfers_of(cmds) =~= seq![
        Transfer::Command(seq![0x15u8]),
        Transfer::Data(seq![col_start, col_end]),
        Transfer::Command(seq![0x75u8]),
        Transfer::Data(seq![row_start, row_end]),
        Transfer::Command(seq![0x5Cu8]),
    ]);
}

/// What a partial flush sends. Where nothing changed it sends nothing. Else
/// it sends the column range of the window in the controller's address
/// units, the row range and the start of a write, each as a command with its
/// parameters as data, and then one data transfer for each row of the
/// region, from the top down, each with the bytes of the window in that row:
/// as many as the window is wide.
pub proof fn lemma_flush_traffic(canvas: Canvas)
    requires
        canvas.bytes.len() == BUFFER_SIZE,
        region_fits(canvas.region),
    ensures
        canvas.region is None ==> flush_transfers(canvas) == Seq::<Transfer>::empty(),
        canvas.region matches Some(r) ==> {
            &&& flush_transfers(canvas).len() == 5 + (r.row_max - r.row_min + 1)
            &&& flush_transfers(canvas).take(5) == seq![
                Transfer::Command(seq![0x15u8]),
                Transfer::Data(
                    seq![
                        (window_start(r) / 2 + COLUMN_OFFSET) as u8,
                        (window_end(r) / 2 + COLUMN_OFFSET) as u8,
                    ],
                ),
                Transfer::Command(seq![0x75u8]),
                Transfer::Data(seq![r.row_min, r.row_max]),
                Transfer::Command(seq![0x5Cu8]),
            ]
            &&& forall|k: int|
                0 <= k <= r.row_max - r.row_min ==> #[trigger] flush_transfers(canvas)[5 + k]
                    == Transfer::Data(window_row(canvas.bytes, r, r.row_min + k))
                    && window_row(canvas.bytes, r, r.row_min + k).len() == window_width(r)
        },
{
    if let Some(r) = canvas.region {
        lemma_window_covers(r);
        lemma_window_traffic(
            (window_start(r) / 2 + COLUMN_OFFSET) as u8,
            (window_end(r) / 2 + COLUMN_OFFSET) as u8,
            r.row_min,
            r.row_max,
        );
        let header = transfers_of(window_commands(r));
        let rows = window_rows(canvas.bytes, r);
        assert(header.len() == 5);
        assert(flush_transfers(canvas).take(5) =~= header);
        assert forall|k: int| 0 <= k <= r.row_max - r.row_min implies #[trigger] flush_transfers(
            canvas,
        )[5 + k] == Transfer::Data(window_row(canvas.bytes, r, r.row_min + k)) && window_row(
            canvas.bytes,
            r,
            r.row_min + k,
        ).len() == window_width(r) by {
            assert(flush_transfers(canvas)[5 + k] == rows[k]);
            assert(ROW_BYTES == 128 && BUFFER_SIZE == 8192);
        }
    }
}

/// Represents the SSD1322 Display.
///
/// Use this struct to initialize the driver.
pub struct Ssd1322<DI> {
    display: Bus<DI>,
    buffer: Framebuffer,
    bounding_box: DirtyRegionTracker,
    num_changed: u16,
}

/// Provides an optimized way to capture changes to the framebuffer.
pub trait BoundingBox {
    /// The region that changed, in bytes; `None` where nothing changed.
    spec fn region(&self) -> Option<DirtyRegion>;

    /// Updates the bounding box to cover the byte of pixel `(x, y)`. The
    /// bounding box unit is in bytes.
    fn update_box(&mut self, x: u8, y: u8)
        requires
            (y as int) < DISPLAY_HEIGHT,
        ensures
            final(self).region() == touched(old(self).region(), x / 2, y),
    ;
}

impl<DI> Ssd1322<DI> {
    /// The image and the bookkeeping that the driver holds.
    pub closed spec fn canvas(&self) -> Canvas {
        Canvas { bytes: self.buffer@, region: self.bounding_box@, changed: self.num_changed }
    }

    /// The transfers that the bus has accepted from this driver, oldest first.
    pub closed spec fn sent(&self) -> Seq<Transfer> {
        self.display.sent()
    }

    /// The error of the last transfer that failed; `None` where none has.
    pub closed spec fn failed(&self) -> Option<DisplayError> {
        self.display.failed()
    }
}

impl<DI: WriteOnlyDataCommand> Ssd1322<DI> {
    /// Creates the SSD1322 Display.
    ///
    /// The device needs to be reset before use.
    pub fn new(display: DI) -> (disp: Self)
        ensures
            disp.canvas() == Canvas::blank(),
            disp.sent() == Seq::<Transfer>::empty(),
            disp.failed() is None,
    {
        Self {
            display: Bus::new(display),
            buffer: Framebuffer::new(),
            bounding_box: DirtyRegionTracker::new(),
            num_changed: 0,
        }
    }

    /// Allows to send custom commands to the display.
    pub fn send_command(&mut self, command: Command) -> (r: Result<(), DisplayError>)
        ensures
            r is Ok ==> final(self).sent() == old(self).sent() + command.transfers(),
            r is Err ==> cut_short(old(self).sent(), final(self).sent(), command.transfers()),
            r is Ok ==> final(self).failed() == old(self).failed(),
            r matches Err(e) ==> final(self).failed() == Some(e),
            final(self).canvas() == old(self).canvas(),
    {
        command.send(&mut self.display)
    }

    /// Sends `cmds` one after another and stops at the first failure.
    fn send_sequence(&mut self, cmds: &[Command]) -> (r: Result<(), DisplayError>)
        ensures
            r is Ok ==> final(self).sent() == old(self).sent() + transfers_of(cmds@),
            r is Err ==> cut_short(old(self).sent(), final(self).sent(), transfers_of(cmds@)),
            r is Ok ==> final(self).failed() == old(self).failed(),
            r matches Err(e) ==> final(self).failed() == Some(e),
            final(self).canvas() == old(self).canvas(),
    {
        let n: usize = cmds.len();
        let mut i: usize = 0;
        while i < n
            invariant
                n == cmds@.len(),
                i <= n,
                self.sent() == old(self).sent() + transfers_of(cmds@.take(i as int)),
                self.failed() == old(self).failed(),
                self.canvas() == old(self).canvas(),
            decreases n - i,
        {
            let ghost done = transfers_of(cmds@.take(i as int));
            proof {
                lemma_transfers_of_split(cmds@, i as int);
            }
            match self.send_command(cmds[i]) {
                Ok(()) => {
                    assert(self.sent() =~= old(self).sent() + transfers_of(
                        cmds@.take(i as int + 1),
                    ));
                },
                Err(e) => {
                    proof {
                        lemma_cut_short_within(
                            old(self).sent(),
                            self.sent(),
                            done,
                            cmds@[i as int].transfers(),
                            transfers_of(cmds@.skip(i as int + 1)),
                        );
                    }
                    return Err(e);
                },
            }
            i += 1;
        }
        assert(cmds@.take(n as int) =~= cmds@);
        Ok(())
    }

    /// Resets the display: drives the reset line low, waits 10 ms, drives it
    /// high and waits 200 ms. This has to happen before `init`.
    ///
    /// A failure of the pin ends the reset at once and is reported as
    /// `BusWriteError`. Neither the canvas nor the bus is touched.
    pub fn reset<RST: OutputPin, DELAY: DelayMs>(
        &mut self,
        line: &mut ResetLine<RST, DELAY>,
    ) -> (r: Result<(), DisplayError>)
        ensures
            r is Ok ==> final(line).steps() == old(line).steps() + reset_steps(),
            r is Ok ==> final(line).failed() == old(line).failed(),
            r is Err ==> r == Err::<(), DisplayError>(DisplayError::BusWriteError),
            r is Err ==> final(line).failed() is Some,
            r is Err ==> final(line).steps() == old(line).steps() || final(line).steps() == old(
                line,
            ).steps() + reset_steps().take(2),
            final(self).canvas() == old(self).canvas(),
            final(self).sent() == old(self).sent(),
            final(self).failed() == old(self).failed(),
    {
        match line.set_low() {
            Ok(()) => {},
            Err(_) => {
                return Err(DisplayError::BusWriteError);
            },
        }
        line.delay_ms(10);
        assert(line.steps() =~= old(line).steps() + reset_steps().take(2));

        match line.set_high() {
            Ok(()) => {},
            Err(_) => {
                return Err(DisplayError::BusWriteError);
            },
        }
        line.delay_ms(200);
        assert(line.steps() =~= old(line).steps() + reset_steps());

        Ok(())
    }

    /// Initializes the display: sends the setup commands in their order and
    /// stops at the first one that fails.
    pub fn init(&mut self) -> (r: Result<(), DisplayError>)
        ensures
            r is Ok ==> final(self).sent() == old(self).sent() + transfers_of(init_commands()),
            r is Err ==> cut_short(
                old(self).sent(),
                final(self).sent(),
                transfers_of(init_commands()),
            ),
            r is Ok ==> final(self).failed() == old(self).failed(),
            r matches Err(e) ==> final(self).failed() == Some(e),
            final(self).canvas() == old(self).canvas(),
    {
        let cmds: [Command; 22] = [
            Command::Unlock,
            Command::DisplayOff,
            Command::SetColumnAddress(0x1C, 0x5B),
            Command::SetRowAddress(0x00, 0x3F),
            Command::SetDisplayClock(0x91),
            Command::SetMuxRatio(0x3F),
            Command::SetDisplayOffset(0x00),
            Command::SetStartLine(0x00),
            Command::SetRemapFormat(0x14, 0x11),
            Command::SetGPIO(0x00),
            Command::SetFunctionSelection(0x01),
            Command::SetDisplayEnhancementA(0xA0, 0xFD),
            Command::SetDisplayEnhancementB(0xA2, 0x20),
            Command::SetContrastCurrent(0xCF),
            Command::SetMasterCurrent(0x0F),
            Command::SetLinearGrayScaleTable,
            Command::SetPhaseLength(0xE2),
            Command::SetPrechargeVoltage(0x1F),
            Command::SetPrechargePeriod(0x08),
            Command::SetVCOMH(0x07),
            Command::NormalDisplayMode,
            Command::DisplayOn,
        ];
        assert(cmds@ =~= init_commands());
        self.send_sequence(cmds.as_slice())
    }

    /// Flushes the entire display, and makes the output visible on the screen.
    ///
    /// The window is set to the whole panel and the whole framebuffer is sent
    /// in one data transfer, whatever the bounding box holds; the bounding
    /// box is left as it is.
    pub fn flush_all(&mut self) -> (r: Result<(), DisplayError>)
        ensures
            r is Ok ==> final(self).sent() == old(self).sent() + flush_all_transfers(
                old(self).canvas().bytes,
            ),
            r is Err ==> cut_short(
                old(self).sent(),
                final(self).sent(),
                flush_all_transfers(old(self).canvas().bytes),
            ),
            r is Ok ==> final(self).failed() == old(self).failed(),
            r matches Err(e) ==> final(self).failed() == Some(e),
            final(self).canvas() == old(self).canvas(),
    {
        let cmds: [Command; 3] = [
            Command::SetColumnAddress(0x1C, 0x5B),
            Command::SetRowAddress(0x00, 0x3F),
            Command::WriteRAM,
        ];
        assert(cmds@ =~= full_window_commands());
        let ghost header = transfers_of(full_window_commands());
        let ghost image = seq![Transfer::Data(self.canvas().bytes)];
        assert(flush_all_transfers(self.canvas().bytes) =~= header + image);
        match self.send_sequence(cmds.as_slice()) {
            Ok(()) => {},
            Err(e) => {
                proof {
                    lemma_cut_short_at_start(
                        old(self).sent(),
                        self.sent(),
                        header,
                        image,
                    );
                }
                return Err(e);
            },
        }
        match self.display.send_data(self.buffer.as_bytes().as_slice()) {
            Ok(()) => {
                assert(self.sent() =~= old(self).sent() + (header + image));
                Ok(())
            },
            Err(e) => {
                proof {
                    assert((header + image).take(header.len() as int) =~= header);
                }
                Err(e)
            },
        }
    }

    /// Flushes only the changed portion of the display.
    ///
    /// Where nothing changed, nothing is sent. Else the window commands are
    /// sent, then the bytes of the window row by row, one data transfer for
    /// each row. When all of it went through, the bounding box and the count
    /// of changes are reset; at the first failure the flush stops and leaves
    /// both as they were, so that the next flush sends the same window again.
    pub fn flush(&mut self) -> (r: Result<(), DisplayError>)
        ensures
            r is Ok ==> final(self).sent() == old(self).sent() + flush_transfers(
                old(self).canvas(),
            ),
            r is Ok ==> final(self).canvas() == (Canvas {
                bytes: old(self).canvas().bytes,
                region: None,
                changed: if old(self).canvas().region is Some {
                    0
                } else {
                    old(self).canvas().changed
                },
            }),
            r is Err ==> cut_short(
                old(self).sent(),
                final(self).sent(),
                flush_transfers(old(self).canvas()),
            ),
            r is Ok ==> final(self).failed() == old(self).failed(),
            r matches Err(e) ==> final(self).failed() == Some(e),
            r is Err ==> final(self).canvas() == old(self).canvas(),
            old(self).canvas().region is None ==> r is Ok,
    {
        let r: DirtyRegion = match self.bounding_box.region() {
            None => {
                assert(old(self).sent() + flush_transfers(old(self).canvas()) =~= old(
                    self,
                ).sent());
                return Ok(());
            },
            Some(r) => r,
        };
        proof {
            lemma_window_covers(r);
            self.buffer.lemma_len();
        }
        let col_start: u8 = r.col_min - r.col_min % 2;
        let col_end: u8 = r.col_max - r.col_max % 2;
        let num_col_bytes: usize = (col_end - col_start + 2) as usize;

        // Convert bytes to column address
        let cmds: [Command; 3] = [
            Command::SetColumnAddress(col_start / 2 + COLUMN_OFFSET, col_end / 2 + COLUMN_OFFSET),
            Command::SetRowAddress(r.row_min, r.row_max),
            Command::WriteRAM,
        ];
        assert(cmds@ =~= window_commands(r));
        let ghost header = transfers_of(window_commands(r));
        let ghost rows = window_rows(self.canvas().bytes, r);
        let ghost plan = flush_transfers(self.canvas());
        assert(plan == header + rows);
        match self.send_sequence(cmds.as_slice()) {
            Ok(()) => {},
            Err(e) => {
                proof {
                    lemma_cut_short_at_start(
                        old(self).sent(),
                        self.sent(),
                        header,
                        rows,
                    );
                }
                return Err(e);
            },
        }
        let mut row: u8 = r.row_min;
        while row <= r.row_max
            invariant
                ROW_BYTES == 128,
                (r.row_max as int) < DISPLAY_HEIGHT,
                r.row_min <= row <= r.row_max + 1,
                col_start == window_start(r),
                num_col_bytes == window_width(r),
                window_start(r) + window_width(r) <= ROW_BYTES,
                self.canvas() == old(self).canvas(),
                self.canvas().bytes.len() == BUFFER_SIZE,
                rows == window_rows(old(self).canvas().bytes, r),
                plan == header + rows,
                plan == flush_transfers(old(self).canvas()),
                self.sent() == old(self).sent() + (header + rows.take(row - r.row_min)),
                self.failed() == old(self).failed(),
            decreases r.row_max + 1 - row,
        {
            let start_col_byte: usize = col_start as usize + row as usize * ROW_BYTES;
            let end_col_byte: usize = start_col_byte + num_col_bytes;
            let ghost k = row - r.row_min;
            match self.display.send_data(
                vstd::slice::slice_subrange(
                    self.buffer.as_bytes().as_slice(),
                    start_col_byte,
                    end_col_byte,
                ),
            ) {
                Ok(()) => {
                    proof {
                        assert(rows[k] == Transfer::Data(
                            window_row(old(self).canvas().bytes, r, row as int),
                        ));
                        assert(rows.take(k + 1) =~= rows.take(k).push(rows[k]));
                        assert(self.sent() =~= old(self).sent() + (header + rows.take(k + 1)));
                    }
                },
                Err(e) => {
                    proof {
                        assert(plan.take(header.len() + k) =~= header + rows.take(k));
                    }
                    return Err(e);
                },
            }
            row += 1;
        }

        // Reset the bounding_box
        self.bounding_box.reset();
        self.num_changed = 0;
        proof {
            assert(rows.take(r.row_max + 1 - r.row_min) =~= rows);
        }
        Ok(())
    }

    /// Draws one pixel: stores its gray value and, where that changed a byte
    /// of the framebuffer, widens the bounding box to cover the byte. A pixel
    /// off the grid is discarded. Nothing is sent.
    pub fn draw_pixel(&mut self, pixel: Pixel)
        ensures
            final(self).canvas() == old(self).canvas().drawn(pixel),
            final(self).sent() == old(self).sent(),
            final(self).failed() == old(self).failed(),
            !in_bounds(pixel.0.x as int, pixel.0.y as int) ==> final(self).canvas() == old(
                self,
            ).canvas(),
    {
        let Pixel(coord, color) = pixel;
        if self.buffer.set_pixel(coord.x, coord.y, color) {
            if self.num_changed < u16::MAX {
                self.num_changed += 1;
            }
            self.bounding_box.touch((coord.x / 2) as u8, coord.y as u8);
        }
    }

    /// Draws the pixels of `pixels` in order. Nothing is sent.
    pub fn draw_iter(&mut self, pixels: &[Pixel])
        ensures
            final(self).canvas() == old(self).canvas().drawn_all(pixels@),
            final(self).sent() == old(self).sent(),
            final(self).failed() == old(self).failed(),
    {
        let n: usize = pixels.len();
        let mut i: usize = 0;
        while i < n
            invariant
                n == pixels@.len(),
                i <= n,
                self.canvas() == old(self).canvas().drawn_all(pixels@.take(i as int)),
                self.sent() == old(self).sent(),
                self.failed() == old(self).failed(),
            decreases n - i,
        {
            proof {
                assert(pixels@.take(i + 1).drop_last() =~= pixels@.take(i as int));
                assert(pixels@.take(i + 1).last() == pixels@[i as int]);
            }
            self.draw_pixel(pixels[i]);
            i += 1;
        }
        assert(pixels@.take(n as int) =~= pixels@);
    }

    /// Sets every pixel to `fill`. The bounding box is left as it is: a full
    /// flush is what brings a cleared image to the display.
    pub fn clear(&mut self, fill: Gray4)
        ensures
            final(self).canvas().bytes == Seq::new(BUFFER_SIZE as nat, |i: int| fill_byte(fill@)),
            final(self).canvas().region == old(self).canvas().region,
            final(self).canvas().changed == old(self).canvas().changed,
            final(self).sent() == old(self).sent(),
            final(self).failed() == old(self).failed(),
    {
        self.buffer.clear(fill);
    }

    /// The size of the pixel grid: its width, then its height.
    pub fn size(&self) -> (size: (u32, u32))
        ensures
            size.0 == DISPLAY_WIDTH,
            size.1 == DISPLAY_HEIGHT,
    {
        (DISPLAY_WIDTH as u32, DISPLAY_HEIGHT as u32)
    }

    /// The bytes of the framebuffer, row by row.
    pub fn buffer(&self) -> (bytes: &[u8; BUFFER_SIZE])
        ensures
            bytes@ == self.canvas().bytes,
    {
        self.buffer.as_bytes()
    }

    /// The bounding box of what changed since the last partial flush: first
    /// the least and the greatest column-byte, then the least and the
    /// greatest row. `None` where nothing changed.
    pub fn bounding_box(&self) -> (bounds: Option<([u8; 2], [u8; 2])>)
        ensures
            region_fits(self.canvas().region),
            bounds is Some == self.canvas().region is Some,
            bounds matches Some((cols, rows)) ==> self.canvas().region == Some(
                DirtyRegion {
                    col_min: cols@[0],
                    col_max: cols@[1],
                    row_min: rows@[0],
                    row_max: rows@[1],
                },
            ),
    {
        match self.bounding_box.region() {
            Some(r) => Some(([r.col_min, r.col_max], [r.row_min, r.row_max])),
            None => None,
        }
    }

    /// How many writes changed a byte since the last partial flush, counted
    /// up to `u16::MAX`.
    pub fn num_changed(&self) -> (count: u16)
        ensures
            count == self.canvas().changed,
    {
        self.num_changed
    }
}

impl<DI> BoundingBox for Ssd1322<DI> {
    open spec fn region(&self) -> Option<DirtyRegion> {
        self.canvas().region
    }

    fn update_box(&mut self, x: u8, y: u8)
        ensures
            final(self).canvas() == (Canvas {
                region: touched(old(self).canvas().region, x / 2, y),
                ..old(self).canvas()
            }),
            final(self).sent() == old(self).sent(),
            final(self).failed() == old(self).failed(),
    {
        self.bounding_box.touch(x / 2, y);
    }
}

} // verus!

//! The packed framebuffer: two horizontally adjacent 4-bit pixels per byte,
//! the left one in the high nibble, rows one after another.

use vstd::prelude::*;
use crate::pixel::Gray4;

verus! {

/// Number of pixel columns.
pub const DISPLAY_WIDTH: usize = 256;

/// Number of pixel rows.
pub const DISPLAY_HEIGHT: usize = 64;

/// Number of bytes in a row of the framebuffer.
pub const ROW_BYTES: usize = DISPLAY_WIDTH / 2;

/// Number of bytes in the framebuffer.
pub const BUFFER_SIZE: usize = DISPLAY_WIDTH * DISPLAY_HEIGHT / 2;

/// Whether `(x, y)` is a pixel of the grid.
pub open spec fn in_bounds(x: int, y: int) -> bool {
    0 <= x < DISPLAY_WIDTH && 0 <= y < DISPLAY_HEIGHT
}

/// The index of the byte that holds pixel `(x, y)`.
pub open spec fn byte_index(x: int, y: int) -> int {
    x / 2 + y * (DISPLAY_WIDTH as int / 2)
}

/// `input` with its high nibble replaced by the low four bits of `color`.
pub open spec fn upper_nibble_set(input: u8, color: u8) -> u8 {
    ((color << 4) & 0xF0) | (input & 0x0F)
}

/// `input` with its low nibble replaced by the low four bits of `color`.
pub open spec fn lower_nibble_set(input: u8, color: u8) -> u8 {
    (color & 0x0F) | (input & 0xF0)
}

/// The byte that holds a pixel of column `x` after `luma` is stored in it:
/// an even column lives in the high nibble, an odd one in the low nibble.
pub open spec fn nibble_set(input: u8, x: int, luma: u8) -> u8 {
    if x % 2 == 0 {
        upper_nibble_set(input, luma)
    } else {
        lower_nibble_set(input, luma)
    }
}

/// The gray value that `byte` holds for a pixel of column `x`.
pub open spec fn nibble_get(byte: u8, x: int) -> u8 {
    if x % 2 == 0 {
        byte >> 4
    } else {
        byte & 0x0F
    }
}

/// The gray value of pixel `(x, y)` in a buffer.
pub open spec fn pixel_of(bytes: Seq<u8>, x: int, y: int) -> u8 {
    nibble_get(bytes[byte_index(x, y)], x)
}

/// The buffer after `luma` is written to `(x, y)`: one nibble replaced where
/// the position is on the grid, nothing changed where it is not.
pub open spec fn with_pixel(bytes: Seq<u8>, x: int, y: int, luma: u8) -> Seq<u8> {
    if in_bounds(x, y) {
        bytes.update(byte_index(x, y), nibble_set(bytes[byte_index(x, y)], x, luma))
    } else {
        bytes
    }
}

/// The byte whose two nibbles both hold `luma`.
pub open spec fn fill_byte(luma: u8) -> u8 {
    (luma << 4) | luma
}

/// Replaces the high nibble of `input` by the low four bits of `color`.
#[inline]
pub fn update_upper_nibble(input: u8, color: u8) -> (out: u8)
    ensures
        out == upper_nibble_set(input, color),
{
    ((color << 4) & 0xF0) | (input & 0x0F)
}

/// Replaces the low nibble of `input` by the low four bits of `color`.
#[inline]
pub fn update_lower_nibble(input: u8, color: u8) -> (out: u8)
    ensures
        out == lower_nibble_set(input, color),
{
    color & 0x0F | (input & 0xF0)
}

/// A nibble that was stored is read back, and the other nibble of the byte
/// is left as it was.
pub proof fn lemma_nibble_set_get(input: u8, luma: u8)
    requires
        luma <= 15,
    ensures
        upper_nibble_set(input, luma) >> 4 == luma,
        upper_nibble_set(input, luma) & 0x0F == input & 0x0F,
        lower_nibble_set(input, luma) & 0x0F == luma,
        lower_nibble_set(input, luma) >> 4 == input >> 4,
{
    assert((((luma << 4) & 0xF0) | (input & 0x0F)) >> 4 == luma) by (bit_vector)
        requires
            luma <= 15,
    ;
    assert((((luma << 4) & 0xF0) | (input & 0x0F)) & 0x0F == input & 0x0F) by (bit_vector);
    assert(((luma & 0x0F) | (input & 0xF0)) & 0x0F == luma) by (bit_vector)
        requires
            luma <= 15,
    ;
    assert(((luma & 0x0F) | (input & 0xF0)) >> 4 == input >> 4) by (bit_vector);
}

/// Storing the gray value that a nibble already holds leaves the byte as it
/// is, and storing another one changes it.
pub proof fn lemma_nibble_unchanged(input: u8, luma: u8)
    requires
        luma <= 15,
    ensures
        (upper_nibble_set(input, luma) == input) == (input >> 4 == luma),
        (lower_nibble_set(input, luma) == input) == (input & 0x0F == luma),
{
    assert(((((luma << 4) & 0xF0) | (input & 0x0F)) == input) == (input >> 4 == luma))
        by (bit_vector)
        requires
            luma <= 15,
    ;
    assert((((luma & 0x0F) | (input & 0xF0)) == input) == (input & 0x0F == luma)) by (bit_vector)
        requires
            luma <= 15,
    ;
}

/// Byte `i` of a buffer holds two pixels that lie side by side: pixel
/// `(2 * i % width, 2 * i / width)` in its high nibble and the pixel to the
/// right of it in its low nibble.
pub proof fn lemma_byte_holds_two_pixels(bytes: Seq<u8>, i: int)
    requires
        0 <= i < BUFFER_SIZE,
    ensures
        in_bounds(2 * i % (DISPLAY_WIDTH as int), 2 * i / (DISPLAY_WIDTH as int)),
        in_bounds(2 * i % (DISPLAY_WIDTH as int) + 1, 2 * i / (DISPLAY_WIDTH as int)),
        byte_index(2 * i % (DISPLAY_WIDTH as int), 2 * i / (DISPLAY_WIDTH as int)) == i,
        byte_index(2 * i % (DISPLAY_WIDTH as int) + 1, 2 * i / (DISPLAY_WIDTH as int)) == i,
        pixel_of(bytes, 2 * i % (DISPLAY_WIDTH as int), 2 * i / (DISPLAY_WIDTH as int))
            == bytes[i] >> 4,
        pixel_of(bytes, 2 * i % (DISPLAY_WIDTH as int) + 1, 2 * i / (DISPLAY_WIDTH as int))
            == bytes[i] & 0x0F,
{
}

/// A gray value that was written to a pixel of the grid is read back there,
/// and every other pixel of the grid, the one that shares its byte among
/// them, reads as before.
pub proof fn lemma_write_then_read(bytes: Seq<u8>, x: int, y: int, luma: u8)
    requires
        bytes.len() == BUFFER_SIZE,
        in_bounds(x, y),
        luma <= 15,
    ensures
        with_pixel(bytes, x, y, luma).len() == bytes.len(),
        pixel_of(with_pixel(bytes, x, y, luma), x, y) == luma,
        forall|x2: int, y2: int|
            in_bounds(x2, y2) && (x2 != x || y2 != y) ==> #[trigger] pixel_of(
                with_pixel(bytes, x, y, luma),
                x2,
                y2,
            ) == pixel_of(bytes, x2, y2),
{
    let index = byte_index(x, y);
    let written = with_pixel(bytes, x, y, luma);
    assert(0 <= index < BUFFER_SIZE);
    lemma_nibble_set_get(bytes[index], luma);
    assert forall|x2: int, y2: int| in_bounds(x2, y2) && (x2 != x || y2 != y) implies #[trigger] pixel_of(
        written,
        x2,
        y2,
    ) == pixel_of(bytes, x2, y2) by {
        let other = byte_index(x2, y2);
        assert(0 <= other < BUFFER_SIZE);
        if other == index {
            assert(y2 == y && x2 / 2 == x / 2);
            assert(x2 % 2 != x % 2);
        }
    }
}

/// Writing to a position off the grid changes nothing.
pub proof fn lemma_write_off_grid(bytes: Seq<u8>, x: int, y: int, luma: u8)
    requires
        !in_bounds(x, y),
    ensures
        with_pixel(bytes, x, y, luma) == bytes,
{
}

/// The image that the display is meant to show.
pub struct Framebuffer {
    bytes: [u8; BUFFER_SIZE],
}

impl View for Framebuffer {
    type V = Seq<u8>;

    closed spec fn view(&self) -> Seq<u8> {
        self.bytes@
    }
}

impl Framebuffer {
    /// The buffer always holds one byte for every two pixels of the grid.
    pub broadcast proof fn lemma_len(&self)
        ensures
            #[trigger] self@.len() == BUFFER_SIZE,
    {
    }

    /// Creates a buffer in which every pixel is black.
    pub fn new() -> (fb: Framebuffer)
        ensures
            fb@ == Seq::new(BUFFER_SIZE as nat, |i: int| 0u8),
    {
        let fb = Framebuffer { bytes: [0u8;BUFFER_SIZE] };
        assert(fb@ =~= Seq::new(BUFFER_SIZE as nat, |i: int| 0u8));
        fb
    }

    /// Stores `gray` at `(x, y)`. A position off the grid is ignored.
    /// Returns whether a byte of the buffer now holds another value than before.
    pub fn set_pixel(&mut self, x: i32, y: i32, gray: Gray4) -> (changed: bool)
        ensures
            final(self)@ == with_pixel(old(self)@, x as int, y as int, gray@),
            changed == (final(self)@ != old(self)@),
            changed == (in_bounds(x as int, y as int) && pixel_of(old(self)@, x as int, y as int)
                != gray@),
    {
        if x < 0 || y < 0 || x >= DISPLAY_WIDTH as i32 || y >= DISPLAY_HEIGHT as i32 {
            return false;
        }
        let col: usize = x as usize;
        let row: usize = y as usize;
        let index: usize = col / 2 + row * ROW_BYTES;
        let luma: u8 = gray.luma();
        let stored: u8 = self.bytes[index];
        let new_val: u8 = if col % 2 == 0 {
            update_upper_nibble(stored, luma)
        } else {
            update_lower_nibble(stored, luma)
        };
        proof {
            lemma_nibble_set_get(stored, luma);
            lemma_nibble_unchanged(stored, luma);
        }
        if new_val != stored {
            self.bytes[index] = new_val;
            assert(self@[index as int] != old(self)@[index as int]);
            true
        } else {
            assert(self@ =~= with_pixel(old(self)@, x as int, y as int, gray@));
            false
        }
    }

    /// Reads the gray value at `(x, y)`; `None` for a position off the grid.
    pub fn pixel(&self, x: i32, y: i32) -> (gray: Option<Gray4>)
        ensures
            in_bounds(x as int, y as int) ==> gray is Some && gray->0@ == pixel_of(
                self@,
                x as int,
                y as int,
            ),
            !in_bounds(x as int, y as int) ==> gray is None,
    {
        if x < 0 || y < 0 || x >= DISPLAY_WIDTH as i32 || y >= DISPLAY_HEIGHT as i32 {
            return None;
        }
        let col: usize = x as usize;
        let row: usize = y as usize;
        let stored: u8 = self.bytes[col / 2 + row * ROW_BYTES];
        if col % 2 == 0 {
            let high: u8 = stored >> 4;
            assert(high & 0x0F == high) by (bit_vector)
                requires
                    high == stored >> 4,
            ;
            Some(Gray4::new(high))
        } else {
            let low: u8 = stored & 0x0F;
            assert(low & 0x0F == low) by (bit_vector)
                requires
                    low == stored & 0x0F,
            ;
            Some(Gray4::new(low))
        }
    }

    /// Sets every pixel to `gray`.
    pub fn clear(&mut self, gray: Gray4)
        ensures
            final(self)@ == Seq::new(BUFFER_SIZE as nat, |i: int| fill_byte(gray@)),
    {
        let luma: u8 = gray.luma();
        let byte: u8 = (luma << 4) | luma;
        self.bytes = [byte;BUFFER_SIZE];
        assert(self@ =~= Seq::new(BUFFER_SIZE as nat, |i: int| fill_byte(gray@)));
    }

    /// The bytes of the buffer, row by row.
    pub fn as_bytes(&self) -> (bytes: &[u8; BUFFER_SIZE])
        ensures
            bytes@ == self@,
    {
        &self.bytes
    }
}

} // verus!

//! What is drawn: positions and 4-bit gray values.

use vstd::prelude::*;

verus! {

/// A gray value of 4 bits: 0 is black, 15 is the brightest.
#[derive(Clone, Copy, Debug)]
pub struct Gray4 {
    luma: u8,
}

impl View for Gray4 {
    type V = u8;

    closed spec fn view(&self) -> u8 {
        self.luma
    }
}

impl Gray4 {
    #[verifier::type_invariant]
    spec fn four_bits(self) -> bool {
        self.luma <= 15
    }

    /// Creates a gray value from the low four bits of `luma`.
    pub fn new(luma: u8) -> (gray: Gray4)
        ensures
            gray@ == luma & 0x0F,
            gray@ <= 15,
    {
        let low: u8 = luma & 0x0F;
        assert(low <= 15) by (bit_vector)
            requires
                low == luma & 0x0F,
        ;
        Gray4 { luma: low }
    }

    /// The luminance, between 0 and 15.
    pub fn luma(&self) -> (luma: u8)
        ensures
            luma == self@,
            luma <= 15,
    {
        proof {
            use_type_invariant(self);
        }
        self.luma
    }
}

/// A position on the pixel grid. The origin is the top left corner; positions
/// off the grid, negative ones among them, are allowed and never drawn.
#[derive(Clone, Copy, Debug, PartialEq, Eq, Structural)]
pub struct Point {
    /// The column.
    pub x: i32,
    /// The row.
    pub y: i32,
}

impl Point {
    /// Creates the position of column `x` in row `y`.
    pub fn new(x: i32, y: i32) -> (p: Point)
        ensures
            p.x == x,
            p.y == y,
    {
        Point { x, y }
    }
}

/// A position and the gray value to store there.
#[derive(Clone, Copy, Debug)]
pub struct Pixel(pub Point, pub Gray4);

} // verus!

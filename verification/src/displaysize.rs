//! The panels that the driver can be configured for.

use vstd::prelude::*;

verus! {

/// The size of a panel, with what the controller needs to address it.
#[derive(Clone, Copy, Debug, PartialEq, Eq, Structural)]
pub enum DisplaySize {
    /// 128 by 64 pixels
    Display128x64,
}

impl DisplaySize {
    /// Width and height of the panel in pixels.
    pub open spec fn spec_dimensions(self) -> (u8, u8) {
        match self {
            DisplaySize::Display128x64 => (128, 64),
        }
    }

    /// The column address of the panel's first column in the controller's RAM.
    pub open spec fn spec_column_offset(self) -> u8 {
        match self {
            DisplaySize::Display128x64 => 0x1C,
        }
    }

    /// Width and height of the panel in pixels.
    #[verifier::when_used_as_spec(spec_dimensions)]
    pub fn dimensions(self) -> (dims: (u8, u8))
        ensures
            dims == self.spec_dimensions(),
    {
        match self {
            DisplaySize::Display128x64 => (128, 64),
        }
    }

    /// The column address of the panel's first column in the controller's RAM.
    #[verifier::when_used_as_spec(spec_column_offset)]
    pub fn column_offset(self) -> (offset: u8)
        ensures
            offset == self.spec_column_offset(),
    {
        match self {
            DisplaySize::Display128x64 => 0x1C,
        }
    }
}

} // verus!

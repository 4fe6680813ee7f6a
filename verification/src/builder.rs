//! Interface factory
//!
//! This is the easiest way to create a driver instance. You can set various parameters of the
//! driver and give it an interface to use. The builder returns a
//! [`GraphicsMode`] object for drawing.

use vstd::prelude::*;
use crate::displaysize::DisplaySize;
use crate::graphics::{Frame, GraphicsMode, BUFFER_SIZE};
use crate::interface::{Transfer, WriteOnlyDataCommand};
use crate::properties::DisplayProperties;

verus! {

/// Builder struct. Driver options and interface are set using its methods.
#[derive(Clone, Copy)]
pub struct Builder {
    display_size: DisplaySize,
}

impl Default for Builder {
    fn default() -> (builder: Self)
        ensures
            builder.size() == DisplaySize::Display128x64,
    {
        Self::new()
    }
}

impl Builder {
    /// The display size that the builder is set to.
    pub closed spec fn size(&self) -> DisplaySize {
        self.display_size
    }

    /// Create new builder with a default size of 128 x 64 pixels.
    pub fn new() -> (builder: Builder)
        ensures
            builder.size() == DisplaySize::Display128x64,
    {
        Builder { display_size: DisplaySize::Display128x64 }
    }

    /// Set the size of the display. Supported sizes are defined by [DisplaySize].
    pub fn with_size(self, display_size: DisplaySize) -> (builder: Self)
        ensures
            builder.size() == display_size,
    {
        Self { display_size, ..self }
    }

    /// Finish the builder and use the given interface to communicate with the display.
    pub fn connect<DI: WriteOnlyDataCommand>(self, interface: DI) -> (mode: GraphicsMode<DI>)
        ensures
            mode.size() == self.size(),
            mode.properties().interface() == interface,
            mode.properties().draw_area() == ((0u8, 0u8), (0u8, 0u8)),
            mode.frame() == (Frame {
                bytes: Seq::new(BUFFER_SIZE as nat, |i: int| 0u8),
                region: None,
            }),
            mode.sent() == Seq::<Transfer>::empty(),
            mode.failed() is None,
    {
        let properties = DisplayProperties::new(interface, self.display_size);
        GraphicsMode::<DI>::new(properties)
    }
}

} // verus!

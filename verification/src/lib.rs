//! Driver for a 4-bit grayscale dot-matrix display controller on a serial bus
//! with separate command and data phases.
//!
//! The driver keeps the desired image in a packed framebuffer, tracks the
//! smallest rectangle that covers what changed since the last transmission,
//! and encodes pixel updates into the controller's wire protocol. What goes
//! over the bus is stated in the contracts as a sequence of [`interface::Transfer`]s.

pub mod interface;
pub mod command;
pub mod pixel;
pub mod framebuffer;
pub mod region;
pub mod display;
pub mod reset;
pub mod displaysize;
pub mod properties;
pub mod graphics;
pub mod builder;

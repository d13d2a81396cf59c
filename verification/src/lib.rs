//! Verified core of a touch-strip function-key row.
//!
//! A narrow secondary display doubles as a row of virtual function keys.
//! This crate holds the logic of that device: the button-row geometry and
//! hit-testing, the render layout, the display-resource selection and the
//! atomic commit request, the virtual-key event records, and the per-contact
//! state machine that turns touches into debounced key transitions.
//! Everything that talks to hardware (the display node, the touch input
//! stack, the virtual keyboard device, the rasterizer) lives outside, in a
//! thin driver that hands this crate plain values.

pub mod display;
pub mod emitter;
pub mod geometry;
pub mod layout;
pub mod router;

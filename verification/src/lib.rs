//! Interaction core of a cubic Bézier curve editor.
//!
//! Four draggable handles carry the control points of the curve. Once per
//! frame the host hands in the pointer state; the handle set advances its
//! hover and drag state machine, and the sampler evaluates the curve at a
//! fixed number of interior parameters. Everything works on an integer world
//! grid, and curve samples are exact rationals, so every contract is stated
//! over mathematical integers.

pub mod geometry;
pub mod curve;
pub mod handles;
pub mod curve_laws;
pub mod handle_laws;
pub mod scene;

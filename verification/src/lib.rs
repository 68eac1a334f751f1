//! Procedural desktop imagery: a hypotrochoid "galaxy" curve animation, a
//! fractal pixel-field generator, colour interpolation helpers, and a
//! double-buffered frame-compositing discipline.
//!
//! All quantities that the drawing domain treats as real numbers are held in
//! a fixed-point numeric system (see [`fixed`]): lengths and positions carry
//! [`fixed::FP`] sub-units per drawing unit, and angles are measured in binary
//! angle units with [`fixed::TURN`] units per full turn.

use vstd::prelude::*;

pub mod colors;
pub mod fixed;
pub mod fractal;
pub mod galaxy;
pub mod primitives;
pub mod text;
pub mod trig;

verus! {

/// Failure kinds reported by the public operations of this crate.
#[derive(Clone, Copy, Debug, PartialEq, Eq, Structural)]
pub enum DrawError {
    /// A caller-supplied parameter violates the operation's documented domain
    /// (zero curvature, a degenerate anchor ratio, a too-short stop sequence,
    /// a malformed pixel-buffer size).
    InvalidParameter,
    /// An interpolation weight lies outside the valid domain for the stop
    /// sequence it is applied to.
    OutOfRange,
    /// The host graphics layer could not allocate an off-screen resource.
    ResourceExhausted,
}

} // verus!

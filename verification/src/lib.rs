//! A stochastic cellular automaton that imitates the rolling fire effect of
//! the classic PSX-era demo: a grid of intensity levels in 0..=36 is advanced
//! frame by frame, heat rising, drifting sideways and decaying at random, and
//! each frame can be rendered into an RGBA pixel buffer through a fixed
//! 37-color ramp.
//!
//! The library owns only the simulation: the grid, its update rule, the
//! palette, and the ignite/extinguish lifecycle. A host is expected to hand
//! `draw` a byte buffer of exactly `width * height * 4` bytes once per frame
//! and present it however it likes.
use vstd::prelude::*;

pub mod field;
pub mod palette;
mod rng;

verus! {

pub use crate::field::Doomfire;
pub use crate::palette::color_of;

} // verus!

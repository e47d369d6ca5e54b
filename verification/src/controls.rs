//! Physical controls of the mixer.

pub mod deck;
pub mod play;
pub mod shift;
pub mod volume;

use vstd::prelude::*;

verus! {

/// A change of level on a push button wired to ground with a pull-up:
/// pressing pulls the pin low, releasing lets it go high.
#[derive(Clone, Copy, Debug, PartialEq, Eq, Structural)]
pub enum ButtonEdge {
    Pressed,
    Released,
}

} // verus!

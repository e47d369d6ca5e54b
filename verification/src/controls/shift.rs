//! Shift button: while it is held, the play buttons send the shifted notes.

use vstd::prelude::*;

use crate::controls::ButtonEdge;

verus! {

/// Added to a deck's note while shift is held.
pub const SHIFT_OFFSET: u8 = 0x10;

/// Whether shift is held after `edge`.
pub fn shift_held(edge: ButtonEdge) -> (r: bool)
    ensures
        r == (edge == ButtonEdge::Pressed),
{
    match edge {
        ButtonEdge::Pressed => true,
        ButtonEdge::Released => false,
    }
}

} // verus!

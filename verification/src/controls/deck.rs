//! Deck-select switch.

use vstd::prelude::*;

use crate::display::DisplayCmd;

verus! {

/// The deck selected by the switch's level (high selects deck 1, low deck
/// 0), and the display command that shows it.
pub fn deck_switch(switch_high: bool) -> (r: (u8, DisplayCmd))
    ensures
        r.0 == (if switch_high { 1u8 } else { 0u8 }),
        r.1 == DisplayCmd::DrawSelectedDeck(r.0),
{
    let deck: u8 = if switch_high { 1 } else { 0 };
    (deck, DisplayCmd::DrawSelectedDeck(deck))
}

} // verus!

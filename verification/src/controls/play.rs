//! Play/pause buttons, one per deck.

use vstd::prelude::*;

use crate::controls::shift::SHIFT_OFFSET;
use crate::controls::ButtonEdge;
use crate::display::DisplayCmd;
use crate::midi::MidiMsg;

verus! {

/// Velocity of the Note On that a press sends.
pub const PRESS_VELOCITY: u8 = 0x7F;

/// The note of a deck's play button: the deck number (taken as a byte), plus
/// the shift offset while shift is held.
pub open spec fn spec_play_note(channel: usize, shift: bool) -> int {
    (channel % 256) + if shift {
        SHIFT_OFFSET as int
    } else {
        0
    }
}

/// Whether the note of `channel` fits in a byte with or without shift.
pub open spec fn note_fits(channel: usize, shift: bool) -> bool {
    spec_play_note(channel, shift) <= 255
}

/// The note that the play button of `channel` sends.
pub fn play_note(channel: usize, shift: bool) -> (r: u8)
    requires
        note_fits(channel, shift),
    ensures
        r == spec_play_note(channel, shift),
{
    let base: u8 = (channel % 256) as u8;
    base + if shift {
        SHIFT_OFFSET
    } else {
        0
    }
}

/// A deck's play button: the note sounding since the last press, if any.
#[derive(Clone, Copy, Debug, PartialEq, Eq, Structural)]
pub struct PlayButton {
    pub channel: usize,
    pub held: Option<u8>,
}

/// One step of a play button, as (next held note, message to send).
pub open spec fn spec_play_step(b: PlayButton, edge: ButtonEdge, shift: bool) -> (
    Option<u8>,
    Option<MidiMsg>,
) {
    match (edge, b.held) {
        (ButtonEdge::Pressed, None) => {
            let note = spec_play_note(b.channel, shift) as u8;
            (Some(note), Some(MidiMsg::NoteOn { note, velocity: PRESS_VELOCITY }))
        },
        (ButtonEdge::Released, Some(note)) => (None, Some(MidiMsg::NoteOff { note })),
        _ => (b.held, None),
    }
}

impl PlayButton {
    /// A released play button for `channel`.
    pub fn new(channel: usize) -> (r: PlayButton)
        ensures
            r.channel == channel,
            r.held is None,
    {
        PlayButton { channel, held: None }
    }

    /// Before any press the deck is shown paused.
    pub fn initial_display(&self) -> (r: DisplayCmd)
        ensures
            r == DisplayCmd::DrawPlayState(false, self.channel),
    {
        DisplayCmd::DrawPlayState(false, self.channel)
    }

    /// Handles an edge of the button. A press sends a Note On of the
    /// button's note (shifted if shift is held now); the release that follows
    /// sends the Note Off of that same note. An edge that repeats the last
    /// one sends nothing.
    pub fn step(&mut self, edge: ButtonEdge, shift: bool) -> (r: Option<MidiMsg>)
        requires
            edge == ButtonEdge::Pressed && old(self).held is None ==> note_fits(
                old(self).channel,
                shift,
            ),
        ensures
            final(self).channel == old(self).channel,
            final(self).held == spec_play_step(*old(self), edge, shift).0,
            r == spec_play_step(*old(self), edge, shift).1,
    {
        match (edge, self.held) {
            (ButtonEdge::Pressed, None) => {
                let note = play_note(self.channel, shift);
                self.held = Some(note);
                Some(MidiMsg::NoteOn { note, velocity: PRESS_VELOCITY })
            },
            (ButtonEdge::Released, Some(note)) => {
                self.held = None;
                Some(MidiMsg::NoteOff { note })
            },
            _ => None,
        }
    }
}

/// A press followed by a release sends a Note On and then the Note Off of
/// the same note, even when shift changed in between; the button is then
/// released again.
pub proof fn lemma_press_release_pairs(b: PlayButton, shift_at_press: bool, shift_at_release: bool)
    requires
        b.held is None,
        note_fits(b.channel, shift_at_press),
    ensures
        ({
            let (held, on) = spec_play_step(b, ButtonEdge::Pressed, shift_at_press);
            let b2 = PlayButton { channel: b.channel, held };
            let (held2, off) = spec_play_step(b2, ButtonEdge::Released, shift_at_release);
            &&& on == Some(
                MidiMsg::NoteOn {
                    note: spec_play_note(b.channel, shift_at_press) as u8,
                    velocity: PRESS_VELOCITY,
                },
            )
            &&& off == Some(
                MidiMsg::NoteOff { note: spec_play_note(b.channel, shift_at_press) as u8 },
            )
            &&& held2 is None
        }),
{
}

/// The shifted note of a deck is its plain note plus the shift offset.
pub proof fn lemma_shift_offsets_note(channel: usize)
    requires
        note_fits(channel, true),
    ensures
        note_fits(channel, false),
        spec_play_note(channel, true) == spec_play_note(channel, false) + SHIFT_OFFSET,
{
}

/// The note of a play button is its deck number (as a byte), 0x10 higher
/// while shift is held.
pub proof fn lemma_play_note_values(channel: usize)
    ensures
        spec_play_note(channel, false) == channel % 256,
        spec_play_note(channel, true) == channel % 256 + 0x10,
{
}

} // verus!

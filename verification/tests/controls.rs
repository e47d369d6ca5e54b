use zapolab_mixer::controls::deck::deck_switch;
use zapolab_mixer::controls::play::{play_note, PlayButton};
use zapolab_mixer::controls::shift::{shift_held, SHIFT_OFFSET};
use zapolab_mixer::controls::volume::{
    filtered_to_midi_range, map_raw, rounded_average, PotTracker,
};
use zapolab_mixer::controls::ButtonEdge;
use zapolab_mixer::display::DisplayCmd;
use zapolab_mixer::midi::MidiMsg;

#[test]
fn average_of_equal_samples() {
    assert_eq!(rounded_average(&[1000u16; 16]), 1000);
    assert_eq!(rounded_average(&[0u16; 16]), 0);
    assert_eq!(rounded_average(&[u16::MAX; 16]), u16::MAX);
}

#[test]
fn average_rounds_half_up() {
    let mut s = [0u16; 16];
    s[0] = 8; // sum 8: 0.5 rounds up
    assert_eq!(rounded_average(&s), 1);
    s[0] = 7; // sum 7: 0.4375 rounds down
    assert_eq!(rounded_average(&s), 0);
    let s: [u16; 16] = [1, 2, 3, 4, 5, 6, 7, 8, 9, 10, 11, 12, 13, 14, 15, 16];
    // sum 136, average 8.5
    assert_eq!(rounded_average(&s), 9);
}

#[test]
fn average_lies_between_extremes() {
    let s: [u16; 16] = [
        100, 4000, 2000, 2100, 1900, 2050, 1950, 2000, 2000, 2001, 1999, 2002, 1998, 2003, 1997,
        2004,
    ];
    let a = rounded_average(&s);
    assert!(100 <= a && a <= 4000);
    assert_eq!(a as u32, (s.iter().map(|&v| v as u32).sum::<u32>() + 8) / 16);
}

#[test]
fn midi_range_values() {
    assert_eq!(filtered_to_midi_range(0), 0);
    assert_eq!(filtered_to_midi_range(32), 0);
    assert_eq!(filtered_to_midi_range(33), 1);
    assert_eq!(filtered_to_midi_range(2048), 63);
    assert_eq!(filtered_to_midi_range(4094), 126);
    assert_eq!(filtered_to_midi_range(4095), 127);
    assert_eq!(filtered_to_midi_range(u16::MAX), 127);
}

#[test]
fn map_raw_values() {
    assert_eq!(map_raw(0), 0);
    assert_eq!(map_raw(40), 0);
    assert_eq!(map_raw(41), 1);
    assert_eq!(map_raw(2060), 2047);
    assert_eq!(map_raw(4079), 4093);
    assert_eq!(map_raw(4080), 4095);
    assert_eq!(map_raw(u16::MAX), 4095);
}

#[test]
fn map_raw_is_monotone() {
    let mut prev = map_raw(0);
    for raw in 1..=4200u16 {
        let cur = map_raw(raw);
        assert!(prev <= cur);
        assert!(cur <= 4095);
        prev = cur;
    }
}

#[test]
fn travel_ends_reach_midi_ends() {
    assert_eq!(filtered_to_midi_range(map_raw(12)), 0);
    assert_eq!(filtered_to_midi_range(map_raw(4090)), 127);
}

#[test]
fn pot_first_reading_reported() {
    let mut t = PotTracker::new();
    assert_eq!(
        t.update(4095, 1),
        Some((
            MidiMsg::ControlChange { cc: 0x01, value: 127 },
            DisplayCmd::DrawPot(127, 1)
        ))
    );
    let mut t = PotTracker::new();
    assert_eq!(
        t.update(0, 0),
        Some((MidiMsg::ControlChange { cc: 0x00, value: 0 }, DisplayCmd::DrawPot(0, 0)))
    );
}

#[test]
fn pot_repeat_and_small_moves_silent() {
    let mut t = PotTracker::new();
    assert!(t.update(2048, 0).is_some());
    // Same reading: nothing.
    assert_eq!(t.update(2048, 0), None);
    // Moves within the same 7-bit step: remembered, not reported.
    assert_eq!(t.update(2050, 0), None);
    assert_eq!(t.last_filtered, 2050);
    assert_eq!(t.last_midi, 63);
    // A move to the next step is reported.
    assert_eq!(
        t.update(2100, 0),
        Some((MidiMsg::ControlChange { cc: 0x00, value: 65 }, DisplayCmd::DrawPot(65, 0)))
    );
    assert_eq!(t.last_midi, 65);
}

#[test]
fn pot_other_channels_use_cc_one() {
    let mut t = PotTracker::new();
    let r = t.update(100, 7).unwrap();
    assert_eq!(r.0, MidiMsg::ControlChange { cc: 0x01, value: 3 });
    assert_eq!(r.1, DisplayCmd::DrawPot(3, 7));
}

#[test]
fn play_notes() {
    assert_eq!(play_note(0, false), 0);
    assert_eq!(play_note(1, false), 1);
    assert_eq!(play_note(0, true), SHIFT_OFFSET);
    assert_eq!(play_note(1, true), 0x11);
    assert_eq!(play_note(300, false), 44);
}

#[test]
fn play_press_release_same_note() {
    let mut b = PlayButton::new(1);
    assert_eq!(b.initial_display(), DisplayCmd::DrawPlayState(false, 1));
    assert_eq!(
        b.step(ButtonEdge::Pressed, true),
        Some(MidiMsg::NoteOn { note: 0x11, velocity: 0x7F })
    );
    // Shift let go before the play button: the Note Off still matches.
    assert_eq!(b.step(ButtonEdge::Released, false), Some(MidiMsg::NoteOff { note: 0x11 }));
    assert_eq!(b.held, None);
}

#[test]
fn play_repeated_edges_silent() {
    let mut b = PlayButton::new(0);
    assert_eq!(b.step(ButtonEdge::Released, false), None);
    assert_eq!(
        b.step(ButtonEdge::Pressed, false),
        Some(MidiMsg::NoteOn { note: 0, velocity: 0x7F })
    );
    assert_eq!(b.step(ButtonEdge::Pressed, true), None);
    assert_eq!(b.step(ButtonEdge::Released, true), Some(MidiMsg::NoteOff { note: 0 }));
}

#[test]
fn shift_follows_button() {
    assert!(shift_held(ButtonEdge::Pressed));
    assert!(!shift_held(ButtonEdge::Released));
}

#[test]
fn deck_switch_levels() {
    assert_eq!(deck_switch(true), (1, DisplayCmd::DrawSelectedDeck(1)));
    assert_eq!(deck_switch(false), (0, DisplayCmd::DrawSelectedDeck(0)));
}

use zapolab_mixer::display::DisplayCmd;
use zapolab_mixer::midi::{
    decode_feedback, decode_transfer, rx_step, tx_step, Feedback, LinkState, MidiMsg, RxEvent,
    TxAction, TxEvent,
};

#[test]
fn packet_of_control_change() {
    let m = MidiMsg::ControlChange { cc: 0x01, value: 0x40 };
    assert_eq!(m.to_usb_packet(), [0x0B, 0xB0, 0x01, 0x40]);
}

#[test]
fn packet_of_note_on() {
    let m = MidiMsg::NoteOn { note: 0x10, velocity: 0x7F };
    assert_eq!(m.to_usb_packet(), [0x09, 0x90, 0x10, 0x7F]);
}

#[test]
fn packet_of_note_off() {
    let m = MidiMsg::NoteOff { note: 0x11 };
    assert_eq!(m.to_usb_packet(), [0x08, 0x80, 0x11, 0x00]);
}

#[test]
fn packets_of_distinct_messages_differ() {
    let msgs = [
        MidiMsg::ControlChange { cc: 0, value: 0 },
        MidiMsg::ControlChange { cc: 0, value: 1 },
        MidiMsg::NoteOn { note: 0, velocity: 0 },
        MidiMsg::NoteOff { note: 0 },
        MidiMsg::NoteOff { note: 1 },
    ];
    for (i, a) in msgs.iter().enumerate() {
        for (j, b) in msgs.iter().enumerate() {
            assert_eq!(i == j, a.to_usb_packet() == b.to_usb_packet());
        }
    }
}

#[test]
fn code_index_is_status_high_nibble() {
    for m in [
        MidiMsg::ControlChange { cc: 3, value: 4 },
        MidiMsg::NoteOn { note: 5, velocity: 6 },
        MidiMsg::NoteOff { note: 7 },
    ] {
        let p = m.to_usb_packet();
        assert_eq!(p[0], p[1] >> 4);
        assert_eq!(p[1] & 0x0F, 0);
    }
}

#[test]
fn feedback_play_indicator_on() {
    assert_eq!(
        decode_feedback(0x90, 0x20, 0x7F),
        Some(Feedback::PlayIndicator { deck: 0, on: true })
    );
    assert_eq!(
        decode_feedback(0x90, 0x21, 0x01),
        Some(Feedback::PlayIndicator { deck: 1, on: true })
    );
}

#[test]
fn feedback_velocity_zero_is_off() {
    assert_eq!(
        decode_feedback(0x90, 0x21, 0x00),
        Some(Feedback::PlayIndicator { deck: 1, on: false })
    );
}

#[test]
fn feedback_note_off_and_other_status_are_off() {
    assert_eq!(
        decode_feedback(0x80, 0x22, 0x7F),
        Some(Feedback::PlayState { deck: 0, on: false })
    );
    assert_eq!(
        decode_feedback(0xB0, 0x23, 0x7F),
        Some(Feedback::PlayState { deck: 1, on: false })
    );
}

#[test]
fn feedback_on_any_channel() {
    assert_eq!(
        decode_feedback(0x9F, 0x23, 0x10),
        Some(Feedback::PlayState { deck: 1, on: true })
    );
}

#[test]
fn feedback_other_notes_ignored() {
    assert_eq!(decode_feedback(0x90, 0x1F, 0x7F), None);
    assert_eq!(decode_feedback(0x90, 0x24, 0x7F), None);
    assert_eq!(decode_feedback(0x90, 0x00, 0x7F), None);
}

#[test]
fn transfer_of_several_packets() {
    let buf = [
        0x09, 0x90, 0x20, 0x7F, // indicator deck 0 on
        0x09, 0x90, 0x40, 0x7F, // ignored note
        0x08, 0x80, 0x23, 0x00, // play state deck 1 off
    ];
    assert_eq!(
        decode_transfer(&buf, buf.len()),
        vec![
            Feedback::PlayIndicator { deck: 0, on: true },
            Feedback::PlayState { deck: 1, on: false },
        ]
    );
}

#[test]
fn transfer_ignores_trailing_bytes_and_tail_of_buffer() {
    let mut buf = [0u8; 64];
    buf[..4].copy_from_slice(&[0x09, 0x90, 0x22, 0x40]);
    buf[4..8].copy_from_slice(&[0x09, 0x90, 0x21, 0x40]);
    // Only 7 bytes were read: the second packet is incomplete.
    assert_eq!(decode_transfer(&buf, 7), vec![Feedback::PlayState { deck: 0, on: true }]);
    assert_eq!(decode_transfer(&buf, 3), vec![]);
    assert_eq!(decode_transfer(&buf, 0), vec![]);
}

#[test]
fn transfer_of_concatenation() {
    let a = [0x09u8, 0x90, 0x20, 0x7F, 0x09, 0x90, 0x22, 0x7F];
    let b = [0x09u8, 0x90, 0x21, 0x00, 0x09, 0x90, 0x23];
    let mut ab = a.to_vec();
    ab.extend_from_slice(&b);
    let mut expect = decode_transfer(&a, a.len());
    expect.extend(decode_transfer(&b, b.len()));
    assert_eq!(decode_transfer(&ab, ab.len()), expect);
}

#[test]
fn own_note_packets_read_back() {
    let on = MidiMsg::NoteOn { note: 0x22, velocity: 0x7F }.to_usb_packet();
    assert_eq!(
        decode_transfer(&on, 4),
        vec![Feedback::PlayState { deck: 0, on: true }]
    );
    let off = MidiMsg::NoteOff { note: 0x21 }.to_usb_packet();
    assert_eq!(
        decode_transfer(&off, 4),
        vec![Feedback::PlayIndicator { deck: 1, on: false }]
    );
}

#[test]
fn feedback_display_commands() {
    assert_eq!(Feedback::PlayIndicator { deck: 1, on: true }.display_cmd(), None);
    assert_eq!(
        Feedback::PlayState { deck: 1, on: true }.display_cmd(),
        Some(DisplayCmd::DrawPlayState(true, 1))
    );
}

#[test]
fn tx_session() {
    let m = MidiMsg::NoteOn { note: 1, velocity: 0x7F };
    let (s, a) = tx_step(LinkState::WaitingConnection, TxEvent::Message(m));
    assert_eq!(s, LinkState::WaitingConnection);
    assert!(matches!(a, TxAction::AwaitConnection));

    let (s, a) = tx_step(s, TxEvent::Connected);
    assert_eq!(s, LinkState::Connected);
    assert!(matches!(a, TxAction::DropQueued));

    let (s, a) = tx_step(s, TxEvent::Message(m));
    assert_eq!(s, LinkState::Connected);
    assert!(matches!(a, TxAction::WritePacket([0x09, 0x90, 1, 0x7F])));

    let (s, a) = tx_step(s, TxEvent::WriteFailed);
    assert_eq!(s, LinkState::WaitingConnection);
    assert!(matches!(a, TxAction::AwaitConnection));
}

#[test]
fn rx_session() {
    let buf = [0x09u8, 0x90, 0x23, 0x7F];
    let (s, f) = rx_step(LinkState::WaitingConnection, RxEvent::Received(4), &buf);
    assert_eq!(s, LinkState::WaitingConnection);
    assert!(f.is_empty());

    let (s, f) = rx_step(s, RxEvent::Connected, &buf);
    assert_eq!(s, LinkState::Connected);
    assert!(f.is_empty());

    let (s, f) = rx_step(s, RxEvent::Received(4), &buf);
    assert_eq!(s, LinkState::Connected);
    assert_eq!(f, vec![Feedback::PlayState { deck: 1, on: true }]);

    let (s, f) = rx_step(s, RxEvent::ReadFailed, &buf);
    assert_eq!(s, LinkState::WaitingConnection);
    assert!(f.is_empty());
}

#[test]
fn tx_run_sends_queue_in_order() {
    let msgs = [
        MidiMsg::NoteOn { note: 0, velocity: 0x7F },
        MidiMsg::ControlChange { cc: 1, value: 99 },
        MidiMsg::NoteOff { note: 0 },
        MidiMsg::NoteOff { note: 0 },
    ];
    let (mut state, _) = tx_step(LinkState::WaitingConnection, TxEvent::Connected);
    let mut written = Vec::new();
    for m in msgs {
        let (next, action) = tx_step(state, TxEvent::Message(m));
        state = next;
        if let TxAction::WritePacket(p) = action {
            written.push(p);
        }
    }
    let expect: Vec<[u8; 4]> = msgs.iter().map(|m| m.to_usb_packet()).collect();
    assert_eq!(written, expect);
    assert_eq!(state, LinkState::Connected);
}

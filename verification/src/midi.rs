//! USB-MIDI: the outgoing event packets and the LED feedback coming back from
//! Mixxx on the OUT endpoint.
//!
//! A USB-MIDI event packet is four bytes: the cable/code-index byte, the MIDI
//! status byte, and two data bytes.

use vstd::prelude::*;

use crate::display::DisplayCmd;

verus! {

/// Outgoing MIDI events, as declared in the Mixxx mapping of the controller.
#[derive(Clone, Copy, Debug, PartialEq, Eq, Structural)]
pub enum MidiMsg {
    ControlChange { cc: u8, value: u8 },
    NoteOn { note: u8, velocity: u8 },
    NoteOff { note: u8 },
}

impl MidiMsg {
    /// The four bytes of the USB-MIDI event packet that carries `self` on
    /// cable 0, MIDI channel 1.
    pub open spec fn packet(self) -> Seq<u8> {
        match self {
            MidiMsg::ControlChange { cc, value } => seq![0x0Bu8, 0xB0u8, cc, value],
            MidiMsg::NoteOn { note, velocity } => seq![0x09u8, 0x90u8, note, velocity],
            MidiMsg::NoteOff { note } => seq![0x08u8, 0x80u8, note, 0x00u8],
        }
    }

    /// Encodes the message as a USB-MIDI event packet.
    pub fn to_usb_packet(self) -> (r: [u8; 4])
        ensures
            r@ == self.packet(),
    {
        let r = match self {
            MidiMsg::ControlChange { cc, value } => [0x0B, 0xB0, cc, value],
            MidiMsg::NoteOn { note, velocity } => [0x09, 0x90, note, velocity],
            MidiMsg::NoteOff { note } => [0x08, 0x80, note, 0x00],
        };
        assert(r@ =~= self.packet());
        r
    }
}

/// No two distinct messages share a packet: the encoding loses nothing.
pub proof fn lemma_packet_injective(a: MidiMsg, b: MidiMsg)
    requires
        a.packet() == b.packet(),
    ensures
        a == b,
{
    assert(a.packet()[0] == b.packet()[0]);
    assert(a.packet()[2] == b.packet()[2]);
    assert(a.packet()[3] == b.packet()[3]);
}

/// Every packet names the code index of its own status byte (the high nibble
/// of the status), and goes out on MIDI channel 1.
pub proof fn lemma_packet_code_index(m: MidiMsg)
    ensures
        m.packet().len() == 4,
        m.packet()[0] as int == m.packet()[1] as int / 16,
        m.packet()[1] as int % 16 == 0,
{
}

/// The data bytes of a packet are the message's own fields, behind the
/// code index and the status of its kind: control change 0x0B/0xB0 with the
/// controller and value, Note On 0x09/0x90 with the note and velocity, Note
/// Off 0x08/0x80 with the note and velocity 0.
pub proof fn lemma_packet_fields(m: MidiMsg)
    ensures
        m.packet().len() == 4,
        match m {
            MidiMsg::ControlChange { cc, value } => m.packet()[0] == 0x0B && m.packet()[1] == 0xB0
                && m.packet()[2] == cc && m.packet()[3] == value,
            MidiMsg::NoteOn { note, velocity } => m.packet()[0] == 0x09 && m.packet()[1] == 0x90
                && m.packet()[2] == note && m.packet()[3] == velocity,
            MidiMsg::NoteOff { note } => m.packet()[0] == 0x08 && m.packet()[1] == 0x80
                && m.packet()[2] == note && m.packet()[3] == 0,
        },
{
}

/// Feedback is read from the note: notes 0x20 and 0x21 drive the play LED of
/// deck 0 and 1, notes 0x22 and 0x23 the play state of deck 0 and 1, other
/// notes nothing. It switches on exactly for a Note On (status 0x90 to 0x9F,
/// any channel) with a velocity above zero.
pub proof fn lemma_feedback_by_note(status: u8, note: u8, velocity: u8)
    ensures
        spec_feedback(status, note, velocity) is Some <==> 0x20 <= note <= 0x23,
        0x20 <= note <= 0x21 ==> spec_feedback(status, note, velocity) == Some(
            Feedback::PlayIndicator {
                deck: (note - 0x20) as usize,
                on: 0x90 <= status <= 0x9F && velocity != 0,
            },
        ),
        0x22 <= note <= 0x23 ==> spec_feedback(status, note, velocity) == Some(
            Feedback::PlayState {
                deck: (note - 0x22) as usize,
                on: 0x90 <= status <= 0x9F && velocity != 0,
            },
        ),
{
}

/// What one feedback packet from Mixxx asks of the controller.
#[derive(Clone, Copy, Debug, PartialEq, Eq, Structural)]
pub enum Feedback {
    /// The play LED of `deck` goes on or off.
    PlayIndicator { deck: usize, on: bool },
    /// The deck is now playing (`on`) or paused; the display follows.
    PlayState { deck: usize, on: bool },
}

/// Note numbers of the feedback that Mixxx sends.
pub const PLAY_INDICATOR_NOTE: u8 = 0x20;

pub const PLAY_STATE_NOTE: u8 = 0x22;

/// A Note On with a velocity above zero switches on; anything else (a Note
/// On with velocity 0 included) switches off.
pub open spec fn spec_is_on(status: u8, velocity: u8) -> bool {
    status / 16 == 9 && velocity > 0
}

/// The feedback carried by a packet whose status, note and velocity bytes are
/// given.
pub open spec fn spec_feedback(status: u8, note: u8, velocity: u8) -> Option<Feedback> {
    let on = spec_is_on(status, velocity);
    if note == 0x20 || note == 0x21 {
        Some(Feedback::PlayIndicator { deck: (note - 0x20) as usize, on })
    } else if note == 0x22 || note == 0x23 {
        Some(Feedback::PlayState { deck: (note - 0x22) as usize, on })
    } else {
        None
    }
}

/// The feedback of the packet that starts at byte `4 * i` of `bytes`.
pub open spec fn packet_feedback(bytes: Seq<u8>, i: int) -> Option<Feedback> {
    spec_feedback(bytes[4 * i + 1], bytes[4 * i + 2], bytes[4 * i + 3])
}

/// The feedback of the first `k` packets of `bytes`, in order.
pub open spec fn feedback_of_packets(bytes: Seq<u8>, k: nat) -> Seq<Feedback>
    decreases k,
{
    if k == 0 {
        seq![]
    } else {
        let prev = feedback_of_packets(bytes, (k - 1) as nat);
        match packet_feedback(bytes, k - 1) {
            Some(f) => prev.push(f),
            None => prev,
        }
    }
}

/// The feedback of a whole transfer: one entry per complete packet that
/// carries feedback, in order; bytes after the last complete packet are
/// ignored.
pub open spec fn transfer_feedback(bytes: Seq<u8>) -> Seq<Feedback> {
    feedback_of_packets(bytes, bytes.len() / 4)
}

/// Decodes one feedback packet from its status, note and velocity bytes.
pub fn decode_feedback(status: u8, note: u8, velocity: u8) -> (r: Option<Feedback>)
    ensures
        r == spec_feedback(status, note, velocity),
{
    assert((status & 0xF0u8 == 0x90u8) == (status / 16 == 9)) by (bit_vector);
    let on = status & 0xF0 == 0x90 && velocity > 0;
    if note == 0x20 || note == 0x21 {
        Some(Feedback::PlayIndicator { deck: (note - 0x20) as usize, on })
    } else if note == 0x22 || note == 0x23 {
        Some(Feedback::PlayState { deck: (note - 0x22) as usize, on })
    } else {
        None
    }
}

/// Decodes the first `n` bytes of `buf`, a transfer of one or more 4-byte
/// USB-MIDI event packets.
pub fn decode_transfer(buf: &[u8], n: usize) -> (r: Vec<Feedback>)
    requires
        n <= buf.len(),
    ensures
        r@ == transfer_feedback(buf@.take(n as int)),
{
    let ghost bytes = buf@.take(n as int);
    let count = n / 4;
    let mut out: Vec<Feedback> = Vec::new();
    let mut i: usize = 0;
    while i < count
        invariant
            n <= buf.len(),
            count == n / 4,
            bytes == buf@.take(n as int),
            i <= count,
            out@ == feedback_of_packets(bytes, i as nat),
        decreases count - i,
    {
        let base = 4 * i;
        let f = decode_feedback(buf[base + 1], buf[base + 2], buf[base + 3]);
        assert(packet_feedback(bytes, i as int) == f);
        match f {
            Some(x) => out.push(x),
            None => {},
        }
        i = i + 1;
    }
    out
}

impl Feedback {
    /// The display command that goes with this feedback, if any: a change of
    /// play state is shown on the display, the LED indicator is not.
    pub fn display_cmd(self) -> (r: Option<DisplayCmd>)
        ensures
            r == match self {
                Feedback::PlayIndicator { .. } => None,
                Feedback::PlayState { deck, on } => Some(DisplayCmd::DrawPlayState(on, deck)),
            },
    {
        match self {
            Feedback::PlayIndicator { .. } => None,
            Feedback::PlayState { deck, on } => Some(DisplayCmd::DrawPlayState(on, deck)),
        }
    }

    pub open spec fn deck(self) -> usize {
        match self {
            Feedback::PlayIndicator { deck, .. } => deck,
            Feedback::PlayState { deck, .. } => deck,
        }
    }
}

proof fn lemma_prefix_agrees(a: Seq<u8>, b: Seq<u8>, k: nat)
    requires
        4 * k <= a.len(),
        4 * k <= b.len(),
        forall|j: int| 0 <= j < 4 * k ==> a[j] == b[j],
    ensures
        feedback_of_packets(a, k) == feedback_of_packets(b, k),
    decreases k,
{
    if k > 0 {
        lemma_prefix_agrees(a, b, (k - 1) as nat);
        let i = k - 1;
        assert(a[4 * i + 1] == b[4 * i + 1]);
        assert(a[4 * i + 2] == b[4 * i + 2]);
        assert(a[4 * i + 3] == b[4 * i + 3]);
    }
}

proof fn lemma_concat_packets(a: Seq<u8>, b: Seq<u8>, j: nat)
    requires
        a.len() % 4 == 0,
        4 * j <= b.len(),
    ensures
        feedback_of_packets(a + b, a.len() / 4 + j) == transfer_feedback(a)
            + feedback_of_packets(b, j),
    decreases j,
{
    let ab = a + b;
    let ka = a.len() / 4;
    if j == 0 {
        lemma_prefix_agrees(ab, a, ka);
        assert(transfer_feedback(a) + feedback_of_packets(b, 0) =~= transfer_feedback(a));
    } else {
        lemma_concat_packets(a, b, (j - 1) as nat);
        let i = j - 1;
        assert(ab[4 * (ka + i) + 1] == b[4 * i + 1]);
        assert(ab[4 * (ka + i) + 2] == b[4 * i + 2]);
        assert(ab[4 * (ka + i) + 3] == b[4 * i + 3]);
        assert(packet_feedback(ab, ka + i) == packet_feedback(b, i));
        let prev_ab = feedback_of_packets(ab, (ka + i) as nat);
        let prev_b = feedback_of_packets(b, i as nat);
        match packet_feedback(b, i) {
            Some(f) => {
                assert((transfer_feedback(a) + prev_b).push(f) =~= transfer_feedback(a)
                    + prev_b.push(f));
            },
            None => {},
        }
    }
}

/// Packets are independent: a transfer made of two transfers, the first of
/// whole packets, gives the feedback of the first followed by that of the
/// second.
pub proof fn lemma_transfer_concat(a: Seq<u8>, b: Seq<u8>)
    requires
        a.len() % 4 == 0,
    ensures
        transfer_feedback(a + b) == transfer_feedback(a) + transfer_feedback(b),
{
    lemma_concat_packets(a, b, b.len() / 4);
    assert((a + b).len() / 4 == a.len() / 4 + b.len() / 4);
}

/// A transfer of one packet gives that packet's feedback, if it carries any;
/// with [`lemma_transfer_concat`] this fixes the feedback of every transfer.
pub proof fn lemma_single_packet(p: Seq<u8>)
    requires
        p.len() == 4,
    ensures
        transfer_feedback(p) == match spec_feedback(p[1], p[2], p[3]) {
            Some(f) => seq![f],
            None => Seq::<Feedback>::empty(),
        },
{
    assert(feedback_of_packets(p, 0) == Seq::<Feedback>::empty());
    match spec_feedback(p[1], p[2], p[3]) {
        Some(f) => {
            assert(Seq::<Feedback>::empty().push(f) =~= seq![f]);
        },
        None => {},
    }
}

/// Bytes after the last complete packet change nothing.
pub proof fn lemma_trailing_bytes_ignored(bytes: Seq<u8>)
    ensures
        transfer_feedback(bytes) == transfer_feedback(bytes.take(4 * (bytes.len() / 4) as int)),
{
    let k = bytes.len() / 4;
    let t = bytes.take(4 * k as int);
    assert(t.len() / 4 == k);
    lemma_prefix_agrees(bytes, t, k);
}

proof fn lemma_packets_bounded(bytes: Seq<u8>, k: nat)
    ensures
        feedback_of_packets(bytes, k).len() <= k,
        forall|i: int|
            0 <= i < feedback_of_packets(bytes, k).len() ==> #[trigger] feedback_of_packets(
                bytes,
                k,
            )[i].deck() < 2,
    decreases k,
{
    if k > 0 {
        lemma_packets_bounded(bytes, (k - 1) as nat);
    }
}

/// A transfer asks for at most one change per complete packet, and only of
/// deck 0 or deck 1.
pub proof fn lemma_transfer_bounded(bytes: Seq<u8>)
    ensures
        transfer_feedback(bytes).len() <= bytes.len() / 4,
        forall|i: int|
            0 <= i < transfer_feedback(bytes).len() ==> #[trigger] transfer_feedback(
                bytes,
            )[i].deck() < 2,
{
    lemma_packets_bounded(bytes, bytes.len() / 4);
}

/// The controller's own note packets, sent back for notes 0x20 to 0x23, read
/// as feedback: a Note On switches on exactly when its velocity is above zero,
/// and a Note Off always switches off.
pub proof fn lemma_note_packets_as_feedback(m: MidiMsg)
    requires
        m !is ControlChange,
    ensures
        ({
            let p = m.packet();
            let on = match m {
                MidiMsg::NoteOn { velocity, .. } => velocity > 0,
                _ => false,
            };
            let note = p[2];
            &&& (note == 0x20 || note == 0x21) ==> spec_feedback(p[1], p[2], p[3]) == Some(
                Feedback::PlayIndicator { deck: (note - 0x20) as usize, on },
            )
            &&& (note == 0x22 || note == 0x23) ==> spec_feedback(p[1], p[2], p[3]) == Some(
                Feedback::PlayState { deck: (note - 0x22) as usize, on },
            )
        }),
{
}

/// Where a USB-MIDI endpoint stands: waiting for the host, or connected.
#[derive(Clone, Copy, Debug, PartialEq, Eq, Structural)]
pub enum LinkState {
    WaitingConnection,
    Connected,
}

/// What happens to the sending side.
#[derive(Clone, Copy, Debug, PartialEq, Eq, Structural)]
pub enum TxEvent {
    /// The host opened the IN endpoint.
    Connected,
    /// A message was taken from the outgoing queue.
    Message(MidiMsg),
    /// Writing the last packet failed: the host went away.
    WriteFailed,
}

/// What the sending side does next.
#[derive(Clone, Copy, Debug)]
pub enum TxAction {
    /// Drop everything queued while the host was not listening.
    DropQueued,
    /// Write this packet to the IN endpoint.
    WritePacket([u8; 4]),
    /// Nothing to send; wait for the host to connect.
    AwaitConnection,
}

pub open spec fn spec_tx_step(state: LinkState, event: TxEvent) -> (LinkState, Option<Seq<u8>>) {
    match event {
        TxEvent::Connected => (LinkState::Connected, None),
        TxEvent::Message(m) => match state {
            LinkState::Connected => (LinkState::Connected, Some(m.packet())),
            LinkState::WaitingConnection => (LinkState::WaitingConnection, None),
        },
        TxEvent::WriteFailed => (LinkState::WaitingConnection, None),
    }
}

/// One decision of the sending task. On connection the queue is flushed;
/// while connected each message is written as its packet; a failed write
/// sends the task back to wait for the host.
pub fn tx_step(state: LinkState, event: TxEvent) -> (r: (LinkState, TxAction))
    ensures
        r.0 == spec_tx_step(state, event).0,
        match spec_tx_step(state, event).1 {
            Some(p) => r.1 matches TxAction::WritePacket(b) && b@ == p,
            None => r.1 == (if event is Connected {
                TxAction::DropQueued
            } else {
                TxAction::AwaitConnection
            }),
        },
{
    match event {
        TxEvent::Connected => (LinkState::Connected, TxAction::DropQueued),
        TxEvent::Message(m) => match state {
            LinkState::Connected => (LinkState::Connected, TxAction::WritePacket(m.to_usb_packet())),
            LinkState::WaitingConnection => (LinkState::WaitingConnection, TxAction::AwaitConnection),
        },
        TxEvent::WriteFailed => (LinkState::WaitingConnection, TxAction::AwaitConnection),
    }
}

/// No packet is written unless the host is connected, and a failed write
/// always leads back to waiting for the host.
pub proof fn lemma_tx_writes_only_when_connected(state: LinkState, event: TxEvent)
    ensures
        spec_tx_step(state, event).1 is Some ==> state == LinkState::Connected,
        event is WriteFailed ==> spec_tx_step(state, event).0 == LinkState::WaitingConnection,
{
}

/// The link state and the packets written, in order, after a run of events
/// starting from `state`.
pub open spec fn spec_tx_run(state: LinkState, events: Seq<TxEvent>) -> (LinkState, Seq<Seq<u8>>)
    decreases events.len(),
{
    if events.len() == 0 {
        (state, seq![])
    } else {
        let (s, written) = spec_tx_run(state, events.drop_last());
        let (s2, p) = spec_tx_step(s, events.last());
        (
            s2,
            match p {
                Some(packet) => written.push(packet),
                None => written,
            },
        )
    }
}

/// The events of a connection followed by the messages taken from the queue.
pub open spec fn session_events(msgs: Seq<MidiMsg>) -> Seq<TxEvent> {
    seq![TxEvent::Connected] + msgs.map_values(|m: MidiMsg| TxEvent::Message(m))
}

/// Once connected, messages go out one packet each, in the order they were
/// taken from the queue, none twice and none left out, as long as no write
/// fails; whatever the state before the connection.
pub proof fn lemma_tx_sends_in_order(state: LinkState, msgs: Seq<MidiMsg>)
    ensures
        spec_tx_run(state, session_events(msgs)) == (
            LinkState::Connected,
            msgs.map_values(|m: MidiMsg| m.packet()),
        ),
    decreases msgs.len(),
{
    let ev = session_events(msgs);
    if msgs.len() == 0 {
        assert(ev.drop_last() =~= Seq::<TxEvent>::empty());
        assert(spec_tx_run(state, ev.drop_last()) == (state, Seq::<Seq<u8>>::empty()));
        assert(ev.last() == TxEvent::Connected);
        assert(msgs.map_values(|m: MidiMsg| m.packet()) =~= Seq::<Seq<u8>>::empty());
    } else {
        let init = msgs.drop_last();
        lemma_tx_sends_in_order(state, init);
        assert(ev.drop_last() =~= session_events(init));
        assert(ev.last() == TxEvent::Message(msgs.last()));
        assert(spec_tx_run(state, ev.drop_last()) == spec_tx_run(state, session_events(init)));
        assert(msgs.map_values(|m: MidiMsg| m.packet()) =~= init.map_values(
            |m: MidiMsg| m.packet(),
        ).push(msgs.last().packet()));
    }
}

/// What happens to the receiving side.
#[derive(Clone, Copy, Debug, PartialEq, Eq, Structural)]
pub enum RxEvent {
    /// The host opened the OUT endpoint.
    Connected,
    /// A transfer of this many bytes was read into the buffer.
    Received(usize),
    /// Reading failed: the host went away.
    ReadFailed,
}

pub open spec fn spec_rx_state(state: LinkState, event: RxEvent) -> LinkState {
    match event {
        RxEvent::Connected => LinkState::Connected,
        RxEvent::Received(_) => state,
        RxEvent::ReadFailed => LinkState::WaitingConnection,
    }
}

/// One decision of the receiving task: a transfer read while connected is
/// decoded into the feedback it carries; anything else changes only the link
/// state.
pub fn rx_step(state: LinkState, event: RxEvent, buf: &[u8]) -> (r: (LinkState, Vec<Feedback>))
    requires
        event matches RxEvent::Received(n) ==> n <= buf.len(),
    ensures
        r.0 == spec_rx_state(state, event),
        r.1@ == match event {
            RxEvent::Received(n) => if state == LinkState::Connected {
                transfer_feedback(buf@.take(n as int))
            } else {
                seq![]
            },
            _ => seq![],
        },
{
    match event {
        RxEvent::Connected => (LinkState::Connected, Vec::new()),
        RxEvent::Received(n) => match state {
            LinkState::Connected => (LinkState::Connected, decode_transfer(buf, n)),
            LinkState::WaitingConnection => (LinkState::WaitingConnection, Vec::new()),
        },
        RxEvent::ReadFailed => (LinkState::WaitingConnection, Vec::new()),
    }
}

} // verus!

//! Volume potentiometers: averaging of ADC samples, scaling to the 12-bit
//! range and to the 7-bit MIDI range, and the reporting of changes.
//!
//! The exponential smoothing between [`map_raw`] and [`PotTracker::update`]
//! runs in floating point and is not part of the library.

use vstd::prelude::*;

use crate::display::DisplayCmd;
use crate::midi::MidiMsg;

verus! {

/// Samples averaged per reading.
pub const SAMPLES: u32 = 16;

/// Raw readings at or below this are the bottom of the travel.
pub const RAW_MIN: u16 = 40;

/// Raw readings at or above this are the top of the travel.
pub const RAW_MAX: u16 = 4080;

/// Top of the 12-bit range.
pub const FULL_SCALE: u32 = 4095;

/// Top of the 7-bit MIDI range.
pub const MIDI_MAX: u32 = 127;

/// Sum of a sequence of samples.
pub open spec fn spec_sum(s: Seq<u16>) -> int
    decreases s.len(),
{
    if s.len() == 0 {
        0
    } else {
        spec_sum(s.drop_last()) + s.last()
    }
}

/// The average of `SAMPLES` samples, rounded to nearest (halves up).
pub open spec fn spec_rounded_average(s: Seq<u16>) -> int {
    (spec_sum(s) + SAMPLES as int / 2) / SAMPLES as int
}

/// A 12-bit value scaled to the 7-bit MIDI range, rounded down, and never
/// above 127.
pub open spec fn spec_midi_range(raw: u16) -> int {
    let scaled = raw as int * MIDI_MAX as int / FULL_SCALE as int;
    if scaled < MIDI_MAX as int {
        scaled
    } else {
        MIDI_MAX as int
    }
}

/// `raw` limited to the travel `RAW_MIN..=RAW_MAX`.
pub open spec fn spec_clamped(raw: u16) -> int {
    if raw < RAW_MIN {
        RAW_MIN as int
    } else if raw > RAW_MAX {
        RAW_MAX as int
    } else {
        raw as int
    }
}

/// A raw reading stretched from the travel `RAW_MIN..=RAW_MAX` to the full
/// 12-bit range `0..=4095`, rounded down.
pub open spec fn spec_map_raw(raw: u16) -> int {
    (spec_clamped(raw) - RAW_MIN as int) * FULL_SCALE as int / (RAW_MAX - RAW_MIN) as int
}

proof fn lemma_sum_bounds(s: Seq<u16>, lo: int, hi: int)
    requires
        forall|i: int| 0 <= i < s.len() ==> lo <= #[trigger] s[i] <= hi,
    ensures
        s.len() * lo <= spec_sum(s) <= s.len() * hi,
    decreases s.len(),
{
    if s.len() > 0 {
        let t = s.drop_last();
        assert forall|i: int| 0 <= i < t.len() implies lo <= #[trigger] t[i] <= hi by {
            assert(t[i] == s[i]);
        }
        lemma_sum_bounds(t, lo, hi);
        assert(s.len() * lo == t.len() * lo + lo) by (nonlinear_arith)
            requires
                s.len() == t.len() + 1,
        ;
        assert(s.len() * hi == t.len() * hi + hi) by (nonlinear_arith)
            requires
                s.len() == t.len() + 1,
        ;
    }
}

/// The rounded average of a reading's samples.
pub fn rounded_average(samples: &[u16]) -> (r: u16)
    requires
        samples.len() == SAMPLES,
    ensures
        r == spec_rounded_average(samples@),
        r * 16 <= spec_sum(samples@) + 8 < (r + 1) * 16,
{
    let mut sum: u32 = 0;
    let mut i: usize = 0;
    while i < samples.len()
        invariant
            samples.len() == SAMPLES,
            i <= samples.len(),
            sum == spec_sum(samples@.take(i as int)),
            sum <= i * 65535,
        decreases samples.len() - i,
    {
        assert(samples@.take(i as int + 1).drop_last() =~= samples@.take(i as int));
        sum = sum + samples[i] as u32;
        i = i + 1;
    }
    assert(samples@.take(i as int) =~= samples@);
    proof {
        lemma_rounding(samples@);
    }
    ((sum + SAMPLES / 2) / SAMPLES) as u16
}

/// A reading lies between the least and the greatest of its samples.
pub proof fn lemma_average_within_samples(s: Seq<u16>, lo: u16, hi: u16)
    requires
        s.len() == SAMPLES,
        forall|i: int| 0 <= i < s.len() ==> lo <= #[trigger] s[i] <= hi,
    ensures
        lo <= spec_rounded_average(s) <= hi,
{
    lemma_sum_bounds(s, lo as int, hi as int);
    let sum = spec_sum(s);
    assert(lo <= (sum + 8) / 16 <= hi) by (nonlinear_arith)
        requires
            16 * lo <= sum <= 16 * hi,
    ;
}

/// Converts a filtered 12-bit value to the 0..=127 MIDI range.
pub fn filtered_to_midi_range(raw: u16) -> (r: u8)
    ensures
        r == spec_midi_range(raw),
        raw <= 4095 ==> r * 4095 <= raw * 127 < (r + 1) * 4095,
        raw >= 4095 ==> r == 127,
{
    proof {
        lemma_midi_scaling(raw);
    }
    ((raw as u32 * 127) / 4095).min(127) as u8
}

/// Maps a raw reading onto the full 0..=4095 range.
pub fn map_raw(raw: u16) -> (r: u16)
    ensures
        r == spec_map_raw(raw),
        RAW_MIN <= raw <= RAW_MAX ==> r * 4040 <= (raw - 40) * 4095 < (r + 1) * 4040,
        raw <= RAW_MIN ==> r == 0,
        raw >= RAW_MAX ==> r == 4095,
{
    proof {
        lemma_map_raw_linear(raw);
        lemma_map_raw_range(raw);
    }
    let r: u16 = if raw < RAW_MIN {
        RAW_MIN
    } else if raw > RAW_MAX {
        RAW_MAX
    } else {
        raw
    };
    assert((r - RAW_MIN) as u32 * 4095 / 4040 <= 4095) by (nonlinear_arith)
        requires
            0 <= r - RAW_MIN <= 4040,
    ;
    (((r - RAW_MIN) as u32 * 4095) / (RAW_MAX - RAW_MIN) as u32) as u16
}

/// The mapped range is 0..=4095: the bottom of the travel maps to 0 and the
/// top to 4095.
pub proof fn lemma_map_raw_range(raw: u16)
    ensures
        0 <= spec_map_raw(raw) <= FULL_SCALE,
        raw <= RAW_MIN ==> spec_map_raw(raw) == 0,
        raw >= RAW_MAX ==> spec_map_raw(raw) == FULL_SCALE,
{
    let d = spec_clamped(raw) - RAW_MIN;
    assert(0 <= d * 4095 / 4040 <= 4095) by (nonlinear_arith)
        requires
            0 <= d <= 4040,
    ;
}

/// Turning a potentiometer further never lowers the mapped value.
pub proof fn lemma_map_raw_monotone(a: u16, b: u16)
    requires
        a <= b,
    ensures
        spec_map_raw(a) <= spec_map_raw(b),
{
    let da = spec_clamped(a) - RAW_MIN;
    let db = spec_clamped(b) - RAW_MIN;
    assert(da * 4095 / 4040 <= db * 4095 / 4040) by (nonlinear_arith)
        requires
            0 <= da <= db,
    ;
}

/// The MIDI value is in 0..=127, rises with its input, and reaches 127
/// exactly at full scale.
pub proof fn lemma_midi_range(a: u16, b: u16)
    requires
        a <= b,
    ensures
        0 <= spec_midi_range(a) <= MIDI_MAX,
        spec_midi_range(a) <= spec_midi_range(b),
        spec_midi_range(0) == 0,
        spec_midi_range(4095) == MIDI_MAX,
        a < FULL_SCALE ==> spec_midi_range(a) < MIDI_MAX,
{
    assert(a as int * 127 / 4095 <= b as int * 127 / 4095) by (nonlinear_arith)
        requires
            0 <= a <= b,
    ;
    assert(a < 4095 ==> a as int * 127 / 4095 < 127) by (nonlinear_arith)
        requires
            0 <= a,
    ;
}

/// The ends of the potentiometer's travel reach the ends of the MIDI range:
/// a steady reading at or below `RAW_MIN` reports 0, at or above `RAW_MAX`
/// reports 127.
pub proof fn lemma_travel_ends(raw: u16)
    ensures
        raw <= RAW_MIN ==> spec_midi_range(spec_map_raw(raw) as u16) == 0,
        raw >= RAW_MAX ==> spec_midi_range(spec_map_raw(raw) as u16) == MIDI_MAX,
{
    lemma_map_raw_range(raw);
}

/// A reading is the sum of its 16 samples divided by 16, rounded to nearest
/// with halves up: `avg * 16 <= sum + 8 < (avg + 1) * 16`.
pub proof fn lemma_rounding(s: Seq<u16>)
    ensures
        spec_rounded_average(s) * 16 <= spec_sum(s) + 8 < (spec_rounded_average(s) + 1) * 16,
{
    let n = spec_sum(s) + 8;
    let q = n / 16;
    assert(q * 16 <= n < (q + 1) * 16) by (nonlinear_arith)
        requires
            q == n / 16,
    ;
}

/// The 7-bit value is the 12-bit value scaled from 0..=4095 onto 0..=127,
/// rounded down: `midi * 4095 <= raw * 127 < (midi + 1) * 4095`; from 4095
/// on it is 127.
pub proof fn lemma_midi_scaling(raw: u16)
    ensures
        raw <= 4095 ==> spec_midi_range(raw) * 4095 <= raw * 127 < (spec_midi_range(raw) + 1)
            * 4095,
        raw >= 4095 ==> spec_midi_range(raw) == 127,
{
    let q = raw as int * 127 / 4095;
    assert(q * 4095 <= raw * 127 < (q + 1) * 4095) by (nonlinear_arith)
        requires
            q == raw as int * 127 / 4095,
            0 <= raw,
    ;
    assert(raw <= 4095 ==> q <= 127) by (nonlinear_arith)
        requires
            q == raw as int * 127 / 4095,
            0 <= raw,
    ;
    assert(raw >= 4095 ==> q >= 127) by (nonlinear_arith)
        requires
            q == raw as int * 127 / 4095,
    ;
}

/// Over the travel the mapping is a linear stretch of `raw - 40` by
/// 4095 / 4040, rounded down: `m * 4040 <= (raw - 40) * 4095 <
/// (m + 1) * 4040`; below the travel it is 0, above it 4095.
pub proof fn lemma_map_raw_linear(raw: u16)
    ensures
        RAW_MIN <= raw <= RAW_MAX ==> spec_map_raw(raw) * 4040 <= (raw - 40) * 4095 < (
        spec_map_raw(raw) + 1) * 4040,
        raw < RAW_MIN ==> spec_map_raw(raw) == 0,
        raw > RAW_MAX ==> spec_map_raw(raw) == 4095,
{
    let d = spec_clamped(raw) - 40;
    let q = d * 4095 / 4040;
    assert(q * 4040 <= d * 4095 < (q + 1) * 4040) by (nonlinear_arith)
        requires
            q == d * 4095 / 4040,
    ;
}

/// Every move of the 7-bit value is reported, up or down: a new reading is
/// reported exactly when its 7-bit value differs from the last one sent, and
/// the report carries that value. A reading equal to the last one is never
/// reported.
pub proof fn lemma_pot_reports_every_move(t: PotTracker, f: u16)
    ensures
        f != t.last_filtered ==> (spec_pot_step(t, f).1 is Some <==> spec_midi_range(f)
            != t.last_midi),
        f == t.last_filtered ==> spec_pot_step(t, f).1 is None,
        spec_pot_step(t, f).1 matches Some(v) ==> v == spec_midi_range(f),
        f != t.last_filtered ==> spec_pot_step(t, f).0.last_filtered == f,
{
    lemma_midi_range(f, f);
}

/// Which MIDI control change a pot sends: 0 for deck 0, 1 otherwise.
pub open spec fn spec_pot_cc(channel: usize) -> u8 {
    if channel == 0 {
        0x00
    } else {
        0x01
    }
}

/// What a pot last reported: the last filtered reading seen and the last
/// MIDI value sent.
#[derive(Clone, Copy, Debug, PartialEq, Eq, Structural)]
pub struct PotTracker {
    pub last_filtered: u16,
    pub last_midi: u8,
}

/// One reading of a pot: the next tracker, and the MIDI value to report, if
/// any. A reading equal to the last one is ignored; otherwise it is
/// remembered, and reported when its MIDI value differs from the last sent.
pub open spec fn spec_pot_step(t: PotTracker, filtered: u16) -> (PotTracker, Option<u8>) {
    if filtered == t.last_filtered {
        (t, None)
    } else {
        let data = spec_midi_range(filtered) as u8;
        if data == t.last_midi {
            (PotTracker { last_filtered: filtered, last_midi: t.last_midi }, None)
        } else {
            (PotTracker { last_filtered: filtered, last_midi: data }, Some(data))
        }
    }
}

/// The messages that report MIDI value `data` of the pot of `channel`.
pub open spec fn spec_pot_report(channel: usize, data: u8) -> (MidiMsg, DisplayCmd) {
    (
        MidiMsg::ControlChange { cc: spec_pot_cc(channel), value: data },
        DisplayCmd::DrawPot(data, channel),
    )
}

impl PotTracker {
    /// A tracker that has seen nothing: the values it holds are out of
    /// range, so the first reading is always reported.
    pub fn new() -> (r: PotTracker)
        ensures
            r.last_filtered == u16::MAX,
            r.last_midi == 0xFF,
    {
        PotTracker { last_filtered: u16::MAX, last_midi: 0xFF }
    }

    /// Takes a filtered reading of the pot of `channel` and returns the
    /// control change and the display command that report it, if it must be
    /// reported.
    pub fn update(&mut self, filtered: u16, channel: usize) -> (r: Option<(MidiMsg, DisplayCmd)>)
        ensures
            *final(self) == spec_pot_step(*old(self), filtered).0,
            r == match spec_pot_step(*old(self), filtered).1 {
                Some(data) => Some(spec_pot_report(channel, data)),
                None => None,
            },
    {
        if filtered != self.last_filtered {
            self.last_filtered = filtered;
            let data = filtered_to_midi_range(filtered);
            if data != self.last_midi {
                self.last_midi = data;
                let cc: u8 = if channel == 0 { 0x00 } else { 0x01 };
                return Some((MidiMsg::ControlChange { cc, value: data }, DisplayCmd::DrawPot(data, channel)));
            }
        }
        None
    }
}

/// A report always carries the MIDI value of the reading, never repeats the
/// value sent before it, and becomes the value remembered as sent.
pub proof fn lemma_reports_change(t: PotTracker, filtered: u16)
    ensures
        spec_pot_step(t, filtered).1 matches Some(data) ==> {
            &&& data == spec_midi_range(filtered)
            &&& data != t.last_midi
            &&& spec_pot_step(t, filtered).0.last_midi == data
        },
        spec_pot_step(t, filtered).1 is None ==> spec_pot_step(t, filtered).0.last_midi
            == t.last_midi,
{
    lemma_midi_range(filtered, filtered);
}

/// The same reading twice in a row is reported at most once.
pub proof fn lemma_repeat_reading_silent(t: PotTracker, filtered: u16)
    ensures
        spec_pot_step(spec_pot_step(t, filtered).0, filtered).1 is None,
        spec_pot_step(spec_pot_step(t, filtered).0, filtered).0 == spec_pot_step(t, filtered).0,
{
}

/// The first reading of a fresh tracker is reported, whatever it is, as long
/// as it is in the 12-bit range.
pub proof fn lemma_first_reading_reported(filtered: u16)
    requires
        filtered <= FULL_SCALE,
    ensures
        spec_pot_step(PotTracker { last_filtered: u16::MAX, last_midi: 0xFF }, filtered).1
            == Some(spec_midi_range(filtered) as u8),
{
    lemma_midi_range(filtered, filtered);
}

} // verus!

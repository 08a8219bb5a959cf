//! The MIDI track of a project: a tempo event wherever the tempo changes and a
//! note-on/note-off pair for every beat, accented on the first beat of a bar.
use vstd::prelude::*;
use vstd::arithmetic::div_mod::lemma_fundamental_div_mod_converse;
use crate::config::Config;
use crate::section::{measures_or, Section};

verus! {

pub const DEFAULT_TICKS_PER_BEAT: u16 = 480;
pub const DEFAULT_DRUM_CHANNEL: u8 = 9;
/// High wood block.
pub const DEFAULT_NOTE_ACCENT: u8 = 76;
/// Side stick.
pub const DEFAULT_NOTE_NORMAL: u8 = 37;
/// How long a note is held, in ticks.
pub const DEFAULT_NOTE_DURATION_TICKS: u32 = 10;
pub const DEFAULT_VELOCITY_ACCENT: u8 = 127;
pub const DEFAULT_VELOCITY_NORMAL: u8 = 90;

/// Sixty seconds in microseconds: a tempo of one beat per minute.
pub const SIXTY_SECONDS_IN_MICROSECONDS: u32 = 60_000_000;

/// The settings of the MIDI rendering.
#[derive(Clone, Copy, Debug, PartialEq, Eq, Structural)]
pub struct MidiConfigs {
    /// midi channel (0-15 - zero-indexed)
    pub channel: u8,
    /// ticks per beat (quarter note)
    pub ticks_per_beat: u16,
    /// accent note
    pub note_accent: u8,
    /// normal (click) note
    pub note_normal: u8,
    /// how the note is held
    pub duration: u32,
    /// velocity accent
    pub velocity_accent: u8,
    /// velocity normal
    pub velocity_normal: u8,
}

impl Default for MidiConfigs {
    fn default() -> (r: Self)
        ensures
            r == (MidiConfigs {
                channel: DEFAULT_DRUM_CHANNEL,
                ticks_per_beat: DEFAULT_TICKS_PER_BEAT,
                note_accent: DEFAULT_NOTE_ACCENT,
                note_normal: DEFAULT_NOTE_NORMAL,
                duration: DEFAULT_NOTE_DURATION_TICKS,
                velocity_accent: DEFAULT_VELOCITY_ACCENT,
                velocity_normal: DEFAULT_VELOCITY_NORMAL,
            }),
    {
        Self {
            channel: DEFAULT_DRUM_CHANNEL,
            ticks_per_beat: DEFAULT_TICKS_PER_BEAT,
            note_accent: DEFAULT_NOTE_ACCENT,
            note_normal: DEFAULT_NOTE_NORMAL,
            duration: DEFAULT_NOTE_DURATION_TICKS,
            velocity_accent: DEFAULT_VELOCITY_ACCENT,
            velocity_normal: DEFAULT_VELOCITY_NORMAL,
        }
    }
}

impl MidiConfigs {
    pub fn channel(&mut self, v: u8)
        ensures
            *final(self) == (MidiConfigs { channel: v, ..*old(self) }),
    {
        self.channel = v;
    }

    pub fn ticks_per_beat(&mut self, v: u16)
        ensures
            *final(self) == (MidiConfigs { ticks_per_beat: v, ..*old(self) }),
    {
        self.ticks_per_beat = v;
    }

    pub fn note_accent(&mut self, v: u8)
        ensures
            *final(self) == (MidiConfigs { note_accent: v, ..*old(self) }),
    {
        self.note_accent = v;
    }

    pub fn note_normal(&mut self, v: u8)
        ensures
            *final(self) == (MidiConfigs { note_normal: v, ..*old(self) }),
    {
        self.note_normal = v;
    }

    pub fn duration(&mut self, v: u32)
        ensures
            *final(self) == (MidiConfigs { duration: v, ..*old(self) }),
    {
        self.duration = v;
    }

    pub fn velocity_accent(&mut self, v: u8)
        ensures
            *final(self) == (MidiConfigs { velocity_accent: v, ..*old(self) }),
    {
        self.velocity_accent = v;
    }

    pub fn velocity_normal(&mut self, v: u8)
        ensures
            *final(self) == (MidiConfigs { velocity_normal: v, ..*old(self) }),
    {
        self.velocity_normal = v;
    }

    /// The tick resolution as the 15-bit number that the file header holds.
    pub fn header_ticks_per_beat(&self) -> (r: u16)
        ensures
            r == u15_value(self.ticks_per_beat),
    {
        midly_u15(self.ticks_per_beat)
    }
}

/// What a MIDI event does.
#[derive(Clone, Copy, Debug, PartialEq, Eq, Structural)]
pub enum MidiEventKind {
    /// Sets the tempo, in microseconds per quarter note.
    Tempo(u32),
    NoteOn { channel: u8, key: u8, vel: u8 },
    NoteOff { channel: u8, key: u8, vel: u8 },
    EndOfTrack,
}

/// An event of the track, `delta` ticks after the one before it.
#[derive(Clone, Copy, Debug, PartialEq, Eq, Structural)]
pub struct MidiEvent {
    pub delta: u32,
    pub kind: MidiEventKind,
}

/// The low 28 bits of `x`: the range of a delta time.
pub open spec fn u28_value(x: u32) -> u32 {
    x & 0x0fff_ffffu32
}

/// The low 24 bits of `x`: the range of a tempo.
pub open spec fn u24_value(x: u32) -> u32 {
    x & 0x00ff_ffffu32
}

/// The low 15 bits of `x`: the range of the tick resolution.
pub open spec fn u15_value(x: u16) -> u16 {
    x & 0x7fffu16
}

/// The low 7 bits of `x`: the range of a key or a velocity.
pub open spec fn u7_value(x: u8) -> u8 {
    x & 0x7fu8
}

/// The low 4 bits of `x`: the range of a channel.
pub open spec fn u4_value(x: u8) -> u8 {
    x & 0x0fu8
}

/// `midly::num::u28::from`, read back with `as_int`: keeps the low 28 bits.
#[verifier::external_body]
fn midly_u28(x: u32) -> (r: u32)
    ensures
        r == u28_value(x),
{
    midly::num::u28::from(x).as_int()
}

/// `midly::num::u24::from`, read back with `as_int`: keeps the low 24 bits.
#[verifier::external_body]
fn midly_u24(x: u32) -> (r: u32)
    ensures
        r == u24_value(x),
{
    midly::num::u24::from(x).as_int()
}

/// `midly::num::u15::from`, read back with `as_int`: keeps the low 15 bits.
#[verifier::external_body]
fn midly_u15(x: u16) -> (r: u16)
    ensures
        r == u15_value(x),
{
    midly::num::u15::from(x).as_int()
}

/// `midly::num::u7::from`, read back with `as_int`: keeps the low 7 bits.
#[verifier::external_body]
fn midly_u7(x: u8) -> (r: u8)
    ensures
        r == u7_value(x),
{
    midly::num::u7::from(x).as_int()
}

/// `midly::num::u4::from`, read back with `as_int`: keeps the low 4 bits.
#[verifier::external_body]
fn midly_u4(x: u8) -> (r: u8)
    ensures
        r == u4_value(x),
{
    midly::num::u4::from(x).as_int()
}

/// Microseconds per quarter note at `bpm` beats per minute, rounded down; a
/// tempo of zero beats per minute gives the largest value.
pub open spec fn tempo_of(bpm: u32) -> u32 {
    if bpm == 0 { u32::MAX } else { (SIXTY_SECONDS_IN_MICROSECONDS / bpm) as u32 }
}

/// `a - b`, or zero where `b` is larger.
pub open spec fn sat_sub(a: int, b: int) -> int {
    if a >= b { a - b } else { 0 }
}

/// The number of beats that a section plays.
pub open spec fn section_beats(s: Section, fallback: u32) -> int {
    measures_or(s, fallback) as int * s.time_signature.beats_per_bar as int
}

/// The tick at which section `i` starts, with `ticks[k]` ticks per beat of section `k`.
pub open spec fn track_start(ss: Seq<Section>, ticks: Seq<u32>, fallback: u32, i: int) -> int
    decreases i,
{
    if i <= 0 {
        0
    } else {
        track_start(ss, ticks, fallback, i - 1) + section_beats(ss[i - 1], fallback) * ticks[i - 1]
    }
}

/// Section `i` begins with a tempo event: it is the first section or its tempo
/// differs from that of the section before it.
pub open spec fn tempo_change(ss: Seq<Section>, i: int) -> bool {
    i == 0 || ss[i - 1].bpm != ss[i].bpm
}

/// The tick from which the first event of section `i` counts its delta: the
/// end of the last note before it, the tick of the last tempo event where that
/// came later, or zero.
pub open spec fn last_tick(ss: Seq<Section>, ticks: Seq<u32>, fallback: u32, duration: u32, i: int) -> int
    decreases i,
{
    if i <= 0 {
        0
    } else {
        let k = i - 1;
        if section_beats(ss[k], fallback) > 0 {
            track_start(ss, ticks, fallback, k) + (section_beats(ss[k], fallback) - 1) * ticks[k] + duration
        } else if tempo_change(ss, k) {
            track_start(ss, ticks, fallback, k)
        } else {
            last_tick(ss, ticks, fallback, duration, k)
        }
    }
}

/// The tick from which the first note of section `i` counts its delta.
pub open spec fn note_anchor(ss: Seq<Section>, ticks: Seq<u32>, fallback: u32, duration: u32, i: int) -> int {
    if tempo_change(ss, i) {
        track_start(ss, ticks, fallback, i)
    } else {
        last_tick(ss, ticks, fallback, duration, i)
    }
}

/// Every tick that the rendering computes fits in 32 bits.
pub open spec fn ticks_fit(ss: Seq<Section>, ticks: Seq<u32>, fallback: u32, duration: u32) -> bool {
    &&& ticks.len() == ss.len()
    &&& track_start(ss, ticks, fallback, ss.len() as int) <= u32::MAX
    &&& forall|i: int| 0 < i <= ss.len() ==> #[trigger] last_tick(ss, ticks, fallback, duration, i) <= u32::MAX
}

/// Event `k` of the notes of section `i`: for beat `k / 2`, a note-on at even
/// `k`, a note-off at odd `k`. The first beat of a bar is accented.
pub open spec fn section_note(
    ss: Seq<Section>,
    ticks: Seq<u32>,
    cfg: MidiConfigs,
    fallback: u32,
    i: int,
    k: int,
) -> MidiEvent {
    let s = ss[i];
    let j = k / 2;
    let accent = j % (s.time_signature.beats_per_bar as int) == 0;
    let key = if accent { cfg.note_accent } else { cfg.note_normal };
    let vel = if accent { cfg.velocity_accent } else { cfg.velocity_normal };
    if k % 2 == 0 {
        let delta = if j == 0 {
            sat_sub(track_start(ss, ticks, fallback, i), note_anchor(ss, ticks, fallback, cfg.duration, i))
        } else {
            sat_sub(ticks[i] as int, cfg.duration as int)
        };
        MidiEvent {
            delta: u28_value(delta as u32),
            kind: MidiEventKind::NoteOn { channel: u4_value(cfg.channel), key: u7_value(key), vel: u7_value(vel) },
        }
    } else {
        MidiEvent {
            delta: u28_value(cfg.duration),
            kind: MidiEventKind::NoteOff { channel: u4_value(cfg.channel), key: u7_value(key), vel: 0 },
        }
    }
}

/// The tempo event that opens section `i`, where it has one.
pub open spec fn section_head(ss: Seq<Section>, ticks: Seq<u32>, cfg: MidiConfigs, fallback: u32, i: int) -> Seq<MidiEvent> {
    if tempo_change(ss, i) {
        seq![MidiEvent {
            delta: u28_value(sat_sub(
                track_start(ss, ticks, fallback, i),
                last_tick(ss, ticks, fallback, cfg.duration, i),
            ) as u32),
            kind: MidiEventKind::Tempo(u24_value(tempo_of(ss[i].bpm))),
        }]
    } else {
        seq![]
    }
}

/// The events of section `i`: its tempo event, if any, then its notes.
pub open spec fn section_midi_events(ss: Seq<Section>, ticks: Seq<u32>, cfg: MidiConfigs, fallback: u32, i: int) -> Seq<MidiEvent> {
    section_head(ss, ticks, cfg, fallback, i) + Seq::new(
        (2 * section_beats(ss[i], fallback)) as nat,
        |k: int| section_note(ss, ticks, cfg, fallback, i, k),
    )
}

/// The events of the first `n` sections.
pub open spec fn events_upto(ss: Seq<Section>, ticks: Seq<u32>, cfg: MidiConfigs, fallback: u32, n: int) -> Seq<MidiEvent>
    decreases n,
{
    if n <= 0 {
        seq![]
    } else {
        events_upto(ss, ticks, cfg, fallback, n - 1) + section_midi_events(ss, ticks, cfg, fallback, n - 1)
    }
}

/// The whole track: the events of every section, then the end of the track.
pub open spec fn spec_midi_track(ss: Seq<Section>, ticks: Seq<u32>, cfg: MidiConfigs, fallback: u32) -> Seq<MidiEvent> {
    events_upto(ss, ticks, cfg, fallback, ss.len() as int)
        + seq![MidiEvent { delta: 0, kind: MidiEventKind::EndOfTrack }]
}

proof fn lemma_track_start_monotone(ss: Seq<Section>, ticks: Seq<u32>, fallback: u32, i: int, k: int)
    requires
        0 <= i <= k <= ss.len(),
        ticks.len() == ss.len(),
    ensures
        track_start(ss, ticks, fallback, i) <= track_start(ss, ticks, fallback, k),
        0 <= track_start(ss, ticks, fallback, i),
    decreases k,
{
    if k > 0 {
        if i < k {
            lemma_track_start_monotone(ss, ticks, fallback, i, k - 1);
        } else {
            lemma_track_start_monotone(ss, ticks, fallback, 0, k - 1);
        }
        let b = section_beats(ss[k - 1], fallback);
        let t = ticks[k - 1] as int;
        assert(b * t >= 0) by (nonlinear_arith)
            requires b == measures_or(ss[k - 1], fallback) as int * ss[k - 1].time_signature.beats_per_bar as int,
                t >= 0;
    }
}

/// The tempo in microseconds per quarter note. This equals the truncated
/// double division `60e6 / bpm`: for a whole `bpm` above zero that quotient is
/// never within rounding distance of a whole number it does not equal, so
/// truncation gives the integer quotient; zero gives infinity, which saturates.
fn tempo_for(bpm: u32) -> (t: u32)
    ensures
        t == tempo_of(bpm),
{
    if bpm == 0 {
        u32::MAX
    } else {
        SIXTY_SECONDS_IN_MICROSECONDS / bpm
    }
}

/// Says whether every tick of the track fits in 32 bits, which the rendering
/// needs; `beat_ticks[i]` is the length of a beat of section `i` in ticks.
pub fn midi_ticks_fit(
    sections: &Vec<Section>,
    midi_config: &MidiConfigs,
    profile: &Config,
    beat_ticks: &Vec<u32>,
) -> (ok: bool)
    ensures
        ok == ticks_fit(sections@, beat_ticks@, profile.num_meassures_fallback, midi_config.duration),
{
    let ghost ss = sections@;
    let ghost ts = beat_ticks@;
    let fallback = profile.num_meassures_fallback;
    let dur = midi_config.duration as u64;
    if beat_ticks.len() != sections.len() {
        return false;
    }
    let n = sections.len();
    let mut start: u64 = 0;
    let mut last: u64 = 0;
    let mut i: usize = 0;
    while i < n
        invariant
            i <= n,
            n == ss.len(),
            ts.len() == ss.len(),
            ss == sections@,
            ts == beat_ticks@,
            fallback == profile.num_meassures_fallback,
            dur == midi_config.duration,
            start == track_start(ss, ts, fallback, i as int),
            last == last_tick(ss, ts, fallback, midi_config.duration, i as int),
            start <= u32::MAX,
            forall|k: int| 0 < k <= i ==> #[trigger] last_tick(ss, ts, fallback, midi_config.duration, k) <= u32::MAX,
        decreases n - i,
    {
        let s = &sections[i];
        let nm: u64 = match s.measures {
            Some(m) => m as u64,
            None => fallback as u64,
        };
        let bpb: u64 = s.time_signature.beats_per_bar as u64;
        proof {
            assert(nm * bpb <= 0xffff_ffff * 0xffff_ffffu64) by (nonlinear_arith)
                requires nm <= 0xffff_ffff, bpb <= 0xffff_ffff;
        }
        let beats: u64 = nm * bpb;
        let t = beat_ticks[i] as u64;
        assert(beats == section_beats(ss[i as int], fallback));
        let room: u64 = 0xffff_ffffu64 - start;
        if t > 0 && beats > room / t {
            proof {
                let q = room / t;
                assert(beats * t > room) by (nonlinear_arith)
                    requires t > 0, beats > q, q == room / t;
                lemma_track_start_monotone(ss, ts, fallback, i as int + 1, n as int);
            }
            return false;
        }
        proof {
            if t > 0 {
                let q = room / t;
                assert(beats * t <= room) by (nonlinear_arith)
                    requires t > 0, beats <= q, q == room / t;
            }
        }
        let next_start = start + beats * t;
        let tempo = i == 0 || sections[i - 1].bpm != s.bpm;
        let next_last = if beats > 0 {
            proof {
                assert((beats - 1) * t <= beats * t) by (nonlinear_arith) requires beats > 0, t >= 0;
            }
            start + (beats - 1) * t + dur
        } else if tempo {
            start
        } else {
            last
        };
        assert(next_last == last_tick(ss, ts, fallback, midi_config.duration, i as int + 1));
        if next_last > 0xffff_ffffu64 {
            return false;
        }
        start = next_start;
        last = next_last;
        i = i + 1;
    }
    true
}

/// Multiplying by the same non-negative factor keeps an order.
proof fn lemma_mul_le(a: int, b: int, t: int)
    requires
        0 <= a <= b,
        0 <= t,
    ensures
        0 <= a * t <= b * t,
{
    assert(0 <= a * t <= b * t) by (nonlinear_arith)
        requires 0 <= a <= b, 0 <= t;
}

/// The MIDI track of a project's sections: for each section, a tempo event
/// where the tempo changes, then a note-on and a note-off for every beat, the
/// first beat of each bar accented; then the end of the track.
/// `beat_ticks[i]` is the length of a beat of section `i` in ticks.
pub fn midi_track(
    sections: &Vec<Section>,
    midi_config: &MidiConfigs,
    profile: &Config,
    beat_ticks: &Vec<u32>,
) -> (track: Vec<MidiEvent>)
    requires
        ticks_fit(sections@, beat_ticks@, profile.num_meassures_fallback, midi_config.duration),
    ensures
        track@ == spec_midi_track(sections@, beat_ticks@, *midi_config, profile.num_meassures_fallback),
{
    let ghost ss = sections@;
    let ghost ts = beat_ticks@;
    let ghost cfg = *midi_config;
    let fallback = profile.num_meassures_fallback;
    let duration = midi_config.duration;
    let channel = midly_u4(midi_config.channel);
    let n = sections.len();
    let mut track: Vec<MidiEvent> = Vec::new();
    let mut last: u32 = 0;
    let mut cursor: u32 = 0;
    let mut last_bpm: Option<u32> = None;
    let mut i: usize = 0;
    while i < n
        invariant
            i <= n,
            n == ss.len(),
            ss == sections@,
            ts == beat_ticks@,
            cfg == *midi_config,
            fallback == profile.num_meassures_fallback,
            duration == cfg.duration,
            channel == u4_value(cfg.channel),
            ticks_fit(ss, ts, fallback, duration),
            cursor == track_start(ss, ts, fallback, i as int),
            last == last_tick(ss, ts, fallback, duration, i as int),
            last_bpm == (if i == 0 { None } else { Some(ss[i - 1].bpm) }),
            track@ == events_upto(ss, ts, cfg, fallback, i as int),
        decreases n - i,
    {
        let section = &sections[i];
        let nm: u32 = match section.measures {
            Some(m) => m,
            None => fallback,
        };
        let bpb = section.time_signature.beats_per_bar;
        let t = beat_ticks[i];
        let ghost beats = section_beats(ss[i as int], fallback);
        let ghost start = track_start(ss, ts, fallback, i as int);
        assert(beats == nm as int * bpb as int);
        proof {
            lemma_track_start_monotone(ss, ts, fallback, i as int + 1, n as int);
            lemma_track_start_monotone(ss, ts, fallback, i as int, n as int);
            assert(last_tick(ss, ts, fallback, duration, i as int + 1) <= u32::MAX);
            lemma_mul_le(0, nm as int, bpb as int);
        }
        let tempo_needed = match last_bpm {
            Some(b) => b != section.bpm,
            None => true,
        };
        assert(tempo_needed == tempo_change(ss, i as int));
        if tempo_needed {
            let tempo = tempo_for(section.bpm);
            let delta = cursor.saturating_sub(last);
            let tempo_event = MidiEvent { delta: midly_u28(delta), kind: MidiEventKind::Tempo(midly_u24(tempo)) };
            track.push(tempo_event);
            last = cursor;
        }
        let ghost base = events_upto(ss, ts, cfg, fallback, i as int) + section_head(ss, ts, cfg, fallback, i as int);
        assert(track@ == base);
        assert(last == note_anchor(ss, ts, fallback, duration, i as int));
        let mut measure: u32 = 0;
        while measure < nm
            invariant
                measure <= nm,
                i < n,
                n == ss.len(),
                ss == sections@,
                ts == beat_ticks@,
                cfg == *midi_config,
                fallback == profile.num_meassures_fallback,
                duration == cfg.duration,
                channel == u4_value(cfg.channel),
                ts.len() == ss.len(),
                ts[i as int] == t,
                ss[i as int].time_signature.beats_per_bar == bpb,
                beats == nm as int * bpb as int,
                beats == section_beats(ss[i as int], fallback),
                start == track_start(ss, ts, fallback, i as int),
                start + beats * t <= u32::MAX,
                beats > 0 ==> start + (beats - 1) * t + duration <= u32::MAX,
                0 <= measure as int * bpb as int <= beats,
                cursor == start + (measure as int * bpb as int) * t,
                last == (if measure as int * bpb as int == 0 { note_anchor(ss, ts, fallback, duration, i as int) }
                    else { start + (measure as int * bpb as int - 1) * t + duration }),
                track@ == base + Seq::new((2 * (measure as int * bpb as int)) as nat,
                    |k: int| section_note(ss, ts, cfg, fallback, i as int, k)),
            decreases nm - measure,
        {
            proof {
                lemma_mul_le(measure as int + 1, nm as int, bpb as int);
                assert((measure as int + 1) * bpb as int == measure as int * bpb as int + bpb as int)
                    by (nonlinear_arith);
            }
            let mut beat: u32 = 0;
            while beat < bpb
                invariant
                    measure < nm,
                    beat <= bpb,
                    i < n,
                    n == ss.len(),
                    ss == sections@,
                    ts == beat_ticks@,
                    cfg == *midi_config,
                    fallback == profile.num_meassures_fallback,
                    duration == cfg.duration,
                    channel == u4_value(cfg.channel),
                    ts.len() == ss.len(),
                    ts[i as int] == t,
                    ss[i as int].time_signature.beats_per_bar == bpb,
                    beats == nm as int * bpb as int,
                    beats == section_beats(ss[i as int], fallback),
                    start == track_start(ss, ts, fallback, i as int),
                    start + beats * t <= u32::MAX,
                    beats > 0 ==> start + (beats - 1) * t + duration <= u32::MAX,
                    0 <= measure as int * bpb as int + beat as int <= beats,
                    measure as int * bpb as int + bpb as int <= beats,
                    cursor == start + (measure as int * bpb as int + beat as int) * t,
                    last == (if measure as int * bpb as int + beat as int == 0 { note_anchor(ss, ts, fallback, duration, i as int) }
                        else { start + (measure as int * bpb as int + beat as int - 1) * t + duration }),
                    track@ == base + Seq::new((2 * (measure as int * bpb as int + beat as int)) as nat,
                        |k: int| section_note(ss, ts, cfg, fallback, i as int, k)),
                decreases bpb - beat,
            {
                let ghost j = measure as int * bpb as int + beat as int;
                proof {
                    lemma_fundamental_div_mod_converse(j, bpb as int, measure as int, beat as int);
                    lemma_mul_le(j + 1, beats, t as int);
                    lemma_mul_le(j, beats - 1, t as int);
                    assert((j + 1) * t == j * t + t) by (nonlinear_arith);
                    if j > 0 {
                        assert(j * t == (j - 1) * t + t) by (nonlinear_arith);
                    } else {
                        assert(j * t == 0) by (nonlinear_arith) requires j == 0;
                    }
                }
                let (note, vel) = if beat == 0 {
                    (midi_config.note_accent, midi_config.velocity_accent)
                } else {
                    (midi_config.note_normal, midi_config.velocity_normal)
                };
                let note_on_tick = cursor;
                cursor = cursor + t;
                let delta = note_on_tick.saturating_sub(last);
                let key = midly_u7(note);
                let on = MidiEvent {
                    delta: midly_u28(delta),
                    kind: MidiEventKind::NoteOn { channel, key, vel: midly_u7(vel) },
                };
                let off = MidiEvent {
                    delta: midly_u28(duration),
                    kind: MidiEventKind::NoteOff { channel, key, vel: 0 },
                };
                assert(on == section_note(ss, ts, cfg, fallback, i as int, 2 * j));
                assert(off == section_note(ss, ts, cfg, fallback, i as int, 2 * j + 1));
                track.push(on);
                track.push(off);
                last = note_on_tick + duration;
                beat = beat + 1;
                assert(track@ =~= base + Seq::new((2 * (j + 1)) as nat,
                    |k: int| section_note(ss, ts, cfg, fallback, i as int, k)));
            }
            measure = measure + 1;
        }
        proof {
            assert(track@ =~= events_upto(ss, ts, cfg, fallback, i as int + 1));
        }
        last_bpm = Some(section.bpm);
        i = i + 1;
    }
    track.push(MidiEvent { delta: 0, kind: MidiEventKind::EndOfTrack });
    track
}

/// The sum of the deltas of `events`: the tick of the last of them.
pub open spec fn delta_sum(events: Seq<MidiEvent>) -> int
    decreases events.len(),
{
    if events.len() == 0 {
        0
    } else {
        delta_sum(events.drop_last()) + events.last().delta
    }
}

/// No note is held longer than a beat of its section.
pub open spec fn notes_within_beats(ss: Seq<Section>, ticks: Seq<u32>, fallback: u32, duration: u32) -> bool {
    forall|i: int| 0 <= i < ss.len() && section_beats(ss[i], fallback) > 0 ==> duration <= #[trigger] ticks[i]
}

/// Every tick of the track, and the note length, fit in a MIDI delta time.
pub open spec fn ticks_below_delta_limit(ss: Seq<Section>, ticks: Seq<u32>, fallback: u32, duration: u32) -> bool {
    &&& track_start(ss, ticks, fallback, ss.len() as int) < 0x1000_0000
    &&& duration < 0x1000_0000
}

/// The position in the track of the note-on of beat `j` of section `i`.
pub open spec fn note_on_index(ss: Seq<Section>, ticks: Seq<u32>, cfg: MidiConfigs, fallback: u32, i: int, j: int) -> int {
    events_upto(ss, ticks, cfg, fallback, i).len() + section_head(ss, ticks, cfg, fallback, i).len() + 2 * j
}

proof fn lemma_delta_sum_concat(a: Seq<MidiEvent>, b: Seq<MidiEvent>)
    ensures
        delta_sum(a + b) == delta_sum(a) + delta_sum(b),
    decreases b.len(),
{
    if b.len() == 0 {
        assert(a + b =~= a);
    } else {
        lemma_delta_sum_concat(a, b.drop_last());
        assert((a + b).drop_last() =~= a + b.drop_last());
    }
}

proof fn lemma_delta_sum_push(a: Seq<MidiEvent>, k: int)
    requires
        0 <= k < a.len(),
    ensures
        delta_sum(a.take(k + 1)) == delta_sum(a.take(k)) + a[k].delta,
{
    assert(a.take(k + 1).drop_last() =~= a.take(k));
}

proof fn lemma_u28_identity(x: u32)
    requires
        x < 0x1000_0000,
    ensures
        u28_value(x) == x,
{
    assert(x < 0x1000_0000u32 ==> x & 0x0fff_ffffu32 == x) by (bit_vector);
}

/// Notes that stay within their beats end before the next section starts.
proof fn lemma_last_le_start(ss: Seq<Section>, ticks: Seq<u32>, fallback: u32, duration: u32, i: int)
    requires
        ticks.len() == ss.len(),
        0 <= i <= ss.len(),
        notes_within_beats(ss, ticks, fallback, duration),
    ensures
        0 <= last_tick(ss, ticks, fallback, duration, i) <= track_start(ss, ticks, fallback, i),
    decreases i,
{
    lemma_track_start_monotone(ss, ticks, fallback, 0, i);
    if i > 0 {
        let k = i - 1;
        lemma_last_le_start(ss, ticks, fallback, duration, k);
        lemma_track_start_monotone(ss, ticks, fallback, k, i);
        let b = section_beats(ss[k], fallback);
        let t = ticks[k] as int;
        if b > 0 {
            assert(duration <= ticks[k]);
            assert((b - 1) * t + t == b * t) by (nonlinear_arith);
            lemma_mul_le(0, b - 1, t);
        } else {
            assert(b * t == 0) by (nonlinear_arith) requires b == 0;
        }
    }
}

/// The beats of section `i` fit below the end of the track.
proof fn lemma_section_bounds(ss: Seq<Section>, ticks: Seq<u32>, fallback: u32, i: int)
    requires
        ticks.len() == ss.len(),
        0 <= i < ss.len(),
    ensures
        track_start(ss, ticks, fallback, i) + section_beats(ss[i], fallback) * ticks[i]
            <= track_start(ss, ticks, fallback, ss.len() as int),
        section_beats(ss[i], fallback) > 0 ==> ticks[i] <= track_start(ss, ticks, fallback, ss.len() as int),
        section_beats(ss[i], fallback) >= 0,
{
    lemma_track_start_monotone(ss, ticks, fallback, i + 1, ss.len() as int);
    lemma_track_start_monotone(ss, ticks, fallback, i, ss.len() as int);
    let b = section_beats(ss[i], fallback);
    lemma_mul_le(0, measures_or(ss[i], fallback) as int, ss[i].time_signature.beats_per_bar as int);
    if b > 0 {
        lemma_mul_le(1, b, ticks[i] as int);
    }
}

/// Within section `i`, the deltas up to the note-on of beat `j` add up to
/// the offset of the first note plus `j` beats, and up to its note-off to that
/// plus the note length.
proof fn lemma_notes_prefix_sum(ss: Seq<Section>, ticks: Seq<u32>, cfg: MidiConfigs, fallback: u32, i: int, j: int)
    requires
        ticks.len() == ss.len(),
        0 <= i < ss.len(),
        0 <= j < section_beats(ss[i], fallback),
        notes_within_beats(ss, ticks, fallback, cfg.duration),
        ticks_below_delta_limit(ss, ticks, fallback, cfg.duration),
    ensures
        ({
            let notes = Seq::new((2 * section_beats(ss[i], fallback)) as nat,
                |k: int| section_note(ss, ticks, cfg, fallback, i, k));
            let d0 = track_start(ss, ticks, fallback, i) - note_anchor(ss, ticks, fallback, cfg.duration, i);
            &&& delta_sum(notes.take(2 * j + 1)) == d0 + j * ticks[i]
            &&& delta_sum(notes.take(2 * j + 2)) == d0 + j * ticks[i] + cfg.duration
        }),
    decreases j,
{
    let notes = Seq::new((2 * section_beats(ss[i], fallback)) as nat,
        |k: int| section_note(ss, ticks, cfg, fallback, i, k));
    let start = track_start(ss, ticks, fallback, i);
    let anchor = note_anchor(ss, ticks, fallback, cfg.duration, i);
    let t = ticks[i] as int;
    let n = ss.len() as int;
    lemma_last_le_start(ss, ticks, fallback, cfg.duration, i);
    lemma_section_bounds(ss, ticks, fallback, i);
    lemma_track_start_monotone(ss, ticks, fallback, i, n);
    assert(0 <= anchor <= start);
    assert(t <= track_start(ss, ticks, fallback, n));
    assert(cfg.duration <= t);
    lemma_u28_identity(cfg.duration);
    if j == 0 {
        assert(notes.take(0) =~= Seq::<MidiEvent>::empty());
        lemma_delta_sum_push(notes, 0);
        lemma_u28_identity((start - anchor) as u32);
        assert(notes[0].delta == start - anchor);
        lemma_delta_sum_push(notes, 1);
        assert(j * t == 0) by (nonlinear_arith) requires j == 0;
    } else {
        lemma_notes_prefix_sum(ss, ticks, cfg, fallback, i, j - 1);
        lemma_delta_sum_push(notes, 2 * j);
        lemma_delta_sum_push(notes, 2 * j + 1);
        lemma_u28_identity((t - cfg.duration) as u32);
        assert(notes[2 * j].delta == t - cfg.duration);
        assert((j - 1) * t + t == j * t) by (nonlinear_arith);
    }
}

/// The deltas of section `i` add up to how far the end of its last note, or
/// its tempo event, lies past where the section before left off.
proof fn lemma_section_sum(ss: Seq<Section>, ticks: Seq<u32>, cfg: MidiConfigs, fallback: u32, i: int)
    requires
        ticks.len() == ss.len(),
        0 <= i < ss.len(),
        notes_within_beats(ss, ticks, fallback, cfg.duration),
        ticks_below_delta_limit(ss, ticks, fallback, cfg.duration),
    ensures
        delta_sum(section_head(ss, ticks, cfg, fallback, i)) == (if tempo_change(ss, i) {
            track_start(ss, ticks, fallback, i) - last_tick(ss, ticks, fallback, cfg.duration, i)
        } else {
            0
        }),
        last_tick(ss, ticks, fallback, cfg.duration, i) + delta_sum(section_midi_events(ss, ticks, cfg, fallback, i))
            == last_tick(ss, ticks, fallback, cfg.duration, i + 1),
{
    let start = track_start(ss, ticks, fallback, i);
    let last = last_tick(ss, ticks, fallback, cfg.duration, i);
    let n = ss.len() as int;
    let b = section_beats(ss[i], fallback);
    let head = section_head(ss, ticks, cfg, fallback, i);
    let notes = Seq::new((2 * b) as nat, |k: int| section_note(ss, ticks, cfg, fallback, i, k));
    lemma_last_le_start(ss, ticks, fallback, cfg.duration, i);
    lemma_section_bounds(ss, ticks, fallback, i);
    lemma_track_start_monotone(ss, ticks, fallback, i, n);
    if tempo_change(ss, i) {
        lemma_u28_identity((start - last) as u32);
        assert(head.drop_last() =~= Seq::<MidiEvent>::empty());
        assert(delta_sum(head.drop_last()) == 0);
        assert(sat_sub(start, last) == start - last);
        assert(head.last().delta == start - last);
        assert(delta_sum(head) == start - last);
    } else {
        assert(head =~= Seq::<MidiEvent>::empty());
    }
    lemma_delta_sum_concat(head, notes);
    if b > 0 {
        lemma_notes_prefix_sum(ss, ticks, cfg, fallback, i, b - 1);
        assert(notes.take(2 * (b - 1) + 2) =~= notes);
    } else {
        assert(notes =~= Seq::<MidiEvent>::empty());
    }
}

proof fn lemma_events_upto_sum(ss: Seq<Section>, ticks: Seq<u32>, cfg: MidiConfigs, fallback: u32, i: int)
    requires
        ticks.len() == ss.len(),
        0 <= i <= ss.len(),
        notes_within_beats(ss, ticks, fallback, cfg.duration),
        ticks_below_delta_limit(ss, ticks, fallback, cfg.duration),
    ensures
        delta_sum(events_upto(ss, ticks, cfg, fallback, i)) == last_tick(ss, ticks, fallback, cfg.duration, i),
    decreases i,
{
    if i > 0 {
        lemma_events_upto_sum(ss, ticks, cfg, fallback, i - 1);
        lemma_section_sum(ss, ticks, cfg, fallback, i - 1);
        lemma_delta_sum_concat(events_upto(ss, ticks, cfg, fallback, i - 1),
            section_midi_events(ss, ticks, cfg, fallback, i - 1));
    } else {
        assert(events_upto(ss, ticks, cfg, fallback, i) =~= Seq::<MidiEvent>::empty());
    }
}

/// The track up to the note-on of beat `j` of section `i`: the sections
/// before, the tempo event of section `i` if any, and its notes up to that one.
proof fn lemma_track_take(ss: Seq<Section>, ticks: Seq<u32>, cfg: MidiConfigs, fallback: u32, i: int, j: int)
    requires
        ticks.len() == ss.len(),
        0 <= i < ss.len(),
        0 <= j < section_beats(ss[i], fallback),
    ensures
        ({
            let track = spec_midi_track(ss, ticks, cfg, fallback);
            let k = note_on_index(ss, ticks, cfg, fallback, i, j);
            let notes = Seq::new((2 * section_beats(ss[i], fallback)) as nat,
                |m: int| section_note(ss, ticks, cfg, fallback, i, m));
            &&& 0 <= k < track.len()
            &&& track.take(k + 1) == events_upto(ss, ticks, cfg, fallback, i)
                + section_head(ss, ticks, cfg, fallback, i) + notes.take(2 * j + 1)
            &&& track[k] == notes[2 * j]
        }),
{
    let track = spec_midi_track(ss, ticks, cfg, fallback);
    let before = events_upto(ss, ticks, cfg, fallback, i);
    let head = section_head(ss, ticks, cfg, fallback, i);
    let b = section_beats(ss[i], fallback);
    let notes = Seq::new((2 * b) as nat, |m: int| section_note(ss, ticks, cfg, fallback, i, m));
    let k = note_on_index(ss, ticks, cfg, fallback, i, j);
    let rest = events_upto(ss, ticks, cfg, fallback, ss.len() as int);
    assert(track == rest + seq![MidiEvent { delta: 0, kind: MidiEventKind::EndOfTrack }]);
    lemma_events_upto_prefix(ss, ticks, cfg, fallback, i + 1, ss.len() as int);
    let e1 = events_upto(ss, ticks, cfg, fallback, i + 1);
    assert(e1 == before + (head + notes));
    assert(2 * j + 1 <= notes.len()) by (nonlinear_arith) requires 0 <= j < b, notes.len() == 2 * b;
    assert(k + 1 <= e1.len());
    assert(track.take(k + 1) =~= e1.take(k + 1)) by {
        assert forall|m: int| 0 <= m < k + 1 implies #[trigger] track.take(k + 1)[m] == e1.take(k + 1)[m] by {
            assert(rest.take(e1.len() as int)[m] == e1[m]);
        }
    }
    assert(e1.take(k + 1) =~= before + head + notes.take(2 * j + 1));
    assert(track[k] == track.take(k + 1)[k]);
}

/// Every click lands on its beat: where no note is held longer than a beat
/// and every tick fits in a delta time, the note-on of beat `j` of section `i`
/// comes `track_start(i) + j * ticks[i]` ticks into the track, with the accent
/// note exactly on the first beat of a bar.
pub proof fn law_clicks_land_on_their_beats(
    ss: Seq<Section>,
    ticks: Seq<u32>,
    cfg: MidiConfigs,
    fallback: u32,
    i: int,
    j: int,
)
    requires
        ticks.len() == ss.len(),
        notes_within_beats(ss, ticks, fallback, cfg.duration),
        ticks_below_delta_limit(ss, ticks, fallback, cfg.duration),
        0 <= i < ss.len(),
        0 <= j < section_beats(ss[i], fallback),
    ensures
        ({
            let track = spec_midi_track(ss, ticks, cfg, fallback);
            let k = note_on_index(ss, ticks, cfg, fallback, i, j);
            let accent = j % (ss[i].time_signature.beats_per_bar as int) == 0;
            &&& 0 <= k < track.len()
            &&& delta_sum(track.take(k + 1)) == track_start(ss, ticks, fallback, i) + j * ticks[i]
            &&& track[k].kind == MidiEventKind::NoteOn {
                channel: u4_value(cfg.channel),
                key: u7_value(if accent { cfg.note_accent } else { cfg.note_normal }),
                vel: u7_value(if accent { cfg.velocity_accent } else { cfg.velocity_normal }),
            }
        }),
{
    let before = events_upto(ss, ticks, cfg, fallback, i);
    let head = section_head(ss, ticks, cfg, fallback, i);
    let b = section_beats(ss[i], fallback);
    let notes = Seq::new((2 * b) as nat, |m: int| section_note(ss, ticks, cfg, fallback, i, m));
    lemma_track_take(ss, ticks, cfg, fallback, i, j);
    lemma_events_upto_sum(ss, ticks, cfg, fallback, i);
    lemma_section_sum(ss, ticks, cfg, fallback, i);
    lemma_notes_prefix_sum(ss, ticks, cfg, fallback, i, j);
    lemma_delta_sum_concat(before, head);
    lemma_delta_sum_concat(before + head, notes.take(2 * j + 1));
    assert((2 * j) / 2 == j);
    assert((2 * j) % 2 == 0);
}

/// The events of the first `i` sections begin the events of the first `m`.
proof fn lemma_events_upto_prefix(ss: Seq<Section>, ticks: Seq<u32>, cfg: MidiConfigs, fallback: u32, i: int, m: int)
    requires
        0 <= i <= m,
    ensures
        events_upto(ss, ticks, cfg, fallback, i).len() <= events_upto(ss, ticks, cfg, fallback, m).len(),
        events_upto(ss, ticks, cfg, fallback, m).take(events_upto(ss, ticks, cfg, fallback, i).len() as int)
            == events_upto(ss, ticks, cfg, fallback, i),
    decreases m - i,
{
    if i < m {
        lemma_events_upto_prefix(ss, ticks, cfg, fallback, i, m - 1);
        let a = events_upto(ss, ticks, cfg, fallback, i);
        let p = events_upto(ss, ticks, cfg, fallback, m - 1);
        assert(events_upto(ss, ticks, cfg, fallback, m).take(p.len() as int) =~= p);
        assert(events_upto(ss, ticks, cfg, fallback, m).take(a.len() as int) =~= p.take(a.len() as int));
    }
}

/// The value of the last tempo event of `events`, if there is one.
pub open spec fn last_tempo(events: Seq<MidiEvent>) -> Option<u32>
    decreases events.len(),
{
    if events.len() == 0 {
        None
    } else {
        match events.last().kind {
            MidiEventKind::Tempo(v) => Some(v),
            _ => last_tempo(events.drop_last()),
        }
    }
}

/// The tempo value written for `bpm` beats per minute: sixty million
/// microseconds divided by the tempo (the largest value for zero), cut to the
/// 24 bits of a tempo event.
pub open spec fn tempo_value(bpm: u32) -> u32 {
    (if bpm == 0 { u32::MAX } else { (60_000_000int / bpm as int) as u32 }) & 0x00ff_ffffu32
}

proof fn lemma_last_tempo_skips(a: Seq<MidiEvent>, b: Seq<MidiEvent>)
    requires
        forall|m: int| 0 <= m < b.len() ==> !(#[trigger] b[m].kind is Tempo),
    ensures
        last_tempo(a + b) == last_tempo(a),
    decreases b.len(),
{
    if b.len() == 0 {
        assert(a + b =~= a);
    } else {
        lemma_last_tempo_skips(a, b.drop_last());
        assert((a + b).drop_last() =~= a + b.drop_last());
        assert(!(b[b.len() - 1].kind is Tempo));
    }
}

proof fn lemma_notes_have_no_tempo(ss: Seq<Section>, ticks: Seq<u32>, cfg: MidiConfigs, fallback: u32, i: int)
    ensures
        forall|m: int| !(#[trigger] section_note(ss, ticks, cfg, fallback, i, m).kind is Tempo),
{
}

/// After the first `i` sections, the tempo in force is that of section `i - 1`.
proof fn lemma_tempo_in_force(ss: Seq<Section>, ticks: Seq<u32>, cfg: MidiConfigs, fallback: u32, i: int)
    requires
        1 <= i <= ss.len(),
    ensures
        last_tempo(events_upto(ss, ticks, cfg, fallback, i)) == Some(tempo_value(ss[i - 1].bpm)),
    decreases i,
{
    let k = i - 1;
    let before = events_upto(ss, ticks, cfg, fallback, k);
    let head = section_head(ss, ticks, cfg, fallback, k);
    let len = (2 * section_beats(ss[k], fallback)) as nat;
    let notes = Seq::new(len, |m: int| section_note(ss, ticks, cfg, fallback, k, m));
    assert(events_upto(ss, ticks, cfg, fallback, i) =~= (before + head) + notes);
    lemma_notes_have_no_tempo(ss, ticks, cfg, fallback, k);
    assert forall|m: int| 0 <= m < notes.len() implies !(#[trigger] notes[m].kind is Tempo) by {
        assert(notes[m] == section_note(ss, ticks, cfg, fallback, k, m));
    }
    lemma_last_tempo_skips(before + head, notes);
    if tempo_change(ss, k) {
        assert((before + head).drop_last() =~= before);
    } else {
        assert(before + head =~= before);
        lemma_tempo_in_force(ss, ticks, cfg, fallback, k);
    }
}

/// Where the tempo changes, it changes on time: for the first section and for
/// every section whose tempo differs from the one before, the track holds a
/// tempo event of that section's tempo exactly at the tick where the section
/// starts (where no note is held longer than a beat and every tick fits in a
/// delta time).
pub proof fn law_tempo_changes_at_section_start(
    ss: Seq<Section>,
    ticks: Seq<u32>,
    cfg: MidiConfigs,
    fallback: u32,
    i: int,
)
    requires
        ticks.len() == ss.len(),
        notes_within_beats(ss, ticks, fallback, cfg.duration),
        ticks_below_delta_limit(ss, ticks, fallback, cfg.duration),
        0 <= i < ss.len(),
        i == 0 || ss[i - 1].bpm != ss[i].bpm,
    ensures
        exists|k: int|
            0 <= k < spec_midi_track(ss, ticks, cfg, fallback).len()
            && (#[trigger] spec_midi_track(ss, ticks, cfg, fallback)[k]).kind == MidiEventKind::Tempo(tempo_value(ss[i].bpm))
            && delta_sum(spec_midi_track(ss, ticks, cfg, fallback).take(k + 1)) == track_start(ss, ticks, fallback, i),
{
    let track = spec_midi_track(ss, ticks, cfg, fallback);
    let before = events_upto(ss, ticks, cfg, fallback, i);
    let head = section_head(ss, ticks, cfg, fallback, i);
    let b = section_beats(ss[i], fallback);
    let notes = Seq::new((2 * b) as nat, |m: int| section_note(ss, ticks, cfg, fallback, i, m));
    let k = before.len() as int;
    let rest = events_upto(ss, ticks, cfg, fallback, ss.len() as int);
    assert(track == rest + seq![MidiEvent { delta: 0, kind: MidiEventKind::EndOfTrack }]);
    lemma_events_upto_prefix(ss, ticks, cfg, fallback, i + 1, ss.len() as int);
    let e1 = events_upto(ss, ticks, cfg, fallback, i + 1);
    assert(e1 == before + (head + notes));
    assert(tempo_change(ss, i));
    assert(head.len() == 1);
    assert(track.take(k + 1) =~= before + head) by {
        assert forall|m: int| 0 <= m < k + 1 implies #[trigger] track.take(k + 1)[m] == (before + head)[m] by {
            assert(rest.take(e1.len() as int)[m] == e1[m]);
        }
    }
    assert(track[k] == track.take(k + 1)[k]);
    lemma_events_upto_sum(ss, ticks, cfg, fallback, i);
    lemma_section_sum(ss, ticks, cfg, fallback, i);
    lemma_delta_sum_concat(before, head);
    assert(track[k].kind == MidiEventKind::Tempo(tempo_value(ss[i].bpm)));
}

/// Every click plays at the tempo of its own section: the note-on of beat `j`
/// of section `i`, at its tick, has that section's tempo as the last tempo
/// event before it.
pub proof fn law_clicks_play_at_their_section_tempo(
    ss: Seq<Section>,
    ticks: Seq<u32>,
    cfg: MidiConfigs,
    fallback: u32,
    i: int,
    j: int,
)
    requires
        ticks.len() == ss.len(),
        notes_within_beats(ss, ticks, fallback, cfg.duration),
        ticks_below_delta_limit(ss, ticks, fallback, cfg.duration),
        0 <= i < ss.len(),
        0 <= j < section_beats(ss[i], fallback),
    ensures
        exists|k: int|
            0 <= k < spec_midi_track(ss, ticks, cfg, fallback).len()
            && (#[trigger] spec_midi_track(ss, ticks, cfg, fallback)[k]).kind is NoteOn
            && delta_sum(spec_midi_track(ss, ticks, cfg, fallback).take(k + 1))
                == track_start(ss, ticks, fallback, i) + j * ticks[i]
            && last_tempo(spec_midi_track(ss, ticks, cfg, fallback).take(k)) == Some(tempo_value(ss[i].bpm)),
{
    let track = spec_midi_track(ss, ticks, cfg, fallback);
    let before = events_upto(ss, ticks, cfg, fallback, i);
    let head = section_head(ss, ticks, cfg, fallback, i);
    let len = (2 * section_beats(ss[i], fallback)) as nat;
    let notes = Seq::new(len, |m: int| section_note(ss, ticks, cfg, fallback, i, m));
    let k = note_on_index(ss, ticks, cfg, fallback, i, j);
    law_clicks_land_on_their_beats(ss, ticks, cfg, fallback, i, j);
    lemma_track_take(ss, ticks, cfg, fallback, i, j);
    assert(track.take(k) =~= (before + head) + notes.take(2 * j)) by {
        assert(track.take(k) =~= track.take(k + 1).take(k));
    }
    lemma_notes_have_no_tempo(ss, ticks, cfg, fallback, i);
    assert forall|m: int| 0 <= m < notes.take(2 * j).len() implies !(#[trigger] notes.take(2 * j)[m].kind is Tempo) by {
        assert(notes.take(2 * j)[m] == section_note(ss, ticks, cfg, fallback, i, m));
    }
    lemma_last_tempo_skips(before + head, notes.take(2 * j));
    if tempo_change(ss, i) {
        assert((before + head).drop_last() =~= before);
    } else {
        assert(before + head =~= before);
        lemma_tempo_in_force(ss, ticks, cfg, fallback, i);
    }
}

} // verus!

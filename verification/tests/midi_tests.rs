use tsic::config::Config;
use tsic::midi::{midi_ticks_fit, midi_track, MidiConfigs, MidiEvent, MidiEventKind};
use tsic::section::{Section, TimeSignature};

fn section(bpm: u32, bpb: u32, bu: u32, measures: Option<u32>) -> Section {
    Section { bpm, time_signature: TimeSignature { beats_per_bar: bpb, beat_unit: bu }, measures, name: None }
}

fn on(delta: u32, key: u8, vel: u8) -> MidiEvent {
    MidiEvent { delta, kind: MidiEventKind::NoteOn { channel: 9, key, vel } }
}

fn off(key: u8) -> MidiEvent {
    MidiEvent { delta: 10, kind: MidiEventKind::NoteOff { channel: 9, key, vel: 0 } }
}

fn tempo(delta: u32, t: u32) -> MidiEvent {
    MidiEvent { delta, kind: MidiEventKind::Tempo(t) }
}

#[test]
fn midi_configs_defaults_and_setters() {
    let mut c = MidiConfigs::default();
    assert_eq!(
        (c.channel, c.ticks_per_beat, c.note_accent, c.note_normal, c.duration, c.velocity_accent, c.velocity_normal),
        (9, 480, 76, 37, 10, 127, 90)
    );
    c.channel(1);
    c.ticks_per_beat(960);
    c.note_accent(60);
    c.note_normal(61);
    c.duration(20);
    c.velocity_accent(100);
    c.velocity_normal(50);
    assert_eq!(
        (c.channel, c.ticks_per_beat, c.note_accent, c.note_normal, c.duration, c.velocity_accent, c.velocity_normal),
        (1, 960, 60, 61, 20, 100, 50)
    );
    assert_eq!(c.header_ticks_per_beat(), 960);
    c.ticks_per_beat(0x8000 + 480);
    assert_eq!(c.header_ticks_per_beat(), 480);
}

#[test]
fn track_of_three_sections() {
    let sections = vec![
        section(120, 2, 4, Some(1)),
        section(120, 3, 8, Some(1)),
        section(60, 2, 4, Some(1)),
    ];
    let cfg = MidiConfigs::default();
    let profile = Config::default();
    let ticks = vec![480, 240, 480];
    assert!(midi_ticks_fit(&sections, &cfg, &profile, &ticks));
    let track = midi_track(&sections, &cfg, &profile, &ticks);
    let expected = vec![
        tempo(0, 500_000),
        on(0, 76, 127),
        off(76),
        on(470, 37, 90),
        off(37),
        on(470, 76, 127),
        off(76),
        on(230, 37, 90),
        off(37),
        on(230, 37, 90),
        off(37),
        tempo(230, 1_000_000),
        on(0, 76, 127),
        off(76),
        on(470, 37, 90),
        off(37),
        MidiEvent { delta: 0, kind: MidiEventKind::EndOfTrack },
    ];
    assert_eq!(track, expected);
}

#[test]
fn open_sections_use_the_fallback_and_bars_start_accented() {
    let sections = vec![section(100, 2, 4, None)];
    let cfg = MidiConfigs::default();
    let mut profile = Config::default();
    profile.measure_fallback(2);
    let ticks = vec![480];
    let track = midi_track(&sections, &cfg, &profile, &ticks);
    assert_eq!(track.len(), 1 + 2 * 4 + 1);
    assert_eq!(track[0], tempo(0, 600_000));
    assert_eq!(track[1], on(0, 76, 127));
    assert_eq!(track[3], on(470, 37, 90));
    assert_eq!(track[5], on(470, 76, 127));
    assert_eq!(track[7], on(470, 37, 90));
}

#[test]
fn empty_project_has_only_the_end_of_track() {
    let track = midi_track(&vec![], &MidiConfigs::default(), &Config::default(), &vec![]);
    assert_eq!(track, vec![MidiEvent { delta: 0, kind: MidiEventKind::EndOfTrack }]);
}

#[test]
fn values_are_cut_to_their_midi_widths() {
    let sections = vec![section(1, 1, 4, Some(1)), section(0, 1, 4, Some(1))];
    let mut cfg = MidiConfigs::default();
    cfg.channel(25);
    cfg.note_accent(200);
    cfg.velocity_accent(255);
    cfg.duration(0x1000_0005);
    let profile = Config::default();
    let ticks = vec![480, 480];
    assert!(midi_ticks_fit(&sections, &cfg, &profile, &ticks));
    let track = midi_track(&sections, &cfg, &profile, &ticks);
    assert_eq!(track[0], tempo(0, 60_000_000 & 0xff_ffff));
    assert_eq!(track[1], MidiEvent { delta: 0, kind: MidiEventKind::NoteOn { channel: 9, key: 72, vel: 127 } });
    assert_eq!(track[2], MidiEvent { delta: 5, kind: MidiEventKind::NoteOff { channel: 9, key: 72, vel: 0 } });
    // the note ended past the start of the next section: the delta saturates at zero
    assert_eq!(track[3], tempo(0, 0xff_ffff));
}

#[test]
fn ticks_that_overflow_are_detected() {
    let cfg = MidiConfigs::default();
    let profile = Config::default();
    assert!(!midi_ticks_fit(&vec![section(120, 2, 4, Some(1))], &cfg, &profile, &vec![u32::MAX]));
    assert!(!midi_ticks_fit(&vec![section(120, 2, 4, Some(1))], &cfg, &profile, &vec![1, 1]));
    let mut long = MidiConfigs::default();
    long.duration(u32::MAX);
    assert!(midi_ticks_fit(&vec![section(120, 1, 4, Some(1))], &long, &profile, &vec![10]));
    assert!(!midi_ticks_fit(&vec![section(120, 2, 4, Some(1))], &long, &profile, &vec![1]));
}

#[test]
fn every_click_lands_on_its_beat() {
    let sections = vec![
        section(120, 3, 4, Some(2)),
        section(90, 5, 8, Some(1)),
        section(90, 2, 2, Some(2)),
    ];
    let cfg = MidiConfigs::default();
    let profile = Config::default();
    let ticks = vec![480, 240, 960];
    let track = midi_track(&sections, &cfg, &profile, &ticks);
    let mut tick = 0u64;
    let mut on_ticks = vec![];
    for e in &track {
        tick += e.delta as u64;
        if let MidiEventKind::NoteOn { key, .. } = e.kind {
            on_ticks.push((tick, key));
        }
    }
    let mut expected = vec![];
    let mut start = 0u64;
    for (s, t) in sections.iter().zip(&ticks) {
        let bpb = s.time_signature.beats_per_bar as u64;
        let beats = s.measures.unwrap() as u64 * bpb;
        for j in 0..beats {
            expected.push((start + j * *t as u64, if j % bpb == 0 { 76 } else { 37 }));
        }
        start += beats * *t as u64;
    }
    assert_eq!(on_ticks, expected);
    let tempos: Vec<u32> = track
        .iter()
        .filter_map(|e| if let MidiEventKind::Tempo(t) = e.kind { Some(t) } else { None })
        .collect();
    assert_eq!(tempos, vec![500_000, 666_666]);
}

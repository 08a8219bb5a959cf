use tsic::section::TimeSignature;
use tsic::visuals::{bar_line, beat_display, caret_line, header_line, BeatEvent};

fn event(beat: u32, bpb: u32, measure: u32, num_measures: u32) -> BeatEvent {
    BeatEvent {
        section_name: None,
        beat,
        beats_per_bar: bpb,
        measure,
        num_measures,
        section_index: 1,
        num_sections: 3,
        bpm: 100,
        time_sig: TimeSignature { beats_per_bar: bpb, beat_unit: 8 },
    }
}

#[test]
fn bar_line_marks_played_beats() {
    assert_eq!(bar_line(&event(0, 4, 0, 8)), "  bar 1/8 | X . . . ");
    assert_eq!(bar_line(&event(2, 4, 6, 8)), "  bar 7/8 | X + + . ");
    assert_eq!(bar_line(&event(0, 0, 0, 1)), "  bar 1/1 | ");
}

#[test]
fn caret_points_at_the_playing_beat() {
    let e = event(2, 4, 6, 8);
    let bar = bar_line(&e);
    let caret = caret_line(&e);
    let prefix_len = "  bar 7/8 | ".len();
    assert_eq!(caret, format!("{:width$}{}", "", '^', width = prefix_len + 4));
    assert_eq!(bar.as_bytes()[caret.len() - 1], b'+');
}

#[test]
fn header_names_the_section_and_the_next() {
    let e = event(0, 7, 0, 4);
    let next = BeatEvent { bpm: 120, time_sig: TimeSignature { beats_per_bar: 4, beat_unit: 4 }, ..event(0, 4, 0, 2) };
    assert_eq!(header_line(&e, Some(&next)), "[Section 2/3 | 7/8 | 100 BPM] -> [Next: 4/4 | 120 BPM]");
    assert_eq!(header_line(&e, None), "[Section 2/3 | 7/8 | 100 BPM]");
}

#[test]
fn header_only_on_the_first_beat_of_a_section() {
    let first = event(0, 4, 0, 2);
    let (header, bar, caret) = beat_display(&first, None);
    assert_eq!(header.as_deref(), Some("[Section 2/3 | 4/8 | 100 BPM]"));
    assert_eq!(bar, "  bar 1/2 | X . . . ");
    assert_eq!(caret, format!("{:width$}^", "", width = 12));
    for (beat, measure) in [(1, 0), (0, 1), (3, 1)] {
        let (header, _, _) = beat_display(&event(beat, 4, measure, 2), Some(&first));
        assert!(header.is_none());
    }
}

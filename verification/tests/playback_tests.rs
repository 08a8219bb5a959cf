use tsic::play::{metronome_key, PlayAction, PlaybackState};
use tsic::tap::TapTempo;

#[test]
fn playback_starts_paused_and_toggles() {
    let mut s = PlaybackState::new(3, 0);
    assert!(s.paused);
    assert_eq!(s.on_key(' ', 0), PlayAction::Resume);
    assert!(!s.paused);
    assert_eq!(s.on_key(' ', 0), PlayAction::Pause);
    assert!(s.paused);
    assert_eq!(s.on_key('x', 0), PlayAction::Nothing);
    assert_eq!(s.on_key('q', 0), PlayAction::Quit);
}

#[test]
fn playback_navigates_sections() {
    let mut s = PlaybackState::new(3, 0);
    s.on_key(' ', 0);
    assert_eq!(s.pending_beat(4), Some(0));
    s.beat_shown();
    assert_eq!(s.pending_beat(4), Some(1));
    assert_eq!(s.on_key('n', 0), PlayAction::Restart(1));
    assert_eq!((s.current, s.event_idx), (1, 0));
    assert_eq!(s.on_key('n', 0), PlayAction::Restart(2));
    assert_eq!(s.on_key('n', 0), PlayAction::Nothing);
    assert_eq!(s.current, 2);
    assert_eq!(s.on_key('p', 0), PlayAction::Restart(1));
    assert_eq!(s.on_key('s', 0), PlayAction::Restart(1));
    assert_eq!(s.on_key('b', 0), PlayAction::Restart(0));
    assert_eq!(s.on_key('p', 0), PlayAction::Restart(0));
    assert_eq!(s.current, 0);
    assert!(!s.paused);
}

#[test]
fn finished_sections_queue_the_next() {
    let mut s = PlaybackState::new(2, 0);
    assert_eq!(s.on_section_done(0), PlayAction::Append(1));
    assert_eq!(s.current, 1);
    assert!(!s.is_finished(false));
    assert_eq!(s.on_section_done(0), PlayAction::Nothing);
    assert!(s.is_finished(true));
    assert_eq!(s.pending_beat(3), None);
}

#[test]
fn metronome_keys() {
    assert_eq!(metronome_key(true, ' '), PlayAction::Resume);
    assert_eq!(metronome_key(false, ' '), PlayAction::Pause);
    assert_eq!(metronome_key(false, 'q'), PlayAction::Quit);
    assert_eq!(metronome_key(false, 'n'), PlayAction::Nothing);
}

const SEC: u64 = 1_000_000_000;

#[test]
fn tap_keeps_the_last_twelve_taps() {
    let mut t = TapTempo::new();
    for k in 0..20u64 {
        t.tap(k * SEC / 2);
    }
    assert_eq!(t.count(), 12);
    let intervals = t.intervals();
    assert_eq!(intervals.len(), 11);
    assert!(intervals.iter().all(|i| *i == SEC / 2));
}

#[test]
fn tap_after_a_long_pause_starts_again() {
    let mut t = TapTempo::new();
    t.tap(0);
    t.tap(SEC);
    assert_eq!(t.count(), 2);
    t.tap(4 * SEC);
    assert_eq!(t.count(), 3);
    t.tap(7 * SEC + 1);
    assert_eq!(t.count(), 1);
    assert!(t.intervals().is_empty());
}

#[test]
fn pause_toggled_twice_is_unchanged() {
    let mut s = PlaybackState::new(2, 0);
    s.on_key('n', 0);
    let before = s;
    s.on_key(' ', 0);
    s.on_key(' ', 0);
    assert_eq!((s.current, s.event_idx, s.paused), (before.current, before.event_idx, before.paused));
    assert_eq!(s.elapsed(5), before.elapsed(5));
}

const MS: u64 = 1_000_000;

#[test]
fn paused_time_does_not_count() {
    let mut s = PlaybackState::new(2, 0);
    assert_eq!(s.elapsed(500 * MS), 0);
    assert_eq!(s.on_key(' ', 1000 * MS), PlayAction::Resume);
    assert_eq!(s.elapsed(1300 * MS), 300 * MS);
    assert_eq!(s.on_key(' ', 1500 * MS), PlayAction::Pause);
    assert_eq!(s.elapsed(4000 * MS), 500 * MS);
    assert_eq!(s.on_key(' ', 5000 * MS), PlayAction::Resume);
    assert_eq!(s.elapsed(5200 * MS), 700 * MS);
    assert!(s.beat_due(700 * MS, 5200 * MS));
    assert!(!s.beat_due(701 * MS, 5200 * MS));
    // a clock reading from the past counts as the latest one
    assert_eq!(s.elapsed(0), 500 * MS);
}

#[test]
fn restart_while_paused_keeps_the_pause_out() {
    let mut s = PlaybackState::new(3, 0);
    s.on_key(' ', 0);
    s.on_key(' ', 100 * MS);
    assert_eq!(s.on_key('n', 200 * MS), PlayAction::Restart(1));
    assert_eq!(s.elapsed(900 * MS), 0);
    s.on_key(' ', 1000 * MS);
    assert_eq!(s.elapsed(1250 * MS), 250 * MS);
    assert_eq!(s.on_section_done(1300 * MS), PlayAction::Append(2));
    assert_eq!(s.elapsed(1400 * MS), 100 * MS);
}

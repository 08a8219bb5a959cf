use tsic::config::Config;
use tsic::section::{Section, TimeSignature};

fn ts(bpb: u32, bu: u32) -> TimeSignature {
    TimeSignature { beats_per_bar: bpb, beat_unit: bu }
}

#[test]
fn time_signature_parses_common_signatures() {
    assert_eq!(TimeSignature::try_from("4/4"), Ok(ts(4, 4)));
    assert_eq!(TimeSignature::try_from("7/8"), Ok(ts(7, 8)));
    assert_eq!(TimeSignature::try_from("12/16"), Ok(ts(12, 16)));
}

#[test]
fn time_signature_accepts_plus_sign_and_limits() {
    assert_eq!(TimeSignature::try_from("+3/+4"), Ok(ts(3, 4)));
    assert_eq!(TimeSignature::try_from("4294967295/0"), Ok(ts(u32::MAX, 0)));
    assert_eq!(TimeSignature::try_from("007/08"), Ok(ts(7, 8)));
}

#[test]
fn time_signature_rejects_malformed_text() {
    for bad in [
        "4", "4/", "/4", "a/4", "4/b", "4/4/4", "-4/4", "4 /4", "4294967296/4", "+/4", "", "4/4 ",
        "٣/4",
    ] {
        let err = TimeSignature::try_from(bad).unwrap_err();
        assert_eq!(err, format!("[tsic] error parsing {bad} to TimeSignature"));
    }
}

#[test]
fn time_signature_default_and_text() {
    assert_eq!(TimeSignature::default(), ts(4, 4));
    assert_eq!(ts(7, 8).to_string(), "7/8");
    assert_eq!(ts(4294967295, 0).to_string(), "4294967295/0");
}

fn section(bpm: u32, bpb: u32, bu: u32, measures: Option<u32>) -> Section {
    Section { bpm, time_signature: ts(bpb, bu), measures, name: None }
}

#[test]
fn section_setters_change_one_field() {
    let mut s = section(120, 4, 4, Some(2));
    s.bpm(90);
    assert_eq!(s.bpm, 90);
    s.measures(None);
    assert_eq!(s.measures, None);
    s.name("intro".to_string());
    assert_eq!(s.name.as_deref(), Some("intro"));
    assert_eq!(s.time_signature_str("5/4"), Ok(()));
    assert_eq!(s.time_signature, ts(5, 4));
    assert_eq!(
        s.time_signature_str("x"),
        Err("[tsic] error parsing x to TimeSignature".to_string())
    );
    assert_eq!(s.time_signature, ts(5, 4));
}

#[test]
fn beat_events_cover_every_beat_of_every_bar() {
    let mut s = section(100, 3, 4, Some(2));
    s.name("verse".to_string());
    let profile = Config::default();
    let events = s.get_beat_events_with_measures(1, 4, &profile);
    assert_eq!(events.len(), 6);
    for (k, e) in events.iter().enumerate() {
        assert_eq!(e.measure as usize, k / 3);
        assert_eq!(e.beat as usize, k % 3);
        assert_eq!(e.beats_per_bar, 3);
        assert_eq!(e.num_measures, 2);
        assert_eq!(e.section_index, 1);
        assert_eq!(e.num_sections, 4);
        assert_eq!(e.bpm, 100);
        assert_eq!(e.time_sig, ts(3, 4));
        assert_eq!(e.section_name.as_deref(), Some("verse"));
    }
}

#[test]
fn beat_events_use_profile_fallback_for_open_sections() {
    let s = section(100, 2, 4, None);
    let mut profile = Config::default();
    profile.measure_fallback(3);
    let events = s.get_beat_events_with_measures(0, 1, &profile);
    assert_eq!(events.len(), 6);
    assert_eq!(events[5].measure, 2);
    assert_eq!(events[5].num_measures, 3);
}

#[test]
fn time_signature_text_reads_back() {
    for t in [ts(4, 4), ts(7, 8), ts(0, 0), ts(u32::MAX, 10), ts(123456, 789)] {
        assert_eq!(TimeSignature::try_from(t.to_string().as_str()), Ok(t));
    }
}

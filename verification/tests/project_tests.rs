use tsic::config::Config;
use tsic::project::{Project, ProjectFile, METRONOME_MEASURES};
use tsic::section::{Section, TimeSignature};

fn ts(bpb: u32, bu: u32) -> TimeSignature {
    TimeSignature { beats_per_bar: bpb, beat_unit: bu }
}

fn project() -> Project {
    Project::new("song", Config::default(), "./projects/song.toml")
}

#[test]
fn new_project_is_empty() {
    let p = project();
    assert_eq!(p.name, "song");
    assert_eq!(p.file_path, "./projects/song.toml");
    assert_eq!(p.profile.name, "default");
    assert!(p.sections.is_empty());
}

#[test]
fn append_takes_profile_values_then_last_section() {
    let mut p = project();
    assert_eq!(p.append_section(None, None, Some(4)), Ok(()));
    assert_eq!(p.sections[0].bpm, 120);
    assert_eq!(p.sections[0].time_signature, ts(4, 4));
    assert_eq!(p.sections[0].measures, Some(4));
    assert_eq!(p.append_section(Some(90), Some("7/8".to_string()), Some(2)), Ok(()));
    assert_eq!(p.append_section(None, None, None), Ok(()));
    assert_eq!(p.sections.len(), 3);
    assert_eq!(p.sections[2].bpm, 90);
    assert_eq!(p.sections[2].time_signature, ts(7, 8));
    assert_eq!(p.sections[2].measures, None);
}

#[test]
fn append_after_open_ended_section_is_refused() {
    let mut p = project();
    p.append_section(None, None, Some(1)).unwrap();
    p.append_section(None, None, None).unwrap();
    let err = p.append_section(Some(100), None, Some(3)).unwrap_err();
    assert_eq!(
        err,
        "[tsic] illegal operation. Section at index: 1 has no measurement. Appending a new section will have no effect"
    );
    assert_eq!(p.sections.len(), 2);
}

#[test]
fn append_with_bad_time_signature_is_refused() {
    let mut p = project();
    let err = p.append_section(None, Some("4-4".to_string()), Some(1)).unwrap_err();
    assert_eq!(err, "[tsic] error parsing 4-4 to TimeSignature");
    assert!(p.sections.is_empty());
}

#[test]
fn insert_takes_values_from_the_section_before() {
    let mut p = project();
    p.append_section(Some(100), Some("3/4".to_string()), Some(2)).unwrap();
    p.append_section(Some(140), Some("5/8".to_string()), Some(2)).unwrap();
    assert_eq!(p.insert_section_at(1, 6, None, None), Ok(()));
    assert_eq!(p.sections.len(), 3);
    assert_eq!(p.sections[1].bpm, 100);
    assert_eq!(p.sections[1].time_signature, ts(3, 4));
    assert_eq!(p.sections[1].measures, Some(6));
    assert_eq!(p.sections[2].bpm, 140);
    assert_eq!(p.insert_section_at(0, 1, None, None), Ok(()));
    assert_eq!(p.sections[0].bpm, 120);
    assert_eq!(p.sections[0].time_signature, ts(4, 4));
}

#[test]
fn insert_past_the_end_is_refused() {
    let mut p = project();
    let err = p.insert_section_at(2, 1, None, None).unwrap_err();
    assert_eq!(err, "[tsic] cannot insert a section at position 2: the project has 0 sections");
    assert!(p.sections.is_empty());
}

#[test]
fn insert_then_remove_restores_sections() {
    let mut p = project();
    p.append_section(Some(100), None, Some(2)).unwrap();
    p.append_section(Some(110), None, Some(3)).unwrap();
    p.insert_section_at(1, 9, Some(77), Some("6/8".to_string())).unwrap();
    assert!(p.remove_section(1));
    assert_eq!(p.sections.len(), 2);
    assert_eq!((p.sections[0].bpm, p.sections[1].bpm), (100, 110));
    assert_eq!((p.sections[0].measures, p.sections[1].measures), (Some(2), Some(3)));
}

#[test]
fn remove_out_of_bounds_keeps_sections() {
    let mut p = project();
    p.append_section(None, None, Some(1)).unwrap();
    assert!(!p.remove_section(1));
    assert_eq!(p.sections.len(), 1);
    assert!(p.remove_section(0));
    assert!(p.sections.is_empty());
}

#[test]
fn edit_changes_only_given_values() {
    let mut p = project();
    p.append_section(Some(100), Some("3/4".to_string()), Some(2)).unwrap();
    p.sections[0].name("intro".to_string());
    assert_eq!(p.edit_section(0, None, Some(130), None), Ok(()));
    assert_eq!(p.sections[0].bpm, 130);
    assert_eq!(p.sections[0].time_signature, ts(3, 4));
    assert_eq!(p.sections[0].measures, Some(2));
    assert_eq!(p.sections[0].name.as_deref(), Some("intro"));
    assert_eq!(p.edit_section(0, Some(8), None, Some("9/8".to_string())), Ok(()));
    assert_eq!(p.sections[0].time_signature, ts(9, 8));
    assert_eq!(p.sections[0].measures, Some(8));
    assert_eq!(p.edit_section(3, None, None, None), Err("[tsic] there is no section at position 3".to_string()));
    assert_eq!(
        p.edit_section(0, Some(1), None, Some("x".to_string())),
        Err("[tsic] error parsing x to TimeSignature".to_string())
    );
    assert_eq!(p.sections[0].measures, Some(8));
}

#[test]
fn measures_plan_uses_fallback_only_for_a_lone_section() {
    let mut p = project();
    p.append_section(None, None, None).unwrap();
    assert_eq!(p.measures_plan(), Ok(vec![128]));
    p.insert_section_at(0, 3, None, None).unwrap();
    p.append_section(None, None, None).unwrap_err();
    assert_eq!(
        p.measures_plan(),
        Err("[tsic] this project has more than one section and section 1 has no number of measurements defined."
            .to_string())
    );
    p.edit_section(1, Some(5), None, None).unwrap();
    assert_eq!(p.measures_plan(), Ok(vec![3, 5]));
}

#[test]
fn stored_form_round_trips() {
    let mut p = project();
    p.append_section(Some(99), Some("2/2".to_string()), Some(7)).unwrap();
    let f: ProjectFile = p.to_file();
    assert_eq!(f.name, "song");
    assert_eq!(f.profile, "default");
    assert_eq!(f.file_path, "./projects/song.toml");
    let q = Project::from_file(f, Config::default(), p.file_path.clone());
    assert_eq!(q.name, p.name);
    assert_eq!(q.file_path, p.file_path);
    assert_eq!(q.sections.len(), 1);
    assert_eq!(q.sections[0].bpm, 99);
    assert_eq!(q.sections[0].time_signature, ts(2, 2));
    assert_eq!(q.sections[0].measures, Some(7));
}

#[test]
fn metronome_project_has_one_long_section() {
    let p = Project::metronome(133, ts(5, 4), Config::default());
    assert_eq!(p.name, "");
    assert_eq!(p.file_path, ".");
    assert_eq!(p.sections.len(), 1);
    assert_eq!(p.sections[0].bpm, 133);
    assert_eq!(p.sections[0].measures, Some(METRONOME_MEASURES));
    assert_eq!(METRONOME_MEASURES, 512);
}

#[test]
fn describe_lists_the_sections() {
    let mut p = project();
    p.append_section(Some(120), Some("7/8".to_string()), Some(3)).unwrap();
    p.append_section(Some(90), None, Some(u32::MAX)).unwrap();
    p.sections.push(Section { bpm: 60, time_signature: ts(4, 4), measures: None, name: None });
    let expected = format!(
        "[name]         {}\n[profile]      {}\n[file_path]    {}\n[sections]\n{}{}{}",
        "song",
        "default",
        "./projects/song.toml",
        "  [0] bpm: 120; time_signature: 7/8, measures: 3\n",
        "  [1] bpm: 90; time_signature: 7/8, measures: -1\n",
        "  [2] bpm: 60; time_signature: 4/4, measures: -1\n",
    );
    assert_eq!(p.describe(), expected);
}

#[test]
fn beat_events_for_every_section() {
    let mut p = project();
    p.append_section(None, Some("3/4".to_string()), Some(2)).unwrap();
    p.append_section(None, Some("2/4".to_string()), Some(1)).unwrap();
    let events = p.beat_events();
    assert_eq!(events.len(), 2);
    assert_eq!(events[0].len(), 6);
    assert_eq!(events[1].len(), 2);
    assert_eq!(events[1][1].section_index, 1);
    assert_eq!(events[1][1].num_sections, 2);
    assert_eq!(events[1][1].beat, 1);
}

#[test]
fn find_section_by_name() {
    let mut p = project();
    p.append_section(None, None, Some(1)).unwrap();
    p.append_section(None, None, Some(1)).unwrap();
    p.append_section(None, None, Some(1)).unwrap();
    p.sections[1].name("chorus".to_string());
    p.sections[2].name("chorus".to_string());
    assert_eq!(p.find_section("chorus"), Some(1));
    assert_eq!(p.find_section("verse"), None);
}

#[test]
fn append_then_remove_last_restores_sections() {
    let mut p = project();
    p.append_section(Some(100), None, Some(2)).unwrap();
    p.append_section(Some(80), Some("3/4".to_string()), Some(1)).unwrap();
    let n = p.sections.len();
    assert!(p.remove_section(n - 1));
    assert_eq!(p.sections.len(), 1);
    assert_eq!(p.sections[0].bpm, 100);
}

#[test]
fn empty_edit_keeps_the_section() {
    let mut p = project();
    p.append_section(Some(100), Some("3/4".to_string()), Some(2)).unwrap();
    assert_eq!(p.edit_section(0, None, None, None), Ok(()));
    assert_eq!(p.sections[0].bpm, 100);
    assert_eq!(p.sections[0].time_signature, ts(3, 4));
    assert_eq!(p.sections[0].measures, Some(2));
}

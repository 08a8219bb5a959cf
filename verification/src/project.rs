//! Projects: a profile and a list of sections, and the edits made to them.
use vstd::prelude::*;
use crate::config::Config;
use crate::section::{
    are_section_events, spec_time_signature, spec_time_signature_text, time_signature_error, Section,
    TimeSignature,
};
use crate::text::{decimal, push_decimal};
use crate::visuals::BeatEvent;

verus! {

/// A project as it is kept in memory.
#[derive(Debug)]
pub struct Project {
    pub name: String,
    pub profile: Config,
    pub file_path: String,
    pub sections: Vec<Section>,
}

/// A project as it is stored: the profile is referred to by its name.
#[derive(Debug)]
pub struct ProjectFile {
    pub name: String,
    pub profile: String,
    pub file_path: String,
    pub sections: Vec<Section>,
}

/// The number of measures of the section that a project plays for a single
/// open-ended section.
pub const METRONOME_MEASURES: u32 = 512;

/// The section that a new section takes omitted values from: the one before
/// `position`, or, at the start, the profile's values.
pub open spec fn template_bpm(p: Project, position: int) -> u32 {
    if position > 0 { p.sections@[position - 1].bpm } else { p.profile.bpm }
}

/// The time signature that a new section at `position` takes where none is given.
pub open spec fn template_time_signature(p: Project, position: int) -> TimeSignature {
    if position > 0 {
        p.sections@[position - 1].time_signature
    } else {
        TimeSignature { beats_per_bar: p.profile.beats_per_bar, beat_unit: p.profile.beat_unit }
    }
}

/// The given time signature text does not parse.
pub open spec fn bad_time_signature(time_sig: Option<String>) -> bool {
    time_sig matches Some(t) && spec_time_signature(t@) is None
}

/// The section that is made at `position`, from the given values and the template.
pub open spec fn new_section(
    p: Project,
    position: int,
    bpm: Option<u32>,
    time_sig: Option<String>,
    measures: Option<u32>,
) -> Section {
    Section {
        bpm: match bpm {
            Some(b) => b,
            None => template_bpm(p, position),
        },
        time_signature: match time_sig {
            Some(t) => spec_time_signature(t@)->0,
            None => template_time_signature(p, position),
        },
        measures,
        name: None,
    }
}

/// A section with the given values set and the others kept.
pub open spec fn edited_section(s: Section, measures: Option<u32>, bpm: Option<u32>, time_sig: Option<String>) -> Section {
    Section {
        bpm: match bpm {
            Some(b) => b,
            None => s.bpm,
        },
        time_signature: match time_sig {
            Some(t) => spec_time_signature(t@)->0,
            None => s.time_signature,
        },
        measures: match measures {
            Some(m) => Some(m),
            None => s.measures,
        },
        name: s.name,
    }
}

/// The message of an append after an open-ended section.
pub open spec fn open_ended_error(index: nat) -> Seq<char> {
    "[tsic] illegal operation. Section at index: "@ + decimal(index)
        + " has no measurement. Appending a new section will have no effect"@
}

/// The message of an insert past the end of the sections.
pub open spec fn insert_position_error(position: nat, len: nat) -> Seq<char> {
    "[tsic] cannot insert a section at position "@ + decimal(position) + ": the project has "@
        + decimal(len) + " sections"@
}

/// The message of an edit of a section that does not exist.
pub open spec fn edit_position_error(position: nat) -> Seq<char> {
    "[tsic] there is no section at position "@ + decimal(position)
}

/// The message of a project that cannot be rendered because a section other
/// than a lone one has no number of measures.
pub open spec fn missing_measures_error(section_id: nat) -> Seq<char> {
    "[tsic] this project has more than one section and section "@ + decimal(section_id)
        + " has no number of measurements defined."@
}

/// The number of measures that rendering plays of section `i`: its own, or the
/// profile's fallback where the project has only that one section.
pub open spec fn planned_measures(p: Project, i: int) -> Option<u32> {
    match p.sections@[i].measures {
        Some(m) => Some(m),
        None => if p.sections@.len() == 1 { Some(p.profile.num_meassures_fallback) } else { None },
    }
}

/// All sections up to `n` have a planned number of measures.
pub open spec fn planned_upto(p: Project, n: int) -> bool {
    forall|i: int| 0 <= i < n ==> #[trigger] planned_measures(p, i) is Some
}

/// The project's other fields than its sections are those of `q`.
pub open spec fn same_but_sections(p: Project, q: Project) -> bool {
    &&& p.name == q.name
    &&& p.profile == q.profile
    &&& p.file_path == q.file_path
}

fn time_signature_or(time_sig: Option<String>, template: TimeSignature) -> (r: Result<TimeSignature, String>)
    ensures
        r is Ok <==> !bad_time_signature(time_sig),
        r matches Ok(ts) ==> ts == (match time_sig {
            Some(t) => spec_time_signature(t@)->0,
            None => template,
        }),
        r matches Err(e) ==> e@ == time_signature_error(time_sig->0@),
{
    match time_sig {
        Some(t) => TimeSignature::try_from(t.as_str()),
        None => Ok(template),
    }
}

fn error_with_number(prefix: &str, n: u64, suffix: &str) -> (e: String)
    ensures
        e@ == prefix@ + decimal(n as nat) + suffix@,
{
    let mut e = String::from_str(prefix);
    push_decimal(&mut e, n);
    e.append(suffix);
    e
}

impl Project {
    pub fn new(name: &str, profile: Config, file_path: &str) -> (p: Self)
        ensures
            p.name@ == name@,
            p.profile == profile,
            p.file_path@ == file_path@,
            p.sections@ == Seq::<Section>::empty(),
    {
        Self {
            name: String::from_str(name),
            profile,
            file_path: String::from_str(file_path),
            sections: Vec::new(),
        }
    }

    /// The project that the metronome plays: one section of the given tempo
    /// and time signature, long enough to loop.
    pub fn metronome(bpm: u32, time_sig: TimeSignature, config: Config) -> (p: Self)
        ensures
            p.name@ == ""@,
            p.profile == config,
            p.file_path@ == "."@,
            p.sections@ == seq![Section {
                bpm,
                time_signature: time_sig,
                measures: Some(METRONOME_MEASURES),
                name: None,
            }],
    {
        let mut project = Project::new("", config, ".");
        project.sections.push(Section {
            name: None,
            bpm,
            time_signature: time_sig,
            measures: Some(METRONOME_MEASURES),
        });
        project
    }

    /// Appends a section. Except for the number of measures, omitted values
    /// are taken from the last section, or from the profile when there is none.
    /// A section after an open-ended last section is refused.
    pub fn append_section(
        &mut self,
        bpm: Option<u32>,
        time_sig: Option<String>,
        measures: Option<u32>,
    ) -> (r: Result<(), String>)
        ensures
            same_but_sections(*final(self), *old(self)),
            ({
                let n = old(self).sections@.len();
                if n > 0 && old(self).sections@[n - 1].measures is None {
                    &&& r matches Err(e) && e@ == open_ended_error((n - 1) as nat)
                    &&& final(self).sections@ == old(self).sections@
                } else if bad_time_signature(time_sig) {
                    &&& r matches Err(e) && e@ == time_signature_error(time_sig->0@)
                    &&& final(self).sections@ == old(self).sections@
                } else {
                    &&& r is Ok
                    &&& final(self).sections@ == old(self).sections@.push(
                        new_section(*old(self), n as int, bpm, time_sig, measures))
                }
            }),
    {
        let n = self.sections.len();
        let (template_bpm, template_ts) = if n > 0 {
            let last = &self.sections[n - 1];
            if last.measures.is_none() {
                return Err(error_with_number(
                    "[tsic] illegal operation. Section at index: ",
                    (n - 1) as u64,
                    " has no measurement. Appending a new section will have no effect",
                ));
            }
            (last.bpm, last.time_signature)
        } else {
            (self.profile.bpm, TimeSignature {
                beats_per_bar: self.profile.beats_per_bar,
                beat_unit: self.profile.beat_unit,
            })
        };
        let time_signature = time_signature_or(time_sig, template_ts)?;
        let section = Section {
            bpm: match bpm {
                Some(b) => b,
                None => template_bpm,
            },
            time_signature,
            measures,
            name: None,
        };
        self.sections.push(section);
        Ok(())
    }

    /// Inserts a section with the given number of measures at `position`.
    /// Omitted values are taken from the section before it, or from the
    /// profile when there is none.
    pub fn insert_section_at(
        &mut self,
        position: usize,
        measures: u32,
        bpm: Option<u32>,
        time_sig: Option<String>,
    ) -> (r: Result<(), String>)
        ensures
            same_but_sections(*final(self), *old(self)),
            ({
                let n = old(self).sections@.len();
                if position > n {
                    &&& r matches Err(e) && e@ == insert_position_error(position as nat, n)
                    &&& final(self).sections@ == old(self).sections@
                } else if bad_time_signature(time_sig) {
                    &&& r matches Err(e) && e@ == time_signature_error(time_sig->0@)
                    &&& final(self).sections@ == old(self).sections@
                } else {
                    &&& r is Ok
                    &&& final(self).sections@ == old(self).sections@.insert(
                        position as int,
                        new_section(*old(self), position as int, bpm, time_sig, Some(measures)))
                }
            }),
    {
        let n = self.sections.len();
        if position > n {
            let mut e = error_with_number(
                "[tsic] cannot insert a section at position ",
                position as u64,
                ": the project has ",
            );
            push_decimal(&mut e, n as u64);
            e.append(" sections");
            return Err(e);
        }
        let (template_bpm, template_ts) = if position > 0 {
            (self.sections[position - 1].bpm, self.sections[position - 1].time_signature)
        } else {
            (self.profile.bpm, TimeSignature {
                beats_per_bar: self.profile.beats_per_bar,
                beat_unit: self.profile.beat_unit,
            })
        };
        let time_signature = time_signature_or(time_sig, template_ts)?;
        let section = Section {
            bpm: match bpm {
                Some(b) => b,
                None => template_bpm,
            },
            time_signature,
            measures: Some(measures),
            name: None,
        };
        self.sections.insert(position, section);
        Ok(())
    }

    /// Sets the given values of the section at `position`; the others stay.
    pub fn edit_section(
        &mut self,
        position: usize,
        measures: Option<u32>,
        bpm: Option<u32>,
        time_sig: Option<String>,
    ) -> (r: Result<(), String>)
        ensures
            same_but_sections(*final(self), *old(self)),
            ({
                let n = old(self).sections@.len();
                if position >= n {
                    &&& r matches Err(e) && e@ == edit_position_error(position as nat)
                    &&& final(self).sections@ == old(self).sections@
                } else if bad_time_signature(time_sig) {
                    &&& r matches Err(e) && e@ == time_signature_error(time_sig->0@)
                    &&& final(self).sections@ == old(self).sections@
                } else {
                    &&& r is Ok
                    &&& final(self).sections@ == old(self).sections@.update(
                        position as int,
                        edited_section(old(self).sections@[position as int], measures, bpm, time_sig))
                }
            }),
    {
        let n = self.sections.len();
        if position >= n {
            let mut e = String::from_str("[tsic] there is no section at position ");
            push_decimal(&mut e, position as u64);
            return Err(e);
        }
        let old_section = self.sections[position].clone();
        let time_signature = time_signature_or(time_sig, old_section.time_signature)?;
        let section = Section {
            bpm: match bpm {
                Some(b) => b,
                None => old_section.bpm,
            },
            time_signature,
            measures: match measures {
                Some(m) => Some(m),
                None => old_section.measures,
            },
            name: old_section.name,
        };
        self.sections.set(position, section);
        Ok(())
    }

    /// Removes the section at `position`; says whether there was one.
    pub fn remove_section(&mut self, position: usize) -> (removed: bool)
        ensures
            same_but_sections(*final(self), *old(self)),
            removed == (position < old(self).sections@.len()),
            removed ==> final(self).sections@ == old(self).sections@.remove(position as int),
            !removed ==> final(self).sections@ == old(self).sections@,
    {
        if position < self.sections.len() {
            self.sections.remove(position);
            true
        } else {
            false
        }
    }
}

/// `f` is the stored form of `p`: the same name, path and sections, and the
/// name of its profile.
pub open spec fn is_stored_form(f: ProjectFile, p: Project) -> bool {
    &&& f.name == p.name
    &&& f.profile == p.profile.name
    &&& f.file_path == p.file_path
    &&& f.sections@ == p.sections@
}

/// Two projects hold the same values.
pub open spec fn same_project(a: Project, b: Project) -> bool {
    same_but_sections(a, b) && a.sections@ == b.sections@
}

/// The project of a stored project, with its profile loaded and the path it was read from.
pub open spec fn spec_from_file(f: ProjectFile, profile: Config, file_path: String) -> Project {
    Project { name: f.name, profile, file_path, sections: f.sections }
}

/// A copy of a list of sections.
pub fn clone_sections(sections: &Vec<Section>) -> (r: Vec<Section>)
    ensures
        r@ == sections@,
{
    let mut r: Vec<Section> = Vec::new();
    let mut i: usize = 0;
    while i < sections.len()
        invariant
            i <= sections@.len(),
            r@ == sections@.subrange(0, i as int),
        decreases sections@.len() - i,
    {
        r.push(sections[i].clone());
        i = i + 1;
        assert(r@ =~= sections@.subrange(0, i as int));
    }
    assert(r@ =~= sections@);
    r
}

impl Project {
    /// The stored form of the project.
    pub fn to_file(&self) -> (f: ProjectFile)
        ensures
            is_stored_form(f, *self),
    {
        ProjectFile {
            name: self.name.clone(),
            profile: self.profile.name.clone(),
            file_path: self.file_path.clone(),
            sections: clone_sections(&self.sections),
        }
    }

    /// The project of a stored project, given the profile that it names and
    /// the path that it was read from.
    pub fn from_file(parsed: ProjectFile, profile: Config, file_path: String) -> (p: Project)
        ensures
            p == spec_from_file(parsed, profile, file_path),
    {
        Project { name: parsed.name, profile, file_path, sections: parsed.sections }
    }

    /// The number of measures that rendering plays of each section: its own,
    /// or the profile's fallback for a project of one section. A section
    /// without one in a project of several is refused.
    pub fn measures_plan(&self) -> (r: Result<Vec<u32>, String>)
        ensures
            r is Ok <==> planned_upto(*self, self.sections@.len() as int),
            r matches Ok(v) ==> v@.len() == self.sections@.len()
                && forall|i: int| 0 <= i < v@.len() ==> Some(#[trigger] v@[i]) == planned_measures(*self, i),
            r matches Err(e) ==> exists|i: int|
                0 <= i < self.sections@.len()
                && planned_upto(*self, i)
                && planned_measures(*self, i) is None
                && e@ == missing_measures_error(i as nat),
    {
        let n = self.sections.len();
        let mut plan: Vec<u32> = Vec::new();
        let mut i: usize = 0;
        while i < n
            invariant
                i <= n,
                n == self.sections@.len(),
                planned_upto(*self, i as int),
                plan@.len() == i,
                forall|j: int| 0 <= j < i ==> Some(#[trigger] plan@[j]) == planned_measures(*self, j),
            decreases n - i,
        {
            let m = match self.sections[i].measures {
                Some(m) => m,
                None => {
                    if n == 1 {
                        self.profile.num_meassures_fallback
                    } else {
                        let e = error_with_number(
                            "[tsic] this project has more than one section and section ",
                            i as u64,
                            " has no number of measurements defined.",
                        );
                        assert(planned_measures(*self, i as int) is None);
                        return Err(e);
                    }
                }
            };
            plan.push(m);
            proof {
                assert(Some(plan@[i as int]) == planned_measures(*self, i as int));
                assert forall|j: int| 0 <= j < i + 1 implies #[trigger] planned_measures(*self, j) is Some by {
                    if j < i {
                        assert(planned_upto(*self, i as int));
                    }
                }
            }
            i = i + 1;
        }
        Ok(plan)
    }

    /// The beat events of every section, section by section.
    pub fn beat_events(&self) -> (events: Vec<Vec<BeatEvent>>)
        ensures
            events@.len() == self.sections@.len(),
            forall|i: int| 0 <= i < events@.len() ==> are_section_events(
                self.sections@[i], i as usize, self.sections@.len() as usize,
                self.profile.num_meassures_fallback, #[trigger] events@[i]@),
    {
        let n = self.sections.len();
        let mut events: Vec<Vec<BeatEvent>> = Vec::new();
        let mut i: usize = 0;
        while i < n
            invariant
                i <= n,
                n == self.sections@.len(),
                events@.len() == i,
                forall|j: int| 0 <= j < i ==> are_section_events(
                    self.sections@[j], j as usize, n, self.profile.num_meassures_fallback,
                    #[trigger] events@[j]@),
            decreases n - i,
        {
            let section_events = self.sections[i].get_beat_events_with_measures(i, n, &self.profile);
            events.push(section_events);
            i = i + 1;
        }
        events
    }
}

/// The decimal notation of a signed number.
pub open spec fn signed_decimal(x: int) -> Seq<char> {
    if x < 0 { seq!['-'] + decimal((-x) as nat) } else { decimal(x as nat) }
}

/// The number of measures as the listing shows it: the count read as a
/// 32-bit signed number, or -1 for an open-ended section.
pub open spec fn listed_measures(m: Option<u32>) -> int {
    match m {
        Some(v) => if v <= i32::MAX { v as int } else { v as int - 0x1_0000_0000 },
        None => -1,
    }
}

/// The listing line of section `i`.
pub open spec fn section_line(i: int, s: Section) -> Seq<char> {
    "  ["@ + decimal(i as nat) + "] bpm: "@ + decimal(s.bpm as nat) + "; time_signature: "@
        + spec_time_signature_text(s.time_signature) + ", measures: "@ + signed_decimal(listed_measures(s.measures))
        + "\n"@
}

/// The listing lines of the first `n` sections.
pub open spec fn section_lines(ss: Seq<Section>, n: int) -> Seq<char>
    decreases n,
{
    if n <= 0 { Seq::empty() } else { section_lines(ss, n - 1) + section_line(n - 1, ss[n - 1]) }
}

/// The listing of a project: its name, profile, path and sections.
pub open spec fn spec_describe(p: Project) -> Seq<char> {
    "[name]         "@ + p.name@ + "\n[profile]      "@ + p.profile.name@ + "\n[file_path]    "@
        + p.file_path@ + "\n[sections]\n"@ + section_lines(p.sections@, p.sections@.len() as int)
}

fn push_signed(out: &mut String, x: i64)
    requires
        x > i64::MIN,
    ensures
        final(out)@ == old(out)@ + signed_decimal(x as int),
{
    if x < 0 {
        out.push('-');
        push_decimal(out, (-x) as u64);
        assert(final(out)@ =~= old(out)@ + signed_decimal(x as int));
    } else {
        push_decimal(out, x as u64);
    }
}

fn push_section_line(s: &mut String, i: usize, section: &Section)
    ensures
        final(s)@ == old(s)@ + section_line(i as int, *section),
{
    s.append("  [");
    push_decimal(s, i as u64);
    s.append("] bpm: ");
    push_decimal(s, section.bpm as u64);
    s.append("; time_signature: ");
    let ts = section.time_signature.to_string();
    s.append(ts.as_str());
    s.append(", measures: ");
    let listed: i64 = match section.measures {
        Some(v) => if v <= 0x7fff_ffffu32 { v as i64 } else { v as i64 - 0x1_0000_0000i64 },
        None => -1,
    };
    push_signed(s, listed);
    s.append("\n");
    assert(final(s)@ =~= old(s)@ + section_line(i as int, *section));
}

impl Project {
    /// The listing that the `project` command prints.
    pub fn describe(&self) -> (s: String)
        ensures
            s@ == spec_describe(*self),
    {
        let mut s = String::from_str("[name]         ");
        s.append(self.name.as_str());
        s.append("\n[profile]      ");
        s.append(self.profile.name.as_str());
        s.append("\n[file_path]    ");
        s.append(self.file_path.as_str());
        s.append("\n[sections]\n");
        let ghost head = s@;
        let mut i: usize = 0;
        while i < self.sections.len()
            invariant
                i <= self.sections@.len(),
                head + section_lines(self.sections@, 0) == head,
                s@ == head + section_lines(self.sections@, i as int),
            decreases self.sections@.len() - i,
        {
            let ghost before = s@;
            push_section_line(&mut s, i, &self.sections[i]);
            assert(s@ =~= head + section_lines(self.sections@, i as int + 1));
            i = i + 1;
        }
        assert(s@ =~= spec_describe(*self));
        s
    }
}

/// The section carries the name `name`.
pub open spec fn has_name(s: Section, name: Seq<char>) -> bool {
    s.name matches Some(n) && n@ == name
}

impl Project {
    /// The position of the first section with the given name.
    pub fn find_section(&self, name: &str) -> (r: Option<usize>)
        ensures
            r matches Some(i) ==> i < self.sections@.len() && has_name(self.sections@[i as int], name@)
                && forall|j: int| 0 <= j < i ==> !has_name(#[trigger] self.sections@[j], name@),
            r is None ==> forall|j: int| 0 <= j < self.sections@.len() ==> !has_name(#[trigger] self.sections@[j], name@),
    {
        let wanted = String::from_str(name);
        let mut i: usize = 0;
        while i < self.sections.len()
            invariant
                i <= self.sections@.len(),
                wanted@ == name@,
                forall|j: int| 0 <= j < i ==> !has_name(#[trigger] self.sections@[j], name@),
            decreases self.sections@.len() - i,
        {
            let matches = match &self.sections[i].name {
                Some(n) => *n == wanted,
                None => false,
            };
            if matches {
                return Some(i);
            }
            i = i + 1;
        }
        None
    }
}

/// Inserting a section and then removing the section at the same position
/// gives back the sections as they were.
pub proof fn law_insert_then_remove(
    p: Project,
    position: usize,
    measures: u32,
    bpm: Option<u32>,
    time_sig: Option<String>,
)
    requires
        position <= p.sections@.len(),
    ensures
        p.sections@.insert(position as int, new_section(p, position as int, bpm, time_sig, Some(measures)))
            .remove(position as int) == p.sections@,
{
    assert(p.sections@.insert(position as int, new_section(p, position as int, bpm, time_sig, Some(measures)))
        .remove(position as int) =~= p.sections@);
}

/// Appending a section and then removing the last section gives back the
/// sections as they were.
pub proof fn law_append_then_remove_last(
    p: Project,
    bpm: Option<u32>,
    time_sig: Option<String>,
    measures: Option<u32>,
)
    ensures
        ({
            let n = p.sections@.len();
            p.sections@.push(new_section(p, n as int, bpm, time_sig, measures)).remove(n as int)
                == p.sections@
        }),
{
    let n = p.sections@.len();
    assert(p.sections@.push(new_section(p, n as int, bpm, time_sig, measures)).remove(n as int)
        =~= p.sections@);
}

/// An edit that gives no values leaves the section as it was.
pub proof fn law_empty_edit_keeps_section(s: Section)
    ensures
        edited_section(s, None, None, None) == s,
{
}

/// Storing a project and reading it back with the same profile and path gives
/// the same project.
pub proof fn law_file_round_trip(p: Project, f: ProjectFile)
    requires
        is_stored_form(f, p),
    ensures
        same_project(spec_from_file(f, p.profile, p.file_path), p),
{
}

/// Inserting keeps every value that is given: the new section stands at
/// `position` with the given tempo, time signature and number of measures;
/// only a value left out is taken from the section before it, or from the
/// profile at the start. The sections before stay in place and those after
/// move up by one.
pub proof fn law_insert_keeps_given_values(
    p: Project,
    position: usize,
    measures: u32,
    bpm: Option<u32>,
    time_sig: Option<String>,
)
    requires
        position <= p.sections@.len(),
        !bad_time_signature(time_sig),
    ensures
        ({
            let before = p.sections@;
            let after = before.insert(position as int, new_section(p, position as int, bpm, time_sig, Some(measures)));
            let s = after[position as int];
            &&& after.len() == before.len() + 1
            &&& s.measures == Some(measures)
            &&& s.name is None
            &&& (bpm matches Some(b) ==> s.bpm == b)
            &&& (bpm is None ==> s.bpm == (if position > 0 { before[position - 1].bpm } else { p.profile.bpm }))
            &&& (time_sig matches Some(t) ==> spec_time_signature(t@) == Some(s.time_signature))
            &&& (time_sig is None ==> s.time_signature == (if position > 0 {
                before[position - 1].time_signature
            } else {
                TimeSignature { beats_per_bar: p.profile.beats_per_bar, beat_unit: p.profile.beat_unit }
            }))
            &&& forall|q: int| 0 <= q < position ==> #[trigger] after[q] == before[q]
            &&& forall|q: int| position <= q < before.len() ==> #[trigger] after[q + 1] == before[q]
        }),
{
}

/// Appending keeps every value that is given in the same way: the new last
/// section has the given tempo, time signature and number of measures, and
/// takes only left-out values from the last section or the profile.
pub proof fn law_append_keeps_given_values(
    p: Project,
    bpm: Option<u32>,
    time_sig: Option<String>,
    measures: Option<u32>,
)
    requires
        !bad_time_signature(time_sig),
    ensures
        ({
            let before = p.sections@;
            let n = before.len() as int;
            let after = before.push(new_section(p, n, bpm, time_sig, measures));
            let s = after[n];
            &&& after.len() == n + 1
            &&& s.measures == measures
            &&& (bpm matches Some(b) ==> s.bpm == b)
            &&& (bpm is None ==> s.bpm == (if n > 0 { before[n - 1].bpm } else { p.profile.bpm }))
            &&& (time_sig matches Some(t) ==> spec_time_signature(t@) == Some(s.time_signature))
            &&& forall|q: int| 0 <= q < n ==> #[trigger] after[q] == before[q]
        }),
{
}

/// A section with its own number of measures plays exactly that many, however
/// many sections the project has; the profile's fallback applies only to a
/// lone section without one, and a section without one among several cannot
/// be rendered.
pub proof fn law_plan_uses_own_measures(p: Project, i: int)
    requires
        0 <= i < p.sections@.len(),
    ensures
        p.sections@[i].measures matches Some(m) ==> planned_measures(p, i) == Some(m),
        p.sections@[i].measures is None && p.sections@.len() == 1
            ==> planned_measures(p, i) == Some(p.profile.num_meassures_fallback),
        p.sections@[i].measures is None && p.sections@.len() > 1 ==> planned_measures(p, i) is None,
{
}

} // verus!

//! The beats of a section as the display shows them, and the lines it prints.
use vstd::prelude::*;
use crate::section::{spec_time_signature_text, TimeSignature};
use crate::text::{decimal, push_decimal, push_repeated};

verus! {

/// One beat of a section, with where it stands in its bar, section and project.
#[derive(Debug)]
pub struct BeatEvent {
    pub section_name: Option<String>,
    pub beat: u32,
    pub beats_per_bar: u32,
    pub measure: u32,
    pub num_measures: u32,
    pub section_index: usize,
    pub num_sections: usize,
    pub bpm: u32,
    pub time_sig: TimeSignature,
}

/// The display shows the section header before this beat: it is the first
/// beat of the first bar of its section.
pub open spec fn opens_section(e: BeatEvent) -> bool {
    e.beat == 0 && e.measure == 0
}

/// The header of a section: its place in the project, time signature and
/// tempo, and those of the next section where there is one.
pub open spec fn spec_header_line(e: BeatEvent, next: Option<BeatEvent>) -> Seq<char> {
    "[Section "@ + decimal(e.section_index as nat + 1) + "/"@ + decimal(e.num_sections as nat)
        + " | "@ + decimal(e.time_sig.beats_per_bar as nat) + "/"@ + decimal(e.time_sig.beat_unit as nat)
        + " | "@ + decimal(e.bpm as nat) + " BPM]"@
        + match next {
            Some(n) => " -> [Next: "@ + spec_time_signature_text(n.time_sig) + " | "@ + decimal(n.bpm as nat)
                + " BPM]"@,
            None => Seq::empty(),
        }
}

/// The start of the bar line: which bar of how many.
pub open spec fn spec_bar_prefix(e: BeatEvent) -> Seq<char> {
    "  bar "@ + decimal(e.measure as nat + 1) + "/"@ + decimal(e.num_measures as nat) + " | "@
}

/// The mark of beat `i` of the bar while beat `beat` plays: `X` for the first
/// beat, `+` for the others played so far, `.` for those still to come.
pub open spec fn beat_mark(i: int, beat: u32) -> char {
    if i == 0 { 'X' } else if i <= beat { '+' } else { '.' }
}

/// The bar line: the prefix, then the mark of every beat of the bar, each
/// followed by a space.
pub open spec fn spec_bar_line(e: BeatEvent) -> Seq<char> {
    spec_bar_prefix(e) + Seq::new(2 * e.beats_per_bar as nat, |k: int|
        if k % 2 == 0 { beat_mark(k / 2, e.beat) } else { ' ' })
}

/// The caret line: a `^` under the mark of the beat that plays.
pub open spec fn spec_caret_line(e: BeatEvent) -> Seq<char> {
    Seq::new((spec_bar_prefix(e).len() + 2 * e.beat) as nat, |_k: int| ' ') + seq!['^']
}

fn bar_prefix(event: &BeatEvent) -> (s: String)
    ensures
        s@ == spec_bar_prefix(*event),
{
    let mut s = String::from_str("  bar ");
    push_decimal(&mut s, event.measure as u64 + 1);
    s.append("/");
    push_decimal(&mut s, event.num_measures as u64);
    s.append(" | ");
    s
}

/// The header line that opens a section on the display.
pub fn header_line(event: &BeatEvent, next_event: Option<&BeatEvent>) -> (s: String)
    requires
        event.section_index < usize::MAX,
    ensures
        s@ == spec_header_line(*event, match next_event {
            Some(n) => Some(*n),
            None => None,
        }),
{
    let mut s = String::from_str("[Section ");
    push_decimal(&mut s, event.section_index as u64 + 1);
    s.append("/");
    push_decimal(&mut s, event.num_sections as u64);
    s.append(" | ");
    push_decimal(&mut s, event.time_sig.beats_per_bar as u64);
    s.append("/");
    push_decimal(&mut s, event.time_sig.beat_unit as u64);
    s.append(" | ");
    push_decimal(&mut s, event.bpm as u64);
    s.append(" BPM]");
    match next_event {
        Some(n) => {
            s.append(" -> [Next: ");
            let ts = n.time_sig.to_string();
            s.append(ts.as_str());
            s.append(" | ");
            push_decimal(&mut s, n.bpm as u64);
            s.append(" BPM]");
        },
        None => {
            assert(s@ =~= s@ + Seq::<char>::empty());
        },
    }
    s
}

/// The bar line of the beat that plays.
pub fn bar_line(event: &BeatEvent) -> (s: String)
    ensures
        s@ == spec_bar_line(*event),
{
    let mut s = bar_prefix(event);
    let ghost prefix = s@;
    let mut i: u32 = 0;
    while i < event.beats_per_bar
        invariant
            i <= event.beats_per_bar,
            prefix == spec_bar_prefix(*event),
            s@ == prefix + Seq::new(2 * i as nat, |k: int|
                if k % 2 == 0 { beat_mark(k / 2, event.beat) } else { ' ' }),
        decreases event.beats_per_bar - i,
    {
        let ch = if i == 0 {
            'X'
        } else if i <= event.beat {
            '+'
        } else {
            '.'
        };
        s.push(ch);
        s.push(' ');
        i = i + 1;
        assert(s@ =~= prefix + Seq::new(2 * i as nat, |k: int|
            if k % 2 == 0 { beat_mark(k / 2, event.beat) } else { ' ' }));
    }
    s
}

/// The caret line under the bar line of the beat that plays.
pub fn caret_line(event: &BeatEvent) -> (s: String)
    ensures
        s@ == spec_caret_line(*event),
{
    let prefix = bar_prefix(event);
    let width = prefix.unicode_len();
    let mut s = String::new();
    push_repeated(&mut s, ' ', width);
    let mut i: u32 = 0;
    while i < event.beat
        invariant
            i <= event.beat,
            width == spec_bar_prefix(*event).len(),
            s@ == Seq::new((width + 2 * i) as nat, |_k: int| ' '),
        decreases event.beat - i,
    {
        s.push(' ');
        s.push(' ');
        i = i + 1;
        assert(s@ =~= Seq::new((width + 2 * i) as nat, |_k: int| ' '));
    }
    s.push('^');
    assert(s@ =~= spec_caret_line(*event));
    s
}

/// What the display shows for a beat: the section header when the beat opens
/// its section, then the bar line and the caret line.
pub fn beat_display(event: &BeatEvent, next_event: Option<&BeatEvent>) -> (r: (Option<String>, String, String))
    requires
        opens_section(*event) ==> event.section_index < usize::MAX,
    ensures
        r.0 is Some <==> opens_section(*event),
        r.0 matches Some(h) ==> h@ == spec_header_line(*event, match next_event {
            Some(n) => Some(*n),
            None => None,
        }),
        r.1@ == spec_bar_line(*event),
        r.2@ == spec_caret_line(*event),
{
    let header = if event.beat == 0 && event.measure == 0 {
        Some(header_line(event, next_event))
    } else {
        None
    };
    (header, bar_line(event), caret_line(event))
}

/// The caret stands under the mark of the beat that plays, and that mark is
/// `X` on the first beat of a bar and `+` on the others.
pub proof fn law_caret_under_playing_beat(e: BeatEvent)
    requires
        e.beat < e.beats_per_bar,
    ensures
        ({
            let caret = spec_caret_line(e);
            let bar = spec_bar_line(e);
            &&& caret.len() <= bar.len()
            &&& caret.last() == '^'
            &&& bar[caret.len() - 1] == (if e.beat == 0 { 'X' } else { '+' })
        }),
{
    let prefix = spec_bar_prefix(e);
    let k = 2 * e.beat as int;
    assert(spec_bar_line(e)[prefix.len() + k] == beat_mark(k / 2, e.beat));
}

} // verus!

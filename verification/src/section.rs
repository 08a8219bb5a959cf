//! Time signatures and sections of a click track.
use vstd::prelude::*;
use crate::config::Config;
use crate::text::{chars_of, decimal, digit_char, push_decimal};
use crate::visuals::BeatEvent;

verus! {

/// Whether `c` is one of the ASCII digits `0` to `9`.
pub open spec fn is_digit(c: char) -> bool {
    '0' <= c <= '9'
}

/// The value of a run of decimal digits, most significant first.
pub open spec fn digits_value(s: Seq<char>) -> nat
    decreases s.len(),
{
    if s.len() == 0 {
        0
    } else {
        digits_value(s.drop_last()) * 10 + ((s.last() as nat) - ('0' as nat)) as nat
    }
}

/// Every character of `d` is an ASCII digit.
pub open spec fn all_digits(d: Seq<char>) -> bool {
    forall|i: int| 0 <= i < d.len() ==> is_digit(#[trigger] d[i])
}

/// `s` without the one `+` sign that may lead it.
pub open spec fn unsigned_part(s: Seq<char>) -> Seq<char> {
    if s.len() > 0 && s[0] == '+' { s.drop_first() } else { s }
}

/// What parsing `s` as a `u32` gives: an optional `+`, then at least one
/// ASCII digit and nothing else, with a value that fits in 32 bits.
pub open spec fn spec_parse_u32(s: Seq<char>) -> Option<u32> {
    let d = unsigned_part(s);
    if d.len() > 0 && all_digits(d) && digits_value(d) <= u32::MAX {
        Some(digits_value(d) as u32)
    } else {
        None
    }
}

/// `i` is the position of the first `/` in `s`.
pub open spec fn is_first_slash(s: Seq<char>, i: int) -> bool {
    &&& 0 <= i < s.len()
    &&& s[i] == '/'
    &&& forall|j: int| 0 <= j < i ==> s[j] != '/'
}

/// What `beats_per_bar/beat_unit` text denotes: it is split at its first `/`
/// and both halves must parse as `u32`.
pub open spec fn spec_time_signature(s: Seq<char>) -> Option<TimeSignature> {
    if exists|i: int| is_first_slash(s, i) {
        let i = choose|i: int| is_first_slash(s, i);
        match (spec_parse_u32(s.subrange(0, i)), spec_parse_u32(s.subrange(i + 1, s.len() as int))) {
            (Some(bpb), Some(bu)) => Some(TimeSignature { beats_per_bar: bpb, beat_unit: bu }),
            _ => None,
        }
    } else {
        None
    }
}

/// The message of a time signature that cannot be parsed.
pub open spec fn time_signature_error(value: Seq<char>) -> Seq<char> {
    "[tsic] error parsing "@ + value + " to TimeSignature"@
}

proof fn lemma_digits_value_bound(s: Seq<char>)
    requires
        forall|i: int| 0 <= i < s.len() ==> is_digit(#[trigger] s[i]),
    ensures
        forall|k: int| 0 <= k <= s.len() ==> digits_value(#[trigger] s.subrange(0, k)) <= digits_value(s),
    decreases s.len(),
{
    if s.len() > 0 {
        let p = s.drop_last();
        assert forall|i: int| 0 <= i < p.len() implies is_digit(#[trigger] p[i]) by {
            assert(p[i] == s[i]);
        }
        lemma_digits_value_bound(p);
        assert forall|k: int| 0 <= k <= s.len() implies digits_value(#[trigger] s.subrange(0, k)) <= digits_value(s) by {
            if k == s.len() {
                assert(s.subrange(0, k) =~= s);
            } else {
                assert(s.subrange(0, k) =~= p.subrange(0, k));
            }
        }
    }
}

/// Parses a run of characters as a `u32` the way `str::parse::<u32>` does.
fn parse_u32(s: &[char], start: usize, end: usize) -> (r: Option<u32>)
    requires
        start <= end <= s@.len(),
    ensures
        r == spec_parse_u32(s@.subrange(start as int, end as int)),
{
    let ghost whole = s@.subrange(start as int, end as int);
    let mut i = start;
    if i < end && s[i] == '+' {
        i = i + 1;
    }
    let ghost d = s@.subrange(i as int, end as int);
    assert(d =~= unsigned_part(whole));
    if i == end {
        return None;
    }
    let first = i;
    let mut value: u64 = 0;
    while i < end
        invariant
            start <= first <= i <= end <= s@.len(),
            first < end,
            whole == s@.subrange(start as int, end as int),
            d == s@.subrange(first as int, end as int),
            d == unsigned_part(whole),
            forall|j: int| first <= j < i ==> is_digit(#[trigger] s@[j]),
            value == digits_value(s@.subrange(first as int, i as int)),
            value <= u32::MAX,
        decreases end - i,
    {
        let c = s[i];
        if !('0' <= c && c <= '9') {
            assert(d[i - first] == s@[i as int]);
            assert(!is_digit(d[i - first]));
            return None;
        }
        let dv = (c as u64) - ('0' as u64);
        let next = value * 10 + dv;
        proof {
            let p = s@.subrange(first as int, i + 1);
            assert(p.drop_last() =~= s@.subrange(first as int, i as int));
            assert(p.last() == c);
        }
        if next > 0xffff_ffffu64 {
            proof {
                assert forall|j: int| 0 <= j < (i + 1 - first) implies is_digit(#[trigger] s@.subrange(first as int, i + 1)[j]) by {
                    assert(s@.subrange(first as int, i + 1)[j] == s@[first + j]);
                }
                if all_digits(d) {
                    lemma_digits_value_bound(d);
                    assert(d.subrange(0, i + 1 - first) =~= s@.subrange(first as int, i + 1));
                    assert(digits_value(d) > u32::MAX);
                }
            }
            return None;
        }
        value = next;
        i = i + 1;
    }
    assert(s@.subrange(first as int, i as int) =~= d);
    Some(value as u32)
}

/// `beats_per_bar/beat_unit`
#[derive(Clone, Copy, Debug, PartialEq, Eq, Structural)]
pub struct TimeSignature {
    pub beats_per_bar: u32,
    pub beat_unit: u32,
}

impl Default for TimeSignature {
    fn default() -> (r: Self)
        ensures
            r == (TimeSignature { beats_per_bar: 4, beat_unit: 4 }),
    {
        TimeSignature { beats_per_bar: 4, beat_unit: 4 }
    }
}

impl TimeSignature {
    /// Parses `beats_per_bar/beat_unit`, such as `4/4` or `7/8`.
    pub fn try_from(value: &str) -> (r: Result<TimeSignature, String>)
        ensures
            r is Ok <==> spec_time_signature(value@) is Some,
            r matches Ok(ts) ==> spec_time_signature(value@) == Some(ts),
            r matches Err(e) ==> e@ == time_signature_error(value@),
    {
        let chars = chars_of(value);
        let n = chars.len();
        let mut i: usize = 0;
        while i < n && chars[i] != '/'
            invariant
                i <= n,
                n == chars@.len(),
                chars@ == value@,
                forall|j: int| 0 <= j < i ==> chars@[j] != '/',
            decreases n - i,
        {
            i = i + 1;
        }
        if i == n {
            proof {
                if exists|k: int| is_first_slash(value@, k) {
                    let k = choose|k: int| is_first_slash(value@, k);
                    assert(chars@[k] == '/');
                }
            }
            return Err(parse_error(value));
        }
        proof {
            assert(is_first_slash(value@, i as int));
            let k = choose|k: int| is_first_slash(value@, k);
            assert(k == i) by {
                if k < i {
                    assert(chars@[k] != '/');
                } else if k > i {
                    assert(value@[i as int] != '/');
                }
            }
        }
        let bpb = parse_u32(chars.as_slice(), 0, i);
        let bu = parse_u32(chars.as_slice(), i + 1, n);
        match (bpb, bu) {
            (Some(bpb), Some(bu)) => Ok(TimeSignature { beats_per_bar: bpb, beat_unit: bu }),
            _ => Err(parse_error(value)),
        }
    }

    /// The text `beats_per_bar/beat_unit`.
    pub fn to_string(&self) -> (s: String)
        ensures
            s@ == spec_time_signature_text(*self),
    {
        let mut s = String::new();
        push_decimal(&mut s, self.beats_per_bar as u64);
        s.append("/");
        push_decimal(&mut s, self.beat_unit as u64);
        s
    }
}

/// The text of a time signature: its two numbers separated by `/`.
pub open spec fn spec_time_signature_text(ts: TimeSignature) -> Seq<char> {
    decimal(ts.beats_per_bar as nat) + "/"@ + decimal(ts.beat_unit as nat)
}

fn parse_error(value: &str) -> (e: String)
    ensures
        e@ == time_signature_error(value@),
{
    let mut e = String::from_str("[tsic] error parsing ");
    e.append(value);
    e.append(" to TimeSignature");
    e
}

/// A part of a project with one tempo and one time signature.
#[derive(Debug)]
pub struct Section {
    pub bpm: u32,
    pub time_signature: TimeSignature,
    pub measures: Option<u32>,
    pub name: Option<String>,
}

/// A copy of an optional name.
pub fn clone_name(name: &Option<String>) -> (r: Option<String>)
    ensures
        r == *name,
{
    match name {
        Some(n) => Some(n.clone()),
        None => None,
    }
}

impl Clone for Section {
    fn clone(&self) -> (r: Self)
        ensures
            r == *self,
    {
        Section {
            bpm: self.bpm,
            time_signature: self.time_signature,
            measures: self.measures,
            name: clone_name(&self.name),
        }
    }
}

/// The number of measures that a section plays: its own, or the profile's
/// fallback where it has none.
pub open spec fn measures_or(s: Section, fallback: u32) -> u32 {
    match s.measures {
        Some(m) => m,
        None => fallback,
    }
}

/// The beat event of beat `beat` of measure `measure` of a section.
pub open spec fn spec_beat_event(
    s: Section,
    section_index: usize,
    num_sections: usize,
    num_measures: u32,
    measure: u32,
    beat: u32,
) -> BeatEvent {
    BeatEvent {
        section_name: s.name,
        beat,
        beats_per_bar: s.time_signature.beats_per_bar,
        measure,
        num_measures,
        section_index,
        num_sections,
        bpm: s.bpm,
        time_sig: s.time_signature,
    }
}

/// `events` are the beats of section `s`, the `section_index`-th of
/// `num_sections`, in playing order: bar by bar, beat by beat.
pub open spec fn are_section_events(
    s: Section,
    section_index: usize,
    num_sections: usize,
    fallback: u32,
    events: Seq<BeatEvent>,
) -> bool {
    let nm = measures_or(s, fallback);
    let bpb = s.time_signature.beats_per_bar;
    &&& events.len() == nm as int * bpb as int
    &&& forall|m: int, b: int|
        0 <= m < nm && 0 <= b < bpb
        ==> #[trigger] events[m * bpb as int + b]
            == spec_beat_event(s, section_index, num_sections, nm, m as u32, b as u32)
}

impl Section {
    pub fn bpm(&mut self, bpm: u32)
        ensures
            *final(self) == (Section { bpm, ..*old(self) }),
    {
        self.bpm = bpm;
    }

    /// Sets the time signature from its text; where the text does not parse,
    /// the section stays as it was.
    pub fn time_signature_str(&mut self, time_sig: &str) -> (r: Result<(), String>)
        ensures
            r is Ok <==> spec_time_signature(time_sig@) is Some,
            r is Ok ==> *final(self) == (Section {
                time_signature: spec_time_signature(time_sig@)->0,
                ..*old(self)
            }),
            r matches Err(e) ==> e@ == time_signature_error(time_sig@) && *final(self) == *old(self),
    {
        let ts = TimeSignature::try_from(time_sig)?;
        self.time_signature = ts;
        Ok(())
    }

    pub fn measures(&mut self, measures: Option<u32>)
        ensures
            *final(self) == (Section { measures, ..*old(self) }),
    {
        self.measures = measures;
    }

    pub fn name(&mut self, name: String)
        ensures
            *final(self) == (Section { name: Some(name), ..*old(self) }),
    {
        self.name = Some(name);
    }

    /// The beats of this section in playing order, bar by bar: `num_measures`
    /// bars (the profile's fallback where the section has none) of
    /// `beats_per_bar` beats each.
    pub fn get_beat_events_with_measures(
        &self,
        section_id: usize,
        num_sections: usize,
        profile: &Config,
    ) -> (events: Vec<BeatEvent>)
        ensures
            are_section_events(*self, section_id, num_sections, profile.num_meassures_fallback, events@),
    {
        let mut events: Vec<BeatEvent> = Vec::new();
        let num_measures = match self.measures {
            Some(m) => m,
            None => profile.num_meassures_fallback,
        };
        let bpb = self.time_signature.beats_per_bar;
        let mut measure: u32 = 0;
        while measure < num_measures
            invariant
                measure <= num_measures,
                num_measures == measures_or(*self, profile.num_meassures_fallback),
                bpb == self.time_signature.beats_per_bar,
                events@.len() == measure as int * bpb as int,
                forall|m: int, b: int|
                    0 <= m < measure && 0 <= b < bpb
                    ==> #[trigger] events@[m * bpb as int + b]
                        == spec_beat_event(*self, section_id, num_sections, num_measures, m as u32, b as u32),
            decreases num_measures - measure,
        {
            let mut beat: u32 = 0;
            while beat < bpb
                invariant
                    measure < num_measures,
                    beat <= bpb,
                    num_measures == measures_or(*self, profile.num_meassures_fallback),
                    bpb == self.time_signature.beats_per_bar,
                    events@.len() == measure as int * bpb as int + beat as int,
                    forall|m: int, b: int|
                        0 <= m < measure && 0 <= b < bpb
                        ==> #[trigger] events@[m * bpb as int + b]
                            == spec_beat_event(*self, section_id, num_sections, num_measures, m as u32, b as u32),
                    forall|b: int|
                        0 <= b < beat
                        ==> #[trigger] events@[measure as int * bpb as int + b]
                            == spec_beat_event(*self, section_id, num_sections, num_measures, measure, b as u32),
                decreases bpb - beat,
            {
                let ev = BeatEvent {
                    section_name: clone_name(&self.name),
                    beat,
                    beats_per_bar: bpb,
                    measure,
                    num_measures,
                    section_index: section_id,
                    num_sections,
                    bpm: self.bpm,
                    time_sig: self.time_signature,
                };
                let ghost before = events@;
                events.push(ev);
                proof {
                    assert forall|m: int, b: int|
                        0 <= m < measure && 0 <= b < bpb
                        implies #[trigger] events@[m * bpb as int + b]
                            == spec_beat_event(*self, section_id, num_sections, num_measures, m as u32, b as u32) by {
                        lemma_row_index_bound(m, b, measure as int, bpb as int);
                        assert(events@[m * bpb as int + b] == before[m * bpb as int + b]);
                    }
                }
                beat = beat + 1;
            }
            proof {
                assert((measure as int + 1) * bpb as int == measure as int * bpb as int + bpb as int)
                    by (nonlinear_arith);
                assert forall|m: int, b: int|
                    0 <= m < measure + 1 && 0 <= b < bpb
                    implies #[trigger] events@[m * bpb as int + b]
                        == spec_beat_event(*self, section_id, num_sections, num_measures, m as u32, b as u32) by {
                    if m == measure {
                        assert(events@[measure as int * bpb as int + b]
                            == spec_beat_event(*self, section_id, num_sections, num_measures, measure, b as u32));
                    }
                }
            }
            measure = measure + 1;
        }
        events
    }
}

/// Rows of width `width` that come before row `rows` end before it.
proof fn lemma_row_index_bound(m: int, b: int, rows: int, width: int)
    requires
        0 <= m < rows,
        0 <= b < width,
    ensures
        m * width + b < rows * width,
        0 <= m * width + b,
{
    assert(m * width + b < rows * width) by (nonlinear_arith)
        requires 0 <= m < rows, 0 <= b < width;
    assert(0 <= m * width) by (nonlinear_arith)
        requires 0 <= m, 0 <= width;
}

/// The decimal notation of a number is a run of digits without a `/`, whose
/// value is the number.
proof fn lemma_decimal_digits(n: nat)
    ensures
        decimal(n).len() > 0,
        all_digits(decimal(n)),
        digits_value(decimal(n)) == n,
        forall|i: int| 0 <= i < decimal(n).len() ==> #[trigger] decimal(n)[i] != '/',
    decreases n,
{
    let c = digit_char(n % 10);
    assert((c as nat) - ('0' as nat) == n % 10);
    if n < 10 {
        let d = decimal(n);
        assert(d.drop_last() =~= Seq::<char>::empty());
        assert(digits_value(d.drop_last()) == 0);
        assert(d.last() == c);
        assert(digits_value(d) == digits_value(d.drop_last()) * 10 + ((d.last() as nat) - ('0' as nat)) as nat);
        assert(n % 10 == n);
    }
    if n >= 10 {
        lemma_decimal_digits(n / 10);
        let d = decimal(n);
        assert(d.drop_last() =~= decimal(n / 10));
        assert(d.last() == c);
        assert(digits_value(d) == digits_value(d.drop_last()) * 10 + ((d.last() as nat) - ('0' as nat)) as nat);
        assert(digits_value(d.drop_last()) == n / 10);
        assert(n == (n / 10) * 10 + n % 10);
        assert forall|i: int| 0 <= i < d.len() implies is_digit(#[trigger] d[i]) && d[i] != '/' by {
            if i < d.len() - 1 {
                assert(d[i] == decimal(n / 10)[i]);
            }
        }
    }
}

/// Parsing a decimal notation gives back the number.
proof fn lemma_parse_decimal(n: u32)
    ensures
        spec_parse_u32(decimal(n as nat)) == Some(n),
{
    lemma_decimal_digits(n as nat);
    let d = decimal(n as nat);
    assert(is_digit(d[0]));
    assert(unsigned_part(d) == d);
}

/// The text of a time signature parses back to it.
pub proof fn law_time_signature_text_round_trip(ts: TimeSignature)
    ensures
        spec_time_signature(spec_time_signature_text(ts)) == Some(ts),
{
    let a = decimal(ts.beats_per_bar as nat);
    let b = decimal(ts.beat_unit as nat);
    lemma_decimal_digits(ts.beats_per_bar as nat);
    lemma_decimal_digits(ts.beat_unit as nat);
    lemma_parse_decimal(ts.beats_per_bar);
    lemma_parse_decimal(ts.beat_unit);
    reveal_strlit("/");
    let s = spec_time_signature_text(ts);
    let i = a.len() as int;
    assert(s =~= a + seq!['/'] + b);
    assert(s[i] == '/');
    assert forall|j: int| 0 <= j < i implies s[j] != '/' by {
        assert(s[j] == a[j]);
    }
    assert(is_first_slash(s, i));
    let k = choose|k: int| is_first_slash(s, k);
    assert(k == i) by {
        if k < i {
            assert(s[k] == a[k]);
        } else if k > i {
            assert(s[i] != '/');
        }
    }
    assert(s.subrange(0, i) =~= a);
    assert(s.subrange(i + 1, s.len() as int) =~= b);
}

} // verus!

//! What playback does on each key and on each finished section.
use vstd::prelude::*;

verus! {

pub const KEY_TOGGLE_PAUSE: char = ' ';
pub const KEY_QUIT: char = 'q';
pub const KEY_NEXT: char = 'n';
pub const KEY_PREVIOUS: char = 'p';
pub const KEY_SECTION_START: char = 's';
pub const KEY_TRACK_START: char = 'b';

/// What the player has to do after a key or a finished section.
#[derive(Clone, Copy, Debug, PartialEq, Eq, Structural)]
pub enum PlayAction {
    /// Nothing changes.
    Nothing,
    /// Pause the sound.
    Pause,
    /// Resume the sound.
    Resume,
    /// Stop what plays and play the given section from its start.
    Restart(usize),
    /// Queue the given section after the one that ends.
    Append(usize),
    /// Stop and leave.
    Quit,
}

/// Where playback stands: the section that plays, the next beat to show in
/// it, whether the sound is paused, and the clock readings (nanoseconds) from
/// which the played time of the section is measured.
#[derive(Clone, Copy, Debug, PartialEq, Eq, Structural)]
pub struct PlaybackState {
    pub current: usize,
    pub event_idx: usize,
    pub paused: bool,
    pub num_sections: usize,
    /// The latest clock reading.
    pub clock: u64,
    /// When the current section started.
    pub section_start: u64,
    /// The paused time of the current section in pauses that have ended.
    pub paused_total: u64,
    /// When the pause that goes on started.
    pub pause_start: Option<u64>,
}

/// The state is one of a project with sections, at one of them, with clock
/// readings in order.
pub open spec fn playback_wf(s: PlaybackState) -> bool {
    &&& 0 < s.num_sections
    &&& s.current < s.num_sections
    &&& s.section_start <= s.clock
    &&& (s.paused <==> s.pause_start is Some)
    &&& match s.pause_start {
        Some(p) => s.section_start <= p <= s.clock && s.section_start + s.paused_total <= p,
        None => s.section_start + s.paused_total <= s.clock,
    }
}

/// A clock reading taken at `now`: the clock never goes back.
pub open spec fn reading(s: PlaybackState, now: u64) -> u64 {
    if now > s.clock { now } else { s.clock }
}

/// The time, in nanoseconds, that the current section has played by `now`:
/// the time since it started, less every pause.
pub open spec fn spec_elapsed(s: PlaybackState, now: u64) -> int {
    let until = match s.pause_start {
        Some(p) => p,
        None => reading(s, now),
    };
    until - s.section_start - s.paused_total
}

/// The state after starting section `section` from its beginning at `t`; a
/// pause goes on from there.
pub open spec fn restarted(s: PlaybackState, section: usize, t: u64) -> PlaybackState {
    PlaybackState {
        current: section,
        event_idx: 0,
        clock: t,
        section_start: t,
        paused_total: 0,
        pause_start: if s.paused { Some(t) } else { None },
        ..s
    }
}

/// What a key pressed at `now` does: SPACE toggles pause, `q` quits, `n` goes
/// to the next section where there is one, `p` to the previous one (or the
/// first), `s` to the start of the current section and `b` to the start of the
/// track. Any other key does nothing.
pub open spec fn spec_on_key(s: PlaybackState, key: char, now: u64) -> (PlaybackState, PlayAction) {
    let t = reading(s, now);
    let s1 = PlaybackState { clock: t, ..s };
    if key == KEY_TOGGLE_PAUSE {
        if s.paused {
            (PlaybackState {
                paused: false,
                paused_total: (s.paused_total + (t - s.pause_start->0)) as u64,
                pause_start: None,
                ..s1
            }, PlayAction::Resume)
        } else {
            (PlaybackState { paused: true, pause_start: Some(t), ..s1 }, PlayAction::Pause)
        }
    } else if key == KEY_NEXT && s.current + 1 < s.num_sections {
        (restarted(s, (s.current + 1) as usize, t), PlayAction::Restart((s.current + 1) as usize))
    } else if key == KEY_PREVIOUS {
        let c = if s.current > 0 { (s.current - 1) as usize } else { 0usize };
        (restarted(s, c, t), PlayAction::Restart(c))
    } else if key == KEY_SECTION_START {
        (restarted(s, s.current, t), PlayAction::Restart(s.current))
    } else if key == KEY_TRACK_START {
        (restarted(s, 0, t), PlayAction::Restart(0))
    } else if key == KEY_QUIT {
        (s1, PlayAction::Quit)
    } else {
        (s1, PlayAction::Nothing)
    }
}

/// What the end of the playing section at `now` does: the next section, where
/// there is one, is queued and becomes the current one.
pub open spec fn spec_on_section_done(s: PlaybackState, now: u64) -> (PlaybackState, PlayAction) {
    let t = reading(s, now);
    if s.current + 1 < s.num_sections {
        (restarted(s, (s.current + 1) as usize, t), PlayAction::Append((s.current + 1) as usize))
    } else {
        (PlaybackState { clock: t, ..s }, PlayAction::Nothing)
    }
}

impl PlaybackState {
    /// Playback of a project of `num_sections` sections, paused at the start
    /// of the first one, with the clock at `now`.
    pub fn new(num_sections: usize, now: u64) -> (s: Self)
        requires
            num_sections > 0,
        ensures
            s == (PlaybackState {
                current: 0,
                event_idx: 0,
                paused: true,
                num_sections,
                clock: now,
                section_start: now,
                paused_total: 0,
                pause_start: Some(now),
            }),
            playback_wf(s),
    {
        PlaybackState {
            current: 0,
            event_idx: 0,
            paused: true,
            num_sections,
            clock: now,
            section_start: now,
            paused_total: 0,
            pause_start: Some(now),
        }
    }

    fn read_clock(&self, now: u64) -> (t: u64)
        ensures
            t == reading(*self, now),
    {
        if now > self.clock { now } else { self.clock }
    }

    fn restart(&mut self, section: usize, t: u64)
        ensures
            *final(self) == restarted(*old(self), section, t),
    {
        self.current = section;
        self.event_idx = 0;
        self.clock = t;
        self.section_start = t;
        self.paused_total = 0;
        self.pause_start = if self.paused { Some(t) } else { None };
    }

    /// Handles a key pressed at `now`.
    pub fn on_key(&mut self, key: char, now: u64) -> (action: PlayAction)
        requires
            playback_wf(*old(self)),
        ensures
            (*final(self), action) == spec_on_key(*old(self), key, now),
            playback_wf(*final(self)),
    {
        let t = self.read_clock(now);
        if key == KEY_TOGGLE_PAUSE {
            self.clock = t;
            match self.pause_start {
                Some(p) => {
                    self.paused_total = self.paused_total + (t - p);
                    self.pause_start = None;
                    self.paused = false;
                    PlayAction::Resume
                },
                None => {
                    self.pause_start = Some(t);
                    self.paused = true;
                    PlayAction::Pause
                },
            }
        } else if key == KEY_NEXT && self.current + 1 < self.num_sections {
            let next = self.current + 1;
            self.restart(next, t);
            PlayAction::Restart(next)
        } else if key == KEY_PREVIOUS {
            let previous = self.current.saturating_sub(1);
            self.restart(previous, t);
            PlayAction::Restart(previous)
        } else if key == KEY_SECTION_START {
            let current = self.current;
            self.restart(current, t);
            PlayAction::Restart(current)
        } else if key == KEY_TRACK_START {
            self.restart(0, t);
            PlayAction::Restart(0)
        } else if key == KEY_QUIT {
            self.clock = t;
            PlayAction::Quit
        } else {
            self.clock = t;
            PlayAction::Nothing
        }
    }

    /// Handles the end, at `now`, of the section that played.
    pub fn on_section_done(&mut self, now: u64) -> (action: PlayAction)
        requires
            playback_wf(*old(self)),
        ensures
            (*final(self), action) == spec_on_section_done(*old(self), now),
            playback_wf(*final(self)),
    {
        let t = self.read_clock(now);
        if self.current + 1 < self.num_sections {
            let next = self.current + 1;
            self.restart(next, t);
            PlayAction::Append(next)
        } else {
            self.clock = t;
            PlayAction::Nothing
        }
    }

    /// The time, in nanoseconds, that the current section has played by `now`.
    pub fn elapsed(&self, now: u64) -> (r: u64)
        requires
            playback_wf(*self),
        ensures
            r == spec_elapsed(*self, now),
    {
        let until = match self.pause_start {
            Some(p) => p,
            None => self.read_clock(now),
        };
        until - self.section_start - self.paused_total
    }

    /// Whether a beat due `due` nanoseconds into the section has come by `now`.
    pub fn beat_due(&self, due: u64, now: u64) -> (r: bool)
        requires
            playback_wf(*self),
        ensures
            r == (spec_elapsed(*self, now) >= due),
    {
        self.elapsed(now) >= due
    }

    /// The beat to show next, if the sound plays and the current section,
    /// which has `num_events` beats to show, has one left.
    pub fn pending_beat(&self, num_events: usize) -> (r: Option<usize>)
        ensures
            r == (if !self.paused && self.event_idx < num_events { Some(self.event_idx) } else { None }),
    {
        if !self.paused && self.event_idx < num_events {
            Some(self.event_idx)
        } else {
            None
        }
    }

    /// Moves on to the next beat after one was shown.
    pub fn beat_shown(&mut self)
        requires
            old(self).event_idx < usize::MAX,
        ensures
            *final(self) == (PlaybackState { event_idx: (old(self).event_idx + 1) as usize, ..*old(self) }),
    {
        self.event_idx = self.event_idx + 1;
    }

    /// Playback is over once the player has nothing left and the last section
    /// is the current one.
    pub fn is_finished(&self, player_empty: bool) -> (r: bool)
        requires
            playback_wf(*self),
        ensures
            r == (player_empty && self.current == self.num_sections - 1),
    {
        player_empty && self.current == self.num_sections - 1
    }
}

/// What a key does to the metronome: SPACE toggles pause, `q` quits.
pub open spec fn spec_metronome_key(paused: bool, key: char) -> PlayAction {
    if key == KEY_TOGGLE_PAUSE {
        if paused { PlayAction::Resume } else { PlayAction::Pause }
    } else if key == KEY_QUIT {
        PlayAction::Quit
    } else {
        PlayAction::Nothing
    }
}

/// Handles a key while the metronome plays.
pub fn metronome_key(paused: bool, key: char) -> (action: PlayAction)
    ensures
        action == spec_metronome_key(paused, key),
{
    if key == KEY_TOGGLE_PAUSE {
        if paused { PlayAction::Resume } else { PlayAction::Pause }
    } else if key == KEY_QUIT {
        PlayAction::Quit
    } else {
        PlayAction::Nothing
    }
}

/// Pressing SPACE twice at the same moment leaves the section, its beat and
/// its played time as they were.
pub proof fn law_pause_toggle_twice(s: PlaybackState, now: u64)
    requires
        playback_wf(s),
    ensures
        ({
            let s2 = spec_on_key(spec_on_key(s, KEY_TOGGLE_PAUSE, now).0, KEY_TOGGLE_PAUSE, now).0;
            &&& s2.paused == s.paused
            &&& s2.current == s.current
            &&& s2.event_idx == s.event_idx
            &&& forall|later: u64| later >= reading(s, now)
                ==> #[trigger] spec_elapsed(s2, later) == spec_elapsed(s, later)
        }),
{
}

/// Paused time never counts: while paused, the played time of the section
/// stays where it was, whenever it is read.
pub proof fn law_paused_time_does_not_count(s: PlaybackState, t1: u64, t2: u64)
    requires
        playback_wf(s),
        s.paused,
    ensures
        spec_elapsed(s, t1) == spec_elapsed(s, t2),
{
}

/// While the sound plays, the played time grows with the clock.
pub proof fn law_playing_time_counts(s: PlaybackState, t1: u64, t2: u64)
    requires
        playback_wf(s),
        !s.paused,
        s.clock <= t1 <= t2,
    ensures
        spec_elapsed(s, t2) - spec_elapsed(s, t1) == t2 - t1,
{
}

/// A pause from `t1` to `t2` takes exactly its length out of the played time:
/// at `t3` after resuming, the section has played what it had played at `t1`
/// plus the time since `t2`.
pub proof fn law_pause_takes_out_its_length(s: PlaybackState, t1: u64, t2: u64, t3: u64)
    requires
        playback_wf(s),
        !s.paused,
        s.clock <= t1 <= t2 <= t3,
    ensures
        ({
            let paused = spec_on_key(s, KEY_TOGGLE_PAUSE, t1).0;
            let resumed = spec_on_key(paused, KEY_TOGGLE_PAUSE, t2).0;
            &&& paused.paused
            &&& !resumed.paused
            &&& spec_elapsed(resumed, t3) == spec_elapsed(s, t1) + (t3 - t2)
        }),
{
}

/// A section started again has played nothing yet, and a pause that goes on
/// keeps it that way.
pub proof fn law_restart_starts_at_zero(s: PlaybackState, section: usize, t: u64, later: u64)
    requires
        playback_wf(s),
        s.clock <= t <= later,
    ensures
        spec_elapsed(restarted(s, section, t), t) == 0,
        s.paused ==> spec_elapsed(restarted(s, section, t), later) == 0,
        !s.paused ==> spec_elapsed(restarted(s, section, t), later) == later - t,
{
}

/// Every key and every finished section keeps playback at one of the sections.
pub proof fn law_playback_stays_in_range(s: PlaybackState, key: char, now: u64)
    requires
        playback_wf(s),
    ensures
        playback_wf(spec_on_key(s, key, now).0),
        playback_wf(spec_on_section_done(s, now).0),
{
}

/// Going to the start of the track, from anywhere, plays the first section
/// from its first beat.
pub proof fn law_track_start(s: PlaybackState, now: u64)
    ensures
        spec_on_key(s, KEY_TRACK_START, now).0.current == 0,
        spec_on_key(s, KEY_TRACK_START, now).0.event_idx == 0,
        spec_on_key(s, KEY_TRACK_START, now).1 == PlayAction::Restart(0),
{
}

/// Going to the previous section from the first one restarts the first one.
pub proof fn law_previous_at_first(s: PlaybackState, now: u64)
    requires
        s.current == 0,
    ensures
        spec_on_key(s, KEY_PREVIOUS, now).0 == restarted(s, 0, reading(s, now)),
        spec_on_key(s, KEY_PREVIOUS, now).1 == PlayAction::Restart(0),
{
}

/// Going to the next section from the last one does nothing but read the clock.
pub proof fn law_next_at_last(s: PlaybackState, now: u64)
    requires
        playback_wf(s),
        s.current == s.num_sections - 1,
    ensures
        spec_on_key(s, KEY_NEXT, now) == (PlaybackState { clock: reading(s, now), ..s }, PlayAction::Nothing),
{
}

/// Every key that restarts a section starts it afresh: the answer
/// `Restart(c)` leaves playback at section `c`, on its first beat, with
/// nothing of it played yet, and the pause state as it was.
pub proof fn law_restart_is_fresh(s: PlaybackState, key: char, now: u64, c: usize)
    requires
        playback_wf(s),
        spec_on_key(s, key, now).1 == PlayAction::Restart(c),
    ensures
        ({
            let r = spec_on_key(s, key, now).0;
            &&& r.current == c
            &&& c < s.num_sections
            &&& r.event_idx == 0
            &&& r.paused == s.paused
            &&& r.section_start == r.clock
            &&& r.paused_total == 0
            &&& r.clock >= now
            &&& r.clock >= s.clock
            &&& forall|later: u64| #[trigger] spec_elapsed(r, later)
                == if s.paused { 0 } else if later > r.clock { later - r.clock } else { 0 }
        }),
{
}

/// Which section a restarting key goes to: `n` the next one, `p` the one
/// before (or the first), `s` the current one, `b` the first one; no other key
/// restarts.
pub proof fn law_restart_targets(s: PlaybackState, key: char, now: u64)
    requires
        playback_wf(s),
    ensures
        key == KEY_NEXT && s.current + 1 < s.num_sections
            ==> spec_on_key(s, key, now).1 == PlayAction::Restart((s.current + 1) as usize),
        key == KEY_PREVIOUS ==> spec_on_key(s, key, now).1 == PlayAction::Restart(
            if s.current > 0 { (s.current - 1) as usize } else { 0usize }),
        key == KEY_SECTION_START ==> spec_on_key(s, key, now).1 == PlayAction::Restart(s.current),
        key == KEY_TRACK_START ==> spec_on_key(s, key, now).1 == PlayAction::Restart(0),
        (spec_on_key(s, key, now).1 is Restart) ==> (key == KEY_NEXT || key == KEY_PREVIOUS
            || key == KEY_SECTION_START || key == KEY_TRACK_START),
        key != KEY_TOGGLE_PAUSE && !(spec_on_key(s, key, now).1 is Restart)
            ==> spec_on_key(s, key, now).0.current == s.current
                && spec_on_key(s, key, now).0.event_idx == s.event_idx,
{
}

/// The section that has ended hands over to the next one from its first beat.
pub proof fn law_section_done_is_fresh(s: PlaybackState, now: u64, c: usize)
    requires
        playback_wf(s),
        spec_on_section_done(s, now).1 == PlayAction::Append(c),
    ensures
        c == s.current + 1,
        spec_on_section_done(s, now).0.current == c,
        spec_on_section_done(s, now).0.event_idx == 0,
        spec_on_section_done(s, now).0.paused_total == 0,
{
}

} // verus!

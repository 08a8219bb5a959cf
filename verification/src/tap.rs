//! Tap-tempo bookkeeping: which taps the tempo is measured over.
use std::collections::VecDeque;
use vstd::prelude::*;

verus! {

/// The most taps that the tempo is averaged over.
pub const MAX_TAPS: usize = 12;

/// A pause longer than this, in nanoseconds, starts a new measurement.
pub const TAP_RESET_NANOS: u64 = 3_000_000_000;

/// The times of the taps that count, in nanoseconds, oldest first.
pub struct TapTempo {
    taps: VecDeque<u64>,
}

impl View for TapTempo {
    type V = Seq<u64>;

    closed spec fn view(&self) -> Seq<u64> {
        self.taps@
    }
}

/// The taps that count after a tap at `now`: a pause of more than three
/// seconds since the last tap starts afresh, and the oldest tap is dropped
/// once twelve are kept.
pub open spec fn spec_tap(taps: Seq<u64>, now: u64) -> Seq<u64> {
    let kept = if taps.len() > 0 && now - taps.last() > TAP_RESET_NANOS { Seq::empty() } else { taps };
    let room = if kept.len() == MAX_TAPS { kept.drop_first() } else { kept };
    room.push(now)
}

/// The time between tap `k` and tap `k + 1`, zero where the clock went back.
pub open spec fn tap_interval(taps: Seq<u64>, k: int) -> u64 {
    if taps[k + 1] >= taps[k] { (taps[k + 1] - taps[k]) as u64 } else { 0 }
}

impl TapTempo {
    /// No taps yet.
    pub fn new() -> (t: Self)
        ensures
            t@ == Seq::<u64>::empty(),
    {
        TapTempo { taps: VecDeque::with_capacity(MAX_TAPS) }
    }

    /// At most twelve taps are kept.
    pub open spec fn wf(&self) -> bool {
        self@.len() <= MAX_TAPS
    }

    /// Records a tap at `now` nanoseconds.
    pub fn tap(&mut self, now: u64)
        ensures
            old(self).wf() ==> final(self).wf(),
            final(self)@ == spec_tap(old(self)@, now),
    {
        let n = self.taps.len();
        if n > 0 && now >= self.taps[n - 1] && now - self.taps[n - 1] > TAP_RESET_NANOS {
            self.taps.clear();
        }
        if self.taps.len() == MAX_TAPS {
            self.taps.pop_front();
        }
        self.taps.push_back(now);
        assert(self.taps@ =~= spec_tap(old(self)@, now));
    }

    /// The number of taps that count.
    pub fn count(&self) -> (n: usize)
        ensures
            n == self@.len(),
    {
        self.taps.len()
    }

    /// The times between consecutive taps, oldest first.
    pub fn intervals(&self) -> (v: Vec<u64>)
        ensures
            v@.len() == (if self@.len() > 0 { self@.len() - 1 } else { 0 }),
            forall|k: int| 0 <= k < v@.len() ==> #[trigger] v@[k] == tap_interval(self@, k),
            v@ == all_intervals(self@),
    {
        let mut v: Vec<u64> = Vec::new();
        let n = self.taps.len();
        let mut k: usize = 1;
        while k < n
            invariant
                1 <= k,
                n == self.taps@.len(),
                (n == 0 && k == 1) || k <= n,
                v@.len() == k - 1,
                forall|j: int| 0 <= j < v@.len() ==> #[trigger] v@[j] == tap_interval(self@, j),
            decreases n - k,
        {
            let a = self.taps[k - 1];
            let b = self.taps[k];
            v.push(b.saturating_sub(a));
            k = k + 1;
        }
        assert(v@ =~= all_intervals(self@));
        v
    }
}

/// After a tap, the taps that count are the latest ones of those before and
/// the new one, in order: at most twelve, ending with the new tap.
pub proof fn law_tap_keeps_latest(taps: Seq<u64>, now: u64)
    requires
        taps.len() <= MAX_TAPS,
    ensures
        ({
            let after = spec_tap(taps, now);
            let all = taps.push(now);
            &&& 1 <= after.len() <= MAX_TAPS
            &&& after.last() == now
            &&& after =~= all.subrange(all.len() - after.len(), all.len() as int)
        }),
{
}

/// A pause of more than three seconds leaves the new tap alone.
pub proof fn law_tap_after_pause(taps: Seq<u64>, now: u64)
    requires
        taps.len() > 0,
        now - taps.last() > TAP_RESET_NANOS,
    ensures
        spec_tap(taps, now) == seq![now],
{
    assert(spec_tap(taps, now) =~= seq![now]);
}

/// The sum of a sequence of times.
pub open spec fn time_sum(v: Seq<u64>) -> int
    decreases v.len(),
{
    if v.len() == 0 { 0 } else { time_sum(v.drop_last()) + v.last() }
}

/// The taps come in clock order.
pub open spec fn in_clock_order(taps: Seq<u64>) -> bool {
    forall|a: int, b: int| 0 <= a <= b < taps.len() ==> taps[a] <= taps[b]
}

/// The intervals of `taps`, as `intervals` returns them.
pub open spec fn all_intervals(taps: Seq<u64>) -> Seq<u64> {
    Seq::new((if taps.len() > 0 { taps.len() - 1 } else { 0 }) as nat, |k: int| tap_interval(taps, k))
}

/// Interval `k` is the time from tap `k` to tap `k + 1`, or zero where the
/// clock went back between them.
pub proof fn law_interval_is_the_gap(taps: Seq<u64>, k: int)
    requires
        0 <= k,
        k + 1 < taps.len(),
    ensures
        taps[k] <= taps[k + 1] ==> tap_interval(taps, k) + taps[k] == taps[k + 1],
        taps[k] > taps[k + 1] ==> tap_interval(taps, k) == 0,
{
}

/// The intervals of taps in clock order add up to the time from the first tap
/// to the last, so their average is that time over their number.
pub proof fn law_intervals_add_up(taps: Seq<u64>)
    requires
        taps.len() > 0,
        in_clock_order(taps),
    ensures
        time_sum(all_intervals(taps)) == taps.last() - taps[0],
    decreases taps.len(),
{
    if taps.len() > 1 {
        let p = taps.drop_last();
        law_intervals_add_up(p);
        assert(all_intervals(taps).drop_last() =~= all_intervals(p));
        assert(taps[taps.len() - 2] <= taps[taps.len() - 1]);
    } else {
        assert(all_intervals(taps) =~= Seq::<u64>::empty());
    }
}

/// Taps made at clock readings that never go back stay in clock order.
pub proof fn law_taps_stay_in_order(taps: Seq<u64>, now: u64)
    requires
        in_clock_order(taps),
        taps.len() > 0 ==> taps.last() <= now,
    ensures
        in_clock_order(spec_tap(taps, now)),
{
    let kept = if taps.len() > 0 && now - taps.last() > TAP_RESET_NANOS { Seq::<u64>::empty() } else { taps };
    let room = if kept.len() == MAX_TAPS { kept.drop_first() } else { kept };
    assert(spec_tap(taps, now) == room.push(now));
    assert forall|a: int, b: int| 0 <= a <= b < room.len() implies room[a] <= room[b] by {
        if kept.len() == MAX_TAPS {
            assert(room[a] == kept[a + 1] && room[b] == kept[b + 1]);
        }
    }
    assert forall|a: int| 0 <= a < room.len() implies room[a] <= now by {
        if kept.len() == MAX_TAPS {
            assert(room[a] == kept[a + 1]);
            assert(kept[a + 1] <= kept[kept.len() - 1]);
        } else {
            assert(kept[a] <= kept[kept.len() - 1]);
        }
    }
}

} // verus!

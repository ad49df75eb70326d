use std::time::Duration;

use vstd::prelude::*;

use crate::clock::{duration_millis, millis_of};
use crate::scripting::TimelineEvent;

verus! {

broadcast use vstd::seq_lib::group_seq_properties;

/// Events in non-decreasing order of their timestamps.
pub open spec fn sorted_by_time(s: Seq<TimelineEvent>) -> bool {
    forall|i: int, j: int| 0 <= i <= j < s.len() ==> s[i].timestamp_ms <= s[j].timestamp_ms
}

/// The predicate "the event is stamped `t`".
pub open spec fn stamped(t: u64) -> spec_fn(TimelineEvent) -> bool {
    |e: TimelineEvent| e.timestamp_ms == t
}

/// The events of `s` stamped `t`, in their order in `s`.
pub open spec fn events_at(s: Seq<TimelineEvent>, t: u64) -> Seq<TimelineEvent> {
    s.filter(stamped(t))
}

/// `r` is `s` stably sorted by timestamp: `r` is sorted, and for every
/// timestamp the events stamped with it appear in `r` in the same order as
/// in `s`. This determines `r` from `s`.
pub open spec fn is_stable_time_sort(r: Seq<TimelineEvent>, s: Seq<TimelineEvent>) -> bool {
    &&& sorted_by_time(r)
    &&& forall|t: u64| #[trigger] events_at(r, t) == events_at(s, t)
}

/// A tick delta in whole milliseconds, saturated at `u64::MAX`.
pub open spec fn clamped_millis(d: Duration) -> nat {
    if duration_millis(d) > u64::MAX {
        u64::MAX as nat
    } else {
        duration_millis(d)
    }
}

/// `k` is where dispatch stops when it starts at `from` at time `now`:
/// every event in `[from, k)` is due (stamped at or before `now`) and the
/// event at `k`, if any, is not.
pub open spec fn dispatch_stops_at(s: Seq<TimelineEvent>, from: int, now: int, k: int) -> bool {
    &&& from <= k <= s.len()
    &&& forall|j: int| from <= j < k ==> #[trigger] s[j].timestamp_ms <= now
    &&& k < s.len() ==> s[k].timestamp_ms > now
}

/// How one tick by `delta` changes a timeline: a finished timeline stays
/// as it is; otherwise the clock advances by the delta's whole milliseconds
/// and the cursor moves past every event that has come due, and the
/// timeline is finished exactly when the cursor has reached the end.
pub open spec fn ticked(before: Timeline, after: Timeline, delta: Duration) -> bool {
    &&& after.wf()
    &&& after.spec_events() == before.spec_events()
    &&& if before.spec_finished() {
        &&& after.spec_cursor() == before.spec_cursor()
        &&& after.spec_elapsed_ms() == before.spec_elapsed_ms()
        &&& after.spec_finished()
    } else {
        &&& after.spec_elapsed_ms() == before.spec_elapsed_ms() + clamped_millis(delta)
        &&& dispatch_stops_at(
            before.spec_events(),
            before.spec_cursor(),
            after.spec_elapsed_ms(),
            after.spec_cursor(),
        )
        &&& after.spec_finished() == (after.spec_cursor() == after.spec_events().len())
    }
}

/// The events a tick from `before` to `after` dispatches, in order.
pub open spec fn dispatched(before: Timeline, after: Timeline) -> Seq<TimelineEvent> {
    before.spec_events().subrange(before.spec_cursor(), after.spec_cursor())
}

/// Timeline scheduler: dispatches the events of a generated script in
/// millisecond order.
pub struct Timeline {
    /// Kept sorted by `timestamp_ms`.
    events: Vec<TimelineEvent>,
    /// Index of the next event to dispatch.
    cursor: usize,
    /// Milliseconds elapsed since the script started.
    elapsed_ms: u64,
    /// All events have been dispatched.
    pub finished: bool,
}

impl Timeline {
    /// The scheduled events, in dispatch order.
    pub closed spec fn spec_events(&self) -> Seq<TimelineEvent> {
        self.events@
    }

    /// How many events have been dispatched.
    pub closed spec fn spec_cursor(&self) -> int {
        self.cursor as int
    }

    /// Milliseconds elapsed since the script started.
    pub closed spec fn spec_elapsed_ms(&self) -> int {
        self.elapsed_ms as int
    }

    /// Whether every event has been dispatched (the public `finished` flag).
    pub closed spec fn spec_finished(&self) -> bool {
        self.finished
    }

    /// The timeline's invariant: events sorted, cursor within them.
    pub open spec fn wf(&self) -> bool {
        &&& sorted_by_time(self.spec_events())
        &&& 0 <= self.spec_cursor() <= self.spec_events().len()
        &&& 0 <= self.spec_elapsed_ms() <= u64::MAX
    }

    /// An empty timeline, finished since it holds no script.
    pub fn new() -> (t: Self)
        ensures
            t.wf(),
            t.spec_events() == Seq::<TimelineEvent>::empty(),
            t.spec_cursor() == 0,
            t.spec_elapsed_ms() == 0,
            t.spec_finished(),
    {
        Timeline { events: Vec::new(), cursor: 0, elapsed_ms: 0, finished: true }
    }

    /// Loads a new script: its events stably sorted by timestamp, playback
    /// reset to the start; finished exactly when the script is empty.
    pub fn push_events(&mut self, events: Vec<TimelineEvent>)
        ensures
            final(self).wf(),
            is_stable_time_sort(final(self).spec_events(), events@),
            final(self).spec_events().len() == events@.len(),
            final(self).spec_cursor() == 0,
            final(self).spec_elapsed_ms() == 0,
            final(self).spec_finished() == (events@.len() == 0),
    {
        let n = events.len();
        let sorted = sort_by_time(events);
        self.events = sorted;
        self.cursor = 0;
        self.elapsed_ms = 0;
        self.finished = n == 0;
    }

    /// Advances the clock by `delta` (whole milliseconds, saturated at
    /// `u64::MAX`) and returns every event that has come due, in order.
    /// Once all events are dispatched, `finished` is set; a finished
    /// timeline returns nothing and does not move.
    pub fn tick(&mut self, delta: Duration) -> (due: Vec<&TimelineEvent>)
        requires
            old(self).wf(),
            !old(self).spec_finished() ==> old(self).spec_elapsed_ms() + clamped_millis(delta)
                <= u64::MAX,
        ensures
            ticked(*old(self), *final(self), delta),
            due@.len() == dispatched(*old(self), *final(self)).len(),
            forall|i: int|
                0 <= i < due@.len() ==> *#[trigger] due@[i] == dispatched(
                    *old(self),
                    *final(self),
                )[i],
    {
        if self.finished {
            return Vec::new();
        }
        let ms128 = millis_of(&delta);
        let ms: u64 = if ms128 > u64::MAX as u128 {
            u64::MAX
        } else {
            ms128 as u64
        };
        self.elapsed_ms = self.elapsed_ms + ms;
        let now = self.elapsed_ms;
        let start = self.cursor;
        let events = &self.events;
        let n = events.len();
        let mut cursor = start;
        let mut due: Vec<&TimelineEvent> = Vec::new();
        while cursor < n && events[cursor].timestamp_ms <= now
            invariant
                n == events@.len(),
                start <= cursor <= n,
                forall|j: int| start <= j < cursor ==> #[trigger] events@[j].timestamp_ms <= now,
                due@.len() == cursor - start,
                forall|i: int| 0 <= i < due@.len() ==> *#[trigger] due@[i] == events@[start + i],
            decreases n - cursor,
        {
            due.push(&events[cursor]);
            cursor = cursor + 1;
        }
        self.cursor = cursor;
        if cursor >= n {
            self.finished = true;
        }
        due
    }

    /// Whether `tick(delta)` may be called: a running timeline's clock must
    /// not pass `u64::MAX` milliseconds.
    pub fn can_tick(&self, delta: &Duration) -> (b: bool)
        ensures
            b == (!self.spec_finished() ==> self.spec_elapsed_ms() + clamped_millis(*delta)
                <= u64::MAX),
    {
        if self.finished {
            return true;
        }
        let ms128 = millis_of(delta);
        let ms: u64 = if ms128 > u64::MAX as u128 {
            u64::MAX
        } else {
            ms128 as u64
        };
        self.elapsed_ms.checked_add(ms).is_some()
    }

    /// Whether every event has been dispatched (reads `finished`).
    pub fn is_finished(&self) -> (b: bool)
        ensures
            b == self.spec_finished(),
    {
        self.finished
    }

    /// Whether no script is loaded.
    pub fn is_empty(&self) -> (b: bool)
        ensures
            b == (self.spec_events().len() == 0),
    {
        self.events.len() == 0
    }
}

impl Default for Timeline {
    fn default() -> (t: Self)
        ensures
            t.wf(),
            t.spec_events() == Seq::<TimelineEvent>::empty(),
            t.spec_cursor() == 0,
            t.spec_elapsed_ms() == 0,
            t.spec_finished(),
    {
        Self::new()
    }
}

/// Position at which `x` enters the sorted `s` so that it follows every
/// event stamped at or before it.
fn insertion_point(s: &Vec<TimelineEvent>, x: &TimelineEvent) -> (p: usize)
    requires
        sorted_by_time(s@),
    ensures
        p <= s@.len(),
        forall|j: int| 0 <= j < p ==> #[trigger] s@[j].timestamp_ms <= x.timestamp_ms,
        forall|j: int| p <= j < s@.len() ==> #[trigger] s@[j].timestamp_ms > x.timestamp_ms,
{
    let mut p = s.len();
    while p > 0 && s[p - 1].timestamp_ms > x.timestamp_ms
        invariant
            p <= s@.len(),
            sorted_by_time(s@),
            forall|j: int| p <= j < s@.len() ==> #[trigger] s@[j].timestamp_ms > x.timestamp_ms,
        decreases p,
    {
        p = p - 1;
    }
    p
}

proof fn lemma_insert_keeps_stable_sort(
    sorted: Seq<TimelineEvent>,
    consumed: Seq<TimelineEvent>,
    x: TimelineEvent,
    p: int,
)
    requires
        is_stable_time_sort(sorted, consumed),
        0 <= p <= sorted.len(),
        forall|j: int| 0 <= j < p ==> #[trigger] sorted[j].timestamp_ms <= x.timestamp_ms,
        forall|j: int| p <= j < sorted.len() ==> #[trigger] sorted[j].timestamp_ms > x.timestamp_ms,
    ensures
        is_stable_time_sort(sorted.insert(p, x), consumed.push(x)),
{
    let a = sorted.subrange(0, p);
    let b = sorted.subrange(p, sorted.len() as int);
    let r = sorted.insert(p, x);
    assert(r =~= a + seq![x] + b);
    assert(sorted =~= a + b);
    assert forall|t: u64| #[trigger] events_at(r, t) == events_at(consumed.push(x), t) by {
        let f = stamped(t);
        Seq::filter_distributes_over_add(a + seq![x], b, f);
        Seq::filter_distributes_over_add(a, seq![x], f);
        Seq::filter_distributes_over_add(a, b, f);
        consumed.lemma_filter_push(x, f);
        seq![x].lemma_filter_push(x, f);
        assert(seq![x] =~= Seq::<TimelineEvent>::empty().push(x));
        Seq::<TimelineEvent>::empty().lemma_filter_push(x, f);
        reveal_with_fuel(Seq::filter, 1);
        if t == x.timestamp_ms {
            assert(b.filter(f) =~= Seq::<TimelineEvent>::empty()) by {
                if b.filter(f).len() > 0 {
                    let e = b.filter(f)[0];
                    b.lemma_filter_pred(f, 0);
                    assert(b.filter(f).contains(e));
                    b.lemma_filter_contains_rev(f, e);
                    let j = choose|j: int| 0 <= j < b.len() && b[j] == e;
                    assert(sorted[p + j].timestamp_ms > x.timestamp_ms);
                }
            }
            assert(events_at(r, t) =~= events_at(sorted, t).push(x));
        } else {
            assert(events_at(r, t) =~= events_at(sorted, t));
        }
    }
}

/// A sorted sequence holding an event stamped `t` ends on an event stamped
/// at least `t`.
proof fn lemma_block_bounds_last(r: Seq<TimelineEvent>, t: u64)
    requires
        sorted_by_time(r),
        events_at(r, t).len() > 0,
    ensures
        r.len() > 0,
        t <= r.last().timestamp_ms,
{
    let f = stamped(t);
    let e = r.filter(f)[0];
    r.lemma_filter_pred(f, 0);
    assert(r.filter(f).contains(e));
    r.lemma_filter_contains_rev(f, e);
    let j = choose|j: int| 0 <= j < r.len() && r[j] == e;
    assert(r[j].timestamp_ms <= r[r.len() - 1].timestamp_ms);
}

/// Two sorted sequences with the same events at every timestamp, in the
/// same order, are equal.
proof fn lemma_same_blocks_equal(r1: Seq<TimelineEvent>, r2: Seq<TimelineEvent>)
    requires
        sorted_by_time(r1),
        sorted_by_time(r2),
        forall|t: u64| #[trigger] events_at(r1, t) == events_at(r2, t),
    ensures
        r1 == r2,
    decreases r1.len() + r2.len(),
{
    reveal_with_fuel(Seq::filter, 1);
    if r1.len() == 0 || r2.len() == 0 {
        if r1.len() > 0 {
            let t = r1[0].timestamp_ms;
            r1.lemma_filter_contains(stamped(t), 0);
            assert(events_at(r1, t) == events_at(r2, t));
            assert(r2.filter(stamped(t)) == r2);
            assert(false);
        } else if r2.len() > 0 {
            let t = r2[0].timestamp_ms;
            r2.lemma_filter_contains(stamped(t), 0);
            assert(events_at(r1, t) == events_at(r2, t));
            assert(r1.filter(stamped(t)) == r1);
            assert(false);
        }
        assert(r1 =~= r2);
    } else {
        let x1 = r1.last();
        let x2 = r2.last();
        let p1 = r1.drop_last();
        let p2 = r2.drop_last();
        assert(p1.push(x1) =~= r1);
        assert(p2.push(x2) =~= r2);
        let t1 = x1.timestamp_ms;
        let t2 = x2.timestamp_ms;
        p1.lemma_filter_push(x1, stamped(t1));
        p2.lemma_filter_push(x2, stamped(t2));
        assert(events_at(r1, t1).len() > 0);
        assert(events_at(r2, t2).len() > 0);
        lemma_block_bounds_last(r2, t1);
        lemma_block_bounds_last(r1, t2);
        assert(t1 == t2);
        p1.lemma_filter_push(x1, stamped(t2));
        p2.lemma_filter_push(x2, stamped(t1));
        assert(x1 == events_at(r1, t1).last());
        assert(x2 == events_at(r2, t1).last());
        assert(x1 == x2);
        assert forall|t: u64| #[trigger] events_at(p1, t) == events_at(p2, t) by {
            p1.lemma_filter_push(x1, stamped(t));
            p2.lemma_filter_push(x2, stamped(t));
            assert(events_at(r1, t) == events_at(r2, t));
            if t == t1 {
                assert(events_at(p1, t) =~= events_at(r1, t).drop_last());
                assert(events_at(p2, t) =~= events_at(r2, t).drop_last());
            }
        }
        lemma_same_blocks_equal(p1, p2);
    }
}

/// `push_events` stores a script in exactly one order: any two stable time
/// sorts of the same script are equal.
pub proof fn lemma_stable_time_sort_unique(
    r1: Seq<TimelineEvent>,
    r2: Seq<TimelineEvent>,
    s: Seq<TimelineEvent>,
)
    requires
        is_stable_time_sort(r1, s),
        is_stable_time_sort(r2, s),
    ensures
        r1 == r2,
{
    assert forall|t: u64| #[trigger] events_at(r1, t) == events_at(r2, t) by {
        assert(events_at(r1, t) == events_at(s, t));
        assert(events_at(r2, t) == events_at(s, t));
    }
    lemma_same_blocks_equal(r1, r2);
}

/// A script already in timestamp order is stored as it is.
pub proof fn lemma_sorted_script_kept(r: Seq<TimelineEvent>, s: Seq<TimelineEvent>)
    requires
        sorted_by_time(s),
        is_stable_time_sort(r, s),
    ensures
        r == s,
{
    lemma_stable_time_sort_unique(r, s, s);
}

/// Consecutive ticks dispatch consecutive runs of the schedule: what two
/// ticks dispatch, one after the other, is the run from where the first
/// started to where the second stopped, so no event is dispatched twice or
/// skipped.
pub proof fn lemma_ticks_dispatch_in_sequence(
    t0: Timeline,
    t1: Timeline,
    t2: Timeline,
    d1: Duration,
    d2: Duration,
)
    requires
        t0.wf(),
        ticked(t0, t1, d1),
        ticked(t1, t2, d2),
    ensures
        t0.spec_cursor() <= t1.spec_cursor() <= t2.spec_cursor(),
        dispatched(t0, t1) + dispatched(t1, t2) == t0.spec_events().subrange(
            t0.spec_cursor(),
            t2.spec_cursor(),
        ),
{
    assert(dispatched(t0, t1) + dispatched(t1, t2) =~= t0.spec_events().subrange(
        t0.spec_cursor(),
        t2.spec_cursor(),
    ));
}

proof fn lemma_filter_keeps_count(s: Seq<TimelineEvent>, t: u64, x: TimelineEvent)
    requires
        x.timestamp_ms == t,
    ensures
        events_at(s, t).to_multiset().count(x) == s.to_multiset().count(x),
    decreases s.len(),
{
    broadcast use vstd::seq_lib::group_to_multiset_ensures;
    broadcast use vstd::multiset::group_multiset_axioms;

    reveal_with_fuel(Seq::filter, 1);
    if s.len() == 0 {
        assert(events_at(s, t) =~= s);
    } else {
        let p = s.drop_last();
        let l = s.last();
        assert(p.push(l) =~= s);
        lemma_filter_keeps_count(p, t, x);
        p.lemma_filter_push(l, stamped(t));
    }
}

/// A tick moves the clock of a running timeline forward by exactly the
/// delta's whole milliseconds when they fit in a `u64`, and to `u64::MAX`
/// milliseconds more otherwise (which the clock's bound then excludes).
pub proof fn lemma_tick_advances_clock_by_delta(before: Timeline, after: Timeline, delta: Duration)
    requires
        ticked(before, after, delta),
        !before.spec_finished(),
    ensures
        duration_millis(delta) <= u64::MAX ==> after.spec_elapsed_ms() == before.spec_elapsed_ms()
            + duration_millis(delta),
        duration_millis(delta) > u64::MAX ==> after.spec_elapsed_ms() == before.spec_elapsed_ms()
            + u64::MAX,
{
}

/// After a tick of a running timeline, the events dispatched are exactly the
/// pending events stamped at or before the new clock: each of them is
/// stamped no later than the clock, and every event left is stamped later.
pub proof fn lemma_tick_dispatches_exactly_due(before: Timeline, after: Timeline, delta: Duration)
    requires
        before.wf(),
        ticked(before, after, delta),
        !before.spec_finished(),
    ensures
        forall|j: int|
            before.spec_cursor() <= j < after.spec_cursor() ==> #[trigger] after.spec_events()[j].timestamp_ms
                <= after.spec_elapsed_ms(),
        forall|j: int|
            after.spec_cursor() <= j < after.spec_events().len() ==> #[trigger] after.spec_events()[j].timestamp_ms
                > after.spec_elapsed_ms(),
{
    let s = after.spec_events();
    let k = after.spec_cursor();
    assert forall|j: int| k <= j < s.len() implies #[trigger] s[j].timestamp_ms
        > after.spec_elapsed_ms() by {
        assert(s[k].timestamp_ms <= s[j].timestamp_ms);
    }
}

/// The schedule of a timeline is in ascending order of timestamps.
pub proof fn lemma_schedule_ascending(t: Timeline)
    requires
        t.wf(),
    ensures
        forall|i: int, j: int|
            0 <= i <= j < t.spec_events().len() ==> t.spec_events()[i].timestamp_ms
                <= t.spec_events()[j].timestamp_ms,
{
}

/// A stable time sort is a permutation: it holds every event of the script
/// exactly as many times as the script does.
pub proof fn lemma_stable_time_sort_permutes(r: Seq<TimelineEvent>, s: Seq<TimelineEvent>)
    requires
        is_stable_time_sort(r, s),
    ensures
        r.to_multiset() == s.to_multiset(),
{
    assert forall|x: TimelineEvent| r.to_multiset().count(x) == s.to_multiset().count(x) by {
        lemma_filter_keeps_count(r, x.timestamp_ms, x);
        lemma_filter_keeps_count(s, x.timestamp_ms, x);
        assert(events_at(r, x.timestamp_ms) == events_at(s, x.timestamp_ms));
    }
    assert(r.to_multiset() =~= s.to_multiset());
}

/// The total of the first `k` tick deltas, each in whole milliseconds
/// saturated at `u64::MAX`.
pub open spec fn total_millis(ds: Seq<Duration>, k: int) -> nat
    decreases k,
{
    if k <= 0 {
        0
    } else {
        total_millis(ds, k - 1) + clamped_millis(ds[k - 1])
    }
}

/// The events a run of ticks from `tl[0]` to `tl[k]` dispatches, in the
/// order the ticks return them.
pub open spec fn run_dispatched(tl: Seq<Timeline>, k: int) -> Seq<TimelineEvent>
    decreases k,
{
    if k <= 0 {
        Seq::empty()
    } else {
        run_dispatched(tl, k - 1) + dispatched(tl[k - 1], tl[k])
    }
}

/// Over any run of ticks the schedule stays as it is (so `is_empty` keeps
/// its answer), the cursor only moves forward, and the events returned, one
/// tick after another, are the schedule's run from the first cursor to the
/// last: no event is returned twice or skipped.
pub proof fn lemma_tick_run(tl: Seq<Timeline>, ds: Seq<Duration>, k: int)
    requires
        tl.len() == ds.len() + 1,
        tl[0].wf(),
        forall|i: int| 0 <= i < ds.len() ==> ticked(#[trigger] tl[i], tl[i + 1], ds[i]),
        0 <= k <= ds.len(),
    ensures
        tl[k].wf(),
        tl[k].spec_events() == tl[0].spec_events(),
        tl[0].spec_cursor() <= tl[k].spec_cursor(),
        run_dispatched(tl, k) == tl[0].spec_events().subrange(
            tl[0].spec_cursor(),
            tl[k].spec_cursor(),
        ),
    decreases k,
{
    if k == 0 {
        assert(run_dispatched(tl, 0) =~= tl[0].spec_events().subrange(
            tl[0].spec_cursor(),
            tl[0].spec_cursor(),
        ));
    } else {
        lemma_tick_run(tl, ds, k - 1);
        assert(ticked(tl[k - 1], tl[k], ds[k - 1]));
        assert(run_dispatched(tl, k) =~= tl[0].spec_events().subrange(
            tl[0].spec_cursor(),
            tl[k].spec_cursor(),
        ));
    }
}

proof fn lemma_loaded_run_state(tl: Seq<Timeline>, ds: Seq<Duration>, k: int)
    requires
        tl.len() == ds.len() + 1,
        tl[0].wf(),
        tl[0].spec_cursor() == 0,
        tl[0].spec_elapsed_ms() == 0,
        tl[0].spec_finished() == (tl[0].spec_events().len() == 0),
        forall|i: int| 0 <= i < ds.len() ==> ticked(#[trigger] tl[i], tl[i + 1], ds[i]),
        0 <= k <= ds.len(),
    ensures
        tl[k].spec_finished() ==> tl[k].spec_cursor() == tl[0].spec_events().len(),
        !tl[k].spec_finished() ==> tl[k].spec_elapsed_ms() == total_millis(ds, k),
    decreases k,
{
    if k > 0 {
        lemma_loaded_run_state(tl, ds, k - 1);
        lemma_tick_run(tl, ds, k - 1);
        assert(ticked(tl[k - 1], tl[k], ds[k - 1]));
    }
}

/// A loaded script plays out: after `push_events`, ticks whose deltas add up
/// to at least every timestamp of the script (at least one tick) leave the
/// timeline finished, and together they return the whole schedule, each
/// event once, in schedule order (ascending timestamps, equal timestamps in
/// script order).
pub proof fn lemma_script_plays_out(tl: Seq<Timeline>, ds: Seq<Duration>)
    requires
        tl.len() == ds.len() + 1,
        ds.len() >= 1,
        tl[0].wf(),
        tl[0].spec_cursor() == 0,
        tl[0].spec_elapsed_ms() == 0,
        tl[0].spec_finished() == (tl[0].spec_events().len() == 0),
        forall|i: int| 0 <= i < ds.len() ==> ticked(#[trigger] tl[i], tl[i + 1], ds[i]),
        forall|j: int|
            0 <= j < tl[0].spec_events().len() ==> #[trigger] tl[0].spec_events()[j].timestamp_ms
                <= total_millis(ds, ds.len() as int),
    ensures
        tl[ds.len() as int].spec_finished(),
        run_dispatched(tl, ds.len() as int) == tl[0].spec_events(),
{
    let n = ds.len() as int;
    let evs = tl[0].spec_events();
    lemma_loaded_run_state(tl, ds, n - 1);
    lemma_tick_run(tl, ds, n - 1);
    lemma_tick_run(tl, ds, n);
    assert(ticked(tl[n - 1], tl[n], ds[n - 1]));
    if !tl[n - 1].spec_finished() {
        assert(total_millis(ds, n) == total_millis(ds, n - 1) + clamped_millis(ds[n - 1]));
        if tl[n].spec_cursor() < evs.len() {
            assert(evs[tl[n].spec_cursor()].timestamp_ms <= total_millis(ds, n));
        }
    }
    lemma_loaded_run_state(tl, ds, n);
    assert(evs.subrange(0, evs.len() as int) =~= evs);
}

/// Stable insertion sort by timestamp.
fn sort_by_time(events: Vec<TimelineEvent>) -> (r: Vec<TimelineEvent>)
    ensures
        is_stable_time_sort(r@, events@),
        r@.len() == events@.len(),
{
    let ghost orig = events@;
    let mut rest = events;
    let mut sorted: Vec<TimelineEvent> = Vec::new();
    let n = rest.len();
    let mut i: usize = 0;
    assert(orig.take(0) =~= Seq::<TimelineEvent>::empty());
    assert forall|t: u64| #[trigger] events_at(sorted@, t) == events_at(orig.take(0), t) by {
        reveal_with_fuel(Seq::filter, 1);
    }
    while i < n
        invariant
            n == orig.len(),
            i <= n,
            rest@ == orig.skip(i as int),
            sorted@.len() == i,
            is_stable_time_sort(sorted@, orig.take(i as int)),
        decreases n - i,
    {
        let x = rest.remove(0);
        let p = insertion_point(&sorted, &x);
        proof {
            lemma_insert_keeps_stable_sort(sorted@, orig.take(i as int), x, p as int);
            assert(orig.take(i as int).push(x) =~= orig.take(i + 1));
        }
        sorted.insert(p, x);
        i = i + 1;
        assert(rest@ =~= orig.skip(i as int));
    }
    assert(orig.take(n as int) =~= orig);
    sorted
}

} // verus!

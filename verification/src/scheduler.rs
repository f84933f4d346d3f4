//! Due-time scheduler. Equal deadlines run in config order.
use vstd::prelude::*;
use vstd::set_lib::{lemma_int_range, lemma_len_subset, set_int_range};
use crate::device::{spec_tick_interval_ms, tick_interval_ms};

verus! {

pub const DISCOVERY_MS: u64 = 1000;
pub const TYRE_CHECK_MS: u64 = 1000;
pub const MAPPING_START_MS: u64 = 2000;
pub const FPS_MIN: u32 = 1;
pub const FPS_MAX: u32 = 1000;

/// What a timer stands for.
#[derive(Clone, Copy, Debug, PartialEq, Eq, Structural)]
pub enum TimerKind {
    Device,
    Discovery,
    TyreDiameter,
    Mapping,
}

/// One fired timer.
#[derive(Clone, Copy, Debug, PartialEq, Eq, Structural)]
pub struct Due {
    pub kind: TimerKind,
    pub device_index: usize,
    pub due_ms: u64,
}

/// A repeating timer: when it is next due, and its period.
#[derive(Clone, Copy, Debug, PartialEq, Eq, Structural)]
pub struct Timer {
    pub due_ms: u64,
    pub period_ms: u64,
    pub kind: TimerKind,
    pub device_index: usize,
}

/// Timers in the order they were added; the position of a timer is its rank
/// among timers that fall due at the same millisecond.
pub struct Scheduler {
    now_ms: u64,
    timers: Vec<Timer>,
}

/// Frames per second held to `1..=1000`.
pub open spec fn spec_clamp_fps(fps: i32) -> u32 {
    if fps < FPS_MIN as i32 {
        FPS_MIN
    } else if fps > FPS_MAX as i32 {
        FPS_MAX
    } else {
        fps as u32
    }
}

/// Frames per second held to `1..=1000`.
pub fn clamp_fps(fps: i32) -> (r: u32)
    ensures
        r == spec_clamp_fps(fps),
        FPS_MIN <= r <= FPS_MAX,
{
    if fps < FPS_MIN as i32 {
        return FPS_MIN;
    }
    if fps > FPS_MAX as i32 {
        return FPS_MAX;
    }
    fps as u32
}

/// The period of a timer that ticks at `fps` frames per second.
pub open spec fn fps_period(fps: i32) -> u64 {
    spec_tick_interval_ms(spec_clamp_fps(fps))
}

/// `a + b`, or `u64::MAX` when that does not fit.
pub open spec fn sat_add(a: u64, b: u64) -> u64 {
    if a + b > u64::MAX { u64::MAX } else { (a + b) as u64 }
}

/// Timer `i` is due at `now`.
pub open spec fn due_at(ts: Seq<Timer>, now: u64, i: int) -> bool {
    0 <= i < ts.len() && ts[i].due_ms <= now
}

/// Timer `i` fires before timer `j`: an earlier deadline, or the same deadline
/// and added earlier.
pub open spec fn fires_before(ts: Seq<Timer>, i: int, j: int) -> bool {
    ts[i].due_ms < ts[j].due_ms || (ts[i].due_ms == ts[j].due_ms && i < j)
}

/// `order` lists every timer due at `now` exactly once, earliest deadline first,
/// and timers with equal deadlines in the order they were added.
pub open spec fn fire_order(ts: Seq<Timer>, now: u64, order: Seq<int>) -> bool {
    &&& forall|k: int| 0 <= k < order.len() ==> due_at(ts, now, #[trigger] order[k])
    &&& forall|k: int, l: int|
        0 <= k < l < order.len() ==> fires_before(ts, #[trigger] order[k], #[trigger] order[l])
    &&& forall|i: int| due_at(ts, now, i) ==> #[trigger] order.contains(i)
}

/// The report of a fired timer.
pub open spec fn due_of(t: Timer) -> Due {
    Due { kind: t.kind, device_index: t.device_index, due_ms: t.due_ms }
}

/// The next deadline of a timer that fired at `now`: one period after its
/// deadline, or one period after `now` when that is already past.
pub open spec fn next_due(t: Timer, now: u64) -> u64 {
    let next = sat_add(t.due_ms, t.period_ms);
    if next <= now { sat_add(now, t.period_ms) } else { next }
}

/// The timers after a poll at `now`: each due timer moves to its next deadline.
pub open spec fn after_poll(ts: Seq<Timer>, now: u64) -> Seq<Timer> {
    Seq::new(ts.len(), |i: int|
        if due_at(ts, now, i) { Timer { due_ms: next_due(ts[i], now), ..ts[i] } } else { ts[i] })
}

proof fn lemma_distinct_bounded(order: Seq<int>, n: int)
    requires
        n >= 0,
        order.no_duplicates(),
        forall|k: int| 0 <= k < order.len() ==> 0 <= #[trigger] order[k] < n,
    ensures
        order.len() <= n,
{
    order.unique_seq_to_set();
    lemma_int_range(0, n);
    assert(order.to_set().subset_of(set_int_range(0, n)));
    lemma_len_subset(order.to_set(), set_int_range(0, n));
}

impl Scheduler {
    /// The timers, in the order they were added.
    pub closed spec fn spec_timers(&self) -> Seq<Timer> {
        self.timers@
    }

    /// The clock sample of the last poll.
    pub closed spec fn spec_now(&self) -> u64 {
        self.now_ms
    }

    /// Every timer has a period of at least one millisecond.
    pub closed spec fn wf(&self) -> bool {
        forall|i: int| 0 <= i < self.timers@.len() ==> #[trigger] self.timers@[i].period_ms >= 1
    }

    pub fn new() -> (s: Self)
        ensures
            s.wf(),
            s.spec_timers() == Seq::<Timer>::empty(),
            s.spec_now() == 0,
    {
        Scheduler { now_ms: 0, timers: Vec::new() }
    }

    fn push(&mut self, kind: TimerKind, device_index: usize, due_ms: u64, period_ms: u64)
        requires
            old(self).wf(),
            period_ms >= 1,
        ensures
            final(self).wf(),
            final(self).spec_now() == old(self).spec_now(),
            final(self).spec_timers() == old(self).spec_timers().push(
                Timer { due_ms, period_ms, kind, device_index },
            ),
    {
        self.timers.push(Timer { due_ms, period_ms, kind, device_index });
    }

    /// A device timer at the device's rate, due at once.
    pub fn add_device(&mut self, device_index: usize, fps: i32)
        requires
            old(self).wf(),
        ensures
            final(self).wf(),
            final(self).spec_now() == old(self).spec_now(),
            final(self).spec_timers() == old(self).spec_timers().push(
                Timer {
                    due_ms: old(self).spec_now(),
                    period_ms: fps_period(fps),
                    kind: TimerKind::Device,
                    device_index,
                },
            ),
    {
        let period = tick_interval_ms(clamp_fps(fps));
        let now = self.now_ms;
        self.push(TimerKind::Device, device_index, now, period);
    }

    /// The sim-discovery timer, due at once and every second after.
    pub fn add_discovery(&mut self)
        requires
            old(self).wf(),
        ensures
            final(self).wf(),
            final(self).spec_now() == old(self).spec_now(),
            final(self).spec_timers() == old(self).spec_timers().push(
                Timer {
                    due_ms: old(self).spec_now(),
                    period_ms: DISCOVERY_MS,
                    kind: TimerKind::Discovery,
                    device_index: 0,
                },
            ),
    {
        let now = self.now_ms;
        self.push(TimerKind::Discovery, 0, now, DISCOVERY_MS);
    }

    /// The tyre-diameter timer, due at once and every second after.
    pub fn add_tyre_check(&mut self)
        requires
            old(self).wf(),
        ensures
            final(self).wf(),
            final(self).spec_now() == old(self).spec_now(),
            final(self).spec_timers() == old(self).spec_timers().push(
                Timer {
                    due_ms: old(self).spec_now(),
                    period_ms: TYRE_CHECK_MS,
                    kind: TimerKind::TyreDiameter,
                    device_index: 0,
                },
            ),
    {
        let now = self.now_ms;
        self.push(TimerKind::TyreDiameter, 0, now, TYRE_CHECK_MS);
    }

    /// The mapping timer at `fps`, first due two seconds from now.
    pub fn add_mapping(&mut self, fps: i32)
        requires
            old(self).wf(),
        ensures
            final(self).wf(),
            final(self).spec_now() == old(self).spec_now(),
            final(self).spec_timers() == old(self).spec_timers().push(
                Timer {
                    due_ms: sat_add(old(self).spec_now(), MAPPING_START_MS),
                    period_ms: fps_period(fps),
                    kind: TimerKind::Mapping,
                    device_index: 0,
                },
            ),
    {
        let period = tick_interval_ms(clamp_fps(fps));
        let start = self.now_ms.saturating_add(MAPPING_START_MS);
        self.push(TimerKind::Mapping, 0, start, period);
    }

    /// One clock sample. Every overdue timer fires once, earliest deadline
    /// first and equal deadlines in the order the timers were added; each
    /// moves to its next deadline.
    pub fn poll(&mut self, now_ms: u64) -> (fired: Vec<Due>)
        requires
            old(self).wf(),
        ensures
            final(self).wf(),
            final(self).spec_now() == now_ms,
            final(self).spec_timers() == after_poll(old(self).spec_timers(), now_ms),
            exists|order: Seq<int>|
                {
                    &&& fire_order(old(self).spec_timers(), now_ms, order)
                    &&& fired@.len() == order.len()
                    &&& forall|k: int|
                        0 <= k < order.len() ==> fired@[k] == #[trigger] due_of(
                            old(self).spec_timers()[order[k]],
                        )
                },
            now_ms < u64::MAX ==> forall|i: int|
                0 <= i < final(self).spec_timers().len()
                    ==> #[trigger] final(self).spec_timers()[i].due_ms > now_ms,
    {
        let ghost ts = self.timers@;
        let n = self.timers.len();
        let mut picked: Vec<bool> = Vec::new();
        while picked.len() < n
            invariant
                picked@.len() <= n,
                forall|j: int| 0 <= j < picked@.len() ==> !#[trigger] picked@[j],
            decreases n - picked@.len(),
        {
            picked.push(false);
        }
        let mut fired: Vec<Due> = Vec::new();
        let ghost mut order: Seq<int> = Seq::empty();
        loop
            invariant
                n == ts.len(),
                self.timers@ == ts,
                picked@.len() == n,
                fired@.len() == order.len(),
                forall|k: int| 0 <= k < order.len() ==> fired@[k] == #[trigger] due_of(ts[order[k]]),
                forall|k: int| 0 <= k < order.len() ==> due_at(ts, now_ms, #[trigger] order[k]),
                forall|k: int, l: int|
                    0 <= k < l < order.len() ==> fires_before(ts, #[trigger] order[k], #[trigger] order[l]),
                forall|j: int| 0 <= j < n ==> (#[trigger] picked@[j] <==> order.contains(j)),
                forall|j: int, k: int|
                    #![trigger picked@[j], order[k]]
                    due_at(ts, now_ms, j) && !picked@[j] && 0 <= k < order.len()
                        ==> fires_before(ts, order[k], j),
            ensures
                fired@.len() == order.len(),
                forall|k: int| 0 <= k < order.len() ==> fired@[k] == #[trigger] due_of(ts[order[k]]),
                fire_order(ts, now_ms, order),
            decreases n - order.len(),
        {
            let mut best: usize = n;
            let mut i: usize = 0;
            while i < n
                invariant
                    n == ts.len(),
                    self.timers@ == ts,
                    picked@.len() == n,
                    i <= n,
                    best == n || (best < i && due_at(ts, now_ms, best as int) && !picked@[best as int]),
                    best == n ==> forall|j: int| 0 <= j < i ==> !(due_at(ts, now_ms, j) && !#[trigger] picked@[j]),
                    best < n ==> forall|j: int|
                        0 <= j < i && j != best && due_at(ts, now_ms, j) && !#[trigger] picked@[j]
                            ==> fires_before(ts, best as int, j),
                decreases n - i,
            {
                if self.timers[i].due_ms <= now_ms && !picked[i] {
                    if best == n || self.timers[i].due_ms < self.timers[best].due_ms {
                        best = i;
                    }
                }
                i += 1;
            }
            if best == n {
                proof {
                    assert forall|j: int| due_at(ts, now_ms, j) implies #[trigger] order.contains(j) by {
                        assert(picked@[j]);
                    }
                }
                break;
            }
            let t = self.timers[best];
            fired.push(Due { kind: t.kind, device_index: t.device_index, due_ms: t.due_ms });
            picked.set(best, true);
            proof {
                let old_order = order;
                order = order.push(best as int);
                assert forall|j: int| 0 <= j < n implies (#[trigger] picked@[j] <==> order.contains(j)) by {
                    if j == best as int {
                        assert(order[order.len() - 1] == j);
                    } else {
                        if order.contains(j) {
                            let k = choose|k: int| 0 <= k < order.len() && order[k] == j;
                            assert(old_order[k] == j);
                        }
                        if old_order.contains(j) {
                            let k = choose|k: int| 0 <= k < old_order.len() && old_order[k] == j;
                            assert(order[k] == j);
                        }
                    }
                }
                assert forall|k: int| 0 <= k < order.len() implies fired@[k] == #[trigger] due_of(ts[order[k]]) by {
                    if k < old_order.len() {
                        assert(order[k] == old_order[k]);
                    }
                }
                assert forall|k: int, l: int| 0 <= k < l < order.len()
                    implies fires_before(ts, #[trigger] order[k], #[trigger] order[l]) by {
                    if l == old_order.len() {
                        assert(order[k] == old_order[k]);
                    } else {
                        assert(order[k] == old_order[k]);
                        assert(order[l] == old_order[l]);
                    }
                }
                assert(order.no_duplicates()) by {
                    assert forall|k: int, l: int| 0 <= k < order.len() && 0 <= l < order.len() && k != l
                        implies order[k] != order[l] by {
                        if k < l {
                            assert(fires_before(ts, order[k], order[l]));
                        } else {
                            assert(fires_before(ts, order[l], order[k]));
                        }
                    }
                }
                assert forall|k: int| 0 <= k < order.len() implies 0 <= #[trigger] order[k] < n by {
                    assert(due_at(ts, now_ms, order[k]));
                }
                lemma_distinct_bounded(order, n as int);
            }
        }
        let mut j: usize = 0;
        while j < n
            invariant
                n == ts.len(),
                self.timers@.len() == n,
                j <= n,
                forall|i: int| 0 <= i < ts.len() ==> #[trigger] ts[i].period_ms >= 1,
                forall|i: int| 0 <= i < j ==> #[trigger] self.timers@[i] == after_poll(ts, now_ms)[i],
                forall|i: int| j <= i < n ==> #[trigger] self.timers@[i] == ts[i],
            decreases n - j,
        {
            let t = self.timers[j];
            if t.due_ms <= now_ms {
                let mut next = t.due_ms.saturating_add(t.period_ms);
                if next <= now_ms {
                    next = now_ms.saturating_add(t.period_ms);
                }
                self.timers.set(j, Timer { due_ms: next, ..t });
            }
            j += 1;
        }
        self.now_ms = now_ms;
        assert(self.timers@ =~= after_poll(ts, now_ms));
        fired
    }
}

/// Two fire orders of the same timers at the same time are equal: the fired
/// sequence of a poll is determined by the timers and the clock sample.
pub proof fn fire_order_is_unique(ts: Seq<Timer>, now: u64, a: Seq<int>, b: Seq<int>)
    requires
        fire_order(ts, now, a),
        fire_order(ts, now, b),
    ensures
        a == b,
{
    ordered_except_unique(ts, now, Set::empty(), a, b);
}

/// A sequence of due timers, strictly ordered, that holds every due timer
/// outside `skip`, where `skip` holds no element of it.
spec fn ordered_except(ts: Seq<Timer>, now: u64, skip: Set<int>, order: Seq<int>) -> bool {
    &&& forall|k: int| 0 <= k < order.len() ==> due_at(ts, now, #[trigger] order[k])
    &&& forall|k: int| 0 <= k < order.len() ==> !skip.contains(#[trigger] order[k])
    &&& forall|k: int, l: int|
        0 <= k < l < order.len() ==> fires_before(ts, #[trigger] order[k], #[trigger] order[l])
    &&& forall|i: int| due_at(ts, now, i) && !skip.contains(i) ==> #[trigger] order.contains(i)
}

proof fn ordered_except_unique(ts: Seq<Timer>, now: u64, skip: Set<int>, a: Seq<int>, b: Seq<int>)
    requires
        ordered_except(ts, now, skip, a),
        ordered_except(ts, now, skip, b),
    ensures
        a == b,
    decreases a.len(),
{
    if a.len() == 0 {
        if b.len() > 0 {
            assert(due_at(ts, now, b[0]));
            assert(!skip.contains(b[0]));
            assert(a.contains(b[0]));
        }
        assert(a =~= b);
    } else {
        assert(due_at(ts, now, a[0]) && !skip.contains(a[0]));
        assert(b.contains(a[0]));
        assert(due_at(ts, now, b[0]) && !skip.contains(b[0]));
        assert(a.contains(b[0]));
        let ka = choose|k: int| 0 <= k < a.len() && a[k] == b[0];
        let kb = choose|k: int| 0 <= k < b.len() && b[k] == a[0];
        if ka > 0 {
            assert(fires_before(ts, a[0], a[ka]));
        }
        if kb > 0 {
            assert(fires_before(ts, b[0], b[kb]));
        }
        assert(a[0] == b[0]);
        let ta = a.drop_first();
        let tb = b.drop_first();
        let skip2 = skip.insert(a[0]);
        assert(ordered_except(ts, now, skip2, ta)) by {
            assert forall|i: int| due_at(ts, now, i) && !skip2.contains(i) implies #[trigger] ta.contains(i) by {
                assert(a.contains(i));
                let k = choose|k: int| 0 <= k < a.len() && a[k] == i;
                assert(k != 0);
                assert(ta[k - 1] == i);
            }
            assert forall|k: int| 0 <= k < ta.len() implies !skip2.contains(#[trigger] ta[k]) by {
                assert(fires_before(ts, a[0], a[k + 1]));
                assert(!skip.contains(a[k + 1]));
            }
        }
        assert(ordered_except(ts, now, skip2, tb)) by {
            assert forall|i: int| due_at(ts, now, i) && !skip2.contains(i) implies #[trigger] tb.contains(i) by {
                assert(b.contains(i));
                let k = choose|k: int| 0 <= k < b.len() && b[k] == i;
                assert(k != 0);
                assert(tb[k - 1] == i);
            }
            assert forall|k: int| 0 <= k < tb.len() implies !skip2.contains(#[trigger] tb[k]) by {
                assert(fires_before(ts, b[0], b[k + 1]));
                assert(!skip.contains(b[k + 1]));
            }
        }
        ordered_except_unique(ts, now, skip2, ta, tb);
        assert(a =~= seq![a[0]] + ta);
        assert(b =~= seq![b[0]] + tb);
    }
}

} // verus!

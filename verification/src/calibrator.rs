//! The calibrator's bookkeeping: how stored cooling intervals are classed,
//! which of them a refit uses and when one is due, the exclusion-rate
//! counts, the deterministic holdout split, and how the weather across an
//! interval's gap is cut into at most 24 buckets.

use vstd::prelude::*;

verus! {

/// Classification of a stored interval.
#[derive(Debug, Clone, Copy, PartialEq, Eq, Structural)]
pub enum IntervalRegime {
    IdleCovered,
    ExcludedAnomalous,
}

// ── Calibration refits ──────────────────────────────────────────────────

/// What a refit looks at of a stored cooling interval.
#[derive(Debug, Clone, Copy, PartialEq, Eq, Structural)]
pub struct IntervalKey {
    /// When the interval ended.
    pub t1_unix_ms: i64,
    pub regime: IntervalRegime,
}

impl IntervalKey {
    pub open spec fn idle_covered(self) -> bool {
        self.regime == IntervalRegime::IdleCovered
    }
}

/// Clean intervals that ended after `since`.
pub open spec fn fresh_clean_count(s: Seq<IntervalKey>, since: int) -> nat
    decreases s.len(),
{
    if s.len() == 0 {
        0
    } else {
        fresh_clean_count(s.drop_last(), since) + if s.last().t1_unix_ms > since && s.last().idle_covered() {
            1nat
        } else {
            0nat
        }
    }
}

pub fn count_fresh_clean(intervals: &Vec<IntervalKey>, since: i64) -> (n: usize)
    ensures
        n == fresh_clean_count(intervals@, since as int),
{
    let mut n: usize = 0;
    let mut i: usize = 0;
    while i < intervals.len()
        invariant
            i <= intervals@.len(),
            n == fresh_clean_count(intervals@.subrange(0, i as int), since as int),
            n <= i,
        decreases intervals.len() - i,
    {
        proof {
            assert(intervals@.subrange(0, i + 1).drop_last() =~= intervals@.subrange(0, i as int));
        }
        let k = intervals[i];
        if k.t1_unix_ms > since && k.regime == IntervalRegime::IdleCovered {
            n = n + 1;
        }
        i = i + 1;
    }
    proof {
        assert(intervals@.subrange(0, i as int) =~= intervals@);
    }
    n
}

/// A refit is due when the last one is at least `min_gap_ms` old (or there
/// was none) and either enough fresh clean intervals arrived since it or the
/// prediction error drifted.
pub open spec fn refit_due_spec(
    last_refit: Option<i64>,
    now: int,
    min_gap_ms: int,
    fresh_clean: int,
    min_new_intervals: int,
    mae_drifted: bool,
) -> bool {
    let spaced = match last_refit {
        Some(last) => now - last >= min_gap_ms,
        None => true,
    };
    spaced && (fresh_clean >= min_new_intervals || mae_drifted)
}

pub fn refit_due(
    last_refit: Option<i64>,
    now_unix_ms: i64,
    min_gap_ms: i64,
    intervals: &Vec<IntervalKey>,
    min_new_intervals: usize,
    mae_drifted: bool,
) -> (b: bool)
    requires
        last_refit matches Some(l) ==> i64::MIN <= now_unix_ms - l <= i64::MAX,
    ensures
        b == refit_due_spec(
            last_refit,
            now_unix_ms as int,
            min_gap_ms as int,
            fresh_clean_count(
                intervals@,
                match last_refit {
                    Some(l) => l as int,
                    None => i64::MIN as int,
                },
            ) as int,
            min_new_intervals as int,
            mae_drifted,
        ),
{
    match last_refit {
        Some(last) => {
            if now_unix_ms - last < min_gap_ms {
                return false;
            }
        },
        None => {},
    }
    let since = match last_refit {
        Some(l) => l,
        None => i64::MIN,
    };
    let fresh = count_fresh_clean(intervals, since);
    fresh >= min_new_intervals || mae_drifted
}

/// The intervals a refit uses: those that ended inside the window, clean
/// ones only unless the exclusion escape hatch is open.
pub open spec fn in_refit_window(k: IntervalKey, window_start: int, escape: bool) -> bool {
    k.t1_unix_ms >= window_start && (escape || k.idle_covered())
}

pub open spec fn refit_window_spec(s: Seq<IntervalKey>, window_start: int, escape: bool) -> Seq<int>
    decreases s.len(),
{
    if s.len() == 0 {
        Seq::empty()
    } else if in_refit_window(s.last(), window_start, escape) {
        refit_window_spec(s.drop_last(), window_start, escape).push(s.len() - 1)
    } else {
        refit_window_spec(s.drop_last(), window_start, escape)
    }
}

/// Positions of the intervals a refit uses, in order.
pub fn refit_window(intervals: &Vec<IntervalKey>, window_start: i64, escape: bool) -> (v: Vec<usize>)
    ensures
        v@.map_values(|i: usize| i as int) == refit_window_spec(intervals@, window_start as int, escape),
{
    let mut v: Vec<usize> = Vec::new();
    let mut i: usize = 0;
    while i < intervals.len()
        invariant
            i <= intervals@.len(),
            v@.map_values(|x: usize| x as int) == refit_window_spec(
                intervals@.subrange(0, i as int),
                window_start as int,
                escape,
            ),
        decreases intervals.len() - i,
    {
        proof {
            let sub = intervals@.subrange(0, i + 1);
            assert(sub.drop_last() =~= intervals@.subrange(0, i as int));
            assert(sub.last() == intervals@[i as int]);
        }
        let k = intervals[i];
        if k.t1_unix_ms >= window_start && (escape || k.regime == IntervalRegime::IdleCovered) {
            let ghost before = v@;
            v.push(i);
            proof {
                assert(v@.map_values(|x: usize| x as int) =~= before.map_values(|x: usize| x as int).push(
                    i as int,
                ));
            }
        }
        i = i + 1;
    }
    proof {
        assert(intervals@.subrange(0, i as int) =~= intervals@);
    }
    v
}

/// The exclusion-rate inputs: how many intervals ended inside the window,
/// and how many of those were excluded as anomalous.
pub open spec fn exclusion_counts_spec(s: Seq<IntervalKey>, window_start: int) -> (nat, nat)
    decreases s.len(),
{
    if s.len() == 0 {
        (0, 0)
    } else {
        let p = exclusion_counts_spec(s.drop_last(), window_start);
        if s.last().t1_unix_ms >= window_start {
            (p.0 + 1, p.1 + if s.last().idle_covered() {
                0nat
            } else {
                1nat
            })
        } else {
            p
        }
    }
}

pub fn exclusion_counts(intervals: &Vec<IntervalKey>, window_start: i64) -> (r: (usize, usize))
    ensures
        (r.0 as nat, r.1 as nat) == exclusion_counts_spec(intervals@, window_start as int),
        r.1 <= r.0,
{
    let mut total: usize = 0;
    let mut excluded: usize = 0;
    let mut i: usize = 0;
    while i < intervals.len()
        invariant
            i <= intervals@.len(),
            (total as nat, excluded as nat) == exclusion_counts_spec(
                intervals@.subrange(0, i as int),
                window_start as int,
            ),
            excluded <= total <= i,
        decreases intervals.len() - i,
    {
        proof {
            assert(intervals@.subrange(0, i + 1).drop_last() =~= intervals@.subrange(0, i as int));
        }
        let k = intervals[i];
        if k.t1_unix_ms >= window_start {
            total = total + 1;
            if !(k.regime == IntervalRegime::IdleCovered) {
                excluded = excluded + 1;
            }
        }
        i = i + 1;
    }
    proof {
        assert(intervals@.subrange(0, i as int) =~= intervals@);
    }
    (total, excluded)
}

/// A refit needs a window of at least three intervals, so that both the fit
/// set and the holdout get some.
pub const MIN_REFIT_WINDOW: usize = 3;

// ── Holdout split ───────────────────────────────────────────────────────

/// Every third item, starting with the first, is held out; the rest are fit.
pub open spec fn split_spec<T>(s: Seq<T>) -> (Seq<T>, Seq<T>)
    decreases s.len(),
{
    if s.len() == 0 {
        (Seq::empty(), Seq::empty())
    } else {
        let p = split_spec(s.drop_last());
        if (s.len() - 1) % 3 == 0 {
            (p.0, p.1.push(s.last()))
        } else {
            (p.0.push(s.last()), p.1)
        }
    }
}

/// Deterministic holdout: every 3rd item (index % 3 == 0) is held out.
/// Returns (fit set, holdout).
pub fn holdout_split<T>(items: &[T]) -> (r: (Vec<&T>, Vec<&T>))
    ensures
        r.0@.map_values(|x: &T| *x) == split_spec(items@).0,
        r.1@.map_values(|x: &T| *x) == split_spec(items@).1,
{
    let mut fit: Vec<&T> = Vec::new();
    let mut holdout: Vec<&T> = Vec::new();
    let mut i: usize = 0;
    while i < items.len()
        invariant
            i <= items@.len(),
            fit@.map_values(|x: &T| *x) == split_spec(items@.subrange(0, i as int)).0,
            holdout@.map_values(|x: &T| *x) == split_spec(items@.subrange(0, i as int)).1,
        decreases items.len() - i,
    {
        proof {
            let sub = items@.subrange(0, i + 1);
            assert(sub.drop_last() =~= items@.subrange(0, i as int));
            assert(sub.last() == items@[i as int]);
        }
        let ghost h0 = holdout@;
        let ghost f0 = fit@;
        if i % 3 == 0 {
            holdout.push(&items[i]);
            proof {
                assert(holdout@.map_values(|x: &T| *x) =~= h0.map_values(|x: &T| *x).push(items@[i as int]));
            }
        } else {
            fit.push(&items[i]);
            proof {
                assert(fit@.map_values(|x: &T| *x) =~= f0.map_values(|x: &T| *x).push(items@[i as int]));
            }
        }
        i = i + 1;
    }
    proof {
        assert(items@.subrange(0, i as int) =~= items@);
    }
    (fit, holdout)
}

/// The split parts hold every item once: the holdout gets ceil(n/3) items,
/// the fit set the rest; with three or more items both are non-empty.
pub proof fn lemma_split_sizes<T>(s: Seq<T>)
    ensures
        split_spec(s).1.len() == (s.len() + 2) / 3,
        split_spec(s).0.len() + split_spec(s).1.len() == s.len(),
        s.len() >= 3 ==> split_spec(s).0.len() > 0 && split_spec(s).1.len() > 0,
    decreases s.len(),
{
    if s.len() > 0 {
        lemma_split_sizes(s.drop_last());
    }
}


// ── Weather buckets ─────────────────────────────────────────────────────

pub const MS_PER_HOUR: i64 = 3_600_000;

/// Hard cap on weather buckets stored per interval.
pub const MAX_BUCKETS_PER_INTERVAL: i64 = 24;

/// The time span of one weather segment.
#[derive(Debug, Clone, Copy, PartialEq, Eq, Structural)]
pub struct TimeSpan {
    pub start_unix_ms: i64,
    pub end_unix_ms: i64,
}

/// One bucket of an interval's gap and the segment whose weather it takes.
#[derive(Debug, Clone, Copy, PartialEq, Eq, Structural)]
pub struct BucketPlan {
    pub segment: usize,
    pub start_unix_ms: i64,
    pub end_unix_ms: i64,
}

/// How many buckets a gap gets: one per started hour, between 1 and 24.
pub open spec fn bucket_count(gap: int) -> int {
    let hours = (gap + MS_PER_HOUR - 1) / (MS_PER_HOUR as int);
    if hours < 1 {
        1
    } else if hours > MAX_BUCKETS_PER_INTERVAL {
        MAX_BUCKETS_PER_INTERVAL as int
    } else {
        hours
    }
}

pub open spec fn bucket_start(t0: int, gap: int, n: int, i: int) -> int {
    t0 + gap * i / n
}

pub open spec fn bucket_mid(t0: int, gap: int, n: int, i: int) -> int {
    let s = bucket_start(t0, gap, n, i);
    let e = bucket_start(t0, gap, n, i + 1);
    s + (e - s) / 2
}

pub open spec fn covers(s: TimeSpan, t: int) -> bool {
    s.start_unix_ms <= t < s.end_unix_ms
}

/// The first segment covering `t`.
pub open spec fn first_covering(segs: Seq<TimeSpan>, t: int) -> Option<int>
    decreases segs.len(),
{
    if segs.len() == 0 {
        None
    } else {
        match first_covering(segs.drop_last(), t) {
            Some(i) => Some(i),
            None => if covers(segs.last(), t) {
                Some(segs.len() - 1)
            } else {
                None
            },
        }
    }
}

pub open spec fn distance(a: int, b: int) -> int {
    if a >= b {
        a - b
    } else {
        b - a
    }
}

/// The first segment whose start is nearest to `t`.
pub open spec fn nearest_start(segs: Seq<TimeSpan>, t: int) -> int
    decreases segs.len(),
{
    if segs.len() <= 1 {
        0
    } else {
        let b = nearest_start(segs.drop_last(), t);
        if distance(segs.last().start_unix_ms as int, t) < distance(segs[b].start_unix_ms as int, t) {
            segs.len() - 1
        } else {
            b
        }
    }
}

/// The segment whose weather a bucket takes: the first covering its middle,
/// else the first with the nearest start.
pub open spec fn bucket_segment(segs: Seq<TimeSpan>, t: int) -> int {
    match first_covering(segs, t) {
        Some(i) => i,
        None => nearest_start(segs, t),
    }
}

/// The buckets of the gap `[t0, t1]`: equal slices, each taking the weather
/// of the segment covering its middle (nearest by start when none covers
/// it). No segments or no gap give no buckets.
pub open spec fn bucket_plan_spec(segs: Seq<TimeSpan>, t0: int, t1: int) -> Seq<(int, int, int)> {
    if segs.len() == 0 || t1 <= t0 {
        Seq::empty()
    } else {
        let gap = t1 - t0;
        let n = bucket_count(gap);
        Seq::new(
            n as nat,
            |i: int|
                (
                    bucket_segment(segs, bucket_mid(t0, gap, n, i)),
                    bucket_start(t0, gap, n, i),
                    bucket_start(t0, gap, n, i + 1),
                ),
        )
    }
}

/// The buckets of a gap cover it whole, in order and without holes: the
/// first starts at `t0`, each ends where the next starts, the last ends at
/// `t1`, and there are between one and 24 of them (widened, never
/// truncated, when the gap exceeds a day).
pub proof fn lemma_buckets_cover_gap(segs: Seq<TimeSpan>, t0: int, t1: int)
    requires
        segs.len() > 0,
        t1 > t0,
    ensures
        ({
            let p = bucket_plan_spec(segs, t0, t1);
            &&& 1 <= p.len() <= MAX_BUCKETS_PER_INTERVAL
            &&& p[0].1 == t0
            &&& p[p.len() - 1].2 == t1
            &&& forall|i: int| 0 <= i < p.len() - 1 ==> #[trigger] p[i].2 == p[i + 1].1
        }),
{
    let gap = t1 - t0;
    let n = bucket_count(gap);
    assert(1 <= n <= MAX_BUCKETS_PER_INTERVAL);
    assert(gap * 0 / n == 0) by (nonlinear_arith)
        requires
            n >= 1,
    ;
    assert(gap * n / n == gap) by (nonlinear_arith)
        requires
            n >= 1,
    ;
}

pub open spec fn plan_view(v: Seq<BucketPlan>) -> Seq<(int, int, int)> {
    v.map_values(|b: BucketPlan| (b.segment as int, b.start_unix_ms as int, b.end_unix_ms as int))
}

fn find_covering(segs: &Vec<TimeSpan>, t: i64) -> (r: Option<usize>)
    ensures
        match r {
            Some(k) => first_covering(segs@, t as int) == Some(k as int),
            None => first_covering(segs@, t as int) is None,
        },
{
    let mut i: usize = 0;
    while i < segs.len()
        invariant
            i <= segs@.len(),
            first_covering(segs@.subrange(0, i as int), t as int) is None,
        decreases segs.len() - i,
    {
        proof {
            let sub = segs@.subrange(0, i + 1);
            assert(sub.drop_last() =~= segs@.subrange(0, i as int));
            assert(sub.last() == segs@[i as int]);
        }
        let s = segs[i];
        if s.start_unix_ms <= t && t < s.end_unix_ms {
            proof {
                lemma_first_covering_prefix(segs@, t as int, i as int + 1);
            }
            return Some(i);
        }
        i = i + 1;
    }
    proof {
        assert(segs@.subrange(0, i as int) =~= segs@);
    }
    None
}

/// Once a prefix has a covering segment, longer prefixes keep that one.
proof fn lemma_first_covering_prefix(segs: Seq<TimeSpan>, t: int, k: int)
    requires
        0 <= k <= segs.len(),
        first_covering(segs.subrange(0, k), t) is Some,
    ensures
        first_covering(segs, t) == first_covering(segs.subrange(0, k), t),
    decreases segs.len() - k,
{
    if k < segs.len() {
        let sub = segs.subrange(0, k + 1);
        assert(sub.drop_last() =~= segs.subrange(0, k));
        lemma_first_covering_prefix(segs, t, k + 1);
    } else {
        assert(segs.subrange(0, k) =~= segs);
    }
}

fn abs_diff(a: i64, b: i64) -> (d: i128)
    ensures
        d == distance(a as int, b as int),
{
    let x = a as i128 - b as i128;
    if x >= 0 {
        x
    } else {
        -x
    }
}

fn find_nearest(segs: &Vec<TimeSpan>, t: i64) -> (r: usize)
    requires
        segs@.len() > 0,
    ensures
        r == nearest_start(segs@, t as int),
        r < segs@.len(),
{
    let mut best: usize = 0;
    let mut best_d = abs_diff(segs[0].start_unix_ms, t);
    let mut i: usize = 1;
    proof {
        assert(segs@.subrange(0, 1).len() == 1);
    }
    while i < segs.len()
        invariant
            1 <= i <= segs@.len(),
            best < i,
            best == nearest_start(segs@.subrange(0, i as int), t as int),
            best_d == distance(segs@[best as int].start_unix_ms as int, t as int),
        decreases segs.len() - i,
    {
        proof {
            let sub = segs@.subrange(0, i + 1);
            assert(sub.drop_last() =~= segs@.subrange(0, i as int));
            assert(sub.last() == segs@[i as int]);
            assert(sub[best as int] == segs@[best as int]);
        }
        let d = abs_diff(segs[i].start_unix_ms, t);
        if d < best_d {
            best = i;
            best_d = d;
        }
        i = i + 1;
    }
    proof {
        assert(segs@.subrange(0, i as int) =~= segs@);
    }
    best
}

/// Cut the gap `[t0, t1]` into weather buckets (one per started hour, at
/// most 24, widened for longer gaps), each naming the segment whose weather
/// it takes.
pub fn bucket_plan(segs: &Vec<TimeSpan>, t0_unix_ms: i64, t1_unix_ms: i64) -> (v: Vec<BucketPlan>)
    requires
        t1_unix_ms > t0_unix_ms ==> t1_unix_ms - t0_unix_ms <= i64::MAX / 24,
    ensures
        plan_view(v@) == bucket_plan_spec(segs@, t0_unix_ms as int, t1_unix_ms as int),
{
    let mut v: Vec<BucketPlan> = Vec::new();
    if segs.len() == 0 || t1_unix_ms <= t0_unix_ms {
        proof {
            assert(plan_view(v@) =~= bucket_plan_spec(segs@, t0_unix_ms as int, t1_unix_ms as int));
        }
        return v;
    }
    let gap = t1_unix_ms - t0_unix_ms;
    let hours = (gap + MS_PER_HOUR - 1) / MS_PER_HOUR;
    let n: i64 = if hours < 1 {
        1
    } else if hours > MAX_BUCKETS_PER_INTERVAL {
        MAX_BUCKETS_PER_INTERVAL
    } else {
        hours
    };
    let ghost spec_v = bucket_plan_spec(segs@, t0_unix_ms as int, t1_unix_ms as int);
    assert(n == bucket_count(gap as int));
    let mut i: i64 = 0;
    while i < n
        invariant
            0 <= i <= n,
            1 <= n <= 24,
            gap == t1_unix_ms - t0_unix_ms,
            0 < gap <= i64::MAX / 24,
            segs@.len() > 0,
            t1_unix_ms > t0_unix_ms,
            n == bucket_count(gap as int),
            spec_v == bucket_plan_spec(segs@, t0_unix_ms as int, t1_unix_ms as int),
            spec_v.len() == n,
            plan_view(v@) == spec_v.subrange(0, i as int),
        decreases n - i,
    {
        assert(gap * i <= gap * 24) by (nonlinear_arith)
            requires
                0 <= i <= 24,
                gap > 0,
        ;
        assert(gap * (i + 1) <= gap * 24) by (nonlinear_arith)
            requires
                0 <= i + 1 <= 24,
                gap > 0,
        ;
        assert(gap * i / (n as int) <= gap) by (nonlinear_arith)
            requires
                0 <= i <= n,
                n >= 1,
                gap > 0,
        ;
        assert(gap * (i + 1) / (n as int) <= gap) by (nonlinear_arith)
            requires
                0 <= i + 1 <= n,
                n >= 1,
                gap > 0,
        ;
        assert(gap * i / (n as int) <= gap * (i + 1) / (n as int)) by (nonlinear_arith)
            requires
                0 <= i,
                n >= 1,
                gap > 0,
        ;
        let start = t0_unix_ms + gap * i / n;
        let end = t0_unix_ms + gap * (i + 1) / n;
        let mid = start + (end - start) / 2;
        let seg = match find_covering(segs, mid) {
            Some(k) => k,
            None => find_nearest(segs, mid),
        };
        let ghost before = v@;
        v.push(BucketPlan { segment: seg, start_unix_ms: start, end_unix_ms: end });
        proof {
            assert(start as int == bucket_start(t0_unix_ms as int, gap as int, n as int, i as int));
            assert(end as int == bucket_start(t0_unix_ms as int, gap as int, n as int, i + 1));
            assert(mid as int == bucket_mid(t0_unix_ms as int, gap as int, n as int, i as int));
            assert(seg as int == bucket_segment(segs@, mid as int));
            assert(spec_v[i as int] == (seg as int, start as int, end as int));
            assert(plan_view(v@) =~= plan_view(before).push((seg as int, start as int, end as int)));
            assert(spec_v.subrange(0, i + 1) =~= spec_v.subrange(0, i as int).push(spec_v[i as int]));
            assert(mid as int == bucket_mid(t0_unix_ms as int, gap as int, n as int, i as int));
        }
        i = i + 1;
    }
    proof {
        assert(spec_v.subrange(0, n as int) =~= spec_v);
    }
    v
}

} // verus!

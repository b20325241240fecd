//! Readings recovered from the controller's history: the temperature points
//! that fall inside a circulation run, past the shared-pump warm-up, placed
//! on the daemon's clock and ordered by time.

use chrono::{Datelike, Timelike};
use vstd::prelude::*;
use crate::heat::{
    apply_history_candidate, sat_add, saturating_add_i64, HeatingBodyKind, ReliableObservation,
};

verus! {

// ── Controller time ─────────────────────────────────────────────────────

/// A reading of the controller's clock, field by field as the protocol
/// carries it.
#[derive(Debug, Clone, Copy, PartialEq, Eq, Structural)]
pub struct ControllerTime {
    pub year: u16,
    pub month: u16,
    pub day_of_week: u16,
    pub day: u16,
    pub hour: u16,
    pub minute: u16,
    pub second: u16,
    pub millisecond: u16,
}

pub open spec fn is_leap_year(year: int) -> bool {
    (year % 4 == 0 && year % 100 != 0) || year % 400 == 0
}

pub open spec fn days_in_month(year: int, month: int) -> int {
    if month == 2 {
        if is_leap_year(year) {
            29
        } else {
            28
        }
    } else if month == 4 || month == 6 || month == 9 || month == 11 {
        30
    } else {
        31
    }
}

/// Whether the fields name a day of the calendar and a time on the clock:
/// a month and a day that exist, an hour, minute and second in range, and
/// a millisecond under one second (under two on second 59, a leap second).
pub open spec fn calendar_time_valid(t: ControllerTime) -> bool {
    &&& 1 <= t.month <= 12
    &&& 1 <= t.day <= days_in_month(t.year as int, t.month as int)
    &&& t.hour < 24
    &&& t.minute < 60
    &&& t.second < 60
    &&& (t.millisecond < 1000 || (t.second == 59 && t.millisecond < 2000))
}

/// The signed milliseconds from `now` to `sample`, both read as naive
/// calendar times.
pub uninterp spec fn calendar_offset(sample: ControllerTime, now: ControllerTime) -> i64;

/// chrono: `NaiveDate::from_ymd_opt(..)` and `and_hms_milli_opt(..)` on both
/// readings, then `signed_duration_since(..).num_milliseconds()`. Claimed:
/// `Some` exactly when chrono accepts both readings (a real date and a time
/// on the clock, a leap second allowed on second 59; every `u16` year is in
/// chrono's range), and then the offset that `calendar_offset` names.
#[verifier::external_body]
fn calendar_offset_ms(sample: &ControllerTime, now: &ControllerTime) -> (r: Option<i64>)
    ensures
        r.is_some() == (calendar_time_valid(*sample) && calendar_time_valid(*now)),
        r matches Some(ms) ==> ms == calendar_offset(*sample, *now),
{
    let s = chrono::NaiveDate::from_ymd_opt(sample.year as i32, sample.month as u32, sample.day as u32)?
        .and_hms_milli_opt(sample.hour as u32, sample.minute as u32, sample.second as u32, sample.millisecond as u32)?;
    let n = chrono::NaiveDate::from_ymd_opt(now.year as i32, now.month as u32, now.day as u32)?
        .and_hms_milli_opt(now.hour as u32, now.minute as u32, now.second as u32, now.millisecond as u32)?;
    Some(s.signed_duration_since(n).num_milliseconds())
}

/// When a history reading was taken, on the daemon's clock: its offset from
/// the controller's current reading, added (saturating) to the daemon's
/// current time. `None` when either reading is no calendar time.
pub open spec fn history_time_spec(time: ControllerTime, controller_now: ControllerTime, now_unix_ms: i64) -> Option<i64> {
    if calendar_time_valid(time) && calendar_time_valid(controller_now) {
        Some(sat_add(now_unix_ms as int, calendar_offset(time, controller_now) as int) as i64)
    } else {
        None
    }
}

pub fn controller_history_time_to_unix_ms(time: &ControllerTime, controller_now: &ControllerTime, now_unix_ms: i64) -> (r: Option<i64>)
    ensures
        r == history_time_spec(*time, *controller_now, now_unix_ms),
{
    match calendar_offset_ms(time, controller_now) {
        Some(delta_ms) => Some(saturating_add_i64(now_unix_ms, delta_ms)),
        None => None,
    }
}

/// The calendar fields of the time two days (48 hours) before `t`: year,
/// month, day of the week (Sunday = 0), day, hour, minute, second and
/// millisecond; `None` when `t` is no calendar time.
pub uninterp spec fn calendar_two_days_before(t: ControllerTime) -> Option<(i32, u32, u32, u32, u32, u32, u32, u32)>;

/// chrono: the reading as a `NaiveDateTime` (`from_ymd_opt`,
/// `and_hms_milli_opt`), minus `Duration::hours(48)`, read back as `year`,
/// `month`, `weekday().num_days_from_sunday()`, `day`, `hour`, `minute`,
/// `second` and `and_utc().timestamp_subsec_millis()`. Claimed: the result
/// is `calendar_two_days_before`, `None` exactly when chrono refuses the
/// reading. The subtraction cannot leave chrono's range from a `u16` year.
#[verifier::external_body]
fn two_days_before(t: &ControllerTime) -> (r: Option<(i32, u32, u32, u32, u32, u32, u32, u32)>)
    ensures
        r == calendar_two_days_before(*t),
        r is Some <==> calendar_time_valid(*t),
{
    let dt = chrono::NaiveDate::from_ymd_opt(t.year as i32, t.month as u32, t.day as u32)?
        .and_hms_milli_opt(t.hour as u32, t.minute as u32, t.second as u32, t.millisecond as u32)?
        - chrono::Duration::hours(48);
    let ms = dt.and_utc().timestamp_subsec_millis();
    Some((dt.year(), dt.month(), dt.weekday().num_days_from_sunday(), dt.day(), dt.hour(), dt.minute(), dt.second(), ms))
}

/// Calendar fields as the protocol carries them, when each fits a `u16`.
pub open spec fn protocol_fields(f: (i32, u32, u32, u32, u32, u32, u32, u32)) -> Option<ControllerTime> {
    if 0 <= f.0 <= u16::MAX && f.1 <= u16::MAX && f.2 <= u16::MAX && f.3 <= u16::MAX && f.4 <= u16::MAX
        && f.5 <= u16::MAX && f.6 <= u16::MAX && f.7 <= u16::MAX {
        Some(
            ControllerTime {
                year: f.0 as u16,
                month: f.1 as u16,
                day_of_week: f.2 as u16,
                day: f.3 as u16,
                hour: f.4 as u16,
                minute: f.5 as u16,
                second: f.6 as u16,
                millisecond: f.7 as u16,
            },
        )
    } else {
        None
    }
}

/// Where a history backfill starts: two days before the controller's clock,
/// as protocol fields. `None` when the clock reading is no calendar time or
/// the start does not fit the protocol's fields; the backfill is then
/// skipped.
pub fn history_window_start(controller_now: &ControllerTime) -> (r: Option<ControllerTime>)
    ensures
        r == (match calendar_two_days_before(*controller_now) {
            Some(f) => protocol_fields(f),
            None => None,
        }),
        !calendar_time_valid(*controller_now) ==> r is None,
{
    match two_days_before(controller_now) {
        None => None,
        Some(f) => {
            let max: u32 = 65535;
            if 0 <= f.0 && f.0 <= 65535 && f.1 <= max && f.2 <= max && f.3 <= max && f.4 <= max && f.5 <= max
                && f.6 <= max && f.7 <= max {
                Some(
                    ControllerTime {
                        year: f.0 as u16,
                        month: f.1 as u16,
                        day_of_week: f.2 as u16,
                        day: f.3 as u16,
                        hour: f.4 as u16,
                        minute: f.5 as u16,
                        second: f.6 as u16,
                        millisecond: f.7 as u16,
                    },
                )
            } else {
                None
            }
        },
    }
}

// ── History data ────────────────────────────────────────────────────────

/// A circulation run of a body's pump, on the controller's clock.
#[derive(Debug, Clone, Copy, PartialEq, Eq, Structural)]
pub struct HistoryRun {
    pub on: ControllerTime,
    pub off: ControllerTime,
}

/// A temperature point of a body, on the controller's clock.
#[derive(Debug, Clone, Copy, PartialEq, Eq, Structural)]
pub struct HistoryPoint {
    pub time: ControllerTime,
    pub temp: i32,
}

/// What the estimator reads of the controller's history.
pub struct HistoryData {
    pub pool_temps: Vec<HistoryPoint>,
    pub pool_runs: Vec<HistoryRun>,
    pub spa_temps: Vec<HistoryPoint>,
    pub spa_runs: Vec<HistoryRun>,
}

pub open spec fn temps_of(body: HeatingBodyKind, h: &HistoryData) -> Seq<HistoryPoint> {
    match body {
        HeatingBodyKind::Pool => h.pool_temps@,
        HeatingBodyKind::Spa => h.spa_temps@,
    }
}

pub open spec fn runs_of(body: HeatingBodyKind, h: &HistoryData) -> Seq<HistoryRun> {
    match body {
        HeatingBodyKind::Pool => h.pool_runs@,
        HeatingBodyKind::Spa => h.spa_runs@,
    }
}

/// A sample at `sample` is trusted by a run when both ends of the run are
/// calendar times, the run does not end before it starts, and the sample
/// lies between the end of the warm-up after `on` (saturating) and `off`.
pub open spec fn run_contains_spec(
    run: HistoryRun,
    controller_now: ControllerTime,
    now_unix_ms: i64,
    sample: int,
    warmup_ms: int,
) -> bool {
    match (history_time_spec(run.on, controller_now, now_unix_ms), history_time_spec(run.off, controller_now, now_unix_ms)) {
        (Some(on), Some(off)) => off >= on && sample >= sat_add(on as int, warmup_ms) && sample <= off,
        _ => false,
    }
}

pub fn history_run_contains_sample(
    run: &HistoryRun,
    controller_now: &ControllerTime,
    now_unix_ms: i64,
    sample_unix_ms: i64,
    warmup_ms: i64,
) -> (b: bool)
    ensures
        b == run_contains_spec(*run, *controller_now, now_unix_ms, sample_unix_ms as int, warmup_ms as int),
{
    let on_unix_ms = match controller_history_time_to_unix_ms(&run.on, controller_now, now_unix_ms) {
        Some(v) => v,
        None => return false,
    };
    let off_unix_ms = match controller_history_time_to_unix_ms(&run.off, controller_now, now_unix_ms) {
        Some(v) => v,
        None => return false,
    };
    if off_unix_ms < on_unix_ms {
        return false;
    }
    sample_unix_ms >= saturating_add_i64(on_unix_ms, warmup_ms) && sample_unix_ms <= off_unix_ms
}

/// Some run of `runs` trusts the sample.
pub open spec fn inside_any_run(
    runs: Seq<HistoryRun>,
    controller_now: ControllerTime,
    now_unix_ms: i64,
    sample: int,
    warmup_ms: int,
) -> bool {
    exists|i: int| 0 <= i < runs.len() && #[trigger] run_contains_spec(runs[i], controller_now, now_unix_ms, sample, warmup_ms)
}

fn any_run_contains(
    runs: &Vec<HistoryRun>,
    controller_now: &ControllerTime,
    now_unix_ms: i64,
    sample_unix_ms: i64,
    warmup_ms: i64,
) -> (b: bool)
    ensures
        b == inside_any_run(runs@, *controller_now, now_unix_ms, sample_unix_ms as int, warmup_ms as int),
{
    let mut i: usize = 0;
    while i < runs.len()
        invariant
            i <= runs@.len(),
            forall|j: int| 0 <= j < i ==> !#[trigger] run_contains_spec(runs@[j], *controller_now, now_unix_ms, sample_unix_ms as int, warmup_ms as int),
        decreases runs@.len() - i,
    {
        if history_run_contains_sample(&runs[i], controller_now, now_unix_ms, sample_unix_ms, warmup_ms) {
            return true;
        }
        i = i + 1;
    }
    false
}

/// The trusted reading a point gives, if any.
pub open spec fn point_observation(
    p: HistoryPoint,
    runs: Seq<HistoryRun>,
    controller_now: ControllerTime,
    now_unix_ms: i64,
    warmup_ms: int,
) -> Option<ReliableObservation> {
    match history_time_spec(p.time, controller_now, now_unix_ms) {
        Some(t) => if inside_any_run(runs, controller_now, now_unix_ms, t as int, warmup_ms) {
            Some(ReliableObservation { temperature: p.temp, observed_at_unix_ms: t })
        } else {
            None
        },
        None => None,
    }
}

/// The trusted readings of `points`, in the points' order.
pub open spec fn observations_in_runs(
    points: Seq<HistoryPoint>,
    runs: Seq<HistoryRun>,
    controller_now: ControllerTime,
    now_unix_ms: i64,
    warmup_ms: int,
) -> Seq<ReliableObservation>
    decreases points.len(),
{
    if points.len() == 0 {
        Seq::empty()
    } else {
        let rest = observations_in_runs(points.drop_last(), runs, controller_now, now_unix_ms, warmup_ms);
        match point_observation(points.last(), runs, controller_now, now_unix_ms, warmup_ms) {
            Some(o) => rest.push(o),
            None => rest,
        }
    }
}

// ── Ordering by time ────────────────────────────────────────────────────

pub open spec fn obs_at(o: ReliableObservation) -> int {
    o.observed_at_unix_ms as int
}

pub open spec fn obs_sorted(s: Seq<ReliableObservation>) -> bool {
    forall|i: int, j: int| 0 <= i < j < s.len() ==> obs_at(s[i]) <= obs_at(s[j])
}

/// How many leading readings of `s` are not later than `t`.
pub open spec fn obs_first_after(s: Seq<ReliableObservation>, t: int) -> nat
    decreases s.len(),
{
    if s.len() == 0 {
        0
    } else if obs_at(s[0]) > t {
        0
    } else {
        1 + obs_first_after(s.drop_first(), t)
    }
}

/// `x` inserted after every reading of `s` that is not later than it.
pub open spec fn obs_insert(s: Seq<ReliableObservation>, x: ReliableObservation) -> Seq<ReliableObservation> {
    s.insert(obs_first_after(s, obs_at(x)) as int, x)
}

/// `s` ordered by time; readings with equal times keep their order.
pub open spec fn obs_sort(s: Seq<ReliableObservation>) -> Seq<ReliableObservation>
    decreases s.len(),
{
    if s.len() == 0 {
        s
    } else {
        obs_insert(obs_sort(s.drop_last()), s.last())
    }
}

proof fn lemma_obs_first_after(s: Seq<ReliableObservation>, t: int)
    ensures
        obs_first_after(s, t) <= s.len(),
        forall|j: int| 0 <= j < obs_first_after(s, t) ==> obs_at(#[trigger] s[j]) <= t,
        obs_first_after(s, t) < s.len() ==> obs_at(s[obs_first_after(s, t) as int]) > t,
    decreases s.len(),
{
    if s.len() > 0 && obs_at(s[0]) <= t {
        lemma_obs_first_after(s.drop_first(), t);
        assert forall|j: int| 0 <= j < obs_first_after(s, t) implies obs_at(#[trigger] s[j]) <= t by {
            if j > 0 {
                assert(s[j] == s.drop_first()[j - 1]);
            }
        }
        if obs_first_after(s, t) < s.len() {
            assert(s[obs_first_after(s, t) as int] == s.drop_first()[obs_first_after(s.drop_first(), t) as int]);
        }
    }
}

proof fn lemma_obs_first_after_unique(s: Seq<ReliableObservation>, t: int, k: int)
    requires
        0 <= k <= s.len(),
        forall|j: int| 0 <= j < k ==> obs_at(#[trigger] s[j]) <= t,
        k < s.len() ==> obs_at(s[k]) > t,
    ensures
        obs_first_after(s, t) == k,
    decreases s.len(),
{
    if k > 0 {
        assert(obs_at(s[0]) <= t);
        let r = s.drop_first();
        assert forall|j: int| 0 <= j < k - 1 implies obs_at(#[trigger] r[j]) <= t by {
            assert(r[j] == s[j + 1]);
        }
        if k - 1 < r.len() {
            assert(r[k - 1] == s[k]);
        }
        lemma_obs_first_after_unique(r, t, k - 1);
    }
}

proof fn lemma_obs_insert_sorted(s: Seq<ReliableObservation>, x: ReliableObservation)
    requires
        obs_sorted(s),
    ensures
        obs_sorted(obs_insert(s, x)),
        obs_insert(s, x).len() == s.len() + 1,
{
    let k = obs_first_after(s, obs_at(x)) as int;
    lemma_obs_first_after(s, obs_at(x));
    let r = obs_insert(s, x);
    assert forall|i: int, j: int| 0 <= i < j < r.len() implies obs_at(r[i]) <= obs_at(r[j]) by {
        if j < k {
            assert(r[i] == s[i] && r[j] == s[j]);
        } else if j == k {
            assert(r[j] == x);
            assert(r[i] == s[i]);
        } else if i < k {
            assert(r[i] == s[i]);
            assert(r[j] == s[j - 1]);
            if k < s.len() {
                assert(obs_at(s[k]) > obs_at(x));
                assert(obs_at(s[k]) <= obs_at(s[j - 1]));
            }
        } else if i == k {
            assert(r[i] == x);
            assert(r[j] == s[j - 1]);
            assert(obs_at(s[k]) > obs_at(x));
            if j - 1 > k {
                assert(obs_at(s[k]) <= obs_at(s[j - 1]));
            }
        } else {
            assert(r[i] == s[i - 1] && r[j] == s[j - 1]);
        }
    }
}

proof fn lemma_obs_sort_sorted(s: Seq<ReliableObservation>)
    ensures
        obs_sorted(obs_sort(s)),
        obs_sort(s).len() == s.len(),
    decreases s.len(),
{
    if s.len() > 0 {
        lemma_obs_sort_sorted(s.drop_last());
        lemma_obs_insert_sorted(obs_sort(s.drop_last()), s.last());
    }
}

/// Insert `x` after every reading of the sorted `v` that is not later.
fn insert_by_time(v: &mut Vec<ReliableObservation>, x: ReliableObservation)
    requires
        obs_sorted(old(v)@),
    ensures
        final(v)@ == obs_insert(old(v)@, x),
        obs_sorted(final(v)@),
{
    let mut k: usize = 0;
    let n = v.len();
    while k < n && v[k].observed_at_unix_ms <= x.observed_at_unix_ms
        invariant
            k <= n,
            n == v@.len(),
            v@ == old(v)@,
            forall|j: int| 0 <= j < k ==> obs_at(#[trigger] v@[j]) <= obs_at(x),
        decreases n - k,
    {
        k = k + 1;
    }
    proof {
        lemma_obs_first_after_unique(v@, obs_at(x), k as int);
        lemma_obs_insert_sorted(v@, x);
    }
    v.insert(k, x);
}

// ── Reliable readings from history ──────────────────────────────────────

/// The warm-up that a shared pump needs before a reading is trusted, in
/// milliseconds; none without a shared pump.
pub open spec fn warmup_ms_spec(pool_spa_shared_pump: bool, shared_warmup_seconds: u64) -> int {
    if pool_spa_shared_pump {
        (shared_warmup_seconds as i64) * 1000
    } else {
        0
    }
}

/// The trusted readings of a body's history, ordered by time.
pub open spec fn reliable_history_spec(
    body: HeatingBodyKind,
    history: &HistoryData,
    controller_now: ControllerTime,
    now_unix_ms: i64,
    pool_spa_shared_pump: bool,
    shared_warmup_seconds: u64,
) -> Seq<ReliableObservation> {
    obs_sort(
        observations_in_runs(
            temps_of(body, history),
            runs_of(body, history),
            controller_now,
            now_unix_ms,
            warmup_ms_spec(pool_spa_shared_pump, shared_warmup_seconds),
        ),
    )
}

/// All readings of a body's history that fall inside one of its circulation
/// runs, past the shared-pump warm-up, on the daemon's clock, ordered by
/// time (points with equal times keep their order).
pub fn reliable_history_observations_for_body(
    body: HeatingBodyKind,
    history: &HistoryData,
    controller_now: &ControllerTime,
    now_unix_ms: i64,
    pool_spa_shared_pump: bool,
    shared_warmup_seconds: u64,
) -> (v: Vec<ReliableObservation>)
    requires
        pool_spa_shared_pump ==> i64::MIN <= (shared_warmup_seconds as i64) * 1000 <= i64::MAX,
    ensures
        v@ == reliable_history_spec(body, history, *controller_now, now_unix_ms, pool_spa_shared_pump, shared_warmup_seconds),
        obs_sorted(v@),
{
    let (temps, runs) = match body {
        HeatingBodyKind::Pool => (&history.pool_temps, &history.pool_runs),
        HeatingBodyKind::Spa => (&history.spa_temps, &history.spa_runs),
    };
    let warmup_ms: i64 = if pool_spa_shared_pump {
        (shared_warmup_seconds as i64) * 1000
    } else {
        0
    };
    let ghost pts = temps@;
    let mut out: Vec<ReliableObservation> = Vec::new();
    let mut i: usize = 0;
    while i < temps.len()
        invariant
            i <= pts.len(),
            pts == temps@,
            pts == temps_of(body, history),
            runs@ == runs_of(body, history),
            warmup_ms as int == warmup_ms_spec(pool_spa_shared_pump, shared_warmup_seconds),
            out@ == obs_sort(observations_in_runs(pts.subrange(0, i as int), runs@, *controller_now, now_unix_ms, warmup_ms as int)),
            obs_sorted(out@),
        decreases pts.len() - i,
    {
        let point = temps[i];
        let ghost rest = observations_in_runs(pts.subrange(0, i as int), runs@, *controller_now, now_unix_ms, warmup_ms as int);
        proof {
            let sub = pts.subrange(0, i as int + 1);
            assert(sub.drop_last() =~= pts.subrange(0, i as int));
            assert(sub.last() == point);
        }
        match controller_history_time_to_unix_ms(&point.time, controller_now, now_unix_ms) {
            Some(sample_unix_ms) => {
                if any_run_contains(runs, controller_now, now_unix_ms, sample_unix_ms, warmup_ms) {
                    let o = ReliableObservation { temperature: point.temp, observed_at_unix_ms: sample_unix_ms };
                    proof {
                        assert(rest.push(o).drop_last() =~= rest);
                    }
                    insert_by_time(&mut out, o);
                }
            },
            None => {},
        }
        i = i + 1;
    }
    proof {
        assert(pts.subrange(0, pts.len() as int) =~= pts);
    }
    out
}

/// The newest trusted reading of a body's history: the last of the ordered
/// readings (of equally new ones, the one that came last).
pub open spec fn latest_history_spec(s: Seq<ReliableObservation>) -> Option<ReliableObservation> {
    if s.len() == 0 {
        None
    } else {
        Some(s.last())
    }
}

pub fn latest_history_observation_for_body(
    body: HeatingBodyKind,
    history: &HistoryData,
    controller_now: &ControllerTime,
    now_unix_ms: i64,
    pool_spa_shared_pump: bool,
    shared_warmup_seconds: u64,
) -> (r: Option<ReliableObservation>)
    requires
        pool_spa_shared_pump ==> i64::MIN <= (shared_warmup_seconds as i64) * 1000 <= i64::MAX,
    ensures
        r == latest_history_spec(
            reliable_history_spec(body, history, *controller_now, now_unix_ms, pool_spa_shared_pump, shared_warmup_seconds),
        ),
{
    let v = reliable_history_observations_for_body(
        body,
        history,
        controller_now,
        now_unix_ms,
        pool_spa_shared_pump,
        shared_warmup_seconds,
    );
    if v.len() == 0 {
        None
    } else {
        Some(v[v.len() - 1])
    }
}

/// The latest reading is one of the trusted readings, and none of them is
/// newer.
pub proof fn lemma_latest_is_newest(points: Seq<HistoryPoint>, runs: Seq<HistoryRun>, controller_now: ControllerTime, now_unix_ms: i64, warmup_ms: int)
    ensures
        ({
            let obs = observations_in_runs(points, runs, controller_now, now_unix_ms, warmup_ms);
            let s = obs_sort(obs);
            &&& latest_history_spec(s) is None <==> obs.len() == 0
            &&& latest_history_spec(s) matches Some(l) ==> s.contains(l)
                && forall|i: int| 0 <= i < s.len() ==> obs_at(#[trigger] s[i]) <= obs_at(l)
        }),
{
    let obs = observations_in_runs(points, runs, controller_now, now_unix_ms, warmup_ms);
    lemma_obs_sort_sorted(obs);
    let s = obs_sort(obs);
    if s.len() > 0 {
        assert(s[s.len() - 1] == s.last());
    }
}

/// Seeds both bodies' stored readings from the controller's history: each
/// takes its body's newest trusted history reading when that is newer than
/// what it holds. Reports whether either changed (and so is to be saved).
pub fn seed_last_reliable_from_controller_history(
    pool_slot: &mut Option<ReliableObservation>,
    spa_slot: &mut Option<ReliableObservation>,
    history: &HistoryData,
    controller_now: &ControllerTime,
    now_unix_ms: i64,
    pool_spa_shared_pump: bool,
    shared_warmup_seconds: u64,
) -> (changed: bool)
    requires
        pool_spa_shared_pump ==> i64::MIN <= (shared_warmup_seconds as i64) * 1000 <= i64::MAX,
    ensures
        ({
            let pool = latest_history_spec(
                reliable_history_spec(HeatingBodyKind::Pool, history, *controller_now, now_unix_ms, pool_spa_shared_pump, shared_warmup_seconds),
            );
            let spa = latest_history_spec(
                reliable_history_spec(HeatingBodyKind::Spa, history, *controller_now, now_unix_ms, pool_spa_shared_pump, shared_warmup_seconds),
            );
            &&& *final(pool_slot) == taken_if_newer(*old(pool_slot), pool)
            &&& *final(spa_slot) == taken_if_newer(*old(spa_slot), spa)
            &&& changed == (newer_than(*old(pool_slot), pool) || newer_than(*old(spa_slot), spa))
        }),
{
    let pool_candidate = latest_history_observation_for_body(
        HeatingBodyKind::Pool,
        history,
        controller_now,
        now_unix_ms,
        pool_spa_shared_pump,
        shared_warmup_seconds,
    );
    let spa_candidate = latest_history_observation_for_body(
        HeatingBodyKind::Spa,
        history,
        controller_now,
        now_unix_ms,
        pool_spa_shared_pump,
        shared_warmup_seconds,
    );
    let pool_changed = apply_history_candidate(pool_slot, pool_candidate);
    let spa_changed = apply_history_candidate(spa_slot, spa_candidate);
    pool_changed || spa_changed
}

/// Whether a candidate reading is newer than the stored one.
pub open spec fn newer_than(stored: Option<ReliableObservation>, candidate: Option<ReliableObservation>) -> bool {
    candidate matches Some(c) && match stored {
        Some(e) => c.observed_at_unix_ms > e.observed_at_unix_ms,
        None => true,
    }
}

/// The stored reading after a candidate is offered.
pub open spec fn taken_if_newer(stored: Option<ReliableObservation>, candidate: Option<ReliableObservation>) -> Option<ReliableObservation> {
    if newer_than(stored, candidate) {
        candidate
    } else {
        stored
    }
}

} // verus!

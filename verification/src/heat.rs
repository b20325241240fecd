//! The bookkeeping of the heat estimator that needs no physics: when a body's
//! temperature can be trusted on shared equipment, how long the sensor
//! warm-up still runs, when a body's circulation run started and ended, which
//! recorded spans overlap a sensing gap, the bounded history logs, when a
//! calibration refit is due, and how a heating session moves on each update.

use vstd::prelude::*;
use crate::text::{chars_contain, chars_of};

verus! {

/// Which body of water.
#[derive(Debug, Clone, Copy, PartialEq, Eq, Structural)]
pub enum HeatingBodyKind {
    Pool,
    Spa,
}

/// Whether a temperature unit label is Celsius.
pub fn uses_celsius(temp_unit: &str) -> (b: bool)
    ensures
        b == temp_unit@.contains('C'),
{
    let cs = chars_of(temp_unit);
    chars_contain(&cs, 'C')
}

/// Milliseconds since the Unix epoch from `SystemTime::now()` (0 before the
/// epoch). Nothing is stated of the value: it is the time.
#[verifier::external_body]
pub fn unix_time_ms() -> i64 {
    std::time::SystemTime::now().duration_since(std::time::UNIX_EPOCH).unwrap_or_default().as_millis() as i64
}

// ── Trusting a reading ──────────────────────────────────────────────────

/// Whether a body's reading is trusted, and why not.
#[derive(Debug, Clone, Copy, PartialEq, Eq)]
pub struct TemperatureTrust {
    pub reliable: bool,
    pub reason: Option<&'static str>,
}

/// On shared equipment the sensor reads the water only while the body is
/// on, has flow, and has run past the warm-up; a dedicated body always reads
/// its own water.
pub open spec fn trust_spec(
    shared_pump: bool,
    on: bool,
    active: bool,
    warmup_ms: int,
    active_since: Option<i64>,
    now: int,
) -> (bool, Option<Seq<char>>) {
    if !shared_pump {
        (true, None)
    } else if !on {
        (false, Some("inactive-shared-body"@))
    } else if !active {
        (false, Some("waiting-for-flow"@))
    } else if warmup_ms > 0 && (match active_since {
        Some(since) => now - since < warmup_ms,
        None => false,
    }) {
        (false, Some("sensor-warmup"@))
    } else {
        (true, None)
    }
}

pub open spec fn trust_view(t: TemperatureTrust) -> (bool, Option<Seq<char>>) {
    (
        t.reliable,
        match t.reason {
            Some(r) => Some(r@),
            None => None,
        },
    )
}

/// The warm-up in milliseconds, for a setting in seconds.
pub open spec fn warmup_ms_of(warmup_secs: u64) -> int {
    warmup_secs * 1000
}

/// Numbers that fit the millisecond arithmetic on `i64`.
pub open spec fn warmup_fits(warmup_secs: u64) -> bool {
    warmup_secs * 1000 <= i64::MAX
}

/// Whether a reading taken at `now` can be trusted.
pub fn temperature_trust(
    shared_pump: bool,
    on: bool,
    active: bool,
    warmup_secs: u64,
    active_since: Option<i64>,
    now_unix_ms: i64,
) -> (t: TemperatureTrust)
    requires
        warmup_fits(warmup_secs),
        active_since matches Some(s) ==> i64::MIN <= now_unix_ms - s <= i64::MAX,
    ensures
        trust_view(t) == trust_spec(
            shared_pump,
            on,
            active,
            warmup_ms_of(warmup_secs),
            active_since,
            now_unix_ms as int,
        ),
{
    if !shared_pump {
        return TemperatureTrust { reliable: true, reason: None };
    }
    if !on {
        return TemperatureTrust { reliable: false, reason: Some("inactive-shared-body") };
    }
    if !active {
        return TemperatureTrust { reliable: false, reason: Some("waiting-for-flow") };
    }
    let warmup_ms: i64 = warmup_secs as i64 * 1000;
    if warmup_ms > 0 {
        match active_since {
            Some(since) => {
                if now_unix_ms - since < warmup_ms {
                    return TemperatureTrust { reliable: false, reason: Some("sensor-warmup") };
                }
            },
            None => {},
        }
    }
    TemperatureTrust { reliable: true, reason: None }
}

/// Seconds (rounded up) until the warm-up ends, while a shared body warms up.
pub open spec fn warmup_remaining_spec(
    shared_pump: bool,
    on: bool,
    active: bool,
    warmup_ms: int,
    active_since: Option<i64>,
    now: int,
) -> Option<int> {
    if !shared_pump || !on || !active || warmup_ms <= 0 {
        None
    } else {
        match active_since {
            None => None,
            Some(since) => if now - since >= warmup_ms {
                None
            } else {
                Some((warmup_ms - (now - since) + 999) / 1000)
            },
        }
    }
}

pub fn warmup_remaining_seconds(
    shared_pump: bool,
    on: bool,
    active: bool,
    warmup_secs: u64,
    active_since: Option<i64>,
    now_unix_ms: i64,
) -> (r: Option<u32>)
    requires
        warmup_fits(warmup_secs),
        active_since matches Some(s) ==> i64::MIN <= now_unix_ms - s <= i64::MAX && warmup_ms_of(
            warmup_secs,
        ) - (now_unix_ms - s) + 999 <= i64::MAX,
    ensures
        match warmup_remaining_spec(
            shared_pump,
            on,
            active,
            warmup_ms_of(warmup_secs),
            active_since,
            now_unix_ms as int,
        ) {
            Some(v) => r == Some(v as u32),
            None => r is None,
        },
{
    if !shared_pump || !on || !active {
        return None;
    }
    let warmup_ms: i64 = warmup_secs as i64 * 1000;
    if warmup_ms <= 0 {
        return None;
    }
    let since = match active_since {
        Some(s) => s,
        None => {
            return None;
        },
    };
    let elapsed = now_unix_ms - since;
    if elapsed >= warmup_ms {
        return None;
    }
    let remaining = warmup_ms - elapsed;
    Some(((remaining + 999) / 1000) as u32)
}

// ── Circulation runs ────────────────────────────────────────────────────

/// A recorded on-to-off span of a body's circulation.
#[derive(Debug, Clone, Copy, PartialEq, Eq, Structural)]
pub struct ActivityWindow {
    pub body: HeatingBodyKind,
    pub start_unix_ms: i64,
    pub end_unix_ms: i64,
}

/// What the estimator knows of a body's run: since when it is active, and
/// whether it was active at the last look (`None` when the body was not
/// seen).
#[derive(Debug, Clone, Copy, PartialEq, Eq, Structural)]
pub struct ActivityTracker {
    pub active_since_unix_ms: Option<i64>,
    pub last_active_observed: Option<bool>,
}

/// `a - b` on `i64`, cut at its ends.
pub open spec fn sat_sub(a: int, b: int) -> int {
    if a - b < i64::MIN {
        i64::MIN as int
    } else if a - b > i64::MAX {
        i64::MAX as int
    } else {
        a - b
    }
}

/// One look at a body (`seen` is `None` when the body is absent, else whether
/// it is active): the tracker after it, and the run that ended, if one did.
/// A body first seen already active is taken as warmed up.
pub open spec fn activity_step(
    t: ActivityTracker,
    body: HeatingBodyKind,
    seen: Option<bool>,
    now: int,
    warmup_ms: int,
) -> (ActivityTracker, Option<ActivityWindow>) {
    match seen {
        Some(true) => {
            let since = if t.last_active_observed == Some(false) {
                Some(now as i64)
            } else if t.active_since_unix_ms is None {
                Some(sat_sub(now, if warmup_ms > 0 { warmup_ms } else { 0 }) as i64)
            } else {
                t.active_since_unix_ms
            };
            (ActivityTracker { active_since_unix_ms: since, last_active_observed: Some(true) }, None)
        },
        Some(false) => {
            let ended = if t.last_active_observed == Some(true) {
                Some(
                    ActivityWindow {
                        body,
                        start_unix_ms: match t.active_since_unix_ms {
                            Some(s) => s,
                            None => now as i64,
                        },
                        end_unix_ms: now as i64,
                    },
                )
            } else {
                None
            };
            (ActivityTracker { active_since_unix_ms: None, last_active_observed: Some(false) }, ended)
        },
        None => (ActivityTracker { active_since_unix_ms: None, last_active_observed: None }, None),
    }
}

pub(crate) fn saturating_sub_i64(a: i64, b: i64) -> (r: i64)
    ensures
        r == sat_sub(a as int, b as int),
{
    match a.checked_sub(b) {
        Some(v) => v,
        None => if b > 0 {
            i64::MIN
        } else {
            i64::MAX
        },
    }
}

impl ActivityTracker {
    pub fn new() -> (t: Self)
        ensures
            t.active_since_unix_ms is None,
            t.last_active_observed is None,
    {
        ActivityTracker { active_since_unix_ms: None, last_active_observed: None }
    }

    /// Take one look at `body`; returns the run that ended, if one did.
    pub fn observe(&mut self, body: HeatingBodyKind, seen: Option<bool>, now_unix_ms: i64, warmup_ms: i64) -> (w: Option<ActivityWindow>)
        ensures
            (*final(self), w) == activity_step(*old(self), body, seen, now_unix_ms as int, warmup_ms as int),
    {
        match seen {
            Some(true) => {
                if self.last_active_observed == Some(false) {
                    self.active_since_unix_ms = Some(now_unix_ms);
                } else if self.active_since_unix_ms.is_none() {
                    let w = if warmup_ms > 0 {
                        warmup_ms
                    } else {
                        0
                    };
                    self.active_since_unix_ms = Some(saturating_sub_i64(now_unix_ms, w));
                }
                self.last_active_observed = Some(true);
                None
            },
            Some(false) => {
                let ended = if self.last_active_observed == Some(true) {
                    let start = match self.active_since_unix_ms {
                        Some(s) => s,
                        None => now_unix_ms,
                    };
                    Some(ActivityWindow { body, start_unix_ms: start, end_unix_ms: now_unix_ms })
                } else {
                    None
                };
                self.active_since_unix_ms = None;
                self.last_active_observed = Some(false);
                ended
            },
            None => {
                self.active_since_unix_ms = None;
                self.last_active_observed = None;
                None
            },
        }
    }
}

/// A run is recorded exactly once, when the body goes from active to off;
/// an active body always has a start time, an off or absent one none.
pub proof fn lemma_activity_windows_on_off_edge(
    t: ActivityTracker,
    body: HeatingBodyKind,
    seen: Option<bool>,
    now: int,
    warmup_ms: int,
)
    requires
        i64::MIN <= now <= i64::MAX,
    ensures
        activity_step(t, body, seen, now, warmup_ms).1 is Some <==> (seen == Some(false)
            && t.last_active_observed == Some(true)),
        seen == Some(true) ==> activity_step(t, body, seen, now, warmup_ms).0.active_since_unix_ms is Some,
        seen != Some(true) ==> activity_step(t, body, seen, now, warmup_ms).0.active_since_unix_ms is None,
        activity_step(t, body, seen, now, warmup_ms).0.last_active_observed == seen,
{
}

// ── Bounded logs ────────────────────────────────────────────────────────

/// The newest `cap` entries of `s` (all of them when there are fewer).
pub open spec fn newest<T>(s: Seq<T>, cap: nat) -> Seq<T> {
    if s.len() > cap {
        s.subrange(s.len() - cap, s.len() as int)
    } else {
        s
    }
}

/// Append `x` to a log kept to its newest `cap` entries.
pub fn push_bounded<T>(log: &mut Vec<T>, x: T, cap: usize)
    ensures
        final(log)@ == newest(old(log)@.push(x), cap as nat),
{
    log.push(x);
    let ghost s = log@;
    let ghost mut dropped: int = 0;
    while log.len() > cap
        invariant
            0 <= dropped <= s.len(),
            log@ == s.subrange(dropped, s.len() as int),
            s.len() > cap ==> dropped <= s.len() - cap,
            s.len() <= cap ==> dropped == 0,
        decreases log.len(),
    {
        let _ = log.remove(0);
        proof {
            dropped = dropped + 1;
            assert(log@ =~= s.subrange(dropped, s.len() as int));
        }
    }
    proof {
        if s.len() <= cap {
            assert(log@ =~= s);
        }
    }
}

/// A bounded log never grows past its cap and always ends with the newest
/// entry.
pub proof fn lemma_bounded_log<T>(s: Seq<T>, x: T, cap: nat)
    requires
        cap > 0,
    ensures
        newest(s.push(x), cap).len() <= cap,
        newest(s.push(x), cap).last() == x,
        s.len() < cap ==> newest(s.push(x), cap) == s.push(x),
{
}

pub const MAX_RECENT_SESSIONS: usize = 24;

pub const MAX_ACTIVITY_WINDOWS: usize = 200;

pub const MAX_INTERVALS_PER_BODY: usize = 200;

pub const MAX_MAE_POINTS: usize = 100;

// ── Overlaps with a sensing gap ─────────────────────────────────────────

/// A span of some body's activity (a circulation run or a heating session).
#[derive(Debug, Clone, Copy, PartialEq, Eq, Structural)]
pub struct BodySpan {
    pub body: HeatingBodyKind,
    pub start_unix_ms: i64,
    pub end_unix_ms: i64,
}

pub open spec fn span_overlaps(s: BodySpan, body: HeatingBodyKind, gap_start: int, gap_end: int) -> bool {
    s.body == body && s.start_unix_ms < gap_end && s.end_unix_ms > gap_start
}

/// Whether any recorded span of `body` overlaps the gap `(gap_start,
/// gap_end)`: such a gap was not idle end to end.
pub fn any_overlap(spans: &Vec<BodySpan>, body: HeatingBodyKind, gap_start: i64, gap_end: i64) -> (b: bool)
    ensures
        b == exists|i: int| 0 <= i < spans@.len() && span_overlaps(#[trigger] spans@[i], body, gap_start as int, gap_end as int),
{
    let mut i: usize = 0;
    while i < spans.len()
        invariant
            i <= spans@.len(),
            forall|j: int| 0 <= j < i ==> !span_overlaps(#[trigger] spans@[j], body, gap_start as int, gap_end as int),
        decreases spans.len() - i,
    {
        let s = spans[i];
        if s.body == body && s.start_unix_ms < gap_end && s.end_unix_ms > gap_start {
            assert(span_overlaps(spans@[i as int], body, gap_start as int, gap_end as int));
            return true;
        }
        i = i + 1;
    }
    false
}

// ── Reliable readings ───────────────────────────────────────────────────

/// A trusted reading and when it was taken.
#[derive(Debug, Clone, Copy, PartialEq, Eq, Structural)]
pub struct ReliableObservation {
    pub temperature: i32,
    pub observed_at_unix_ms: i64,
}

/// How often an unchanged reading is written back, in milliseconds.
pub const LAST_RELIABLE_PERSIST_INTERVAL_MS: i64 = 60_000;

/// A new reading is written to disk unless it repeats the stored one within
/// a minute.
pub open spec fn should_persist_spec(previous: Option<ReliableObservation>, next: ReliableObservation) -> bool {
    match previous {
        Some(p) => !(p.temperature == next.temperature && next.observed_at_unix_ms - p.observed_at_unix_ms
            < LAST_RELIABLE_PERSIST_INTERVAL_MS),
        None => true,
    }
}

pub fn should_persist_reading(previous: Option<ReliableObservation>, next: ReliableObservation) -> (b: bool)
    requires
        previous matches Some(p) ==> i64::MIN <= next.observed_at_unix_ms - p.observed_at_unix_ms
            <= i64::MAX,
    ensures
        b == should_persist_spec(previous, next),
{
    match previous {
        Some(p) => !(p.temperature == next.temperature && next.observed_at_unix_ms - p.observed_at_unix_ms
            < LAST_RELIABLE_PERSIST_INTERVAL_MS),
        None => true,
    }
}

/// A reading recovered from controller history replaces the stored one only
/// when it is newer. Reports whether it did.
pub fn apply_history_candidate(slot: &mut Option<ReliableObservation>, candidate: Option<ReliableObservation>) -> (updated: bool)
    ensures
        updated == (candidate matches Some(c) && match *old(slot) {
            Some(e) => c.observed_at_unix_ms > e.observed_at_unix_ms,
            None => true,
        }),
        updated ==> *final(slot) == candidate,
        !updated ==> *final(slot) == *old(slot),
{
    match candidate {
        None => false,
        Some(c) => {
            let newer = match *slot {
                Some(e) => c.observed_at_unix_ms > e.observed_at_unix_ms,
                None => true,
            };
            if newer {
                *slot = Some(c);
            }
            newer
        },
    }
}

/// The stored reading's time never goes back when history is applied.
pub proof fn lemma_history_never_rewinds(
    before: Option<ReliableObservation>,
    candidate: ReliableObservation,
    after: Option<ReliableObservation>,
)
    requires
        before matches Some(b) && candidate.observed_at_unix_ms > b.observed_at_unix_ms ==> after == Some(candidate),
        before matches Some(b) && candidate.observed_at_unix_ms <= b.observed_at_unix_ms ==> after == before,
        before is None ==> after == Some(candidate),
    ensures
        after is Some,
        before matches Some(b) ==> after->0.observed_at_unix_ms >= b.observed_at_unix_ms,
{
}

/// `a + b` on `i64`, cut at its ends.
pub open spec fn sat_add(a: int, b: int) -> int {
    if a + b < i64::MIN {
        i64::MIN as int
    } else if a + b > i64::MAX {
        i64::MAX as int
    } else {
        a + b
    }
}

pub(crate) fn saturating_add_i64(a: i64, b: i64) -> (r: i64)
    ensures
        r == sat_add(a as int, b as int),
{
    match a.checked_add(b) {
        Some(v) => v,
        None => if b > 0 {
            i64::MAX
        } else {
            i64::MIN
        },
    }
}

// ── Heating sessions ────────────────────────────────────────────────────

/// What an update does to a body's heating session.
#[derive(Debug, Clone, Copy, PartialEq, Eq, Structural)]
pub enum SessionStep {
    /// Nothing to do.
    Idle,
    /// Start a session with this reading.
    Start,
    /// Add this reading to the session.
    Record,
    /// Add this reading, then close the session.
    RecordAndFinish,
    /// Close the session.
    Finish,
}

/// A session is tracked while the body is on, has flow, heats (mode not
/// off) and is below its setpoint, with a trusted reading.
pub open spec fn should_track_spec(trusted: bool, on: bool, active: bool, heat_mode_off: bool, below_setpoint: bool) -> bool {
    trusted && on && active && !heat_mode_off && below_setpoint
}

pub open spec fn session_step_spec(
    has_session: bool,
    seen: bool,
    trusted: bool,
    on: bool,
    active: bool,
    heat_mode_off: bool,
    below_setpoint: bool,
) -> SessionStep {
    let track = seen && should_track_spec(trusted, on, active, heat_mode_off, below_setpoint);
    if has_session {
        if track {
            SessionStep::Record
        } else if seen && trusted && on && active {
            SessionStep::RecordAndFinish
        } else {
            SessionStep::Finish
        }
    } else if track {
        SessionStep::Start
    } else {
        SessionStep::Idle
    }
}

/// How an update moves a body's heating session. `seen` is whether the body
/// appears in the update at all.
pub fn session_step(
    has_session: bool,
    seen: bool,
    trusted: bool,
    on: bool,
    active: bool,
    heat_mode_off: bool,
    below_setpoint: bool,
) -> (s: SessionStep)
    ensures
        s == session_step_spec(has_session, seen, trusted, on, active, heat_mode_off, below_setpoint),
{
    let track = seen && trusted && on && active && !heat_mode_off && below_setpoint;
    if has_session {
        if track {
            SessionStep::Record
        } else if seen && trusted && on && active {
            SessionStep::RecordAndFinish
        } else {
            SessionStep::Finish
        }
    } else if track {
        SessionStep::Start
    } else {
        SessionStep::Idle
    }
}

/// A session is only ever started while it should be tracked, and once
/// tracking stops it is closed on that same update.
pub proof fn lemma_session_lifecycle(
    has_session: bool,
    seen: bool,
    trusted: bool,
    on: bool,
    active: bool,
    heat_mode_off: bool,
    below_setpoint: bool,
)
    ensures
        session_step_spec(has_session, seen, trusted, on, active, heat_mode_off, below_setpoint)
            == SessionStep::Start ==> !has_session && seen && should_track_spec(
            trusted,
            on,
            active,
            heat_mode_off,
            below_setpoint,
        ),
        has_session && !(seen && should_track_spec(trusted, on, active, heat_mode_off, below_setpoint))
            ==> (session_step_spec(has_session, seen, trusted, on, active, heat_mode_off, below_setpoint)
            == SessionStep::Finish || session_step_spec(
            has_session,
            seen,
            trusted,
            on,
            active,
            heat_mode_off,
            below_setpoint,
        ) == SessionStep::RecordAndFinish),
{
}

// ── Estimate display ────────────────────────────────────────────────────

/// How an ETA is shown: ready, pending (with why, and for a warm-up how long
/// it still runs), or unavailable (with why).
#[derive(Debug, Clone, Copy, PartialEq, Eq)]
pub enum DisplayState {
    Ready,
    Pending,
    Unavailable,
}

/// The display state of an estimate: `None` when no estimate is configured,
/// else whether it is available and its reason.
pub open spec fn display_state_spec(estimate: Option<(bool, Seq<char>)>) -> (DisplayState, Option<Seq<char>>) {
    match estimate {
        None => (DisplayState::Unavailable, Some("not-configured"@)),
        Some((available, reason)) => if available {
            (DisplayState::Ready, None)
        } else if reason == "sensor-warmup"@ || reason == "insufficient-data"@ {
            (DisplayState::Pending, Some(reason))
        } else {
            (DisplayState::Unavailable, Some(reason))
        },
    }
}

pub fn display_state(estimate: Option<(bool, &str)>) -> (r: (DisplayState, Option<String>))
    ensures
        (r.0, crate::text::opt_text(r.1)) == display_state_spec(
            match estimate {
                Some((a, s)) => Some((a, s@)),
                None => None,
            },
        ),
{
    match estimate {
        None => (DisplayState::Unavailable, Some(crate::text::owned("not-configured"))),
        Some((available, reason)) => {
            if available {
                (DisplayState::Ready, None)
            } else if crate::text::str_eq(reason, "sensor-warmup") || crate::text::str_eq(
                reason,
                "insufficient-data",
            ) {
                (DisplayState::Pending, Some(crate::text::owned(reason)))
            } else {
                (DisplayState::Unavailable, Some(crate::text::owned(reason)))
            }
        },
    }
}


// ── Heat-up estimates ───────────────────────────────────────────────────

pub open spec fn str_opt(o: Option<&str>) -> Option<Seq<char>> {
    match o {
        Some(s) => Some(s@),
        None => None,
    }
}

/// Why no heat-up estimate is given, checked in order: the body is off, its
/// heat mode is off, its reading is not trusted (with the trust's reason),
/// it has no flow, or it is already at its setpoint. `None`: estimate.
pub open spec fn estimate_gate_spec(
    on: bool,
    heat_mode_off: bool,
    trust: (bool, Option<Seq<char>>),
    active: bool,
    setpoint: int,
    temperature: int,
) -> Option<Seq<char>> {
    if !on {
        Some("not-heating"@)
    } else if heat_mode_off {
        Some("heat-off"@)
    } else if !trust.0 {
        match trust.1 {
            Some(r) => Some(r),
            None => Some("temperature-unreliable"@),
        }
    } else if !active {
        Some("waiting-for-flow"@)
    } else if setpoint <= temperature {
        Some("at-temp"@)
    } else {
        None
    }
}

pub fn estimate_gate(
    on: bool,
    heat_mode_off: bool,
    trust: &TemperatureTrust,
    active: bool,
    setpoint: i32,
    temperature: i32,
) -> (r: Option<&'static str>)
    ensures
        str_opt(r) == estimate_gate_spec(on, heat_mode_off, trust_view(*trust), active, setpoint as int, temperature as int),
{
    if !on {
        Some("not-heating")
    } else if heat_mode_off {
        Some("heat-off")
    } else if !trust.reliable {
        match trust.reason {
            Some(r) => Some(r),
            None => Some("temperature-unreliable"),
        }
    } else if !active {
        Some("waiting-for-flow")
    } else if setpoint <= temperature {
        Some("at-temp")
    } else {
        None
    }
}

/// Where the heating rate of an estimate comes from, and how much it is
/// trusted: a running session's observed rate blended with a baseline
/// (high confidence once the session has run long enough), the observed
/// rate alone, the learned rate, the configured rate, or none.
pub open spec fn rate_source_spec(observed: bool, learned: bool, configured: bool, evidence_high: bool) -> (Seq<char>, Seq<char>) {
    if observed && (learned || configured) {
        ("blended"@, if evidence_high { "high"@ } else { "medium"@ })
    } else if observed {
        ("observed"@, "medium"@)
    } else if learned {
        ("learned"@, "medium"@)
    } else if configured {
        ("configured"@, "low"@)
    } else {
        ("none"@, "none"@)
    }
}

pub fn rate_source(observed: bool, learned: bool, configured: bool, evidence_high: bool) -> (r: (&'static str, &'static str))
    ensures
        (r.0@, r.1@) == rate_source_spec(observed, learned, configured, evidence_high),
{
    if observed && (learned || configured) {
        ("blended", if evidence_high { "high" } else { "medium" })
    } else if observed {
        ("observed", "medium")
    } else if learned {
        ("learned", "medium")
    } else if configured {
        ("configured", "low")
    } else {
        ("none", "none")
    }
}

/// Why there is no usable rate: not enough data while the heater has not
/// run (or is unknown), else missing configuration.
pub fn missing_rate_reason(heating: &str) -> (r: &'static str)
    ensures
        r@ == (if heating@ == "off"@ || heating@ == "unknown"@ {
            "insufficient-data"@
        } else {
            "missing-config"@
        }),
{
    if crate::text::str_eq(heating, "off") || crate::text::str_eq(heating, "unknown") {
        "insufficient-data"
    } else {
        "missing-config"
    }
}

/// How a body's temperature is shown.
#[derive(Debug, Clone, PartialEq, Eq)]
pub struct TemperatureDisplay {
    /// The live reading when trusted, else the last trusted one.
    pub value: Option<i32>,
    pub is_stale: bool,
    pub stale_reason: Option<String>,
    pub last_reliable_at_unix_ms: Option<i64>,
    pub is_predicted: bool,
}

pub fn temperature_display(
    temperature: i32,
    reliable: bool,
    reason: Option<&str>,
    last_reliable: Option<i32>,
    last_reliable_at_unix_ms: Option<i64>,
    predicted: bool,
) -> (d: TemperatureDisplay)
    ensures
        d.value == (if reliable {
            Some(temperature)
        } else {
            last_reliable
        }),
        d.is_stale == !reliable,
        crate::text::opt_text(d.stale_reason) == str_opt(reason),
        d.last_reliable_at_unix_ms == last_reliable_at_unix_ms,
        d.is_predicted == predicted,
{
    TemperatureDisplay {
        value: if reliable {
            Some(temperature)
        } else {
            last_reliable
        },
        is_stale: !reliable,
        stale_reason: match reason {
            Some(r) => Some(crate::text::owned(r)),
            None => None,
        },
        last_reliable_at_unix_ms,
        is_predicted: predicted,
    }
}

/// An estimate is only given for a body that heats toward a setpoint above
/// its trusted, flowing reading.
pub proof fn lemma_estimate_needs_trusted_heating(
    on: bool,
    heat_mode_off: bool,
    trust: (bool, Option<Seq<char>>),
    active: bool,
    setpoint: int,
    temperature: int,
)
    requires
        estimate_gate_spec(on, heat_mode_off, trust, active, setpoint, temperature) is None,
    ensures
        on && !heat_mode_off && trust.0 && active && setpoint > temperature,
{
}

} // verus!

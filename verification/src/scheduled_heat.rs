//! "Have the spa ready by 7pm": parsing the ready-by time, choosing the day
//! it falls on, working back to the moment heating has to start, the
//! schedule slot the daemon keeps, and what happens when its timer fires or
//! the daemon restarts with a schedule on disk.

use vstd::prelude::*;
use crate::text::{int_text, opt_text, owned, push_int};

verus! {

// ── Times of day ────────────────────────────────────────────────────────

/// A wall-clock time of day read from an `HH:MM` string.
#[derive(Debug, Clone, Copy, PartialEq, Eq, Structural)]
pub struct ClockTime {
    pub hour: u32,
    pub minute: u32,
}

impl ClockTime {
    pub fn hour(&self) -> (h: u32)
        ensures
            h == self.hour,
    {
        self.hour
    }

    pub fn minute(&self) -> (m: u32)
        ensures
            m == self.minute,
    {
        self.minute
    }
}

/// What `chrono::NaiveTime::parse_from_str(s, "%H:%M")` yields for the text
/// `s`: the parsed hour and minute, or the display text of its parse error.
pub uninterp spec fn chrono_hm_parse(s: Seq<char>) -> Result<(u32, u32), Seq<char>>;

/// Calls `chrono::NaiveTime::parse_from_str(s, "%H:%M")` and reads the hour
/// and minute of the result, or the error's display text. The outcome is
/// named by `chrono_hm_parse`; a `NaiveTime` always has an hour below 24 and
/// a minute below 60 (chrono's `Timelike::hour` / `minute` documentation).
#[verifier::external_body]
fn chrono_parse_hm(s: &str) -> (r: Result<(u32, u32), String>)
    ensures
        match r {
            Ok(p) => chrono_hm_parse(s@) == Ok::<(u32, u32), Seq<char>>(p) && p.0 < 24 && p.1 < 60,
            Err(e) => chrono_hm_parse(s@) == Err::<(u32, u32), Seq<char>>(e@),
        },
{
    match chrono::NaiveTime::parse_from_str(s, "%H:%M") {
        Ok(t) => Ok((chrono::Timelike::hour(&t), chrono::Timelike::minute(&t))),
        Err(e) => Err(e.to_string()),
    }
}

/// The error text for an unparsable ready-by time.
pub open spec fn invalid_time_text(s: Seq<char>, reason: Seq<char>) -> Seq<char> {
    "invalid time '"@ + s + "': "@ + reason
}

/// What a time parse of `s` that came out as `parsed` means for the caller.
pub open spec fn time_from_parse_spec(
    s: Seq<char>,
    parsed: Result<(u32, u32), Seq<char>>,
) -> Result<ClockTime, Seq<char>> {
    match parsed {
        Ok(p) => Ok(ClockTime { hour: p.0, minute: p.1 }),
        Err(e) => Err(invalid_time_text(s, e)),
    }
}

/// The outcome of parsing `s` as a ready-by time.
pub open spec fn time_parse_outcome(s: Seq<char>) -> Result<ClockTime, Seq<char>> {
    time_from_parse_spec(s, chrono_hm_parse(s))
}

/// A result whose error is a `String`, with the error taken as text.
pub open spec fn time_result_view(r: Result<ClockTime, String>) -> Result<ClockTime, Seq<char>> {
    match r {
        Ok(t) => Ok(t),
        Err(e) => Err(e@),
    }
}

/// Turn the raw parse of `s` into a time, or the caller-facing error text.
pub fn time_from_parse(s: &str, parsed: Result<(u32, u32), String>) -> (r: Result<ClockTime, String>)
    ensures
        time_result_view(r) == time_from_parse_spec(
            s@,
            match parsed {
                Ok(p) => Ok(p),
                Err(e) => Err(e@),
            },
        ),
{
    match parsed {
        Ok((h, m)) => Ok(ClockTime { hour: h, minute: m }),
        Err(e) => {
            proof {
                reveal_strlit("invalid time '");
                reveal_strlit("': ");
            }
            let mut t = owned("invalid time '");
            t.append(s);
            t.append("': ");
            t.append(e.as_str());
            Err(t)
        },
    }
}

/// Parse a `"HH:MM"` ready-by time (24-hour clock).
pub fn parse_time(s: &str) -> (r: Result<ClockTime, String>)
    ensures
        time_result_view(r) == time_parse_outcome(s@),
        r matches Ok(t) ==> t.hour < 24 && t.minute < 60,
{
    let parsed = chrono_parse_hm(s);
    time_from_parse(s, parsed)
}

// ── The day a ready-by time falls on ───────────────────────────────────

/// The machine's wall clock at one instant: the instant itself, and the
/// local calendar day (days since 0001-01-01, counted from 1) and second of
/// that day.
pub struct LocalClock {
    pub unix_ms: i64,
    pub day: i32,
    pub secs_of_day: u32,
}

/// Milliseconds from the epoch to second `secs` of day `day` (days since
/// 0001-01-01 counted from 1, as chrono's `num_days_from_ce`; 1970-01-01 is
/// day 719163), the day read as if it were UTC.
pub open spec fn naive_ms(day: int, secs: int) -> int {
    (day - 719_163) * 86_400_000 + secs * 1000
}

/// chrono's last date, `NaiveDate::MAX` (31 December 262142), as a day
/// number (`num_days_from_ce`).
pub const LAST_CALENDAR_DAY: i32 = 95_745_399;

/// What holds of any reading of the wall clock: a day in chrono's range
/// (after its first date, at most its last), a second of the day, and an
/// instant that differs from the local reading read as UTC by the zone's
/// offset (under a day, as chrono's `FixedOffset` documents) and the
/// reading's milliseconds (under two seconds).
pub open spec fn local_clock_wf(c: LocalClock) -> bool {
    &&& -100_000_000 < c.day <= LAST_CALENDAR_DAY
    &&& c.secs_of_day < 86_400
    &&& -86_400_000 < c.unix_ms - naive_ms(c.day as int, c.secs_of_day as int) < 86_402_000
}

/// Reads `chrono::Local::now()`: the current instant in unix milliseconds and
/// its local calendar day and second of day. Claimed: only what holds of
/// any reading (`local_clock_wf`): the day is in chrono's range, the second
/// is one of the day, and the local reading is the instant shifted by an
/// offset under a day (`FixedOffset`'s documented range). Which instant it
/// is, is the time; the shift is the machine's time zone.
#[verifier::external_body]
fn local_clock_now() -> (c: LocalClock)
    ensures
        local_clock_wf(c),
{
    let now = chrono::Local::now();
    let naive = now.naive_local();
    LocalClock {
        unix_ms: now.timestamp_millis(),
        day: chrono::Datelike::num_days_from_ce(&naive),
        secs_of_day: chrono::Timelike::num_seconds_from_midnight(&naive),
    }
}

/// Resolves a local calendar day and second of day to an instant with
/// chrono's `NaiveDateTime::and_local_timezone(Local)`, taking the later of two
/// readings in a DST fold (`latest()`); `None` where the day is out of
/// chrono's range or the local time does not exist. Nothing is stated of the
/// result but what holds in any zone: the instant differs from the local
/// reading read as UTC by the zone's offset, which `FixedOffset` documents
/// as under a day. Whether the local time exists depends on the zone.
#[verifier::external_body]
fn local_instant_ms(day: i32, secs_of_day: u32) -> (r: Option<i64>)
    requires
        secs_of_day < 86400,
    ensures
        r matches Some(ms) ==> -86_400_000 < ms - naive_ms(day as int, secs_of_day as int) < 86_400_000,
{
    let date = chrono::NaiveDate::from_num_days_from_ce_opt(day)?;
    let time = chrono::NaiveTime::from_num_seconds_from_midnight_opt(secs_of_day, 0)?;
    let local = date.and_time(time).and_local_timezone(chrono::Local).latest()?;
    Some(local.timestamp_millis())
}

/// The second of the day at which `t` falls.
pub open spec fn clock_secs(t: ClockTime) -> int {
    t.hour * 3600 + t.minute * 60
}

/// The day a ready-by time refers to: today while it is still ahead,
/// otherwise tomorrow (a time equal to now has passed); on chrono's last
/// date, which has no tomorrow, today.
pub open spec fn ready_by_day_spec(today: int, now_secs_of_day: int, t: ClockTime) -> int {
    if clock_secs(t) <= now_secs_of_day && today < LAST_CALENDAR_DAY {
        today + 1
    } else {
        today
    }
}

/// The local day on which the ready-by time `t` next falls, seen from the
/// second `now_secs_of_day` of day `today`.
pub fn ready_by_day(today: i32, now_secs_of_day: u32, t: ClockTime) -> (d: i32)
    ensures
        d == ready_by_day_spec(today as int, now_secs_of_day as int, t),
{
    let secs: u64 = t.hour as u64 * 3600 + t.minute as u64 * 60;
    if secs <= now_secs_of_day as u64 && today < LAST_CALENDAR_DAY {
        today + 1
    } else {
        today
    }
}

/// The ready-by instant once the zone has been asked: the resolved instant,
/// or, where the local time could not be resolved, the clock's instant.
pub open spec fn ready_by_instant_spec(now_unix_ms: int, resolved: Option<i64>) -> int {
    match resolved {
        Some(ms) => ms as int,
        None => now_unix_ms,
    }
}

/// The ready-by result from the clock's instant and what the zone resolved
/// the chosen day and time to.
pub fn ready_by_instant(now_unix_ms: i64, resolved: Option<i64>) -> (r: i64)
    ensures
        r == ready_by_instant_spec(now_unix_ms as int, resolved),
{
    match resolved {
        Some(ms) => ms,
        None => now_unix_ms,
    }
}

/// What a ready-by computation gives from the clock reading `c` when the
/// zone resolves the chosen day and time to `resolved`: the ready-by time on
/// the day it next falls (`ready_by_day_spec`), an instant within the zone's
/// offset of that local time read as UTC where it exists, and the result
/// `ready_by_instant_spec`.
pub open spec fn ready_by_outcome(c: LocalClock, t: ClockTime, resolved: Option<i64>, r: int) -> bool {
    let d = ready_by_day_spec(c.day as int, c.secs_of_day as int, t);
    &&& (resolved matches Some(ms) ==> -86_400_000 < ms - naive_ms(d, clock_secs(t)) < 86_400_000)
    &&& r == ready_by_instant_spec(c.unix_ms as int, resolved)
}

/// The unix milliseconds of the next local occurrence of `ready_by_time`
/// (today if still ahead, else tomorrow; today on chrono's last date).
/// Where the local time cannot be resolved, the current instant. Which clock
/// reading and zone apply is the machine's: the result is stated for some
/// reading of its clock and what its zone resolves.
pub fn compute_ready_by_unix_ms(ready_by_time: ClockTime) -> (r: i64)
    requires
        ready_by_time.hour < 24,
        ready_by_time.minute < 60,
    ensures
        exists|c: LocalClock, resolved: Option<i64>|
            local_clock_wf(c) && ready_by_outcome(c, ready_by_time, resolved, r as int),
{
    let now = local_clock_now();
    let secs: u32 = ready_by_time.hour * 3600 + ready_by_time.minute * 60;
    let day = ready_by_day(now.day, now.secs_of_day, ready_by_time);
    let resolved = local_instant_ms(day, secs);
    let r = ready_by_instant(now.unix_ms, resolved);
    assert(local_clock_wf(now) && ready_by_outcome(now, ready_by_time, resolved, r as int));
    r
}

/// The value of the decimal digit `c`.
pub open spec fn digit_value(c: char) -> int {
    (c as int) - ('0' as int)
}

/// The two-digit decimal number at position `i` of `s`.
pub open spec fn two_digits(s: Seq<char>, i: int) -> int {
    digit_value(s[i]) * 10 + digit_value(s[i + 1])
}

/// Days from 1970-01-01 to year `y`, month `m`, day `d` of the proleptic
/// Gregorian calendar (years counted from March, so that the leap day comes
/// last; 146097 days in 400 years).
pub open spec fn days_from_civil(y: int, m: int, d: int) -> int {
    let y1 = if m <= 2 { y - 1 } else { y };
    let era = y1 / 400;
    let yoe = y1 - era * 400;
    let mp = if m > 2 { m - 3 } else { m + 9 };
    let doy = (153 * mp + 2) / 5 + d - 1;
    let doe = yoe * 365 + yoe / 4 - yoe / 100 + doy;
    era * 146097 + doe - 719468
}

/// The instant, in unix seconds, that local text of the form
/// `YYYY-MM-DDTHH:MM:SS±hh:mm` names: its local date and time, less the
/// offset from UTC it gives.
pub open spec fn local_text_unix_secs(s: Seq<char>) -> int {
    let local = days_from_civil(
        two_digits(s, 0) * 100 + two_digits(s, 2),
        two_digits(s, 5),
        two_digits(s, 8),
    ) * 86400 + two_digits(s, 11) * 3600 + two_digits(s, 14) * 60 + two_digits(s, 17);
    let offset = two_digits(s, 20) * 3600 + two_digits(s, 23) * 60;
    if s[19] == '-' {
        local + offset
    } else {
        local - offset
    }
}

/// Instants from 0001-01-02 to 9999-12-30 (UTC), whose local date in any
/// zone has a four-digit year.
pub open spec fn four_digit_year_instant(unix_ms: int) -> bool {
    -62_135_510_400_000 <= unix_ms < 253_402_128_000_000
}

/// `text` is local ISO 8601 text naming the instant `unix_ms` to the second,
/// up to the half minute by which a zone offset given in whole minutes can
/// be off.
pub open spec fn names_instant(text: Seq<char>, unix_ms: int) -> bool {
    &&& text.len() == 25
    &&& -30 <= local_text_unix_secs(text) - unix_ms / 1000 <= 30
}

/// Formats unix milliseconds as local ISO 8601 text (`%Y-%m-%dT%H:%M:%S%:z`)
/// with chrono, taking the epoch for an instant out of chrono's range.
/// Which local time the text shows depends on the machine's time zone; what
/// is claimed holds in every zone, for an instant whose local year has four
/// digits: the text is the local date and second of the instant (chrono
/// writes `%Y` as four zero-padded digits for years up to 9999, and the
/// other fields as two) and the zone's offset rounded to the minute (`%:z`
/// writes `±hh:mm`, rounding seconds to the nearest minute), so read back it
/// names the instant to within 30 seconds.
#[verifier::external_body]
pub fn format_unix_ms_local(unix_ms: i64) -> (r: String)
    ensures
        four_digit_year_instant(unix_ms as int) ==> names_instant(r@, unix_ms as int),
{
    let dt = match chrono::DateTime::from_timestamp_millis(unix_ms) {
        Some(dt) => dt,
        None => chrono::DateTime::UNIX_EPOCH,
    };
    dt.with_timezone(&chrono::Local).format("%Y-%m-%dT%H:%M:%S%:z").to_string()
}

// ── Schedules ──────────────────────────────────────────────────────────

/// A scheduled heat-at entry, as persisted.
#[derive(Debug)]
pub struct ScheduledHeatEntry {
    /// Target time in HH:MM format.
    pub ready_by: String,
    /// Heat setpoint in Fahrenheit.
    pub setpoint: i32,
    /// Estimated minutes to heat (at time of scheduling).
    pub estimated_minutes: Option<u32>,
    /// Computed start time as unix timestamp (ms).
    pub start_at_unix_ms: i64,
    /// The ready-by time as unix timestamp (ms): the deadline.
    pub ready_by_unix_ms: i64,
    /// Whether heating was started immediately because it was already late.
    pub started_immediately: bool,
    /// Whether the timer has already fired and started heating.
    pub fired: bool,
}

impl ScheduledHeatEntry {
    pub fn duplicate(&self) -> (e: Self)
        ensures
            e == *self,
    {
        ScheduledHeatEntry {
            ready_by: self.ready_by.clone(),
            setpoint: self.setpoint,
            estimated_minutes: self.estimated_minutes,
            start_at_unix_ms: self.start_at_unix_ms,
            ready_by_unix_ms: self.ready_by_unix_ms,
            started_immediately: self.started_immediately,
            fired: self.fired,
        }
    }
}

/// Request body for creating a heat-at schedule.
#[derive(Debug)]
pub struct HeatAtRequest {
    /// Target time in HH:MM format.
    pub ready_by: String,
    /// Heat setpoint in Fahrenheit.
    pub setpoint: i32,
}

/// Response body for schedule creation.
#[derive(Debug)]
pub struct HeatAtResponse {
    pub scheduled: bool,
    pub start_at: String,
    pub ready_by: String,
    pub estimated_minutes: Option<u32>,
    pub started_immediately: bool,
    pub warning: Option<String>,
}

/// Response body for reading the schedule.
#[derive(Debug)]
pub struct HeatAtStatusResponse {
    pub active: bool,
    pub ready_by: Option<String>,
    pub setpoint: Option<i32>,
    pub start_at: Option<String>,
    pub estimated_minutes: Option<u32>,
    pub fired: Option<bool>,
    pub started_immediately: Option<bool>,
}

/// Setpoints the controller accepts, in Fahrenheit.
pub open spec fn setpoint_in_range(setpoint: int) -> bool {
    40 <= setpoint <= 104
}

pub open spec fn setpoint_error_text(setpoint: int) -> Seq<char> {
    "setpoint "@ + int_text(setpoint) + " out of range (40-104 F)"@
}

/// Refuse a setpoint outside what the controller accepts (40-104 F).
pub fn check_setpoint(setpoint: i32) -> (r: Result<(), String>)
    ensures
        r is Ok <==> setpoint_in_range(setpoint as int),
        r matches Err(e) ==> e@ == setpoint_error_text(setpoint as int),
{
    if 40 <= setpoint && setpoint <= 104 {
        Ok(())
    } else {
        proof {
            reveal_strlit("setpoint ");
            reveal_strlit(" out of range (40-104 F)");
        }
        let mut t = owned("setpoint ");
        push_int(&mut t, setpoint as i64);
        t.append(" out of range (40-104 F)");
        Err(t)
    }
}

/// When heating starts for a deadline `ready_by` that needs `minutes` of
/// heating, seen at `now`: the ideal start if still ahead, else now, and
/// whether it starts immediately.
pub open spec fn start_time_spec(ready_by: int, minutes: int, now: int) -> (int, bool) {
    let ideal = ready_by - minutes * 60000;
    if ideal <= now {
        (now, true)
    } else {
        (ideal, false)
    }
}

/// Compute the start time given the ready-by deadline and estimated minutes.
/// Returns (start_at_unix_ms, started_immediately).
pub fn compute_start_time(ready_by_unix_ms: i64, estimated_minutes: u32, now_unix_ms: i64) -> (r: (i64, bool))
    requires
        ready_by_unix_ms - estimated_minutes * 60000 >= i64::MIN,
    ensures
        r.0 == start_time_spec(ready_by_unix_ms as int, estimated_minutes as int, now_unix_ms as int).0,
        r.1 == start_time_spec(ready_by_unix_ms as int, estimated_minutes as int, now_unix_ms as int).1,
{
    let needed_ms: i64 = estimated_minutes as i64 * 60_000;
    let ideal_start = ready_by_unix_ms - needed_ms;
    if ideal_start <= now_unix_ms {
        (now_unix_ms, true)
    } else {
        (ideal_start, false)
    }
}

pub open spec fn no_rate_warning() -> Seq<char> {
    "No heating rate data available; using default estimate. Actual time may vary."@
}

pub open spec fn late_warning() -> Seq<char> {
    "Not enough time to reach target temperature. Starting immediately."@
}

/// The warning a new schedule carries: no rate data outranks being late.
pub open spec fn schedule_warning(estimated_minutes: Option<u32>, started_immediately: bool) -> Option<Seq<char>> {
    if estimated_minutes is None {
        Some(no_rate_warning())
    } else if started_immediately {
        Some(late_warning())
    } else {
        None
    }
}

/// The entry a request becomes, given its deadline, the clock, the estimate
/// (if the rate data gave one) and the minutes actually planned for.
pub open spec fn planned_entry(
    request: HeatAtRequest,
    ready_by_unix_ms: int,
    now_unix_ms: int,
    estimated_minutes: Option<u32>,
    effective_minutes: int,
    e: ScheduledHeatEntry,
) -> bool {
    let st = start_time_spec(ready_by_unix_ms, effective_minutes, now_unix_ms);
    &&& e.ready_by@ == request.ready_by@
    &&& e.setpoint == request.setpoint
    &&& e.estimated_minutes == estimated_minutes
    &&& e.start_at_unix_ms == st.0
    &&& e.ready_by_unix_ms == ready_by_unix_ms
    &&& e.started_immediately == st.1
    &&& e.fired == st.1
}

/// Build the schedule entry for `request` and the warning to report with it.
/// A schedule that starts immediately is marked fired at once.
pub fn plan_schedule(
    request: &HeatAtRequest,
    ready_by_unix_ms: i64,
    now_unix_ms: i64,
    estimated_minutes: Option<u32>,
    effective_minutes: u32,
) -> (r: (ScheduledHeatEntry, Option<String>))
    requires
        ready_by_unix_ms - effective_minutes * 60000 >= i64::MIN,
    ensures
        planned_entry(
            *request,
            ready_by_unix_ms as int,
            now_unix_ms as int,
            estimated_minutes,
            effective_minutes as int,
            r.0,
        ),
        opt_text(r.1) == schedule_warning(estimated_minutes, r.0.started_immediately),
{
    let (start_at_unix_ms, started_immediately) = compute_start_time(
        ready_by_unix_ms,
        effective_minutes,
        now_unix_ms,
    );
    let warning = if estimated_minutes.is_none() {
        proof {
            reveal_strlit("No heating rate data available; using default estimate. Actual time may vary.");
        }
        Some(owned("No heating rate data available; using default estimate. Actual time may vary."))
    } else if started_immediately {
        proof {
            reveal_strlit("Not enough time to reach target temperature. Starting immediately.");
        }
        Some(owned("Not enough time to reach target temperature. Starting immediately."))
    } else {
        None
    };
    let entry = ScheduledHeatEntry {
        ready_by: request.ready_by.clone(),
        setpoint: request.setpoint,
        estimated_minutes,
        start_at_unix_ms,
        ready_by_unix_ms,
        started_immediately,
        fired: started_immediately,
    };
    (entry, warning)
}

/// The response to a newly created schedule.
pub fn schedule_response(entry: &ScheduledHeatEntry, warning: Option<String>) -> (r: HeatAtResponse)
    ensures
        r.scheduled,
        four_digit_year_instant(entry.start_at_unix_ms as int) ==> names_instant(
            r.start_at@,
            entry.start_at_unix_ms as int,
        ),
        four_digit_year_instant(entry.ready_by_unix_ms as int) ==> names_instant(
            r.ready_by@,
            entry.ready_by_unix_ms as int,
        ),
        r.estimated_minutes == entry.estimated_minutes,
        r.started_immediately == entry.started_immediately,
        opt_text(r.warning) == opt_text(warning),
{
    HeatAtResponse {
        scheduled: true,
        start_at: format_unix_ms_local(entry.start_at_unix_ms),
        ready_by: format_unix_ms_local(entry.ready_by_unix_ms),
        estimated_minutes: entry.estimated_minutes,
        started_immediately: entry.started_immediately,
        warning,
    }
}

/// The response to a new schedule tells its two instants apart: where the
/// start and the ready-by time (both with four-digit years) are more than a
/// minute apart, `start_at` and `ready_by` are different texts, each naming
/// its own instant; the start is never shown as the ready-by time.
pub proof fn lemma_response_names_start_and_ready_by(start_ms: int, ready_ms: int, start_at: Seq<char>, ready_by: Seq<char>)
    requires
        names_instant(start_at, start_ms),
        names_instant(ready_by, ready_ms),
        ready_ms / 1000 - start_ms / 1000 > 60 || start_ms / 1000 - ready_ms / 1000 > 60,
    ensures
        start_at != ready_by,
        !names_instant(start_at, ready_ms),
        !names_instant(ready_by, start_ms),
{
}

/// Milliseconds from `now` until `start`, none if it has passed.
pub open spec fn delay_spec(start: int, now: int) -> int {
    if start - now > 0 {
        start - now
    } else {
        0
    }
}

/// How long the timer for a start at `start_at_unix_ms` sleeps from `now`.
pub fn timer_delay_ms(start_at_unix_ms: i64, now_unix_ms: i64) -> (d: u64)
    requires
        i64::MIN <= start_at_unix_ms - now_unix_ms <= i64::MAX,
    ensures
        d == delay_spec(start_at_unix_ms as int, now_unix_ms as int),
{
    let diff = start_at_unix_ms - now_unix_ms;
    if diff > 0 {
        diff as u64
    } else {
        0
    }
}

/// What the daemon does with a schedule once it is stored: fire now, or arm
/// a timer for the delay.
#[derive(Debug, Clone, Copy, PartialEq, Eq, Structural)]
pub enum ScheduleTimer {
    FireNow,
    Arm { delay_ms: u64 },
}

/// The timer a freshly stored entry gets.
pub fn timer_for_new(entry: &ScheduledHeatEntry, now_unix_ms: i64) -> (t: ScheduleTimer)
    requires
        i64::MIN <= entry.start_at_unix_ms - now_unix_ms <= i64::MAX,
    ensures
        entry.started_immediately ==> t == ScheduleTimer::FireNow,
        !entry.started_immediately ==> t == (ScheduleTimer::Arm {
            delay_ms: delay_spec(entry.start_at_unix_ms as int, now_unix_ms as int) as u64,
        }),
{
    if entry.started_immediately {
        ScheduleTimer::FireNow
    } else {
        ScheduleTimer::Arm { delay_ms: timer_delay_ms(entry.start_at_unix_ms, now_unix_ms) }
    }
}

/// What a restart does with a persisted schedule.
#[derive(Debug, Clone, Copy, PartialEq, Eq, Structural)]
pub enum TimerResume {
    /// Nothing is scheduled.
    NoSchedule,
    /// The schedule already fired; nothing to arm.
    AlreadyFired,
    /// The deadline has passed: the schedule is dropped.
    Expired,
    /// Arm the timer for the remaining delay.
    Arm { delay_ms: u64 },
}

pub open spec fn resume_spec(entry: Option<ScheduledHeatEntry>, now: int) -> TimerResume {
    match entry {
        None => TimerResume::NoSchedule,
        Some(e) => if e.fired {
            TimerResume::AlreadyFired
        } else if e.ready_by_unix_ms < now {
            TimerResume::Expired
        } else {
            TimerResume::Arm { delay_ms: delay_spec(e.start_at_unix_ms as int, now) as u64 }
        },
    }
}

/// Decide what to do with the persisted schedule at daemon start.
pub fn resume_plan(entry: &Option<ScheduledHeatEntry>, now_unix_ms: i64) -> (r: TimerResume)
    requires
        entry matches Some(e) ==> i64::MIN <= e.start_at_unix_ms - now_unix_ms <= i64::MAX,
    ensures
        r == resume_spec(*entry, now_unix_ms as int),
{
    match entry {
        None => TimerResume::NoSchedule,
        Some(e) => {
            if e.fired {
                TimerResume::AlreadyFired
            } else if e.ready_by_unix_ms < now_unix_ms {
                TimerResume::Expired
            } else {
                TimerResume::Arm { delay_ms: timer_delay_ms(e.start_at_unix_ms, now_unix_ms) }
            }
        },
    }
}

/// A controller command issued when a schedule fires.
#[derive(Debug, Clone, Copy, PartialEq, Eq, Structural)]
pub enum HeatStep {
    SetHeatSetpoint { body_type: i32, temp: i32 },
    SetHeatMode { body_type: i32, mode: i32 },
    SetCircuit { circuit_id: i32, state: bool },
}

/// The spa body's number in controller commands.
pub const SPA_BODY: i32 = 1;

/// The heater heat mode.
pub const HEATER_MODE: i32 = 3;

pub open spec fn fire_steps_spec(entry: Option<ScheduledHeatEntry>, spa_circuit: Option<i32>) -> Seq<HeatStep> {
    match entry {
        None => Seq::empty(),
        Some(e) => {
            let base = seq![
                HeatStep::SetHeatSetpoint { body_type: SPA_BODY, temp: e.setpoint },
                HeatStep::SetHeatMode { body_type: SPA_BODY, mode: HEATER_MODE },
            ];
            match spa_circuit {
                Some(id) => base.push(HeatStep::SetCircuit { circuit_id: id, state: true }),
                None => base,
            }
        },
    }
}

/// The commands a firing schedule sends, in order: the spa setpoint, the
/// heater mode, and the spa circuit on where it could be resolved. Nothing
/// when no schedule is stored.
pub fn fire_steps(entry: &Option<ScheduledHeatEntry>, spa_circuit: Option<i32>) -> (v: Vec<HeatStep>)
    ensures
        v@ == fire_steps_spec(*entry, spa_circuit),
{
    let mut v: Vec<HeatStep> = Vec::new();
    match entry {
        None => {},
        Some(e) => {
            v.push(HeatStep::SetHeatSetpoint { body_type: SPA_BODY, temp: e.setpoint });
            v.push(HeatStep::SetHeatMode { body_type: SPA_BODY, mode: HEATER_MODE });
            match spa_circuit {
                Some(id) => v.push(HeatStep::SetCircuit { circuit_id: id, state: true }),
                None => {},
            }
        },
    }
    proof {
        assert(v@ =~= fire_steps_spec(*entry, spa_circuit));
    }
    v
}

// ── The schedule slot ───────────────────────────────────────────────────

/// The one spa schedule the daemon keeps.
#[derive(Debug)]
pub struct HeatSchedule {
    pub entry: Option<ScheduledHeatEntry>,
}

/// The slot after a cancel: empty.
pub open spec fn cancelled(s: HeatSchedule) -> HeatSchedule {
    HeatSchedule { entry: None }
}

/// The slot after `e` is stored: it holds `e`, whatever it held before.
pub open spec fn stored(s: HeatSchedule, e: ScheduledHeatEntry) -> HeatSchedule {
    HeatSchedule { entry: Some(e) }
}

/// The slot after its timer fired: the entry, if any, is marked fired.
pub open spec fn fired(s: HeatSchedule) -> HeatSchedule {
    match s.entry {
        None => s,
        Some(e) => HeatSchedule {
            entry: Some(
                ScheduledHeatEntry {
                    ready_by: e.ready_by,
                    setpoint: e.setpoint,
                    estimated_minutes: e.estimated_minutes,
                    start_at_unix_ms: e.start_at_unix_ms,
                    ready_by_unix_ms: e.ready_by_unix_ms,
                    started_immediately: e.started_immediately,
                    fired: true,
                },
            ),
        },
    }
}

/// How a status read reports a slot: active, and the stored fields.
pub open spec fn status_matches(s: HeatSchedule, r: HeatAtStatusResponse) -> bool {
    match s.entry {
        None => {
            &&& !r.active
            &&& r.ready_by is None
            &&& r.setpoint is None
            &&& r.start_at is None
            &&& r.estimated_minutes is None
            &&& r.fired is None
            &&& r.started_immediately is None
        },
        Some(e) => {
            &&& r.active
            &&& opt_text(r.ready_by) == Some(e.ready_by@)
            &&& r.setpoint == Some(e.setpoint)
            &&& r.start_at is Some
            &&& r.estimated_minutes == e.estimated_minutes
            &&& r.fired == Some(e.fired)
            &&& r.started_immediately == Some(e.started_immediately)
        },
    }
}

impl HeatSchedule {
    pub fn new(entry: Option<ScheduledHeatEntry>) -> (s: Self)
        ensures
            s.entry == entry,
    {
        HeatSchedule { entry }
    }

    /// Store `entry`, replacing any earlier schedule.
    pub fn store(&mut self, entry: ScheduledHeatEntry)
        ensures
            *final(self) == stored(*old(self), entry),
    {
        self.entry = Some(entry);
    }

    /// Drop the schedule; reports whether there was one.
    pub fn cancel(&mut self) -> (had: bool)
        ensures
            had == old(self).entry is Some,
            *final(self) == cancelled(*old(self)),
    {
        let had = self.entry.is_some();
        self.entry = None;
        had
    }

    /// Record that the timer fired.
    pub fn mark_fired(&mut self)
        ensures
            *final(self) == fired(*old(self)),
    {
        match &mut self.entry {
            Some(e) => {
                e.fired = true;
            },
            None => {},
        }
    }

    /// The status report of the slot.
    pub fn status(&self) -> (r: HeatAtStatusResponse)
        ensures
            status_matches(*self, r),
    {
        match &self.entry {
            Some(e) => HeatAtStatusResponse {
                active: true,
                ready_by: Some(e.ready_by.clone()),
                setpoint: Some(e.setpoint),
                start_at: Some(format_unix_ms_local(e.start_at_unix_ms)),
                estimated_minutes: e.estimated_minutes,
                fired: Some(e.fired),
                started_immediately: Some(e.started_immediately),
            },
            None => HeatAtStatusResponse {
                active: false,
                ready_by: None,
                setpoint: None,
                start_at: None,
                estimated_minutes: None,
                fired: None,
                started_immediately: None,
            },
        }
    }
}

/// A stored schedule reads back as active, with the ready-by time, setpoint,
/// estimate and flags it was stored with.
pub proof fn lemma_store_then_status(s: HeatSchedule, e: ScheduledHeatEntry, r: HeatAtStatusResponse)
    requires
        status_matches(stored(s, e), r),
    ensures
        r.active,
        opt_text(r.ready_by) == Some(e.ready_by@),
        r.setpoint == Some(e.setpoint),
        r.fired == Some(e.fired),
{
}

/// After a cancel the slot reads as inactive, and a second cancel finds
/// nothing to cancel.
pub proof fn lemma_cancel_then_inactive(s: HeatSchedule, r: HeatAtStatusResponse)
    requires
        status_matches(cancelled(s), r),
    ensures
        !r.active,
        !(cancelled(s).entry is Some),
        cancelled(cancelled(s)) == cancelled(s),
{
}

/// Firing keeps the schedule's fields and only sets `fired`; once fired, a
/// restart arms nothing.
pub proof fn lemma_fired_not_rearmed(s: HeatSchedule, now: int)
    requires
        s.entry is Some,
    ensures
        fired(s).entry is Some,
        fired(s).entry->0.setpoint == s.entry->0.setpoint,
        fired(s).entry->0.ready_by == s.entry->0.ready_by,
        fired(s).entry->0.fired,
        resume_spec(fired(s).entry, now) == TimerResume::AlreadyFired,
{
}

/// A planned start never lies before now; it is immediate exactly when the
/// ideal start has come, and otherwise leaves exactly the planned minutes
/// before the deadline.
pub proof fn lemma_start_time_bounds(ready_by: int, minutes: int, now: int)
    requires
        minutes >= 0,
    ensures
        start_time_spec(ready_by, minutes, now).0 >= now,
        !start_time_spec(ready_by, minutes, now).1 ==> start_time_spec(ready_by, minutes, now).0 + minutes
            * 60000 == ready_by,
        start_time_spec(ready_by, minutes, now).1 <==> ready_by - minutes * 60000 <= now,
{
}

} // verus!

//! Wall-clock side of the comfort scheduler: weekdays, local time of day under
//! an injected UTC offset, `HH:MM` times, day/time spans, and the slot
//! timeline the planner reasons over. Everything here is a pure function of
//! its inputs: the clock and the UTC offset are passed in.

use vstd::prelude::*;
use crate::text::{chars_of, lower, lower_eq_str, parse_i64, parse_int, trim, trim_bounds, trimmed_chars};

verus! {

pub const SECONDS_PER_DAY: i64 = 86_400;

/// Day of week, Monday first. 1970-01-01 (unix 0) was a Thursday.
#[derive(Debug, Clone, Copy, PartialEq, Eq, Structural)]
pub enum Weekday {
    Mon,
    Tue,
    Wed,
    Thu,
    Fri,
    Sat,
    Sun,
}

/// The weekday with index `i` (Monday = 0); any index past 5 is Sunday.
pub open spec fn weekday_at(i: int) -> Weekday {
    if i == 0 {
        Weekday::Mon
    } else if i == 1 {
        Weekday::Tue
    } else if i == 2 {
        Weekday::Wed
    } else if i == 3 {
        Weekday::Thu
    } else if i == 4 {
        Weekday::Fri
    } else if i == 5 {
        Weekday::Sat
    } else {
        Weekday::Sun
    }
}

/// The weekday a 3-letter abbreviation names, ignoring ASCII case and
/// surrounding whitespace.
pub open spec fn weekday_named(s: Seq<char>) -> Option<Weekday> {
    let t = lower(trim(s));
    if t == "mon"@ {
        Some(Weekday::Mon)
    } else if t == "tue"@ {
        Some(Weekday::Tue)
    } else if t == "wed"@ {
        Some(Weekday::Wed)
    } else if t == "thu"@ {
        Some(Weekday::Thu)
    } else if t == "fri"@ {
        Some(Weekday::Fri)
    } else if t == "sat"@ {
        Some(Weekday::Sat)
    } else if t == "sun"@ {
        Some(Weekday::Sun)
    } else {
        None
    }
}

impl Weekday {
    /// Parse a 3-letter (case-insensitive) weekday abbreviation.
    pub fn parse(s: &str) -> (r: Option<Weekday>)
        ensures
            r == weekday_named(s@),
    {
        let t = trimmed_chars(s);
        if lower_eq_str(&t, "mon") {
            Some(Weekday::Mon)
        } else if lower_eq_str(&t, "tue") {
            Some(Weekday::Tue)
        } else if lower_eq_str(&t, "wed") {
            Some(Weekday::Wed)
        } else if lower_eq_str(&t, "thu") {
            Some(Weekday::Thu)
        } else if lower_eq_str(&t, "fri") {
            Some(Weekday::Fri)
        } else if lower_eq_str(&t, "sat") {
            Some(Weekday::Sat)
        } else if lower_eq_str(&t, "sun") {
            Some(Weekday::Sun)
        } else {
            None
        }
    }
}

// ── Local time under an injected UTC offset ─────────────────────────────

/// Local wall-clock breakdown of an instant.
#[derive(Debug, Clone, Copy, PartialEq, Eq, Structural)]
pub struct LocalTime {
    pub weekday: Weekday,
    /// Minutes since local midnight, in `[0, 1440)`.
    pub minute_of_day: i64,
}

/// Local days since the epoch (floored) of `unix_secs` at `offset`.
pub open spec fn local_day(unix_secs: int, offset: int) -> int {
    (unix_secs + offset) / (SECONDS_PER_DAY as int)
}

/// Local weekday of `unix_secs` at `offset`.
pub open spec fn local_weekday(unix_secs: int, offset: int) -> Weekday {
    weekday_at((local_day(unix_secs, offset) + 3) % 7)
}

/// Minutes since local midnight of `unix_secs` at `offset`.
pub open spec fn local_minute(unix_secs: int, offset: int) -> int {
    ((unix_secs + offset) % (SECONDS_PER_DAY as int)) / 60
}

/// Whether `unix_secs + offset` is representable.
pub open spec fn offset_fits(unix_secs: int, offset: int) -> bool {
    i64::MIN <= unix_secs + offset <= i64::MAX
}

/// Decompose `unix_secs` into a local weekday and minute of day using
/// `utc_offset_seconds` (e.g. `-8*3600` for PST). No timezone database.
pub fn local_time(unix_secs: i64, utc_offset_seconds: i64) -> (lt: LocalTime)
    requires
        offset_fits(unix_secs as int, utc_offset_seconds as int),
    ensures
        lt.weekday == local_weekday(unix_secs as int, utc_offset_seconds as int),
        lt.minute_of_day == local_minute(unix_secs as int, utc_offset_seconds as int),
        0 <= lt.minute_of_day < 1440,
{
    let local = unix_secs + utc_offset_seconds;
    let day_index = match local.checked_div_euclid(SECONDS_PER_DAY) {
        Some(d) => d,
        None => 0,
    };
    let secs_into_day = match local.checked_rem_euclid(SECONDS_PER_DAY) {
        Some(r) => r,
        None => 0,
    };
    assert(day_index == local / 86400);
    assert(secs_into_day == local % 86400);
    assert(-106751991167301 <= day_index <= 106751991167300) by (nonlinear_arith)
        requires
            day_index == local / 86400,
            i64::MIN <= local <= i64::MAX,
    ;
    let wi = match (day_index + 3).checked_rem_euclid(7) {
        Some(r) => r,
        None => 0,
    };
    let wd = match wi {
        0 => Weekday::Mon,
        1 => Weekday::Tue,
        2 => Weekday::Wed,
        3 => Weekday::Thu,
        4 => Weekday::Fri,
        5 => Weekday::Sat,
        _ => Weekday::Sun,
    };
    LocalTime { weekday: wd, minute_of_day: secs_into_day / 60 }
}

// ── HH:MM ───────────────────────────────────────────────────────────────

/// A wall-clock time of day as minutes since midnight, in `[0, 1440]`.
#[derive(Debug, Clone, Copy, PartialEq, Eq, Structural)]
pub struct HhMm {
    pub minute_of_day: i64,
}

pub open spec fn clamp(x: int, lo: int, hi: int) -> int {
    if x < lo {
        lo
    } else if x > hi {
        hi
    } else {
        x
    }
}

/// Index of the first `c` in `s`, if any.
pub open spec fn first_index_of(s: Seq<char>, c: char) -> Option<int>
    decreases s.len(),
{
    if s.len() == 0 {
        None
    } else {
        match first_index_of(s.drop_last(), c) {
            Some(k) => Some(k),
            None => if s.last() == c {
                Some(s.len() - 1)
            } else {
                None
            },
        }
    }
}

/// The minute of day a `"HH:MM"` text names: split at the first `:`, both
/// halves trimmed and read as decimal integers, hour in `0..=24`, minute in
/// `0..=59`, the total capped at end of day.
pub open spec fn hhmm_minutes(s: Seq<char>) -> Option<int> {
    match first_index_of(s, ':') {
        None => None,
        Some(k) => {
            let h = parse_int(trim(s.subrange(0, k)), i64::MIN as int, i64::MAX as int);
            let m = parse_int(
                trim(s.subrange(k + 1, s.len() as int)),
                i64::MIN as int,
                i64::MAX as int,
            );
            match (h, m) {
                (Ok(h), Ok(m)) => if 0 <= h <= 24 && 0 <= m <= 59 {
                    Some(clamp(h * 60 + m, 0, 1440))
                } else {
                    None
                },
                _ => None,
            }
        },
    }
}

proof fn lemma_first_index_found(s: Seq<char>, c: char, k: int)
    requires
        0 <= k < s.len(),
        s[k] == c,
        forall|j: int| 0 <= j < k ==> s[j] != c,
    ensures
        first_index_of(s, c) == Some(k),
    decreases s.len(),
{
    if k < s.len() - 1 {
        lemma_first_index_found(s.drop_last(), c, k);
    } else {
        lemma_first_index_absent(s.drop_last(), c);
    }
}

proof fn lemma_first_index_absent(s: Seq<char>, c: char)
    requires
        forall|j: int| 0 <= j < s.len() ==> s[j] != c,
    ensures
        first_index_of(s, c) == None::<int>,
    decreases s.len(),
{
    if s.len() > 0 {
        lemma_first_index_absent(s.drop_last(), c);
    }
}

/// Copy of `v[a..b]`.
pub fn slice_chars(v: &Vec<char>, a: usize, b: usize) -> (r: Vec<char>)
    requires
        a <= b <= v@.len(),
    ensures
        r@ == v@.subrange(a as int, b as int),
{
    let mut r: Vec<char> = Vec::new();
    let mut i = a;
    while i < b
        invariant
            a <= i <= b <= v@.len(),
            r@ == v@.subrange(a as int, i as int),
        decreases b - i,
    {
        r.push(v[i]);
        i = i + 1;
        assert(r@ =~= v@.subrange(a as int, i as int));
    }
    r
}

/// Surrounding-whitespace-free copy of `v[a..b]`.
fn trimmed_slice(v: &Vec<char>, a: usize, b: usize) -> (r: Vec<char>)
    requires
        a <= b <= v@.len(),
    ensures
        r@ == trim(v@.subrange(a as int, b as int)),
{
    let s = slice_chars(v, a, b);
    let (x, y) = trim_bounds(&s);
    slice_chars(&s, x, y)
}

impl HhMm {
    /// Build from hour/minute, clamping into a valid range.
    pub fn new(hour: i64, minute: i64) -> (t: Self)
        ensures
            t.minute_of_day == clamp(
                clamp(hour as int, 0, 24) * 60 + clamp(minute as int, 0, 59),
                0,
                1440,
            ),
    {
        let h = if hour < 0 {
            0
        } else if hour > 24 {
            24
        } else {
            hour
        };
        let m = if minute < 0 {
            0
        } else if minute > 59 {
            59
        } else {
            minute
        };
        let total = h * 60 + m;
        let c = if total > 1440 {
            1440
        } else {
            total
        };
        HhMm { minute_of_day: c }
    }

    /// Parse `"HH:MM"`. `"24:00"` is accepted as end-of-day (1440).
    pub fn parse(s: &str) -> (r: Option<Self>)
        ensures
            match hhmm_minutes(s@) {
                Some(m) => r == Some(HhMm { minute_of_day: m as i64 }),
                None => r == None::<HhMm>,
            },
    {
        let v = chars_of(s);
        let n = v.len();
        let mut k: usize = 0;
        while k < n && v[k] != ':'
            invariant
                k <= n,
                n == v@.len(),
                forall|j: int| 0 <= j < k ==> v@[j] != ':',
            decreases n - k,
        {
            k = k + 1;
        }
        if k == n {
            proof {
                lemma_first_index_absent(v@, ':');
            }
            return None;
        }
        proof {
            lemma_first_index_found(v@, ':', k as int);
        }
        let hs = trimmed_slice(&v, 0, k);
        let ms = trimmed_slice(&v, k + 1, n);
        let hour = match parse_i64(&hs) {
            Ok(h) => h,
            Err(_) => {
                return None;
            },
        };
        let minute = match parse_i64(&ms) {
            Ok(m) => m,
            Err(_) => {
                return None;
            },
        };
        if !(0 <= hour && hour <= 24) || !(0 <= minute && minute <= 59) {
            return None;
        }
        let t = Self::new(hour, minute);
        proof {
            assert(v@ == s@);
            let hh = parse_int(trim(s@.subrange(0, k as int)), i64::MIN as int, i64::MAX as int);
            let mm = parse_int(trim(s@.subrange(k + 1, s@.len() as int)), i64::MIN as int, i64::MAX as int);
            assert(hh == Ok::<int, crate::text::IntErrorKind>(hour as int));
            assert(mm == Ok::<int, crate::text::IntErrorKind>(minute as int));
            assert(hhmm_minutes(s@) == Some(clamp(hour * 60 + minute, 0, 1440)));
        }
        Some(t)
    }
}

/// True when `minute_of_day` falls in the half-open `[start, end)` window;
/// a window with `end <= start` is empty (no wrap past midnight).
pub open spec fn in_window(minute_of_day: int, start: int, end: int) -> bool {
    start < end && start <= minute_of_day < end
}

pub fn minute_in_window(minute_of_day: i64, start: HhMm, end: HhMm) -> (b: bool)
    ensures
        b == in_window(minute_of_day as int, start.minute_of_day as int, end.minute_of_day as int),
{
    start.minute_of_day < end.minute_of_day && minute_of_day >= start.minute_of_day
        && minute_of_day < end.minute_of_day
}

/// The weekdays named in `days`, in order, skipping entries that do not parse.
pub open spec fn parsed_days(days: Seq<Seq<char>>) -> Seq<Weekday>
    decreases days.len(),
{
    if days.len() == 0 {
        Seq::empty()
    } else {
        match weekday_named(days.last()) {
            Some(w) => parsed_days(days.drop_last()).push(w),
            None => parsed_days(days.drop_last()),
        }
    }
}

/// Parse a list of 3-letter weekday abbreviations, dropping any that don't parse.
pub fn parse_days(days: &Vec<String>) -> (r: Vec<Weekday>)
    ensures
        r@ == parsed_days(days@.map_values(|d: String| d@)),
{
    let ghost names = days@.map_values(|d: String| d@);
    let mut r: Vec<Weekday> = Vec::new();
    let mut i: usize = 0;
    while i < days.len()
        invariant
            i <= days@.len(),
            names == days@.map_values(|d: String| d@),
            r@ == parsed_days(names.subrange(0, i as int)),
        decreases days.len() - i,
    {
        let w = Weekday::parse(days[i].as_str());
        proof {
            assert(names.subrange(0, i + 1).drop_last() =~= names.subrange(0, i as int));
            assert(names.subrange(0, i + 1).last() == days@[i as int]@);
        }
        match w {
            Some(d) => r.push(d),
            None => {},
        }
        i = i + 1;
    }
    assert(names.subrange(0, days@.len() as int) =~= names);
    r
}

// ── Day/time spans ──────────────────────────────────────────────────────

/// A recurring wall-clock span: on `days`, during `[start, end)` local time.
/// Comfort windows and time-of-use rate periods are both such spans.
#[derive(Debug, Clone)]
pub struct DaySpan {
    pub days: Vec<Weekday>,
    pub start: HhMm,
    pub end: HhMm,
}

/// Whether `unix_secs` falls inside the span `(days, start, end)` in local time.
pub open spec fn span_holds(
    days: Seq<Weekday>,
    start: int,
    end: int,
    unix_secs: int,
    offset: int,
) -> bool {
    days.contains(local_weekday(unix_secs, offset)) && in_window(
        local_minute(unix_secs, offset),
        start,
        end,
    )
}

pub fn weekdays_contain(days: &Vec<Weekday>, w: Weekday) -> (b: bool)
    ensures
        b == days@.contains(w),
{
    let mut i: usize = 0;
    while i < days.len()
        invariant
            i <= days@.len(),
            forall|j: int| 0 <= j < i ==> days@[j] != w,
        decreases days.len() - i,
    {
        if days[i] == w {
            assert(days@[i as int] == w);
            return true;
        }
        i = i + 1;
    }
    false
}

impl DaySpan {
    pub open spec fn holds_at(&self, unix_secs: int, offset: int) -> bool {
        span_holds(
            self.days@,
            self.start.minute_of_day as int,
            self.end.minute_of_day as int,
            unix_secs,
            offset,
        )
    }

    /// True when `unix_secs` falls inside this span (in local time).
    pub fn contains(&self, unix_secs: i64, utc_offset_seconds: i64) -> (b: bool)
        requires
            offset_fits(unix_secs as int, utc_offset_seconds as int),
        ensures
            b == self.holds_at(unix_secs as int, utc_offset_seconds as int),
    {
        let local = local_time(unix_secs, utc_offset_seconds);
        weekdays_contain(&self.days, local.weekday) && minute_in_window(
            local.minute_of_day,
            self.start,
            self.end,
        )
    }
}


impl DaySpan {
    /// A span from its configured days and `"HH:MM"` bounds; `None` when
    /// either bound does not parse (the entry is then skipped). Day names
    /// that do not parse are dropped.
    pub fn from_config(days: &Vec<String>, start: &str, end: &str) -> (r: Option<DaySpan>)
        ensures
            match (hhmm_minutes(start@), hhmm_minutes(end@)) {
                (Some(s), Some(e)) => r matches Some(sp) && sp.days@ == parsed_days(
                    days@.map_values(|d: String| d@),
                ) && sp.start.minute_of_day == s && sp.end.minute_of_day == e,
                _ => r is None,
            },
    {
        let s = match HhMm::parse(start) {
            Some(t) => t,
            None => {
                return None;
            },
        };
        let e = match HhMm::parse(end) {
            Some(t) => t,
            None => {
                return None;
            },
        };
        Some(DaySpan { days: parse_days(days), start: s, end: e })
    }
}

/// Local midnight (as a local-seconds count) of the day holding `unix_secs`.
pub open spec fn local_day_start(unix_secs: int, offset: int) -> int {
    local_day(unix_secs, offset) * (SECONDS_PER_DAY as int)
}

/// The instant the span's start falls on, `d` local days after the day
/// holding `after`.
pub open spec fn span_start_candidate(after: int, offset: int, start_minute: int, d: int) -> int {
    local_day_start(after, offset) + d * (SECONDS_PER_DAY as int) - offset + start_minute * 60
}

/// Whether the candidate `d` days ahead is strictly after `after` and falls
/// on one of the span's days.
pub open spec fn span_start_qualifies(
    days: Seq<Weekday>,
    after: int,
    offset: int,
    start_minute: int,
    d: int,
) -> bool {
    let t = span_start_candidate(after, offset, start_minute, d);
    t > after && days.contains(local_weekday(t, offset))
}

/// `x`, or `0` when negative.
pub open spec fn max0(x: int) -> int {
    if x < 0 {
        0
    } else {
        x
    }
}

/// Inputs for which scanning `horizon_days` ahead stays within `i64`.
pub open spec fn scan_fits(after: int, offset: int, horizon_days: int) -> bool {
    let h = if horizon_days < 0 {
        0
    } else {
        horizon_days
    };
    &&& i64::MIN + 2 * SECONDS_PER_DAY <= after + offset
    &&& after + offset + (h + 2) * SECONDS_PER_DAY <= i64::MAX
    &&& i64::MIN + 2 * SECONDS_PER_DAY <= after
    &&& after + (h + 2) * SECONDS_PER_DAY <= i64::MAX
    &&& (h + 2) * SECONDS_PER_DAY <= i64::MAX
}

proof fn lemma_day_start_bounds(local: int)
    ensures
        local - SECONDS_PER_DAY < (local / (SECONDS_PER_DAY as int)) * (SECONDS_PER_DAY as int) <= local,
{
    assert((local / 86400) * 86400 <= local && local - 86400 < (local / 86400) * 86400)
        by (nonlinear_arith);
}

impl DaySpan {
    /// Unix seconds of the next start-of-span strictly after `after_unix_secs`,
    /// scanning forward day by day up to `horizon_days` days; `None` if the
    /// span has no days, is empty, or starts on none of the scanned days.
    pub fn next_start_after(
        &self,
        after_unix_secs: i64,
        utc_offset_seconds: i64,
        horizon_days: i64,
    ) -> (r: Option<i64>)
        requires
            scan_fits(after_unix_secs as int, utc_offset_seconds as int, horizon_days as int),
            0 <= self.start.minute_of_day <= 1440,
        ensures
            self.days@.len() == 0 || self.end.minute_of_day <= self.start.minute_of_day
                ==> r == None::<i64>,
            match r {
                Some(t) => exists|d: int|
                    0 <= d <= max0(horizon_days as int) && t == span_start_candidate(
                        after_unix_secs as int,
                        utc_offset_seconds as int,
                        self.start.minute_of_day as int,
                        d,
                    ) && span_start_qualifies(
                        self.days@,
                        after_unix_secs as int,
                        utc_offset_seconds as int,
                        self.start.minute_of_day as int,
                        d,
                    ) && forall|e: int|
                        0 <= e < d ==> !span_start_qualifies(
                            self.days@,
                            after_unix_secs as int,
                            utc_offset_seconds as int,
                            self.start.minute_of_day as int,
                            e,
                        ),
                None => self.days@.len() == 0 || self.end.minute_of_day
                    <= self.start.minute_of_day || forall|e: int|
                    0 <= e <= max0(horizon_days as int) ==> !span_start_qualifies(
                        self.days@,
                        after_unix_secs as int,
                        utc_offset_seconds as int,
                        self.start.minute_of_day as int,
                        e,
                    ),
            },
    {
        if self.days.len() == 0 || self.end.minute_of_day <= self.start.minute_of_day {
            return None;
        }
        let ghost after = after_unix_secs as int;
        let ghost off = utc_offset_seconds as int;
        let ghost sm = self.start.minute_of_day as int;
        let local = after_unix_secs + utc_offset_seconds;
        let day_index = match local.checked_div_euclid(SECONDS_PER_DAY) {
            Some(d) => d,
            None => 0,
        };
        proof {
            lemma_day_start_bounds(local as int);
        }
        let day_start_local = day_index * SECONDS_PER_DAY;
        let h = if horizon_days < 0 {
            0
        } else {
            horizon_days
        };
        let mut day: i64 = 0;
        while day <= h
            invariant
                0 <= day <= h + 1,
                h == (if horizon_days < 0 {
                    0
                } else {
                    horizon_days
                }),
                after == after_unix_secs as int,
                off == utc_offset_seconds as int,
                sm == self.start.minute_of_day as int,
                0 <= sm <= 1440,
                scan_fits(after, off, horizon_days as int),
                day_start_local == local_day_start(after, off),
                local == after + off,
                local - SECONDS_PER_DAY < day_start_local <= local,
                forall|e: int| 0 <= e < day ==> !span_start_qualifies(self.days@, after, off, sm, e),
                self.days@.len() > 0,
                self.end.minute_of_day > self.start.minute_of_day,
            decreases h + 1 - day,
        {
            assert(0 <= day * 86400 <= (h + 1) * 86400) by (nonlinear_arith)
                requires
                    0 <= day <= h + 1,
            ;
            let midnight_local = day_start_local + day * SECONDS_PER_DAY;
            let midnight_unix = midnight_local - utc_offset_seconds;
            let start_unix = midnight_unix + self.start.minute_of_day * 60;
            assert(start_unix == span_start_candidate(after, off, sm, day as int));
            if start_unix > after_unix_secs {
                assert(offset_fits(start_unix as int, off));
                let lt = local_time(start_unix, utc_offset_seconds);
                if weekdays_contain(&self.days, lt.weekday) {
                    assert(span_start_qualifies(self.days@, after, off, sm, day as int));
                    assert(0 <= day <= max0(horizon_days as int));
                    return Some(start_unix);
                }
            }
            assert(!span_start_qualifies(self.days@, after, off, sm, day as int));
            day = day + 1;
        }
        None
    }
}

/// Index of the first span (in order) holding at `unix_secs`.
pub open spec fn first_span_holding(spans: Seq<DaySpan>, unix_secs: int, offset: int) -> Option<int>
    decreases spans.len(),
{
    if spans.len() == 0 {
        None
    } else {
        match first_span_holding(spans.drop_last(), unix_secs, offset) {
            Some(k) => Some(k),
            None => if spans.last().holds_at(unix_secs, offset) {
                Some(spans.len() - 1)
            } else {
                None
            },
        }
    }
}

proof fn lemma_first_span_prefix(spans: Seq<DaySpan>, i: int, unix_secs: int, offset: int)
    requires
        0 <= i < spans.len(),
    ensures
        first_span_holding(spans.subrange(0, i + 1), unix_secs, offset) == (match first_span_holding(
            spans.subrange(0, i),
            unix_secs,
            offset,
        ) {
            Some(k) => Some(k),
            None => if spans[i].holds_at(unix_secs, offset) {
                Some(i)
            } else {
                None
            },
        }),
{
    assert(spans.subrange(0, i + 1).drop_last() =~= spans.subrange(0, i));
}

/// The first span (declaration order) holding at `unix_secs`; the first
/// matching time-of-use period is the one whose rate applies.
pub fn first_span_at(spans: &Vec<DaySpan>, unix_secs: i64, utc_offset_seconds: i64) -> (r: Option<
    usize,
>)
    requires
        offset_fits(unix_secs as int, utc_offset_seconds as int),
    ensures
        match first_span_holding(spans@, unix_secs as int, utc_offset_seconds as int) {
            Some(k) => r == Some(k as usize),
            None => r == None::<usize>,
        },
{
    let mut i: usize = 0;
    while i < spans.len()
        invariant
            i <= spans@.len(),
            offset_fits(unix_secs as int, utc_offset_seconds as int),
            first_span_holding(spans@.subrange(0, i as int), unix_secs as int, utc_offset_seconds as int)
                == None::<int>,
        decreases spans.len() - i,
    {
        proof {
            lemma_first_span_prefix(spans@, i as int, unix_secs as int, utc_offset_seconds as int);
        }
        if spans[i].contains(unix_secs, utc_offset_seconds) {
            proof {
                lemma_first_span_stays(spans@, i as int + 1, unix_secs as int, utc_offset_seconds as int);
            }
            return Some(i);
        }
        i = i + 1;
    }
    assert(spans@.subrange(0, spans@.len() as int) =~= spans@);
    None
}

proof fn lemma_first_span_stays(spans: Seq<DaySpan>, i: int, unix_secs: int, offset: int)
    requires
        0 <= i <= spans.len(),
        first_span_holding(spans.subrange(0, i), unix_secs, offset) is Some,
    ensures
        first_span_holding(spans, unix_secs, offset) == first_span_holding(
            spans.subrange(0, i),
            unix_secs,
            offset,
        ),
    decreases spans.len() - i,
{
    if i < spans.len() {
        lemma_first_span_prefix(spans, i, unix_secs, offset);
        lemma_first_span_stays(spans, i + 1, unix_secs, offset);
    } else {
        assert(spans.subrange(0, i) =~= spans);
    }
}

// ── Slot timeline ───────────────────────────────────────────────────────

/// The discretized horizon: `num_slots` slots of `slot_secs` seconds each,
/// starting at `anchor_unix`. Slot `i` covers
/// `[anchor + i*slot_secs, anchor + (i+1)*slot_secs)`.
#[derive(Debug, Clone, Copy, PartialEq, Eq, Structural)]
pub struct SlotTimeline {
    pub anchor_unix: i64,
    pub slot_secs: i64,
    pub num_slots: usize,
}

/// `x` saturated into the `i64` range.
pub open spec fn sat_i64(x: int) -> int {
    clamp(x, i64::MIN as int, i64::MAX as int)
}

impl SlotTimeline {
    /// Slot lengths run from one second to one day.
    pub open spec fn wf(&self) -> bool {
        1 <= self.slot_secs <= SECONDS_PER_DAY
    }

    /// Start of slot `i`, saturating at the ends of `i64`.
    pub open spec fn start_of(&self, i: int) -> int {
        sat_i64(self.anchor_unix + sat_i64(sat_i64(i) * self.slot_secs))
    }

    /// Unix seconds of the start of slot `i` (saturating, never overflows).
    pub fn slot_start_unix(&self, i: usize) -> (t: i64)
        requires
            self.wf(),
        ensures
            t == self.start_of(i as int),
    {
        let ii: i64 = if (i as u64) > 0x7fff_ffff_ffff_ffffu64 {
            i64::MAX
        } else {
            i as i64
        };
        let offset: i64 = match ii.checked_mul(self.slot_secs) {
            Some(v) => v,
            None => i64::MAX,
        };
        proof {
            if (ii as int) * (self.slot_secs as int) > i64::MAX {
                assert(sat_i64(ii * self.slot_secs) == i64::MAX);
            }
            assert((ii as int) * (self.slot_secs as int) >= 0) by (nonlinear_arith)
                requires
                    ii >= 0,
                    self.slot_secs >= 1,
            ;
        }
        let t = match self.anchor_unix.checked_add(offset) {
            Some(v) => v,
            None => if self.anchor_unix < 0 {
                i64::MIN
            } else {
                i64::MAX
            },
        };
        t
    }

    /// Index of the slot whose half-open span contains `unix_secs`, if any.
    pub fn slot_index_for(&self, unix_secs: i64) -> (r: Option<usize>)
        requires
            self.wf(),
            unix_secs - self.anchor_unix <= i64::MAX,
        ensures
            unix_secs < self.anchor_unix ==> r == None::<usize>,
            unix_secs >= self.anchor_unix ==> ({
                let idx = (unix_secs - self.anchor_unix) / (self.slot_secs as int);
                if idx < self.num_slots {
                    r == Some(idx as usize)
                } else {
                    r == None::<usize>
                }
            }),
    {
        if unix_secs < self.anchor_unix {
            return None;
        }
        let idx = (unix_secs - self.anchor_unix) / self.slot_secs;
        if (idx as u64) < (self.num_slots as u64) {
            Some(idx as usize)
        } else {
            None
        }
    }

    /// Whether slot `i` starts inside `span`.
    pub open spec fn slot_in_span(&self, span: DaySpan, offset: int, i: int) -> bool {
        span.holds_at(self.start_of(i), offset)
    }

    /// Every slot start of the timeline can be shifted by `offset`.
    pub open spec fn offsets_fit(&self, offset: int) -> bool {
        forall|i: int| 0 <= i < self.num_slots ==> #[trigger] offset_fits(self.start_of(i), offset)
    }
}

/// `runs` splits the indices `i < n` with `flag(i)` into maximal runs of
/// consecutive indices, in increasing order.
pub open spec fn is_run_split(n: int, flag: spec_fn(int) -> bool, runs: Seq<Seq<usize>>) -> bool {
    &&& forall|k: int| 0 <= k < runs.len() ==> #[trigger] runs[k].len() > 0
    &&& forall|k: int, j: int|
        0 <= k < runs.len() && 0 <= j < runs[k].len() ==> 0 <= #[trigger] runs[k][j] < n
            && flag(runs[k][j] as int)
    &&& forall|k: int, j: int|
        0 <= k < runs.len() && 0 <= j < runs[k].len() - 1 ==> #[trigger] runs[k][j + 1] == runs[k][j]
            + 1
    &&& forall|k: int|
        0 <= k < runs.len() - 1 ==> #[trigger] runs[k].last() + 1 < runs[k + 1][0]
    &&& forall|i: int|
        0 <= i < n && #[trigger] flag(i) ==> exists|k: int, j: int|
            0 <= k < runs.len() && 0 <= j < runs[k].len() && runs[k][j] == i
}

/// The contiguous runs of slots that start inside `span`: each run is one
/// occurrence of a recurring window inside the horizon (e.g. the Saturday and
/// the Sunday of a weekend window are two runs).
pub fn window_occurrences(tl: &SlotTimeline, span: &DaySpan, utc_offset_seconds: i64) -> (runs: Vec<
    Vec<usize>,
>)
    requires
        tl.wf(),
        tl.offsets_fit(utc_offset_seconds as int),
    ensures
        is_run_split(
            tl.num_slots as int,
            |i: int| tl.slot_in_span(*span, utc_offset_seconds as int, i),
            runs@.map_values(|r: Vec<usize>| r@),
        ),
{
    let ghost flag = |i: int| tl.slot_in_span(*span, utc_offset_seconds as int, i);
    let mut runs: Vec<Vec<usize>> = Vec::new();
    let mut current: Vec<usize> = Vec::new();
    let n = tl.num_slots;
    let mut i: usize = 0;
    while i < n
        invariant
            tl.wf(),
            tl.offsets_fit(utc_offset_seconds as int),
            n == tl.num_slots,
            i <= n,
            flag == (|i: int| tl.slot_in_span(*span, utc_offset_seconds as int, i)),
            // closed runs
            forall|k: int| 0 <= k < runs@.len() ==> #[trigger] runs@[k]@.len() > 0,
            forall|k: int, j: int|
                0 <= k < runs@.len() && 0 <= j < runs@[k]@.len() ==> 0 <= #[trigger] runs@[k]@[j] < i
                    && flag(runs@[k]@[j] as int),
            forall|k: int, j: int|
                0 <= k < runs@.len() && 0 <= j < runs@[k]@.len() - 1 ==> #[trigger] runs@[k]@[j + 1]
                    == runs@[k]@[j] + 1,
            forall|k: int|
                0 <= k < runs@.len() - 1 ==> #[trigger] runs@[k]@.last() + 1 < runs@[k + 1]@[0],
            // closed runs end before a gap
            runs@.len() > 0 ==> runs@.last()@.last() + 1 < i,
            runs@.len() > 0 && current@.len() > 0 ==> runs@.last()@.last() + 1 < current@[0],
            // the open run
            forall|j: int| 0 <= j < current@.len() ==> #[trigger] current@[j] < i && flag(current@[j] as int),
            forall|j: int| 0 <= j < current@.len() - 1 ==> #[trigger] current@[j + 1] == current@[j] + 1,
            current@.len() > 0 ==> current@.last() + 1 == i,
            // coverage
            forall|x: int|
                0 <= x < i && #[trigger] flag(x) ==> (exists|k: int, j: int|
                    0 <= k < runs@.len() && 0 <= j < runs@[k]@.len() && runs@[k]@[j] == x) || (exists|
                    j: int,
                | 0 <= j < current@.len() && current@[j] == x),
        decreases n - i,
    {
        let t = tl.slot_start_unix(i);
        assert(offset_fits(tl.start_of(i as int), utc_offset_seconds as int));
        if span.contains(t, utc_offset_seconds) {
            let ghost old_current = current@;
            current.push(i);
            proof {
                assert forall|x: int| 0 <= x < i + 1 && #[trigger] flag(x) implies (exists|k: int, j: int|
                    0 <= k < runs@.len() && 0 <= j < runs@[k]@.len() && runs@[k]@[j] == x) || (exists|
                    j: int,
                | 0 <= j < current@.len() && current@[j] == x) by {
                    if x == i {
                        assert(current@[current@.len() - 1] == x);
                    } else {
                        if exists|j: int| 0 <= j < old_current.len() && old_current[j] == x {
                            let j = choose|j: int| 0 <= j < old_current.len() && old_current[j] == x;
                            assert(current@[j] == x);
                        }
                    }
                }
            }
        } else if current.len() > 0 {
            let ghost old_runs = runs@;
            let ghost closed = current@;
            let mut taken: Vec<usize> = Vec::new();
            std::mem::swap(&mut taken, &mut current);
            runs.push(taken);
            proof {
                assert(runs@[runs@.len() - 1]@ == closed);
                assert forall|x: int| 0 <= x < i + 1 && #[trigger] flag(x) implies (exists|k: int, j: int|
                    0 <= k < runs@.len() && 0 <= j < runs@[k]@.len() && runs@[k]@[j] == x) || (exists|
                    j: int,
                | 0 <= j < current@.len() && current@[j] == x) by {
                    if x < i {
                        if exists|k: int, j: int|
                            0 <= k < old_runs.len() && 0 <= j < old_runs[k]@.len() && old_runs[k]@[j] == x {
                            let (k, j) = choose|k: int, j: int|
                                0 <= k < old_runs.len() && 0 <= j < old_runs[k]@.len() && old_runs[k]@[j]
                                    == x;
                            assert(runs@[k]@[j] == x);
                        } else {
                            let j = choose|j: int| 0 <= j < closed.len() && closed[j] == x;
                            assert(runs@[runs@.len() - 1]@[j] == x);
                        }
                    }
                }
            }
        }
        i = i + 1;
    }
    if current.len() > 0 {
        let ghost old_runs = runs@;
        let ghost closed = current@;
        runs.push(current);
        proof {
            assert(runs@[runs@.len() - 1]@ == closed);
            assert forall|x: int| 0 <= x < n && #[trigger] flag(x) implies exists|k: int, j: int|
                0 <= k < runs@.len() && 0 <= j < runs@[k]@.len() && runs@[k]@[j] == x by {
                if exists|k: int, j: int|
                    0 <= k < old_runs.len() && 0 <= j < old_runs[k]@.len() && old_runs[k]@[j] == x {
                    let (k, j) = choose|k: int, j: int|
                        0 <= k < old_runs.len() && 0 <= j < old_runs[k]@.len() && old_runs[k]@[j] == x;
                    assert(runs@[k]@[j] == x);
                } else {
                    let j = choose|j: int| 0 <= j < closed.len() && closed[j] == x;
                    assert(runs@[runs@.len() - 1]@[j] == x);
                }
            }
        }
    }
    proof {
        let rv = runs@.map_values(|r: Vec<usize>| r@);
        assert forall|k: int| 0 <= k < rv.len() implies #[trigger] rv[k] == runs@[k]@ by {}
        assert forall|k: int| 0 <= k < rv.len() implies #[trigger] rv[k].len() > 0 by {
            assert(runs@[k]@.len() > 0);
        }
        assert forall|k: int, j: int|
            0 <= k < rv.len() && 0 <= j < rv[k].len() implies 0 <= #[trigger] rv[k][j] < n
                && flag(rv[k][j] as int) by {
            assert(rv[k] == runs@[k]@);
            assert(0 <= runs@[k]@[j] < n);
        }
        assert forall|k: int, j: int|
            0 <= k < rv.len() && 0 <= j < rv[k].len() - 1 implies #[trigger] rv[k][j + 1] == rv[k][j]
                + 1 by {
            assert(rv[k] == runs@[k]@);
            assert(runs@[k]@[j + 1] == runs@[k]@[j] + 1);
        }
        assert forall|k: int| 0 <= k < rv.len() - 1 implies #[trigger] rv[k].last() + 1 < rv[k + 1][0] by {
            assert(rv[k] == runs@[k]@);
            assert(rv[k + 1] == runs@[k + 1]@);
            assert(runs@[k]@.last() + 1 < runs@[k + 1]@[0]);
        }
        assert forall|x: int| 0 <= x < n && #[trigger] flag(x) implies exists|k: int, j: int|
            0 <= k < rv.len() && 0 <= j < rv[k].len() && rv[k][j] == x by {
            let (k, j) = choose|k: int, j: int|
                0 <= k < runs@.len() && 0 <= j < runs@[k]@.len() && runs@[k]@[j] == x;
            assert(rv[k] == runs@[k]@);
        }
        assert(is_run_split(n as int, flag, rv));
    }
    runs
}

/// Lead-time slots for one occurrence: those in `[lead_start, first_slot)`
/// not already heated and not starting inside the span, in increasing order.
pub fn lead_candidates(
    tl: &SlotTimeline,
    span: &DaySpan,
    utc_offset_seconds: i64,
    lead_start: usize,
    first_slot: usize,
    heat_on: &Vec<bool>,
) -> (c: Vec<usize>)
    requires
        tl.wf(),
        tl.offsets_fit(utc_offset_seconds as int),
        first_slot <= tl.num_slots,
        heat_on@.len() == tl.num_slots,
    ensures
        forall|j: int|
            0 <= j < c@.len() ==> lead_start <= #[trigger] c@[j] < first_slot && !heat_on@[c@[j] as int]
                && !tl.slot_in_span(*span, utc_offset_seconds as int, c@[j] as int),
        forall|j: int, k: int| 0 <= j < k < c@.len() ==> c@[j] < c@[k],
        forall|x: int|
            lead_start <= x < first_slot && !(#[trigger] heat_on@[x]) && !tl.slot_in_span(
                *span,
                utc_offset_seconds as int,
                x,
            ) ==> c@.contains(x as usize),
{
    let mut c: Vec<usize> = Vec::new();
    if lead_start >= first_slot {
        return c;
    }
    let mut i = lead_start;
    while i < first_slot
        invariant
            tl.wf(),
            tl.offsets_fit(utc_offset_seconds as int),
            first_slot <= tl.num_slots,
            heat_on@.len() == tl.num_slots,
            lead_start <= i <= first_slot,
            forall|j: int|
                0 <= j < c@.len() ==> lead_start <= #[trigger] c@[j] < i && !heat_on@[c@[j] as int]
                    && !tl.slot_in_span(*span, utc_offset_seconds as int, c@[j] as int),
            forall|j: int, k: int| 0 <= j < k < c@.len() ==> c@[j] < c@[k],
            forall|x: int|
                lead_start <= x < i && !(#[trigger] heat_on@[x]) && !tl.slot_in_span(
                    *span,
                    utc_offset_seconds as int,
                    x,
                ) ==> c@.contains(x as usize),
        decreases first_slot - i,
    {
        let t = tl.slot_start_unix(i);
        assert(offset_fits(tl.start_of(i as int), utc_offset_seconds as int));
        let ghost before = c@;
        let keep = !heat_on[i] && !span.contains(t, utc_offset_seconds);
        if keep {
            c.push(i);
            proof {
                assert(c@[before.len() as int] == i);
                assert forall|x: int|
                    lead_start <= x < i + 1 && !(#[trigger] heat_on@[x]) && !tl.slot_in_span(
                        *span,
                        utc_offset_seconds as int,
                        x,
                    ) implies c@.contains(x as usize) by {
                    if x < i {
                        let j = choose|j: int| 0 <= j < before.len() && before[j] == x as usize;
                        assert(c@[j] == x as usize);
                    }
                }
            }
        }
        i = i + 1;
    }
    c
}

} // verus!

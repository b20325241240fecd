//! The weather cache behind the pool-temperature predictor: recent observed
//! samples plus a few forecast hours, kept in time order, with observed
//! samples retained 48 hours, forecasts 12 hours ahead, and at most 128
//! samples in all. A failed fetch leaves the cache as it was. Also the
//! sanitised fetch errors and the endpoint/key settings.
//!
//! The cache is generic in what a sample carries; only its time and its
//! forecast flag steer the cache.

use vstd::prelude::*;
use crate::text::{chars_of, owned, push_nat, trim, trimmed_chars};

verus! {

pub const MS_PER_HOUR: i64 = 3_600_000;

/// How long observed samples are retained.
pub const OBSERVED_RETENTION_HOURS: i64 = 48;

/// How far into the future forecast samples are retained.
pub const FORECAST_HORIZON_HOURS: i64 = 12;

/// Hard cap on retained samples.
pub const MAX_SAMPLES: usize = 128;

// ── Errors and settings ─────────────────────────────────────────────────

/// A failed live weather fetch, reduced to a classification that can never
/// carry the request URL (which holds the API key).
#[derive(Debug, Clone, Copy, PartialEq, Eq)]
pub enum WeatherError {
    MissingApiKey,
    /// A transport-level failure, as a static kind.
    Transport(&'static str),
    /// The endpoint answered with a non-success status.
    Status(u16),
}

pub open spec fn weather_error_text(e: WeatherError) -> Seq<char> {
    match e {
        WeatherError::MissingApiKey => "OPENWEATHER_API_KEY not set"@,
        WeatherError::Transport(k) => "weather transport error ("@ + k@ + ")"@,
        WeatherError::Status(s) => "weather endpoint returned status "@ + crate::text::nat_text(
            s as nat,
        ),
    }
}

impl WeatherError {
    /// The error's display text.
    pub fn message(&self) -> (s: String)
        ensures
            s@ == weather_error_text(*self),
    {
        match self {
            WeatherError::MissingApiKey => owned("OPENWEATHER_API_KEY not set"),
            WeatherError::Transport(k) => {
                let mut s = owned("weather transport error (");
                s.append(k);
                s.append(")");
                s
            },
            WeatherError::Status(code) => {
                let mut s = owned("weather endpoint returned status ");
                push_nat(&mut s, *code as u64);
                s
            },
        }
    }
}

/// What a failed HTTP request reports about itself: its status, if it got
/// one, and which kind of failure it was.
#[derive(Debug, Clone, Copy)]
pub struct RequestFailure {
    pub status: Option<u16>,
    pub is_timeout: bool,
    pub is_connect: bool,
    pub is_decode: bool,
    pub is_body: bool,
    pub is_request: bool,
}

pub open spec fn sanitized_spec(f: RequestFailure) -> WeatherError {
    match f.status {
        Some(s) => WeatherError::Status(s),
        None => WeatherError::Transport(
            if f.is_timeout {
                "timeout"
            } else if f.is_connect {
                "connect"
            } else if f.is_decode {
                "decode"
            } else if f.is_body {
                "body"
            } else if f.is_request {
                "request"
            } else {
                "other"
            },
        ),
    }
}

/// Reduce a failed request to a [`WeatherError`]: its status when it has
/// one, else the first matching kind.
pub fn sanitize_request_failure(f: RequestFailure) -> (e: WeatherError)
    ensures
        e == sanitized_spec(f),
{
    match f.status {
        Some(s) => WeatherError::Status(s),
        None => {
            let kind = if f.is_timeout {
                "timeout"
            } else if f.is_connect {
                "connect"
            } else if f.is_decode {
                "decode"
            } else if f.is_body {
                "body"
            } else if f.is_request {
                "request"
            } else {
                "other"
            };
            WeatherError::Transport(kind)
        },
    }
}

/// An API key is used only when it is not blank.
pub fn api_key_usable(key: &str) -> (b: bool)
    ensures
        b == (trim(key@).len() > 0),
{
    trimmed_chars(key).len() > 0
}

/// `s` without trailing slashes.
pub open spec fn strip_trailing_slashes(s: Seq<char>) -> Seq<char>
    decreases s.len(),
{
    if s.len() > 0 && s.last() == '/' {
        strip_trailing_slashes(s.drop_last())
    } else {
        s
    }
}

/// The canonical OpenWeather host.
pub open spec fn default_base_url() -> Seq<char> {
    "https://api.openweathermap.org"@
}

/// The endpoint base: the override when it is not blank, else the canonical
/// host; either way without trailing slashes.
pub open spec fn base_url_spec(override_url: Option<Seq<char>>) -> Seq<char> {
    match override_url {
        Some(u) => if trim(u).len() > 0 {
            strip_trailing_slashes(u)
        } else {
            strip_trailing_slashes(default_base_url())
        },
        None => strip_trailing_slashes(default_base_url()),
    }
}

fn without_trailing_slashes(s: &str) -> (r: String)
    ensures
        r@ == strip_trailing_slashes(s@),
{
    let v = chars_of(s);
    let mut n = v.len();
    assert(v@.subrange(0, n as int) =~= v@);
    while n > 0 && v[n - 1] == '/'
        invariant
            n <= v@.len(),
            strip_trailing_slashes(v@.subrange(0, n as int)) == strip_trailing_slashes(v@),
        decreases n,
    {
        assert(v@.subrange(0, n as int).drop_last() =~= v@.subrange(0, n - 1));
        n = n - 1;
    }
    proof {
        if n > 0 {
            assert(v@.subrange(0, n as int).last() != '/');
        }
        assert(strip_trailing_slashes(v@.subrange(0, n as int)) == v@.subrange(0, n as int));
        assert(v@ == s@);
    }
    String::from_str(s.substring_char(0, n))
}

/// The endpoint base for an optional override (from the environment).
pub fn weather_base_url(override_url: Option<&str>) -> (u: String)
    ensures
        u@ == base_url_spec(
            match override_url {
                Some(s) => Some(s@),
                None => None,
            },
        ),
{
    match override_url {
        Some(s) => if api_key_usable(s) {
            without_trailing_slashes(s)
        } else {
            without_trailing_slashes("https://api.openweathermap.org")
        },
        None => without_trailing_slashes("https://api.openweathermap.org"),
    }
}

/// Unix seconds to unix milliseconds, saturating at the ends of `i64`.
pub open spec fn seconds_to_ms_spec(secs: int) -> int {
    if secs * 1000 > i64::MAX {
        i64::MAX as int
    } else if secs * 1000 < i64::MIN {
        i64::MIN as int
    } else {
        secs * 1000
    }
}

pub fn seconds_to_ms(secs: i64) -> (ms: i64)
    ensures
        ms == seconds_to_ms_spec(secs as int),
{
    match secs.checked_mul(1000) {
        Some(v) => v,
        None => if secs > 0 {
            i64::MAX
        } else {
            i64::MIN
        },
    }
}

// ── Samples ─────────────────────────────────────────────────────────────

/// A weather sample: when it was observed (or forecast for), whether it is a
/// forecast, and what it carries.
#[derive(Debug, Clone, Copy)]
pub struct Timed<T> {
    pub observed_at_unix_ms: i64,
    pub is_forecast: bool,
    pub data: T,
}

pub open spec fn at<T>(x: Timed<T>) -> int {
    x.observed_at_unix_ms as int
}

/// Earlier samples never come after later ones.
pub open spec fn sorted_by_time<T>(s: Seq<Timed<T>>) -> bool {
    forall|i: int, j: int| 0 <= i < j < s.len() ==> at(s[i]) <= at(s[j])
}

/// The samples of `s` for which `keep` holds, in order.
pub open spec fn select<T>(s: Seq<Timed<T>>, keep: spec_fn(Timed<T>) -> bool) -> Seq<Timed<T>>
    decreases s.len(),
{
    if s.len() == 0 {
        s
    } else if keep(s.last()) {
        select(s.drop_last(), keep).push(s.last())
    } else {
        select(s.drop_last(), keep)
    }
}

/// Where `x` goes among time-sorted samples `s`: after every sample not later
/// than it.
pub open spec fn first_after<T>(s: Seq<Timed<T>>, t: int) -> nat
    decreases s.len(),
{
    if s.len() == 0 {
        0
    } else if at(s[0]) > t {
        0
    } else {
        1 + first_after(s.drop_first(), t)
    }
}

/// `x` inserted after every sample of `s` that is not later than it.
pub open spec fn insert_stable<T>(s: Seq<Timed<T>>, x: Timed<T>) -> Seq<Timed<T>> {
    s.insert(first_after(s, at(x)) as int, x)
}

/// `s` sorted by time, samples with equal times keeping their order.
pub open spec fn stable_sort<T>(s: Seq<Timed<T>>) -> Seq<Timed<T>>
    decreases s.len(),
{
    if s.len() == 0 {
        s
    } else {
        insert_stable(stable_sort(s.drop_last()), s.last())
    }
}

/// `extra` inserted one after the other into `s`.
pub open spec fn insert_all<T>(s: Seq<Timed<T>>, extra: Seq<Timed<T>>) -> Seq<Timed<T>>
    decreases extra.len(),
{
    if extra.len() == 0 {
        s
    } else {
        insert_stable(insert_all(s, extra.drop_last()), extra.last())
    }
}

/// Whether a sample is still retained at `now`: observed samples for 48
/// hours, forecasts up to 12 hours ahead.
pub open spec fn retained<T>(x: Timed<T>, now: int) -> bool {
    if x.is_forecast {
        at(x) <= now + FORECAST_HORIZON_HOURS * MS_PER_HOUR
    } else {
        at(x) >= now - OBSERVED_RETENTION_HOURS * MS_PER_HOUR
    }
}

pub open spec fn keep_retained<T>(now: int) -> spec_fn(Timed<T>) -> bool {
    |x: Timed<T>| retained(x, now)
}

pub open spec fn keep_observed<T>() -> spec_fn(Timed<T>) -> bool {
    |x: Timed<T>| !x.is_forecast
}

/// At most the newest 128 samples of a time-sorted sequence.
pub open spec fn cap<T>(s: Seq<Timed<T>>) -> Seq<Timed<T>> {
    if s.len() > MAX_SAMPLES {
        s.subrange(s.len() - MAX_SAMPLES, s.len() as int)
    } else {
        s
    }
}

/// Eviction at `now`: drop what is out of its window, order by time, keep
/// the newest 128.
pub open spec fn prune_spec<T>(s: Seq<Timed<T>>, now: int) -> Seq<Timed<T>> {
    cap(stable_sort(select(s, keep_retained(now))))
}

pub open spec fn as_observation<T>(x: Timed<T>) -> Timed<T> {
    Timed { observed_at_unix_ms: x.observed_at_unix_ms, is_forecast: false, data: x.data }
}

pub open spec fn as_forecast<T>(x: Timed<T>) -> Timed<T> {
    Timed { observed_at_unix_ms: x.observed_at_unix_ms, is_forecast: true, data: x.data }
}

pub open spec fn as_forecasts<T>(s: Seq<Timed<T>>) -> Seq<Timed<T>> {
    s.map_values(|x: Timed<T>| as_forecast(x))
}

// ── Lemmas on the orderings ─────────────────────────────────────────────

proof fn lemma_first_after<T>(s: Seq<Timed<T>>, t: int)
    ensures
        first_after(s, t) <= s.len(),
        forall|j: int| 0 <= j < first_after(s, t) ==> at(#[trigger] s[j]) <= t,
        first_after(s, t) < s.len() ==> at(s[first_after(s, t) as int]) > t,
    decreases s.len(),
{
    if s.len() > 0 && at(s[0]) <= t {
        lemma_first_after(s.drop_first(), t);
        assert forall|j: int| 0 <= j < first_after(s, t) implies at(#[trigger] s[j]) <= t by {
            if j > 0 {
                assert(s[j] == s.drop_first()[j - 1]);
            }
        }
        if first_after(s, t) < s.len() {
            assert(s[first_after(s, t) as int] == s.drop_first()[first_after(s.drop_first(), t) as int]);
        }
    }
}

proof fn lemma_first_after_unique<T>(s: Seq<Timed<T>>, t: int, k: int)
    requires
        0 <= k <= s.len(),
        forall|j: int| 0 <= j < k ==> at(#[trigger] s[j]) <= t,
        k < s.len() ==> at(s[k]) > t,
    ensures
        first_after(s, t) == k,
    decreases s.len(),
{
    if k > 0 {
        assert(at(s[0]) <= t);
        let r = s.drop_first();
        assert forall|j: int| 0 <= j < k - 1 implies at(#[trigger] r[j]) <= t by {
            assert(r[j] == s[j + 1]);
        }
        if k - 1 < r.len() {
            assert(r[k - 1] == s[k]);
        }
        lemma_first_after_unique(r, t, k - 1);
    }
}

proof fn lemma_insert_sorted<T>(s: Seq<Timed<T>>, x: Timed<T>)
    requires
        sorted_by_time(s),
    ensures
        sorted_by_time(insert_stable(s, x)),
        insert_stable(s, x).len() == s.len() + 1,
{
    let k = first_after(s, at(x)) as int;
    lemma_first_after(s, at(x));
    let r = insert_stable(s, x);
    assert forall|i: int, j: int| 0 <= i < j < r.len() implies at(r[i]) <= at(r[j]) by {
        if j < k {
            assert(r[i] == s[i] && r[j] == s[j]);
        } else if j == k {
            assert(r[j] == x);
            assert(r[i] == s[i]);
        } else if i < k {
            assert(r[i] == s[i]);
            assert(r[j] == s[j - 1]);
            if k < s.len() {
                assert(at(s[k]) > at(x));
                assert(at(s[k]) <= at(s[j - 1]));
            }
        } else if i == k {
            assert(r[i] == x);
            assert(r[j] == s[j - 1]);
            assert(at(s[k]) > at(x));
            if j - 1 > k {
                assert(at(s[k]) <= at(s[j - 1]));
            }
        } else {
            assert(r[i] == s[i - 1] && r[j] == s[j - 1]);
        }
    }
}

/// Inserting a sample not earlier than all of a sorted sequence appends it.
proof fn lemma_insert_last<T>(s: Seq<Timed<T>>, x: Timed<T>)
    requires
        forall|j: int| 0 <= j < s.len() ==> at(#[trigger] s[j]) <= at(x),
    ensures
        insert_stable(s, x) == s.push(x),
{
    lemma_first_after_unique(s, at(x), s.len() as int);
    assert(s.insert(s.len() as int, x) =~= s.push(x));
}

proof fn lemma_sorted_sort_id<T>(s: Seq<Timed<T>>)
    requires
        sorted_by_time(s),
    ensures
        stable_sort(s) == s,
    decreases s.len(),
{
    if s.len() > 0 {
        let d = s.drop_last();
        assert(sorted_by_time(d));
        lemma_sorted_sort_id(d);
        assert forall|j: int| 0 <= j < d.len() implies at(#[trigger] d[j]) <= at(s.last()) by {
            assert(d[j] == s[j]);
        }
        lemma_insert_last(d, s.last());
        assert(d.push(s.last()) =~= s);
    }
}

proof fn lemma_sort_append<T>(a: Seq<Timed<T>>, b: Seq<Timed<T>>)
    ensures
        stable_sort(a + b) == insert_all(stable_sort(a), b),
    decreases b.len(),
{
    if b.len() == 0 {
        assert(a + b =~= a);
    } else {
        assert((a + b).drop_last() =~= a + b.drop_last());
        assert((a + b).last() == b.last());
        lemma_sort_append(a, b.drop_last());
    }
}

proof fn lemma_select_sorted<T>(s: Seq<Timed<T>>, keep: spec_fn(Timed<T>) -> bool)
    requires
        sorted_by_time(s),
    ensures
        sorted_by_time(select(s, keep)),
        select(s, keep).len() <= s.len(),
        forall|i: int|
            0 <= i < select(s, keep).len() ==> exists|j: int|
                0 <= j < s.len() && #[trigger] select(s, keep)[i] == s[j],
    decreases s.len(),
{
    if s.len() > 0 {
        let d = s.drop_last();
        assert(sorted_by_time(d));
        lemma_select_sorted(d, keep);
        let p = select(d, keep);
        assert forall|i: int| 0 <= i < p.len() implies exists|j: int|
            0 <= j < s.len() && #[trigger] p[i] == s[j] by {
            let j = choose|j: int| 0 <= j < d.len() && p[i] == d[j];
            assert(p[i] == s[j]);
        }
        if keep(s.last()) {
            let r = p.push(s.last());
            assert forall|i: int, j: int| 0 <= i < j < r.len() implies at(r[i]) <= at(r[j]) by {
                if j == r.len() - 1 {
                    let jj = choose|jj: int| 0 <= jj < s.len() && p[i] == s[jj];
                    assert(r[i] == s[jj]);
                    assert(r[j] == s[s.len() - 1]);
                } else {
                    assert(r[i] == p[i] && r[j] == p[j]);
                }
            }
            assert forall|i: int| 0 <= i < r.len() implies exists|j: int|
                0 <= j < s.len() && #[trigger] r[i] == s[j] by {
                if i == r.len() - 1 {
                    assert(r[i] == s[s.len() - 1]);
                } else {
                    assert(r[i] == p[i]);
                }
            }
        }
    }
}

proof fn lemma_select_append<T>(a: Seq<Timed<T>>, b: Seq<Timed<T>>, keep: spec_fn(Timed<T>) -> bool)
    ensures
        select(a + b, keep) == select(a, keep) + select(b, keep),
    decreases b.len(),
{
    if b.len() == 0 {
        assert(a + b =~= a);
        assert(select(a, keep) + select(b, keep) =~= select(a, keep));
    } else {
        assert((a + b).drop_last() =~= a + b.drop_last());
        lemma_select_append(a, b.drop_last(), keep);
        if keep(b.last()) {
            assert(select(a, keep) + select(b.drop_last(), keep).push(b.last()) =~= (select(a, keep)
                + select(b.drop_last(), keep)).push(b.last()));
        }
    }
}

proof fn lemma_cap_sorted<T>(s: Seq<Timed<T>>)
    requires
        sorted_by_time(s),
    ensures
        sorted_by_time(cap(s)),
        cap(s).len() <= MAX_SAMPLES,
{
    if s.len() > MAX_SAMPLES {
        let c = cap(s);
        assert forall|i: int, j: int| 0 <= i < j < c.len() implies at(c[i]) <= at(c[j]) by {
            assert(c[i] == s[i + s.len() - MAX_SAMPLES]);
            assert(c[j] == s[j + s.len() - MAX_SAMPLES]);
        }
    }
}

// ── The cache ───────────────────────────────────────────────────────────

/// Recent weather samples, kept in time order.
#[derive(Debug)]
pub struct WeatherCache<T> {
    samples: Vec<Timed<T>>,
}

/// Remove and return the first element.
fn take_first<T>(v: &mut Vec<Timed<T>>) -> (x: Timed<T>)
    requires
        old(v)@.len() > 0,
    ensures
        x == old(v)@[0],
        final(v)@ == old(v)@.drop_first(),
{
    let x = v.remove(0);
    proof {
        assert(old(v)@.remove(0) =~= old(v)@.drop_first());
    }
    x
}

/// Insert `x` after every sample of the sorted `v` that is not later.
fn insert_in_order<T>(v: &mut Vec<Timed<T>>, x: Timed<T>)
    requires
        sorted_by_time(old(v)@),
    ensures
        final(v)@ == insert_stable(old(v)@, x),
        sorted_by_time(final(v)@),
{
    let mut k: usize = 0;
    let n = v.len();
    while k < n && v[k].observed_at_unix_ms <= x.observed_at_unix_ms
        invariant
            k <= n,
            n == v@.len(),
            v@ == old(v)@,
            forall|j: int| 0 <= j < k ==> at(#[trigger] v@[j]) <= at(x),
        decreases n - k,
    {
        k = k + 1;
    }
    proof {
        lemma_first_after_unique(v@, at(x), k as int);
        lemma_insert_sorted(v@, x);
    }
    v.insert(k, x);
}

/// The samples of `v` still retained at `now`, in order.
fn retain_window<T>(v: Vec<Timed<T>>, now: i64) -> (r: Vec<Timed<T>>)
    requires
        i64::MIN + OBSERVED_RETENTION_HOURS * MS_PER_HOUR <= now <= i64::MAX - FORECAST_HORIZON_HOURS
            * MS_PER_HOUR,
    ensures
        r@ == select(v@, keep_retained(now as int)),
{
    let floor = now - OBSERVED_RETENTION_HOURS * MS_PER_HOUR;
    let ceiling = now + FORECAST_HORIZON_HOURS * MS_PER_HOUR;
    let mut rest = v;
    let mut out: Vec<Timed<T>> = Vec::new();
    let ghost all = rest@;
    let ghost mut taken: int = 0;
    while rest.len() > 0
        invariant
            0 <= taken <= all.len(),
            rest@ == all.subrange(taken, all.len() as int),
            out@ == select(all.subrange(0, taken), keep_retained(now as int)),
            floor == now - OBSERVED_RETENTION_HOURS * MS_PER_HOUR,
            ceiling == now + FORECAST_HORIZON_HOURS * MS_PER_HOUR,
        decreases rest.len(),
    {
        let x = take_first(&mut rest);
        proof {
            assert(x == all[taken]);
            assert(all.subrange(0, taken + 1).drop_last() =~= all.subrange(0, taken));
            assert(all.subrange(0, taken + 1).last() == x);
            taken = taken + 1;
            assert(rest@ =~= all.subrange(taken, all.len() as int));
        }
        let keep = if x.is_forecast {
            x.observed_at_unix_ms <= ceiling
        } else {
            x.observed_at_unix_ms >= floor
        };
        if keep {
            out.push(x);
        }
    }
    proof {
        assert(all.subrange(0, taken) =~= all);
    }
    out
}

/// The observed (non-forecast) samples of `v`, in order.
fn retain_observed<T>(v: Vec<Timed<T>>) -> (r: Vec<Timed<T>>)
    ensures
        r@ == select(v@, keep_observed()),
{
    let mut rest = v;
    let mut out: Vec<Timed<T>> = Vec::new();
    let ghost all = rest@;
    let ghost mut taken: int = 0;
    while rest.len() > 0
        invariant
            0 <= taken <= all.len(),
            rest@ == all.subrange(taken, all.len() as int),
            out@ == select(all.subrange(0, taken), keep_observed()),
        decreases rest.len(),
    {
        let x = take_first(&mut rest);
        proof {
            assert(x == all[taken]);
            assert(all.subrange(0, taken + 1).drop_last() =~= all.subrange(0, taken));
            assert(all.subrange(0, taken + 1).last() == x);
            taken = taken + 1;
            assert(rest@ =~= all.subrange(taken, all.len() as int));
        }
        if !x.is_forecast {
            out.push(x);
        }
    }
    proof {
        assert(all.subrange(0, taken) =~= all);
    }
    out
}

/// Drop the oldest samples beyond the cap.
fn cap_oldest<T>(v: &mut Vec<Timed<T>>)
    ensures
        final(v)@ == cap(old(v)@),
{
    let ghost s = v@;
    let ghost mut dropped: int = 0;
    while v.len() > MAX_SAMPLES
        invariant
            0 <= dropped <= s.len(),
            v@ == s.subrange(dropped, s.len() as int),
            s.len() > MAX_SAMPLES ==> dropped <= s.len() - MAX_SAMPLES,
            s.len() <= MAX_SAMPLES ==> dropped == 0,
        decreases v.len(),
    {
        let _ = take_first(v);
        proof {
            dropped = dropped + 1;
            assert(v@ =~= s.subrange(dropped, s.len() as int));
        }
    }
    proof {
        if s.len() <= MAX_SAMPLES {
            assert(v@ =~= s);
        }
    }
}

/// The window limits are representable around `now`.
pub open spec fn now_in_range(now: int) -> bool {
    i64::MIN + OBSERVED_RETENTION_HOURS * MS_PER_HOUR <= now <= i64::MAX - FORECAST_HORIZON_HOURS
        * MS_PER_HOUR
}

impl<T> WeatherCache<T> {
    /// The cache keeps its samples in time order.
    pub closed spec fn wf(&self) -> bool {
        sorted_by_time(self.samples@)
    }

    /// The samples, oldest first.
    pub closed spec fn view(&self) -> Seq<Timed<T>> {
        self.samples@
    }

    pub fn new() -> (c: Self)
        ensures
            c.wf(),
            c.view().len() == 0,
    {
        WeatherCache { samples: Vec::new() }
    }

    /// A cache holding `samples` (as read back from disk), put in time order.
    pub fn from_samples(samples: Vec<Timed<T>>) -> (c: Self)
        ensures
            c.wf(),
            c.view() == stable_sort(samples@),
    {
        let mut rest = samples;
        let mut out: Vec<Timed<T>> = Vec::new();
        let ghost all = rest@;
        let ghost mut taken: int = 0;
        while rest.len() > 0
            invariant
                0 <= taken <= all.len(),
                rest@ == all.subrange(taken, all.len() as int),
                out@ == stable_sort(all.subrange(0, taken)),
                sorted_by_time(out@),
            decreases rest.len(),
        {
            let x = take_first(&mut rest);
            proof {
                assert(x == all[taken]);
                assert(all.subrange(0, taken + 1).drop_last() =~= all.subrange(0, taken));
                assert(all.subrange(0, taken + 1).last() == x);
                taken = taken + 1;
                assert(rest@ =~= all.subrange(taken, all.len() as int));
            }
            insert_in_order(&mut out, x);
        }
        proof {
            assert(all.subrange(0, taken) =~= all);
        }
        WeatherCache { samples: out }
    }

    /// The samples, oldest first.
    pub fn samples(&self) -> (s: &Vec<Timed<T>>)
        ensures
            s@ == self.view(),
    {
        &self.samples
    }

    /// Number of retained samples (observed + forecast).
    pub fn len(&self) -> (n: usize)
        ensures
            n == self.view().len(),
    {
        self.samples.len()
    }

    pub fn is_empty(&self) -> (b: bool)
        ensures
            b == (self.view().len() == 0),
    {
        self.samples.len() == 0
    }

    /// Record an observed sample and evict what has aged out.
    pub fn record_observation(&mut self, sample: Timed<T>, now_unix_ms: i64)
        requires
            old(self).wf(),
            now_in_range(now_unix_ms as int),
        ensures
            final(self).wf(),
            final(self).view() == prune_spec(old(self).view().push(as_observation(sample)), now_unix_ms as int),
            final(self).view().len() <= MAX_SAMPLES,
    {
        let x = Timed { observed_at_unix_ms: sample.observed_at_unix_ms, is_forecast: false, data: sample.data };
        let ghost before = self.samples@;
        let ghost keep = keep_retained::<T>(now_unix_ms as int);
        let mut old_samples: Vec<Timed<T>> = Vec::new();
        std::mem::swap(&mut old_samples, &mut self.samples);
        let mut kept = retain_window(old_samples, now_unix_ms);
        proof {
            lemma_select_sorted(before, keep);
            lemma_sorted_sort_id(kept@);
            assert(before.push(x).drop_last() =~= before);
            assert(before.push(x).last() == x);
        }
        let floor = now_unix_ms - OBSERVED_RETENTION_HOURS * MS_PER_HOUR;
        if x.observed_at_unix_ms >= floor {
            insert_in_order(&mut kept, x);
        }
        proof {
            assert(select(before.push(x), keep) == if keep(x) {
                select(before, keep).push(x)
            } else {
                select(before, keep)
            });
            if keep(x) {
                assert(select(before, keep).push(x).drop_last() =~= select(before, keep));
            }
            lemma_cap_sorted(kept@);
        }
        cap_oldest(&mut kept);
        self.samples = kept;
    }

    /// Apply the outcome of a live fetch: record the sample, or on an error
    /// leave the cache untouched so the last good samples keep serving.
    /// Reports whether the cache changed.
    pub fn ingest_current(&mut self, result: Result<Timed<T>, WeatherError>, now_unix_ms: i64) -> (updated: bool)
        requires
            old(self).wf(),
            now_in_range(now_unix_ms as int),
        ensures
            final(self).wf(),
            updated == result is Ok,
            match result {
                Ok(s) => final(self).view() == prune_spec(old(self).view().push(as_observation(s)), now_unix_ms as int),
                Err(_) => final(self).view() == old(self).view(),
            },
    {
        match result {
            Ok(sample) => {
                self.record_observation(sample, now_unix_ms);
                true
            },
            Err(_) => false,
        }
    }

    /// Replace the forecast hours wholesale, keeping observed samples, then
    /// evict what has aged out.
    pub fn set_forecast(&mut self, forecast: Vec<Timed<T>>, now_unix_ms: i64)
        requires
            old(self).wf(),
            now_in_range(now_unix_ms as int),
        ensures
            final(self).wf(),
            final(self).view() == prune_spec(
                select(old(self).view(), keep_observed()) + as_forecasts(forecast@),
                now_unix_ms as int,
            ),
            final(self).view().len() <= MAX_SAMPLES,
    {
        let ghost before = self.samples@;
        let ghost keep = keep_retained::<T>(now_unix_ms as int);
        let ghost fs = as_forecasts(forecast@);
        let mut old_samples: Vec<Timed<T>> = Vec::new();
        std::mem::swap(&mut old_samples, &mut self.samples);
        let observed = retain_observed(old_samples);
        let ghost obs = observed@;
        let mut kept = retain_window(observed, now_unix_ms);
        proof {
            lemma_select_sorted(before, keep_observed());
            lemma_select_sorted(obs, keep);
            lemma_sorted_sort_id(kept@);
        }
        let ghost base = kept@;
        let ceiling = now_unix_ms + FORECAST_HORIZON_HOURS * MS_PER_HOUR;
        let mut rest = forecast;
        let ghost all = rest@;
        let ghost mut taken: int = 0;
        while rest.len() > 0
            invariant
                0 <= taken <= all.len(),
                rest@ == all.subrange(taken, all.len() as int),
                fs == as_forecasts(all),
                kept@ == insert_all(base, select(fs.subrange(0, taken), keep)),
                sorted_by_time(kept@),
                ceiling == now_unix_ms + FORECAST_HORIZON_HOURS * MS_PER_HOUR,
                keep == keep_retained::<T>(now_unix_ms as int),
            decreases rest.len(),
        {
            let f = take_first(&mut rest);
            let x = Timed { observed_at_unix_ms: f.observed_at_unix_ms, is_forecast: true, data: f.data };
            proof {
                assert(f == all[taken]);
                assert(x == fs[taken]);
                assert(fs.subrange(0, taken + 1).drop_last() =~= fs.subrange(0, taken));
                assert(fs.subrange(0, taken + 1).last() == x);
                taken = taken + 1;
                assert(rest@ =~= all.subrange(taken, all.len() as int));
            }
            if x.observed_at_unix_ms <= ceiling {
                proof {
                    let p = select(fs.subrange(0, taken - 1), keep);
                    assert(p.push(x).drop_last() =~= p);
                }
                insert_in_order(&mut kept, x);
            }
        }
        proof {
            assert(fs.subrange(0, taken) =~= fs);
            lemma_select_append(obs, fs, keep);
            lemma_sort_append(base, select(fs, keep));
        }
        proof {
            lemma_cap_sorted(kept@);
        }
        cap_oldest(&mut kept);
        self.samples = kept;
    }

    /// The newest observed (non-forecast) sample, if any.
    pub fn latest_observation(&self) -> (r: Option<&Timed<T>>)
        ensures
            match latest_obs_index(self.view()) {
                Some(i) => r == Some(&self.view()[i]),
                None => r is None,
            },
    {
        let n = self.samples.len();
        let mut best: Option<usize> = None;
        let mut i: usize = 0;
        while i < n
            invariant
                i <= n,
                n == self.samples@.len(),
                match latest_obs_index(self.samples@.subrange(0, i as int)) {
                    Some(b) => best == Some(b as usize) && 0 <= b < i,
                    None => best is None,
                },
            decreases n - i,
        {
            proof {
                let sub = self.samples@.subrange(0, i + 1);
                assert(sub.drop_last() =~= self.samples@.subrange(0, i as int));
                assert(sub[i as int] == self.samples@[i as int]);
                match latest_obs_index(self.samples@.subrange(0, i as int)) {
                    Some(b) => {
                        assert(sub[b] == self.samples@[b]);
                    },
                    None => {},
                }
            }
            let x = &self.samples[i];
            if !x.is_forecast {
                match best {
                    None => {
                        best = Some(i);
                    },
                    Some(b) => {
                        if x.observed_at_unix_ms >= self.samples[b].observed_at_unix_ms {
                            best = Some(i);
                        }
                    },
                }
            }
            i = i + 1;
        }
        proof {
            assert(self.samples@.subrange(0, n as int) =~= self.samples@);
        }
        match best {
            Some(b) => Some(&self.samples[b]),
            None => None,
        }
    }

    /// The span each sample covers, oldest first: from its time to the next
    /// sample's time, the newest for one hour; samples sharing a time with
    /// the next one cover nothing and are left out.
    pub fn segment_spans(&self) -> (v: Vec<SegmentSpan>)
        requires
            self.view().len() > 0 ==> at(self.view().last()) + MS_PER_HOUR <= i64::MAX,
        ensures
            span_view(v@) == spans_upto(self.view(), self.view().len() as int),
    {
        let n = self.samples.len();
        let mut v: Vec<SegmentSpan> = Vec::new();
        let mut i: usize = 0;
        while i < n
            invariant
                i <= n,
                n == self.samples@.len(),
                n > 0 ==> at(self.samples@.last()) + MS_PER_HOUR <= i64::MAX,
                span_view(v@) == spans_upto(self.samples@, i as int),
            decreases n - i,
        {
            let start = self.samples[i].observed_at_unix_ms;
            let end = if i + 1 < n {
                self.samples[i + 1].observed_at_unix_ms
            } else {
                start + MS_PER_HOUR
            };
            let ghost before = v@;
            if end > start {
                v.push(SegmentSpan { index: i, start_unix_ms: start, end_unix_ms: end });
                proof {
                    assert(span_view(v@) =~= span_view(before).push((i as int, start as int, end as int)));
                }
            }
            i = i + 1;
        }
        v
    }
}


/// Where the newest observed sample sits: the last one with the latest time
/// among the observed samples (forecasts never count).
pub open spec fn latest_obs_index<T>(s: Seq<Timed<T>>) -> Option<int>
    decreases s.len(),
{
    if s.len() == 0 {
        None
    } else {
        let prev = latest_obs_index(s.drop_last());
        let i = s.len() - 1;
        if s[i].is_forecast {
            prev
        } else {
            match prev {
                None => Some(i),
                Some(p) => if at(s[i]) >= at(s[p]) {
                    Some(i)
                } else {
                    prev
                },
            }
        }
    }
}

/// The latest observation is an observed sample, no older than any other
/// observed sample; there is none only when every sample is a forecast.
pub proof fn lemma_latest_observation_is_newest<T>(s: Seq<Timed<T>>)
    ensures
        latest_obs_index(s) matches Some(i) ==> 0 <= i < s.len() && !s[i].is_forecast,
        latest_obs_index(s) matches Some(i) ==> forall|j: int|
            0 <= j < s.len() && !s[j].is_forecast ==> at(#[trigger] s[j]) <= at(s[i]),
        latest_obs_index(s) is None ==> forall|j: int| 0 <= j < s.len() ==> (#[trigger] s[j]).is_forecast,
    decreases s.len(),
{
    if s.len() > 0 {
        let d = s.drop_last();
        let last = s.len() - 1;
        lemma_latest_observation_is_newest(d);
        match latest_obs_index(s) {
            Some(k) => {
                assert forall|j: int| 0 <= j < s.len() && !s[j].is_forecast implies at(
                    #[trigger] s[j],
                ) <= at(s[k]) by {
                    if j < last {
                        assert(d[j] == s[j]);
                        match latest_obs_index(d) {
                            Some(p) => {
                                assert(d[p] == s[p]);
                            },
                            None => {},
                        }
                    }
                }
            },
            None => {
                assert forall|j: int| 0 <= j < s.len() implies (#[trigger] s[j]).is_forecast by {
                    if j < last {
                        assert(d[j] == s[j]);
                    }
                }
            },
        }
    }
}

/// The span a sample covers: from its time to the next sample's, the last
/// one for an hour.
pub open spec fn span_end<T>(s: Seq<Timed<T>>, i: int) -> int {
    if i + 1 < s.len() {
        at(s[i + 1])
    } else {
        at(s[i]) + MS_PER_HOUR
    }
}

/// The spans of the first `n` samples, as (sample index, start, end); empty
/// spans (two samples at one time) are left out.
pub open spec fn spans_upto<T>(s: Seq<Timed<T>>, n: int) -> Seq<(int, int, int)>
    decreases n,
{
    if n <= 0 {
        Seq::empty()
    } else {
        let p = spans_upto(s, n - 1);
        let i = n - 1;
        if span_end(s, i) > at(s[i]) {
            p.push((i, at(s[i]), span_end(s, i)))
        } else {
            p
        }
    }
}

/// The span one sample covers.
#[derive(Debug, Clone, Copy, PartialEq, Eq)]
pub struct SegmentSpan {
    /// Position of the sample in the cache.
    pub index: usize,
    pub start_unix_ms: i64,
    pub end_unix_ms: i64,
}

pub open spec fn span_view(v: Seq<SegmentSpan>) -> Seq<(int, int, int)> {
    v.map_values(|x: SegmentSpan| (x.index as int, x.start_unix_ms as int, x.end_unix_ms as int))
}

/// Consecutive spans meet: each ends where the next sample begins, and only
/// the last holds for an hour.
pub proof fn lemma_spans_contiguous<T>(s: Seq<Timed<T>>, i: int)
    requires
        0 <= i < s.len(),
        sorted_by_time(s),
    ensures
        i + 1 < s.len() ==> span_end(s, i) == at(s[i + 1]),
        i + 1 == s.len() ==> span_end(s, i) - at(s[i]) == MS_PER_HOUR,
        span_end(s, i) >= at(s[i]),
{
}


proof fn lemma_select_keeps<T>(s: Seq<Timed<T>>, keep: spec_fn(Timed<T>) -> bool)
    ensures
        forall|i: int| 0 <= i < select(s, keep).len() ==> keep(#[trigger] select(s, keep)[i]),
    decreases s.len(),
{
    if s.len() > 0 {
        lemma_select_keeps(s.drop_last(), keep);
        let p = select(s.drop_last(), keep);
        if keep(s.last()) {
            assert forall|i: int| 0 <= i < p.push(s.last()).len() implies keep(
                #[trigger] p.push(s.last())[i],
            ) by {
                if i < p.len() {
                    assert(p.push(s.last())[i] == p[i]);
                }
            }
        }
    }
}

proof fn lemma_sort_members<T>(s: Seq<Timed<T>>)
    ensures
        stable_sort(s).len() == s.len(),
        sorted_by_time(stable_sort(s)),
        forall|i: int|
            0 <= i < s.len() ==> exists|j: int| 0 <= j < s.len() && #[trigger] stable_sort(s)[i] == s[j],
    decreases s.len(),
{
    if s.len() > 0 {
        let d = s.drop_last();
        lemma_sort_members(d);
        let sd = stable_sort(d);
        lemma_insert_sorted(sd, s.last());
        let k = first_after(sd, at(s.last())) as int;
        lemma_first_after(sd, at(s.last()));
        let r = stable_sort(s);
        assert forall|i: int| 0 <= i < s.len() implies exists|j: int|
            0 <= j < s.len() && #[trigger] r[i] == s[j] by {
            if i < k {
                assert(r[i] == sd[i]);
                let j = choose|j: int| 0 <= j < d.len() && sd[i] == d[j];
                assert(r[i] == s[j]);
            } else if i == k {
                assert(r[i] == s[s.len() - 1]);
            } else {
                assert(r[i] == sd[i - 1]);
                let j = choose|j: int| 0 <= j < d.len() && sd[i - 1] == d[j];
                assert(r[i] == s[j]);
            }
        }
    }
}

/// After any eviction the cache is in time order, holds at most 128
/// samples, and holds only samples inside their windows: observed ones at
/// most 48 hours old, forecasts at most 12 hours ahead.
pub proof fn lemma_pruned_retained<T>(s: Seq<Timed<T>>, now: int)
    ensures
        sorted_by_time(prune_spec(s, now)),
        prune_spec(s, now).len() <= MAX_SAMPLES,
        forall|i: int|
            0 <= i < prune_spec(s, now).len() ==> retained(#[trigger] prune_spec(s, now)[i], now),
{
    let keep = keep_retained::<T>(now);
    let f = select(s, keep);
    lemma_select_keeps(s, keep);
    lemma_sort_members(f);
    let so = stable_sort(f);
    lemma_cap_sorted(so);
    let c = cap(so);
    assert forall|i: int| 0 <= i < c.len() implies retained(#[trigger] c[i], now) by {
        let off = if so.len() > MAX_SAMPLES {
            so.len() - MAX_SAMPLES
        } else {
            0
        };
        assert(c[i] == so[i + off]);
        let j = choose|j: int| 0 <= j < f.len() && so[i + off] == f[j];
        assert(keep(f[j]));
    }
}

} // verus!

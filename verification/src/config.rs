//! The daemon's plain configuration sections and the defaults that a missing
//! setting takes.

use vstd::prelude::*;
use crate::text::{owned, concat2, concat3};

verus! {

/// Firebase Cloud Messaging credentials.
#[derive(Debug, Clone)]
pub struct FcmConfig {
    pub service_account: String,
    pub project_id: String,
}

impl Default for FcmConfig {
    fn default() -> (c: Self)
        ensures
            c.service_account@.len() == 0,
            c.project_id@.len() == 0,
    {
        FcmConfig { service_account: String::new(), project_id: String::new() }
    }
}

/// Apple Push Notification service credentials.
///
/// A section that is absent altogether takes `Default::default()`, whose
/// environment is empty; a section present without `environment` takes
/// `default_apns_environment()`.
#[derive(Debug, Clone)]
pub struct ApnsConfig {
    pub key_id: String,
    pub team_id: String,
    pub key_path: String,
    pub bundle_id: String,
    pub environment: String,
}

impl Default for ApnsConfig {
    fn default() -> (c: Self)
        ensures
            c.key_id@.len() == 0,
            c.team_id@.len() == 0,
            c.key_path@.len() == 0,
            c.bundle_id@.len() == 0,
            c.environment@.len() == 0,
    {
        ApnsConfig {
            key_id: String::new(),
            team_id: String::new(),
            key_path: String::new(),
            bundle_id: String::new(),
            environment: String::new(),
        }
    }
}

/// Firebase web-app settings served to the browser UI.
#[derive(Debug, Clone)]
pub struct WebFirebaseConfig {
    pub api_key: String,
    pub auth_domain: String,
    pub project_id: String,
}

impl Default for WebFirebaseConfig {
    fn default() -> (c: Self)
        ensures
            c.api_key@.len() == 0,
            c.auth_domain@.len() == 0,
            c.project_id@.len() == 0,
    {
        WebFirebaseConfig { api_key: String::new(), auth_domain: String::new(), project_id: String::new() }
    }
}

/// Remote access settings of the web UI.
#[derive(Debug, Clone)]
pub struct WebConfig {
    /// Domain the tunnel serves; empty means LAN-only.
    pub remote_domain: String,
    pub firebase: WebFirebaseConfig,
}

impl Default for WebConfig {
    fn default() -> (c: Self)
        ensures
            c.remote_domain@.len() == 0,
            c.firebase.api_key@.len() == 0,
            c.firebase.auth_domain@.len() == 0,
            c.firebase.project_id@.len() == 0,
    {
        WebConfig { remote_domain: String::new(), firebase: WebFirebaseConfig::default() }
    }
}

/// Circuits to treat as spa accessories.
#[derive(Debug, Clone)]
pub struct Associations {
    /// Circuit names to associate with the spa (as accessories like jets).
    pub spa: Vec<String>,
}

impl Default for Associations {
    fn default() -> (a: Self)
        ensures
            a.spa@.len() == 0,
    {
        Associations { spa: Vec::new() }
    }
}

// ── Defaults of single settings ─────────────────────────────────────────

/// An empty adapter host: discover the adapter on the LAN.
pub fn default_adapter_host() -> (s: String)
    ensures
        s@.len() == 0,
{
    String::new()
}

pub fn default_bind() -> (s: String)
    ensures
        s@ == "0.0.0.0:8080"@,
{
    owned("0.0.0.0:8080")
}

pub fn default_apns_environment() -> (s: String)
    ensures
        s@ == "development"@,
{
    owned("development")
}

pub fn default_weather_poll_interval_seconds() -> (n: u64)
    ensures
        n == 900,
{
    900
}

pub fn default_true() -> (b: bool)
    ensures
        b,
{
    true
}

pub fn default_min_new_intervals() -> (n: usize)
    ensures
        n == 4,
{
    4
}

pub fn default_heating_history_path() -> (s: String)
    ensures
        s@ == "~/.pentair/heat-estimator.json"@,
{
    owned("~/.pentair/heat-estimator.json")
}

pub fn default_sample_window_minutes() -> (n: u64)
    ensures
        n == 180,
{
    180
}

pub fn default_minimum_runtime_minutes() -> (n: u64)
    ensures
        n == 10,
{
    10
}

pub fn default_shared_equipment_temp_warmup_seconds() -> (n: u64)
    ensures
        n == 120,
{
    120
}

pub fn default_heating_enabled() -> (b: bool)
    ensures
        b,
{
    true
}

pub fn default_notification_enabled() -> (b: bool)
    ensures
        b,
{
    true
}


// ── Paths ───────────────────────────────────────────────────────────────

/// `rest` placed under `base` the way a Unix `PathBuf::push` does: an
/// absolute `rest` replaces `base`, an empty `base` gives `rest`, and a
/// separator is added only when `base` does not end in one.
pub open spec fn join_path(base: Seq<char>, rest: Seq<char>) -> Seq<char> {
    if rest.len() > 0 && rest[0] == '/' {
        rest
    } else if base.len() == 0 {
        rest
    } else if base.last() == '/' {
        base + rest
    } else {
        base + "/"@ + rest
    }
}

/// A configured path with a leading `~/` taken under the home directory (or
/// the working directory, `.`, when there is none); any other path as given.
pub open spec fn home_path_spec(raw: Seq<char>, home: Option<Seq<char>>) -> Seq<char> {
    if raw.len() >= 2 && raw[0] == '~' && raw[1] == '/' {
        join_path(
            match home {
                Some(h) => h,
                None => "."@,
            },
            raw.subrange(2, raw.len() as int),
        )
    } else {
        raw
    }
}

fn join_path_exec(base: &str, rest: &str) -> (r: String)
    ensures
        r@ == join_path(base@, rest@),
{
    let n = rest.unicode_len();
    let m = base.unicode_len();
    if n > 0 && rest.get_char(0) == '/' {
        owned(rest)
    } else if m == 0 {
        owned(rest)
    } else if base.get_char(m - 1) == '/' {
        concat2(base, rest)
    } else {
        concat3(base, "/", rest)
    }
}

/// Expand a leading `~/` of a configured path.
pub fn home_path(raw: &str, home: Option<&str>) -> (p: String)
    ensures
        p@ == home_path_spec(
            raw@,
            match home {
                Some(h) => Some(h@),
                None => None,
            },
        ),
{
    let n = raw.unicode_len();
    if n >= 2 && raw.get_char(0) == '~' && raw.get_char(1) == '/' {
        let rest = raw.substring_char(2, n);
        match home {
            Some(h) => join_path_exec(h, rest),
            None => join_path_exec(".", rest),
        }
    } else {
        owned(raw)
    }
}

} // verus!

//! Push delivery decisions shared by the APNs (live activities) and FCM
//! (notifications) senders: the token caches, when a sender is configured,
//! where requests go, and what each HTTP status leads to.

use vstd::prelude::*;
use crate::config::ApnsConfig;
use crate::text::{concat2, concat3, owned, str_eq};

verus! {

// ── Clock ───────────────────────────────────────────────────────────────

/// Seconds since the Unix epoch from `SystemTime::now()`, 0 when the clock
/// reads before the epoch. Nothing is stated of the value: it is the time.
#[verifier::external_body]
pub fn now_secs() -> u64 {
    std::time::SystemTime::now().duration_since(std::time::SystemTime::UNIX_EPOCH).unwrap_or_default().as_secs()
}

// ── Token caches ────────────────────────────────────────────────────────

/// What a cache hands out at `now`: its token while `now` is before the
/// expiry, else nothing.
pub open spec fn cached_at(token: Option<Seq<char>>, expires_at: int, now: int) -> Option<Seq<char>> {
    if now < expires_at {
        token
    } else {
        None
    }
}

pub open spec fn str_opt_view(o: Option<&str>) -> Option<Seq<char>> {
    match o {
        Some(s) => Some(s@),
        None => None,
    }
}

pub open spec fn string_opt_view(o: Option<String>) -> Option<Seq<char>> {
    match o {
        Some(s) => Some(s@),
        None => None,
    }
}

fn token_ref(token: &Option<String>) -> (r: Option<&str>)
    ensures
        str_opt_view(r) == string_opt_view(*token),
{
    match token {
        Some(t) => Some(t.as_str()),
        None => None,
    }
}

/// The APNs provider JWT, kept 55 minutes (APNs tokens expire at 60).
#[derive(Debug)]
pub struct JwtCache {
    pub token: Option<String>,
    /// Unix seconds at which the token stops being handed out.
    pub expires_at: u64,
}

/// How long an APNs provider JWT is reused, in seconds.
pub const JWT_LIFETIME_SECS: u64 = 55 * 60;

impl JwtCache {
    pub fn new() -> (c: Self)
        ensures
            c.token is None,
            c.expires_at == 0,
    {
        JwtCache { token: None, expires_at: 0 }
    }

    /// The token, if still valid at `now`.
    pub fn get_at(&self, now: u64) -> (r: Option<&str>)
        ensures
            str_opt_view(r) == cached_at(string_opt_view(self.token), self.expires_at as int, now as int),
    {
        if now < self.expires_at {
            token_ref(&self.token)
        } else {
            None
        }
    }

    /// The token, if still valid now: what `get_at` gives at the clock's
    /// reading. Whether it is still valid is the clock's to decide; what comes
    /// out is that of some reading, so the stored token or nothing, and
    /// nothing at all when no token is stored or the expiry is 0.
    pub fn get(&self) -> (r: Option<&str>)
        ensures
            r matches Some(t) ==> string_opt_view(self.token) == Some(t@),
            exists|now: u64| str_opt_view(r) == cached_at(string_opt_view(self.token), self.expires_at as int, now as int),
    {
        let now = now_secs();
        let r = self.get_at(now);
        assert(str_opt_view(r) == cached_at(string_opt_view(self.token), self.expires_at as int, now as int));
        r
    }

    pub fn set(&mut self, token: String, expires_at: u64)
        ensures
            string_opt_view(final(self).token) == Some(token@),
            final(self).expires_at == expires_at,
    {
        self.token = Some(token);
        self.expires_at = expires_at;
    }

    /// Forget the token (after APNs refused it).
    pub fn clear(&mut self)
        ensures
            final(self).token is None,
            final(self).expires_at == 0,
    {
        self.token = None;
        self.expires_at = 0;
    }
}

/// The FCM OAuth2 access token, kept until shortly before it expires.
#[derive(Debug)]
pub struct TokenCache {
    pub token: Option<String>,
    pub expires_at: u64,
}

/// `now + lifetime` on the u64 clock, cut at its end.
pub open spec fn expiry_after(now: int, lifetime: int) -> int {
    if now + lifetime <= u64::MAX {
        now + lifetime
    } else {
        u64::MAX as int
    }
}

impl TokenCache {
    pub fn new() -> (c: Self)
        ensures
            c.token is None,
            c.expires_at == 0,
    {
        TokenCache { token: None, expires_at: 0 }
    }

    pub fn get_at(&self, now: u64) -> (r: Option<&str>)
        ensures
            str_opt_view(r) == cached_at(string_opt_view(self.token), self.expires_at as int, now as int),
    {
        if now < self.expires_at {
            token_ref(&self.token)
        } else {
            None
        }
    }

    /// The token, if still valid now; otherwise nothing: what `get_at` gives
    /// at the clock's reading (see `JwtCache::get`).
    pub fn get(&self) -> (r: Option<&str>)
        ensures
            r matches Some(t) ==> string_opt_view(self.token) == Some(t@),
            exists|now: u64| str_opt_view(r) == cached_at(string_opt_view(self.token), self.expires_at as int, now as int),
    {
        let now = now_secs();
        let r = self.get_at(now);
        assert(str_opt_view(r) == cached_at(string_opt_view(self.token), self.expires_at as int, now as int));
        r
    }

    /// Store `token`, valid for `expires_in_secs` from `now`.
    pub fn set_at(&mut self, token: String, expires_in_secs: u64, now: u64)
        ensures
            string_opt_view(final(self).token) == Some(token@),
            final(self).expires_at == expiry_after(now as int, expires_in_secs as int),
    {
        self.token = Some(token);
        self.expires_at = now.saturating_add(expires_in_secs);
    }

    /// Store `token`, valid for `expires_in_secs` from now.
    pub fn set(&mut self, token: String, expires_in_secs: u64)
        ensures
            string_opt_view(final(self).token) == Some(token@),
            final(self).expires_at >= expires_in_secs,
    {
        let now = now_secs();
        self.set_at(token, expires_in_secs, now);
    }
}

/// A token stored with an expiry is handed out before that expiry and not
/// from it on; a cleared cache hands out nothing.
pub proof fn lemma_cache_read_after_write(token: Seq<char>, expires_at: int, now: int)
    ensures
        now < expires_at ==> cached_at(Some(token), expires_at, now) == Some(token),
        now >= expires_at ==> cached_at(Some(token), expires_at, now) is None,
        cached_at(None, 0, now) is None,
{
}

/// How long an FCM access token is cached: its lifetime less five minutes,
/// or 55 minutes when the server reports five minutes or less.
pub open spec fn fcm_cache_duration_spec(expires_in: int) -> int {
    if expires_in > 300 {
        expires_in - 300
    } else {
        3300
    }
}

pub fn fcm_cache_duration(expires_in: u64) -> (d: u64)
    ensures
        d == fcm_cache_duration_spec(expires_in as int),
{
    if expires_in > 300 {
        expires_in - 300
    } else {
        55 * 60
    }
}

// ── Configuration ───────────────────────────────────────────────────────

/// APNs runs only with a key id, team id, key path and bundle id.
pub open spec fn apns_configured_spec(c: ApnsConfig) -> bool {
    c.key_id@.len() > 0 && c.team_id@.len() > 0 && c.key_path@.len() > 0 && c.bundle_id@.len() > 0
}

pub fn apns_configured(config: &ApnsConfig) -> (b: bool)
    ensures
        b == apns_configured_spec(*config),
{
    config.key_id.unicode_len() > 0 && config.team_id.unicode_len() > 0
        && config.key_path.unicode_len() > 0 && config.bundle_id.unicode_len() > 0
}

/// FCM runs only with a project id and a service account path.
pub fn fcm_configured(project_id: &str, service_account_path: &str) -> (b: bool)
    ensures
        b == (project_id@.len() > 0 && service_account_path@.len() > 0),
{
    project_id.unicode_len() > 0 && service_account_path.unicode_len() > 0
}

pub open spec fn apns_base_url_spec(environment: Seq<char>) -> Seq<char> {
    if environment == "production"@ {
        "https://api.push.apple.com"@
    } else {
        "https://api.development.push.apple.com"@
    }
}

/// The APNs endpoint: production only when asked for by name, else the
/// development endpoint.
pub fn apns_base_url(environment: &str) -> (u: String)
    ensures
        u@ == apns_base_url_spec(environment@),
{
    if str_eq(environment, "production") {
        owned("https://api.push.apple.com")
    } else {
        owned("https://api.development.push.apple.com")
    }
}

/// The URL an APNs push for `token` is posted to.
pub fn apns_device_url(base_url: &str, token: &str) -> (u: String)
    ensures
        u@ == base_url@ + "/3/device/"@ + token@,
{
    concat3(base_url, "/3/device/", token)
}

/// The APNs topic of a live activity for the app `bundle_id`.
pub fn live_activity_topic(bundle_id: &str) -> (t: String)
    ensures
        t@ == bundle_id@ + ".push-type.liveactivity"@,
{
    concat2(bundle_id, ".push-type.liveactivity")
}

/// The `authorization` header value for a provider JWT.
pub fn bearer_header(jwt: &str) -> (h: String)
    ensures
        h@ == "bearer "@ + jwt@,
{
    concat2("bearer ", jwt)
}

/// The FCM send endpoint of a project.
pub fn fcm_send_url(project_id: &str) -> (u: String)
    ensures
        u@ == "https://fcm.googleapis.com/v1/projects/"@ + project_id@ + "/messages:send"@,
{
    concat3("https://fcm.googleapis.com/v1/projects/", project_id, "/messages:send")
}

/// APNs priority: milestones go out immediately (10), other updates are
/// throttled by the device (5).
pub fn live_activity_priority(is_milestone: bool) -> (p: u8)
    ensures
        is_milestone ==> p == 10,
        !is_milestone ==> p == 5,
{
    if is_milestone {
        10
    } else {
        5
    }
}

/// When an ended live activity leaves the lock screen: 30 seconds after `now`.
pub fn dismissal_date(now: u64) -> (d: u64)
    requires
        now + 30 <= u64::MAX,
    ensures
        d == now + 30,
{
    now + 30
}

// ── HTTP outcomes ───────────────────────────────────────────────────────

/// What an APNs status leads to.
#[derive(Debug, Clone, Copy, PartialEq, Eq, Structural)]
pub enum ApnsOutcome {
    Delivered,
    BadRequest,
    /// The provider JWT was refused: clear the cache and retry once.
    AuthFailure,
    /// The live activity token is dead: remove it.
    TokenExpired,
    RateLimited,
    ServerError,
    Unexpected,
}

pub open spec fn apns_outcome_spec(status: int) -> ApnsOutcome {
    if 200 <= status <= 299 {
        ApnsOutcome::Delivered
    } else if status == 400 {
        ApnsOutcome::BadRequest
    } else if status == 403 {
        ApnsOutcome::AuthFailure
    } else if status == 410 {
        ApnsOutcome::TokenExpired
    } else if status == 429 {
        ApnsOutcome::RateLimited
    } else if 500 <= status <= 599 {
        ApnsOutcome::ServerError
    } else {
        ApnsOutcome::Unexpected
    }
}

pub fn apns_outcome(status: u16) -> (o: ApnsOutcome)
    ensures
        o == apns_outcome_spec(status as int),
{
    if 200 <= status && status <= 299 {
        ApnsOutcome::Delivered
    } else if status == 400 {
        ApnsOutcome::BadRequest
    } else if status == 403 {
        ApnsOutcome::AuthFailure
    } else if status == 410 {
        ApnsOutcome::TokenExpired
    } else if status == 429 {
        ApnsOutcome::RateLimited
    } else if 500 <= status && status <= 599 {
        ApnsOutcome::ServerError
    } else {
        ApnsOutcome::Unexpected
    }
}

/// Whether a push to one token is sent again: once, after an auth failure
/// (the JWT cache having been cleared).
pub fn apns_should_retry(first: Result<u16, String>) -> (b: bool)
    ensures
        b == (first matches Ok(s) && s == 403),
{
    match first {
        Ok(s) => s == 403,
        Err(_) => false,
    }
}

/// What an FCM status leads to.
#[derive(Debug, Clone, Copy, PartialEq, Eq, Structural)]
pub enum FcmOutcome {
    Delivered,
    /// The device token is unknown or gone: remove the device.
    RemoveToken,
    AuthError,
    RateLimited,
    ServerError,
    Unexpected,
}

pub open spec fn fcm_outcome_spec(status: int) -> FcmOutcome {
    if 200 <= status <= 299 {
        FcmOutcome::Delivered
    } else if status == 404 || status == 410 {
        FcmOutcome::RemoveToken
    } else if status == 401 {
        FcmOutcome::AuthError
    } else if status == 429 {
        FcmOutcome::RateLimited
    } else if 500 <= status <= 599 {
        FcmOutcome::ServerError
    } else {
        FcmOutcome::Unexpected
    }
}

pub fn fcm_outcome(status: u16) -> (o: FcmOutcome)
    ensures
        o == fcm_outcome_spec(status as int),
{
    if 200 <= status && status <= 299 {
        FcmOutcome::Delivered
    } else if status == 404 || status == 410 {
        FcmOutcome::RemoveToken
    } else if status == 401 {
        FcmOutcome::AuthError
    } else if status == 429 {
        FcmOutcome::RateLimited
    } else if 500 <= status && status <= 599 {
        FcmOutcome::ServerError
    } else {
        FcmOutcome::Unexpected
    }
}

} // verus!

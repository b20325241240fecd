use pentair_daemon::config::ApnsConfig;
use pentair_daemon::push::{
    apns_base_url, apns_configured, apns_device_url, apns_outcome, apns_should_retry,
    bearer_header, dismissal_date, fcm_cache_duration, fcm_configured, fcm_outcome, fcm_send_url,
    live_activity_priority, live_activity_topic, now_secs, ApnsOutcome, FcmOutcome, JwtCache,
    TokenCache,
};

#[test]
fn jwt_cache_hands_out_until_expiry() {
    let mut c = JwtCache::new();
    assert_eq!(c.get_at(0), None);
    c.set("jwt".to_string(), 1_000);
    assert_eq!(c.get_at(999), Some("jwt"));
    assert_eq!(c.get_at(1_000), None);
    c.clear();
    assert_eq!(c.get_at(0), None);
    assert_eq!(c.expires_at, 0);
}

#[test]
fn jwt_cache_against_the_clock() {
    let mut c = JwtCache::new();
    c.set("jwt".to_string(), now_secs() + 3300);
    assert_eq!(c.get(), Some("jwt"));
    c.set("old".to_string(), 1);
    assert_eq!(c.get(), None);
}

#[test]
fn token_cache_expiry_is_relative() {
    let mut c = TokenCache::new();
    c.set_at("tok".to_string(), 3300, 1_000);
    assert_eq!(c.expires_at, 4_300);
    assert_eq!(c.get_at(4_299), Some("tok"));
    assert_eq!(c.get_at(4_300), None);
    c.set_at("tok".to_string(), u64::MAX, 5);
    assert_eq!(c.expires_at, u64::MAX);
    c.set("live".to_string(), 600);
    assert_eq!(c.get(), Some("live"));
}

#[test]
fn fcm_token_lifetime_leaves_a_margin() {
    assert_eq!(fcm_cache_duration(3600), 3300);
    assert_eq!(fcm_cache_duration(301), 1);
    assert_eq!(fcm_cache_duration(300), 3300);
    assert_eq!(fcm_cache_duration(0), 3300);
}

#[test]
fn senders_need_their_settings() {
    let mut c = ApnsConfig::default();
    assert!(!apns_configured(&c));
    c.key_id = "K".to_string();
    c.team_id = "T".to_string();
    c.key_path = "~/k.p8".to_string();
    assert!(!apns_configured(&c));
    c.bundle_id = "com.x".to_string();
    assert!(apns_configured(&c));
    assert!(fcm_configured("proj", "/sa.json"));
    assert!(!fcm_configured("", "/sa.json"));
}

#[test]
fn apns_endpoints_and_headers() {
    assert_eq!(apns_base_url("production"), "https://api.push.apple.com");
    assert_eq!(apns_base_url("development"), "https://api.development.push.apple.com");
    assert_eq!(apns_base_url(""), "https://api.development.push.apple.com");
    assert_eq!(apns_device_url("https://h", "tok"), "https://h/3/device/tok");
    assert_eq!(live_activity_topic("com.x"), "com.x.push-type.liveactivity");
    assert_eq!(bearer_header("abc"), "bearer abc");
    assert_eq!(fcm_send_url("p1"), "https://fcm.googleapis.com/v1/projects/p1/messages:send");
    assert_eq!(live_activity_priority(true), 10);
    assert_eq!(live_activity_priority(false), 5);
    assert_eq!(dismissal_date(100), 130);
}

#[test]
fn statuses_lead_to_actions() {
    assert_eq!(apns_outcome(200), ApnsOutcome::Delivered);
    assert_eq!(apns_outcome(400), ApnsOutcome::BadRequest);
    assert_eq!(apns_outcome(403), ApnsOutcome::AuthFailure);
    assert_eq!(apns_outcome(410), ApnsOutcome::TokenExpired);
    assert_eq!(apns_outcome(429), ApnsOutcome::RateLimited);
    assert_eq!(apns_outcome(503), ApnsOutcome::ServerError);
    assert_eq!(apns_outcome(302), ApnsOutcome::Unexpected);
    assert!(apns_should_retry(Ok(403)));
    assert!(!apns_should_retry(Ok(410)));
    assert!(!apns_should_retry(Err("network".to_string())));
    assert_eq!(fcm_outcome(204), FcmOutcome::Delivered);
    assert_eq!(fcm_outcome(404), FcmOutcome::RemoveToken);
    assert_eq!(fcm_outcome(410), FcmOutcome::RemoveToken);
    assert_eq!(fcm_outcome(401), FcmOutcome::AuthError);
    assert_eq!(fcm_outcome(429), FcmOutcome::RateLimited);
    assert_eq!(fcm_outcome(500), FcmOutcome::ServerError);
    assert_eq!(fcm_outcome(418), FcmOutcome::Unexpected);
}

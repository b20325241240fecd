use pentair_daemon::weather::{
    api_key_usable, sanitize_request_failure, seconds_to_ms, weather_base_url, RequestFailure, Timed,
    WeatherCache, WeatherError, MAX_SAMPLES,
};

const HOUR_MS: i64 = 3_600_000;

/// A sample carrying its air temperature.
fn sample(at_ms: i64, air: f64, forecast: bool) -> Timed<f64> {
    Timed { observed_at_unix_ms: at_ms, is_forecast: forecast, data: air }
}

#[test]
fn cache_ring_evicts_old_observed_samples() {
    let now = 1_000 * HOUR_MS;
    let mut cache = WeatherCache::new();
    cache.record_observation(sample(now - 100 * HOUR_MS, 60.0, false), now);
    cache.record_observation(sample(now - 2 * HOUR_MS, 65.0, false), now);
    cache.record_observation(sample(now - HOUR_MS, 66.0, false), now);
    assert_eq!(cache.len(), 2, "100h-old sample should be evicted");
    assert!(cache.latest_observation().is_some_and(|s| s.data == 66.0));
}

#[test]
fn cache_evicts_forecast_past_horizon() {
    let now = 1_000 * HOUR_MS;
    let mut cache = WeatherCache::new();
    cache.set_forecast(
        vec![sample(now + 3 * HOUR_MS, 70.0, true), sample(now + 100 * HOUR_MS, 71.0, true)],
        now,
    );
    assert_eq!(cache.len(), 1);
}

#[test]
fn cache_capacity_is_bounded() {
    let now = MAX_SAMPLES as i64 * HOUR_MS * 4;
    let mut cache = WeatherCache::new();
    for i in 0..(MAX_SAMPLES + 50) {
        let at = now - (i as i64) * (HOUR_MS / 4);
        cache.record_observation(sample(at, 60.0 + i as f64 * 0.01, false), now);
    }
    assert!(cache.len() <= MAX_SAMPLES);
    assert!(cache.latest_observation().is_some_and(|s| s.observed_at_unix_ms == now));
}

#[test]
fn set_forecast_replaces_only_forecast_samples() {
    let now = 1_000 * HOUR_MS;
    let mut cache = WeatherCache::new();
    cache.record_observation(sample(now - HOUR_MS, 65.0, false), now);
    cache.set_forecast(vec![sample(now + HOUR_MS, 70.0, true)], now);
    cache.set_forecast(vec![sample(now + 2 * HOUR_MS, 71.0, true)], now);
    assert_eq!(cache.samples().iter().filter(|s| !s.is_forecast).count(), 1);
    assert_eq!(cache.samples().iter().filter(|s| s.is_forecast).count(), 1);
}

#[test]
fn offline_fetch_keeps_last_good_cache() {
    let now = 1_000 * HOUR_MS;
    let mut cache = WeatherCache::new();
    let updated = cache.ingest_current(Ok(sample(now - HOUR_MS, 64.0, false)), now);
    assert!(updated);
    let before = cache.len();
    let updated = cache.ingest_current(Err(WeatherError::Status(503)), now);
    assert!(!updated);
    assert_eq!(cache.len(), before);
    assert!(!cache.segment_spans().is_empty(), "last-good still served");
}

#[test]
fn to_segments_are_contiguous_and_hourly() {
    let now = 1_000 * HOUR_MS;
    let mut cache = WeatherCache::new();
    cache.record_observation(sample(now - 2 * HOUR_MS, 65.0, false), now);
    cache.record_observation(sample(now - HOUR_MS, 66.0, false), now);
    let segs = cache.segment_spans();
    assert_eq!(segs.len(), 2);
    assert_eq!(segs[0].end_unix_ms, segs[1].start_unix_ms);
    assert_eq!(segs[1].end_unix_ms - segs[1].start_unix_ms, HOUR_MS);
    assert_eq!(cache.samples()[segs[0].index].data, 65.0);
}

#[test]
fn loaded_samples_are_put_in_time_order() {
    let cache = WeatherCache::from_samples(vec![
        sample(3 * HOUR_MS, 3.0, false),
        sample(HOUR_MS, 1.0, false),
        sample(3 * HOUR_MS, 3.5, true),
        sample(2 * HOUR_MS, 2.0, false),
    ]);
    let order: Vec<f64> = cache.samples().iter().map(|s| s.data).collect();
    assert_eq!(order, vec![1.0, 2.0, 3.0, 3.5], "equal times keep their order");
    // Latest observation ignores forecasts; the newest observed is at 3h.
    assert_eq!(cache.latest_observation().map(|s| s.data), Some(3.0));
    // Two samples at one time: the earlier of them covers nothing.
    let spans = cache.segment_spans();
    assert_eq!(spans.len(), 3);
    assert_eq!(spans[2].index, 3);
}

#[test]
fn observation_flag_is_forced_on_record() {
    let now = 1_000 * HOUR_MS;
    let mut cache = WeatherCache::new();
    cache.record_observation(sample(now, 1.0, true), now);
    assert!(!cache.samples()[0].is_forecast);
}

#[test]
fn errors_read_without_secrets() {
    assert_eq!(WeatherError::MissingApiKey.message(), "OPENWEATHER_API_KEY not set");
    assert_eq!(WeatherError::Transport("timeout").message(), "weather transport error (timeout)");
    assert_eq!(WeatherError::Status(503).message(), "weather endpoint returned status 503");
}

#[test]
fn request_failures_are_classified() {
    let base = RequestFailure {
        status: None,
        is_timeout: false,
        is_connect: false,
        is_decode: false,
        is_body: false,
        is_request: false,
    };
    assert_eq!(sanitize_request_failure(RequestFailure { status: Some(401), is_timeout: true, ..base }), WeatherError::Status(401));
    assert_eq!(sanitize_request_failure(RequestFailure { is_timeout: true, is_connect: true, ..base }), WeatherError::Transport("timeout"));
    assert_eq!(sanitize_request_failure(RequestFailure { is_connect: true, ..base }), WeatherError::Transport("connect"));
    assert_eq!(sanitize_request_failure(RequestFailure { is_request: true, ..base }), WeatherError::Transport("request"));
    assert_eq!(sanitize_request_failure(base), WeatherError::Transport("other"));
}

#[test]
fn endpoint_and_key_settings() {
    assert_eq!(weather_base_url(None), "https://api.openweathermap.org");
    assert_eq!(weather_base_url(Some("   ")), "https://api.openweathermap.org");
    assert_eq!(weather_base_url(Some("http://127.0.0.1:9/")), "http://127.0.0.1:9");
    assert_eq!(weather_base_url(Some("http://mock//")), "http://mock");
    assert!(api_key_usable("k"));
    assert!(!api_key_usable(" \t"));
}

#[test]
fn observation_seconds_become_milliseconds() {
    assert_eq!(seconds_to_ms(1719600000), 1_719_600_000_000);
    assert_eq!(seconds_to_ms(i64::MAX), i64::MAX);
    assert_eq!(seconds_to_ms(i64::MIN), i64::MIN);
}

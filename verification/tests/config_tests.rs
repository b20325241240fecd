use pentair_daemon::config::home_path;
use pentair_daemon::config::{
    default_adapter_host, default_apns_environment, default_bind, default_heating_enabled,
    default_heating_history_path, default_min_new_intervals, default_minimum_runtime_minutes,
    default_notification_enabled, default_sample_window_minutes,
    default_shared_equipment_temp_warmup_seconds, default_true,
    default_weather_poll_interval_seconds, ApnsConfig, Associations, FcmConfig, WebConfig,
};

#[test]
fn web_config_defaults_to_empty() {
    let web = WebConfig::default();
    assert_eq!(web.remote_domain, "");
    assert_eq!(web.firebase.api_key, "");
    assert_eq!(web.firebase.auth_domain, "");
    assert_eq!(web.firebase.project_id, "");
}

#[test]
fn setting_defaults() {
    assert_eq!(default_adapter_host(), "");
    assert_eq!(default_bind(), "0.0.0.0:8080");
    assert_eq!(default_apns_environment(), "development");
    assert_eq!(default_weather_poll_interval_seconds(), 900);
    assert!(default_true());
    assert_eq!(default_min_new_intervals(), 4);
    assert_eq!(default_heating_history_path(), "~/.pentair/heat-estimator.json");
    assert_eq!(default_sample_window_minutes(), 180);
    assert_eq!(default_minimum_runtime_minutes(), 10);
    assert_eq!(default_shared_equipment_temp_warmup_seconds(), 120);
    assert!(default_heating_enabled());
    assert!(default_notification_enabled());
}

#[test]
fn section_defaults_are_empty() {
    let apns = ApnsConfig::default();
    assert_eq!(apns.environment, "", "an absent section has no environment");
    assert!(FcmConfig::default().project_id.is_empty());
    assert!(Associations::default().spa.is_empty());
}

#[test]
fn home_relative_paths_expand() {
    assert_eq!(home_path("~/.pentair/heat-estimator.json", Some("/home/p")), "/home/p/.pentair/heat-estimator.json");
    assert_eq!(home_path("~/x", Some("/home/p/")), "/home/p/x");
    assert_eq!(home_path("~/x", None), "./x");
    assert_eq!(home_path("~//abs", Some("/home/p")), "/abs");
    assert_eq!(home_path("/var/lib/h.json", Some("/home/p")), "/var/lib/h.json");
    assert_eq!(home_path("~x", Some("/home/p")), "~x");
}

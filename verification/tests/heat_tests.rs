use pentair_daemon::state::snapshot_stale;
use pentair_daemon::heat::{estimate_gate, TemperatureTrust};
use pentair_daemon::heat::{missing_rate_reason, rate_source};
use pentair_daemon::heat::temperature_display;
use pentair_daemon::heat::{
    any_overlap, apply_history_candidate, display_state,
    push_bounded, session_step, should_persist_reading, temperature_trust, uses_celsius,
    warmup_remaining_seconds, ActivityTracker, ActivityWindow, BodySpan, DisplayState,
    HeatingBodyKind, ReliableObservation, SessionStep, MAX_ACTIVITY_WINDOWS,
};

#[test]
fn celsius_units_are_detected() {
    assert!(uses_celsius("°C"));
    assert!(!uses_celsius("°F"));
}

#[test]
fn shared_body_temperature_is_unreliable_while_off() {
    let t = temperature_trust(true, false, false, 120, None, 1_000_000);
    assert!(!t.reliable);
    assert_eq!(t.reason, Some("inactive-shared-body"));
    let t = temperature_trust(true, true, false, 120, None, 1_000_000);
    assert_eq!(t.reason, Some("waiting-for-flow"));
    let t = temperature_trust(false, false, false, 120, None, 1_000_000);
    assert!(t.reliable, "a dedicated body always reads its own water");
}

#[test]
fn shared_body_temperature_warms_up_before_eta() {
    let since = 1_000_000;
    let t = temperature_trust(true, true, true, 120, Some(since), since + 60_000);
    assert_eq!(t.reason, Some("sensor-warmup"));
    assert_eq!(warmup_remaining_seconds(true, true, true, 120, Some(since), since + 60_000), Some(60));
    assert_eq!(warmup_remaining_seconds(true, true, true, 120, Some(since), since + 60_001), Some(60));
    assert_eq!(warmup_remaining_seconds(true, true, true, 120, Some(since), since + 119_001), Some(1));
    let t = temperature_trust(true, true, true, 120, Some(since), since + 120_000);
    assert!(t.reliable);
    assert_eq!(warmup_remaining_seconds(true, true, true, 120, Some(since), since + 120_000), None);
    assert_eq!(warmup_remaining_seconds(true, true, true, 0, Some(since), since), None);
}

#[test]
fn first_active_sample_after_restart_is_treated_as_already_warm() {
    let mut tr = ActivityTracker::new();
    let now = 10_000_000;
    assert_eq!(tr.observe(HeatingBodyKind::Spa, Some(true), now, 120_000), None);
    assert_eq!(tr.active_since_unix_ms, Some(now - 120_000));
    assert!(temperature_trust(true, true, true, 120, tr.active_since_unix_ms, now).reliable);
}

#[test]
fn session_waits_for_reliable_temperature_after_shared_warmup() {
    let mut tr = ActivityTracker::new();
    assert_eq!(tr.observe(HeatingBodyKind::Pool, Some(false), 1_000, 120_000), None);
    assert_eq!(tr.observe(HeatingBodyKind::Pool, Some(true), 2_000, 120_000), None);
    assert_eq!(tr.active_since_unix_ms, Some(2_000), "a fresh run starts its warm-up now");
    assert!(!temperature_trust(true, true, true, 120, tr.active_since_unix_ms, 50_000).reliable);
    assert!(temperature_trust(true, true, true, 120, tr.active_since_unix_ms, 122_000).reliable);
}

#[test]
fn activity_windows_recorded_on_body_off_transition_and_bounded() {
    let mut tr = ActivityTracker::new();
    tr.observe(HeatingBodyKind::Pool, Some(false), 0, 0);
    tr.observe(HeatingBodyKind::Pool, Some(true), 100, 0);
    tr.observe(HeatingBodyKind::Pool, Some(true), 200, 0);
    let w = tr.observe(HeatingBodyKind::Pool, Some(false), 300, 0);
    assert_eq!(w, Some(ActivityWindow { body: HeatingBodyKind::Pool, start_unix_ms: 100, end_unix_ms: 300 }));
    assert_eq!(tr.observe(HeatingBodyKind::Pool, Some(false), 400, 0), None);
    assert_eq!(tr.observe(HeatingBodyKind::Pool, None, 500, 0), None);
    assert_eq!(tr.last_active_observed, None);

    let mut log: Vec<u32> = Vec::new();
    for i in 0..(MAX_ACTIVITY_WINDOWS as u32 + 5) {
        push_bounded(&mut log, i, MAX_ACTIVITY_WINDOWS);
    }
    assert_eq!(log.len(), MAX_ACTIVITY_WINDOWS);
    assert_eq!(log[0], 5);
    assert_eq!(*log.last().unwrap(), MAX_ACTIVITY_WINDOWS as u32 + 4);
}

#[test]
fn capture_discards_gap_overlapping_body_activity() {
    let spans = vec![
        BodySpan { body: HeatingBodyKind::Pool, start_unix_ms: 100, end_unix_ms: 200 },
        BodySpan { body: HeatingBodyKind::Spa, start_unix_ms: 500, end_unix_ms: 600 },
    ];
    assert!(any_overlap(&spans, HeatingBodyKind::Pool, 150, 400));
    assert!(!any_overlap(&spans, HeatingBodyKind::Pool, 200, 400), "touching ends do not overlap");
    assert!(!any_overlap(&spans, HeatingBodyKind::Pool, 500, 600), "another body's span");
    assert!(any_overlap(&spans, HeatingBodyKind::Spa, 0, 501));
}

#[test]
fn reliable_readings_persist_on_change_or_after_a_minute() {
    let prev = ReliableObservation { temperature: 80, observed_at_unix_ms: 0 };
    let same_soon = ReliableObservation { temperature: 80, observed_at_unix_ms: 59_999 };
    let same_later = ReliableObservation { temperature: 80, observed_at_unix_ms: 60_000 };
    let changed = ReliableObservation { temperature: 81, observed_at_unix_ms: 1 };
    assert!(!should_persist_reading(Some(prev), same_soon));
    assert!(should_persist_reading(Some(prev), same_later));
    assert!(should_persist_reading(Some(prev), changed));
    assert!(should_persist_reading(None, same_soon));
}

#[test]
fn history_backfill_keeps_newest() {
    let mut slot = Some(ReliableObservation { temperature: 80, observed_at_unix_ms: 1_000 });
    assert!(!apply_history_candidate(&mut slot, Some(ReliableObservation { temperature: 70, observed_at_unix_ms: 900 })));
    assert_eq!(slot.unwrap().temperature, 80);
    assert!(apply_history_candidate(&mut slot, Some(ReliableObservation { temperature: 82, observed_at_unix_ms: 2_000 })));
    assert_eq!(slot.unwrap().temperature, 82);
    assert!(!apply_history_candidate(&mut slot, None));
}

#[test]
fn sessions_start_record_and_finish() {
    assert_eq!(session_step(false, true, true, true, true, false, true), SessionStep::Start);
    assert_eq!(session_step(false, true, false, true, true, false, true), SessionStep::Idle);
    assert_eq!(session_step(true, true, true, true, true, false, true), SessionStep::Record);
    assert_eq!(session_step(true, true, true, true, true, false, false), SessionStep::RecordAndFinish);
    assert_eq!(session_step(true, true, true, false, true, false, true), SessionStep::Finish);
    assert_eq!(session_step(true, false, true, true, true, false, true), SessionStep::Finish);
}

#[test]
fn estimate_display_states() {
    assert_eq!(display_state(None), (DisplayState::Unavailable, Some("not-configured".to_string())));
    assert_eq!(display_state(Some((true, ""))), (DisplayState::Ready, None));
    assert_eq!(display_state(Some((false, "sensor-warmup"))), (DisplayState::Pending, Some("sensor-warmup".to_string())));
    assert_eq!(display_state(Some((false, "insufficient-data"))), (DisplayState::Pending, Some("insufficient-data".to_string())));
    assert_eq!(display_state(Some((false, "body-off"))), (DisplayState::Unavailable, Some("body-off".to_string())));
}

#[test]
fn estimates_need_a_trusted_heating_body() {
    let ok = TemperatureTrust { reliable: true, reason: None };
    let warm = TemperatureTrust { reliable: false, reason: Some("sensor-warmup") };
    let odd = TemperatureTrust { reliable: false, reason: None };
    assert_eq!(estimate_gate(false, false, &ok, true, 104, 90), Some("not-heating"));
    assert_eq!(estimate_gate(true, true, &ok, true, 104, 90), Some("heat-off"));
    assert_eq!(estimate_gate(true, false, &warm, true, 104, 90), Some("sensor-warmup"));
    assert_eq!(estimate_gate(true, false, &odd, true, 104, 90), Some("temperature-unreliable"));
    assert_eq!(estimate_gate(true, false, &ok, false, 104, 90), Some("waiting-for-flow"));
    assert_eq!(estimate_gate(true, false, &ok, true, 104, 104), Some("at-temp"));
    assert_eq!(estimate_gate(true, false, &ok, true, 104, 90), None);
}

#[test]
fn rate_sources_and_confidence() {
    assert_eq!(rate_source(true, true, false, true), ("blended", "high"));
    assert_eq!(rate_source(true, false, true, false), ("blended", "medium"));
    assert_eq!(rate_source(true, false, false, true), ("observed", "medium"));
    assert_eq!(rate_source(false, true, true, false), ("learned", "medium"));
    assert_eq!(rate_source(false, false, true, false), ("configured", "low"));
    assert_eq!(rate_source(false, false, false, false), ("none", "none"));
    assert_eq!(missing_rate_reason("off"), "insufficient-data");
    assert_eq!(missing_rate_reason("unknown"), "insufficient-data");
    assert_eq!(missing_rate_reason("heater"), "missing-config");
}

#[test]
fn shared_body_uses_last_reliable_temperature_snapshot() {
    let d = temperature_display(70, false, Some("inactive-shared-body"), Some(84), Some(123), true);
    assert_eq!(d.value, Some(84));
    assert!(d.is_stale);
    assert_eq!(d.stale_reason.as_deref(), Some("inactive-shared-body"));
    assert_eq!(d.last_reliable_at_unix_ms, Some(123));
    assert!(d.is_predicted);
    let d = temperature_display(70, true, None, Some(84), None, false);
    assert_eq!(d.value, Some(70));
    assert!(!d.is_stale);
}

#[test]
fn snapshot_goes_stale_after_five_minutes() {
    assert!(!snapshot_stale(None, 1_000_000));
    assert!(!snapshot_stale(Some(1_000_000), 1_300_000));
    assert!(snapshot_stale(Some(1_000_000), 1_300_001));
    assert!(!snapshot_stale(Some(1_000_000), 0));
    assert!(snapshot_stale(Some(i64::MIN), i64::MAX));
}

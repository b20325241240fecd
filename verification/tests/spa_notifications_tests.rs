use pentair_daemon::spa_notifications::{label_from_format, progress_session_id, session_label};
use pentair_daemon::spa_notifications::{heating_active, progress_milestone, progress_phase, ProgressPhase};
use pentair_daemon::spa_notifications::{
    next_milestones, notification_text, MilestoneSwitches, SpaHeatMilestone,
    SpaHeatNotificationState, SpaHeatReading, TrustedProgress,
};

/// One controller update as the daemon sees it, with the trusted-session
/// temperatures still in degrees.
#[derive(Clone)]
struct Input {
    spa_on: bool,
    heat_mode_off: bool,
    heating_active: bool,
    current_temp: i32,
    target_temp: i32,
    minutes_remaining: Option<u32>,
    trusted_session_start_temp_f: Option<f64>,
    trusted_session_current_temp_f: Option<f64>,
    trusted_session_target_temp_f: Option<f64>,
    trusted_session_id: Option<i64>,
}

const MINIMUM_DELTA_F: f64 = 4.0;

fn base_config() -> MilestoneSwitches {
    MilestoneSwitches {
        enabled: true,
        heating_started: true,
        estimate_ready: true,
        halfway: true,
        almost_ready: true,
        at_temp: true,
    }
}

fn base_input() -> Input {
    Input {
        spa_on: true,
        heat_mode_off: false,
        heating_active: true,
        current_temp: 92,
        target_temp: 104,
        minutes_remaining: None,
        trusted_session_start_temp_f: None,
        trusted_session_current_temp_f: None,
        trusted_session_target_temp_f: None,
        trusted_session_id: None,
    }
}

/// The trusted-session progress compared with its thresholds, as the daemon
/// computes it from the session temperatures.
fn progress(input: &Input) -> Option<TrustedProgress> {
    let start = input.trusted_session_start_temp_f?;
    let current = input.trusted_session_current_temp_f?;
    let target = input.trusted_session_target_temp_f?;
    let delta = target - start;
    if !delta.is_finite() || delta <= 0.0 {
        return None;
    }
    let p = ((current - start) / delta).clamp(0.0, 1.0);
    Some(TrustedProgress {
        halfway_reached: p >= 0.5,
        almost_ready_reached: p >= 0.9,
        rise_large_enough: delta.max(0.0) >= MINIMUM_DELTA_F,
    })
}

fn evaluate(
    config: &MilestoneSwitches,
    input: &Input,
    state: &mut SpaHeatNotificationState,
) -> Vec<SpaHeatMilestone> {
    let reading = SpaHeatReading {
        spa_on: input.spa_on,
        heat_mode_off: input.heat_mode_off,
        heating_active: input.heating_active,
        current_temp: input.current_temp,
        target_temp: input.target_temp,
        minutes_remaining: input.minutes_remaining,
        trusted_session_id: input.trusted_session_id,
        progress: progress(input),
    };
    next_milestones(config, &reading, state)
}

#[test]
fn heating_started_fires_once_when_heating_begins() {
    let config = base_config();
    let mut state = SpaHeatNotificationState::default();
    let first = evaluate(&config, &base_input(), &mut state);
    assert_eq!(first.len(), 1);
    assert_eq!(first[0], SpaHeatMilestone::HeatingStarted);
    let second = evaluate(&config, &base_input(), &mut state);
    assert!(second.is_empty());
}

#[test]
fn estimate_ready_waits_for_first_eta_and_fires_once() {
    let config = base_config();
    let mut state = SpaHeatNotificationState::default();
    let mut input = base_input();
    let started = evaluate(&config, &input, &mut state);
    assert_eq!(started.len(), 1);
    let before_eta = evaluate(&config, &input, &mut state);
    assert!(before_eta.is_empty());
    input.minutes_remaining = Some(42);
    let ready = evaluate(&config, &input, &mut state);
    assert_eq!(ready.len(), 1);
    assert_eq!(ready[0], SpaHeatMilestone::EstimateReady);
    let repeated = evaluate(&config, &input, &mut state);
    assert!(repeated.is_empty());
}

#[test]
fn estimate_ready_suppresses_progress_on_same_update() {
    let config = base_config();
    let mut state = SpaHeatNotificationState::default();
    let mut input = base_input();
    evaluate(&config, &input, &mut state);
    input.minutes_remaining = Some(20);
    input.trusted_session_id = Some(1);
    input.trusted_session_start_temp_f = Some(92.0);
    input.trusted_session_current_temp_f = Some(100.0);
    input.trusted_session_target_temp_f = Some(104.0);
    let ready = evaluate(&config, &input, &mut state);
    assert_eq!(ready.len(), 1);
    assert_eq!(ready[0], SpaHeatMilestone::EstimateReady);
    let progress = evaluate(&config, &input, &mut state);
    assert!(progress.iter().any(|m| *m == SpaHeatMilestone::Halfway));
}

#[test]
fn progress_milestones_fire_once_for_trusted_session() {
    let config = base_config();
    let mut state = SpaHeatNotificationState::default();
    let mut input = base_input();
    evaluate(&config, &input, &mut state);
    input.minutes_remaining = Some(42);
    input.trusted_session_id = Some(1);
    input.trusted_session_start_temp_f = Some(92.0);
    input.trusted_session_current_temp_f = Some(98.0);
    input.trusted_session_target_temp_f = Some(104.0);
    let ready = evaluate(&config, &input, &mut state);
    assert!(ready.iter().any(|m| *m == SpaHeatMilestone::EstimateReady));
    let halfway = evaluate(&config, &input, &mut state);
    assert!(halfway.iter().any(|m| *m == SpaHeatMilestone::Halfway));
    input.trusted_session_current_temp_f = Some(103.0);
    let almost_ready = evaluate(&config, &input, &mut state);
    assert!(almost_ready.iter().any(|m| *m == SpaHeatMilestone::AlmostReady));
    input.current_temp = 104;
    input.trusted_session_current_temp_f = Some(104.0);
    input.minutes_remaining = Some(1);
    let at_temp = evaluate(&config, &input, &mut state);
    assert!(at_temp.iter().any(|m| *m == SpaHeatMilestone::AtTemp));
    let repeated = evaluate(&config, &input, &mut state);
    assert!(repeated.is_empty());
}

#[test]
fn small_delta_skips_progress_but_allows_at_temp() {
    let config = base_config();
    let mut state = SpaHeatNotificationState::default();
    let mut input = base_input();
    evaluate(&config, &input, &mut state);
    input.minutes_remaining = Some(8);
    input.current_temp = 101;
    input.target_temp = 104;
    input.trusted_session_id = Some(2);
    input.trusted_session_start_temp_f = Some(101.0);
    input.trusted_session_current_temp_f = Some(103.0);
    input.trusted_session_target_temp_f = Some(104.0);
    let progress = evaluate(&config, &input, &mut state);
    assert!(!progress.iter().any(|m| *m == SpaHeatMilestone::Halfway));
    assert!(!progress.iter().any(|m| *m == SpaHeatMilestone::AlmostReady));
    input.current_temp = 104;
    input.trusted_session_current_temp_f = Some(104.0);
    let at_temp = evaluate(&config, &input, &mut state);
    assert!(at_temp.iter().any(|m| *m == SpaHeatMilestone::AtTemp));
}

#[test]
fn reheat_cycle_is_silent_in_maintaining() {
    let config = base_config();
    let mut state = SpaHeatNotificationState::default();
    let mut input = base_input();
    evaluate(&config, &input, &mut state);
    input.current_temp = 104;
    let at_temp = evaluate(&config, &input, &mut state);
    assert!(at_temp.iter().any(|m| *m == SpaHeatMilestone::AtTemp));
    assert!(matches!(state, SpaHeatNotificationState::Maintaining { .. }));
    input.heating_active = false;
    input.current_temp = 102;
    let silent = evaluate(&config, &input, &mut state);
    assert!(silent.is_empty());
    assert!(matches!(state, SpaHeatNotificationState::Maintaining { .. }));
    input.heating_active = true;
    let still_silent = evaluate(&config, &input, &mut state);
    assert!(still_silent.is_empty());
    assert!(matches!(state, SpaHeatNotificationState::Maintaining { .. }));
}

#[test]
fn setpoint_raise_in_maintaining_starts_new_heating() {
    let config = base_config();
    let mut state = SpaHeatNotificationState::default();
    let mut input = base_input();
    input.target_temp = 102;
    evaluate(&config, &input, &mut state);
    input.current_temp = 102;
    evaluate(&config, &input, &mut state);
    assert!(matches!(state, SpaHeatNotificationState::Maintaining { setpoint: 102 }));
    input.target_temp = 106;
    input.current_temp = 102;
    input.heating_active = true;
    let events = evaluate(&config, &input, &mut state);
    assert_eq!(events.len(), 1);
    assert_eq!(events[0], SpaHeatMilestone::HeatingStarted);
    assert!(matches!(state, SpaHeatNotificationState::Heating { .. }));
}

#[test]
fn setpoint_lower_in_maintaining_stays_silent() {
    let config = base_config();
    let mut state = SpaHeatNotificationState::default();
    let mut input = base_input();
    evaluate(&config, &input, &mut state);
    input.current_temp = 104;
    evaluate(&config, &input, &mut state);
    assert!(matches!(state, SpaHeatNotificationState::Maintaining { setpoint: 104 }));
    input.target_temp = 100;
    let events = evaluate(&config, &input, &mut state);
    assert!(events.is_empty());
    assert!(matches!(state, SpaHeatNotificationState::Maintaining { .. }));
}

#[test]
fn spa_off_resets_to_idle_then_fresh_heating() {
    let config = base_config();
    let mut state = SpaHeatNotificationState::default();
    let mut input = base_input();
    evaluate(&config, &input, &mut state);
    input.current_temp = 104;
    evaluate(&config, &input, &mut state);
    assert!(matches!(state, SpaHeatNotificationState::Maintaining { .. }));
    input.spa_on = false;
    input.heating_active = false;
    let events = evaluate(&config, &input, &mut state);
    assert!(events.is_empty());
    assert!(matches!(state, SpaHeatNotificationState::Idle));
    input.spa_on = true;
    input.heating_active = true;
    input.current_temp = 92;
    let events = evaluate(&config, &input, &mut state);
    assert_eq!(events.len(), 1);
    assert_eq!(events[0], SpaHeatMilestone::HeatingStarted);
}

#[test]
fn heater_off_during_heating_pauses_milestones() {
    let config = base_config();
    let mut state = SpaHeatNotificationState::default();
    let mut input = base_input();
    evaluate(&config, &input, &mut state);
    assert!(matches!(state, SpaHeatNotificationState::Heating { .. }));
    input.heating_active = false;
    let events = evaluate(&config, &input, &mut state);
    assert!(events.is_empty());
    assert!(matches!(state, SpaHeatNotificationState::Heating { .. }));
    input.heating_active = true;
    let events = evaluate(&config, &input, &mut state);
    assert!(!events.iter().any(|m| *m == SpaHeatMilestone::HeatingStarted));
}

#[test]
fn setpoint_lowered_during_heating_adjusts_goal() {
    let config = base_config();
    let mut state = SpaHeatNotificationState::default();
    let mut input = base_input();
    input.current_temp = 80;
    input.target_temp = 104;
    let events = evaluate(&config, &input, &mut state);
    assert_eq!(events[0], SpaHeatMilestone::HeatingStarted);
    input.current_temp = 90;
    input.minutes_remaining = Some(30);
    input.trusted_session_id = Some(1);
    input.trusted_session_start_temp_f = Some(80.0);
    input.trusted_session_current_temp_f = Some(90.0);
    input.trusted_session_target_temp_f = Some(104.0);
    evaluate(&config, &input, &mut state);
    input.target_temp = 102;
    input.trusted_session_id = Some(2);
    input.trusted_session_target_temp_f = Some(102.0);
    input.trusted_session_start_temp_f = Some(80.0);
    input.trusted_session_current_temp_f = Some(90.0);
    let events = evaluate(&config, &input, &mut state);
    assert!(!events.iter().any(|m| *m == SpaHeatMilestone::HeatingStarted));
    assert!(matches!(state, SpaHeatNotificationState::Heating { .. }));
    input.current_temp = 102;
    input.trusted_session_current_temp_f = Some(102.0);
    let events = evaluate(&config, &input, &mut state);
    assert!(events.iter().any(|m| *m == SpaHeatMilestone::AtTemp));
    // The at-temp announcement names the lowered goal.
    let (_, body) = notification_text(SpaHeatMilestone::AtTemp, input.current_temp, input.target_temp, None, "°F");
    assert_eq!(body, "Spa has reached 102°F");
    assert!(matches!(state, SpaHeatNotificationState::Maintaining { setpoint: 102 }));
}

#[test]
fn setpoint_lowered_below_current_temp_during_heating_fires_at_temp() {
    let config = base_config();
    let mut state = SpaHeatNotificationState::default();
    let mut input = base_input();
    input.current_temp = 95;
    input.target_temp = 104;
    evaluate(&config, &input, &mut state);
    input.target_temp = 90;
    let events = evaluate(&config, &input, &mut state);
    assert!(events.iter().any(|m| *m == SpaHeatMilestone::AtTemp));
    assert!(matches!(state, SpaHeatNotificationState::Maintaining { setpoint: 90 }));
}

#[test]
fn heat_mode_off_resets_to_idle() {
    let config = base_config();
    let mut state = SpaHeatNotificationState::default();
    let mut input = base_input();
    evaluate(&config, &input, &mut state);
    input.current_temp = 104;
    evaluate(&config, &input, &mut state);
    assert!(matches!(state, SpaHeatNotificationState::Maintaining { .. }));
    input.heat_mode_off = true;
    input.heating_active = false;
    let events = evaluate(&config, &input, &mut state);
    assert!(events.is_empty());
    assert!(matches!(state, SpaHeatNotificationState::Idle));
    input.heat_mode_off = false;
    input.heating_active = true;
    input.current_temp = 100;
    let events = evaluate(&config, &input, &mut state);
    assert_eq!(events.len(), 1);
    assert_eq!(events[0], SpaHeatMilestone::HeatingStarted);
}

#[test]
fn setpoint_lower_then_raise_in_maintaining_triggers_heating() {
    let config = base_config();
    let mut state = SpaHeatNotificationState::default();
    let mut input = base_input();
    evaluate(&config, &input, &mut state);
    input.current_temp = 104;
    evaluate(&config, &input, &mut state);
    assert!(matches!(state, SpaHeatNotificationState::Maintaining { setpoint: 104 }));
    input.target_temp = 100;
    let events = evaluate(&config, &input, &mut state);
    assert!(events.is_empty());
    assert!(matches!(state, SpaHeatNotificationState::Maintaining { setpoint: 100 }));
    input.target_temp = 102;
    input.heating_active = true;
    let events = evaluate(&config, &input, &mut state);
    assert_eq!(events.len(), 1);
    assert_eq!(events[0], SpaHeatMilestone::HeatingStarted);
    assert!(matches!(state, SpaHeatNotificationState::Heating { .. }));
}

#[test]
fn notification_text_matches_expected_copy() {
    let (title, body) = notification_text(SpaHeatMilestone::EstimateReady, 92, 104, Some(42), "°F");
    assert_eq!(title, "Spa ready in about 42 min");
    assert_eq!(body, "Current temperature 92°F");
}

#[test]
fn notification_text_other_milestones() {
    assert_eq!(
        notification_text(SpaHeatMilestone::HeatingStarted, 90, 104, None, "°F"),
        ("Spa heating started".to_string(), "Heating to 104°F".to_string())
    );
    assert_eq!(
        notification_text(SpaHeatMilestone::EstimateReady, 90, 104, None, "°C"),
        ("Spa is heating — estimate calculating...".to_string(), "Current temperature 90°C".to_string())
    );
    assert_eq!(
        notification_text(SpaHeatMilestone::AlmostReady, 90, 104, None, "°F").1,
        "About 10% left to 104°F"
    );
}

#[test]
fn disabled_notifications_stay_silent() {
    let mut config = base_config();
    config.enabled = false;
    let mut state = SpaHeatNotificationState::default();
    assert!(evaluate(&config, &base_input(), &mut state).is_empty());
    assert!(matches!(state, SpaHeatNotificationState::Idle));
}

#[test]
fn session_labels() {
    assert_eq!(session_label(None), "");
    assert_eq!(session_label(Some(0)), "1970-01-01T00:00:00+00:00");
    assert_eq!(label_from_format(Some(i64::MAX), None), i64::MAX.to_string());
    assert_eq!(label_from_format(Some(5), Some("x".to_string())), "x");
}

#[test]
fn progress_session_ids_name_the_start_second() {
    assert_eq!(progress_session_id(1_500), "1970-01-01T00:00:01+00:00");
    assert_eq!(progress_session_id(-1_500), "1969-12-31T23:59:59+00:00");
    assert_eq!(progress_session_id(i64::MAX), i64::MAX.to_string());
}

#[test]
fn progress_card_phase_and_milestone() {
    assert_eq!(progress_phase(104, 104, false), ProgressPhase::Reached);
    assert_eq!(progress_phase(100, 104, true), ProgressPhase::Tracking);
    assert_eq!(progress_phase(100, 104, false), ProgressPhase::Started);
    assert_eq!(ProgressPhase::Tracking.as_str(), "tracking");
    assert_eq!(progress_milestone(ProgressPhase::Reached, 100, None), Some("at_temp"));
    assert_eq!(progress_milestone(ProgressPhase::Tracking, 91, Some(3)), Some("almost_ready"));
    assert_eq!(progress_milestone(ProgressPhase::Tracking, 50, Some(30)), Some("halfway"));
    assert_eq!(progress_milestone(ProgressPhase::Started, 2, None), Some("heating_started"));
    assert_eq!(progress_milestone(ProgressPhase::Tracking, 2, Some(60)), None);
    assert!(heating_active(true, "heater", "heater"));
    assert!(!heating_active(true, "off", "heater"));
    assert!(!heating_active(true, "heater", "unknown"));
    assert!(!heating_active(false, "heater", "heater"));
}

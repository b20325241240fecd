use chrono::Datelike;
use pentair_daemon::scheduled_heat::{
    check_setpoint, compute_ready_by_unix_ms, compute_start_time, fire_steps, format_unix_ms_local, parse_time,
    plan_schedule, ready_by_day, ready_by_instant, LAST_CALENDAR_DAY, resume_plan, schedule_response, time_from_parse,
    timer_delay_ms, timer_for_new, ClockTime, HeatAtRequest, HeatSchedule, HeatStep,
    ScheduleTimer, ScheduledHeatEntry, TimerResume,
};

#[test]
fn test_parse_time_valid() {
    let t = parse_time("19:00").unwrap();
    assert_eq!(t.hour(), 19);
    assert_eq!(t.minute(), 0);
}

#[test]
fn test_parse_time_leading_zero() {
    let t = parse_time("07:30").unwrap();
    assert_eq!(t.hour(), 7);
    assert_eq!(t.minute(), 30);
}

#[test]
fn test_parse_time_invalid() {
    assert!(parse_time("25:00").is_err());
    assert!(parse_time("abc").is_err());
    assert!(parse_time("").is_err());
}

#[test]
fn parse_time_error_names_the_input() {
    let e = parse_time("abc").unwrap_err();
    assert!(e.starts_with("invalid time 'abc': "), "got {e}");
}

#[test]
fn time_from_parse_maps_both_outcomes() {
    assert_eq!(time_from_parse("7:05", Ok((7, 5))), Ok(ClockTime { hour: 7, minute: 5 }));
    assert_eq!(
        time_from_parse("x", Err("input contains invalid characters".to_string())),
        Err("invalid time 'x': input contains invalid characters".to_string())
    );
}

#[test]
fn test_compute_start_time_plenty_of_time() {
    let now = 1000 * 60_000;
    let ready_by = now + 120 * 60_000;
    let estimated = 45;
    let (start, immediate) = compute_start_time(ready_by, estimated, now);
    assert!(!immediate);
    assert_eq!(start, ready_by - 45 * 60_000);
    assert!(start > now);
}

#[test]
fn test_compute_start_time_too_late() {
    let now = 1000 * 60_000;
    let ready_by = now + 30 * 60_000;
    let estimated = 60;
    let (start, immediate) = compute_start_time(ready_by, estimated, now);
    assert!(immediate);
    assert_eq!(start, now);
}

#[test]
fn test_compute_start_time_exactly_on_time() {
    let now = 1000 * 60_000;
    let ready_by = now + 60 * 60_000;
    let estimated = 60;
    let (_start, immediate) = compute_start_time(ready_by, estimated, now);
    assert!(immediate);
}

#[test]
fn test_format_unix_ms_local() {
    let s = format_unix_ms_local(1711396800000);
    assert!(!s.is_empty());
    assert!(s.contains("T"));
}

#[test]
fn ready_by_day_rolls_over_once_passed() {
    let seven_pm = ClockTime { hour: 19, minute: 0 };
    assert_eq!(ready_by_day(738_000, 18 * 3600, seven_pm), 738_000);
    assert_eq!(ready_by_day(738_000, 19 * 3600, seven_pm), 738_001);
    assert_eq!(ready_by_day(738_000, 20 * 3600, seven_pm), 738_001);
    // chrono's last date has no tomorrow: the target stays on it.
    assert_eq!(ready_by_day(LAST_CALENDAR_DAY, 20 * 3600, seven_pm), LAST_CALENDAR_DAY);
    assert_eq!(ready_by_day(LAST_CALENDAR_DAY - 1, 20 * 3600, seven_pm), LAST_CALENDAR_DAY);
}

#[test]
fn setpoint_range_is_checked() {
    assert!(check_setpoint(40).is_ok());
    assert!(check_setpoint(104).is_ok());
    assert_eq!(check_setpoint(39), Err("setpoint 39 out of range (40-104 F)".to_string()));
    assert_eq!(check_setpoint(105), Err("setpoint 105 out of range (40-104 F)".to_string()));
    assert_eq!(check_setpoint(-5), Err("setpoint -5 out of range (40-104 F)".to_string()));
}

fn request() -> HeatAtRequest {
    HeatAtRequest { ready_by: "23:59".to_string(), setpoint: 104 }
}

#[test]
fn plan_with_time_to_spare_arms_a_timer() {
    let now = 1_000_000_000i64;
    let ready = now + 3 * 3_600_000;
    let (entry, warning) = plan_schedule(&request(), ready, now, Some(60), 60);
    assert_eq!(entry.ready_by, "23:59");
    assert_eq!(entry.setpoint, 104);
    assert_eq!(entry.start_at_unix_ms, ready - 60 * 60_000);
    assert!(!entry.started_immediately);
    assert!(!entry.fired);
    assert_eq!(warning, None);
    assert_eq!(timer_for_new(&entry, now), ScheduleTimer::Arm { delay_ms: 2 * 3_600_000 });
}

#[test]
fn plan_too_late_fires_now_and_warns() {
    let now = 1_000_000_000i64;
    let ready = now + 60_000;
    let (entry, warning) = plan_schedule(&request(), ready, now, Some(7680), 7680);
    assert!(entry.started_immediately);
    assert!(entry.fired);
    assert_eq!(entry.start_at_unix_ms, now);
    assert_eq!(
        warning.as_deref(),
        Some("Not enough time to reach target temperature. Starting immediately.")
    );
    assert_eq!(timer_for_new(&entry, now), ScheduleTimer::FireNow);
}

#[test]
fn plan_without_rate_data_warns_about_default() {
    let now = 1_000_000_000i64;
    let ready = now + 10 * 3_600_000;
    let (entry, warning) = plan_schedule(&request(), ready, now, None, 480);
    assert_eq!(entry.estimated_minutes, None);
    assert_eq!(
        warning.as_deref(),
        Some("No heating rate data available; using default estimate. Actual time may vary.")
    );
    let resp = schedule_response(&entry, warning);
    assert!(resp.scheduled);
    assert!(resp.estimated_minutes.is_none());
    assert!(resp.warning.is_some());
}

#[test]
fn delay_is_zero_once_start_passed() {
    assert_eq!(timer_delay_ms(5_000, 1_000), 4_000);
    assert_eq!(timer_delay_ms(1_000, 5_000), 0);
    assert_eq!(timer_delay_ms(1_000, 1_000), 0);
}

fn entry(fired: bool, start: i64, ready: i64) -> ScheduledHeatEntry {
    ScheduledHeatEntry {
        ready_by: "19:00".to_string(),
        setpoint: 102,
        estimated_minutes: Some(30),
        start_at_unix_ms: start,
        ready_by_unix_ms: ready,
        started_immediately: false,
        fired,
    }
}

#[test]
fn restart_resumes_expires_or_skips() {
    assert_eq!(resume_plan(&None, 100), TimerResume::NoSchedule);
    assert_eq!(resume_plan(&Some(entry(true, 10, 20)), 100), TimerResume::AlreadyFired);
    assert_eq!(resume_plan(&Some(entry(false, 10, 20)), 100), TimerResume::Expired);
    assert_eq!(resume_plan(&Some(entry(false, 150, 200)), 100), TimerResume::Arm { delay_ms: 50 });
    assert_eq!(resume_plan(&Some(entry(false, 50, 200)), 100), TimerResume::Arm { delay_ms: 0 });
}

#[test]
fn firing_sets_setpoint_then_mode_then_spa() {
    let e = Some(entry(false, 0, 0));
    assert_eq!(
        fire_steps(&e, Some(7)),
        vec![
            HeatStep::SetHeatSetpoint { body_type: 1, temp: 102 },
            HeatStep::SetHeatMode { body_type: 1, mode: 3 },
            HeatStep::SetCircuit { circuit_id: 7, state: true },
        ]
    );
    assert_eq!(fire_steps(&e, None).len(), 2);
    assert!(fire_steps(&None, Some(7)).is_empty());
}

#[test]
fn schedule_slot_store_status_cancel() {
    let mut slot = HeatSchedule::new(None);
    assert!(!slot.status().active);
    slot.store(entry(false, 1, 2));
    let st = slot.status();
    assert!(st.active);
    assert_eq!(st.ready_by, Some("19:00".to_string()));
    assert_eq!(st.setpoint, Some(102));
    assert_eq!(st.fired, Some(false));
    assert!(st.start_at.is_some());
    slot.mark_fired();
    assert_eq!(slot.status().fired, Some(true));
    assert!(slot.cancel());
    assert!(!slot.status().active);
    assert!(!slot.cancel());
}

#[test]
fn test_compute_ready_by_unix_ms_future_today() {
    // Time-sensitive: holds unless run exactly at 23:59 local time.
    let far_future_time = chrono::NaiveTime::from_hms_opt(23, 59, 0).unwrap();
    let now = chrono::Local::now();
    let today_2359 = now
        .date_naive()
        .and_time(far_future_time)
        .and_local_timezone(now.timezone())
        .single()
        .unwrap();
    if now < today_2359 {
        let result = compute_ready_by_unix_ms(ClockTime { hour: 23, minute: 59 });
        assert_eq!(result, today_2359.timestamp_millis());
    }
}

#[test]
fn last_calendar_day_is_chronos_last_date() {
    assert_eq!(chrono::NaiveDate::MAX.num_days_from_ce(), LAST_CALENDAR_DAY);
    assert_eq!(chrono::NaiveDate::from_ymd_opt(1970, 1, 1).unwrap().num_days_from_ce(), 719_163);
}

#[test]
fn ready_by_falls_back_to_now_when_unresolved() {
    assert_eq!(ready_by_instant(1_000, Some(5_000)), 5_000);
    assert_eq!(ready_by_instant(1_000, None), 1_000);
}

use pentair_daemon::config::default_shared_equipment_temp_warmup_seconds;
use pentair_daemon::heat::{HeatingBodyKind, ReliableObservation};
use pentair_daemon::history::{
    controller_history_time_to_unix_ms, history_run_contains_sample, history_window_start,
    latest_history_observation_for_body, reliable_history_observations_for_body,
    seed_last_reliable_from_controller_history, ControllerTime, HistoryData, HistoryPoint,
    HistoryRun,
};

fn history_time(day: u16, hour: u16, minute: u16, second: u16) -> ControllerTime {
    ControllerTime {
        year: 2026,
        month: 3,
        day_of_week: 0,
        day,
        hour,
        minute,
        second,
        millisecond: 0,
    }
}

fn spa_history(temps: Vec<HistoryPoint>, runs: Vec<HistoryRun>) -> HistoryData {
    HistoryData { pool_temps: vec![], pool_runs: vec![], spa_temps: temps, spa_runs: runs }
}

#[test]
fn history_backfill_only_uses_samples_inside_run_window() {
    let mut pool = None;
    let mut spa = None;
    let controller_now = history_time(24, 6, 0, 0);
    let now_unix_ms = 1_700_000_000_000i64;
    let history = spa_history(
        vec![
            HistoryPoint { time: history_time(23, 21, 10, 0), temp: 90 },
            HistoryPoint { time: history_time(23, 21, 20, 0), temp: 98 },
            HistoryPoint { time: history_time(24, 5, 45, 0), temp: 100 },
        ],
        vec![HistoryRun { on: history_time(23, 21, 13, 57), off: history_time(23, 21, 25, 32) }],
    );

    seed_last_reliable_from_controller_history(
        &mut pool,
        &mut spa,
        &history,
        &controller_now,
        now_unix_ms,
        false,
        default_shared_equipment_temp_warmup_seconds(),
    );

    let observation = spa.expect("spa observation");
    assert_eq!(observation.temperature, 98);
    assert!(pool.is_none());
}

#[test]
fn history_backfill_respects_shared_equipment_warmup() {
    let mut pool = None;
    let mut spa = None;
    let controller_now = history_time(24, 6, 0, 0);
    let now_unix_ms = 1_700_000_000_000i64;
    let history = spa_history(
        vec![
            HistoryPoint { time: history_time(23, 21, 14, 30), temp: 96 },
            HistoryPoint { time: history_time(23, 21, 16, 30), temp: 99 },
        ],
        vec![HistoryRun { on: history_time(23, 21, 13, 57), off: history_time(23, 21, 25, 32) }],
    );

    seed_last_reliable_from_controller_history(
        &mut pool,
        &mut spa,
        &history,
        &controller_now,
        now_unix_ms,
        true,
        default_shared_equipment_temp_warmup_seconds(),
    );

    let observation = spa.expect("spa observation");
    assert_eq!(observation.temperature, 99);
}

#[test]
fn history_times_are_placed_on_the_daemon_clock() {
    let now = history_time(24, 6, 0, 0);
    assert_eq!(controller_history_time_to_unix_ms(&history_time(24, 5, 0, 0), &now, 10_000_000), Some(6_400_000));
    assert_eq!(controller_history_time_to_unix_ms(&history_time(24, 6, 0, 1), &now, 0), Some(1_000));
    let mut feb30 = history_time(24, 6, 0, 0);
    feb30.month = 2;
    feb30.day = 30;
    assert_eq!(controller_history_time_to_unix_ms(&feb30, &now, 0), None);
    assert_eq!(controller_history_time_to_unix_ms(&now, &feb30, 0), None);
    let mut leap = history_time(24, 6, 0, 59);
    leap.millisecond = 1_500;
    assert!(controller_history_time_to_unix_ms(&leap, &now, 0).is_some());
    assert_eq!(controller_history_time_to_unix_ms(&history_time(24, 6, 0, 1), &now, i64::MAX), Some(i64::MAX));
}

#[test]
fn run_membership_checks_order_and_warmup() {
    let now = history_time(24, 6, 0, 0);
    let run = HistoryRun { on: history_time(24, 5, 0, 0), off: history_time(24, 5, 30, 0) };
    let on_ms = 10_000_000 - 3_600_000;
    assert!(history_run_contains_sample(&run, &now, 10_000_000, on_ms + 120_000, 120_000));
    assert!(!history_run_contains_sample(&run, &now, 10_000_000, on_ms + 119_999, 120_000));
    assert!(history_run_contains_sample(&run, &now, 10_000_000, on_ms + 1_800_000, 0));
    assert!(!history_run_contains_sample(&run, &now, 10_000_000, on_ms + 1_800_001, 0));
    let backwards = HistoryRun { on: run.off, off: run.on };
    assert!(!history_run_contains_sample(&backwards, &now, 10_000_000, on_ms + 60_000, 0));
}

#[test]
fn reliable_observations_come_out_in_time_order() {
    let now = history_time(24, 6, 0, 0);
    let history = spa_history(
        vec![
            HistoryPoint { time: history_time(24, 5, 20, 0), temp: 101 },
            HistoryPoint { time: history_time(24, 5, 10, 0), temp: 100 },
            HistoryPoint { time: history_time(24, 5, 20, 0), temp: 102 },
            HistoryPoint { time: history_time(24, 4, 0, 0), temp: 70 },
        ],
        vec![HistoryRun { on: history_time(24, 5, 0, 0), off: history_time(24, 5, 30, 0) }],
    );
    let obs = reliable_history_observations_for_body(HeatingBodyKind::Spa, &history, &now, 0, false, 120);
    let temps: Vec<i32> = obs.iter().map(|o| o.temperature).collect();
    assert_eq!(temps, vec![100, 101, 102]);
    assert_eq!(obs[0].observed_at_unix_ms, -50 * 60_000);
    let latest = latest_history_observation_for_body(HeatingBodyKind::Spa, &history, &now, 0, false, 120);
    assert_eq!(latest, Some(ReliableObservation { temperature: 102, observed_at_unix_ms: -40 * 60_000 }));
    assert_eq!(latest_history_observation_for_body(HeatingBodyKind::Pool, &history, &now, 0, false, 120), None);
}

#[test]
fn seeding_never_replaces_a_newer_reading() {
    let now = history_time(24, 6, 0, 0);
    let history = spa_history(
        vec![HistoryPoint { time: history_time(24, 5, 20, 0), temp: 101 }],
        vec![HistoryRun { on: history_time(24, 5, 0, 0), off: history_time(24, 5, 30, 0) }],
    );
    let mut pool = None;
    let newer = ReliableObservation { temperature: 99, observed_at_unix_ms: 0 };
    let mut spa = Some(newer);
    assert!(!seed_last_reliable_from_controller_history(&mut pool, &mut spa, &history, &now, 0, false, 120));
    assert_eq!(spa, Some(newer));
    let mut spa = None;
    assert!(seed_last_reliable_from_controller_history(&mut pool, &mut spa, &history, &now, 0, false, 120));
    assert_eq!(spa.unwrap().temperature, 101);
}

#[test]
fn backfill_window_starts_two_days_back() {
    let start = history_window_start(&history_time(24, 6, 0, 0)).unwrap();
    assert_eq!((start.year, start.month, start.day, start.hour, start.minute), (2026, 3, 22, 6, 0));
    assert_eq!(start.day_of_week, 0, "22 March 2026 is a Sunday");
    let mut early = history_time(1, 12, 30, 15);
    early.millisecond = 250;
    let start = history_window_start(&early).unwrap();
    assert_eq!((start.month, start.day, start.hour, start.second, start.millisecond), (2, 27, 12, 15, 250));
    let mut bad = history_time(24, 6, 0, 0);
    bad.month = 13;
    assert_eq!(history_window_start(&bad), None);
}

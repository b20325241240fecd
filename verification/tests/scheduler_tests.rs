use pentair_daemon::scheduler::{
    first_span_at, lead_candidates, local_time, minute_in_window, parse_days, window_occurrences,
    DaySpan, HhMm, SlotTimeline, Weekday, SECONDS_PER_DAY,
};

fn pst() -> i64 {
    -8 * 3600
}

/// A unix instant for a known local weekday/time. 2024-01-01 was a Monday;
/// PST midnight that day is unix 1_704_096_000.
fn local_unix(days_after_mon: i64, hour: i64, minute: i64) -> i64 {
    let mon_midnight_pst = 1_704_096_000i64;
    mon_midnight_pst + days_after_mon * SECONDS_PER_DAY + hour * 3600 + minute * 60
}

#[test]
fn local_time_weekday_is_correct() {
    assert_eq!(local_time(local_unix(0, 12, 0), pst()).weekday, Weekday::Mon);
    assert_eq!(local_time(local_unix(5, 12, 0), pst()).weekday, Weekday::Sat);
    assert_eq!(local_time(local_unix(6, 12, 0), pst()).weekday, Weekday::Sun);
}

#[test]
fn weekday_parse_roundtrips() {
    assert_eq!(Weekday::parse("Sat"), Some(Weekday::Sat));
    assert_eq!(Weekday::parse("sun"), Some(Weekday::Sun));
    assert_eq!(Weekday::parse("FRI"), Some(Weekday::Fri));
    assert_eq!(Weekday::parse("xyz"), None);
}

#[test]
fn hhmm_parse_valid_and_invalid() {
    assert_eq!(HhMm::parse("16:00").unwrap().minute_of_day, 16 * 60);
    assert_eq!(HhMm::parse("24:00").unwrap().minute_of_day, 1440);
    assert!(HhMm::parse("25:00").is_none());
    assert!(HhMm::parse("noon").is_none());
}

fn weekend_window() -> DaySpan {
    DaySpan {
        days: vec![Weekday::Sat, Weekday::Sun],
        start: HhMm::new(15, 0),
        end: HhMm::new(20, 0),
    }
}

#[test]
fn comfort_window_membership() {
    let w = weekend_window();
    assert!(w.contains(local_unix(5, 16, 0), pst()));
    assert!(!w.contains(local_unix(5, 21, 0), pst()));
    assert!(!w.contains(local_unix(0, 16, 0), pst()));
    assert!(w.contains(local_unix(6, 15, 0), pst()));
}

#[test]
fn comfort_window_next_start_after() {
    let w = weekend_window();
    let from = local_unix(0, 12, 0);
    let next = w.next_start_after(from, pst(), 14).expect("a window within 2 weeks");
    let lt = local_time(next, pst());
    assert_eq!(lt.weekday, Weekday::Sat);
    assert_eq!(lt.minute_of_day, 15 * 60);
    assert!(next > from);
}

#[test]
fn comfort_window_empty_days_has_no_next() {
    let w = DaySpan {
        days: vec![],
        start: HhMm::new(15, 0),
        end: HhMm::new(20, 0),
    };
    assert_eq!(w.next_start_after(local_unix(0, 12, 0), pst(), 14), None);
}

fn weekday_peak() -> DaySpan {
    DaySpan {
        days: vec![Weekday::Mon, Weekday::Tue, Weekday::Wed, Weekday::Thu, Weekday::Fri],
        start: HhMm::new(16, 0),
        end: HhMm::new(21, 0),
    }
}

/// The rate in effect: the first matching period's, else the flat default.
fn rate(periods: &Vec<DaySpan>, rates: &[f64], default: f64, unix: i64) -> f64 {
    match first_span_at(periods, unix, pst()) {
        Some(i) => rates[i],
        None => default,
    }
}

#[test]
fn rate_selects_peak_offpeak_and_flat_default() {
    let periods = vec![weekday_peak()];
    assert_eq!(rate(&periods, &[0.55], 0.30, local_unix(0, 17, 0)), 0.55);
    assert_eq!(rate(&periods, &[0.55], 0.30, local_unix(0, 10, 0)), 0.30);
    assert_eq!(rate(&periods, &[0.55], 0.30, local_unix(5, 17, 0)), 0.30);
}

#[test]
fn rate_flat_default_when_no_periods() {
    let periods: Vec<DaySpan> = Vec::new();
    assert_eq!(rate(&periods, &[], 0.42, local_unix(0, 3, 0)), 0.42);
    assert_eq!(rate(&periods, &[], 0.42, local_unix(5, 18, 0)), 0.42);
}

#[test]
fn rate_boundaries_are_half_open() {
    let periods = vec![DaySpan {
        days: vec![Weekday::Mon],
        start: HhMm::new(16, 0),
        end: HhMm::new(21, 0),
    }];
    assert_eq!(rate(&periods, &[0.55], 0.30, local_unix(0, 16, 0)), 0.55);
    assert_eq!(rate(&periods, &[0.55], 0.30, local_unix(0, 21, 0)), 0.30);
    assert_eq!(rate(&periods, &[0.55], 0.30, local_unix(0, 20, 59)), 0.55);
}

#[test]
fn first_matching_period_wins() {
    let periods = vec![
        weekday_peak(),
        DaySpan { days: vec![Weekday::Mon], start: HhMm::new(0, 0), end: HhMm::new(24, 0) },
    ];
    assert_eq!(first_span_at(&periods, local_unix(0, 17, 0), pst()), Some(0));
    assert_eq!(first_span_at(&periods, local_unix(0, 9, 0), pst()), Some(1));
    assert_eq!(first_span_at(&periods, local_unix(2, 9, 0), pst()), None);
}

#[test]
fn hhmm_new_clamps() {
    assert_eq!(HhMm::new(-3, 10).minute_of_day, 10);
    assert_eq!(HhMm::new(30, 0).minute_of_day, 1440);
    assert_eq!(HhMm::new(24, 59).minute_of_day, 1440);
    assert_eq!(HhMm::new(7, 75).minute_of_day, 7 * 60 + 59);
}

#[test]
fn hhmm_parse_trims_parts() {
    assert_eq!(HhMm::parse(" 7 : 05 ").unwrap().minute_of_day, 7 * 60 + 5);
    assert!(HhMm::parse("07-05").is_none());
    assert!(HhMm::parse("07:60").is_none());
}

#[test]
fn window_is_half_open_and_never_wraps() {
    assert!(minute_in_window(600, HhMm::new(10, 0), HhMm::new(11, 0)));
    assert!(!minute_in_window(660, HhMm::new(10, 0), HhMm::new(11, 0)));
    assert!(!minute_in_window(30, HhMm::new(23, 0), HhMm::new(1, 0)));
}

#[test]
fn parse_days_skips_unknown_names() {
    let days = vec!["Mon".to_string(), "bogus".to_string(), "sun".to_string()];
    assert_eq!(parse_days(&days), vec![Weekday::Mon, Weekday::Sun]);
}

#[test]
fn span_from_config_requires_both_bounds() {
    let days = vec!["Sat".to_string()];
    let span = DaySpan::from_config(&days, "15:00", "20:00").unwrap();
    assert_eq!(span.days, vec![Weekday::Sat]);
    assert_eq!(span.start.minute_of_day, 900);
    assert_eq!(span.end.minute_of_day, 1200);
    assert!(DaySpan::from_config(&days, "15:00", "late").is_none());
    assert!(DaySpan::from_config(&days, "soon", "20:00").is_none());
}

#[test]
fn multi_day_window_groups_into_independent_occurrences() {
    // 2024-06-22 00:00 PST, a Saturday; 48 one-hour slots.
    let anchor = 1_719_043_200i64;
    let tl = SlotTimeline { anchor_unix: anchor, slot_secs: 3600, num_slots: 48 };
    let window = weekend_window();
    let occs = window_occurrences(&tl, &window, pst());
    assert_eq!(occs.len(), 2, "Sat + Sun must be two occurrences");
    assert_eq!(occs[0], vec![15, 16, 17, 18, 19]);
    assert_eq!(occs[1], vec![39, 40, 41, 42, 43]);
    // Sunday's lead time starts after Saturday's window and skips heated slots.
    let mut heat_on = vec![false; 48];
    heat_on[37] = true;
    let lead = lead_candidates(&tl, &window, pst(), 20, 39, &heat_on);
    assert_eq!(lead, vec![20, 21, 22, 23, 24, 25, 26, 27, 28, 29, 30, 31, 32, 33, 34, 35, 36, 38]);
}

#[test]
fn slot_timeline_maps_instants_to_slots() {
    let tl = SlotTimeline { anchor_unix: 1000, slot_secs: 1800, num_slots: 4 };
    assert_eq!(tl.slot_start_unix(0), 1000);
    assert_eq!(tl.slot_start_unix(3), 1000 + 3 * 1800);
    assert_eq!(tl.slot_index_for(999), None);
    assert_eq!(tl.slot_index_for(1000 + 1799), Some(0));
    assert_eq!(tl.slot_index_for(1000 + 3 * 1800), Some(3));
    assert_eq!(tl.slot_index_for(1000 + 4 * 1800), None);
}

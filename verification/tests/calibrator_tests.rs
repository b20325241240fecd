use pentair_daemon::calibrator::{
    bucket_plan, count_fresh_clean, exclusion_counts, holdout_split, refit_due, refit_window,
    BucketPlan, IntervalKey, IntervalRegime, TimeSpan,
};

const H: i64 = 3_600_000;

fn span(start_h: i64, end_h: i64) -> TimeSpan {
    TimeSpan { start_unix_ms: start_h * H, end_unix_ms: end_h * H }
}

#[test]
fn buckets_are_hourly_and_capped_at_24() {
    let segs = vec![span(0, 100)];
    let b = bucket_plan(&segs, 0, 5 * H);
    assert_eq!(b.len(), 5);
    assert_eq!(b[0], BucketPlan { segment: 0, start_unix_ms: 0, end_unix_ms: H });
    assert_eq!(b[4].end_unix_ms, 5 * H);
    let b = bucket_plan(&segs, 0, 48 * H);
    assert_eq!(b.len(), 24, "a long gap is widened, not truncated");
    assert_eq!(b[0].end_unix_ms, 2 * H);
    assert_eq!(b[23].end_unix_ms, 48 * H);
    // Part of an hour still gets a bucket.
    assert_eq!(bucket_plan(&segs, 0, H / 2).len(), 1);
    assert_eq!(bucket_plan(&segs, 0, H + 1).len(), 2);
}

#[test]
fn buckets_take_weather_from_covering_segment() {
    let segs = vec![span(0, 2), span(2, 4)];
    let b = bucket_plan(&segs, 0, 4 * H);
    let chosen: Vec<usize> = b.iter().map(|x| x.segment).collect();
    assert_eq!(chosen, vec![0, 0, 1, 1]);
    // No segment covers the middle: the nearest start is taken (first on ties).
    let far = vec![span(10, 11), span(-5, -4)];
    let b = bucket_plan(&far, 0, H);
    assert_eq!(b[0].segment, 1);
}

#[test]
fn empty_segments_yield_no_buckets() {
    assert!(bucket_plan(&Vec::new(), 0, 5 * H).is_empty());
    assert!(bucket_plan(&vec![span(0, 1)], 5 * H, 5 * H).is_empty());
}

#[test]
fn holdout_split_is_deterministic_and_nonempty() {
    let items = vec![10, 11, 12, 13, 14, 15, 16];
    let (fit, holdout) = holdout_split(&items);
    assert_eq!(holdout, vec![&10, &13, &16]);
    assert_eq!(fit, vec![&11, &12, &14, &15]);
    let (fit2, holdout2) = holdout_split(&items);
    assert_eq!((fit, holdout), (fit2, holdout2));
    let (fit, holdout) = holdout_split(&[1, 2, 3]);
    assert!(!fit.is_empty() && !holdout.is_empty());
}

fn key(t1: i64, clean: bool) -> IntervalKey {
    IntervalKey {
        t1_unix_ms: t1,
        regime: if clean { IntervalRegime::IdleCovered } else { IntervalRegime::ExcludedAnomalous },
    }
}

#[test]
fn exclusion_rate_counts_only_window() {
    let ks = vec![key(5, false), key(10, true), key(20, false), key(30, true)];
    assert_eq!(exclusion_counts(&ks, 10), (3, 1));
    assert_eq!(exclusion_counts(&ks, 100), (0, 0));
}

#[test]
fn refit_needs_min_new_intervals_unless_mae_drifts() {
    let ks = vec![key(10, true), key(20, true), key(30, false), key(40, true)];
    assert_eq!(count_fresh_clean(&ks, 15), 2);
    assert!(!refit_due(Some(15), 1_000, 100, &ks, 4, false));
    assert!(refit_due(Some(15), 1_000, 100, &ks, 4, true));
    assert!(refit_due(None, 1_000, 100, &ks, 3, false));
}

#[test]
fn refit_rate_limited_by_refit_min_hours() {
    let ks = vec![key(10, true); 10];
    assert!(!refit_due(Some(950), 1_000, 100, &ks, 1, true));
    assert!(refit_due(Some(900), 1_000, 100, &ks, 0, false));
}

#[test]
fn refit_window_takes_clean_unless_escaping() {
    let ks = vec![key(5, true), key(10, false), key(20, true)];
    assert_eq!(refit_window(&ks, 6, false), vec![2]);
    assert_eq!(refit_window(&ks, 6, true), vec![1, 2]);
    assert_eq!(refit_window(&ks, 0, false), vec![0, 2]);
}

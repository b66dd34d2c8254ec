use plotters::coord::datetime::{
    compute_period_per_point, date_key_point_offsets, duration_days_per_tick,
    duration_day_key_points, duration_day_key_points_fit, duration_first_key_ns, first_key_time_ns, generate_yearly_keypoints, key_years_fit,
    monthly_key_points, monthly_key_points_fit, next_month, period_per_point_fits,
    previous_month, stepped_values, yearly_key_points, yearly_key_points_fit,
};

#[test]
fn period_per_point_values() {
    let day: u64 = 86_400_000_000_000;
    assert_eq!(compute_period_per_point(100_000_000_000, 10, false), Some(10_000_000_000));
    assert_eq!(compute_period_per_point(30 * day, 10, true), None);
    assert_eq!(compute_period_per_point(30 * day, 10, false), Some(5 * day));
    assert_eq!(compute_period_per_point(0, 0, true), Some(1));
    assert_eq!(compute_period_per_point(1000, 10, false), Some(100));
}

#[test]
fn period_per_point_bounds_points() {
    for total in [1u64, 999, 12_345_678, 3_600_000_000_000, 7 * 86_400_000_000_000] {
        for max in 1..30usize {
            if let Some(p) = compute_period_per_point(total, max, false) {
                assert!(p >= 1);
                assert!(total / p <= max as u64);
            }
        }
    }
}

#[test]
fn months_forward_and_back() {
    assert_eq!(next_month(2019, 12), (2020, 1));
    assert_eq!(next_month(2019, 3), (2019, 4));
    assert_eq!(previous_month(2020, 1), (2019, 12));
    assert_eq!(previous_month(2020, 5), (2020, 4));
    for m in 1..=12u32 {
        let (y, n) = next_month(2000, m);
        assert_eq!(previous_month(y, n), (2000, m));
    }
}

#[test]
fn yearly_keypoint_years() {
    assert_eq!(
        generate_yearly_keypoints(10, 2000, 1, 2100, 1),
        (0..=5).map(|k| 2000 + 20 * k).collect::<Vec<i32>>()
    );
    assert_eq!(
        generate_yearly_keypoints(10, 2000, 6, 2010, 3),
        (2000..=2009).collect::<Vec<i32>>()
    );
}

#[test]
fn monthly_key_points_every_month() {
    let kp = monthly_key_points((2019, 1, 15), (2019, 12), 11);
    assert_eq!(kp, (2..=12).map(|m| (2019, m)).collect::<Vec<(i32, u32)>>());
    let kp = monthly_key_points((2019, 1, 15), (2019, 12), 10);
    assert_eq!(kp, vec![(2019, 2), (2019, 5), (2019, 8), (2019, 11)]);
}

#[test]
fn monthly_key_points_quarterly() {
    let kp = monthly_key_points((2019, 1, 1), (2020, 12), 10);
    assert_eq!(
        kp,
        vec![
            (2019, 1),
            (2019, 4),
            (2019, 7),
            (2019, 10),
            (2020, 1),
            (2020, 4),
            (2020, 7),
            (2020, 10)
        ]
    );
}

#[test]
fn monthly_key_points_falls_back_to_years() {
    let kp = monthly_key_points((2000, 1, 1), (2020, 1), 10);
    assert_eq!(kp, (0..=4).map(|k| (2000 + 5 * k, 1)).collect::<Vec<(i32, u32)>>());
    let kp = monthly_key_points((2000, 1, 1), (2020, 1), 11);
    assert_eq!(kp, (0..=10).map(|k| (2000 + 2 * k, 1)).collect::<Vec<(i32, u32)>>());
}

#[test]
fn yearly_key_points_from_next_month() {
    let kp = yearly_key_points((2019, 3, 5), (2030, 1), 5);
    assert_eq!(kp, vec![(2019, 4), (2024, 4), (2029, 4)]);
    let kp = yearly_key_points((2019, 3, 5), (2030, 1), 6);
    assert_eq!(kp, (0..=5).map(|k| (2019 + 2 * k, 4)).collect::<Vec<(i32, u32)>>());
}

#[test]
fn test_yearly_date_range() {
    let kps = yearly_key_points((1000, 8, 5), (2999, 1), 23);
    assert!(kps.len() <= 23);
    assert!(kps.iter().all(|&(_, m)| m == 9));
    assert_eq!(kps, (0..20).map(|k| (1000 + 100 * k, 9)).collect::<Vec<(i32, u32)>>());

    let kps = yearly_key_points((2019, 8, 5), (2020, 1), 23);
    assert!(kps.len() == 1);
}

#[test]
fn test_monthly_date_range() {
    let kps = monthly_key_points((2019, 8, 5), (2020, 9), 15);
    assert!(kps.len() <= 15);
    assert!(kps.iter().any(|&(_, m)| m != 9));

    let kps = monthly_key_points((2019, 8, 5), (2020, 9), 5);
    assert!(kps.len() <= 5);
    let months: Vec<u32> = kps.into_iter().map(|(_, m)| m).collect();
    assert_eq!(months, vec![9, 12, 3, 6, 9]);

    let kps = monthly_key_points((2019, 8, 5), (2020, 9), 3);
    assert!(kps.len() == 3);
    let months: Vec<u32> = kps.into_iter().map(|(_, m)| m).collect();
    assert_eq!(months, vec![9, 3, 9]);
}

#[test]
fn key_point_count_never_exceeds_the_request() {
    for max in 1..40usize {
        for months in 0..300i32 {
            let end = (2000 + months / 12, (months % 12) as u32 + 1);
            let kps = monthly_key_points((2000, 1, 1), end, max);
            assert!(kps.len() <= max);
            let kps = yearly_key_points((2000, 1, 1), end, max);
            assert!(kps.len() <= max);
        }
    }
    assert_eq!(monthly_key_points((2019, 8, 5), (2020, 9), 12).len(), 5);
    assert_eq!(monthly_key_points((2019, 8, 5), (2020, 9), 13).len(), 13);
    assert_eq!(monthly_key_points((2019, 8, 1), (2019, 8), 0), vec![(2019, 8)]);
}

#[test]
fn date_offsets_days_weeks_and_steps() {
    assert_eq!(date_key_point_offsets(5, 0, 10), vec![0, 1, 2, 3, 4, 5]);
    assert_eq!(date_key_point_offsets(30, 4, 10), vec![0, 7, 14, 21, 28]);
    assert_eq!(
        date_key_point_offsets(200, 28, 10),
        (0..=9).map(|i| 21 * i).collect::<Vec<i64>>()
    );
}

#[test]
fn first_key_times() {
    assert_eq!(first_key_time_ns(3_600_000_000_001, 1_800_000_000_000), 5_400_000_000_000);
    assert_eq!(first_key_time_ns(3_600_000_000_000, 1_800_000_000_000), 3_600_000_000_000);
    assert_eq!(first_key_time_ns(0, 7), 0);
}

#[test]
fn duration_first_keys() {
    assert_eq!(duration_first_key_ns(1500, 1000), 2000);
    assert_eq!(duration_first_key_ns(-1500, 1000), -1000);
    assert_eq!(duration_first_key_ns(3000, 1000), 3000);
}

#[test]
fn duration_day_steps() {
    assert_eq!(duration_days_per_tick(100, 10), 10);
    assert_eq!(duration_days_per_tick(5, 10), 1);
    assert_eq!(duration_days_per_tick(30, 10), 5);
}

#[test]
fn stepped_key_values() {
    assert_eq!(stepped_values(2, 11, 3), vec![2, 5, 8]);
    assert_eq!(stepped_values(2, 12, 3), vec![2, 5, 8, 11]);
    assert_eq!(stepped_values(5, 5, 1), Vec::<i64>::new());
    assert_eq!(stepped_values(-7, -1, 2), vec![-7, -5, -3]);
    assert_eq!(stepped_values(i64::MAX - 5, i64::MAX, 4), vec![i64::MAX - 5, i64::MAX - 1]);
}

/// The gaps between consecutive key points.
fn gaps(points: &[i64]) -> Vec<i64> {
    points.windows(2).map(|w| w[1] - w[0]).collect()
}

/// The key points of a span of `total_ns` nanoseconds from a start at a whole
/// period, as offsets from the start.
fn time_offsets(total_ns: u64, max_points: usize, sub_daily: bool) -> Vec<i64> {
    let period = compute_period_per_point(total_ns, max_points, sub_daily).unwrap();
    stepped_values(0, total_ns as i64, period as i64)
}

#[test]
fn test_date_range_long() {
    // 1000-01-01 to 2999-01-01.
    let days = 730120;
    let kps = date_key_point_offsets(days, days / 7, 23);
    assert!(kps.len() <= 23);
    let g = gaps(&kps);
    let max = *g.iter().max().unwrap();
    let min = *g.iter().min().unwrap();
    assert_eq!(max, min);
    assert_eq!(max % 7, 0);
}

#[test]
fn test_date_range_short() {
    // 2019-01-01 to 2019-01-21.
    let kps = date_key_point_offsets(20, 2, 4);
    assert_eq!(kps.len(), 3);
    let g = gaps(&kps);
    assert_eq!(*g.iter().max().unwrap(), *g.iter().min().unwrap());
    assert_eq!(*g.iter().max().unwrap(), 7);

    let kps = date_key_point_offsets(20, 2, 30);
    assert_eq!(kps.len(), 21);
    let g = gaps(&kps);
    assert_eq!(*g.iter().max().unwrap(), *g.iter().min().unwrap());
    assert_eq!(*g.iter().max().unwrap(), 1);
}

#[test]
fn test_datetime_long_range() {
    // 1000-01-01 to 3000-01-01 is beyond the nanoseconds of an `i64`, so the
    // key points are those of the dates.
    let days = 730485;
    let kps = date_key_point_offsets(days, days / 7, 23);
    assert!(kps.len() <= 23);
    let g = gaps(&kps);
    let max = *g.iter().max().unwrap();
    assert_eq!(max, *g.iter().min().unwrap());
    assert_eq!((max * 24 * 3600) % (24 * 3600 * 7), 0);
}

#[test]
fn test_datetime_medium_range() {
    let kps = time_offsets(10 * 86_400_000_000_000, 23, true);
    assert!(kps.len() <= 23);
    let g = gaps(&kps);
    assert_eq!(*g.iter().max().unwrap(), *g.iter().min().unwrap());
    assert_eq!(*g.iter().max().unwrap(), 12 * 3600 * 1_000_000_000);
}

#[test]
fn test_datetime_short_range() {
    let kps = time_offsets(86_400_000_000_000, 50, true);
    assert!(kps.len() <= 50);
    let g = gaps(&kps);
    assert_eq!(*g.iter().max().unwrap(), *g.iter().min().unwrap());
    assert_eq!(*g.iter().max().unwrap(), 1800 * 1_000_000_000);
}

#[test]
fn test_datetime_nano_range() {
    let kps = time_offsets(100, 50, true);
    assert!(kps.len() <= 50);
    let g = gaps(&kps);
    assert_eq!(*g.iter().max().unwrap(), *g.iter().min().unwrap());
    assert_eq!(*g.iter().max().unwrap(), 2);
}

#[test]
fn test_duration_long_range() {
    // Two million days are beyond the nanoseconds of an `i64`, so the key
    // points are whole days.
    let step = duration_days_per_tick(2_000_000, 23);
    let kps = stepped_values(-1_000_000, 1_000_000, i64::from(step));
    assert!(kps.len() <= 23);
    let g = gaps(&kps);
    let max = *g.iter().max().unwrap();
    assert_eq!(max, *g.iter().min().unwrap());
    assert_eq!((max * 24 * 3600) % (24 * 3600 * 10000), 0);
}

#[test]
fn test_duration_daily_range() {
    let kps = time_offsets(25 * 3_600_000_000_000, 23, false);
    assert!(kps.len() <= 23);
    let g = gaps(&kps);
    assert_eq!(*g.iter().max().unwrap(), *g.iter().min().unwrap());
    assert_eq!(*g.iter().max().unwrap(), 3600 * 2 * 1_000_000_000);
}

#[test]
fn requirement_checks() {
    assert!(period_per_point_fits(100_000_000_000, 10, false));
    assert!(period_per_point_fits(0, 0, true));
    assert!(!period_per_point_fits(5, 0, false));
    assert!(period_per_point_fits(u64::MAX, 1, true));
    assert!(monthly_key_points_fit((2019, 8, 5), (2020, 9), 5));
    assert!(!monthly_key_points_fit((2019, 13, 5), (2020, 9), 5));
    assert!(!monthly_key_points_fit((2019, 8, 5), (2020, 0), 5));
    assert!(!monthly_key_points_fit((i32::MIN, 1, 1), (i32::MAX - 1, 1), 5));
    assert!(yearly_key_points_fit((1000, 8, 5), (2999, 1), 23));
    assert!(!yearly_key_points_fit((1000, 8, 0), (2999, 1), 23));
    assert!(key_years_fit(10, 2000, 1, 2100, 1));
    assert!(!key_years_fit(1, i32::MIN, 1, i32::MAX, 1));
}

#[test]
fn duration_whole_day_key_points() {
    assert!(duration_day_key_points_fit(2, false, 10, true, 100));
    assert_eq!(duration_day_key_points(2, false, 10, true, 100), (3..=10).collect::<Vec<i64>>());
    assert_eq!(duration_day_key_points(2, true, 10, false, 100), (2..10).collect::<Vec<i64>>());
    let kps = duration_day_key_points(-1_000_000, true, 1_000_000, false, 23);
    assert!(kps.len() <= 23);
    assert_eq!(kps[0], -1_000_000);
    assert!(!duration_day_key_points_fit(i64::MIN, true, i64::MAX, false, 10));
    assert!(!duration_day_key_points_fit(0, true, i64::MAX, true, 10));
}

#[test]
fn monthly_key_points_lie_in_order_within_the_span() {
    for max in 1..30usize {
        for months in 0..200i32 {
            let end = (2001 + months / 12, (months % 12) as u32 + 1);
            let kps = monthly_key_points((2001, 3, 15), end, max);
            let idx: Vec<i32> = kps.iter().map(|&(y, m)| y * 12 + m as i32 - 1).collect();
            for w in idx.windows(2) {
                assert!(w[0] < w[1]);
            }
            for &i in &idx {
                assert!(2001 * 12 + 3 <= i && i <= end.0 * 12 + end.1 as i32 - 1);
            }
        }
    }
}

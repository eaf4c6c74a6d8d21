use herron_island::curve::{coordinates_from_prediction, interpolate, select_window};
use herron_island::tides::{Tide, TidePoint};
use herron_island::timestamp::Timestamp;

fn ts(year: u32, month: u32, day: u32, hour: u32, minute: u32) -> Timestamp {
    Timestamp {
        year,
        month,
        day,
        hour,
        minute,
    }
}

fn point(t: Timestamp, level: i64, tide: Tide) -> TidePoint {
    TidePoint::new(t, level, tide)
}

const EASE: [i64; 25] = [
    0, 39, 157, 351, 618, 955, 1355, 1813, 2321, 2871, 3455, 4063, 4686, 5314, 5937, 6545, 7129,
    7679, 8187, 8645, 9045, 9382, 9649, 9843, 9961,
];

#[test]
fn segment_follows_the_ease_table() {
    // A segment of width 25 and rise 10000 samples the ease shape
    // itself: x advances one minute per sub-step, y is the table value.
    let xys = vec![(0i64, 0i64), (25i64, 10000i64)];
    let samples = interpolate(&xys);
    assert_eq!(samples.len(), 25);
    for (k, &(x, y)) in samples.iter().enumerate() {
        assert_eq!(x, k as i64);
        assert_eq!(y, EASE[k]);
    }
}

#[test]
fn segment_starts_at_origin_and_never_reaches_target() {
    let xys = vec![(100i64, -3000i64), (250i64, 7000i64)];
    let samples = interpolate(&xys);
    assert_eq!(samples.len(), 25);
    assert_eq!(samples[0], (100, -3000));
    let mut prev_x = i64::MIN;
    for &(x, y) in &samples {
        assert!((100..250).contains(&x));
        assert!((-3000..=7000).contains(&y));
        assert!(x >= prev_x);
        prev_x = x;
    }
}

#[test]
fn falling_segment_descends() {
    let xys = vec![(0i64, 10000i64), (25i64, 0i64)];
    let samples = interpolate(&xys);
    assert_eq!(samples[0], (0, 10000));
    for (k, &(x, y)) in samples.iter().enumerate() {
        assert_eq!(x, k as i64);
        assert_eq!(y, 10000 - EASE[k]);
    }
}

#[test]
fn degenerate_segment_is_skipped() {
    // Two points at the identical x: no interior samples, no division
    // by the zero width, just the origin sample.
    let xys = vec![(100i64, 5i64), (100i64, 9i64)];
    let samples = interpolate(&xys);
    assert_eq!(samples, vec![(100, 5)]);

    // A degenerate pair inside a longer list: the flat segment
    // contributes only its origin.
    let xys = vec![(0i64, 0i64), (50i64, 1000i64), (50i64, 2000i64)];
    let samples = interpolate(&xys);
    assert_eq!(samples.len(), 26);
    assert_eq!(samples[25], (50, 1000));
}

#[test]
fn narrow_segment_skips_duplicate_offsets() {
    // A 2-minute-wide segment has only one distinct interior offset:
    // the twenty-fifth steps floor to 0 until step 13 reaches minute 1.
    let xys = vec![(0i64, 0i64), (2i64, 10000i64)];
    let samples = interpolate(&xys);
    assert_eq!(samples, vec![(0, 0), (1, EASE[13])]);

    // Sample x-coordinates strictly increase even on narrow segments.
    let xys = vec![(0i64, 0i64), (7i64, 500i64), (9i64, -200i64)];
    let samples = interpolate(&xys);
    for w in samples.windows(2) {
        assert!(w[0].0 < w[1].0, "{:?}", samples);
    }
}

#[test]
fn too_few_points_yield_no_curve() {
    assert_eq!(interpolate(&vec![]), vec![]);
    assert_eq!(interpolate(&vec![(3i64, 4i64)]), vec![]);
}

#[test]
fn curve_concatenates_segments() {
    let xys = vec![(0i64, 0i64), (100i64, 1000i64), (300i64, -500i64)];
    let samples = interpolate(&xys);
    // Two segments of 25 samples each; the final point is never emitted.
    assert_eq!(samples.len(), 50);
    assert_eq!(samples[0], (0, 0));
    assert_eq!(samples[25], (100, 1000));
    assert!(samples.iter().all(|&(x, _)| x < 300));
}

#[test]
fn window_reflects_boundary_points() {
    let today = ts(2022, 1, 11, 0, 0);
    // One point just before the reference day, one just after it.
    let before = point(ts(2022, 1, 10, 23, 30), 100, Tide::High);
    let after = point(ts(2022, 1, 12, 1, 15), 200, Tide::Low);
    let coords = select_window(&vec![before, after], &today);
    // x-coordinates are exactly one day shifted from each point's own
    // minute of the day; levels are carried unchanged.
    assert_eq!(coords, vec![(23 * 60 + 30 - 1440, 100), (75 + 1440, 200)]);
}

#[test]
fn window_keeps_the_reference_day_unshifted() {
    let today = ts(2022, 1, 11, 0, 0);
    let morning = point(ts(2022, 1, 11, 5, 5), 5086, Tide::Low);
    let coords = select_window(&vec![morning], &today);
    assert_eq!(coords, vec![(5 * 60 + 5, 5086)]);
}

#[test]
fn window_drops_far_points() {
    let today = ts(2022, 1, 11, 0, 0);
    let too_early = point(ts(2022, 1, 10, 11, 59), 1, Tide::High);
    let first_in = point(ts(2022, 1, 10, 12, 0), 2, Tide::Low);
    let last_in = point(ts(2022, 1, 12, 11, 59), 3, Tide::High);
    let too_late = point(ts(2022, 1, 12, 12, 0), 4, Tide::Low);
    let coords = select_window(&vec![too_early, first_in, last_in, too_late], &today);
    // The window is [midnight - 12h, midnight + 36h): closed on the
    // left, open on the right.
    assert_eq!(coords.len(), 2);
    assert_eq!(coords[0], (12 * 60 - 1440, 2));
    assert_eq!(coords[1], (11 * 60 + 59 + 1440, 3));
}

#[test]
fn pipeline_draws_across_midnight() {
    let today = ts(2022, 1, 11, 0, 0);
    let tv = vec![
        point(ts(2022, 1, 10, 19, 3), 2498, Tide::Low),
        point(ts(2022, 1, 11, 1, 42), 10228, Tide::High),
        point(ts(2022, 1, 11, 6, 15), 6854, Tide::Low),
    ];
    let samples = coordinates_from_prediction(&tv, &today);
    // Two segments, 25 samples each.
    assert_eq!(samples.len(), 50);
    // The first sample is yesterday evening's point, reflected a day
    // to the left of the chart.
    assert_eq!(samples[0], (19 * 60 + 3 - 1440, 2498));
    // The second segment starts at the 01:42 high.
    assert_eq!(samples[25], (1 * 60 + 42, 10228));
    // The curve never reaches the 06:15 target point.
    assert!(samples.iter().all(|&(x, _)| x < 6 * 60 + 15));
}

#[test]
fn pipeline_with_insufficient_data_is_empty() {
    let today = ts(2022, 1, 11, 0, 0);
    assert_eq!(coordinates_from_prediction(&vec![], &today), vec![]);
    let lone = point(ts(2022, 1, 11, 5, 5), 5086, Tide::Low);
    assert_eq!(coordinates_from_prediction(&vec![lone], &today), vec![]);
    // Points outside the window leave nothing to draw either.
    let far = point(ts(2023, 6, 1, 0, 0), 5086, Tide::Low);
    let far2 = point(ts(2023, 6, 2, 0, 0), 5086, Tide::High);
    assert_eq!(coordinates_from_prediction(&vec![far, far2], &today), vec![]);
}

#[test]
fn to_xy_gives_minute_of_day_and_level() {
    let p = point(ts(2022, 1, 10, 5, 5), 5086, Tide::Low);
    assert_eq!(p.to_xy(), (5 * 60 + 5, 5086));
    let q = point(ts(2022, 1, 10, 0, 0), -58, Tide::High);
    assert_eq!(q.to_xy(), (0, -58));
}

#[test]
fn day_markers_are_the_days_points() {
    let today = ts(2022, 1, 11, 0, 0);
    let yesterday_evening = point(ts(2022, 1, 10, 19, 3), 2498, Tide::Low);
    let at_midnight = point(ts(2022, 1, 11, 0, 0), 1, Tide::Low);
    let morning = point(ts(2022, 1, 11, 1, 42), 10228, Tide::High);
    let evening = point(ts(2022, 1, 11, 19, 51), 1503, Tide::Low);
    let tomorrow = point(ts(2022, 1, 12, 3, 19), 11508, Tide::High);
    let markers = herron_island::curve::points_of_day(
        &vec![yesterday_evening, at_midnight, morning, evening, tomorrow],
        &today,
    );
    // Strictly inside the day: the midnight point itself is excluded.
    assert_eq!(markers, vec![morning, evening]);
}

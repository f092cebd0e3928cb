use bezier_editor::curve::{evaluate, sample, CurveSample};
use bezier_editor::geometry::Point;

fn default_points() -> [Point; 4] {
    [Point::new(0, 0), Point::new(75, -150), Point::new(225, -150), Point::new(300, -300)]
}

fn as_real(s: &CurveSample) -> (f64, f64) {
    let d = s.scale() as f64;
    (s.x as f64 / d, s.y as f64 / d)
}

fn distance(a: (f64, f64), p: Point) -> f64 {
    let dx = a.0 - p.x as f64;
    let dy = a.1 - p.y as f64;
    (dx * dx + dy * dy).sqrt()
}

#[test]
fn sample_count_follows_resolution() {
    let p = default_points();
    assert_eq!(sample(p[0], p[1], p[2], p[3], 0).len(), 0);
    assert_eq!(sample(p[0], p[1], p[2], p[3], 1).len(), 0);
    assert_eq!(sample(p[0], p[1], p[2], p[3], 2).len(), 1);
    assert_eq!(sample(p[0], p[1], p[2], p[3], 3).len(), 2);
    assert_eq!(sample(p[0], p[1], p[2], p[3], 50).len(), 49);
    assert_eq!(sample(p[0], p[1], p[2], p[3], 1000).len(), 999);
}

#[test]
fn samples_carry_their_steps_in_order() {
    let p = default_points();
    let samples = sample(p[0], p[1], p[2], p[3], 50);
    for (n, s) in samples.iter().enumerate() {
        assert_eq!(s.step as usize, n + 1);
        assert_eq!(s.resolution, 50);
        assert!(0 < s.step && s.step < s.resolution);
        assert_eq!(s.scale(), 125_000);
    }
}

#[test]
fn first_sample_has_the_exact_value() {
    let p = default_points();
    let samples = sample(p[0], p[1], p[2], p[3], 50);
    // weights at step 1 of 50: 49^3, 3*49^2, 3*49, 1
    assert_eq!(
        samples[0],
        CurveSample { step: 1, resolution: 50, x: 573_600, y: -1_102_800 }
    );
    let (x, y) = as_real(&samples[0]);
    assert!((x - 4.5888).abs() < 1e-9);
    assert!((y + 8.8224).abs() < 1e-9);
}

#[test]
fn last_sample_has_the_exact_value() {
    let p = default_points();
    let samples = sample(p[0], p[1], p[2], p[3], 50);
    // weights at step 49 of 50: 1, 3*49, 3*49^2, 49^3
    let x: i128 = 75 * 147 + 225 * 7203 + 300 * 117_649;
    let y: i128 = -150 * 147 - 150 * 7203 - 300 * 117_649;
    assert_eq!(samples[48], CurveSample { step: 49, resolution: 50, x, y });
}

#[test]
fn samples_never_hit_the_end_points() {
    let p = default_points();
    for resolution in [2u32, 3, 7, 50, 200] {
        for s in sample(p[0], p[1], p[2], p[3], resolution) {
            assert!(!s.is_at(p[0]));
            assert!(!s.is_at(p[3]));
        }
    }
}

#[test]
fn degenerate_curve_stays_on_its_point() {
    let p = Point::new(7, -3);
    let samples = sample(p, p, p, p, 10);
    assert_eq!(samples.len(), 9);
    for s in samples {
        assert!(s.is_at(p));
    }
}

#[test]
fn curve_starts_and_ends_on_the_outer_control_points() {
    let p = default_points();
    let start = evaluate(p[0], p[1], p[2], p[3], 0, 50);
    let end = evaluate(p[0], p[1], p[2], p[3], 50, 50);
    assert!(start.is_at(p[0]));
    assert!(end.is_at(p[3]));
    assert!(!start.is_at(p[3]));
    assert_eq!(end.x, 300 * 125_000);
    assert_eq!(end.y, -300 * 125_000);
}

#[test]
fn outermost_samples_approach_the_end_points() {
    let p = default_points();
    let mut previous_first = f64::MAX;
    let mut previous_last = f64::MAX;
    for resolution in [10u32, 100, 1000, 10_000] {
        let samples = sample(p[0], p[1], p[2], p[3], resolution);
        let first = distance(as_real(&samples[0]), p[0]);
        let last = distance(as_real(&samples[samples.len() - 1]), p[3]);
        // every other control point is within 300 of either end, per coordinate
        let bound = 3.0 * 300.0 * 2f64.sqrt() / resolution as f64;
        assert!(first <= bound);
        assert!(last <= bound);
        assert!(first < previous_first);
        assert!(last < previous_last);
        previous_first = first;
        previous_last = last;
    }
    assert!(previous_first < 0.1);
    assert!(previous_last < 0.1);
}

#[test]
fn midpoint_of_the_arch() {
    let samples = sample(
        Point::new(0, 0),
        Point::new(0, 10),
        Point::new(10, 10),
        Point::new(10, 0),
        2,
    );
    assert_eq!(samples.len(), 1);
    assert_eq!(samples[0], CurveSample { step: 1, resolution: 2, x: 40, y: 60 });
    let (x, y) = as_real(&samples[0]);
    assert_eq!(x, 5.0);
    // (0 + 3*10 + 3*10 + 0) / 8
    assert_eq!(y, 7.5);
}

#[test]
fn midpoint_is_the_same_at_every_even_resolution() {
    for resolution in [2u32, 4, 50, 1000] {
        let s = evaluate(
            Point::new(0, 0),
            Point::new(0, 10),
            Point::new(10, 10),
            Point::new(10, 0),
            resolution / 2,
            resolution,
        );
        assert_eq!(2 * s.x, 10 * s.scale());
        assert_eq!(2 * s.y, 15 * s.scale());
    }
}

#[test]
fn reversed_control_points_give_the_reversed_curve() {
    let p = default_points();
    let forward = sample(p[0], p[1], p[2], p[3], 50);
    let backward = sample(p[3], p[2], p[1], p[0], 50);
    for n in 0..forward.len() {
        let mirror = &backward[forward.len() - 1 - n];
        assert_eq!(forward[n].x, mirror.x);
        assert_eq!(forward[n].y, mirror.y);
        assert_eq!(forward[n].step + mirror.step, 50);
    }
}

#[test]
fn samples_stay_inside_the_control_box() {
    let p = default_points();
    for s in sample(p[0], p[1], p[2], p[3], 50) {
        let d = s.scale();
        assert!(0 <= s.x && s.x <= 300 * d);
        assert!(-300 * d <= s.y && s.y <= 0);
    }
}

#[test]
fn widest_inputs_do_not_overflow() {
    let low = Point::new(i32::MIN, i32::MIN);
    let high = Point::new(i32::MAX, i32::MAX);
    let r = u32::MAX;
    let cube: i128 = (r as i128) * (r as i128) * (r as i128);
    let s = evaluate(low, low, low, low, r / 2, r);
    assert_eq!(s.scale(), cube);
    assert_eq!(s.scale(), 79_228_162_458_924_105_385_300_197_375);
    assert_eq!(s.x, i32::MIN as i128 * cube);
    assert_eq!(s.y, i32::MIN as i128 * cube);
    assert!(s.is_at(low));
    let t = evaluate(high, high, high, high, r - 1, r);
    assert_eq!(t.x, i32::MAX as i128 * cube);
    assert!(t.is_at(high));
    assert!(!t.is_at(low));
    let u = evaluate(low, high, low, high, 1, r);
    assert!(i32::MIN as i128 * cube <= u.x && u.x <= i32::MAX as i128 * cube);
}

#[test]
fn first_sample_is_nearer_the_start_than_the_end() {
    let p = default_points();
    let samples = sample(p[0], p[1], p[2], p[3], 50);
    assert_eq!(samples.len(), 49);
    let first = as_real(&samples[0]);
    assert!(distance(first, p[0]) < distance(first, p[3]));
}

#[test]
fn fine_resolution_meets_a_tolerance_of_a_tenth() {
    let p = default_points();
    // no control point is further than 300 from either end, per coordinate
    let resolution = 3 * 300 * 10;
    let samples = sample(p[0], p[1], p[2], p[3], resolution);
    let first = &samples[0];
    let last = &samples[samples.len() - 1];
    let d = first.scale();
    assert!((10 * (first.x - p[0].x as i128 * d)).abs() <= d);
    assert!((10 * (first.y - p[0].y as i128 * d)).abs() <= d);
    assert!((10 * (last.x - p[3].x as i128 * d)).abs() <= d);
    assert!((10 * (last.y - p[3].y as i128 * d)).abs() <= d);
}

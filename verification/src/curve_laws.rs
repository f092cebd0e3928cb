//! Laws of the sampled curve: where it starts and ends, how it mirrors, how
//! close its outermost samples come to the end points, and when a sample can
//! be told apart from them.

use vstd::prelude::*;
use crate::geometry::Point;
use crate::curve::{
    bezier_scaled,
    cube,
    lemma_weighted_sum_bounds,
    lemma_weights,
    lemma_weights_sum,
    weight0,
    weight1,
    weight2,
    is_sampling,
    weight3,
    CurveSample,
};

verus! {

/// At parameter 0 the curve is at its first control value, at parameter 1 at
/// its last.
pub proof fn lemma_curve_ends(c0: int, c1: int, c2: int, c3: int, resolution: int)
    ensures
        bezier_scaled(c0, c1, c2, c3, 0, resolution) == c0 * cube(resolution),
        bezier_scaled(c0, c1, c2, c3, resolution, resolution) == c3 * cube(resolution),
{
    let r = resolution;
    assert(c1 * (3 * r * r * 0) == 0 && c2 * (3 * r * 0 * 0) == 0 && c3 * (0 * 0 * 0) == 0)
        by (nonlinear_arith);
    assert(c0 * (0 * 0 * 0) == 0 && c1 * (3 * 0 * 0 * r) == 0 && c2 * (3 * 0 * r * r) == 0)
        by (nonlinear_arith);
}

/// Walking the control points backwards walks the curve backwards: the point
/// at `step` of the reversed curve is the point at `resolution − step` of the
/// curve itself.
pub proof fn lemma_reversal(c0: int, c1: int, c2: int, c3: int, step: int, resolution: int)
    ensures
        bezier_scaled(c3, c2, c1, c0, resolution - step, resolution) == bezier_scaled(
            c0,
            c1,
            c2,
            c3,
            step,
            resolution,
        ),
{
    let i = step;
    let k = resolution - step;
    assert(resolution - k == i);
    assert(3 * i * i * k == 3 * k * i * i && 3 * i * k * k == 3 * k * k * i) by (nonlinear_arith);
}

/// Half way along, the curve is at `(c0 + 3·c1 + 3·c2 + c3) / 8`. For control
/// values that mirror each other, `c0 + c3 == c1 + c2`, that is the mean of
/// the two ends.
pub proof fn lemma_midpoint(c0: int, c1: int, c2: int, c3: int, half: int)
    ensures
        8 * bezier_scaled(c0, c1, c2, c3, half, 2 * half) == (c0 + 3 * c1 + 3 * c2 + c3) * cube(
            2 * half,
        ),
        c0 + c3 == c1 + c2 ==> 2 * bezier_scaled(c0, c1, c2, c3, half, 2 * half) == (c0 + c3)
            * cube(2 * half),
{
    let h = half;
    let h3 = h * h * h;
    assert(2 * h - h == h);
    assert(3 * h * h * h == 3 * h3) by (nonlinear_arith)
        requires
            h3 == h * h * h,
    ;
    assert(cube(2 * h) == 8 * h3) by (nonlinear_arith)
        requires
            h3 == h * h * h,
    ;
    assert(c1 * (3 * h3) == 3 * (c1 * h3) && c2 * (3 * h3) == 3 * (c2 * h3)) by (nonlinear_arith);
    assert((c0 + 3 * c1 + 3 * c2 + c3) * (8 * h3) == 8 * (c0 * h3 + 3 * (c1 * h3) + 3 * (c2 * h3)
        + c3 * h3)) by (nonlinear_arith);
    if c0 + c3 == c1 + c2 {
        assert((c0 + c3) * (8 * h3) == 2 * (c0 * h3 + 3 * (c1 * h3) + 3 * (c2 * h3) + c3 * h3))
            by (nonlinear_arith)
            requires
                c0 + c3 == c1 + c2,
        ;
    }
}

/// How far the curve is from its first control value, written over the
/// differences of the other control values from it.
pub proof fn lemma_offset_from_start(c0: int, c1: int, c2: int, c3: int, step: int, resolution: int)
    ensures
        bezier_scaled(c0, c1, c2, c3, step, resolution) - c0 * cube(resolution) == (c1 - c0)
            * weight1(step, resolution) + (c2 - c0) * weight2(step, resolution) + (c3 - c0)
            * weight3(step, resolution),
{
    lemma_weights_sum(step, resolution);
    let w0 = weight0(step, resolution);
    let w1 = weight1(step, resolution);
    let w2 = weight2(step, resolution);
    let w3 = weight3(step, resolution);
    assert(c0 * (w0 + w1 + w2 + w3) == c0 * w0 + c0 * w1 + c0 * w2 + c0 * w3) by (nonlinear_arith);
    assert((c1 - c0) * w1 == c1 * w1 - c0 * w1 && (c2 - c0) * w2 == c2 * w2 - c0 * w2 && (c3 - c0)
        * w3 == c3 * w3 - c0 * w3) by (nonlinear_arith);
}

/// The curve leaves its first control value by no more than the other
/// control values do, and by the less the closer the parameter is to 0: the
/// bound carries the factor `1 − (1−t)³`.
pub proof fn lemma_near_start(
    c0: int,
    c1: int,
    c2: int,
    c3: int,
    step: int,
    resolution: int,
    d: int,
)
    requires
        0 <= step <= resolution,
        -d <= c1 - c0 <= d,
        -d <= c2 - c0 <= d,
        -d <= c3 - c0 <= d,
    ensures
        -d * (cube(resolution) - cube(resolution - step)) <= bezier_scaled(
            c0,
            c1,
            c2,
            c3,
            step,
            resolution,
        ) - c0 * cube(resolution) <= d * (cube(resolution) - cube(resolution - step)),
{
    lemma_weights(step, resolution);
    lemma_offset_from_start(c0, c1, c2, c3, step, resolution);
    let w1 = weight1(step, resolution);
    let w2 = weight2(step, resolution);
    let w3 = weight3(step, resolution);
    lemma_weighted_sum_bounds(0, c1 - c0, c2 - c0, c3 - c0, 0, w1, w2, w3, -d, d);
    assert(0 * 0 == 0);
    assert(0 + w1 + w2 + w3 == cube(resolution) - cube(resolution - step));
    assert((-d) * (cube(resolution) - cube(resolution - step)) == -d * (cube(resolution) - cube(
        resolution - step,
    ))) by (nonlinear_arith);
}

/// Whether `p` and `q` differ by at most `d` in each coordinate.
pub open spec fn within(p: Point, q: Point, d: int) -> bool {
    &&& -d <= p.x - q.x <= d
    &&& -d <= p.y - q.y <= d
}

/// The first sample approaches the start of the curve as the resolution
/// grows: it is within `3·d / resolution` of the first control point in each
/// coordinate, where `d` bounds how far the other control points are from
/// that point.
pub proof fn lemma_first_sample_near_start(
    s: CurveSample,
    p0: Point,
    p1: Point,
    p2: Point,
    p3: Point,
    resolution: int,
    d: int,
)
    requires
        1 <= resolution,
        s.is_curve_point(p0, p1, p2, p3, 1, resolution),
        within(p1, p0, d),
        within(p2, p0, d),
        within(p3, p0, d),
    ensures
        -3 * d * resolution * resolution <= s.x - p0.x * s.spec_scale() <= 3 * d * resolution
            * resolution,
        -3 * d * resolution * resolution <= s.y - p0.y * s.spec_scale() <= 3 * d * resolution
            * resolution,
{
    let r = resolution;
    lemma_near_start(p0.x as int, p1.x as int, p2.x as int, p3.x as int, 1, r, d);
    lemma_near_start(p0.y as int, p1.y as int, p2.y as int, p3.y as int, 1, r, d);
    let gap = cube(r) - cube(r - 1);
    assert(gap == 3 * r * r - 3 * r + 1) by (nonlinear_arith)
        requires
            gap == r * r * r - (r - 1) * (r - 1) * (r - 1),
    ;
    assert(0 <= d * gap <= 3 * d * r * r && -3 * d * r * r <= -d * gap) by (nonlinear_arith)
        requires
            0 <= d,
            1 <= r,
            gap == 3 * r * r - 3 * r + 1,
    ;
}

/// The last sample approaches the end of the curve in the same way: it is
/// within `3·d / resolution` of the last control point in each coordinate,
/// where `d` bounds how far the other control points are from that point.
pub proof fn lemma_last_sample_near_end(
    s: CurveSample,
    p0: Point,
    p1: Point,
    p2: Point,
    p3: Point,
    resolution: int,
    d: int,
)
    requires
        1 <= resolution,
        s.is_curve_point(p0, p1, p2, p3, resolution - 1, resolution),
        within(p0, p3, d),
        within(p1, p3, d),
        within(p2, p3, d),
    ensures
        -3 * d * resolution * resolution <= s.x - p3.x * s.spec_scale() <= 3 * d * resolution
            * resolution,
        -3 * d * resolution * resolution <= s.y - p3.y * s.spec_scale() <= 3 * d * resolution
            * resolution,
{
    let r = resolution;
    lemma_reversal(p0.x as int, p1.x as int, p2.x as int, p3.x as int, r - 1, r);
    lemma_reversal(p0.y as int, p1.y as int, p2.y as int, p3.y as int, r - 1, r);
    let mirrored = CurveSample { step: 1, resolution: s.resolution, x: s.x, y: s.y };
    assert(r - (r - 1) == 1);
    lemma_first_sample_near_start(mirrored, p3, p2, p1, p0, r, d);
}

/// The limit at the start of the curve: for every tolerance `1 / n` there is
/// a resolution, `3·d·n`, from which on the first sample is within that
/// tolerance of the first control point in each coordinate.
pub proof fn lemma_first_sample_converges(
    s: CurveSample,
    p0: Point,
    p1: Point,
    p2: Point,
    p3: Point,
    resolution: int,
    d: int,
    n: int,
)
    requires
        1 <= n,
        1 <= resolution,
        3 * d * n <= resolution,
        s.is_curve_point(p0, p1, p2, p3, 1, resolution),
        within(p1, p0, d),
        within(p2, p0, d),
        within(p3, p0, d),
    ensures
        -s.spec_scale() <= n * (s.x - p0.x * s.spec_scale()) <= s.spec_scale(),
        -s.spec_scale() <= n * (s.y - p0.y * s.spec_scale()) <= s.spec_scale(),
{
    lemma_first_sample_near_start(s, p0, p1, p2, p3, resolution, d);
    let r = resolution;
    let bound = 3 * d * r * r;
    let ex = s.x - p0.x * s.spec_scale();
    let ey = s.y - p0.y * s.spec_scale();
    assert(-3 * d * r * r == -bound) by (nonlinear_arith)
        requires
            bound == 3 * d * r * r,
    ;
    assert(n * bound <= r * r * r) by (nonlinear_arith)
        requires
            bound == 3 * d * r * r,
            3 * d * n <= r,
            1 <= r,
    ;
    assert(-(n * bound) <= n * ex <= n * bound && -(n * bound) <= n * ey <= n * bound)
        by (nonlinear_arith)
        requires
            1 <= n,
            -bound <= ex <= bound,
            -bound <= ey <= bound,
    ;
}

/// The limit at the end of the curve: for every tolerance `1 / n` there is a
/// resolution, `3·d·n`, from which on the last sample is within that
/// tolerance of the last control point in each coordinate.
pub proof fn lemma_last_sample_converges(
    s: CurveSample,
    p0: Point,
    p1: Point,
    p2: Point,
    p3: Point,
    resolution: int,
    d: int,
    n: int,
)
    requires
        1 <= n,
        1 <= resolution,
        3 * d * n <= resolution,
        s.is_curve_point(p0, p1, p2, p3, resolution - 1, resolution),
        within(p0, p3, d),
        within(p1, p3, d),
        within(p2, p3, d),
    ensures
        -s.spec_scale() <= n * (s.x - p3.x * s.spec_scale()) <= s.spec_scale(),
        -s.spec_scale() <= n * (s.y - p3.y * s.spec_scale()) <= s.spec_scale(),
{
    lemma_reversal(p0.x as int, p1.x as int, p2.x as int, p3.x as int, resolution - 1, resolution);
    lemma_reversal(p0.y as int, p1.y as int, p2.y as int, p3.y as int, resolution - 1, resolution);
    let mirrored = CurveSample { step: 1, resolution: s.resolution, x: s.x, y: s.y };
    assert(resolution - (resolution - 1) == 1);
    lemma_first_sample_converges(mirrored, p3, p2, p1, p0, resolution, d, n);
}

/// Whether `b`, `c` and `d` all lie on one side of `a`, and not all on it.
pub open spec fn leaves(a: int, b: int, c: int, d: int) -> bool {
    ||| a <= b && a <= c && a <= d && (a < b || a < c || a < d)
    ||| a >= b && a >= c && a >= d && (a > b || a > c || a > d)
}

/// What carries the curve off its first control value at `step / resolution`,
/// with the common factor `t` taken out and scaled by `resolution²`:
/// `3(1−t)²·(c1−c0) + 3(1−t)t·(c2−c0) + t²·(c3−c0)`.
pub open spec fn departure(c0: int, c1: int, c2: int, c3: int, step: int, resolution: int) -> int {
    let k = resolution - step;
    3 * k * k * (c1 - c0) + 3 * k * step * (c2 - c0) + step * step * (c3 - c0)
}

/// The curve is off its first control value by `t` times the departure.
pub proof fn lemma_departure(c0: int, c1: int, c2: int, c3: int, step: int, resolution: int)
    ensures
        bezier_scaled(c0, c1, c2, c3, step, resolution) - c0 * cube(resolution) == step
            * departure(c0, c1, c2, c3, step, resolution),
{
    lemma_offset_from_start(c0, c1, c2, c3, step, resolution);
    let i = step;
    let k = resolution - step;
    let a1 = c1 - c0;
    let a2 = c2 - c0;
    let a3 = c3 - c0;
    assert(a1 * (3 * k * k * i) + a2 * (3 * k * i * i) + a3 * (i * i * i) == i * (3 * k * k * a1 + 3
        * k * i * a2 + i * i * a3)) by (nonlinear_arith);
}

/// Strictly inside the parameter interval the departure is not zero,
/// provided the other three control values lie on one side of the first and
/// not all on it.
pub proof fn lemma_leaving_departs(c0: int, c1: int, c2: int, c3: int, step: int, resolution: int)
    requires
        0 < step < resolution,
        leaves(c0, c1, c2, c3),
    ensures
        departure(c0, c1, c2, c3, step, resolution) != 0,
{
    let i = step;
    let k = resolution - step;
    let a1 = c1 - c0;
    let a2 = c2 - c0;
    let a3 = c3 - c0;
    assert(0 < 3 * k * k && 0 < 3 * k * i && 0 < i * i) by (nonlinear_arith)
        requires
            0 < i,
            0 < k,
    ;
    let u1 = 3 * k * k;
    let u2 = 3 * k * i;
    let u3 = i * i;
    if c0 <= c1 && c0 <= c2 && c0 <= c3 {
        assert(0 < u1 * a1 + u2 * a2 + u3 * a3) by (nonlinear_arith)
            requires
                0 < u1,
                0 < u2,
                0 < u3,
                0 <= a1,
                0 <= a2,
                0 <= a3,
                0 < a1 || 0 < a2 || 0 < a3,
        ;
    } else {
        assert(u1 * a1 + u2 * a2 + u3 * a3 < 0) by (nonlinear_arith)
            requires
                0 < u1,
                0 < u2,
                0 < u3,
                a1 <= 0,
                a2 <= 0,
                a3 <= 0,
                a1 < 0 || a2 < 0 || a3 < 0,
        ;
    }
}

/// Exactly when an interior sample is the first control point: when the
/// departure is zero in both coordinates.
pub proof fn lemma_sample_at_start(
    s: CurveSample,
    p0: Point,
    p1: Point,
    p2: Point,
    p3: Point,
    step: int,
    resolution: int,
)
    requires
        0 < step < resolution,
        s.is_curve_point(p0, p1, p2, p3, step, resolution),
    ensures
        s.spec_is_at(p0) <==> departure(
            p0.x as int,
            p1.x as int,
            p2.x as int,
            p3.x as int,
            step,
            resolution,
        ) == 0 && departure(p0.y as int, p1.y as int, p2.y as int, p3.y as int, step, resolution)
            == 0,
{
    lemma_departure(p0.x as int, p1.x as int, p2.x as int, p3.x as int, step, resolution);
    lemma_departure(p0.y as int, p1.y as int, p2.y as int, p3.y as int, step, resolution);
    let dx = departure(p0.x as int, p1.x as int, p2.x as int, p3.x as int, step, resolution);
    let dy = departure(p0.y as int, p1.y as int, p2.y as int, p3.y as int, step, resolution);
    assert((step * dx == 0 <==> dx == 0) && (step * dy == 0 <==> dy == 0)) by (nonlinear_arith)
        requires
            0 < step,
    ;
}

/// Exactly when an interior sample is the last control point: when the
/// departure of the reversed curve is zero in both coordinates.
pub proof fn lemma_sample_at_end(
    s: CurveSample,
    p0: Point,
    p1: Point,
    p2: Point,
    p3: Point,
    step: int,
    resolution: int,
)
    requires
        0 < step < resolution,
        s.is_curve_point(p0, p1, p2, p3, step, resolution),
    ensures
        s.spec_is_at(p3) <==> departure(
            p3.x as int,
            p2.x as int,
            p1.x as int,
            p0.x as int,
            resolution - step,
            resolution,
        ) == 0 && departure(
            p3.y as int,
            p2.y as int,
            p1.y as int,
            p0.y as int,
            resolution - step,
            resolution,
        ) == 0,
{
    lemma_reversal(p0.x as int, p1.x as int, p2.x as int, p3.x as int, step, resolution);
    lemma_reversal(p0.y as int, p1.y as int, p2.y as int, p3.y as int, step, resolution);
    let mirrored = CurveSample {
        step: (resolution - step) as u32,
        resolution: s.resolution,
        x: s.x,
        y: s.y,
    };
    lemma_sample_at_start(mirrored, p3, p2, p1, p0, resolution - step, resolution);
}

/// No interior sample is the first control point, provided that in one
/// coordinate the other three control points lie on one side of it and not
/// all on it. Without that the curve can come back to where it began: with
/// four equal control points every sample is that point.
pub proof fn lemma_sample_off_start(
    s: CurveSample,
    p0: Point,
    p1: Point,
    p2: Point,
    p3: Point,
    step: int,
    resolution: int,
)
    requires
        0 < step < resolution,
        s.is_curve_point(p0, p1, p2, p3, step, resolution),
        leaves(p0.x as int, p1.x as int, p2.x as int, p3.x as int) || leaves(
            p0.y as int,
            p1.y as int,
            p2.y as int,
            p3.y as int,
        ),
    ensures
        !s.spec_is_at(p0),
{
    lemma_sample_at_start(s, p0, p1, p2, p3, step, resolution);
    if leaves(p0.x as int, p1.x as int, p2.x as int, p3.x as int) {
        lemma_leaving_departs(p0.x as int, p1.x as int, p2.x as int, p3.x as int, step, resolution);
    } else {
        lemma_leaving_departs(p0.y as int, p1.y as int, p2.y as int, p3.y as int, step, resolution);
    }
}

/// No interior sample is the last control point, provided that in one
/// coordinate the other three control points lie on one side of it and not
/// all on it.
pub proof fn lemma_sample_off_end(
    s: CurveSample,
    p0: Point,
    p1: Point,
    p2: Point,
    p3: Point,
    step: int,
    resolution: int,
)
    requires
        0 < step < resolution,
        s.is_curve_point(p0, p1, p2, p3, step, resolution),
        leaves(p3.x as int, p2.x as int, p1.x as int, p0.x as int) || leaves(
            p3.y as int,
            p2.y as int,
            p1.y as int,
            p0.y as int,
        ),
    ensures
        !s.spec_is_at(p3),
{
    lemma_sample_at_end(s, p0, p1, p2, p3, step, resolution);
    let back = resolution - step;
    if leaves(p3.x as int, p2.x as int, p1.x as int, p0.x as int) {
        lemma_leaving_departs(p3.x as int, p2.x as int, p1.x as int, p0.x as int, back, resolution);
    } else {
        lemma_leaving_departs(p3.y as int, p2.y as int, p1.y as int, p0.y as int, back, resolution);
    }
}

/// Every sample belongs to a parameter strictly between 0 and 1, and the
/// parameters grow along the sequence.
pub proof fn lemma_samples_are_interior(
    samples: Seq<CurveSample>,
    p0: Point,
    p1: Point,
    p2: Point,
    p3: Point,
    resolution: int,
)
    requires
        is_sampling(samples, p0, p1, p2, p3, resolution),
    ensures
        forall|n: int|
            0 <= n < samples.len() ==> 0 < (#[trigger] samples[n]).step
                < samples[n].resolution,
        forall|m: int, n: int|
            0 <= m < n < samples.len() ==> (#[trigger] samples[m]).step
                < (#[trigger] samples[n]).step,
{
}

/// A sampling never holds the first or the last control point, provided
/// that, in one coordinate, the other three control points lie on one side
/// of the first and not all on it, and likewise for the last.
pub proof fn lemma_sampling_misses_ends(
    samples: Seq<CurveSample>,
    p0: Point,
    p1: Point,
    p2: Point,
    p3: Point,
    resolution: int,
)
    requires
        is_sampling(samples, p0, p1, p2, p3, resolution),
        leaves(p0.x as int, p1.x as int, p2.x as int, p3.x as int) || leaves(
            p0.y as int,
            p1.y as int,
            p2.y as int,
            p3.y as int,
        ),
        leaves(p3.x as int, p2.x as int, p1.x as int, p0.x as int) || leaves(
            p3.y as int,
            p2.y as int,
            p1.y as int,
            p0.y as int,
        ),
    ensures
        forall|n: int|
            0 <= n < samples.len() ==> !(#[trigger] samples[n]).spec_is_at(p0)
                && !samples[n].spec_is_at(p3),
{
    assert forall|n: int| 0 <= n < samples.len() implies !(#[trigger] samples[n]).spec_is_at(p0)
        && !samples[n].spec_is_at(p3) by {
        lemma_sample_off_start(samples[n], p0, p1, p2, p3, n + 1, resolution);
        lemma_sample_off_end(samples[n], p0, p1, p2, p3, n + 1, resolution);
    }
}

} // verus!

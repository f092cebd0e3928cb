//! Evaluation and sampling of a cubic Bézier curve.
//!
//! The curve with control points `p0, p1, p2, p3` is
//! `B(t) = p0·(1−t)³ + p1·3(1−t)²t + p2·3(1−t)t² + p3·t³`, for `t` from 0 to 1.
//! It is evaluated only at parameters `t = step / resolution`. Multiplying
//! through by `resolution³` turns every term into an integer, so a sample is
//! kept as the exact numerator `resolution³ · B(t)` of each coordinate,
//! together with `step` and `resolution`.

use vstd::prelude::*;
use crate::geometry::Point;

verus! {

/// The third power.
pub open spec fn cube(n: int) -> int {
    n * n * n
}

/// `resolution³ · (1−t)³` at `t = step / resolution`.
pub open spec fn weight0(step: int, resolution: int) -> int {
    let k = resolution - step;
    k * k * k
}

/// `resolution³ · 3(1−t)²t` at `t = step / resolution`.
pub open spec fn weight1(step: int, resolution: int) -> int {
    let k = resolution - step;
    3 * k * k * step
}

/// `resolution³ · 3(1−t)t²` at `t = step / resolution`.
pub open spec fn weight2(step: int, resolution: int) -> int {
    let k = resolution - step;
    3 * k * step * step
}

/// `resolution³ · t³` at `t = step / resolution`.
pub open spec fn weight3(step: int, resolution: int) -> int {
    step * step * step
}

/// `resolution³ · B(step / resolution)` for one coordinate of the curve with
/// control values `c0..c3`.
pub open spec fn bezier_scaled(c0: int, c1: int, c2: int, c3: int, step: int, resolution: int) -> int {
    c0 * weight0(step, resolution) + c1 * weight1(step, resolution) + c2 * weight2(
        step,
        resolution,
    ) + c3 * weight3(step, resolution)
}

/// The four weights add up to `resolution³`.
pub proof fn lemma_weights_sum(step: int, resolution: int)
    ensures
        weight0(step, resolution) + weight1(step, resolution) + weight2(step, resolution)
            + weight3(step, resolution) == cube(resolution),
{
    let i = step;
    let k = resolution - step;
    assert(k * k * k + 3 * k * k * i + 3 * k * i * i + i * i * i == (k + i) * (k + i) * (k + i))
        by (nonlinear_arith);
}

/// On the parameter interval the four weights are non-negative, so that
/// they are a partition of unity, scaled by `resolution³`.
pub proof fn lemma_weights(step: int, resolution: int)
    requires
        0 <= step <= resolution,
    ensures
        0 <= weight0(step, resolution),
        0 <= weight1(step, resolution),
        0 <= weight2(step, resolution),
        0 <= weight3(step, resolution),
        weight0(step, resolution) + weight1(step, resolution) + weight2(step, resolution)
            + weight3(step, resolution) == cube(resolution),
{
    let i = step;
    let k = resolution - step;
    assert(0 <= k * k * k && 0 <= 3 * k * k * i && 0 <= 3 * k * i * i && 0 <= i * i * i)
        by (nonlinear_arith)
        requires
            0 <= i,
            0 <= k,
    ;
    lemma_weights_sum(step, resolution);
}

/// A weighted sum with non-negative weights lies between the least and the
/// greatest of its values, times the sum of the weights.
pub proof fn lemma_weighted_sum_bounds(
    c0: int,
    c1: int,
    c2: int,
    c3: int,
    w0: int,
    w1: int,
    w2: int,
    w3: int,
    lo: int,
    hi: int,
)
    requires
        0 <= w0,
        0 <= w1,
        0 <= w2,
        0 <= w3,
        lo <= c0 <= hi,
        lo <= c1 <= hi,
        lo <= c2 <= hi,
        lo <= c3 <= hi,
    ensures
        lo * (w0 + w1 + w2 + w3) <= c0 * w0 + c1 * w1 + c2 * w2 + c3 * w3 <= hi * (w0 + w1 + w2
            + w3),
{
    assert(lo * w0 <= c0 * w0 <= hi * w0) by (nonlinear_arith)
        requires
            0 <= w0,
            lo <= c0 <= hi,
    ;
    assert(lo * w1 <= c1 * w1 <= hi * w1) by (nonlinear_arith)
        requires
            0 <= w1,
            lo <= c1 <= hi,
    ;
    assert(lo * w2 <= c2 * w2 <= hi * w2) by (nonlinear_arith)
        requires
            0 <= w2,
            lo <= c2 <= hi,
    ;
    assert(lo * w3 <= c3 * w3 <= hi * w3) by (nonlinear_arith)
        requires
            0 <= w3,
            lo <= c3 <= hi,
    ;
    assert(lo * (w0 + w1 + w2 + w3) == lo * w0 + lo * w1 + lo * w2 + lo * w3)
        by (nonlinear_arith);
    assert(hi * (w0 + w1 + w2 + w3) == hi * w0 + hi * w1 + hi * w2 + hi * w3)
        by (nonlinear_arith);
}

/// Convex hull property, per coordinate: a curve value never leaves the range
/// spanned by its four control values.
pub proof fn lemma_bezier_within_hull(
    c0: int,
    c1: int,
    c2: int,
    c3: int,
    step: int,
    resolution: int,
    lo: int,
    hi: int,
)
    requires
        0 <= step <= resolution,
        lo <= c0 <= hi,
        lo <= c1 <= hi,
        lo <= c2 <= hi,
        lo <= c3 <= hi,
    ensures
        lo * cube(resolution) <= bezier_scaled(c0, c1, c2, c3, step, resolution) <= hi * cube(
            resolution,
        ),
{
    lemma_weights(step, resolution);
    lemma_weighted_sum_bounds(
        c0,
        c1,
        c2,
        c3,
        weight0(step, resolution),
        weight1(step, resolution),
        weight2(step, resolution),
        weight3(step, resolution),
        lo,
        hi,
    );
}

/// One evaluated point of the curve.
///
/// The point itself is `(x / resolution³, y / resolution³)`, an exact
/// rational, and the parameter it belongs to is `step / resolution`.
#[derive(Clone, Copy, Debug, PartialEq, Eq, Structural)]
pub struct CurveSample {
    pub step: u32,
    pub resolution: u32,
    pub x: i128,
    pub y: i128,
}

impl CurveSample {
    /// The common denominator of both coordinates.
    pub open spec fn spec_scale(self) -> int {
        cube(self.resolution as int)
    }

    /// Says that this is the curve point of `p0..p3` at `step / resolution`.
    pub open spec fn is_curve_point(
        self,
        p0: Point,
        p1: Point,
        p2: Point,
        p3: Point,
        step: int,
        resolution: int,
    ) -> bool {
        &&& self.step == step
        &&& self.resolution == resolution
        &&& self.x == bezier_scaled(
            p0.x as int,
            p1.x as int,
            p2.x as int,
            p3.x as int,
            step,
            resolution,
        )
        &&& self.y == bezier_scaled(
            p0.y as int,
            p1.y as int,
            p2.y as int,
            p3.y as int,
            step,
            resolution,
        )
    }

    /// Says that the sampled point is exactly the grid point `p`.
    pub open spec fn spec_is_at(self, p: Point) -> bool {
        self.x == p.x * self.spec_scale() && self.y == p.y * self.spec_scale()
    }

    /// The common denominator of both coordinates, `resolution³`.
    pub fn scale(&self) -> (d: i128)
        ensures
            d == self.spec_scale(),
            0 <= d < 0x1_0000_0000_0000_0000_0000_0000,
    {
        let r: i128 = self.resolution as i128;
        assert(0 <= r * r <= 0xffff_ffff * 0xffff_ffff && 0 <= r * r * r <= 0xffff_ffff
            * 0xffff_ffff * 0xffff_ffff) by (nonlinear_arith)
            requires
                0 <= r <= 0xffff_ffff,
        ;
        r * r * r
    }

    /// Whether the sampled point is exactly the grid point `p`.
    pub fn is_at(&self, p: Point) -> (b: bool)
        ensures
            b == self.spec_is_at(p),
    {
        let d: i128 = self.scale();
        let px: i128 = p.x as i128;
        let py: i128 = p.y as i128;
        assert(-0x8000_0000 * 0x1_0000_0000_0000_0000_0000_0000 <= px * d <= 0x7fff_ffff
            * 0x1_0000_0000_0000_0000_0000_0000) by (nonlinear_arith)
            requires
                -0x8000_0000 <= px < 0x8000_0000,
                0 <= d < 0x1_0000_0000_0000_0000_0000_0000,
        ;
        assert(-0x8000_0000 * 0x1_0000_0000_0000_0000_0000_0000 <= py * d <= 0x7fff_ffff
            * 0x1_0000_0000_0000_0000_0000_0000) by (nonlinear_arith)
            requires
                -0x8000_0000 <= py < 0x8000_0000,
                0 <= d < 0x1_0000_0000_0000_0000_0000_0000,
        ;
        self.x == px * d && self.y == py * d
    }
}

/// Whether `v` can be held in an `i128`.
pub open spec fn fits(v: int) -> bool {
    i128::MIN <= v <= i128::MAX
}

/// No product and no partial sum in the evaluation of one coordinate leaves
/// `i128`: each is a weighted sum of values between `i32::MIN` and
/// `i32::MAX`, so it stays within `2^31 · resolution³ < 2^127` of zero.
proof fn lemma_partial_sums_fit(c0: int, c1: int, c2: int, c3: int, step: int, resolution: int)
    requires
        0 <= step <= resolution <= u32::MAX,
        i32::MIN <= c0 <= i32::MAX,
        i32::MIN <= c1 <= i32::MAX,
        i32::MIN <= c2 <= i32::MAX,
        i32::MIN <= c3 <= i32::MAX,
    ensures
        fits(c0 * weight0(step, resolution)),
        fits(c1 * weight1(step, resolution)),
        fits(c2 * weight2(step, resolution)),
        fits(c3 * weight3(step, resolution)),
        fits(c0 * weight0(step, resolution) + c1 * weight1(step, resolution)),
        fits(
            c0 * weight0(step, resolution) + c1 * weight1(step, resolution) + c2 * weight2(
                step,
                resolution,
            ),
        ),
        fits(bezier_scaled(c0, c1, c2, c3, step, resolution)),
        cube(resolution) < 0x1_0000_0000_0000_0000_0000_0000,
{
    let lo = i32::MIN as int;
    let hi = i32::MAX as int;
    let top = cube(resolution);
    assert(0 <= top < 0x1_0000_0000_0000_0000_0000_0000) by (nonlinear_arith)
        requires
            0 <= resolution <= 0xffff_ffff,
            top == resolution * resolution * resolution,
    ;
    assert(i128::MIN <= lo * top && hi * top <= i128::MAX) by (nonlinear_arith)
        requires
            0 <= top < 0x1_0000_0000_0000_0000_0000_0000,
            lo == -0x8000_0000,
            hi == 0x7fff_ffff,
    ;
    lemma_bezier_within_hull(c0, 0, 0, 0, step, resolution, lo, hi);
    lemma_bezier_within_hull(0, c1, 0, 0, step, resolution, lo, hi);
    lemma_bezier_within_hull(0, 0, c2, 0, step, resolution, lo, hi);
    lemma_bezier_within_hull(0, 0, 0, c3, step, resolution, lo, hi);
    lemma_bezier_within_hull(c0, c1, 0, 0, step, resolution, lo, hi);
    lemma_bezier_within_hull(c0, c1, c2, 0, step, resolution, lo, hi);
    lemma_bezier_within_hull(c0, c1, c2, c3, step, resolution, lo, hi);
}

/// Evaluates one coordinate of the curve at `step / resolution`, scaled by
/// `resolution³`.
fn scaled_coordinate(c0: i32, c1: i32, c2: i32, c3: i32, step: u32, resolution: u32) -> (v: i128)
    requires
        step <= resolution,
    ensures
        v == bezier_scaled(c0 as int, c1 as int, c2 as int, c3 as int, step as int, resolution as int),
{
    let i: i128 = step as i128;
    let k: i128 = (resolution - step) as i128;
    proof {
        lemma_partial_sums_fit(
            c0 as int,
            c1 as int,
            c2 as int,
            c3 as int,
            step as int,
            resolution as int,
        );
        assert(0 <= k * k <= 0xffff_ffff * 0xffff_ffff && 0 <= i * i <= 0xffff_ffff * 0xffff_ffff
            && 0 <= k * i <= 0xffff_ffff * 0xffff_ffff) by (nonlinear_arith)
            requires
                0 <= k <= 0xffff_ffff,
                0 <= i <= 0xffff_ffff,
        ;
        assert(3 * k * k == 3 * (k * k) && 3 * k * i == 3 * (k * i)) by (nonlinear_arith);
        lemma_weights(step as int, resolution as int);
    }
    let w0: i128 = k * k * k;
    let w1: i128 = 3 * k * k * i;
    let w2: i128 = 3 * k * i * i;
    let w3: i128 = i * i * i;
    c0 as i128 * w0 + c1 as i128 * w1 + c2 as i128 * w2 + c3 as i128 * w3
}

/// Evaluates the curve at the parameter `step / resolution`, anywhere on the
/// closed parameter interval.
pub fn evaluate(p0: Point, p1: Point, p2: Point, p3: Point, step: u32, resolution: u32) -> (s:
    CurveSample)
    requires
        0 < resolution,
        step <= resolution,
    ensures
        s.is_curve_point(p0, p1, p2, p3, step as int, resolution as int),
{
    CurveSample {
        step,
        resolution,
        x: scaled_coordinate(p0.x, p1.x, p2.x, p3.x, step, resolution),
        y: scaled_coordinate(p0.y, p1.y, p2.y, p3.y, step, resolution),
    }
}

/// How many samples a given resolution yields: the interior steps
/// `1 ..= resolution − 1`, none below a resolution of 2.
pub open spec fn sample_count(resolution: int) -> nat {
    if resolution >= 2 {
        (resolution - 1) as nat
    } else {
        0
    }
}

/// Says that `samples` holds, in order, the curve points of `p0..p3` at the
/// steps `1 ..= resolution − 1`, and nothing else.
pub open spec fn is_sampling(
    samples: Seq<CurveSample>,
    p0: Point,
    p1: Point,
    p2: Point,
    p3: Point,
    resolution: int,
) -> bool {
    &&& samples.len() == sample_count(resolution)
    &&& forall|n: int|
        0 <= n < samples.len() ==> (#[trigger] samples[n]).is_curve_point(
            p0,
            p1,
            p2,
            p3,
            n + 1,
            resolution,
        )
}

/// Samples the curve at `t = i / resolution` for `i = 1 ..= resolution − 1`,
/// in that order. Both ends of the curve are left out: they are the first
/// and the last control point.
pub fn sample(p0: Point, p1: Point, p2: Point, p3: Point, resolution: u32) -> (samples: Vec<
    CurveSample,
>)
    ensures
        is_sampling(samples@, p0, p1, p2, p3, resolution as int),
{
    let mut samples: Vec<CurveSample> = Vec::new();
    let mut step: u32 = 1;
    while step < resolution
        invariant
            1 <= step,
            resolution >= 2 ==> step <= resolution,
            resolution < 2 ==> step == 1,
            samples@.len() == step - 1,
            forall|n: int|
                0 <= n < samples@.len() ==> (#[trigger] samples@[n]).is_curve_point(
                    p0,
                    p1,
                    p2,
                    p3,
                    n + 1,
                    resolution as int,
                ),
        decreases resolution - step,
    {
        samples.push(evaluate(p0, p1, p2, p3, step, resolution));
        step = step + 1;
    }
    samples
}

} // verus!

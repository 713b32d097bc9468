//! Laws of the soft-knee curve: it is the identity for a ratio of one, it
//! never raises a level for a ratio of at least one, and at both edges of the
//! knee it is continuous in value and in slope.
//!
//! Levels are fixed-point numbers, so continuity is stated as a bound. With
//! `S` for the raw count of one, a bound `m * (2 * w * S) <= b` on raw counts
//! says that `m` is at most `b / (2 * w * S)` raw units.
use vstd::prelude::*;
use crate::curve::above_knee;
use crate::curve::curve;
use crate::curve::in_knee;
use crate::curve::line_branch;
use crate::curve::slope_for;
use crate::fixed::Fixed;
use crate::fixed::SCALE;
use crate::fixed::lemma_double_is_exact;
use crate::fixed::lemma_half_rounds_down;
use crate::fixed::lemma_trunc_div_bounds;
use crate::fixed::magnitude;
use crate::fixed::trunc_div;

verus! {

/// What the roundings of the knee and of the line can add up to, as a
/// multiple of `1 / (2 * w * SCALE)` raw units, for the slope term `sigma`
/// and the knee width `w` in raw counts: `|sigma| / (2 * SCALE) + |sigma| / (2 * w)
/// + w / (2 * SCALE) + SCALE / (2 * w) + 2` raw units.
pub open spec fn rounding_slack(sigma: int, w: int) -> int {
    magnitude(sigma) * (w + SCALE) + w * w + 4 * w * SCALE + SCALE * SCALE
}

/// With a ratio of one the curve is the identity: the slope term is zero and
/// every level comes out unchanged. For a knee wider than 32768 dB the square
/// inside the knee can leave the representable range; the result is then
/// non-finite, and never another level.
pub proof fn lemma_unit_ratio_is_identity(x: Fixed, threshold: Fixed, width: Fixed)
    ensures
        slope_for(Fixed::one()) == Fixed::zero(),
        ({
            let y = curve(x, threshold, width, Fixed::one(), slope_for(Fixed::one()));
            &&& y == x || y is NonFinite
            &&& width.raw() <= 32768 * SCALE ==> y == x
        }),
{
    assert(trunc_div(SCALE * SCALE, SCALE as int) == SCALE) by (nonlinear_arith);
    let d = x.spec_sub(threshold);
    if in_knee(x, threshold, width) {
        if width != Fixed::zero() {
            lemma_in_knee_raw(x, threshold, width);
            let w = width.raw();
            let k = d.raw() + w / 2;
            let sq = trunc_div(k * k, SCALE as int);
            assert(0 * sq == 0) by (nonlinear_arith);
            assert(0 * SCALE == 0) by (nonlinear_arith);
            assert(trunc_div(0, 2 * w) == 0) by (nonlinear_arith)
                requires
                    w > 0,
            ;
            if w <= 32768 * SCALE {
                lemma_knee_square_fits(k, w);
            }
        }
    } else if above_knee(x, threshold, width) {
        assert(trunc_div(d.raw() * SCALE, SCALE as int) == d.raw()) by (nonlinear_arith);
    }
}

/// With a ratio of at least one and a knee that is not negative, the curve
/// never raises a level: wherever its result is finite, it is at most the
/// input, so the gain reduction is not negative.
pub proof fn lemma_curve_never_raises(x: Fixed, threshold: Fixed, width: Fixed, ratio: Fixed)
    requires
        ratio is Finite,
        ratio.raw() >= SCALE,
        width.raw() >= 0,
        curve(x, threshold, width, ratio, slope_for(ratio)) is Finite,
    ensures
        x is Finite,
        slope_for(ratio) is Finite,
        slope_for(ratio).raw() <= 0,
        curve(x, threshold, width, ratio, slope_for(ratio)).raw() <= x.raw(),
{
    let s = SCALE as int;
    let r = ratio.raw();
    lemma_trunc_div_bounds(s * s, r);
    assert(0 <= trunc_div(s * s, r) <= s) by (nonlinear_arith)
        requires
            s * s - r < trunc_div(s * s, r) * r <= s * s,
            r >= s,
            s > 0,
    ;
    let sigma = slope_for(ratio).raw();
    if in_knee(x, threshold, width) {
        if width != Fixed::zero() {
            lemma_in_knee_raw(x, threshold, width);
            let w = width.raw();
            let k = x.raw() - threshold.raw() + w / 2;
            let sq = trunc_div(k * k, s);
            let p = trunc_div(sigma * sq, s);
            lemma_trunc_div_bounds(k * k, s);
            assert(k * k >= 0) by (nonlinear_arith);
            assert(sq >= 0) by (nonlinear_arith)
                requires
                    k * k - s < sq * s,
                    k * k >= 0,
                    s > 0,
            ;
            assert(sigma * sq <= 0) by (nonlinear_arith)
                requires
                    sigma <= 0,
                    sq >= 0,
            ;
            lemma_trunc_div_bounds(sigma * sq, s);
            assert(p <= 0) by (nonlinear_arith)
                requires
                    p * s < sigma * sq + s,
                    sigma * sq <= 0,
                    s > 0,
            ;
            assert(p * s <= 0) by (nonlinear_arith)
                requires
                    p <= 0,
                    s > 0,
            ;
            lemma_trunc_div_bounds(p * s, 2 * w);
            assert(trunc_div(p * s, 2 * w) <= 0) by (nonlinear_arith)
                requires
                    trunc_div(p * s, 2 * w) * (2 * w) < p * s + 2 * w,
                    p * s <= 0,
                    w > 0,
            ;
        }
    } else if above_knee(x, threshold, width) {
        let d = x.raw() - threshold.raw();
        lemma_double_is_exact(d);
        assert(d > 0);
        lemma_trunc_div_bounds(d * s, r);
        assert(d * s >= 0) by (nonlinear_arith)
            requires
                d > 0,
                s > 0,
        ;
        assert(trunc_div(d * s, r) <= d) by (nonlinear_arith)
            requires
                trunc_div(d * s, r) * r <= d * s,
                r >= s,
                s > 0,
                d > 0,
        ;
    }
}

/// Continuity at the lower knee edge, in value and in slope. For a level `x1`
/// below the knee and a level `x2` inside it, the curve is the identity at
/// `x1`, and at `x2` it is away from the identity by at most
/// `|slope| * (x2 - x1)^2 / (2 * width)`. So the step of the curve from `x1`
/// to `x2` differs from `x2 - x1` only in the second order of `x2 - x1`:
/// the curve does not jump at the edge, and its slope there is that of the
/// identity.
pub proof fn lemma_knee_leaves_identity_smoothly(
    x1: Fixed,
    x2: Fixed,
    threshold: Fixed,
    width: Fixed,
    ratio: Fixed,
    slope: Fixed,
)
    requires
        width.raw() > 0,
        x1 is Finite,
        2 * (x1.raw() - threshold.raw()) < -width.raw(),
        in_knee(x2, threshold, width),
        curve(x2, threshold, width, ratio, slope) is Finite,
    ensures
        curve(x1, threshold, width, ratio, slope) == x1,
        x1.raw() < x2.raw(),
        magnitude(curve(x2, threshold, width, ratio, slope).raw() - x2.raw()) * (2 * width.raw())
            * SCALE <= magnitude(slope.raw()) * ((x2.raw() - x1.raw()) * (x2.raw() - x1.raw())),
{
    lemma_in_knee_raw(x2, threshold, width);
    let w = width.raw();
    // x1 is on neither of the other two parts of the curve
    let d1 = x1.spec_sub(threshold);
    lemma_double_is_exact(d1.raw());
    lemma_double_is_exact(d1.spec_abs().raw());
    // the parabola at x2
    let k = x2.raw() - threshold.raw() + w / 2;
    let delta = x2.raw() - x1.raw();
    assert(0 <= k <= delta);
    lemma_knee_term(slope.raw(), k, 2 * w);
    assert(k * k <= delta * delta) by (nonlinear_arith)
        requires
            0 <= k <= delta,
    ;
    assert(magnitude(slope.raw()) * (k * k) <= magnitude(slope.raw()) * (delta * delta))
        by (nonlinear_arith)
        requires
            k * k <= delta * delta,
    ;
}

/// Continuity at the upper knee edge, in value and in slope. For a level `x1`
/// inside the knee and a level `x2` above it, with the slope term that
/// belongs to the ratio, the curve at `x2` is the line
/// `threshold + (x - threshold) / ratio`, and at `x1` it is away from that
/// same line by at most `|slope| * (x2 - x1)^2 / (2 * width)` and the
/// rounding slack. So but for rounding the curve meets the line at the edge,
/// with the line's slope.
pub proof fn lemma_knee_joins_line_smoothly(
    x1: Fixed,
    x2: Fixed,
    threshold: Fixed,
    width: Fixed,
    ratio: Fixed,
)
    requires
        width.raw() > 0,
        ratio is Finite,
        ratio.raw() > 0,
        in_knee(x1, threshold, width),
        above_knee(x2, threshold, width),
        curve(x1, threshold, width, ratio, slope_for(ratio)) is Finite,
        line_branch(x1, threshold, ratio) is Finite,
    ensures
        curve(x2, threshold, width, ratio, slope_for(ratio)) == line_branch(x2, threshold, ratio),
        x1.raw() < x2.raw(),
        magnitude(
            curve(x1, threshold, width, ratio, slope_for(ratio)).raw() - line_branch(
                x1,
                threshold,
                ratio,
            ).raw(),
        ) * (2 * width.raw()) * SCALE <= magnitude(slope_for(ratio).raw()) * ((x2.raw() - x1.raw())
            * (x2.raw() - x1.raw())) + rounding_slack(slope_for(ratio).raw(), width.raw()),
{
    lemma_in_knee_raw(x1, threshold, width);
    let w = width.raw();
    let d2 = x2.spec_sub(threshold);
    lemma_double_is_exact(d2.raw());
    lemma_double_is_exact(d2.spec_abs().raw());
    let d = x1.raw() - threshold.raw();
    let j = w / 2 - d;
    let delta = x2.raw() - x1.raw();
    assert(0 <= j <= delta);
    lemma_knee_contact_raw(d, w, ratio.raw());
    let sigma = slope_for(ratio).raw();
    assert(j * j <= delta * delta) by (nonlinear_arith)
        requires
            0 <= j <= delta,
    ;
    assert(magnitude(sigma) * (j * j) <= magnitude(sigma) * (delta * delta)) by (nonlinear_arith)
        requires
            j * j <= delta * delta,
    ;
}

/// What membership in the knee says in raw counts.
proof fn lemma_in_knee_raw(x: Fixed, threshold: Fixed, width: Fixed)
    requires
        in_knee(x, threshold, width),
    ensures
        x is Finite,
        threshold is Finite,
        width is Finite,
        x.spec_sub(threshold) is Finite,
        width.raw() >= 0,
        -(width.raw() / 2) <= x.raw() - threshold.raw() <= width.raw() / 2,
        width.spec_div(Fixed::spec_from_int(2)) == Fixed::Finite((width.raw() / 2) as i64),
        Fixed::spec_from_int(2).spec_mul(width) == Fixed::of_raw(2 * width.raw()),
{
    lemma_double_is_exact(x.spec_sub(threshold).spec_abs().raw());
    lemma_double_is_exact(width.raw());
    lemma_half_rounds_down(width.raw());
}

/// Inside a knee of at most 32768 dB the square of the distance from the
/// lower knee edge stays in the representable range.
proof fn lemma_knee_square_fits(k: int, w: int)
    requires
        0 <= k <= w <= 32768 * SCALE,
    ensures
        0 <= trunc_div(k * k, SCALE as int) <= i64::MAX,
{
    assert(0 <= k * k <= w * w) by (nonlinear_arith)
        requires
            0 <= k <= w,
    ;
    assert(w * w <= (32768 * SCALE) * (32768 * SCALE)) by (nonlinear_arith)
        requires
            0 <= w <= 32768 * SCALE,
    ;
    assert(0 <= (k * k) / (SCALE as int) <= i64::MAX) by (nonlinear_arith)
        requires
            0 <= k * k <= (32768 * SCALE) * (32768 * SCALE),
    ;
}

/// The line above the knee, in raw counts, follows the slope term: with
/// `f = trunc_div(SCALE * SCALE, r)` and `l = trunc_div(d * SCALE, r)`, the
/// products `l * SCALE` and `d * f` differ by less than `|d| + SCALE`.
proof fn lemma_line_follows_slope(d: int, r: int)
    requires
        r > 0,
    ensures
        magnitude(trunc_div(d * SCALE, r) * SCALE - d * trunc_div(SCALE * SCALE, r)) < magnitude(d)
            + SCALE,
{
    let s = SCALE as int;
    let f = trunc_div(s * s, r);
    let l = trunc_div(d * s, r);
    lemma_trunc_div_bounds(s * s, r);
    lemma_trunc_div_bounds(d * s, r);
    let a0 = s * s - f * r;
    let a1 = l * r - d * s;
    assert(0 <= a0 < r);
    assert(-r < a1 < r);
    let a = l * s - d * f;
    assert(a * r == s * a1 + d * a0) by (nonlinear_arith)
        requires
            a == l * s - d * f,
            a0 == s * s - f * r,
            a1 == l * r - d * s,
    ;
    let m = magnitude(d);
    assert(-(s * r) < s * a1 < s * r) by (nonlinear_arith)
        requires
            -r < a1 < r,
            s > 0,
    ;
    assert(-(m * r) <= d * a0 <= m * r) by (nonlinear_arith)
        requires
            0 <= a0 < r,
            m == magnitude(d),
    ;
    assert((m + s) * r == m * r + s * r) by (nonlinear_arith);
    assert(magnitude(a) < m + s) by (nonlinear_arith)
        requires
            -((m + s) * r) < a * r < (m + s) * r,
            r > 0,
    ;
}

/// The knee's correction term, in raw counts: with `sq = trunc_div(k * k, SCALE)`,
/// `p = trunc_div(sigma * sq, SCALE)` and `q = trunc_div(p * SCALE, w2)`, the
/// product `q * w2 * SCALE` is within the three rounding errors of `sigma * k * k`,
/// and never larger in size.
proof fn lemma_knee_term(sigma: int, k: int, w2: int)
    requires
        w2 > 0,
    ensures
        ({
            let sq = trunc_div(k * k, SCALE as int);
            let p = trunc_div(sigma * sq, SCALE as int);
            let q = trunc_div(p * SCALE, w2);
            &&& magnitude(q * w2 * SCALE - sigma * (k * k)) <= w2 * SCALE + SCALE * SCALE
                + magnitude(sigma) * SCALE
            &&& magnitude(q) * w2 * SCALE <= magnitude(sigma) * (k * k)
        }),
{
    let s = SCALE as int;
    let kk = k * k;
    assert(kk >= 0) by (nonlinear_arith)
        requires
            kk == k * k,
    ;
    let sq = trunc_div(kk, s);
    let p = trunc_div(sigma * sq, s);
    let q = trunc_div(p * s, w2);
    lemma_trunc_div_bounds(kk, s);
    lemma_trunc_div_bounds(sigma * sq, s);
    lemma_trunc_div_bounds(p * s, w2);
    let b2 = kk - sq * s;
    let b3 = p * s - sigma * sq;
    let b4 = q * w2 - p * s;
    assert(0 <= b2 < s);
    assert(-s < b3 < s);
    assert(-w2 < b4 < w2);
    let ms = magnitude(sigma);
    assert(q * w2 * s - sigma * kk == b4 * s + b3 * s - sigma * b2) by (nonlinear_arith)
        requires
            b2 == kk - sq * s,
            b3 == p * s - sigma * sq,
            b4 == q * w2 - p * s,
    ;
    assert(-(w2 * s) <= b4 * s <= w2 * s) by (nonlinear_arith)
        requires
            -w2 < b4 < w2,
            s > 0,
    ;
    assert(-(s * s) <= b3 * s <= s * s) by (nonlinear_arith)
        requires
            -s < b3 < s,
            s > 0,
    ;
    assert(-(ms * s) <= sigma * b2 <= ms * s) by (nonlinear_arith)
        requires
            0 <= b2 < s,
            ms == magnitude(sigma),
    ;
    // sizes only shrink under rounding toward zero
    let mp = magnitude(p);
    let mq = magnitude(q);
    assert(sq >= 0 && sq * s <= kk);
    assert(mp * s <= ms * sq) by (nonlinear_arith)
        requires
            mp == magnitude(p),
            ms == magnitude(sigma),
            sq >= 0,
            sigma * sq >= 0 ==> sigma * sq - s < p * s <= sigma * sq,
            sigma * sq <= 0 ==> sigma * sq <= p * s < sigma * sq + s,
            s > 0,
    ;
    assert(mq * w2 <= mp * s) by (nonlinear_arith)
        requires
            mp == magnitude(p),
            mq == magnitude(q),
            p * s >= 0 ==> p * s - w2 < q * w2 <= p * s,
            p * s <= 0 ==> p * s <= q * w2 < p * s + w2,
            s > 0,
            w2 > 0,
    ;
    assert(mq * w2 * s <= ms * kk) by (nonlinear_arith)
        requires
            mq * w2 <= mp * s,
            mp * s <= ms * sq,
            sq * s <= kk,
            s > 0,
            ms >= 0,
    ;
}

/// The parabola against the line above the knee, in raw counts. `d` is the
/// level relative to the threshold, `w` the knee width and `r` the ratio.
proof fn lemma_knee_contact_raw(d: int, w: int, r: int)
    requires
        w > 0,
        r > 0,
        -(w / 2) <= d <= w / 2,
    ensures
        ({
            let k = d + w / 2;
            let j = w / 2 - d;
            let sigma = trunc_div(SCALE * SCALE, r) - SCALE;
            let sq = trunc_div(k * k, SCALE as int);
            let p = trunc_div(sigma * sq, SCALE as int);
            let q = trunc_div(p * SCALE, 2 * w);
            let l = trunc_div(d * SCALE, r);
            magnitude(d + q - l) * (2 * w) * SCALE <= magnitude(sigma) * (j * j) + rounding_slack(
                sigma,
                w,
            )
        }),
{
    let s = SCALE as int;
    let h = w / 2;
    let b = w - 2 * h;
    let k = d + h;
    let j = h - d;
    let kk = k * k;
    let jj = j * j;
    let w2 = 2 * w;
    let f = trunc_div(s * s, r);
    let sigma = f - s;
    let ms = magnitude(sigma);
    let sq = trunc_div(kk, s);
    let p = trunc_div(sigma * sq, s);
    let q = trunc_div(p * s, w2);
    let l = trunc_div(d * s, r);
    lemma_line_follows_slope(d, r);
    lemma_knee_term(sigma, k, w2);
    let a = l * s - d * f;
    let eta = q * w2 * s - sigma * kk;
    let t = (d + q - l) * w2 * s;
    assert(kk - w2 * d == jj - 2 * b * d) by (nonlinear_arith)
        requires
            kk == k * k,
            jj == j * j,
            k == d + h,
            j == h - d,
            w2 == 2 * (2 * h + b),
    ;
    assert(t == sigma * (kk - w2 * d) + eta - w2 * a) by (nonlinear_arith)
        requires
            t == (d + q - l) * w2 * s,
            eta == q * w2 * s - sigma * kk,
            a == l * s - d * f,
            sigma == f - s,
    ;
    let md = magnitude(d);
    assert(0 <= b <= 1 && 2 * md <= w);
    assert(sigma * (jj - 2 * b * d) == sigma * jj - sigma * (2 * b * d)) by (nonlinear_arith);
    assert(jj >= 0) by (nonlinear_arith)
        requires
            jj == j * j,
    ;
    assert(-(ms * jj) <= sigma * jj <= ms * jj) by (nonlinear_arith)
        requires
            ms == magnitude(sigma),
            jj >= 0,
    ;
    assert(-(ms * w) <= sigma * (2 * b * d) <= ms * w) by (nonlinear_arith)
        requires
            ms == magnitude(sigma),
            0 <= b <= 1,
            2 * magnitude(d) <= w,
    ;
    assert(-(w2 * (md + s)) < w2 * a < w2 * (md + s)) by (nonlinear_arith)
        requires
            magnitude(a) < md + s,
            w2 > 0,
    ;
    assert(w2 * (md + s) <= w * w + 2 * w * s) by (nonlinear_arith)
        requires
            w2 == 2 * w,
            2 * md <= w,
            w > 0,
            s > 0,
    ;
    assert(ms * (w + s) == ms * w + ms * s) by (nonlinear_arith);
    assert(w2 * s == 2 * w * s) by (nonlinear_arith)
        requires
            w2 == 2 * w,
    ;
    assert(magnitude(t) <= ms * jj + rounding_slack(sigma, w));
    assert(magnitude(t) == magnitude(d + q - l) * w2 * s) by (nonlinear_arith)
        requires
            t == (d + q - l) * w2 * s,
            w2 > 0,
            s > 0,
    ;
}

} // verus!

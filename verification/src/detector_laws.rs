//! Laws of the decoupled peak detector: a stable follower stays finite, and
//! fed a constant sample that is not negative it settles on that sample.
use vstd::prelude::*;
use crate::detector::DetectorState;
use crate::fixed::Fixed;
use crate::fixed::SCALE;
use crate::fixed::lemma_scaled_toward_zero;
use crate::fixed::lemma_trunc_div_bounds;
use crate::fixed::lemma_weighted_average_in_range;
use crate::fixed::magnitude;
use crate::fixed::trunc_div;

verus! {

/// The state after `n` samples that all equal `x`, fed to the plain follower.
pub open spec fn run(s: DetectorState, x: Fixed, n: nat) -> DetectorState
    decreases n,
{
    if n == 0 {
        s
    } else {
        run(s.process(x), x, (n - 1) as nat)
    }
}

/// The state after `n` samples that all equal `x`, fed to the follower with
/// smoothed release.
pub open spec fn run_smooth(s: DetectorState, x: Fixed, n: nat) -> DetectorState
    decreases n,
{
    if n == 0 {
        s
    } else {
        run_smooth(s.process_smooth(x), x, (n - 1) as nat)
    }
}

/// The follower has settled on the constant input `c`: the peak envelope
/// equals `c`, and the smoothed envelope is less than `2 / (1 - attack)` raw
/// units away from it, which is what the two roundings of the smoothing stage
/// can hold it away by.
pub open spec fn settled_at(s: DetectorState, c: Fixed) -> bool {
    &&& s.env == c
    &&& s.env2 is Finite
    &&& magnitude(s.env2.raw() - c.raw()) * (SCALE - s.attack.raw()) < 2 * SCALE
}

/// The plain follower keeps a stable state stable, whatever the sample: no
/// product or sum of its two stages leaves the representable range, and a
/// sample that is not finite is passed over by the peak-hold stage.
pub proof fn lemma_process_keeps_stable(s: DetectorState, x: Fixed)
    requires
        s.stable(),
    ensures
        s.process(x).stable(),
{
    lemma_scaled_toward_zero(s.release.raw(), s.env.raw());
    let env = s.peak(x);
    assert(env is Finite);
    lemma_scaled_toward_zero(s.attack.raw(), s.env2.raw());
    lemma_scaled_toward_zero(SCALE - s.attack.raw(), env.raw());
    lemma_weighted_average_in_range(s.attack.raw(), s.env2.raw(), env.raw());
}

/// The follower with smoothed release keeps a stable state stable when the
/// sample is finite, and neither of its guards fires.
pub proof fn lemma_process_smooth_keeps_stable(s: DetectorState, x: Fixed)
    requires
        s.stable(),
        x is Finite,
    ensures
        s.process_smooth(x).stable(),
        s.process_smooth(x).env == s.peak_smooth(x),
        s.process_smooth(x).env2 == s.smoothed(s.peak_smooth(x)),
{
    lemma_scaled_toward_zero(s.release.raw(), s.env.raw());
    lemma_scaled_toward_zero(SCALE - s.release.raw(), x.raw());
    lemma_weighted_average_in_range(s.release.raw(), s.env.raw(), x.raw());
    let env = s.peak_smooth(x);
    assert(env is Finite);
    lemma_scaled_toward_zero(s.attack.raw(), s.env2.raw());
    lemma_scaled_toward_zero(SCALE - s.attack.raw(), env.raw());
    lemma_weighted_average_in_range(s.attack.raw(), s.env2.raw(), env.raw());
}

/// Steady-state convergence. With coefficients in `[0, 1)` and finite
/// envelopes, feeding the plain follower a constant sample `c >= 0` settles
/// it: from some sample count `n0` on, the peak envelope equals `c` and the
/// smoothed envelope stays less than `2 / (1 - attack)` raw units away from `c`.
///
/// A negative constant is left out: the peak-hold stage then decays toward
/// zero, not toward the input.
pub proof fn lemma_constant_input_converges(s: DetectorState, c: Fixed) -> (n0: nat)
    requires
        s.stable(),
        c is Finite,
        c.raw() >= 0,
    ensures
        forall|n: nat| n >= n0 ==> settled_at(#[trigger] run(s, c, n), c),
    decreases peak_stage_distance(s, c), magnitude(s.env2.raw() - c.raw()),
{
    if settled_at(s, c) {
        assert forall|n: nat| n >= 0 implies settled_at(#[trigger] run(s, c, n), c) by {
            lemma_settled_stays(s, c, n);
        }
        0
    } else {
        let next = s.process(c);
        lemma_process_keeps_stable(s, c);
        lemma_scaled_toward_zero(s.release.raw(), s.env.raw());
        if s.env == c {
            lemma_smoothing_step(s.attack.raw(), s.env2.raw(), c.raw());
        }
        let m = lemma_constant_input_converges(next, c);
        assert forall|n: nat| n >= m + 1 implies settled_at(#[trigger] run(s, c, n), c) by {
            assert(run(s, c, n) == run(next, c, (n - 1) as nat));
        }
        m + 1
    }
}

/// Steady-state convergence of the follower with smoothed release, under the
/// same conditions and to the same bound as for the plain follower.
pub proof fn lemma_constant_input_converges_smooth(s: DetectorState, c: Fixed) -> (n0: nat)
    requires
        s.stable(),
        c is Finite,
        c.raw() >= 0,
    ensures
        forall|n: nat| n >= n0 ==> settled_at(#[trigger] run_smooth(s, c, n), c),
    decreases peak_stage_distance(s, c), magnitude(s.env2.raw() - c.raw()),
{
    if settled_at(s, c) {
        assert forall|n: nat| n >= 0 implies settled_at(#[trigger] run_smooth(s, c, n), c) by {
            lemma_settled_stays_smooth(s, c, n);
        }
        0
    } else {
        let next = s.process_smooth(c);
        lemma_process_smooth_keeps_stable(s, c);
        lemma_weighted_average_in_range(s.release.raw(), s.env.raw(), c.raw());
        if s.env.raw() > c.raw() {
            lemma_average_below_larger(s.release.raw(), s.env.raw(), c.raw());
        }
        if s.env == c {
            lemma_smoothing_step(s.attack.raw(), s.env2.raw(), c.raw());
        }
        let m = lemma_constant_input_converges_smooth(next, c);
        assert forall|n: nat| n >= m + 1 implies settled_at(#[trigger] run_smooth(s, c, n), c) by {
            assert(run_smooth(s, c, n) == run_smooth(next, c, (n - 1) as nat));
        }
        m + 1
    }
}

/// How far the peak-hold stage is from holding `c`, as a count that falls
/// with every sample until it is zero: the excess of the peak envelope over
/// `c`, or one for an envelope below `c`, which the next sample lifts to `c`.
pub open spec fn peak_stage_distance(s: DetectorState, c: Fixed) -> int {
    if s.env == c {
        0
    } else if s.env.raw() > c.raw() {
        s.env.raw() - c.raw()
    } else {
        1
    }
}

/// Fed a constant, non-negative sample `c`, a settled follower stays settled.
proof fn lemma_settled_stays(s: DetectorState, c: Fixed, n: nat)
    requires
        s.stable(),
        c is Finite,
        c.raw() >= 0,
        settled_at(s, c),
    ensures
        settled_at(run(s, c, n), c),
    decreases n,
{
    if n > 0 {
        let next = s.process(c);
        lemma_process_keeps_stable(s, c);
        lemma_scaled_toward_zero(s.release.raw(), c.raw());
        lemma_smoothing_step(s.attack.raw(), s.env2.raw(), c.raw());
        lemma_settled_stays(next, c, (n - 1) as nat);
    }
}

/// Fed a constant, non-negative sample `c`, a settled follower with smoothed
/// release stays settled.
proof fn lemma_settled_stays_smooth(s: DetectorState, c: Fixed, n: nat)
    requires
        s.stable(),
        c is Finite,
        c.raw() >= 0,
        settled_at(s, c),
    ensures
        settled_at(run_smooth(s, c, n), c),
    decreases n,
{
    if n > 0 {
        let next = s.process_smooth(c);
        lemma_process_smooth_keeps_stable(s, c);
        lemma_weighted_average_in_range(s.release.raw(), c.raw(), c.raw());
        lemma_smoothing_step(s.attack.raw(), s.env2.raw(), c.raw());
        lemma_settled_stays_smooth(next, c, (n - 1) as nat);
    }
}

/// The weighted average of `e` and a smaller `c >= 0`, with a weight below
/// one on `e`, is below `e`.
proof fn lemma_average_below_larger(r: int, e: int, c: int)
    requires
        0 <= r < SCALE,
        0 <= c < e,
    ensures
        trunc_div(r * e, SCALE as int) + trunc_div((SCALE - r) * c, SCALE as int) < e,
{
    let s = SCALE as int;
    let t1 = trunc_div(r * e, s);
    let t2 = trunc_div((s - r) * c, s);
    lemma_trunc_div_bounds(r * e, s);
    lemma_trunc_div_bounds((s - r) * c, s);
    assert(r * e >= 0 && (s - r) * c >= 0 && (s - r) * c < (s - r) * e) by (nonlinear_arith)
        requires
            0 <= r < s,
            0 <= c < e,
    ;
    assert(r * e + (s - r) * e == s * e) by (nonlinear_arith);
    assert(t1 * s + t2 * s == (t1 + t2) * s) by (nonlinear_arith);
    assert(t1 + t2 < e) by (nonlinear_arith)
        requires
            (t1 + t2) * s < s * e,
            s > 0,
    ;
}

/// One smoothing step toward a held peak `c`: the distance to `c` shrinks while
/// it is at least `2 / (1 - attack)`, and stays below that bound afterwards.
proof fn lemma_smoothing_step(a: int, e: int, c: int)
    requires
        0 <= a < SCALE,
    ensures
        ({
            let e1 = trunc_div(a * e, SCALE as int) + trunc_div((SCALE - a) * c, SCALE as int);
            let k = magnitude(e - c);
            let k1 = magnitude(e1 - c);
            &&& k * (SCALE - a) >= 2 * SCALE ==> k1 < k
            &&& k * (SCALE - a) < 2 * SCALE ==> k1 * (SCALE - a) < 2 * SCALE
        }),
{
    let s = SCALE as int;
    let t1 = trunc_div(a * e, s);
    let t2 = trunc_div((s - a) * c, s);
    let e1 = t1 + t2;
    let k = magnitude(e - c);
    let k1 = magnitude(e1 - c);
    lemma_trunc_div_bounds(a * e, s);
    lemma_trunc_div_bounds((s - a) * c, s);
    assert((s - a) * c == s * c - a * c) by (nonlinear_arith);
    assert(t1 * s + t2 * s == e1 * s) by (nonlinear_arith)
        requires
            e1 == t1 + t2,
    ;
    assert(a * e - a * c == a * (e - c)) by (nonlinear_arith);
    assert(e1 * s - c * s == (e1 - c) * s) by (nonlinear_arith);
    // s * (e1 - c) lies strictly within 2 * s of a * (e - c)
    let u = (e1 - c) * s;
    let v = a * (e - c);
    assert(v - 2 * s < u < v + 2 * s);
    assert(-(a * k) <= v <= a * k) by (nonlinear_arith)
        requires
            k == magnitude(e - c),
            0 <= a,
            v == a * (e - c),
    ;
    assert(k1 * s < a * k + 2 * s) by (nonlinear_arith)
        requires
            k1 == magnitude(e1 - c),
            u == (e1 - c) * s,
            v - 2 * s < u < v + 2 * s,
            -(a * k) <= v <= a * k,
    ;
    if k * (s - a) >= 2 * s {
        assert(k1 < k) by (nonlinear_arith)
            requires
                k1 * s < a * k + 2 * s,
                k * (s - a) >= 2 * s,
                s > 0,
        ;
    } else {
        assert(k1 * (s - a) < 2 * s) by (nonlinear_arith)
            requires
                k1 * s < a * k + 2 * s,
                k * (s - a) < 2 * s,
                0 <= a < s,
                k >= 0,
                k1 >= 0,
        ;
    }
}

} // verus!

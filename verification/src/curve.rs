//! The static gain curve of a compressor with a soft knee.
//!
//! All levels are in decibels. Below the knee the curve is the identity,
//! above it a straight line of slope `1 / ratio` through the threshold, and
//! inside the knee a parabola that joins the two.
use vstd::prelude::*;
use crate::fixed::Fixed;

verus! {

/// The slope term `1 / ratio - 1` of the curve.
pub open spec fn slope_for(ratio: Fixed) -> Fixed {
    Fixed::one().spec_div(ratio).spec_sub(Fixed::one())
}

/// Whether `x` lies inside the knee: `2 * |x - threshold| <= width`.
pub open spec fn in_knee(x: Fixed, threshold: Fixed, width: Fixed) -> bool {
    Fixed::spec_from_int(2).spec_mul(x.spec_sub(threshold).spec_abs()).spec_le(width)
}

/// Whether `x` lies above the knee: `2 * (x - threshold) > width`.
pub open spec fn above_knee(x: Fixed, threshold: Fixed, width: Fixed) -> bool {
    Fixed::spec_from_int(2).spec_mul(x.spec_sub(threshold)).spec_gt(width)
}

/// The parabola of the knee:
/// `x + slope * (x - threshold + width / 2)^2 / (2 * width)`.
pub open spec fn knee_branch(x: Fixed, threshold: Fixed, width: Fixed, slope: Fixed) -> Fixed {
    let two = Fixed::spec_from_int(2);
    let k = x.spec_sub(threshold).spec_add(width.spec_div(two));
    x.spec_add(slope.spec_mul(k.spec_mul(k)).spec_div(two.spec_mul(width)))
}

/// The line above the knee: `threshold + (x - threshold) / ratio`.
pub open spec fn line_branch(x: Fixed, threshold: Fixed, ratio: Fixed) -> Fixed {
    threshold.spec_add(x.spec_sub(threshold).spec_div(ratio))
}

/// The output level of the curve for the input level `x`.
///
/// A knee of width zero holds the single point `x == threshold`, where the
/// curve takes the common limit of its two straight parts, `x` itself.
/// A level that is not finite, or that cannot be compared with the knee
/// because the threshold or the width is not finite, comes out unchanged.
pub open spec fn curve(x: Fixed, threshold: Fixed, width: Fixed, ratio: Fixed, slope: Fixed) -> Fixed {
    if in_knee(x, threshold, width) {
        if width == Fixed::zero() {
            x
        } else {
            knee_branch(x, threshold, width, slope)
        }
    } else if above_knee(x, threshold, width) {
        line_branch(x, threshold, ratio)
    } else {
        x
    }
}

/// Computes the slope term `1 / ratio - 1`.
pub fn slope_of(ratio: Fixed) -> (slope: Fixed)
    ensures
        slope == slope_for(ratio),
{
    Fixed::one().div(ratio).sub(Fixed::one())
}

/// Maps the level `x` through the soft-knee curve. `slope` is expected to be
/// `1 / ratio - 1`, computed once per change of the ratio.
pub fn reiss(x: Fixed, threshold: Fixed, width: Fixed, ratio: Fixed, slope: Fixed) -> (y: Fixed)
    ensures
        y == curve(x, threshold, width, ratio, slope),
{
    let two = Fixed::from_int(2);
    let x_minus_threshold = x.sub(threshold);
    if two.mul(x_minus_threshold.abs()).le(width) {
        if width == Fixed::zero() {
            x
        } else {
            let k = x_minus_threshold.add(width.div(two));
            x.add(slope.mul(k.mul(k)).div(two.mul(width)))
        }
    } else if two.mul(x_minus_threshold).gt(width) {
        threshold.add(x_minus_threshold.div(ratio))
    } else {
        x
    }
}

} // verus!

//! Signed fixed-point numbers with 32 fractional bits and one non-finite value.
//!
//! A finite number is a raw count of units of `1 / SCALE`. Arithmetic never
//! panics and never wraps: a result that does not fit, a division by zero,
//! and any arithmetic on the non-finite value give the non-finite value.
//! Products and quotients are rounded toward zero. Comparisons with the
//! non-finite value are false, and [`Fixed::max`] passes over it.
use vstd::prelude::*;

verus! {

/// Number of raw units in the value one.
pub const SCALE: i64 = 0x1_0000_0000;

/// A number `raw / SCALE`, or the marker for a value that is not a finite number.
#[derive(Clone, Copy, PartialEq, Eq, Structural, Debug)]
pub enum Fixed {
    Finite(i64),
    NonFinite,
}

/// The size of an integer.
pub open spec fn magnitude(n: int) -> int {
    if n >= 0 {
        n
    } else {
        -n
    }
}

/// The quotient of `n` by `d` rounded toward zero.
pub open spec fn trunc_div(n: int, d: int) -> int
    recommends
        d != 0,
{
    if n >= 0 {
        if d > 0 {
            n / d
        } else {
            -(n / (-d))
        }
    } else {
        if d > 0 {
            -((-n) / d)
        } else {
            (-n) / (-d)
        }
    }
}

impl Fixed {
    /// The raw count of units of `1 / SCALE`; zero for the non-finite value.
    pub open spec fn raw(self) -> int {
        match self {
            Fixed::Finite(r) => r as int,
            Fixed::NonFinite => 0,
        }
    }

    /// The number with raw count `n`, non-finite where `n` does not fit.
    pub open spec fn of_raw(n: int) -> Fixed {
        if i64::MIN <= n <= i64::MAX {
            Fixed::Finite(n as i64)
        } else {
            Fixed::NonFinite
        }
    }

    /// Zero.
    pub open spec fn spec_zero() -> Fixed {
        Fixed::Finite(0)
    }

    /// One.
    pub open spec fn spec_one() -> Fixed {
        Fixed::Finite(SCALE)
    }

    /// The whole number `n`.
    pub open spec fn spec_from_int(n: i32) -> Fixed {
        Fixed::Finite((n * SCALE) as i64)
    }

    /// The sum, exact where it fits.
    pub open spec fn spec_add(self, rhs: Fixed) -> Fixed {
        if self is Finite && rhs is Finite {
            Fixed::of_raw(self.raw() + rhs.raw())
        } else {
            Fixed::NonFinite
        }
    }

    /// The difference, exact where it fits.
    pub open spec fn spec_sub(self, rhs: Fixed) -> Fixed {
        if self is Finite && rhs is Finite {
            Fixed::of_raw(self.raw() - rhs.raw())
        } else {
            Fixed::NonFinite
        }
    }

    /// The negation, exact where it fits.
    pub open spec fn spec_neg(self) -> Fixed {
        if self is Finite {
            Fixed::of_raw(-self.raw())
        } else {
            Fixed::NonFinite
        }
    }

    /// The absolute value, exact where it fits.
    pub open spec fn spec_abs(self) -> Fixed {
        if self is Finite {
            Fixed::of_raw(magnitude(self.raw()))
        } else {
            Fixed::NonFinite
        }
    }

    /// The product, rounded toward zero to the next raw count.
    pub open spec fn spec_mul(self, rhs: Fixed) -> Fixed {
        if self is Finite && rhs is Finite {
            Fixed::of_raw(trunc_div(self.raw() * rhs.raw(), SCALE as int))
        } else {
            Fixed::NonFinite
        }
    }

    /// The quotient, rounded toward zero to the next raw count; non-finite
    /// for a divisor of zero.
    pub open spec fn spec_div(self, rhs: Fixed) -> Fixed {
        if self is Finite && rhs is Finite && rhs.raw() != 0 {
            Fixed::of_raw(trunc_div(self.raw() * SCALE, rhs.raw()))
        } else {
            Fixed::NonFinite
        }
    }

    /// The larger of two numbers. An operand that is not finite is passed
    /// over, so the result is non-finite only if both are.
    pub open spec fn spec_max(self, rhs: Fixed) -> Fixed {
        if !(self is Finite) {
            rhs
        } else if !(rhs is Finite) {
            self
        } else if self.raw() >= rhs.raw() {
            self
        } else {
            rhs
        }
    }

    /// `self <= rhs`, false if either is not finite.
    pub open spec fn spec_le(self, rhs: Fixed) -> bool {
        self is Finite && rhs is Finite && self.raw() <= rhs.raw()
    }

    /// `self > rhs`, false if either is not finite.
    pub open spec fn spec_gt(self, rhs: Fixed) -> bool {
        self is Finite && rhs is Finite && self.raw() > rhs.raw()
    }

    /// `self >= rhs`, false if either is not finite.
    pub open spec fn spec_ge(self, rhs: Fixed) -> bool {
        self is Finite && rhs is Finite && self.raw() >= rhs.raw()
    }

    /// The number itself, or one in place of the non-finite value.
    pub open spec fn spec_finite_or_one(self) -> Fixed {
        if self is Finite {
            self
        } else {
            Fixed::spec_one()
        }
    }

    /// Zero.
    #[verifier::when_used_as_spec(spec_zero)]
    pub fn zero() -> (r: Fixed)
        ensures
            r == Fixed::spec_zero(),
    {
        Fixed::Finite(0)
    }

    /// One.
    #[verifier::when_used_as_spec(spec_one)]
    pub fn one() -> (r: Fixed)
        ensures
            r == Fixed::spec_one(),
    {
        Fixed::Finite(SCALE)
    }

    /// The whole number `n`.
    pub fn from_int(n: i32) -> (r: Fixed)
        ensures
            r == Fixed::spec_from_int(n),
            r is Finite,
            r.raw() == n * SCALE,
    {
        let wide: i64 = n as i64;
        Fixed::Finite(wide * SCALE)
    }

    /// Whether this is a finite number.
    pub fn is_finite(self) -> (b: bool)
        ensures
            b == (self is Finite),
    {
        match self {
            Fixed::Finite(_) => true,
            Fixed::NonFinite => false,
        }
    }

    /// The number itself, or one in place of the non-finite value. This is
    /// the guard that keeps a bad value from staying in a recursive filter.
    pub fn finite_or_one(self) -> (r: Fixed)
        ensures
            r == self.spec_finite_or_one(),
            r is Finite,
    {
        match self {
            Fixed::Finite(_) => self,
            Fixed::NonFinite => Fixed::one(),
        }
    }

    /// `self + rhs`.
    pub fn add(self, rhs: Fixed) -> (r: Fixed)
        ensures
            r == self.spec_add(rhs),
    {
        match (self, rhs) {
            (Fixed::Finite(a), Fixed::Finite(b)) => narrow(a as i128 + b as i128),
            _ => Fixed::NonFinite,
        }
    }

    /// `self - rhs`.
    pub fn sub(self, rhs: Fixed) -> (r: Fixed)
        ensures
            r == self.spec_sub(rhs),
    {
        match (self, rhs) {
            (Fixed::Finite(a), Fixed::Finite(b)) => narrow(a as i128 - b as i128),
            _ => Fixed::NonFinite,
        }
    }

    /// `-self`.
    pub fn neg(self) -> (r: Fixed)
        ensures
            r == self.spec_neg(),
    {
        match self {
            Fixed::Finite(a) => narrow(-(a as i128)),
            Fixed::NonFinite => Fixed::NonFinite,
        }
    }

    /// `|self|`.
    pub fn abs(self) -> (r: Fixed)
        ensures
            r == self.spec_abs(),
    {
        match self {
            Fixed::Finite(a) => narrow(if a < 0 { -(a as i128) } else { a as i128 }),
            Fixed::NonFinite => Fixed::NonFinite,
        }
    }

    /// `self * rhs`, rounded toward zero.
    pub fn mul(self, rhs: Fixed) -> (r: Fixed)
        ensures
            r == self.spec_mul(rhs),
    {
        match (self, rhs) {
            (Fixed::Finite(a), Fixed::Finite(b)) => {
                let x: i128 = a as i128;
                let y: i128 = b as i128;
                assert(-0x4000_0000_0000_0000_0000_0000_0000_0000 <= x * y
                    <= 0x4000_0000_0000_0000_0000_0000_0000_0000) by (nonlinear_arith)
                    requires
                        -0x8000_0000_0000_0000 <= x <= 0x8000_0000_0000_0000,
                        -0x8000_0000_0000_0000 <= y <= 0x8000_0000_0000_0000,
                ;
                narrow(wide_trunc_div(x * y, SCALE as i128))
            },
            _ => Fixed::NonFinite,
        }
    }

    /// `self / rhs`, rounded toward zero.
    pub fn div(self, rhs: Fixed) -> (r: Fixed)
        ensures
            r == self.spec_div(rhs),
    {
        match (self, rhs) {
            (Fixed::Finite(a), Fixed::Finite(b)) => {
                if b == 0 {
                    Fixed::NonFinite
                } else {
                    narrow(wide_trunc_div(a as i128 * (SCALE as i128), b as i128))
                }
            },
            _ => Fixed::NonFinite,
        }
    }

    /// The larger of `self` and `rhs`, passing over an operand that is not finite.
    pub fn max(self, rhs: Fixed) -> (r: Fixed)
        ensures
            r == self.spec_max(rhs),
    {
        match (self, rhs) {
            (Fixed::NonFinite, _) => rhs,
            (_, Fixed::NonFinite) => self,
            (Fixed::Finite(a), Fixed::Finite(b)) => if a >= b {
                self
            } else {
                rhs
            },
        }
    }

    /// `self <= rhs`.
    pub fn le(self, rhs: Fixed) -> (b: bool)
        ensures
            b == self.spec_le(rhs),
    {
        match (self, rhs) {
            (Fixed::Finite(a), Fixed::Finite(b)) => a <= b,
            _ => false,
        }
    }

    /// `self > rhs`.
    pub fn gt(self, rhs: Fixed) -> (b: bool)
        ensures
            b == self.spec_gt(rhs),
    {
        match (self, rhs) {
            (Fixed::Finite(a), Fixed::Finite(b)) => a > b,
            _ => false,
        }
    }

    /// `self >= rhs`.
    pub fn ge(self, rhs: Fixed) -> (b: bool)
        ensures
            b == self.spec_ge(rhs),
    {
        match (self, rhs) {
            (Fixed::Finite(a), Fixed::Finite(b)) => a >= b,
            _ => false,
        }
    }
}

/// The quotient of two wide integers, rounded toward zero.
fn wide_trunc_div(n: i128, d: i128) -> (q: i128)
    requires
        d != 0,
        i128::MIN < n,
        i128::MIN < d,
    ensures
        q == trunc_div(n as int, d as int),
{
    let an: i128 = if n < 0 { -n } else { n };
    let ad: i128 = if d < 0 { -d } else { d };
    assert(0 <= (an as int) / (ad as int) <= an) by (nonlinear_arith)
        requires
            an >= 0,
            ad > 0,
    ;
    let m: i128 = an / ad;
    if (n < 0) != (d < 0) {
        -m
    } else {
        m
    }
}

/// The number with the wide raw count `n`.
fn narrow(n: i128) -> (r: Fixed)
    ensures
        r == Fixed::of_raw(n as int),
{
    if n < -0x8000_0000_0000_0000 || n > 0x7fff_ffff_ffff_ffff {
        Fixed::NonFinite
    } else {
        Fixed::Finite(n as i64)
    }
}

/// Rounding toward zero loses less than one unit of the divisor and never
/// overshoots.
pub proof fn lemma_trunc_div_bounds(n: int, d: int)
    requires
        d > 0,
    ensures
        n >= 0 ==> n - d < trunc_div(n, d) * d <= n,
        n <= 0 ==> n <= trunc_div(n, d) * d < n + d,
{
    if n >= 0 {
        assert(n == d * (n / d) + n % d && 0 <= n % d < d) by (nonlinear_arith)
            requires
                d > 0,
        ;
        assert((n / d) * d == d * (n / d)) by (nonlinear_arith);
    } else {
        let m = -n;
        assert(m == d * (m / d) + m % d && 0 <= m % d < d) by (nonlinear_arith)
            requires
                d > 0,
        ;
        assert((-(m / d)) * d == -(d * (m / d))) by (nonlinear_arith);
    }
}

/// Doubling a raw count through a product with the number two is exact.
pub proof fn lemma_double_is_exact(n: int)
    ensures
        trunc_div((2 * SCALE) * n, SCALE as int) == 2 * n,
{
    assert(trunc_div((2 * SCALE) * n, SCALE as int) == 2 * n) by (nonlinear_arith);
}

/// Halving a raw count that is not negative through a quotient by the number
/// two rounds down.
pub proof fn lemma_half_rounds_down(n: int)
    requires
        n >= 0,
    ensures
        trunc_div(n * SCALE, 2 * SCALE) == n / 2,
{
    assert(trunc_div(n * SCALE, 2 * SCALE) == n / 2) by (nonlinear_arith)
        requires
            n >= 0,
    ;
}

/// A product with a coefficient in `[0, 1]` lies between zero and the other
/// factor, and is smaller than a positive factor if the coefficient is below one.
pub proof fn lemma_scaled_toward_zero(a: int, p: int)
    requires
        0 <= a <= SCALE,
    ensures
        p >= 0 ==> 0 <= trunc_div(a * p, SCALE as int) <= p,
        p <= 0 ==> p <= trunc_div(a * p, SCALE as int) <= 0,
        a < SCALE && p > 0 ==> trunc_div(a * p, SCALE as int) < p,
{
    let s = SCALE as int;
    let t = trunc_div(a * p, s);
    lemma_trunc_div_bounds(a * p, s);
    if p >= 0 {
        assert(0 <= a * p <= s * p) by (nonlinear_arith)
            requires
                0 <= a <= s,
                p >= 0,
        ;
        assert(0 <= t <= p) by (nonlinear_arith)
            requires
                a * p - s < t * s <= a * p,
                0 <= a * p <= s * p,
                s > 0,
        ;
        if a < s && p > 0 {
            assert(a * p < s * p) by (nonlinear_arith)
                requires
                    0 <= a < s,
                    p > 0,
            ;
            assert(t < p) by (nonlinear_arith)
                requires
                    t * s <= a * p,
                    a * p < s * p,
                    s > 0,
            ;
        }
    } else {
        assert(s * p <= a * p <= 0) by (nonlinear_arith)
            requires
                0 <= a <= s,
                p <= 0,
        ;
        assert(p <= t <= 0) by (nonlinear_arith)
            requires
                a * p <= t * s < a * p + s,
                s * p <= a * p <= 0,
                s > 0,
        ;
    }
}

/// A weighted average with weights `a` and `1 - a` in `[0, 1]`, each product
/// rounded toward zero, is at most the largest and at least the smallest of
/// its two operands and zero. So it fits wherever its operands do.
pub proof fn lemma_weighted_average_in_range(a: int, p: int, q: int)
    requires
        0 <= a <= SCALE,
    ensures
        ({
            let t = trunc_div(a * p, SCALE as int) + trunc_div((SCALE - a) * q, SCALE as int);
            &&& t <= p || t <= q || t <= 0
            &&& t >= p || t >= q || t >= 0
        }),
{
    let s = SCALE as int;
    let t1 = trunc_div(a * p, s);
    let t2 = trunc_div((s - a) * q, s);
    let hi = if p >= q && p >= 0 {
        p
    } else if q >= 0 {
        q
    } else {
        0
    };
    let lo = if p <= q && p <= 0 {
        p
    } else if q <= 0 {
        q
    } else {
        0
    };
    lemma_trunc_div_bounds(a * p, s);
    lemma_trunc_div_bounds((s - a) * q, s);
    assert(a * lo <= a * p <= a * hi) by (nonlinear_arith)
        requires
            0 <= a,
            lo <= p <= hi,
    ;
    assert((s - a) * lo <= (s - a) * q <= (s - a) * hi) by (nonlinear_arith)
        requires
            0 <= s - a,
            lo <= q <= hi,
    ;
    assert(a * hi >= 0 && (s - a) * hi >= 0 && a * lo <= 0 && (s - a) * lo <= 0)
        by (nonlinear_arith)
        requires
            0 <= a <= s,
            lo <= 0 <= hi,
    ;
    assert(a * hi + (s - a) * hi == s * hi && a * lo + (s - a) * lo == s * lo)
        by (nonlinear_arith);
    assert(t1 * s + t2 * s == (t1 + t2) * s) by (nonlinear_arith);
    assert(s * lo <= (t1 + t2) * s <= s * hi);
    assert(lo <= t1 + t2 <= hi) by (nonlinear_arith)
        requires
            s * lo <= (t1 + t2) * s <= s * hi,
            s > 0,
    ;
}

} // verus!

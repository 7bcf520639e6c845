//! Fixed-point numbers with six decimal places.
//!
//! Every physical quantity of the simulation (lengths in fm, energies in GeV,
//! velocities, forces, time steps) is a [`Fixed`]: a signed count of
//! millionths. Arithmetic is exact up to truncation toward zero and saturates
//! at the ends of the 64-bit range instead of overflowing, so a quantity that
//! blows up numerically stays pinned at the largest magnitude and is caught by
//! the caller's range checks.

use vstd::prelude::*;

verus! {

/// Number of raw units in one whole unit.
pub const SCALE: i64 = 1_000_000;

/// A fixed-point number: `raw` millionths.
#[derive(Clone, Copy, Debug, PartialEq, Eq, PartialOrd, Ord, Hash, Structural)]
pub struct Fixed {
    pub raw: i64,
}

impl View for Fixed {
    type V = int;

    /// The number of millionths that the value stands for.
    open spec fn view(&self) -> int {
        self.raw as int
    }
}

/// `v` limited to the representable range.
pub open spec fn clamp(v: int) -> int {
    if v > i64::MAX as int {
        i64::MAX as int
    } else if v < i64::MIN as int {
        i64::MIN as int
    } else {
        v
    }
}

/// Quotient of `n` by `d` rounded toward zero (`d` not zero).
pub open spec fn trunc_div(n: int, d: int) -> int
    recommends
        d != 0,
{
    if n >= 0 && d > 0 {
        n / d
    } else if n >= 0 {
        -(n / (-d))
    } else if d > 0 {
        -((-n) / d)
    } else {
        (-n) / (-d)
    }
}

/// `r` is the integer square root of `n`: the largest `r` with `r * r <= n`.
pub open spec fn is_floor_sqrt(n: int, r: int) -> bool {
    &&& 0 <= r
    &&& r * r <= n
    &&& n < (r + 1) * (r + 1)
}

/// The integer square root of `n` (`n` not negative).
pub open spec fn floor_sqrt_of(n: int) -> int
    recommends
        n >= 0,
{
    choose|r: int| is_floor_sqrt(n, r)
}

/// The value with `v` millionths, limited to the representable range.
pub open spec fn fx(v: int) -> Fixed {
    Fixed { raw: clamp(v) as i64 }
}

impl Fixed {
    /// Sum, saturating.
    pub open spec fn plus(self, other: Fixed) -> Fixed {
        fx(self@ + other@)
    }

    /// Difference, saturating.
    pub open spec fn minus(self, other: Fixed) -> Fixed {
        fx(self@ - other@)
    }

    /// Negation, saturating (only the least value has no exact negation).
    pub open spec fn negated(self) -> Fixed {
        fx(-self@)
    }

    /// Product, rounded toward zero and saturating.
    pub open spec fn times(self, other: Fixed) -> Fixed {
        fx(trunc_div(self@ * other@, SCALE as int))
    }

    /// Quotient, rounded toward zero and saturating (`other` not zero).
    pub open spec fn over(self, other: Fixed) -> Fixed
        recommends
            other@ != 0,
    {
        fx(trunc_div(self@ * SCALE as int, other@))
    }

    /// Absolute value, saturating.
    pub open spec fn magnitude(self) -> Fixed {
        if self@ < 0 {
            self.negated()
        } else {
            self
        }
    }

    /// Square root, rounded down; zero for a negative value.
    pub open spec fn root(self) -> Fixed {
        if self@ < 0 {
            fx(0)
        } else {
            fx(floor_sqrt_of(self@ * SCALE as int))
        }
    }

    /// The value with the given number of millionths.
    pub fn from_raw(raw: i64) -> (r: Fixed)
        ensures
            r@ == raw,
    {
        Fixed { raw }
    }

    /// The whole number `n`, saturating.
    pub fn from_int(n: i64) -> (r: Fixed)
        ensures
            r == fx(n * SCALE as int),
    {
        let wide: i128 = (n as i128) * 1_000_000i128;
        Fixed { raw: narrow(wide) }
    }

    /// The whole number `n`, saturating.
    pub fn from_usize(n: usize) -> (r: Fixed)
        ensures
            r == fx(n * SCALE as int),
    {
        let wide: i128 = (n as i128) * 1_000_000i128;
        Fixed { raw: narrow(wide) }
    }

    /// Zero.
    pub fn zero() -> (r: Fixed)
        ensures
            r == fx(0),
    {
        Fixed { raw: 0 }
    }

    /// `self + other`, saturating.
    pub fn add(self, other: Fixed) -> (r: Fixed)
        ensures
            r == self.plus(other),
    {
        let wide: i128 = (self.raw as i128) + (other.raw as i128);
        Fixed { raw: narrow(wide) }
    }

    /// `self - other`, saturating.
    pub fn sub(self, other: Fixed) -> (r: Fixed)
        ensures
            r == self.minus(other),
    {
        let wide: i128 = (self.raw as i128) - (other.raw as i128);
        Fixed { raw: narrow(wide) }
    }

    /// `-self`, saturating.
    pub fn neg(self) -> (r: Fixed)
        ensures
            r == self.negated(),
    {
        let wide: i128 = -(self.raw as i128);
        Fixed { raw: narrow(wide) }
    }

    /// The absolute value, saturating.
    pub fn abs(self) -> (r: Fixed)
        ensures
            r == self.magnitude(),
    {
        if self.raw < 0 {
            self.neg()
        } else {
            self
        }
    }

    /// `self * other`, rounded toward zero and saturating.
    pub fn mul(self, other: Fixed) -> (r: Fixed)
        ensures
            r == self.times(other),
    {
        proof {
            lemma_product_bound(self.raw as int, other.raw as int);
        }
        let wide: i128 = (self.raw as i128) * (other.raw as i128);
        Fixed { raw: narrow(quotient(wide, 1_000_000i128)) }
    }

    /// `self / other`, rounded toward zero and saturating. The divisor must
    /// not be zero.
    pub fn div(self, other: Fixed) -> (r: Fixed)
        requires
            other@ != 0,
        ensures
            r == self.over(other),
    {
        let wide: i128 = (self.raw as i128) * 1_000_000i128;
        Fixed { raw: narrow(quotient(wide, other.raw as i128)) }
    }

    /// `self / other`, rounded toward zero and saturating, unless the divisor
    /// is zero.
    pub fn checked_div(self, other: Fixed) -> (r: Option<Fixed>)
        ensures
            other@ == 0 ==> r.is_none(),
            other@ != 0 ==> r == Some(self.over(other)),
    {
        if other.raw == 0 {
            None
        } else {
            Some(self.div(other))
        }
    }

    /// Square root rounded down; zero for a negative value.
    pub fn sqrt(self) -> (r: Fixed)
        ensures
            r == self.root(),
            self@ >= 0 ==> is_floor_sqrt(self@ * SCALE as int, r@),
    {
        if self.raw < 0 {
            return Fixed { raw: 0 };
        }
        let n: u128 = (self.raw as u128) * 1_000_000u128;
        let root: u128 = floor_sqrt(n);
        proof {
            // root * root <= n < 2^83, so root < 2^42.
            assert(root < 0x400_0000_0000u128) by (nonlinear_arith)
                requires
                    root * root <= n,
                    n < 0x8_0000_0000_0000_0000_0000u128,
            ;
        }
        proof {
            lemma_floor_sqrt_unique(n as int, root as int, floor_sqrt_of(n as int));
        }
        Fixed { raw: root as i64 }
    }
}

/// Every number that is not negative has an integer square root.
pub proof fn lemma_floor_sqrt_exists(n: int)
    requires
        n >= 0,
    ensures
        exists|r: int| is_floor_sqrt(n, r),
    decreases n,
{
    if n == 0 {
        assert(is_floor_sqrt(0, 0));
    } else {
        lemma_floor_sqrt_exists(n - 1);
        let r = floor_sqrt_of(n - 1);
        if n < (r + 1) * (r + 1) {
            assert(is_floor_sqrt(n, r));
        } else {
            assert(n < (r + 2) * (r + 2)) by (nonlinear_arith)
                requires
                    0 <= r,
                    n - 1 < (r + 1) * (r + 1),
            ;
            assert(is_floor_sqrt(n, r + 1));
        }
    }
}

/// A number has one integer square root only.
pub proof fn lemma_floor_sqrt_unique(n: int, r1: int, r2: int)
    requires
        is_floor_sqrt(n, r1),
        is_floor_sqrt(n, r2),
    ensures
        r1 == r2,
{
    assert(r1 == r2) by (nonlinear_arith)
        requires
            0 <= r1,
            0 <= r2,
            r1 * r1 <= n,
            n < (r1 + 1) * (r1 + 1),
            r2 * r2 <= n,
            n < (r2 + 1) * (r2 + 1),
    ;
}

/// `v` limited to 64 bits.
pub(crate) fn narrow(v: i128) -> (r: i64)
    ensures
        r == clamp(v as int),
{
    if v > i64::MAX as i128 {
        i64::MAX
    } else if v < i64::MIN as i128 {
        i64::MIN
    } else {
        v as i64
    }
}

/// Quotient rounded toward zero, computed on magnitudes.
pub(crate) fn quotient(n: i128, d: i128) -> (r: i128)
    requires
        d != 0,
        -0x4000_0000_0000_0000_0000_0000_0000_0000 <= n <= 0x4000_0000_0000_0000_0000_0000_0000_0000,
        -0x4000_0000_0000_0000_0000_0000_0000_0000 <= d <= 0x4000_0000_0000_0000_0000_0000_0000_0000,
    ensures
        r == trunc_div(n as int, d as int),
{
    let n_mag: u128 = if n < 0 { (-n) as u128 } else { n as u128 };
    let d_mag: u128 = if d < 0 { (-d) as u128 } else { d as u128 };
    let q: u128 = n_mag / d_mag;
    proof {
        assert(q <= n_mag) by (nonlinear_arith)
            requires
                q == n_mag / d_mag,
                d_mag > 0,
        ;
    }
    if (n < 0) == (d < 0) {
        q as i128
    } else {
        -(q as i128)
    }
}

/// Integer square root by bisection.
pub fn floor_sqrt(n: u128) -> (r: u128)
    ensures
        is_floor_sqrt(n as int, r as int),
        r < 0x1_0000_0000_0000_0000,
{
    let mut lo: u128 = 0;
    let mut hi: u128 = 0x1_0000_0000_0000_0000u128;
    assert(0x1_0000_0000_0000_0000int * 0x1_0000_0000_0000_0000int
        == 0x1_0000_0000_0000_0000_0000_0000_0000_0000int) by (nonlinear_arith);
    while hi - lo > 1
        invariant
            lo < hi <= 0x1_0000_0000_0000_0000u128,
            lo * lo <= n,
            n < hi * hi,
        decreases hi - lo,
    {
        let mid: u128 = lo + (hi - lo) / 2;
        proof {
            assert(mid * mid <= 0xffff_ffff_ffff_ffffint * 0xffff_ffff_ffff_ffffint) by (nonlinear_arith)
                requires
                    0 <= mid <= 0xffff_ffff_ffff_ffffint,
            ;
            assert(0xffff_ffff_ffff_ffffint * 0xffff_ffff_ffff_ffffint
                == 0xffff_ffff_ffff_fffe_0000_0000_0000_0001int) by (nonlinear_arith);
        }
        if mid * mid <= n {
            lo = mid;
        } else {
            hi = mid;
        }
    }
    lo
}

/// The product of two 64-bit values fits comfortably in 128 bits.
proof fn lemma_product_bound(a: int, b: int)
    requires
        i64::MIN <= a <= i64::MAX,
        i64::MIN <= b <= i64::MAX,
    ensures
        -0x4000_0000_0000_0000_0000_0000_0000_0000 <= a * b <= 0x4000_0000_0000_0000_0000_0000_0000_0000,
{
    assert(-0x4000_0000_0000_0000_0000_0000_0000_0000 <= a * b <= 0x4000_0000_0000_0000_0000_0000_0000_0000)
        by (nonlinear_arith)
        requires
            -0x8000_0000_0000_0000 <= a <= 0x8000_0000_0000_0000,
            -0x8000_0000_0000_0000 <= b <= 0x8000_0000_0000_0000,
    ;
}

/// A quotient rounded toward zero has the sign that its operands give it, or
/// is zero.
pub proof fn lemma_trunc_div_sign(n: int, d: int)
    requires
        d != 0,
    ensures
        (n >= 0 && d > 0) || (n <= 0 && d < 0) ==> trunc_div(n, d) >= 0,
        (n >= 0 && d < 0) || (n <= 0 && d > 0) ==> trunc_div(n, d) <= 0,
{
    if n >= 0 && d > 0 {
        vstd::arithmetic::div_mod::lemma_div_pos_is_pos(n, d);
    } else if n >= 0 {
        vstd::arithmetic::div_mod::lemma_div_pos_is_pos(n, -d);
    } else if d > 0 {
        vstd::arithmetic::div_mod::lemma_div_pos_is_pos(-n, d);
    } else {
        vstd::arithmetic::div_mod::lemma_div_pos_is_pos(-n, -d);
    }
}

/// Dividing a whole multiple of `s` by `s` is exact.
pub proof fn lemma_trunc_div_multiple(a: int, s: int)
    requires
        s > 0,
    ensures
        trunc_div(a * s, s) == a,
{
    if a >= 0 {
        assert(a * s >= 0) by (nonlinear_arith)
            requires
                a >= 0,
                s > 0,
        ;
        vstd::arithmetic::div_mod::lemma_div_by_multiple(a, s);
    } else {
        assert(a * s < 0 && -(a * s) == (-a) * s) by (nonlinear_arith)
            requires
                a < 0,
                s > 0,
        ;
        vstd::arithmetic::div_mod::lemma_div_by_multiple(-a, s);
    }
}

/// Scaling numerator and denominator alike leaves the quotient as it was.
pub proof fn lemma_trunc_div_scaled(a: int, b: int, s: int)
    requires
        a >= 0,
        b > 0,
        s > 0,
    ensures
        trunc_div(a * s, b * s) == a / b,
{
    assert(a * s >= 0 && b * s > 0 && b * s == s * b) by (nonlinear_arith)
        requires
            a >= 0,
            b > 0,
            s > 0,
    ;
    vstd::arithmetic::div_mod::lemma_div_denominator(a * s, s, b);
    vstd::arithmetic::div_mod::lemma_div_by_multiple(a, s);
}

impl Fixed {
    /// The sign of a product follows from the signs of its factors.
    pub proof fn lemma_times_sign(self, other: Fixed)
        ensures
            (self@ >= 0 && other@ >= 0) || (self@ <= 0 && other@ <= 0) ==> self.times(other)@ >= 0,
            (self@ >= 0 && other@ <= 0) || (self@ <= 0 && other@ >= 0) ==> self.times(other)@ <= 0,
    {
        let a = self@;
        let b = other@;
        assert(((a >= 0 && b >= 0) || (a <= 0 && b <= 0) ==> a * b >= 0) && ((a >= 0 && b <= 0) || (a
            <= 0 && b >= 0) ==> a * b <= 0)) by (nonlinear_arith);
        lemma_trunc_div_sign(a * b, SCALE as int);
    }

    /// The sign of a quotient follows from the signs of its operands.
    pub proof fn lemma_over_sign(self, other: Fixed)
        requires
            other@ != 0,
        ensures
            (self@ >= 0 && other@ > 0) || (self@ <= 0 && other@ < 0) ==> self.over(other)@ >= 0,
            (self@ >= 0 && other@ < 0) || (self@ <= 0 && other@ > 0) ==> self.over(other)@ <= 0,
    {
        lemma_trunc_div_sign(self@ * SCALE as int, other@);
    }
}

} // verus!

//! Decimal fixed-point numbers with nine fractional digits.
//!
//! A [`Fixed`] with raw value `r` stands for the real number `r / SCALE`.
//! Results are rounded toward zero and saturate at `±LIMIT`, which plays the
//! part of an infinity: no operation overflows, traps or fails.

use vstd::arithmetic::div_mod::lemma_div_is_ordered;
use vstd::arithmetic::div_mod::lemma_div_pos_is_pos;
use vstd::prelude::*;

verus! {

/// Raw units in one whole.
pub const SCALE: i64 = 1_000_000_000;

/// Largest raw magnitude that an operation returns.
pub const LIMIT: i64 = 9_223_372_036_854_775_807;

/// The nearest integer to `x` within `[-LIMIT, LIMIT]`.
pub open spec fn saturate(x: int) -> int {
    if x > LIMIT {
        LIMIT as int
    } else if x < -LIMIT {
        -(LIMIT as int)
    } else {
        x
    }
}

/// Absolute value of an integer.
pub open spec fn magnitude(x: int) -> int {
    if x < 0 {
        -x
    } else {
        x
    }
}

/// The quotient `x / d` rounded toward zero.
pub open spec fn trunc_div(x: int, d: int) -> int
    recommends
        d != 0,
{
    let q = magnitude(x) / magnitude(d);
    if (x < 0) != (d < 0) {
        -q
    } else {
        q
    }
}

/// `r` is the integer square root of `n`: the largest integer whose square
/// does not exceed `n`.
pub open spec fn is_int_sqrt(n: int, r: int) -> bool {
    0 <= r && r * r <= n && n < (r + 1) * (r + 1)
}

/// The integer square root of a non-negative `n`.
pub open spec fn int_sqrt(n: int) -> int
    recommends
        n >= 0,
{
    choose|r: int| is_int_sqrt(n, r)
}

/// Squaring is strictly monotone on the non-negative integers.
pub proof fn lemma_square_strictly_monotone(a: int, b: int)
    by (nonlinear_arith)
    requires
        0 <= a < b,
    ensures
        a * a < b * b,
        (a + 1) * (a + 1) <= b * b,
{
}

/// At most one integer is the integer square root of `n`.
pub proof fn lemma_int_sqrt_unique(n: int, r1: int, r2: int)
    requires
        is_int_sqrt(n, r1),
        is_int_sqrt(n, r2),
    ensures
        r1 == r2,
{
    if r1 < r2 {
        lemma_square_strictly_monotone(r1, r2);
    }
    if r2 < r1 {
        lemma_square_strictly_monotone(r2, r1);
    }
}

/// Every non-negative integer has an integer square root.
pub proof fn lemma_int_sqrt_exists(n: int)
    requires
        n >= 0,
    ensures
        is_int_sqrt(n, int_sqrt(n)),
    decreases n,
{
    if n == 0 {
        assert(is_int_sqrt(0, 0));
    } else {
        lemma_int_sqrt_exists(n - 1);
        let r = int_sqrt(n - 1);
        if (r + 1) * (r + 1) <= n {
            assert((r + 2) * (r + 2) > (r + 1) * (r + 1)) by (nonlinear_arith)
                requires
                    r >= 0,
            ;
            assert(is_int_sqrt(n, r + 1));
        } else {
            assert(is_int_sqrt(n, r));
        }
    }
}

/// Any integer that satisfies the defining bounds is the integer square root.
pub proof fn lemma_int_sqrt_is(n: int, r: int)
    requires
        is_int_sqrt(n, r),
    ensures
        int_sqrt(n) == r,
{
    lemma_int_sqrt_exists(n);
    lemma_int_sqrt_unique(n, r, int_sqrt(n));
}

/// The integer square root never decreases as its argument grows.
pub proof fn lemma_int_sqrt_monotone(a: int, b: int)
    requires
        0 <= a <= b,
    ensures
        int_sqrt(a) <= int_sqrt(b),
{
    lemma_int_sqrt_exists(a);
    lemma_int_sqrt_exists(b);
    let ra = int_sqrt(a);
    let rb = int_sqrt(b);
    if rb < ra {
        lemma_square_strictly_monotone(rb, ra);
    }
}

/// A signed decimal fixed-point number: `raw` counts billionths.
#[derive(Clone, Copy, Debug, PartialEq, Eq, Structural)]
pub struct Fixed {
    pub raw: i64,
}

/// Clamps a wide integer into the range of results.
pub(crate) fn saturate_wide(x: i128) -> (r: i64)
    ensures
        r == saturate(x as int),
{
    if x > LIMIT as i128 {
        LIMIT
    } else if x < -(LIMIT as i128) {
        -LIMIT
    } else {
        x as i64
    }
}

/// Divides with rounding toward zero, on magnitudes so that no signed
/// division is involved.
pub(crate) fn trunc_div_wide(x: i128, d: i128) -> (q: i128)
    requires
        d != 0,
        x > i128::MIN,
        d > i128::MIN,
    ensures
        q == trunc_div(x as int, d as int),
{
    let x_negative = x < 0;
    let d_negative = d < 0;
    let xm: u128 = if x_negative { (-x) as u128 } else { x as u128 };
    let dm: u128 = if d_negative { (-d) as u128 } else { d as u128 };
    let qm: u128 = xm / dm;
    if x_negative != d_negative {
        -(qm as i128)
    } else {
        qm as i128
    }
}

/// Integer square root by bisection.
fn int_sqrt_wide(n: u128) -> (r: u128)
    requires
        n < 0x4000_0000_0000_0000_0000_0000,
    ensures
        r == int_sqrt(n as int),
        r < 0x8000_0000_0000,
{
    let mut lo: u128 = 0;
    let mut hi: u128 = 0x8000_0000_0000;
    while hi - lo > 1
        invariant
            lo < hi <= 0x8000_0000_0000,
            lo * lo <= n,
            n < hi * hi,
        decreases hi - lo,
    {
        let mid: u128 = lo + (hi - lo) / 2;
        assert(mid * mid < 0x4000_0000_0000_0000_0000_0000) by (nonlinear_arith)
            requires
                mid < 0x8000_0000_0000,
        ;
        if mid * mid <= n {
            lo = mid;
        } else {
            hi = mid;
        }
    }
    proof {
        lemma_int_sqrt_is(n as int, lo as int);
    }
    lo
}

impl Fixed {
    /// The number that `raw` billionths stand for.
    pub fn from_raw(raw: i64) -> (r: Fixed)
        ensures
            r.raw == raw,
    {
        Fixed { raw }
    }

    /// What [`Self::from_int`] returns.
    pub open spec fn from_int_spec(n: i64) -> Fixed {
        Fixed { raw: saturate(n * SCALE) as i64 }
    }

    /// The whole number `n`, saturated.
    #[verifier::when_used_as_spec(from_int_spec)]
    pub fn from_int(n: i64) -> (r: Fixed)
        ensures
            r == Fixed::from_int_spec(n),
    {
        proof {
            lemma_product_fits(n as int, SCALE as int);
        }
        Fixed { raw: saturate_wide(n as i128 * SCALE as i128) }
    }

    /// What [`Self::zero`] returns.
    pub open spec fn zero_spec() -> Fixed {
        Fixed { raw: 0 }
    }

    /// The number zero.
    #[verifier::when_used_as_spec(zero_spec)]
    pub fn zero() -> (r: Fixed)
        ensures
            r == Fixed::zero_spec(),
    {
        Fixed { raw: 0 }
    }

    /// What [`Self::one`] returns.
    pub open spec fn one_spec() -> Fixed {
        Fixed { raw: SCALE }
    }

    /// The number one.
    #[verifier::when_used_as_spec(one_spec)]
    pub fn one() -> (r: Fixed)
        ensures
            r == Fixed::one_spec(),
    {
        Fixed { raw: SCALE }
    }

    /// What [`Self::infinity`] returns.
    pub open spec fn infinity_spec() -> Fixed {
        Fixed { raw: LIMIT }
    }

    /// The largest number, at which results saturate.
    #[verifier::when_used_as_spec(infinity_spec)]
    pub fn infinity() -> (r: Fixed)
        ensures
            r == Fixed::infinity_spec(),
    {
        Fixed { raw: LIMIT }
    }

    /// The sum, saturated.
    pub open spec fn plus(self, rhs: Fixed) -> Fixed {
        Fixed { raw: saturate(self.raw + rhs.raw) as i64 }
    }

    /// The difference, saturated.
    pub open spec fn minus(self, rhs: Fixed) -> Fixed {
        Fixed { raw: saturate(self.raw - rhs.raw) as i64 }
    }

    /// The negation, saturated.
    pub open spec fn negated(self) -> Fixed {
        Fixed { raw: saturate(-self.raw) as i64 }
    }

    /// The product, rounded toward zero and saturated.
    pub open spec fn times(self, rhs: Fixed) -> Fixed {
        Fixed { raw: saturate(trunc_div(self.raw * rhs.raw, SCALE as int)) as i64 }
    }

    /// The quotient, rounded toward zero and saturated. A quotient by zero is
    /// the infinity of the dividend's sign, and zero for zero over zero.
    pub open spec fn over(self, rhs: Fixed) -> Fixed {
        if rhs.raw == 0 {
            if self.raw > 0 {
                Fixed { raw: LIMIT }
            } else if self.raw < 0 {
                Fixed { raw: (-LIMIT) as i64 }
            } else {
                Fixed { raw: 0 }
            }
        } else {
            Fixed { raw: saturate(trunc_div(self.raw * SCALE, rhs.raw as int)) as i64 }
        }
    }

    /// What [`Self::abs`] returns.
    pub open spec fn abs_spec(self) -> Fixed {
        Fixed { raw: saturate(magnitude(self.raw as int)) as i64 }
    }

    /// Absolute value.
    #[verifier::when_used_as_spec(abs_spec)]
    pub fn abs(self) -> (r: Fixed)
        ensures
            r == self.abs_spec(),
    {
        if self.raw == i64::MIN {
            Fixed { raw: LIMIT }
        } else if self.raw < 0 {
            Fixed { raw: -self.raw }
        } else {
            self
        }
    }

    /// What [`Self::min`] returns.
    pub open spec fn min_spec(self, other: Fixed) -> Fixed {
        if other.raw < self.raw {
            other
        } else {
            self
        }
    }

    /// The smaller of two numbers.
    #[verifier::when_used_as_spec(min_spec)]
    pub fn min(self, other: Fixed) -> (r: Fixed)
        ensures
            r == self.min_spec(other),
    {
        if other.raw < self.raw {
            other
        } else {
            self
        }
    }

    /// What [`Self::max`] returns.
    pub open spec fn max_spec(self, other: Fixed) -> Fixed {
        if other.raw > self.raw {
            other
        } else {
            self
        }
    }

    /// The larger of two numbers.
    #[verifier::when_used_as_spec(max_spec)]
    pub fn max(self, other: Fixed) -> (r: Fixed)
        ensures
            r == self.max_spec(other),
    {
        if other.raw > self.raw {
            other
        } else {
            self
        }
    }

    /// What [`Self::clamp`] returns.
    pub open spec fn clamp_spec(self, low: Fixed, high: Fixed) -> Fixed {
        if self.raw < low.raw {
            low
        } else if self.raw > high.raw {
            high
        } else {
            self
        }
    }

    /// `self` moved into `[low, high]`.
    #[verifier::when_used_as_spec(clamp_spec)]
    pub fn clamp(self, low: Fixed, high: Fixed) -> (r: Fixed)
        requires
            low.raw <= high.raw,
        ensures
            r == self.clamp_spec(low, high),
            low.raw <= r.raw <= high.raw,
    {
        if self.raw < low.raw {
            low
        } else if self.raw > high.raw {
            high
        } else {
            self
        }
    }

    /// What [`Self::sqrt`] returns.
    pub open spec fn sqrt_spec(self) -> Fixed {
        if self.raw <= 0 {
            Fixed { raw: 0 }
        } else {
            Fixed { raw: int_sqrt(self.raw * SCALE) as i64 }
        }
    }

    /// Square root rounded down; zero for a negative number.
    #[verifier::when_used_as_spec(sqrt_spec)]
    pub fn sqrt(self) -> (r: Fixed)
        ensures
            r == self.sqrt_spec(),
            0 <= r.raw,
            r.raw == if self.raw <= 0 { 0 } else { int_sqrt(self.raw * SCALE) },
    {
        if self.raw <= 0 {
            Fixed { raw: 0 }
        } else {
            let n: u128 = self.raw as u128 * SCALE as u128;
            let r = int_sqrt_wide(n);
            Fixed { raw: r as i64 }
        }
    }

    /// What [`Self::powi`] returns.
    pub open spec fn powi_spec(self, n: u32) -> Fixed
        decreases n,
    {
        if n == 0 {
            Fixed::one()
        } else {
            self.powi_spec((n - 1) as u32).times(self)
        }
    }

    /// `self` raised to the power `n` by repeated multiplication.
    #[verifier::when_used_as_spec(powi_spec)]
    pub fn powi(self, n: u32) -> (r: Fixed)
        ensures
            r == self.powi_spec(n),
    {
        let mut acc = Fixed { raw: SCALE };
        let mut i: u32 = 0;
        while i < n
            invariant
                i <= n,
                acc == self.powi_spec(i),
            decreases n - i,
        {
            acc = acc * self;
            i = i + 1;
        }
        acc
    }
}

impl core::ops::Neg for Fixed {
    type Output = Fixed;

    fn neg(self) -> (r: Fixed) {
        if self.raw == i64::MIN {
            Fixed { raw: LIMIT }
        } else {
            Fixed { raw: -self.raw }
        }
    }
}

impl vstd::std_specs::ops::NegSpecImpl for Fixed {
    open spec fn obeys_neg_spec() -> bool {
        true
    }

    open spec fn neg_req(self) -> bool {
        true
    }

    open spec fn neg_spec(self) -> Fixed {
        self.negated()
    }
}

impl core::ops::Add for Fixed {
    type Output = Fixed;

    fn add(self, rhs: Fixed) -> (r: Fixed) {
        Fixed { raw: saturate_wide(self.raw as i128 + rhs.raw as i128) }
    }
}

impl vstd::std_specs::ops::AddSpecImpl for Fixed {
    open spec fn obeys_add_spec() -> bool {
        true
    }

    open spec fn add_req(self, rhs: Fixed) -> bool {
        true
    }

    open spec fn add_spec(self, rhs: Fixed) -> Fixed {
        self.plus(rhs)
    }
}

impl core::ops::Sub for Fixed {
    type Output = Fixed;

    fn sub(self, rhs: Fixed) -> (r: Fixed) {
        Fixed { raw: saturate_wide(self.raw as i128 - rhs.raw as i128) }
    }
}

impl vstd::std_specs::ops::SubSpecImpl for Fixed {
    open spec fn obeys_sub_spec() -> bool {
        true
    }

    open spec fn sub_req(self, rhs: Fixed) -> bool {
        true
    }

    open spec fn sub_spec(self, rhs: Fixed) -> Fixed {
        self.minus(rhs)
    }
}

/// The product of two 64-bit integers fits in 128 bits with room to spare.
proof fn lemma_product_fits(a: int, b: int)
    by (nonlinear_arith)
    requires
        -0x8000_0000_0000_0000 <= a < 0x8000_0000_0000_0000,
        -0x8000_0000_0000_0000 <= b < 0x8000_0000_0000_0000,
    ensures
        -0x4000_0000_0000_0000_0000_0000_0000_0000 <= a * b <= 0x4000_0000_0000_0000_0000_0000_0000_0000,
{
}

impl core::ops::Mul for Fixed {
    type Output = Fixed;

    fn mul(self, rhs: Fixed) -> (r: Fixed) {
        proof {
            lemma_product_fits(self.raw as int, rhs.raw as int);
        }
        let product: i128 = self.raw as i128 * rhs.raw as i128;
        Fixed { raw: saturate_wide(trunc_div_wide(product, SCALE as i128)) }
    }
}

impl vstd::std_specs::ops::MulSpecImpl for Fixed {
    open spec fn obeys_mul_spec() -> bool {
        true
    }

    open spec fn mul_req(self, rhs: Fixed) -> bool {
        true
    }

    open spec fn mul_spec(self, rhs: Fixed) -> Fixed {
        self.times(rhs)
    }
}

impl core::ops::Div for Fixed {
    type Output = Fixed;

    fn div(self, rhs: Fixed) -> (r: Fixed) {
        if rhs.raw == 0 {
            if self.raw > 0 {
                Fixed { raw: LIMIT }
            } else if self.raw < 0 {
                Fixed { raw: -LIMIT }
            } else {
                Fixed { raw: 0 }
            }
        } else {
            proof {
                lemma_product_fits(self.raw as int, SCALE as int);
            }
            let scaled: i128 = self.raw as i128 * SCALE as i128;
            Fixed { raw: saturate_wide(trunc_div_wide(scaled, rhs.raw as i128)) }
        }
    }
}

impl vstd::std_specs::ops::DivSpecImpl for Fixed {
    open spec fn obeys_div_spec() -> bool {
        true
    }

    open spec fn div_req(self, rhs: Fixed) -> bool {
        true
    }

    open spec fn div_spec(self, rhs: Fixed) -> Fixed {
        self.over(rhs)
    }
}

/// Rounding toward zero commutes with negation.
pub proof fn lemma_trunc_div_odd(x: int, d: int)
    requires
        d != 0,
    ensures
        trunc_div(-x, d) == -trunc_div(x, d),
{
}

/// The quotient rounded toward zero never decreases as the dividend grows.
pub proof fn lemma_trunc_div_monotone(a: int, b: int, d: int)
    requires
        a <= b,
        d > 0,
    ensures
        trunc_div(a, d) <= trunc_div(b, d),
        a >= 0 ==> trunc_div(a, d) >= 0,
        b <= 0 ==> trunc_div(b, d) <= 0,
{
    if a >= 0 {
        lemma_div_is_ordered(a, b, d);
        lemma_div_pos_is_pos(a, d);
    } else if b >= 0 {
        lemma_div_pos_is_pos(-a, d);
        lemma_div_pos_is_pos(b, d);
    } else {
        lemma_div_is_ordered(-b, -a, d);
        lemma_div_pos_is_pos(-b, d);
    }
}

impl Fixed {
    /// The product of non-negative numbers is non-negative and never
    /// decreases as either factor grows.
    pub proof fn lemma_times_monotone(a: Fixed, b: Fixed, c: Fixed, d: Fixed)
        requires
            0 <= a.raw <= b.raw,
            0 <= c.raw <= d.raw,
        ensures
            0 <= a.times(c).raw <= b.times(d).raw,
    {
        assert(0 <= a.raw * c.raw <= b.raw * d.raw) by (nonlinear_arith)
            requires
                0 <= a.raw <= b.raw,
                0 <= c.raw <= d.raw,
        ;
        lemma_trunc_div_monotone(a.raw * c.raw, b.raw * d.raw, SCALE as int);
    }

    /// A product with zero is zero.
    pub proof fn lemma_times_zero(a: Fixed)
        ensures
            a.times(Fixed::zero()) == Fixed::zero(),
            Fixed::zero().times(a) == Fixed::zero(),
    {
        assert(0 * a.raw == 0) by (nonlinear_arith);
    }

    /// Negating a factor negates the product.
    pub proof fn lemma_times_negated(a: Fixed, b: Fixed)
        requires
            b.raw > i64::MIN,
        ensures
            a.times(b.negated()) == a.times(b).negated(),
    {
        assert(a.raw * (-b.raw) == -(a.raw * b.raw)) by (nonlinear_arith);
        lemma_trunc_div_odd(a.raw * b.raw, SCALE as int);
    }

    /// The raw value of a square root.
    pub proof fn lemma_sqrt_raw(a: Fixed)
        ensures
            a.raw <= 0 ==> a.sqrt_spec().raw == 0,
            a.raw > 0 ==> a.sqrt_spec().raw == int_sqrt(a.raw * SCALE),
            0 <= a.sqrt_spec().raw < 0x8000_0000_0000,
    {
        if a.raw > 0 {
            let n = a.raw * SCALE;
            lemma_int_sqrt_exists(n);
            let r = int_sqrt(n);
            assert(r < 0x8000_0000_0000) by (nonlinear_arith)
                requires
                    0 <= r,
                    r * r <= n,
                    n < 0x4000_0000_0000_0000_0000_0000,
            ;
        }
    }

    /// The square root never decreases as its argument grows.
    pub proof fn lemma_sqrt_monotone(a: Fixed, b: Fixed)
        requires
            a.raw <= b.raw,
        ensures
            a.sqrt_spec().raw <= b.sqrt_spec().raw,
    {
        Fixed::lemma_sqrt_raw(a);
        Fixed::lemma_sqrt_raw(b);
        if a.raw > 0 {
            lemma_int_sqrt_monotone(a.raw * SCALE, b.raw * SCALE);
        }
    }

    /// The square root of a number that is at least one is at least one.
    pub proof fn lemma_sqrt_at_least_one(a: Fixed)
        requires
            a.raw >= SCALE,
        ensures
            a.sqrt_spec().raw >= SCALE,
    {
        Fixed::lemma_sqrt_raw(a);
        lemma_int_sqrt_is(SCALE * SCALE, SCALE as int);
        lemma_int_sqrt_monotone(SCALE * SCALE, a.raw * SCALE);
    }

    /// A power of a non-negative number is non-negative and never decreases
    /// as the number grows.
    pub proof fn lemma_powi_monotone(a: Fixed, b: Fixed, n: u32)
        requires
            0 <= a.raw <= b.raw,
        ensures
            0 <= a.powi_spec(n).raw <= b.powi_spec(n).raw,
        decreases n,
    {
        if n > 0 {
            Fixed::lemma_powi_monotone(a, b, (n - 1) as u32);
            Fixed::lemma_times_monotone(
                a.powi_spec((n - 1) as u32),
                b.powi_spec((n - 1) as u32),
                a,
                b,
            );
        }
    }

    /// A positive power of zero is zero.
    pub proof fn lemma_powi_zero(n: u32)
        requires
            n > 0,
        ensures
            Fixed::zero().powi_spec(n) == Fixed::zero(),
    {
        Fixed::lemma_times_zero(Fixed::zero().powi_spec((n - 1) as u32));
    }
}

} // verus!

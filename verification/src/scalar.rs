//! Saturating decimal fixed-point numbers.
//!
//! A [`Fixed`] stores a signed count of billionths: the number it stands for is
//! `raw / SCALE`. Every operation is total and deterministic. A result that does
//! not fit is clamped to the nearest representable number, and a product or a
//! quotient that falls between two representable numbers is rounded toward zero.
//! The contracts speak of the raw count, which is the view of a `Fixed`.

use vstd::prelude::*;

verus! {

/// Raw units in one whole.
pub const SCALE: i64 = 1_000_000_000;

/// The nearest raw count that fits, to an exact integer result.
pub open spec fn clamp(x: int) -> int {
    if x < i64::MIN {
        i64::MIN as int
    } else if x > i64::MAX {
        i64::MAX as int
    } else {
        x
    }
}

/// Quotient rounded toward zero. `d` is not zero.
pub open spec fn tdiv(n: int, d: int) -> int
    recommends
        d != 0,
{
    if n >= 0 {
        n / d
    } else {
        -((-n) / d)
    }
}

/// Integer square root: the largest `r` with `r * r <= n`, and 0 below 1.
pub open spec fn isqrt(n: int) -> int
    decreases n,
{
    if n <= 0 {
        0
    } else {
        let r = isqrt(n - 1);
        if (r + 1) * (r + 1) <= n {
            r + 1
        } else {
            r
        }
    }
}

/// `isqrt(n)` is the one root whose square is at most `n` and whose
/// successor's square is above it.
pub proof fn lemma_isqrt_bounds(n: int)
    requires
        n >= 0,
    ensures
        isqrt(n) >= 0,
        isqrt(n) * isqrt(n) <= n,
        n < (isqrt(n) + 1) * (isqrt(n) + 1),
    decreases n,
{
    if n > 0 {
        lemma_isqrt_bounds(n - 1);
        let r = isqrt(n - 1);
        assert((r + 1) * (r + 1) < (r + 2) * (r + 2)) by (nonlinear_arith)
            requires
                r >= 0,
        ;
    }
}

/// Any `r` between whose square and whose successor's square `n` lies is `isqrt(n)`.
pub proof fn lemma_isqrt_unique(n: int, r: int)
    requires
        r >= 0,
        r * r <= n,
        n < (r + 1) * (r + 1),
    ensures
        r == isqrt(n),
{
    lemma_isqrt_bounds(n);
    let s = isqrt(n);
    if r < s {
        assert((r + 1) * (r + 1) <= s * s) by (nonlinear_arith)
            requires
                0 <= r,
                r + 1 <= s,
        ;
    } else if s < r {
        assert((s + 1) * (s + 1) <= r * r) by (nonlinear_arith)
            requires
                0 <= s,
                s + 1 <= r,
        ;
    }
}

/// `tdiv` by a positive divisor never decreases in the dividend.
pub proof fn lemma_tdiv_monotonic(a: int, b: int, d: int)
    requires
        a <= b,
        d > 0,
    ensures
        tdiv(a, d) <= tdiv(b, d),
{
    if a >= 0 {
        vstd::arithmetic::div_mod::lemma_div_is_ordered(a, b, d);
    } else if b < 0 {
        vstd::arithmetic::div_mod::lemma_div_is_ordered(-b, -a, d);
    } else {
        vstd::arithmetic::div_mod::lemma_div_pos_is_pos(-a, d);
        vstd::arithmetic::div_mod::lemma_div_pos_is_pos(b, d);
    }
}

/// A quotient rounded toward zero is no larger in magnitude than its dividend.
pub proof fn lemma_tdiv_bounded(n: int, d: int)
    requires
        d != 0,
    ensures
        n >= 0 ==> -n <= tdiv(n, d) <= n,
        n <= 0 ==> n <= tdiv(n, d) <= -n,
{
    let m = if n >= 0 { n } else { -n };
    assert(-m <= m / d <= m) by (nonlinear_arith)
        requires
            m >= 0,
            d != 0,
    ;
}

/// Multiplying by 1, by -1 or by 0 is exact.
pub proof fn lemma_mul_unit(a: Fixed)
    ensures
        a.spec_mul(Fixed { raw: SCALE }) == a,
        (Fixed { raw: SCALE }).spec_mul(a) == a,
        a.spec_mul(Fixed { raw: -1_000_000_000i64 }) == a.spec_neg(),
        (Fixed { raw: -1_000_000_000i64 }).spec_mul(a) == a.spec_neg(),
        a.spec_mul(Fixed { raw: 0 }) == (Fixed { raw: 0 }),
        (Fixed { raw: 0 }).spec_mul(a) == (Fixed { raw: 0 }),
{
    let x = a.raw as int;
    assert(x * 1_000_000_000 == 1_000_000_000 * x);
    assert(x * (-1_000_000_000) == (-1_000_000_000) * x);
    assert(x * (-1_000_000_000) == -(x * 1_000_000_000));
    assert(x * 0 == 0 && 0 * x == 0);
    assert(tdiv(x * 1_000_000_000, 1_000_000_000) == x);
    assert(tdiv(x * (-1_000_000_000), 1_000_000_000) == -x);
}

/// Multiplying by 2 doubles, and clamps.
pub proof fn lemma_mul_two(a: Fixed)
    ensures
        Fixed::spec_from_int(2).spec_mul(a).raw == clamp(2 * a.raw),
{
    let x = a.raw as int;
    assert(Fixed::spec_from_int(2).raw == 2_000_000_000);
    assert(2_000_000_000 * x == (2 * x) * 1_000_000_000);
    assert(tdiv((2 * x) * 1_000_000_000, 1_000_000_000) == 2 * x);
}

/// A square root is not negative, and it is the root that `isqrt` names: the
/// root of a raw count always fits.
pub proof fn lemma_sqrt_range(a: Fixed)
    ensures
        a.spec_sqrt().raw == isqrt(a.raw * SCALE),
        0 <= a.spec_sqrt().raw < 0x8000_0000_0000,
        a.raw <= 0 ==> a.spec_sqrt().raw == 0,
{
    let n = a.raw * SCALE;
    if a.raw <= 0 {
        assert(n <= 0) by (nonlinear_arith)
            requires
                n == a.raw * SCALE,
                a.raw <= 0,
                SCALE > 0,
        ;
    } else {
        assert(0 <= n < 0x4000_0000_0000_0000_0000_0000) by (nonlinear_arith)
            requires
                n == a.raw * SCALE,
                0 < a.raw <= 0x7fff_ffff_ffff_ffff,
                SCALE == 1_000_000_000,
        ;
        lemma_isqrt_bounds(n);
        let r = isqrt(n);
        if r >= 0x8000_0000_0000 {
            assert(r * r >= 0x4000_0000_0000_0000_0000_0000) by (nonlinear_arith)
                requires
                    r >= 0x8000_0000_0000,
            ;
        }
    }
}

/// A fixed-point number: `raw` billionths.
#[derive(Clone, Copy, Debug, PartialEq, Eq, PartialOrd, Ord, Hash, Structural)]
pub struct Fixed {
    pub raw: i64,
}

impl View for Fixed {
    type V = int;

    open spec fn view(&self) -> int {
        self.raw as int
    }
}

/// The product of two raw counts, exactly.
pub fn wide_product(a: i64, b: i64) -> (p: i128)
    ensures
        p == a * b,
        -0x4000_0000_0000_0000_0000_0000_0000_0000 <= p <= 0x4000_0000_0000_0000_0000_0000_0000_0000,
{
    let x: i128 = a as i128;
    let y: i128 = b as i128;
    assert(-0x4000_0000_0000_0000_0000_0000_0000_0000 <= x * y
        <= 0x4000_0000_0000_0000_0000_0000_0000_0000) by (nonlinear_arith)
        requires
            -0x8000_0000_0000_0000 <= x <= 0x7fff_ffff_ffff_ffff,
            -0x8000_0000_0000_0000 <= y <= 0x7fff_ffff_ffff_ffff,
    ;
    x * y
}

/// The nearest `Fixed` to an exact raw count.
pub fn saturate(x: i128) -> (r: Fixed)
    ensures
        r@ == clamp(x as int),
{
    if x < i64::MIN as i128 {
        Fixed { raw: i64::MIN }
    } else if x > i64::MAX as i128 {
        Fixed { raw: i64::MAX }
    } else {
        Fixed { raw: x as i64 }
    }
}

/// The integer square root of `n`.
pub fn isqrt_u128(n: u128) -> (r: u128)
    ensures
        r == isqrt(n as int),
        r <= 0xffff_ffff_ffff_ffff,
{
    let mut lo: u128 = 0;
    let mut hi: u128 = 0x1_0000_0000_0000_0000;
    assert(0x1_0000_0000_0000_0000int * 0x1_0000_0000_0000_0000int
        == 0x1_0000_0000_0000_0000_0000_0000_0000_0000int) by (nonlinear_arith);
    while hi - lo > 1
        invariant
            lo < hi <= 0x1_0000_0000_0000_0000,
            (lo as int) * (lo as int) <= n < (hi as int) * (hi as int),
        decreases hi - lo,
    {
        let mid: u128 = lo + (hi - lo) / 2;
        assert((mid as int) * (mid as int) < 0x1_0000_0000_0000_0000_0000_0000_0000_0000int)
            by (nonlinear_arith)
            requires
                0 <= mid < 0x1_0000_0000_0000_0000,
        ;
        if mid * mid <= n {
            lo = mid;
        } else {
            hi = mid;
        }
    }
    proof {
        lemma_isqrt_unique(n as int, lo as int);
    }
    lo
}

impl Fixed {
    /// 0.
    pub open spec fn spec_zero() -> Fixed {
        Fixed { raw: 0 }
    }

    /// 1.
    pub open spec fn spec_one() -> Fixed {
        Fixed { raw: SCALE }
    }

    /// The largest number, which also stands for "no upper bound".
    pub open spec fn spec_max_value() -> Fixed {
        Fixed { raw: i64::MAX }
    }

    /// The whole number `n`.
    pub open spec fn spec_from_int(n: i32) -> Fixed {
        Fixed { raw: (n * SCALE) as i64 }
    }

    /// The count `n`.
    pub open spec fn spec_from_count(n: u32) -> Fixed {
        Fixed { raw: (n * SCALE) as i64 }
    }

    /// `num / den`, rounded toward zero and clamped. `den` is not zero.
    pub open spec fn spec_from_ratio(num: i64, den: i64) -> Fixed
        recommends
            den != 0,
    {
        Fixed { raw: clamp(tdiv(num * SCALE, den as int)) as i64 }
    }

    /// Clamped sum.
    pub open spec fn spec_add(self, rhs: Fixed) -> Fixed {
        Fixed { raw: clamp(self.raw + rhs.raw) as i64 }
    }

    /// Clamped difference.
    pub open spec fn spec_sub(self, rhs: Fixed) -> Fixed {
        Fixed { raw: clamp(self.raw - rhs.raw) as i64 }
    }

    /// Clamped negation.
    pub open spec fn spec_neg(self) -> Fixed {
        Fixed { raw: clamp(-self.raw) as i64 }
    }

    /// Clamped magnitude.
    pub open spec fn spec_abs(self) -> Fixed {
        if self.raw < 0 {
            self.spec_neg()
        } else {
            self
        }
    }

    /// Product, rounded toward zero and clamped.
    pub open spec fn spec_mul(self, rhs: Fixed) -> Fixed {
        Fixed { raw: clamp(tdiv(self.raw * rhs.raw, SCALE as int)) as i64 }
    }

    /// Quotient, rounded toward zero and clamped. `rhs` is not zero.
    pub open spec fn spec_div(self, rhs: Fixed) -> Fixed
        recommends
            rhs.raw != 0,
    {
        Fixed { raw: clamp(tdiv(self.raw * SCALE, rhs.raw as int)) as i64 }
    }

    /// Square root, rounded down; 0 for a number that is not positive.
    pub open spec fn spec_sqrt(self) -> Fixed {
        Fixed { raw: isqrt(self.raw * SCALE) as i64 }
    }

    /// The smaller of two numbers.
    pub open spec fn spec_min(self, rhs: Fixed) -> Fixed {
        if rhs.raw < self.raw {
            rhs
        } else {
            self
        }
    }

    /// The `Fixed` with the given raw count.
    pub fn from_raw(raw: i64) -> (r: Fixed)
        ensures
            r.raw == raw,
    {
        Fixed { raw }
    }

    /// The raw count.
    pub fn raw(&self) -> (r: i64)
        ensures
            r == self.raw,
    {
        self.raw
    }

    pub fn zero() -> (r: Fixed)
        ensures
            r == Fixed::spec_zero(),
    {
        Fixed { raw: 0 }
    }

    pub fn one() -> (r: Fixed)
        ensures
            r == Fixed::spec_one(),
    {
        Fixed { raw: SCALE }
    }

    pub fn max_value() -> (r: Fixed)
        ensures
            r == Fixed::spec_max_value(),
    {
        Fixed { raw: i64::MAX }
    }

/// The whole number `n`.
    pub fn from_int(n: i32) -> (r: Fixed)
        ensures
            r == Fixed::spec_from_int(n),
            r@ == n * SCALE,
    {
        let wide: i64 = n as i64;
        Fixed { raw: wide * SCALE }
    }

/// The count `n`.
    pub fn from_count(n: u32) -> (r: Fixed)
        ensures
            r == Fixed::spec_from_count(n),
            r@ == n * SCALE,
    {
        let wide: i64 = n as i64;
        Fixed { raw: wide * SCALE }
    }

/// `num / den`, rounded toward zero and clamped.
    pub fn from_ratio(num: i64, den: i64) -> (r: Fixed)
        requires
            den != 0,
        ensures
            r == Fixed::spec_from_ratio(num, den),
    {
        let n: i128 = wide_product(num, SCALE);
        let d: i128 = den as i128;
        proof {
            lemma_tdiv_bounded(n as int, d as int);
        }
        saturate(n / d)
    }

/// Clamped sum.
    pub fn add(self, rhs: Fixed) -> (r: Fixed)
        ensures
            r == self.spec_add(rhs),
    {
        let sum: i128 = self.raw as i128 + rhs.raw as i128;
        saturate(sum)
    }

/// Clamped difference.
    pub fn sub(self, rhs: Fixed) -> (r: Fixed)
        ensures
            r == self.spec_sub(rhs),
    {
        let difference: i128 = self.raw as i128 - rhs.raw as i128;
        saturate(difference)
    }

/// Clamped negation.
    pub fn neg(self) -> (r: Fixed)
        ensures
            r == self.spec_neg(),
    {
        let negated: i128 = -(self.raw as i128);
        saturate(negated)
    }

/// Clamped magnitude.
    pub fn abs(self) -> (r: Fixed)
        ensures
            r == self.spec_abs(),
    {
        if self.raw < 0 {
            self.neg()
        } else {
            self
        }
    }

/// Product, rounded toward zero and clamped.
    pub fn mul(self, rhs: Fixed) -> (r: Fixed)
        ensures
            r == self.spec_mul(rhs),
    {
        let product: i128 = wide_product(self.raw, rhs.raw);
        let scale: i128 = SCALE as i128;
        saturate(product / scale)
    }

/// Quotient, rounded toward zero and clamped.
    pub fn div(self, rhs: Fixed) -> (r: Fixed)
        requires
            rhs.raw != 0,
        ensures
            r == self.spec_div(rhs),
    {
        let scaled: i128 = wide_product(self.raw, SCALE);
        let d: i128 = rhs.raw as i128;
        proof {
            lemma_tdiv_bounded(scaled as int, d as int);
        }
        saturate(scaled / d)
    }

/// Square root, rounded down; 0 for a number that is not positive.
    pub fn sqrt(self) -> (r: Fixed)
        ensures
            r == self.spec_sqrt(),
    {
        if self.raw <= 0 {
            assert(self.raw * SCALE <= 0) by (nonlinear_arith)
                requires
                    self.raw <= 0,
                    SCALE > 0,
            ;
            Fixed { raw: 0 }
        } else {
            let scaled: i128 = wide_product(self.raw, SCALE);
            assert(0 <= scaled < 0x4000_0000_0000_0000_0000_0000) by (nonlinear_arith)
                requires
                    scaled == self.raw * SCALE,
                    0 < self.raw <= 0x7fff_ffff_ffff_ffff,
                    SCALE == 1_000_000_000,
            ;
            let root: u128 = isqrt_u128(scaled as u128);
            proof {
                lemma_sqrt_range(self);
            }
            Fixed { raw: root as i64 }
        }
    }

/// The smaller of two numbers.
    pub fn min(self, rhs: Fixed) -> (r: Fixed)
        ensures
            r == self.spec_min(rhs),
    {
        if rhs.raw < self.raw {
            rhs
        } else {
            self
        }
    }
}

impl core::ops::Add for Fixed {
    type Output = Fixed;

    fn add(self, rhs: Fixed) -> (r: Fixed) {
        Fixed::add(self, rhs)
    }
}

impl vstd::std_specs::ops::AddSpecImpl for Fixed {
    open spec fn obeys_add_spec() -> bool {
        true
    }

    open spec fn add_req(self, rhs: Fixed) -> bool {
        true
    }

    open spec fn add_spec(self, rhs: Fixed) -> Fixed {
        self.spec_add(rhs)
    }
}

impl core::ops::Sub for Fixed {
    type Output = Fixed;

    fn sub(self, rhs: Fixed) -> (r: Fixed) {
        Fixed::sub(self, rhs)
    }
}

impl vstd::std_specs::ops::SubSpecImpl for Fixed {
    open spec fn obeys_sub_spec() -> bool {
        true
    }

    open spec fn sub_req(self, rhs: Fixed) -> bool {
        true
    }

    open spec fn sub_spec(self, rhs: Fixed) -> Fixed {
        self.spec_sub(rhs)
    }
}

impl core::ops::Mul for Fixed {
    type Output = Fixed;

    fn mul(self, rhs: Fixed) -> (r: Fixed) {
        Fixed::mul(self, rhs)
    }
}

impl vstd::std_specs::ops::MulSpecImpl for Fixed {
    open spec fn obeys_mul_spec() -> bool {
        true
    }

    open spec fn mul_req(self, rhs: Fixed) -> bool {
        true
    }

    open spec fn mul_spec(self, rhs: Fixed) -> Fixed {
        self.spec_mul(rhs)
    }
}

impl core::ops::Div for Fixed {
    type Output = Fixed;

    fn div(self, rhs: Fixed) -> (r: Fixed) {
        Fixed::div(self, rhs)
    }
}

impl vstd::std_specs::ops::DivSpecImpl for Fixed {
    open spec fn obeys_div_spec() -> bool {
        true
    }

    open spec fn div_req(self, rhs: Fixed) -> bool {
        rhs.raw != 0
    }

    open spec fn div_spec(self, rhs: Fixed) -> Fixed {
        self.spec_div(rhs)
    }
}

impl core::ops::Neg for Fixed {
    type Output = Fixed;

    fn neg(self) -> (r: Fixed) {
        Fixed::neg(self)
    }
}

impl vstd::std_specs::ops::NegSpecImpl for Fixed {
    open spec fn obeys_neg_spec() -> bool {
        true
    }

    open spec fn neg_req(self) -> bool {
        true
    }

    open spec fn neg_spec(self) -> Fixed {
        self.spec_neg()
    }
}

} // verus!

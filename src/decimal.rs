//! Exact fixed-point decimal numbers.
//!
//! A `Dec` holds the same two parts as a `rust_decimal::Decimal`: a signed
//! mantissa of at most 96 bits and a scale of at most 28 decimal places.
//! Every such value is an integer number of `10^-28` steps, which is what
//! `units` gives: contracts compare values through it.
//!
//! All arithmetic is rust_decimal's. Where the exact sum of two values fits
//! the mantissa at the larger of their scales, rust_decimal's sum is that
//! exact sum; the contracts say so, and name what it gives otherwise.
use vstd::prelude::*;
use std::str::FromStr;
use rust_decimal::Decimal;

verus! {

/// The largest scale (number of decimal places) of a value.
pub const MAX_SCALE: u32 = 28;

/// One above the largest magnitude of a mantissa (`2^96`).
pub const MANTISSA_BOUND: i128 = 79228162514264337593543950336;

pub open spec fn pow10(n: nat) -> int
    decreases n,
{
    if n == 0 {
        1
    } else {
        10 * pow10((n - 1) as nat)
    }
}

pub proof fn lemma_pow10_positive(n: nat)
    ensures
        pow10(n) >= 1,
    decreases n,
{
    if n > 0 {
        lemma_pow10_positive((n - 1) as nat);
    }
}

pub proof fn lemma_pow10_add(a: nat, b: nat)
    ensures
        pow10(a + b) == pow10(a) * pow10(b),
    decreases a,
{
    if a > 0 {
        lemma_pow10_add((a - 1) as nat, b);
        assert(pow10(a + b) == 10 * pow10((a - 1 + b) as nat));
        assert(pow10(a) * pow10(b) == 10 * (pow10((a - 1) as nat) * pow10(b))) by (nonlinear_arith)
            requires pow10(a) == 10 * pow10((a - 1) as nat);
    }
}

pub proof fn lemma_pow10_monotone(a: nat, b: nat)
    requires
        a <= b,
    ensures
        pow10(a) <= pow10(b),
    decreases b,
{
    if a < b {
        lemma_pow10_monotone(a, (b - 1) as nat);
        lemma_pow10_positive((b - 1) as nat);
    }
}

/// A decimal number `mantissa * 10^-scale`.
#[derive(Clone, Copy, Debug)]
pub struct Dec {
    pub mantissa: i128,
    pub scale: u32,
}

pub open spec fn min_i(a: int, b: int) -> int {
    if a <= b { a } else { b }
}

pub open spec fn abs_i(a: int) -> int {
    if a < 0 { -a } else { a }
}

impl Dec {
    /// The parts are those of a rust_decimal value.
    pub open spec fn wf(self) -> bool {
        -MANTISSA_BOUND < self.mantissa < MANTISSA_BOUND && self.scale <= MAX_SCALE
    }

    /// The value in steps of `10^-28`.
    pub open spec fn units(self) -> int {
        self.mantissa * pow10((MAX_SCALE - self.scale) as nat)
    }

    pub open spec fn spec_zero() -> Dec {
        Dec { mantissa: 0, scale: 0 }
    }

    pub open spec fn spec_neg(self) -> Dec {
        Dec { mantissa: (-self.mantissa) as i128, scale: self.scale }
    }

    pub open spec fn spec_abs(self) -> Dec {
        Dec { mantissa: abs_i(self.mantissa as int) as i128, scale: self.scale }
    }

    /// Whole units of `|self|`, rounded down.
    pub open spec fn floor_abs(self) -> int {
        abs_i(self.mantissa as int) / pow10(self.scale as nat)
    }

    /// Whether the value is a whole number.
    pub open spec fn is_whole(self) -> bool {
        self.units() % pow10(MAX_SCALE as nat) == 0
    }
}

/// The exact sum of two values where it fits: an operand that is zero gives
/// the other back; otherwise the sum at the larger of the two scales, where
/// its mantissa fits.
pub open spec fn exact_sum(a: Dec, b: Dec) -> Option<Dec> {
    let s = if a.scale >= b.scale { a.scale } else { b.scale };
    let m = a.mantissa * pow10((s - a.scale) as nat) + b.mantissa * pow10((s - b.scale) as nat);
    if a.mantissa == 0 {
        Some(b)
    } else if b.mantissa == 0 {
        Some(a)
    } else if -MANTISSA_BOUND < m < MANTISSA_BOUND {
        Some(Dec { mantissa: m as i128, scale: s })
    } else {
        None
    }
}

/// What rust_decimal's `checked_add` gives for two values.
pub uninterp spec fn decimal_sum(a: Dec, b: Dec) -> Option<Dec>;

/// What rust_decimal's `checked_sub` gives for two values.
pub uninterp spec fn decimal_difference(a: Dec, b: Dec) -> Option<Dec>;

/// The sum as rust_decimal computes it: the exact sum where that fits.
pub open spec fn sum_of(a: Dec, b: Dec) -> Option<Dec> {
    if exact_sum(a, b) is Some {
        exact_sum(a, b)
    } else {
        decimal_sum(a, b)
    }
}

/// The difference as rust_decimal computes it: the exact difference where
/// that fits.
pub open spec fn difference_of(a: Dec, b: Dec) -> Option<Dec> {
    if exact_sum(a, b.spec_neg()) is Some {
        exact_sum(a, b.spec_neg())
    } else {
        decimal_difference(a, b)
    }
}

pub proof fn lemma_units_of_scaled(m: int, s: nat, k: nat)
    requires
        s + k <= MAX_SCALE,
    ensures
        (m * pow10(k)) * pow10((MAX_SCALE - s - k) as nat) == m * pow10((MAX_SCALE - s) as nat),
{
    lemma_pow10_add(k, (MAX_SCALE - s - k) as nat);
    assert((m * pow10(k)) * pow10((MAX_SCALE - s - k) as nat) == m * (pow10(k) * pow10(
        (MAX_SCALE - s - k) as nat,
    ))) by (nonlinear_arith);
}

/// An exact sum is a value of the type, and is the sum of the values.
pub proof fn lemma_sum_units(a: Dec, b: Dec)
    requires
        a.wf(),
        b.wf(),
    ensures
        exact_sum(a, b) matches Some(c) ==> c.wf() && c.units() == a.units() + b.units(),
{
    lemma_units_sign(a);
    lemma_units_sign(b);
    let s = if a.scale >= b.scale { a.scale } else { b.scale };
    lemma_units_of_scaled(a.mantissa as int, a.scale as nat, (s - a.scale) as nat);
    lemma_units_of_scaled(b.mantissa as int, b.scale as nat, (s - b.scale) as nat);
    let ma = a.mantissa * pow10((s - a.scale) as nat);
    let mb = b.mantissa * pow10((s - b.scale) as nat);
    let p = pow10((MAX_SCALE - s) as nat);
    assert((ma + mb) * p == ma * p + mb * p) by (nonlinear_arith);
}

pub proof fn lemma_units_sign(d: Dec)
    ensures
        (d.units() < 0) == (d.mantissa < 0),
        (d.units() == 0) == (d.mantissa == 0),
        (d.units() > 0) == (d.mantissa > 0),
        d.wf() ==> d.spec_abs().units() == abs_i(d.units()),
        d.wf() ==> d.spec_neg().units() == -d.units(),
{
    let p = pow10((MAX_SCALE - d.scale) as nat);
    lemma_pow10_positive((MAX_SCALE - d.scale) as nat);
    assert((d.mantissa < 0) ==> d.mantissa * p < 0) by (nonlinear_arith)
        requires p >= 1;
    assert((d.mantissa > 0) ==> d.mantissa * p > 0) by (nonlinear_arith)
        requires p >= 1;
    assert((-d.mantissa) * p == -(d.mantissa * p)) by (nonlinear_arith);
}

pub proof fn lemma_pow10_28()
    ensures
        pow10(MAX_SCALE as nat) == 10000000000000000000000000000,
{
    reveal_with_fuel(pow10, 29);
}

/// `10^n` for a scale difference.
fn pow10_i128(n: u32) -> (r: i128)
    requires
        n <= MAX_SCALE,
    ensures
        r as int == pow10(n as nat),
        r >= 1,
{
    let mut r: i128 = 1;
    let mut i: u32 = 0;
    while i < n
        invariant
            i <= n <= MAX_SCALE,
            r as int == pow10(i as nat),
            1 <= r <= 10000000000000000000000000000,
        decreases n - i,
    {
        proof {
            lemma_pow10_monotone((i + 1) as nat, MAX_SCALE as nat);
            lemma_pow10_28();
        }
        r = r * 10;
        i = i + 1;
    }
    r
}

impl Dec {
    pub fn zero() -> (r: Dec)
        ensures
            r == Dec::spec_zero(),
            r.wf(),
            r.units() == 0,
    {
        Dec { mantissa: 0, scale: 0 }
    }

    /// The value `mantissa * 10^-scale`, where those parts are in range.
    pub fn from_parts(mantissa: i128, scale: u32) -> (r: Option<Dec>)
        ensures
            r == (if (Dec { mantissa, scale }).wf() {
                Some(Dec { mantissa, scale })
            } else {
                None
            }),
    {
        if -MANTISSA_BOUND < mantissa && mantissa < MANTISSA_BOUND && scale <= MAX_SCALE {
            Some(Dec { mantissa, scale })
        } else {
            None
        }
    }

    pub fn is_zero(&self) -> (r: bool)
        ensures
            r == (self.units() == 0),
    {
        proof { lemma_units_sign(*self); }
        self.mantissa == 0
    }

    pub fn is_negative(&self) -> (r: bool)
        ensures
            r == (self.units() < 0),
    {
        proof { lemma_units_sign(*self); }
        self.mantissa < 0
    }

    pub fn is_positive(&self) -> (r: bool)
        ensures
            r == (self.units() > 0),
    {
        proof { lemma_units_sign(*self); }
        self.mantissa > 0
    }

    /// Whether two values are equal, whatever their scales.
    pub fn same_value(&self, other: &Dec) -> (r: bool)
        requires
            self.wf(),
            other.wf(),
        ensures
            r == (self.units() == other.units()),
    {
        decimal_eq(*self, *other)
    }

    pub fn neg(self) -> (r: Dec)
        requires
            self.wf(),
        ensures
            r == self.spec_neg(),
            r.wf(),
            r.units() == -self.units(),
    {
        proof { lemma_units_sign(self); }
        Dec { mantissa: -self.mantissa, scale: self.scale }
    }

    pub fn abs(self) -> (r: Dec)
        requires
            self.wf(),
        ensures
            r == self.spec_abs(),
            r.wf(),
            r.units() == abs_i(self.units()),
    {
        proof { lemma_units_sign(self); }
        if self.mantissa < 0 {
            Dec { mantissa: -self.mantissa, scale: self.scale }
        } else {
            self
        }
    }

    /// The sum `self + other` as rust_decimal computes it; `None` where it
    /// overflows.
    pub fn checked_add(self, other: Dec) -> (r: Option<Dec>)
        requires
            self.wf(),
            other.wf(),
        ensures
            r == sum_of(self, other),
            r matches Some(c) ==> c.wf(),
            exact_sum(self, other) is Some ==> (r matches Some(c) && c.units() == self.units() + other.units()),
    {
        proof { lemma_sum_units(self, other); }
        decimal_add(self, other)
    }

    /// The difference `self - other` as rust_decimal computes it; `None`
    /// where it overflows.
    pub fn checked_sub(self, other: Dec) -> (r: Option<Dec>)
        requires
            self.wf(),
            other.wf(),
        ensures
            r == difference_of(self, other),
            r matches Some(c) ==> c.wf(),
            exact_sum(self, other.spec_neg()) is Some ==> (r matches Some(c) && c.units() == self.units() - other.units()),
    {
        proof {
            lemma_units_sign(other);
            lemma_sum_units(self, other.spec_neg());
        }
        decimal_sub(self, other)
    }

    /// Whole units of `|self|`, rounded down, where they fit in an `i64`.
    pub fn floor_abs_i64(&self) -> (r: Option<i64>)
        requires
            self.wf(),
        ensures
            r == (if self.floor_abs() <= i64::MAX {
                Some(self.floor_abs() as i64)
            } else {
                None
            }),
    {
        let p = pow10_i128(self.scale);
        let m = if self.mantissa < 0 { -self.mantissa } else { self.mantissa };
        let f = m / p;
        if f <= i64::MAX as i128 {
            Some(f as i64)
        } else {
            None
        }
    }
}

/// What rust_decimal's `checked_div` gives for two values.
pub uninterp spec fn decimal_quotient(a: Dec, b: Dec) -> Option<Dec>;

/// What rust_decimal's `checked_mul` gives for two values.
pub uninterp spec fn decimal_product(a: Dec, b: Dec) -> Option<Dec>;


/// What rust_decimal's `FromStr` gives for a text.
pub uninterp spec fn decimal_parsed(s: Seq<char>) -> Option<Dec>;

/// The quotient where rust_decimal computes it without remainder: zero for
/// a zero dividend; `m1 / m2` at scale `s1 - s2` where the divisor's mantissa
/// divides the dividend's and `s1 >= s2`.
pub open spec fn exact_quotient(a: Dec, b: Dec) -> Option<Dec> {
    if b.mantissa == 0 {
        None
    } else if a.mantissa == 0 {
        Some(Dec::spec_zero())
    } else if a.scale >= b.scale && a.mantissa % b.mantissa == 0 {
        Some(Dec { mantissa: (a.mantissa / b.mantissa) as i128, scale: (a.scale - b.scale) as u32 })
    } else {
        None
    }
}

/// The quotient: none for a zero divisor, the exact one where it applies,
/// else rust_decimal's.
pub open spec fn quotient_of(a: Dec, b: Dec) -> Option<Dec> {
    if b.mantissa == 0 {
        None
    } else if exact_quotient(a, b) is Some {
        exact_quotient(a, b)
    } else {
        decimal_quotient(a, b)
    }
}

/// The exact product where it fits: zero where an operand is zero; otherwise
/// `m1 * m2` at scale `s1 + s2`, where that scale is at most 28 and the
/// mantissa fits.
pub open spec fn exact_product(a: Dec, b: Dec) -> Option<Dec> {
    if a.mantissa == 0 || b.mantissa == 0 {
        Some(Dec::spec_zero())
    } else if a.scale + b.scale <= MAX_SCALE && -MANTISSA_BOUND < a.mantissa * b.mantissa < MANTISSA_BOUND {
        Some(Dec { mantissa: (a.mantissa * b.mantissa) as i128, scale: (a.scale + b.scale) as u32 })
    } else {
        None
    }
}

/// The product: the exact one where it fits, else rust_decimal's.
pub open spec fn product_of(a: Dec, b: Dec) -> Option<Dec> {
    if exact_product(a, b) is Some {
        exact_product(a, b)
    } else {
        decimal_product(a, b)
    }
}

/// Rounding to `dp` places, half to even: a value with at most `dp` places
/// stays as it is; otherwise the magnitude of the mantissa is divided by
/// `10^(scale - dp)`, rounded up where the remainder is above half, or is
/// half and the quotient odd, and the sign kept.
pub open spec fn rounded_of(d: Dec, dp: u32) -> Dec {
    if d.scale <= dp {
        d
    } else {
        let p = pow10((d.scale - dp) as nat);
        let mag = abs_i(d.mantissa as int);
        let q = mag / p;
        let rem = mag % p;
        let q2 = if 2 * rem > p || (2 * rem == p && q % 2 == 1) { q + 1 } else { q };
        Dec { mantissa: (if d.mantissa < 0 { -q2 } else { q2 }) as i128, scale: dp }
    }
}

/// Relies on `Decimal::checked_add`: where the exact sum fits (see
/// `exact_sum`), that sum at that scale, an operand that is zero giving the
/// other back; otherwise a rounded sum, or `None` where it overflows.
#[verifier::external_body]
fn decimal_add(a: Dec, b: Dec) -> (r: Option<Dec>)
    requires
        a.wf(),
        b.wf(),
    ensures
        exact_sum(a, b) is Some ==> r == exact_sum(a, b),
        exact_sum(a, b) is None ==> r == decimal_sum(a, b),
        r matches Some(c) ==> c.wf(),
{
    let x = Decimal::from_i128_with_scale(a.mantissa, a.scale);
    let y = Decimal::from_i128_with_scale(b.mantissa, b.scale);
    x.checked_add(y).map(|d| Dec { mantissa: d.mantissa(), scale: d.scale() })
}

/// Relies on `Decimal::checked_sub`, which adds the negated operand: where
/// the exact difference fits, that difference (see `exact_sum`); otherwise a
/// rounded difference, or `None` where it overflows.
#[verifier::external_body]
fn decimal_sub(a: Dec, b: Dec) -> (r: Option<Dec>)
    requires
        a.wf(),
        b.wf(),
    ensures
        exact_sum(a, b.spec_neg()) is Some ==> r == exact_sum(a, b.spec_neg()),
        exact_sum(a, b.spec_neg()) is None ==> r == decimal_difference(a, b),
        r matches Some(c) ==> c.wf(),
{
    let x = Decimal::from_i128_with_scale(a.mantissa, a.scale);
    let y = Decimal::from_i128_with_scale(b.mantissa, b.scale);
    x.checked_sub(y).map(|d| Dec { mantissa: d.mantissa(), scale: d.scale() })
}

/// Relies on `PartialEq` of `Decimal`, which compares values whatever the
/// scales (`1.0 == 1.00`).
#[verifier::external_body]
fn decimal_eq(a: Dec, b: Dec) -> (r: bool)
    requires
        a.wf(),
        b.wf(),
    ensures
        r == (a.units() == b.units()),
{
    Decimal::from_i128_with_scale(a.mantissa, a.scale) == Decimal::from_i128_with_scale(b.mantissa, b.scale)
}

/// Relies on `Decimal::checked_div`: `None` for a zero divisor; zero for a
/// zero dividend; without remainder (see `exact_quotient`) the quotient of the
/// mantissas; otherwise rust_decimal's quotient, or `None` where it overflows.
#[verifier::external_body]
fn decimal_div(a: Dec, b: Dec) -> (r: Option<Dec>)
    requires
        a.wf(),
        b.wf(),
    ensures
        b.mantissa == 0 ==> r is None,
        exact_quotient(a, b) is Some ==> r == exact_quotient(a, b),
        b.mantissa != 0 && exact_quotient(a, b) is None ==> r == decimal_quotient(a, b),
        r matches Some(c) ==> c.wf(),
{
    let x = Decimal::from_i128_with_scale(a.mantissa, a.scale);
    let y = Decimal::from_i128_with_scale(b.mantissa, b.scale);
    x.checked_div(y).map(|d| Dec { mantissa: d.mantissa(), scale: d.scale() })
}

/// Relies on `Decimal::checked_mul`: zero where an operand is zero; where the
/// product fits (see `exact_product`), that product; otherwise a rounded
/// product, or `None` where it overflows.
#[verifier::external_body]
fn decimal_mul(a: Dec, b: Dec) -> (r: Option<Dec>)
    requires
        a.wf(),
        b.wf(),
    ensures
        exact_product(a, b) is Some ==> r == exact_product(a, b),
        exact_product(a, b) is None ==> r == decimal_product(a, b),
        r matches Some(c) ==> c.wf(),
{
    let x = Decimal::from_i128_with_scale(a.mantissa, a.scale);
    let y = Decimal::from_i128_with_scale(b.mantissa, b.scale);
    x.checked_mul(y).map(|d| Dec { mantissa: d.mantissa(), scale: d.scale() })
}

/// Relies on `Decimal::round_dp` (half to even), as `rounded_of` states it.
#[verifier::external_body]
fn decimal_round_dp(d: Dec, dp: u32) -> (r: Dec)
    requires
        d.wf(),
        dp <= MAX_SCALE,
    ensures
        r == rounded_of(d, dp),
        r.wf(),
{
    let r = Decimal::from_i128_with_scale(d.mantissa, d.scale).round_dp(dp);
    Dec { mantissa: r.mantissa(), scale: r.scale() }
}

/// Relies on `Decimal::from_str`: the parsed value, or `None` for a text it
/// refuses.
#[verifier::external_body]
fn decimal_parse(s: &str) -> (r: Option<Dec>)
    ensures
        r == decimal_parsed(s@),
        r matches Some(c) ==> c.wf(),
{
    match Decimal::from_str(s) {
        Ok(d) => Some(Dec { mantissa: d.mantissa(), scale: d.scale() }),
        Err(_) => None,
    }
}

impl Dec {
    /// The quotient `self / other` as rust_decimal computes it; `None` for a
    /// zero divisor.
    pub fn checked_div(self, other: Dec) -> (r: Option<Dec>)
        requires
            self.wf(),
            other.wf(),
        ensures
            r == quotient_of(self, other),
            r matches Some(c) ==> c.wf(),
            other.units() == 0 ==> r is None,
    {
        proof { lemma_units_sign(other); }
        decimal_div(self, other)
    }

    /// The product `self * other` as rust_decimal computes it.
    pub fn checked_mul(self, other: Dec) -> (r: Option<Dec>)
        requires
            self.wf(),
            other.wf(),
        ensures
            r == product_of(self, other),
            r matches Some(c) ==> c.wf(),
    {
        decimal_mul(self, other)
    }

    /// Rounded to `dp` decimal places, half to even.
    pub fn round_dp(self, dp: u32) -> (r: Dec)
        requires
            self.wf(),
            dp <= MAX_SCALE,
        ensures
            r == rounded_of(self, dp),
            r.wf(),
            self.scale <= dp ==> r == self,
            self.units() == 0 ==> r.units() == 0,
    {
        proof {
            lemma_units_sign(self);
            lemma_units_sign(rounded_of(self, dp));
            if self.scale > dp {
                lemma_pow10_positive((self.scale - dp) as nat);
            }
        }
        decimal_round_dp(self, dp)
    }

    /// The value that a text such as `-1777.02` denotes.
    pub fn parse(s: &str) -> (r: Option<Dec>)
        ensures
            r == decimal_parsed(s@),
            r matches Some(c) ==> c.wf(),
    {
        decimal_parse(s)
    }
}

} // verus!

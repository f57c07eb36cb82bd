//! Fixed-point decimal numbers with eighteen fractional digits.
//!
//! A [`Decimal`] holds its value as a count of atomic units, one unit being
//! 10^-18. Products and quotients are computed by `cosmwasm_std::Decimal`,
//! so that rounding is the chain's own; sums and comparisons are plain
//! integer operations on the atomic units.

use vstd::prelude::*;

verus! {

/// The number of atomic units in 1.0.
pub const DECIMAL_FRACTIONAL: u128 = 1_000_000_000_000_000_000u128;

/// The number of atomic units in one percent.
pub const DECIMAL_PERCENT: u128 = 10_000_000_000_000_000u128;

/// A non-negative decimal number, as an integer count of 10^-18 units.
#[derive(Clone, Copy, Debug, PartialEq, Eq, Structural, Hash)]
pub struct Decimal {
    pub atomics: u128,
}

/// The atomic units of `a * b`, rounded down, where they fit in 128 bits.
pub open spec fn mul_atomics(a: u128, b: u128) -> Option<u128> {
    let p = (a as int * b as int) / (DECIMAL_FRACTIONAL as int);
    if p <= u128::MAX as int {
        Some(p as u128)
    } else {
        None
    }
}

/// The atomic units of `numerator / denominator`, rounded down, where the
/// denominator is not zero and the quotient fits in 128 bits.
pub open spec fn ratio_atomics(numerator: u128, denominator: u128) -> Option<u128> {
    if denominator == 0 {
        None
    } else {
        let q = (numerator as int * DECIMAL_FRACTIONAL as int) / (denominator as int);
        if q <= u128::MAX as int {
            Some(q as u128)
        } else {
            None
        }
    }
}

/// `cosmwasm_std::Decimal::checked_mul` on atomic units: the full product
/// of the two counts divided by 10^18, rounded down; `None` where that
/// exceeds 128 bits.
#[verifier::external_body]
fn outside_checked_mul(a: u128, b: u128) -> (r: Option<u128>)
    ensures
        r == mul_atomics(a, b),
{
    let x = cosmwasm_std::Decimal::raw(a);
    let y = cosmwasm_std::Decimal::raw(b);
    match x.checked_mul(y) {
        Ok(product) => Some(product.atomics().u128()),
        Err(_) => None,
    }
}

/// `cosmwasm_std::Decimal::checked_from_ratio`: the numerator times 10^18
/// divided by the denominator, rounded down; `None` where the denominator
/// is zero or the quotient exceeds 128 bits.
#[verifier::external_body]
fn outside_checked_from_ratio(numerator: u128, denominator: u128) -> (r: Option<u128>)
    ensures
        r == ratio_atomics(numerator, denominator),
{
    match cosmwasm_std::Decimal::checked_from_ratio(numerator, denominator) {
        Ok(ratio) => Some(ratio.atomics().u128()),
        Err(_) => None,
    }
}

/// `cosmwasm_std::Decimal::checked_div` on atomic units: the ratio of the
/// two counts as a decimal, as `checked_from_ratio` gives it.
#[verifier::external_body]
fn outside_checked_div(a: u128, b: u128) -> (r: Option<u128>)
    ensures
        r == ratio_atomics(a, b),
{
    let x = cosmwasm_std::Decimal::raw(a);
    let y = cosmwasm_std::Decimal::raw(b);
    match x.checked_div(y) {
        Ok(quotient) => Some(quotient.atomics().u128()),
        Err(_) => None,
    }
}

impl Decimal {
    /// The decimal of `value` atomic units.
    pub fn raw(value: u128) -> (r: Decimal)
        ensures
            r.atomics == value,
    {
        Decimal { atomics: value }
    }

    /// 0.0
    pub fn zero() -> (r: Decimal)
        ensures
            r.atomics == 0,
    {
        Decimal { atomics: 0 }
    }

    /// 1.0
    pub fn one() -> (r: Decimal)
        ensures
            r.atomics == DECIMAL_FRACTIONAL,
    {
        Decimal { atomics: DECIMAL_FRACTIONAL }
    }

    /// `x` percent.
    pub fn percent(x: u64) -> (r: Decimal)
        ensures
            r.atomics == x * DECIMAL_PERCENT,
    {
        assert(x * DECIMAL_PERCENT <= u128::MAX) by (nonlinear_arith)
            requires
                x <= u64::MAX,
                DECIMAL_PERCENT == 10_000_000_000_000_000u128,
        ;
        let wide: u128 = x as u128;
        Decimal { atomics: wide * DECIMAL_PERCENT }
    }

    /// The count of atomic units.
    pub fn atomics(&self) -> (r: u128)
        ensures
            r == self.atomics,
    {
        self.atomics
    }

    /// Whether the value is zero.
    pub fn is_zero(&self) -> (r: bool)
        ensures
            r == (self.atomics == 0),
    {
        self.atomics == 0
    }

    /// The whole number `n` as a decimal: `n * 10^18` atomic units.
    pub fn from_seconds(n: u64) -> (r: Decimal)
        ensures
            r.atomics == n * DECIMAL_FRACTIONAL,
    {
        assert(n * DECIMAL_FRACTIONAL <= u128::MAX) by (nonlinear_arith)
            requires
                n <= u64::MAX,
                DECIMAL_FRACTIONAL == 1_000_000_000_000_000_000u128,
        ;
        let wide: u128 = n as u128;
        Decimal { atomics: wide * DECIMAL_FRACTIONAL }
    }

    /// The ratio `numerator / denominator`, rounded down to 10^-18;
    /// `None` for a zero denominator or a quotient out of range.
    pub fn checked_from_ratio(numerator: u128, denominator: u128) -> (r: Option<Decimal>)
        ensures
            match ratio_atomics(numerator, denominator) {
                Some(q) => r == Some(Decimal { atomics: q }),
                None => r is None,
            },
    {
        match outside_checked_from_ratio(numerator, denominator) {
            Some(q) => Some(Decimal { atomics: q }),
            None => None,
        }
    }

    /// The sum, or `None` where it exceeds 128 bits of atomic units.
    pub fn checked_add(self, other: Decimal) -> (r: Option<Decimal>)
        ensures
            self.atomics + other.atomics <= u128::MAX ==> r == Some(
                Decimal { atomics: (self.atomics + other.atomics) as u128 },
            ),
            self.atomics + other.atomics > u128::MAX ==> r is None,
    {
        match self.atomics.checked_add(other.atomics) {
            Some(s) => Some(Decimal { atomics: s }),
            None => None,
        }
    }

    /// The product, rounded down to 10^-18, or `None` where it is out of
    /// range.
    pub fn checked_mul(self, other: Decimal) -> (r: Option<Decimal>)
        ensures
            match mul_atomics(self.atomics, other.atomics) {
                Some(p) => r == Some(Decimal { atomics: p }),
                None => r is None,
            },
    {
        match outside_checked_mul(self.atomics, other.atomics) {
            Some(p) => Some(Decimal { atomics: p }),
            None => None,
        }
    }

    /// The quotient, rounded down to 10^-18, or `None` for a zero divisor
    /// or a quotient out of range.
    pub fn checked_div(self, other: Decimal) -> (r: Option<Decimal>)
        ensures
            match ratio_atomics(self.atomics, other.atomics) {
                Some(q) => r == Some(Decimal { atomics: q }),
                None => r is None,
            },
    {
        match outside_checked_div(self.atomics, other.atomics) {
            Some(q) => Some(Decimal { atomics: q }),
            None => None,
        }
    }

    /// `self <= other`
    pub fn le(&self, other: &Decimal) -> (r: bool)
        ensures
            r == (self.atomics <= other.atomics),
    {
        self.atomics <= other.atomics
    }

    /// `self >= other`
    pub fn ge(&self, other: &Decimal) -> (r: bool)
        ensures
            r == (self.atomics >= other.atomics),
    {
        self.atomics >= other.atomics
    }

    /// `self > other`
    pub fn gt(&self, other: &Decimal) -> (r: bool)
        ensures
            r == (self.atomics > other.atomics),
    {
        self.atomics > other.atomics
    }
}

/// A decimal times a whole number of seconds is the product of the atomic
/// units with that number: no rounding takes place.
pub proof fn lemma_mul_by_seconds(a: u128, n: u64)
    ensures
        mul_atomics(a, (n * DECIMAL_FRACTIONAL) as u128) == (if a * n <= u128::MAX {
            Some((a * n) as u128)
        } else {
            None
        }),
{
    let f = DECIMAL_FRACTIONAL as int;
    assert(n * DECIMAL_FRACTIONAL <= u128::MAX) by (nonlinear_arith)
        requires
            n <= u64::MAX,
            DECIMAL_FRACTIONAL == 1_000_000_000_000_000_000u128,
    ;
    assert((a as int * (n as int * f)) / f == a as int * n as int) by (nonlinear_arith)
        requires
            f == 1_000_000_000_000_000_000int,
    ;
}

/// A decimal divided by a whole number of seconds is the quotient of the
/// atomic units by that number, rounded down.
pub proof fn lemma_div_by_seconds(a: u128, n: u64)
    requires
        n > 0,
    ensures
        ratio_atomics(a, (n * DECIMAL_FRACTIONAL) as u128) == Some((a as int / n as int) as u128),
{
    let f = DECIMAL_FRACTIONAL as int;
    assert(n * DECIMAL_FRACTIONAL <= u128::MAX) by (nonlinear_arith)
        requires
            n <= u64::MAX,
            DECIMAL_FRACTIONAL == 1_000_000_000_000_000_000u128,
    ;
    assert((a as int * f) / (n as int * f) == a as int / n as int) by (nonlinear_arith)
        requires
            f == 1_000_000_000_000_000_000int,
            n > 0,
            a >= 0,
    ;
    assert(a as int / n as int <= a as int) by (nonlinear_arith)
        requires
            n > 0,
            a >= 0,
    ;
    assert(n as int * f > 0) by (nonlinear_arith)
        requires
            n > 0,
            f == 1_000_000_000_000_000_000int,
    ;
    assert(0 <= a as int / n as int) by (nonlinear_arith)
        requires
            n > 0,
            a >= 0,
    ;
}

} // verus!

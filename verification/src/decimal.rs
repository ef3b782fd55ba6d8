//! ISK amounts and fractions as exact decimals.
//!
//! A [`Dec`] holds what `rust_decimal::Decimal` holds: a mantissa of at
//! most 96 bits and a scale of at most 28, the value being
//! `mantissa / 10^scale`. Comparison and rounding to places are stated
//! exactly; the arithmetic is `rust_decimal`'s own, reached through the
//! wrappers below, whose results are stated where the operation is exact
//! (a zero operand, an exact product or quotient, a sum or difference at a
//! common scale that fits) and named otherwise.

use vstd::prelude::*;

verus! {

/// The largest magnitude of a mantissa (96 bits).
pub const MAX_MANTISSA: i128 = 79228162514264337593543950335i128;

/// The largest scale.
pub const MAX_SCALE: u32 = 28u32;

#[derive(Debug, Clone, Copy)]
pub struct Dec {
    pub mantissa: i128,
    pub scale: u32,
}

pub open spec fn pow10(n: nat) -> int
    decreases n,
{
    if n == 0 {
        1
    } else {
        10 * pow10((n - 1) as nat)
    }
}

pub proof fn lemma_pow10_positive(n: nat)
    ensures
        pow10(n) > 0,
    decreases n,
{
    if n > 0 {
        lemma_pow10_positive((n - 1) as nat);
    }
}

impl Dec {
    /// Representable by `rust_decimal::Decimal`.
    pub open spec fn wf(self) -> bool {
        &&& -MAX_MANTISSA <= self.mantissa <= MAX_MANTISSA
        &&& self.scale <= MAX_SCALE
    }

    /// `self < other` as numbers: cross-multiplying by the other's scale.
    pub open spec fn lt(self, other: Dec) -> bool {
        self.mantissa * pow10(other.scale as nat) < other.mantissa * pow10(self.scale as nat)
    }

    /// The integer `n` (`Decimal::from(n)`).
    pub fn from_i64(n: i64) -> (r: Dec)
        ensures
            r.mantissa == n,
            r.scale == 0,
            r.wf(),
    {
        Dec { mantissa: n as i128, scale: 0 }
    }

    pub fn zero() -> (r: Dec)
        ensures
            r.mantissa == 0,
            r.scale == 0,
            r.wf(),
    {
        Dec { mantissa: 0, scale: 0 }
    }

    pub fn one() -> (r: Dec)
        ensures
            r.mantissa == 1,
            r.scale == 0,
            r.wf(),
    {
        Dec { mantissa: 1, scale: 0 }
    }
}

/// Named result of `Decimal::checked_mul`.
pub uninterp spec fn decimal_checked_mul(a: Dec, b: Dec) -> Option<Dec>;

/// Named result of `Decimal::checked_div`.
pub uninterp spec fn decimal_checked_div(a: Dec, b: Dec) -> Option<Dec>;

/// Named result of `Decimal::checked_add`.
pub uninterp spec fn decimal_checked_add(a: Dec, b: Dec) -> Option<Dec>;

/// Named result of `Decimal::checked_sub`.
pub uninterp spec fn decimal_checked_sub(a: Dec, b: Dec) -> Option<Dec>;

/// Named result of `Decimal::round_dp`.
pub uninterp spec fn decimal_round_dp(a: Dec, dp: u32) -> Dec;

/// The result of `Decimal::checked_mul`: where the exact product of the
/// mantissas fits in 96 bits and the scales add up to at most 28, the exact
/// product (zero as a plain zero); otherwise the named result.
pub open spec fn dec_mul(a: Dec, b: Dec) -> Option<Dec> {
    if -MAX_MANTISSA <= a.mantissa * b.mantissa <= MAX_MANTISSA && a.scale + b.scale <= MAX_SCALE {
        if a.mantissa * b.mantissa == 0 {
            Some(Dec { mantissa: 0, scale: 0 })
        } else {
            Some(Dec { mantissa: (a.mantissa * b.mantissa) as i128, scale: (a.scale + b.scale) as u32 })
        }
    } else {
        decimal_checked_mul(a, b)
    }
}

/// The result of `Decimal::checked_div`: by a non-zero divisor, zero stays
/// a plain zero, and a mantissa the divisor's mantissa divides exactly, at
/// a scale at least the divisor's, gives the exact quotient; otherwise the
/// named result.
pub open spec fn dec_div(a: Dec, b: Dec) -> Option<Dec> {
    if b.mantissa != 0 && a.mantissa == 0 {
        Some(Dec { mantissa: 0, scale: 0 })
    } else if b.mantissa != 0 && a.mantissa % b.mantissa == 0 && a.scale >= b.scale {
        Some(Dec { mantissa: (a.mantissa / b.mantissa) as i128, scale: (a.scale - b.scale) as u32 })
    } else {
        decimal_checked_div(a, b)
    }
}

/// The result of `Decimal::checked_add`: adding to a zero gives the other
/// operand; at a common scale, a sum that fits in 96 bits is exact;
/// otherwise the named result.
pub open spec fn dec_add(a: Dec, b: Dec) -> Option<Dec> {
    if a.mantissa == 0 {
        Some(b)
    } else if b.mantissa == 0 {
        Some(a)
    } else if a.scale == b.scale && -MAX_MANTISSA <= a.mantissa + b.mantissa <= MAX_MANTISSA {
        Some(Dec { mantissa: (a.mantissa + b.mantissa) as i128, scale: a.scale })
    } else {
        decimal_checked_add(a, b)
    }
}

/// The result of `Decimal::checked_sub`: zero minus `b` is `b` negated,
/// `a` minus zero is `a`; at a common scale, a difference that fits in 96
/// bits is exact; otherwise the named result.
pub open spec fn dec_sub(a: Dec, b: Dec) -> Option<Dec> {
    if a.mantissa == 0 {
        Some(Dec { mantissa: (-b.mantissa) as i128, scale: b.scale })
    } else if b.mantissa == 0 {
        Some(a)
    } else if a.scale == b.scale && -MAX_MANTISSA <= a.mantissa - b.mantissa <= MAX_MANTISSA {
        Some(Dec { mantissa: (a.mantissa - b.mantissa) as i128, scale: a.scale })
    } else {
        decimal_checked_sub(a, b)
    }
}

/// `n` (not negative) divided by `10^k` and rounded to the nearest
/// integer, a tie going to the even neighbour.
pub open spec fn round_half_even(n: int, k: nat) -> int {
    let p = pow10(k);
    let q = n / p;
    let r = n % p;
    if 2 * r > p || (2 * r == p && q % 2 == 1) {
        q + 1
    } else {
        q
    }
}

/// A mantissa divided by `10^k` and rounded half to even: the magnitude
/// rounded, the sign kept.
pub open spec fn round_mantissa(m: int, k: nat) -> int {
    if m < 0 {
        -round_half_even(-m, k)
    } else {
        round_half_even(m, k)
    }
}

/// The result of `Decimal::round_dp` (`MidpointNearestEven`): a value with
/// at most `dp` places is returned as it is; otherwise the mantissa is
/// rounded half to even to `dp` places, at scale `dp`.
pub open spec fn dec_round_dp(a: Dec, dp: u32) -> Dec {
    if a.scale <= dp {
        a
    } else {
        Dec { mantissa: round_mantissa(a.mantissa as int, (a.scale - dp) as nat) as i128, scale: dp }
    }
}

/// `rust_decimal`'s `<` (`Ord::cmp`), which compares values exactly: it
/// rescales the operand with the smaller scale and, where that no longer
/// fits in 96 bits, knows that operand is the larger in magnitude.
#[verifier::external_body]
pub(crate) fn lt(a: Dec, b: Dec) -> (r: bool)
    requires
        a.wf(),
        b.wf(),
    ensures
        r == a.lt(b),
{
    rust_decimal::Decimal::from_i128_with_scale(a.mantissa, a.scale)
        < rust_decimal::Decimal::from_i128_with_scale(b.mantissa, b.scale)
}

/// `Decimal::checked_mul`: `None` exactly where `*` panics; a result is a
/// valid `Decimal` again, and the exact product where [`dec_mul`] says so.
#[verifier::external_body]
pub(crate) fn checked_mul(a: Dec, b: Dec) -> (r: Option<Dec>)
    requires
        a.wf(),
        b.wf(),
    ensures
        r == decimal_checked_mul(a, b),
        r == dec_mul(a, b),
        r matches Some(d) ==> d.wf(),
{
    let x = rust_decimal::Decimal::from_i128_with_scale(a.mantissa, a.scale);
    let y = rust_decimal::Decimal::from_i128_with_scale(b.mantissa, b.scale);
    match x.checked_mul(y) {
        Some(d) => Some(Dec { mantissa: d.mantissa(), scale: d.scale() }),
        None => None,
    }
}

/// `Decimal::checked_div`: `None` on division by zero or overflow, where
/// `/` panics; the exact quotient where [`dec_div`] says so.
#[verifier::external_body]
pub(crate) fn checked_div(a: Dec, b: Dec) -> (r: Option<Dec>)
    requires
        a.wf(),
        b.wf(),
    ensures
        r == decimal_checked_div(a, b),
        r == dec_div(a, b),
        r matches Some(d) ==> d.wf(),
{
    let x = rust_decimal::Decimal::from_i128_with_scale(a.mantissa, a.scale);
    let y = rust_decimal::Decimal::from_i128_with_scale(b.mantissa, b.scale);
    match x.checked_div(y) {
        Some(d) => Some(Dec { mantissa: d.mantissa(), scale: d.scale() }),
        None => None,
    }
}

/// `Decimal::checked_add`: `None` exactly where `+` panics; see [`dec_add`]
/// for the cases that are stated exactly.
#[verifier::external_body]
pub(crate) fn checked_add(a: Dec, b: Dec) -> (r: Option<Dec>)
    requires
        a.wf(),
        b.wf(),
    ensures
        r == decimal_checked_add(a, b),
        r == dec_add(a, b),
        r matches Some(d) ==> d.wf(),
{
    let x = rust_decimal::Decimal::from_i128_with_scale(a.mantissa, a.scale);
    let y = rust_decimal::Decimal::from_i128_with_scale(b.mantissa, b.scale);
    match x.checked_add(y) {
        Some(d) => Some(Dec { mantissa: d.mantissa(), scale: d.scale() }),
        None => None,
    }
}

/// `Decimal::checked_sub`: `None` exactly where `-` panics; see [`dec_sub`]
/// for the cases that are stated exactly.
#[verifier::external_body]
pub(crate) fn checked_sub(a: Dec, b: Dec) -> (r: Option<Dec>)
    requires
        a.wf(),
        b.wf(),
    ensures
        r == decimal_checked_sub(a, b),
        r == dec_sub(a, b),
        r matches Some(d) ==> d.wf(),
{
    let x = rust_decimal::Decimal::from_i128_with_scale(a.mantissa, a.scale);
    let y = rust_decimal::Decimal::from_i128_with_scale(b.mantissa, b.scale);
    match x.checked_sub(y) {
        Some(d) => Some(Dec { mantissa: d.mantissa(), scale: d.scale() }),
        None => None,
    }
}

/// `Decimal::round_dp` (banker's rounding to `dp` places, as [`dec_round_dp`]
/// states); never fails.
#[verifier::external_body]
pub(crate) fn round_dp(a: Dec, dp: u32) -> (r: Dec)
    requires
        a.wf(),
    ensures
        r == decimal_round_dp(a, dp),
        r == dec_round_dp(a, dp),
        r.wf(),
{
    let d = rust_decimal::Decimal::from_i128_with_scale(a.mantissa, a.scale).round_dp(dp);
    Dec { mantissa: d.mantissa(), scale: d.scale() }
}

} // verus!

//! Fractions in parts per billion, computed by `sp_arithmetic::Perbill`.
//!
//! Such a fraction is held as its number of parts, a `u32`.
use sp_arithmetic::Perbill;
use vstd::prelude::*;

verus! {

/// The number of parts that make a whole.
pub const BILLION: u32 = 1_000_000_000;

/// The smaller of two integers.
pub open spec fn min(a: int, b: int) -> int {
    if a <= b {
        a
    } else {
        b
    }
}

/// The larger of two integers.
pub open spec fn max(a: int, b: int) -> int {
    if a <= b {
        b
    } else {
        a
    }
}

/// `parts` billionths of `amount`, to the nearest whole number, an exact half rounded down.
pub open spec fn fraction_of(parts: int, amount: int) -> int {
    let product = parts * amount;
    if product % (BILLION as int) > BILLION as int / 2 {
        product / (BILLION as int) + 1
    } else {
        product / (BILLION as int)
    }
}

/// `numerator / denominator` in parts per billion, at most a whole. A denominator above a billion
/// is first scaled down to at most a billion, and the numerator with it; every division rounds
/// down.
pub open spec fn ratio_parts(numerator: int, denominator: int) -> int {
    let q = max(denominator, 1);
    let p = min(numerator, q);
    let scale = (q + BILLION - 1) / (BILLION as int);
    ((p / scale) * BILLION) / (q / scale)
}

/// Calls `Perbill::from_percent`: percents above a hundred count as a hundred, and one percent is
/// ten million parts.
#[verifier::external_body]
pub(crate) fn percent_parts(percent: u32) -> (parts: u32)
    ensures
        parts == min(percent as int, 100) * 10_000_000,
{
    Perbill::from_percent(percent).deconstruct()
}

/// Calls the multiplication of a `Perbill` with a `u128`: the product is exact before it is
/// rounded to the nearest whole number, an exact half down, and parts above a billion count as a
/// billion (`Perbill::from_parts` caps them).
#[verifier::external_body]
pub(crate) fn mul_parts(parts: u32, amount: u128) -> (product: u128)
    ensures
        product == fraction_of(min(parts as int, BILLION as int), amount as int),
{
    Perbill::from_parts(parts) * amount
}

/// Calls `Perbill::from_rational_approximation` on two `u128`: a zero denominator counts as one, a
/// numerator above the denominator as the denominator, and the fraction is rounded down after both
/// were scaled so that the denominator is at most a billion.
#[verifier::external_body]
pub(crate) fn rational_parts(numerator: u128, denominator: u128) -> (parts: u32)
    ensures
        parts == ratio_parts(numerator as int, denominator as int),
{
    Perbill::from_rational_approximation(numerator, denominator).deconstruct()
}

/// A fraction of an amount is no more than the amount.
pub proof fn lemma_fraction_bounded(parts: int, amount: int)
    requires
        0 <= parts <= BILLION,
        0 <= amount,
    ensures
        0 <= fraction_of(parts, amount) <= amount,
{
    let product = parts * amount;
    assert(0 <= product <= BILLION * amount) by (nonlinear_arith)
        requires
            0 <= parts <= BILLION,
            0 <= amount,
            product == parts * amount,
    ;
}

/// A ratio lies between nothing and a whole.
pub proof fn lemma_ratio_bounded(numerator: int, denominator: int)
    requires
        0 <= numerator,
        0 <= denominator,
    ensures
        0 <= ratio_parts(numerator, denominator) <= BILLION,
{
    let q = max(denominator, 1);
    let p = min(numerator, q);
    let scale = (q + BILLION - 1) / (BILLION as int);
    assert(1 <= scale <= q);
    let (a, b) = (p / scale, q / scale);
    assert(0 <= a <= b && 1 <= b) by (nonlinear_arith)
        requires
            0 <= p <= q,
            1 <= scale <= q,
            a == p / scale,
            b == q / scale,
    ;
    assert(0 <= (a * BILLION) / b <= BILLION) by (nonlinear_arith)
        requires
            0 <= a <= b,
            1 <= b,
    ;
}

} // verus!

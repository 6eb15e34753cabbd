//! The calls into Malachite that the library makes, each behind a contract that states what
//! Malachite's documentation and source promise of it.

use crate::natural::{canonical_digits, canonical_limbs, digits_value, limbs_value};
use crate::number::Number;
use crate::ratio::{
    abs, ratio_add, ratio_div, ratio_mul, ratio_of, ratio_pow, ratio_rem, ratio_sub, reduced,
};
use malachite_base::num::arithmetic::traits::Pow as MalachitePow;
use malachite_base::num::arithmetic::traits::Sign;
use malachite_base::num::basic::traits::One;
use malachite_base::num::conversion::traits::Digits;
use malachite_base::num::conversion::traits::ExactFrom;
use vstd::arithmetic::power::pow;
use crate::format::be_digits_value;
use malachite_nz::natural::Natural;
use malachite_q::Rational;
use core::str::FromStr;
use crate::parse::{ascii_chars, rational_text};
use vstd::prelude::*;

verus! {

#[verifier::external_type_specification]
#[verifier::external_body]
pub struct ExRational(Rational);

/// Builds the Malachite rational that a number denotes. Nothing is claimed of the result; the
/// wrappers below state what they compute in terms of the numbers they take and return.
#[verifier::external_body]
pub(crate) fn to_rational(x: &Number) -> Rational {
    Rational::from_sign_and_naturals(
        !x.negative,
        Natural::from_limbs_asc(&x.numerator),
        Natural::from_limbs_asc(&x.denominator),
    )
}

/// Reads a Malachite rational back into a number. A Malachite `Rational` is always in lowest
/// terms with a positive denominator and a nonnegative zero, and `Natural::to_limbs_asc` gives
/// limbs without a most significant zero, so the result is a valid number.
#[verifier::external_body]
fn from_rational(q: Rational) -> Number {
    let negative = q.sign().is_lt();
    let (numerator, denominator) = q.into_numerator_and_denominator();
    Number { negative, numerator: numerator.to_limbs_asc(), denominator: denominator.to_limbs_asc() }
}

/// `Rational + Rational`: the exact sum, in lowest terms.
#[verifier::external_body]
pub(crate) fn rational_add(a: &Number, b: &Number) -> (r: Number)
    ensures
        r@ == ratio_add(a@, b@),
{
    from_rational(to_rational(a) + to_rational(b))
}

/// `Rational - Rational`: the exact difference, in lowest terms.
#[verifier::external_body]
pub(crate) fn rational_sub(a: &Number, b: &Number) -> (r: Number)
    ensures
        r@ == ratio_sub(a@, b@),
{
    from_rational(to_rational(a) - to_rational(b))
}

/// `Rational * Rational`: the exact product, in lowest terms.
#[verifier::external_body]
pub(crate) fn rational_mul(a: &Number, b: &Number) -> (r: Number)
    ensures
        r@ == ratio_mul(a@, b@),
{
    from_rational(to_rational(a) * to_rational(b))
}

/// `Rational / Rational`: the exact quotient, in lowest terms. Malachite panics on a zero
/// divisor, which the precondition leaves out.
#[verifier::external_body]
pub(crate) fn rational_div(a: &Number, b: &Number) -> (r: Number)
    requires
        b@.0 != 0,
    ensures
        r@ == ratio_div(a@, b@),
{
    from_rational(to_rational(a) / to_rational(b))
}

/// `Rational % Rational`: `x - y * sgn(x y) * floor(|x / y|)`, the remainder with the sign of
/// `x`, computed in Malachite as `(|n1| d2) mod (|n2| d1)` over `d1 d2` with the sign of `x`.
/// Malachite panics on a zero divisor, which the precondition leaves out.
#[verifier::external_body]
pub(crate) fn rational_rem(a: &Number, b: &Number) -> (r: Number)
    requires
        b@.0 != 0,
    ensures
        r@ == ratio_rem(a@, b@),
{
    from_rational(to_rational(a) % to_rational(b))
}

/// `Pow<i64>` for `Rational`: numerator and denominator raised to `|e|`, then the reciprocal
/// for a negative `e`. Malachite panics on zero to a negative power, which the precondition
/// leaves out.
#[verifier::external_body]
pub(crate) fn rational_pow(a: &Number, e: i64) -> (r: Number)
    requires
        e >= 0 || a@.0 != 0,
    ensures
        r@ == ratio_pow(a@, e as int),
{
    from_rational(MalachitePow::pow(to_rational(a), e))
}

/// `Rational::const_from_signeds`: `n / d` in lowest terms. Malachite asserts `d != 0`.
#[verifier::external_body]
pub(crate) fn rational_from_signeds_i64(n: i64, d: i64) -> (r: Number)
    requires
        d != 0,
    ensures
        r@ == ratio_of(n as int, d as int),
{
    from_rational(Rational::const_from_signeds(n, d))
}

/// `Rational::const_from_unsigneds`: `n / d` in lowest terms. Malachite asserts `d != 0`.
#[verifier::external_body]
pub(crate) fn rational_from_unsigneds_u64(n: u64, d: u64) -> (r: Number)
    requires
        d != 0,
    ensures
        r@ == ratio_of(n as int, d as int),
{
    from_rational(Rational::const_from_unsigneds(n, d))
}

/// `Rational::from_signeds` on `i128`: `n / d` in lowest terms. Malachite panics on `d == 0`.
#[verifier::external_body]
pub(crate) fn rational_from_signeds_i128(n: i128, d: i128) -> (r: Number)
    requires
        d != 0,
    ensures
        r@ == ratio_of(n as int, d as int),
{
    from_rational(Rational::from_signeds(n, d))
}

/// `Rational::from_sign_and_naturals`: numerator and denominator divided by their gcd, and
/// negative only if `sign` is false and the numerator is not zero. Malachite panics on a zero
/// denominator, which the precondition leaves out.
#[verifier::external_body]
pub(crate) fn rational_from_sign_and_naturals(
    sign: bool,
    numerator: &Vec<u64>,
    denominator: &Vec<u64>,
) -> (r: Number)
    requires
        limbs_value(denominator@) > 0,
    ensures
        r@ == reduced(
            if sign { limbs_value(numerator@) as int } else { -(limbs_value(numerator@) as int) },
            limbs_value(denominator@),
        ),
{
    from_rational(
        Rational::from_sign_and_naturals(
            sign,
            Natural::from_limbs_asc(numerator),
            Natural::from_limbs_asc(denominator),
        ),
    )
}

/// `Natural::to_digits_asc`: the digits of a natural in `base`, least significant first, each
/// below the base, without a most significant zero (zero has no digits). Malachite panics on a
/// base below 2, which the precondition leaves out.
#[verifier::external_body]
pub(crate) fn natural_to_digits_asc(limbs: &Vec<u64>, base: u8) -> (r: Vec<u8>)
    requires
        base >= 2,
    ensures
        canonical_digits(r@, base as nat),
        digits_value(r@, base as nat) == limbs_value(limbs@),
{
    Natural::from_limbs_asc(limbs).to_digits_asc(&base)
}

/// `Natural::from_digits_asc`: the natural with the given digits in `base`, least significant
/// first; `None` when a digit is not below the base. Malachite panics on a base below 2, which
/// the precondition leaves out.
#[verifier::external_body]
pub(crate) fn natural_from_digits_asc(digits: &Vec<u8>, base: u8) -> (r: Option<Vec<u64>>)
    requires
        base >= 2,
    ensures
        r is Some <==> (forall|i: int| 0 <= i < digits@.len() ==> digits@[i] < base),
        r matches Some(limbs) ==> canonical_limbs(limbs@) && limbs_value(limbs@) == digits_value(
            digits@,
            base as nat,
        ),
{
    match Natural::from_digits_asc(&base, digits.iter().copied()) {
        Some(n) => Some(n.to_limbs_asc()),
        None => None,
    }
}

/// `Natural << 1`: twice the natural.
#[verifier::external_body]
pub(crate) fn natural_shl_one(limbs: &Vec<u64>) -> (r: Vec<u64>)
    ensures
        canonical_limbs(r@),
        limbs_value(r@) == 2 * limbs_value(limbs@),
{
    (Natural::from_limbs_asc(limbs) << 1u32).to_limbs_asc()
}

/// `Natural >> 1`: the natural halved, rounded down.
#[verifier::external_body]
pub(crate) fn natural_shr_one(limbs: &Vec<u64>) -> (r: Vec<u64>)
    ensures
        canonical_limbs(r@),
        limbs_value(r@) == limbs_value(limbs@) / 2,
{
    (Natural::from_limbs_asc(limbs) >> 1u32).to_limbs_asc()
}

/// `Natural + Natural::ONE`.
#[verifier::external_body]
pub(crate) fn natural_add_one(limbs: &Vec<u64>) -> (r: Vec<u64>)
    ensures
        canonical_limbs(r@),
        limbs_value(r@) == limbs_value(limbs@) + 1,
{
    (Natural::from_limbs_asc(limbs) + Natural::ONE).to_limbs_asc()
}

/// `Natural - Natural::ONE`. Malachite panics when subtracting from zero, which the
/// precondition leaves out.
#[verifier::external_body]
pub(crate) fn natural_sub_one(limbs: &Vec<u64>) -> (r: Vec<u64>)
    requires
        limbs_value(limbs@) >= 1,
    ensures
        canonical_limbs(r@),
        limbs_value(r@) == limbs_value(limbs@) - 1,
{
    (Natural::from_limbs_asc(limbs) - Natural::ONE).to_limbs_asc()
}

/// `&Natural % Natural::from(2u8) == 0`: whether the natural is even.
#[verifier::external_body]
pub(crate) fn natural_is_even(limbs: &Vec<u64>) -> (r: bool)
    ensures
        r == (limbs_value(limbs@) % 2 == 0),
{
    &Natural::from_limbs_asc(limbs) % Natural::from(2u8) == 0u32
}

/// `Rational::from_str`: an optional `-` not followed by `+`, then a natural or a natural, `/`
/// and a nonzero natural, each natural an optional `+` and one or more decimal digits; the
/// result is in lowest terms and `None` stands for Malachite's `Err(())`.
#[verifier::external_body]
pub(crate) fn rational_from_str(s: &str) -> (r: Option<Number>)
    ensures
        match rational_text(s@) {
            Some(v) => r matches Some(x) && x@ == v,
            None => r is None,
        },
{
    match Rational::from_str(s) {
        Ok(q) => Some(from_rational(q)),
        Err(()) => None,
    }
}

/// `String::from_utf8` on ASCII bytes: the string of those characters. It fails only on bytes
/// that are not UTF-8, which the precondition leaves out.
#[verifier::external_body]
pub(crate) fn string_from_ascii(bytes: Vec<u8>) -> (r: String)
    requires
        forall|i: int| 0 <= i < bytes@.len() ==> bytes@[i] < 128,
    ensures
        r@ == ascii_chars(bytes@),
{
    String::from_utf8(bytes).unwrap()
}

/// The decimal digits of a rational's magnitude as Malachite's `Rational::to_digits` gives them:
/// the integer part, least significant first, and the fractional part as a non-repeating and
/// a repeating run, each digit as a `u8`.
pub uninterp spec fn decimal_expansion(magnitude: nat, denominator: nat) -> (Seq<u8>, Seq<u8>, Seq<u8>);

/// `Rational::to_digits` in base 10, taken on the magnitude. Its documentation gives the
/// integer part's digits least significant first without a most significant zero, and the
/// fractional digits as a finite or eventually repeating sequence; the fractional value is that
/// of the non-repeating run followed by the repeating run repeated without end. The output is in
/// its simplest form: a finite fraction does not end with a zero, and the repeating run is
/// neither all zeros nor all nines. The result is
/// named: what `to_digits` returns takes more than these facts to pin down (the split between
/// the two runs is left unsaid).
#[verifier::external_body]
pub(crate) fn rational_decimal_digits(x: &Number) -> (r: (Vec<u8>, Vec<u8>, Vec<u8>))
    ensures
        (r.0@, r.1@, r.2@) == decimal_expansion(abs(x@.0), x@.1),
        canonical_digits(r.0@, 10),
        digits_value(r.0@, 10) == abs(x@.0) / x@.1,
        forall|i: int| 0 <= i < r.1@.len() ==> #[trigger] r.1@[i] < 10,
        forall|i: int| 0 <= i < r.2@.len() ==> #[trigger] r.2@[i] < 10,
        r.2@.len() == 0 && r.1@.len() > 0 ==> r.1@.last() != 0,
        r.2@.len() > 0 ==> exists|i: int| 0 <= i < r.2@.len() && r.2@[i] != 0,
        r.2@.len() > 0 ==> exists|i: int| 0 <= i < r.2@.len() && r.2@[i] != 9,
        r.2@.len() == 0 ==> (abs(x@.0) % x@.1) * pow(10, r.1@.len()) == be_digits_value(r.1@) * x@.1,
        r.2@.len() > 0 ==> (abs(x@.0) % x@.1) * pow(10, r.1@.len()) * (pow(10, r.2@.len()) - 1) == (
        be_digits_value(r.1@) * (pow(10, r.2@.len()) - 1) + be_digits_value(r.2@)) * x@.1,
{
    let (before, after) = to_rational(x).to_digits(&Natural::from(10u32));
    let (non_repeating, repeating) = after.into_vecs();
    let to_bytes = |digits: Vec<Natural>| digits.iter().map(u8::exact_from).collect::<Vec<u8>>();
    (to_bytes(before), to_bytes(non_repeating), to_bytes(repeating))
}

} // verus!

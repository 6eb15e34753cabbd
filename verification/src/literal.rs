//! Numbers written as literals: an integer or a finite decimal (`42`, `42.21`, `1_000.050`),
//! optionally negated, and the ratio of two such literals (`1.5 / 0.25`).

use crate::malachite::{rational_from_signeds_i64, rational_from_unsigneds_u64};
use crate::number::Number;
use crate::parse::{decimal_text, digits_text_value, insert_underscore, mantissa_scan, sign_prefix, signed};
use vstd::arithmetic::power::{lemma_pow0, lemma_pow1, lemma_pow_adds, lemma_pow_positive, pow};
use crate::ratio::{abs, gcd, lemma_reduced_is_lowest, lemma_reduced_scale, lemma_reduced_times_gcd, ratio_div, ratio_of, reduced, sign};
use vstd::prelude::*;
use vstd::string::StringSliceAdditionalSpecFns;

verus! {

/// Why a literal does not denote a number that the literal constructors can build.
#[derive(Clone, Copy, Debug, PartialEq, Eq)]
pub enum LiteralError {
    MultipleDecimalPoints,
    InvalidCharacter,
    NumeratorOverflow,
    DenominatorOverflow,
    NoDigits,
    ZeroDenominator,
    RatioNumeratorOverflow,
    RatioDenominatorOverflow,
    NegativeDenominatorOverflow,
    NegativeNumeratorOverflow,
}

impl LiteralError {
    /// The message that reports this error.
    pub fn message(&self) -> (r: &'static str)
        ensures
            r@ == literal_error_message(*self)@,
    {
        match self {
            LiteralError::MultipleDecimalPoints => "num literal should contain at most one decimal point",
            LiteralError::InvalidCharacter => "num literal should be an integer or finite decimal",
            LiteralError::NumeratorOverflow => "num literal numerator should fit u64",
            LiteralError::DenominatorOverflow => "num literal denominator should fit u64",
            LiteralError::NoDigits => "num literal should contain digits",
            LiteralError::ZeroDenominator => "num ratio denominator should not be zero",
            LiteralError::RatioNumeratorOverflow => "num ratio numerator should fit u64",
            LiteralError::RatioDenominatorOverflow => "num ratio denominator should fit u64",
            LiteralError::NegativeDenominatorOverflow => "negative num literal denominator should fit i64",
            LiteralError::NegativeNumeratorOverflow => "negative num literal numerator should fit i64",
        }
    }
}

/// The message of each literal error.
pub open spec fn literal_error_message(e: LiteralError) -> &'static str {
    match e {
        LiteralError::MultipleDecimalPoints => "num literal should contain at most one decimal point",
        LiteralError::InvalidCharacter => "num literal should be an integer or finite decimal",
        LiteralError::NumeratorOverflow => "num literal numerator should fit u64",
        LiteralError::DenominatorOverflow => "num literal denominator should fit u64",
        LiteralError::NoDigits => "num literal should contain digits",
        LiteralError::ZeroDenominator => "num ratio denominator should not be zero",
        LiteralError::RatioNumeratorOverflow => "num ratio numerator should fit u64",
        LiteralError::RatioDenominatorOverflow => "num ratio denominator should fit u64",
        LiteralError::NegativeDenominatorOverflow => "negative num literal denominator should fit i64",
        LiteralError::NegativeNumeratorOverflow => "negative num literal numerator should fit i64",
    }
}

/// The state after reading the bytes of a literal from the left: the digits read so far as a
/// numerator, the denominator `10^k` for the `k` digits after the decimal point, whether the
/// decimal point and a digit were seen; or the first error met. `_` separators are skipped.
pub open spec fn literal_scan(bytes: Seq<u8>) -> Result<(nat, nat, bool, bool), LiteralError>
    decreases bytes.len(),
{
    if bytes.len() == 0 {
        Ok((0, 1, false, false))
    } else {
        match literal_scan(bytes.drop_last()) {
            Err(e) => Err(e),
            Ok((numerator, denominator, seen_point, seen_digit)) => {
                let byte = bytes.last();
                if byte == 95 {
                    // `_`
                    Ok((numerator, denominator, seen_point, seen_digit))
                } else if byte == 46 {
                    // `.`
                    if seen_point {
                        Err(LiteralError::MultipleDecimalPoints)
                    } else {
                        Ok((numerator, denominator, true, seen_digit))
                    }
                } else if byte < 48 || byte > 57 {
                    Err(LiteralError::InvalidCharacter)
                } else if numerator * 10 + (byte - 48) > u64::MAX {
                    Err(LiteralError::NumeratorOverflow)
                } else if seen_point && denominator * 10 > u64::MAX {
                    Err(LiteralError::DenominatorOverflow)
                } else {
                    Ok(
                        (
                            (numerator * 10 + (byte - 48)) as nat,
                            if seen_point { denominator * 10 } else { denominator },
                            seen_point,
                            true,
                        ),
                    )
                }
            },
        }
    }
}

/// The numerator and denominator that a literal denotes, before reduction, or the first error.
pub open spec fn num_literal(bytes: Seq<u8>) -> Result<(nat, nat), LiteralError> {
    match literal_scan(bytes) {
        Err(e) => Err(e),
        Ok((numerator, denominator, _, seen_digit)) => if seen_digit {
            Ok((numerator, denominator))
        } else {
            Err(LiteralError::NoDigits)
        },
    }
}

/// The number `±numerator / denominator` built from unsigned parts, or the first error.
pub open spec fn unsigned_ratio_parts(numerator: nat, denominator: nat, negative: bool) -> Result<
    (int, nat),
    LiteralError,
> {
    if denominator == 0 {
        Err(LiteralError::ZeroDenominator)
    } else if negative && denominator > i64::MAX {
        Err(LiteralError::NegativeDenominatorOverflow)
    } else if negative && numerator > i64::MAX + 1 {
        Err(LiteralError::NegativeNumeratorOverflow)
    } else {
        Ok(ratio_of(if negative { -numerator } else { numerator as int }, denominator as int))
    }
}

/// The number that a literal denotes, negated when `negative` holds, or the first error.
pub open spec fn num_literal_number(bytes: Seq<u8>, negative: bool) -> Result<(int, nat), LiteralError> {
    match num_literal(bytes) {
        Err(e) => Err(e),
        Ok((numerator, denominator)) => unsigned_ratio_parts(numerator, denominator, negative),
    }
}

/// The ratio of two literals, each possibly negated, or the first error.
pub open spec fn num_ratio_literals(
    numerator: Seq<u8>,
    numerator_negative: bool,
    denominator: Seq<u8>,
    denominator_negative: bool,
) -> Result<(int, nat), LiteralError> {
    match num_literal(numerator) {
        Err(e) => Err(e),
        Ok((left_numerator, left_denominator)) => match num_literal(denominator) {
            Err(e) => Err(e),
            Ok((right_numerator, right_denominator)) => {
                if right_numerator == 0 {
                    Err(LiteralError::ZeroDenominator)
                } else if left_numerator * right_denominator > u64::MAX {
                    Err(LiteralError::RatioNumeratorOverflow)
                } else if left_denominator * right_numerator > u64::MAX {
                    Err(LiteralError::RatioDenominatorOverflow)
                } else {
                    unsigned_ratio_parts(
                        left_numerator * right_denominator,
                        left_denominator * right_numerator,
                        numerator_negative != denominator_negative,
                    )
                }
            },
        },
    }
}

impl Number {
    /// Reads a literal into its numerator and its power-of-ten denominator, or reports the
    /// first error.
    pub fn try_parse_num_literal(value: &str) -> (r: Result<(u64, u64), LiteralError>)
        ensures
            match num_literal(value.spec_bytes()) {
                Ok((n, d)) => r == Ok::<(u64, u64), LiteralError>((n as u64, d as u64)) && n <= u64::MAX && d <= u64::MAX,
                Err(e) => r == Err::<(u64, u64), LiteralError>(e),
            },
    {
        let bytes = value.as_bytes();
        let ghost all = bytes@;
        let mut index: usize = 0;
        let mut numerator: u64 = 0;
        let mut denominator: u64 = 1;
        let mut seen_decimal_point = false;
        let mut seen_digit = false;
        while index < bytes.len()
            invariant
                all == value.spec_bytes(),
                bytes@ == all,
                index <= bytes.len(),
                literal_scan(all.take(index as int)) == Ok::<(nat, nat, bool, bool), LiteralError>(
                    (numerator as nat, denominator as nat, seen_decimal_point, seen_digit),
                ),
            decreases bytes.len() - index,
        {
            let byte = bytes[index];
            proof {
                assert(all.take(index + 1).drop_last() =~= all.take(index as int));
                assert(all.take(index + 1).last() == byte);
            }
            if byte == 95u8 {
                index += 1;
                continue;
            }
            if byte == 46u8 {
                if seen_decimal_point {
                    proof {
                        lemma_literal_scan_error_stays(all, index as int + 1, LiteralError::MultipleDecimalPoints);
                    }
                    return Err(LiteralError::MultipleDecimalPoints);
                }
                seen_decimal_point = true;
                index += 1;
                continue;
            }
            if byte < 48u8 || byte > 57u8 {
                proof {
                    lemma_literal_scan_error_stays(all, index as int + 1, LiteralError::InvalidCharacter);
                }
                return Err(LiteralError::InvalidCharacter);
            }
            let digit = (byte - 48u8) as u64;
            if numerator > (u64::MAX - digit) / 10 {
                proof {
                    assert(numerator * 10 + digit > u64::MAX) by (nonlinear_arith)
                        requires
                            numerator > (u64::MAX - digit) / 10,
                            digit <= 9,
                    ;
                    lemma_literal_scan_error_stays(all, index as int + 1, LiteralError::NumeratorOverflow);
                }
                return Err(LiteralError::NumeratorOverflow);
            }
            proof {
                assert(numerator * 10 + digit <= u64::MAX) by (nonlinear_arith)
                    requires
                        numerator <= (u64::MAX - digit) / 10,
                        digit <= 9,
                ;
            }
            numerator = numerator * 10 + digit;
            if seen_decimal_point {
                if denominator > u64::MAX / 10 {
                    proof {
                        lemma_literal_scan_error_stays(all, index as int + 1, LiteralError::DenominatorOverflow);
                    }
                    return Err(LiteralError::DenominatorOverflow);
                }
                denominator *= 10;
            }
            seen_digit = true;
            index += 1;
        }
        proof {
            assert(all.take(index as int) =~= all);
        }
        if !seen_digit {
            return Err(LiteralError::NoDigits);
        }
        Ok((numerator, denominator))
    }

    /// Reads a literal into its numerator and its power-of-ten denominator.
    pub fn __parse_num_literal(value: &str) -> (r: (u64, u64))
        requires
            num_literal(value.spec_bytes()) is Ok,
        ensures
            num_literal(value.spec_bytes()) == Ok::<(nat, nat), LiteralError>((r.0 as nat, r.1 as nat)),
    {
        match Self::try_parse_num_literal(value) {
            Ok(parts) => parts,
            Err(_) => (0, 1),
        }
    }

    /// The number `±numerator / denominator`, or the first error.
    pub fn try_from_unsigned_ratio_parts(numerator: u64, denominator: u64, negative: bool) -> (r:
        Result<Number, LiteralError>)
        ensures
            match unsigned_ratio_parts(numerator as nat, denominator as nat, negative) {
                Ok(v) => r matches Ok(x) && x@ == v,
                Err(e) => r == Err::<Number, LiteralError>(e),
            },
    {
        if denominator == 0 {
            return Err(LiteralError::ZeroDenominator);
        }
        if negative {
            if denominator > i64::MAX as u64 {
                return Err(LiteralError::NegativeDenominatorOverflow);
            }
            if numerator > i64::MAX as u64 + 1 {
                return Err(LiteralError::NegativeNumeratorOverflow);
            }
            let signed_numerator: i64 = if numerator == i64::MAX as u64 + 1 {
                i64::MIN
            } else {
                -(numerator as i64)
            };
            Ok(rational_from_signeds_i64(signed_numerator, denominator as i64))
        } else {
            Ok(rational_from_unsigneds_u64(numerator, denominator))
        }
    }

    /// The number `±numerator / denominator`.
    pub(crate) fn __from_unsigned_ratio_parts(numerator: u64, denominator: u64, negative: bool) -> (r: Number)
        requires
            unsigned_ratio_parts(numerator as nat, denominator as nat, negative) is Ok,
        ensures
            unsigned_ratio_parts(numerator as nat, denominator as nat, negative) == Ok::<(int, nat), LiteralError>(r@),
    {
        match Self::try_from_unsigned_ratio_parts(numerator, denominator, negative) {
            Ok(x) => x,
            Err(_) => Number::new_i64(0),
        }
    }

    /// The number that a literal denotes, negated when `negative` holds, or the first error.
    pub fn try_from_num_literal(value: &str, negative: bool) -> (r: Result<Number, LiteralError>)
        ensures
            match num_literal_number(value.spec_bytes(), negative) {
                Ok(v) => r matches Ok(x) && x@ == v,
                Err(e) => r == Err::<Number, LiteralError>(e),
            },
    {
        let (numerator, denominator) = Self::try_parse_num_literal(value)?;
        Self::try_from_unsigned_ratio_parts(numerator, denominator, negative)
    }

    /// The number that a literal denotes, negated when `negative` holds.
    pub fn __from_num_literal(value: &str, negative: bool) -> (r: Number)
        requires
            num_literal_number(value.spec_bytes(), negative) is Ok,
        ensures
            num_literal_number(value.spec_bytes(), negative) == Ok::<(int, nat), LiteralError>(r@),
    {
        let (numerator, denominator) = Self::__parse_num_literal(value);
        Self::__from_unsigned_ratio_parts(numerator, denominator, negative)
    }

    /// The ratio of two literals, each possibly negated, or the first error.
    pub fn try_from_num_ratio_literals(
        numerator: &str,
        numerator_negative: bool,
        denominator: &str,
        denominator_negative: bool,
    ) -> (r: Result<Number, LiteralError>)
        ensures
            match num_ratio_literals(numerator.spec_bytes(), numerator_negative, denominator.spec_bytes(), denominator_negative) {
                Ok(v) => r matches Ok(x) && x@ == v,
                Err(e) => r == Err::<Number, LiteralError>(e),
            },
    {
        let (left_numerator, left_denominator) = Self::try_parse_num_literal(numerator)?;
        let (right_numerator, right_denominator) = Self::try_parse_num_literal(denominator)?;
        if right_numerator == 0 {
            return Err(LiteralError::ZeroDenominator);
        }
        proof {
            lemma_u64_product_fits(left_numerator, right_denominator);
            lemma_u64_product_fits(left_denominator, right_numerator);
        }
        let numerator = (left_numerator as u128) * (right_denominator as u128);
        let denominator = (left_denominator as u128) * (right_numerator as u128);
        if numerator > u64::MAX as u128 {
            return Err(LiteralError::RatioNumeratorOverflow);
        }
        if denominator > u64::MAX as u128 {
            return Err(LiteralError::RatioDenominatorOverflow);
        }
        Self::try_from_unsigned_ratio_parts(
            numerator as u64,
            denominator as u64,
            numerator_negative != denominator_negative,
        )
    }

    /// The ratio of two literals, each possibly negated.
    pub fn __from_num_ratio_literals(
        numerator: &str,
        numerator_negative: bool,
        denominator: &str,
        denominator_negative: bool,
    ) -> (r: Number)
        requires
            num_ratio_literals(numerator.spec_bytes(), numerator_negative, denominator.spec_bytes(), denominator_negative) is Ok,
        ensures
            num_ratio_literals(numerator.spec_bytes(), numerator_negative, denominator.spec_bytes(), denominator_negative)
                == Ok::<(int, nat), LiteralError>(r@),
    {
        match Self::try_from_num_ratio_literals(numerator, numerator_negative, denominator, denominator_negative) {
            Ok(x) => x,
            Err(_) => Number::new_i64(0),
        }
    }
}

proof fn lemma_u64_product_fits(a: u64, b: u64)
    ensures
        a as int * b as int <= u128::MAX,
{
    assert(a as int * b as int <= u64::MAX as int * u64::MAX as int) by (nonlinear_arith)
        requires
            a <= u64::MAX,
            b <= u64::MAX,
            a >= 0,
            b >= 0,
    ;
}

/// Once the scan of a prefix fails, the scan of every longer prefix fails the same way.
proof fn lemma_literal_scan_error_stays(bytes: Seq<u8>, k: int, e: LiteralError)
    requires
        0 <= k <= bytes.len(),
        literal_scan(bytes.take(k)) == Err::<(nat, nat, bool, bool), LiteralError>(e),
    ensures
        literal_scan(bytes) == Err::<(nat, nat, bool, bool), LiteralError>(e),
    decreases bytes.len() - k,
{
    if k < bytes.len() {
        assert(bytes.take(k + 1).drop_last() =~= bytes.take(k));
        lemma_literal_scan_error_stays(bytes, k + 1, e);
    } else {
        assert(bytes.take(k) =~= bytes);
    }
}

/// A ratio of two literals denotes the quotient of the numbers the literals denote:
/// `num!(1.5 / 0.25)` is `num!(1.5) / num!(0.25)`.
pub proof fn law_ratio_literal_is_quotient(
    numerator: Seq<u8>,
    numerator_negative: bool,
    denominator: Seq<u8>,
    denominator_negative: bool,
)
    requires
        num_ratio_literals(numerator, numerator_negative, denominator, denominator_negative) is Ok,
    ensures
        num_literal(numerator) is Ok,
        num_literal(denominator) is Ok,
        num_literal(denominator)->Ok_0.0 != 0,
        num_ratio_literals(numerator, numerator_negative, denominator, denominator_negative)
            == Ok::<(int, nat), LiteralError>(ratio_div(
                ratio_of(signed(numerator_negative, num_literal(numerator)->Ok_0.0), num_literal(numerator)->Ok_0.1 as int),
                ratio_of(signed(denominator_negative, num_literal(denominator)->Ok_0.0), num_literal(denominator)->Ok_0.1 as int),
            )),
        num_literal_number(numerator, numerator_negative) matches Ok(x) ==> num_literal_number(
            denominator,
            denominator_negative,
        ) matches Ok(y) ==> num_ratio_literals(numerator, numerator_negative, denominator, denominator_negative)
            == Ok::<(int, nat), LiteralError>(ratio_div(x, y)),
{
    let (a, b) = num_literal(numerator)->Ok_0;
    let (c, e) = num_literal(denominator)->Ok_0;
    lemma_literal_denominator_positive(numerator);
    lemma_literal_denominator_positive(denominator);
    let p = signed(numerator_negative, a);
    let q = signed(denominator_negative, c);
    let negative = numerator_negative != denominator_negative;
    let n = (a * e) as nat;
    let d = (b * c) as nat;
    assert(d > 0) by (nonlinear_arith)
        requires
            b > 0,
            c > 0,
            d == b * c,
    ;
    // The left side: the cross products, signed and reduced.
    assert(ratio_of(if negative { -n } else { n as int }, d as int) == reduced(
        if negative { -n } else { n as int },
        d,
    )) by {
        assert((if negative { -n } else { n as int }) * sign(d as int) == (if negative { -n } else { n as int }));
    }
    // The right side: each literal reduced, then divided.
    assert(ratio_of(p, b as int) == reduced(p, b)) by {
        assert(p * sign(b as int) == p);
    }
    assert(ratio_of(q, e as int) == reduced(q, e)) by {
        assert(q * sign(e as int) == q);
    }
    let x = reduced(p, b);
    let y = reduced(q, e);
    let g1 = gcd(abs(p), b);
    let g2 = gcd(abs(q), e);
    lemma_reduced_times_gcd(p, b);
    lemma_reduced_times_gcd(q, e);
    lemma_reduced_is_lowest(p, b);
    assert(abs(q) == c);
    assert(y.0 != 0);
    assert(sign(y.0) == sign(q)) by (nonlinear_arith)
        requires
            y.0 * g2 == q,
            g2 > 0,
    ;
    assert(abs(y.0) * g2 == c) by (nonlinear_arith)
        requires
            y.0 * g2 == q,
            abs(q) == c,
            g2 > 0,
    ;
    let k = (g1 * g2) as nat;
    assert(k > 0) by (nonlinear_arith)
        requires
            g1 > 0,
            g2 > 0,
            k == g1 * g2,
    ;
    assert((x.0 * y.1 * sign(y.0)) * k == p * e * sign(q)) by (nonlinear_arith)
        requires
            x.0 * g1 == p,
            y.1 * g2 == e,
            sign(y.0) == sign(q),
            k == g1 * g2,
    ;
    assert((x.1 * abs(y.0)) * k == b * c) by (nonlinear_arith)
        requires
            x.1 * g1 == b,
            abs(y.0) * g2 == c,
            k == g1 * g2,
    ;
    assert(x.1 * abs(y.0) > 0) by (nonlinear_arith)
        requires
            x.1 > 0,
            abs(y.0) > 0,
    ;
    lemma_reduced_scale(x.0 * y.1 * sign(y.0), (x.1 * abs(y.0)) as nat, k);
    assert(p * e * sign(q) == (if negative { -n } else { n as int })) by (nonlinear_arith)
        requires
            p == (if numerator_negative { -a } else { a as int }),
            q == (if denominator_negative { -c } else { c as int }),
            c > 0,
            n == a * e,
            negative == (numerator_negative != denominator_negative),
    ;
}

/// A literal's denominator is a positive power of ten.
proof fn lemma_literal_denominator_positive(bytes: Seq<u8>)
    requires
        num_literal(bytes) is Ok,
    ensures
        num_literal(bytes)->Ok_0.1 > 0,
{
    lemma_literal_scan_denominator_positive(bytes);
}

/// While the scan of a literal succeeds, its denominator stays positive.
proof fn lemma_literal_scan_denominator_positive(bytes: Seq<u8>)
    ensures
        literal_scan(bytes) matches Ok((_, d, _, _)) ==> d > 0,
    decreases bytes.len(),
{
    if bytes.len() > 0 {
        lemma_literal_scan_denominator_positive(bytes.drop_last());
    }
}

/// Past an inserted `_`, the scan of a literal is where it was one byte earlier.
proof fn lemma_literal_scan_underscore(bytes: Seq<u8>, p: int, j: int)
    requires
        0 <= p <= j <= bytes.len(),
    ensures
        literal_scan(insert_underscore(bytes, p).take(j + 1)) == literal_scan(bytes.take(j)),
    decreases j - p,
{
    let t = insert_underscore(bytes, p);
    let u = t.take(j + 1);
    if j == p {
        assert(u.drop_last() =~= bytes.take(p));
        assert(u.last() == 95);
    } else {
        lemma_literal_scan_underscore(bytes, p, j - 1);
        assert(u.drop_last() =~= t.take(j));
        assert(bytes.take(j).drop_last() =~= bytes.take(j - 1));
        assert(u.last() == bytes.take(j).last()) by {
            assert(t[j] == bytes.skip(p)[j - 1 - p]);
        }
    }
}

/// Underscores in a literal are separators: a `_` inserted anywhere changes neither the
/// numerator nor the denominator it reads as, nor the error it reports. Inserting one at a
/// time, any number of them can be inserted.
pub proof fn law_literal_underscore_ignored(bytes: Seq<u8>, p: int)
    requires
        0 <= p <= bytes.len(),
    ensures
        num_literal(insert_underscore(bytes, p)) == num_literal(bytes),
        num_literal_number(insert_underscore(bytes, p), true) == num_literal_number(bytes, true),
        num_literal_number(insert_underscore(bytes, p), false) == num_literal_number(bytes, false),
{
    lemma_literal_scan_underscore(bytes, p, bytes.len() as int);
    assert(insert_underscore(bytes, p).take(bytes.len() as int + 1) =~= insert_underscore(bytes, p));
    assert(bytes.take(bytes.len() as int) =~= bytes);
}

/// Scanning a literal from the left reaches, at each prefix, the mantissa scan of decimal
/// notation: the digits read so far are worth the numerator, and the denominator is ten to the
/// count of digits after the point.
proof fn lemma_literal_mantissa(bytes: Seq<u8>, i: int) -> (r: (Seq<char>, nat))
    requires
        0 <= i <= bytes.len(),
        literal_scan(bytes.take(i)) is Ok,
    ensures
        ({
            let (num, den, point, seen) = literal_scan(bytes.take(i))->Ok_0;
            &&& mantissa_scan(bytes, 0, Seq::empty(), 0, false) == mantissa_scan(bytes, i, r.0, r.1, point)
            &&& digits_text_value(r.0) == num
            &&& den == pow(10, r.1)
            &&& (r.0.len() > 0) == seen
        }),
    decreases i,
{
    if i == 0 {
        assert(bytes.take(0) =~= Seq::<u8>::empty());
        lemma_pow0(10);
        (Seq::empty(), 0)
    } else {
        let prefix = bytes.take(i);
        assert(prefix.drop_last() =~= bytes.take(i - 1));
        assert(prefix.last() == bytes[i - 1]);
        let (d, f) = lemma_literal_mantissa(bytes, i - 1);
        let (num, den, point, seen) = literal_scan(bytes.take(i - 1))->Ok_0;
        let b = bytes[i - 1];
        if b == 95 {
            (d, f)
        } else if b == 46 {
            (d, f)
        } else {
            let c = b as char;
            assert(d.push(c).drop_last() =~= d);
            assert(d.push(c).last() == c);
            lemma_pow_adds(10, f, 1);
            lemma_pow1(10);
            (d.push(c), if point { f + 1 } else { f })
        }
    }
}

/// The powers of ten that fit in a `u64` have exponents below twenty.
proof fn lemma_pow10_fits_u64(k: nat)
    requires
        pow(10, k) <= u64::MAX,
    ensures
        k < 20,
{
    if k >= 20 {
        vstd::arithmetic::power::lemma_pow_increases(10, 20, k);
        assert(pow(10, 10) == 10000000000) by {
            reveal_with_fuel(pow, 11);
        }
        lemma_pow_adds(10, 10, 10);
    }
}

/// A literal with a decimal point reads as the same number as the text of decimal notation
/// does, negated or not: `num!(0.25)` is `"0.25".parse()` and `num!(-0.25)` is
/// `"-0.25".parse()`.
pub proof fn law_literal_reads_as_decimal_text(bytes: Seq<u8>)
    requires
        num_literal(bytes) is Ok,
        exists|i: int| 0 <= i < bytes.len() && bytes[i] == 46,
    ensures
        num_literal_number(bytes, false) is Ok,
        decimal_text(bytes) == Ok::<(int, nat), ()>(num_literal_number(bytes, false)->Ok_0),
        num_literal_number(bytes, true) is Ok ==> decimal_text(seq![45u8] + bytes) == Ok::<(int, nat), ()>(
            num_literal_number(bytes, true)->Ok_0,
        ),
{
    assert(bytes.take(bytes.len() as int) =~= bytes);
    let (d, f) = lemma_literal_mantissa(bytes, bytes.len() as int);
    let (num, den, point, seen) = literal_scan(bytes)->Ok_0;
    lemma_literal_scan_chars(bytes);
    assert(point) by {
        let i = choose|i: int| 0 <= i < bytes.len() && bytes[i] == 46;
        lemma_literal_scan_point(bytes, i);
    }
    assert(bytes.len() > 0);
    assert(bytes[0] != 43 && bytes[0] != 45);
    assert(sign_prefix(bytes) == (0int, false));
    lemma_literal_scan_bounds(bytes);
    lemma_literal_scan_denominator_positive(bytes);
    lemma_pow10_fits_u64(f);
    let n = num as int;
    assert(n * sign(den as int) == n);
    assert(ratio_of(n, den as int) == reduced(n, den));
    if f == 0 {
        lemma_pow0(10);
        crate::ratio::lemma_gcd_one_right(abs(n));
        crate::ratio::lemma_reduced_of_lowest(n, 1);
    }
    crate::parse::law_decimal_sign(bytes);
    assert((-n) * sign(den as int) == -n);
    assert(ratio_of(-n, den as int) == reduced(-n, den));
    lemma_pow_positive(10, f);
    if num == 0 {
        crate::ratio::lemma_gcd_zero_left(den);
        assert(0nat / den == 0) by (nonlinear_arith)
            requires
                den > 0,
        ;
    }
    assert(reduced(-n, den) == (-reduced(n, den).0, reduced(n, den).1));
}

/// While the scan of a literal succeeds, every byte read is a digit, `_` or `.`.
proof fn lemma_literal_scan_chars(bytes: Seq<u8>)
    requires
        literal_scan(bytes) is Ok,
    ensures
        forall|i: int| 0 <= i < bytes.len() ==> (#[trigger] bytes[i] == 95 || bytes[i] == 46 || (48
            <= bytes[i] <= 57)),
    decreases bytes.len(),
{
    if bytes.len() > 0 {
        lemma_literal_scan_chars(bytes.drop_last());
        assert forall|i: int| 0 <= i < bytes.len() implies (#[trigger] bytes[i] == 95 || bytes[i] == 46 || (
        48 <= bytes[i] <= 57)) by {
            if i < bytes.len() - 1 {
                assert(bytes.drop_last()[i] == bytes[i]);
            }
        }
    }
}

/// Once a literal's scan has read a point, the point stays seen.
proof fn lemma_literal_scan_point(bytes: Seq<u8>, i: int)
    requires
        0 <= i < bytes.len(),
        bytes[i] == 46,
        literal_scan(bytes) is Ok,
    ensures
        literal_scan(bytes)->Ok_0.2,
    decreases bytes.len(),
{
    if i < bytes.len() - 1 {
        assert(bytes.drop_last()[i] == 46);
        lemma_literal_scan_point(bytes.drop_last(), i);
    }
}

/// While the scan of a literal succeeds, its numerator and denominator fit in a `u64`.
proof fn lemma_literal_scan_bounds(bytes: Seq<u8>)
    ensures
        literal_scan(bytes) matches Ok((n, d, _, _)) ==> n <= u64::MAX && d <= u64::MAX,
    decreases bytes.len(),
{
    if bytes.len() > 0 {
        lemma_literal_scan_bounds(bytes.drop_last());
    }
}

} // verus!

use core::cmp::Ordering::{Equal, Greater, Less};
use std::hash::{Hash, Hasher};

use number::rational_varint::{decode, encode, size, DecodeVarintError};
use number::typical::{Deserialize, DeserializeError, Serialize};
use number::{parse_decimal_exponent, LiteralError, Number, TryFromNumberError};

fn ratio(numerator: i64, denominator: i64) -> Number {
    Number::new_ratio_i64(numerator, denominator)
}

fn samples() -> Vec<Number> {
    vec![
        ratio(0, 1),
        ratio(1, 1),
        ratio(-1, 1),
        ratio(2, 3),
        ratio(-7, 4),
        ratio(22, 7),
        Number::new_i128(i128::MIN),
        Number::new_u128(u128::MAX) / 3,
    ]
}

#[test]
fn equal_numbers_denote_the_same_rational() {
    assert_eq!(ratio(2, 4), ratio(1, 2));
    assert_eq!(ratio(-6, -9), ratio(2, 3));
    assert_eq!(ratio(3, -6), ratio(-1, 2));
    assert_ne!(ratio(2, 3), ratio(3, 2));
    assert_ne!(ratio(1, 2), ratio(-1, 2));
}

#[test]
fn order_is_antisymmetric_transitive_and_agrees_with_equality() {
    let values = samples();
    for a in &values {
        for b in &values {
            assert_eq!(a.cmp(b) == Equal, a == b);
            assert_eq!(a.cmp(b) == Less, b.cmp(a) == Greater);
            for c in &values {
                if a.cmp(b) == Less && b.cmp(c) == Less {
                    assert_eq!(a.cmp(c), Less);
                }
            }
        }
    }
    assert_eq!(ratio(1, 3).cmp(&ratio(1, 2)), Less);
    assert_eq!(ratio(-1, 3).cmp(&ratio(-1, 2)), Greater);
    assert!(ratio(1, 3) < ratio(1, 2));
}

#[test]
fn addition_and_multiplication_are_commutative_and_associative() {
    let values = samples();
    for a in &values {
        for b in &values {
            assert_eq!(a + b, b + a);
            assert_eq!(a * b, b * a);
            for c in &values {
                assert_eq!((a + b) + c, a + (b + c));
                assert_eq!((a * b) * c, a * (b * c));
            }
        }
    }
    assert_eq!(ratio(1, 2) + ratio(1, 3), ratio(5, 6));
    assert_eq!(ratio(2, 3) * ratio(9, 4), ratio(3, 2));
}

#[test]
fn zero_and_one_are_identities() {
    for a in samples() {
        assert_eq!(&a + Number::zero(), a);
        assert_eq!(&a * Number::one(), a);
        assert_eq!(&a + a.negated(), Number::zero());
        assert_eq!(a.negated().negated(), a);
    }
}

#[test]
fn subtraction_and_division_undo_addition_and_multiplication() {
    let values = samples();
    for a in &values {
        for b in &values {
            assert_eq!((a + b) - b, *a);
            if !b.is_zero() {
                assert_eq!((a / b) * b, *a);
                assert_eq!((a * b) / b, *a);
                assert_eq!(Number::zero() / b, Number::zero());
            }
        }
    }
    assert_eq!(ratio(5, 6) - ratio(1, 3), ratio(1, 2));
    assert_eq!(ratio(3, 2) / ratio(9, 4), ratio(2, 3));
}

#[test]
fn negative_power_is_the_reciprocal() {
    for a in samples() {
        if a.is_zero() {
            continue;
        }
        for e in 0i16..4 {
            assert_eq!(a.clone().pow(-e), a.clone().pow(e).inv());
        }
    }
    assert_eq!(ratio(2, 3).pow(-2), ratio(9, 4));
    assert_eq!(ratio(-2, 3).pow(-3), ratio(-27, 8));
    assert_eq!(ratio(0, 1).pow(0), ratio(1, 1));
}

#[test]
fn reciprocal_undoes_itself() {
    for a in samples() {
        if !a.is_zero() {
            assert_eq!(a.inv().inv(), a);
        }
    }
    assert_eq!(ratio(-7, 3).inv(), ratio(-3, 7));
}

#[test]
fn sign_times_absolute_value_is_the_number() {
    for a in samples() {
        assert_eq!(a.signum() * a.abs(), a);
    }
    assert_eq!(ratio(-7, 3).abs(), ratio(7, 3));
    assert_eq!(ratio(-7, 3).signum(), ratio(-1, 1));
    assert_eq!(ratio(0, 1).signum(), ratio(0, 1));
}

#[test]
fn remainder_is_what_is_left_after_the_truncated_quotient() {
    assert_eq!(ratio(7, 2) % ratio(3, 4), ratio(1, 2));
    assert_eq!(ratio(-7, 2) % ratio(3, 4), ratio(-1, 2));
    assert_eq!(ratio(7, 2) % ratio(-3, 4), ratio(1, 2));
    assert_eq!(Number::new_i64(7) % 3, Number::new_i64(1));
    assert_eq!(Number::new_i64(-7) % 3, Number::new_i64(-1));
    let values = samples();
    for a in &values {
        for b in &values {
            if b.is_zero() {
                continue;
            }
            let remainder = a % b;
            let quotient = a / b;
            let truncated = &quotient - (&quotient % 1);
            assert_eq!(a - b * &truncated, remainder);
            assert!(remainder.abs() < b.abs());
            assert!(remainder.is_zero() || remainder.is_negative() == a.is_negative());
        }
    }
}

#[test]
fn fraction_text_reads_back() {
    for a in samples() {
        let text = a.to_fraction_string();
        assert_eq!(text.parse::<Number>().unwrap(), a);
        assert_eq!(Number::from_str_radix(&text, 10).unwrap(), a);
    }
    assert_eq!(ratio(-22, 7).to_fraction_string(), "-22/7");
    assert_eq!(Number::new_i128(i128::MIN).to_fraction_string(), "-170141183460469231731687303715884105728");
}

#[test]
fn serialization_reads_back_and_ignores_what_follows() {
    for a in samples() {
        let mut bytes = Vec::new();
        a.serialize(&mut bytes);
        assert_eq!(bytes, encode(&a));
        assert_eq!(a.size(), bytes.len());
        assert_eq!(size(&a), bytes.len());
        assert_eq!(Number::deserialize(&bytes).unwrap(), a);

        let (decoded, read) = decode(&bytes).unwrap();
        assert_eq!(decoded, a);
        assert_eq!(read, bytes.len());

        let mut longer = bytes.clone();
        longer.extend_from_slice(&[0x85, 0x01, 0x02]);
        let (decoded, read) = decode(&longer).unwrap();
        assert_eq!(decoded, a);
        assert_eq!(read, bytes.len());
        assert_eq!(Number::deserialize(&longer), Err(DeserializeError::TrailingBytes));

        for cut in 0..bytes.len() {
            assert_eq!(decode(&bytes[..cut]).unwrap_err(), DecodeVarintError::UnexpectedEnd);
            assert_eq!(Number::deserialize(&bytes[..cut]), Err(DeserializeError::UnexpectedEnd));
        }
    }
}

#[test]
fn encodes_zigzag_numerators_and_multi_byte_varints() {
    assert_eq!(encode(&ratio(0, 1)), vec![0, 1]);
    assert_eq!(encode(&ratio(-1, 1)), vec![1, 1]);
    assert_eq!(encode(&ratio(64, 1)), vec![0x80, 0x01, 1]);
    assert_eq!(encode(&ratio(1, 300)), vec![2, 0xac, 0x02]);
    assert_eq!(decode(&[0x80, 0x01, 1]).unwrap().0, ratio(64, 1));
    assert_eq!(decode(&[1, 0xac, 0x02]).unwrap().0, ratio(-1, 300));
    assert_eq!(decode(&[4, 6]).unwrap().0, ratio(1, 3));
}

#[test]
fn decoding_reports_each_error() {
    assert_eq!(decode(&[]).unwrap_err(), DecodeVarintError::UnexpectedEnd);
    assert_eq!(decode(&[0x80]).unwrap_err(), DecodeVarintError::UnexpectedEnd);
    assert_eq!(decode(&[2]).unwrap_err(), DecodeVarintError::UnexpectedEnd);
    assert_eq!(decode(&[2, 0]).unwrap_err(), DecodeVarintError::ZeroDenominator);
    assert_eq!(decode(&[2, 0x80, 0]).unwrap_err(), DecodeVarintError::ZeroDenominator);
    assert_eq!(Number::deserialize(&[2, 0]), Err(DeserializeError::ZeroDenominator));
    assert_eq!(Number::deserialize(&[0x81]), Err(DeserializeError::UnexpectedEnd));
    assert_eq!(Number::deserialize(&[2, 1, 0]), Err(DeserializeError::TrailingBytes));
}

#[test]
fn integers_convert_back() {
    assert_eq!(i8::try_from(&Number::new_i8(i8::MIN)), Ok(i8::MIN));
    assert_eq!(u16::try_from(&Number::new_u16(u16::MAX)), Ok(u16::MAX));
    assert_eq!(i64::try_from(Number::new_i64(-5)), Ok(-5));
    assert_eq!(u8::try_from(&Number::new_i64(-5)), Err(TryFromNumberError));
    assert_eq!(i8::try_from(&Number::new_i64(128)), Err(TryFromNumberError));
    assert_eq!(i64::try_from(&ratio(1, 2)), Err(TryFromNumberError));
    assert_eq!(u128::try_from(&Number::new_u128(u128::MAX)), Ok(u128::MAX));
    assert_eq!(u128::try_from(&(Number::new_u128(u128::MAX) + 1)), Err(TryFromNumberError));
    assert_eq!(i128::try_from(&Number::new_i128(i128::MIN)), Ok(i128::MIN));
    assert_eq!(i128::try_from(&(Number::new_i128(i128::MIN) - 1)), Err(TryFromNumberError));
    assert_eq!(usize::try_from(&Number::new_usize(usize::MAX)), Ok(usize::MAX));
    assert_eq!(isize::try_from(&Number::new_isize(isize::MIN)), Ok(isize::MIN));
}

#[test]
fn literals_report_each_error() {
    assert_eq!(Number::try_parse_num_literal("1_000.050"), Ok((1000050, 1000)));
    assert_eq!(Number::try_parse_num_literal("1.2.3"), Err(LiteralError::MultipleDecimalPoints));
    assert_eq!(Number::try_parse_num_literal("12a"), Err(LiteralError::InvalidCharacter));
    assert_eq!(Number::try_parse_num_literal("-1"), Err(LiteralError::InvalidCharacter));
    assert_eq!(Number::try_parse_num_literal("18446744073709551616"), Err(LiteralError::NumeratorOverflow));
    assert_eq!(
        Number::try_parse_num_literal("0.00000000000000000001"),
        Err(LiteralError::DenominatorOverflow)
    );
    assert_eq!(Number::try_parse_num_literal("_."), Err(LiteralError::NoDigits));
    assert_eq!(Number::try_parse_num_literal(""), Err(LiteralError::NoDigits));
    assert_eq!(
        Number::try_from_num_ratio_literals("1", false, "0.0", false),
        Err(LiteralError::ZeroDenominator)
    );
    assert_eq!(
        Number::try_from_num_ratio_literals("18446744073709551615", false, "0.5", false),
        Err(LiteralError::RatioNumeratorOverflow)
    );
    assert_eq!(
        Number::try_from_num_ratio_literals("0.5", false, "18446744073709551615", false),
        Err(LiteralError::RatioDenominatorOverflow)
    );
    assert_eq!(
        Number::try_from_unsigned_ratio_parts(1, 9223372036854775808, true),
        Err(LiteralError::NegativeDenominatorOverflow)
    );
    assert_eq!(
        Number::try_from_unsigned_ratio_parts(9223372036854775809, 1, true),
        Err(LiteralError::NegativeNumeratorOverflow)
    );
    assert_eq!(Number::try_from_unsigned_ratio_parts(1, 0, false), Err(LiteralError::ZeroDenominator));
    assert_eq!(
        Number::try_from_unsigned_ratio_parts(9223372036854775808, 1, true),
        Ok(Number::new_i64(i64::MIN))
    );
    assert_eq!(Number::try_from_num_literal("42.21", true), Ok(ratio(-4221, 100)));
    assert_eq!(Number::try_from_num_ratio_literals("1.5", true, "0.25", true), Ok(Number::new_i64(6)));
    assert_eq!(LiteralError::NoDigits.message(), "num literal should contain digits");
    assert_eq!(LiteralError::ZeroDenominator.message(), "num ratio denominator should not be zero");
}

#[test]
fn reads_decimal_exponents() {
    assert_eq!(parse_decimal_exponent(b"12"), Ok(12));
    assert_eq!(parse_decimal_exponent(b"+1_2"), Ok(12));
    assert_eq!(parse_decimal_exponent(b"-3"), Ok(-3));
    assert_eq!(parse_decimal_exponent(b"170141183460469231731687303715884105727"), Ok(i128::MAX));
    assert_eq!(parse_decimal_exponent(b"-170141183460469231731687303715884105727"), Ok(-i128::MAX));
    assert_eq!(parse_decimal_exponent(b"170141183460469231731687303715884105728"), Err(()));
    assert_eq!(parse_decimal_exponent(b""), Err(()));
    assert_eq!(parse_decimal_exponent(b"-"), Err(()));
    assert_eq!(parse_decimal_exponent(b"_"), Err(()));
    assert_eq!(parse_decimal_exponent(b"1e"), Err(()));
}

#[test]
fn reads_rationals_and_decimal_notation() {
    assert_eq!("6/4".parse::<Number>(), Ok(ratio(3, 2)));
    assert_eq!("-6/+4".parse::<Number>(), Ok(ratio(-3, 2)));
    assert_eq!("+7".parse::<Number>(), Ok(ratio(7, 1)));
    assert_eq!("-0".parse::<Number>(), Ok(ratio(0, 1)));
    assert_eq!("1_000.5".parse::<Number>(), Ok(ratio(2001, 2)));
    assert_eq!("-2.50E-1".parse::<Number>(), Ok(ratio(-1, 4)));
    assert_eq!("0.000e5".parse::<Number>(), Ok(ratio(0, 1)));
    assert_eq!("12e2".parse::<Number>(), Ok(ratio(1200, 1)));
    assert_eq!("5.".parse::<Number>(), Ok(ratio(5, 1)));
    assert!("1/0".parse::<Number>().is_err());
    assert!("-+1".parse::<Number>().is_err());
    assert!("1.2.3".parse::<Number>().is_err());
    assert!("12_3".parse::<Number>().is_err());
    assert!(".".parse::<Number>().is_err());
    assert!("1e".parse::<Number>().is_err());
    assert!("abc".parse::<Number>().is_err());
    assert!("".parse::<Number>().is_err());
}

#[test]
fn debug_text_shows_decimals() {
    assert_eq!(ratio(-1, 8).to_debug_string(), "-0.125");
    assert_eq!(ratio(1, 3).to_debug_string(), "0.33333333333333333333333333333333...");
    assert_eq!(ratio(-1, 6).to_debug_string(), "-0.16666666666666666666666666666666...");
    assert_eq!(ratio(22, 7).to_debug_string(), "3.14285714285714285714285714285714...");
    assert_eq!(ratio(-42, 1).to_debug_string(), "-42");
    assert_eq!(ratio(0, 1).to_debug_string(), "0");
}

#[test]
fn sums_from_zero() {
    assert_eq!(Number::sum_of(&[]), Number::zero());
    assert_eq!(Number::sum_of(&[ratio(1, 2), ratio(1, 3), ratio(1, 6)]), Number::one());
}

fn hash_of(value: &Number) -> u64 {
    let mut hasher = std::collections::hash_map::DefaultHasher::new();
    value.hash(&mut hasher);
    hasher.finish()
}

#[test]
fn equal_numbers_hash_alike() {
    let a = ratio(2, 4);
    let b = "1/2".parse::<Number>().unwrap();
    let c = Number::new_i64(3) / 6;
    let d = "0.5".parse::<Number>().unwrap();
    assert_eq!(hash_of(&a), hash_of(&b));
    assert_eq!(hash_of(&a), hash_of(&c));
    assert_eq!(hash_of(&a), hash_of(&d));
    assert_eq!(hash_of(&Number::zero()), hash_of(&(ratio(1, 3) - ratio(1, 3))));
    assert_eq!(hash_of(&Number::zero()), hash_of(&Number::zero().negated()));
}

#[test]
fn ratio_literal_is_the_quotient_of_its_literals() {
    let cases = [
        ("1.5", false, "0.25", false),
        ("42.21", true, "3", false),
        ("7", false, "0.5", true),
        ("0", true, "9.75", true),
        ("1_000.050", false, "12", false),
    ];
    for (numerator, numerator_negative, denominator, denominator_negative) in cases {
        let whole = Number::try_from_num_ratio_literals(
            numerator,
            numerator_negative,
            denominator,
            denominator_negative,
        )
        .unwrap();
        let left = Number::try_from_num_literal(numerator, numerator_negative).unwrap();
        let right = Number::try_from_num_literal(denominator, denominator_negative).unwrap();
        assert_eq!(whole, left / right);
    }
    assert_eq!(Number::__from_num_ratio_literals("1.5", false, "0.25", false), Number::new_i64(6));
    assert_eq!(Number::__from_num_ratio_literals("32", false, "12", false), ratio(8, 3));
}

#[test]
fn underscores_in_decimal_notation_are_ignored() {
    let plain = ["10.5", "-0.125", "1.25e2", "+3.5E-2", "7.e1_0", "1e5", "1.2.3", "12", "."];
    for text in plain {
        let bytes = text.as_bytes();
        for position in 0..=bytes.len() {
            if position < bytes.len() && (bytes[position] == b'+' || bytes[position] == b'-') {
                continue;
            }
            let mut with_underscore = bytes[..position].to_vec();
            with_underscore.push(b'_');
            with_underscore.extend_from_slice(&bytes[position..]);
            let with_underscore = String::from_utf8(with_underscore).unwrap();
            if text.contains('.') || text.contains('e') {
                assert_eq!(with_underscore.parse::<Number>(), text.parse::<Number>());
            }
        }
    }
    assert_eq!("1_0.5".parse::<Number>(), Ok(ratio(21, 2)));
    assert_eq!("1.5e_1".parse::<Number>(), Ok(ratio(15, 1)));
}

#[test]
fn exponent_scales_by_a_power_of_ten() {
    for mantissa in ["1.25", "-0.5", "3.", "+0.004"] {
        let value = mantissa.parse::<Number>().unwrap();
        for (exponent, power) in [("2", ratio(100, 1)), ("-3", ratio(1, 1000)), ("0", ratio(1, 1)), ("+1", ratio(10, 1))] {
            let scaled = format!("{}e{}", mantissa, exponent).parse::<Number>().unwrap();
            assert_eq!(scaled, &value * &power);
            let scaled = format!("{}E{}", mantissa, exponent).parse::<Number>().unwrap();
            assert_eq!(scaled, &value * &power);
        }
    }
}

#[test]
fn exponent_sign_negates_or_keeps() {
    for digits in ["12", "1_2", "0", "", "x", "170141183460469231731687303715884105727"] {
        let plain = parse_decimal_exponent(digits.as_bytes());
        let minus = parse_decimal_exponent(format!("-{}", digits).as_bytes());
        let plus = parse_decimal_exponent(format!("+{}", digits).as_bytes());
        assert_eq!(minus, plain.map(|e| -e));
        assert_eq!(plus, plain);
    }
}

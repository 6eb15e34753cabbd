#![allow(clippy::erasing_op)]

use number::typical::{Deserialize, Serialize};
use number::Number;
use core::cmp::Ordering::{Equal, Greater, Less};

fn lit(text: &str) -> Number {
    Number::__from_num_literal(text, false)
}

fn neg_lit(text: &str) -> Number {
    Number::__from_num_literal(text, true)
}

fn ratio_lit(numerator: &str, numerator_negative: bool, denominator: &str, denominator_negative: bool) -> Number {
    Number::__from_num_ratio_literals(numerator, numerator_negative, denominator, denominator_negative)
}

#[test]
fn creates_from_primitive_integer() {
    assert_eq!(Number::new_i32(-7), Number::new_i64(-7));
}

#[test]
fn creates_from_boolean_state() {
    assert_eq!(Number::from(true), lit("1"));
    assert_eq!(Number::from(false), neg_lit("1"));
    assert_eq!(Number::from(Some(true)), lit("1"));
    assert_eq!(Number::from(Some(false)), neg_lit("1"));
    assert_eq!(Number::from(None::<bool>), lit("0"));
}

#[test]
fn parses_finite_decimal_strings_exactly() {
    assert_eq!("10.5".parse::<Number>().unwrap(), Number::from(21) / 2);
    assert_eq!("-.125".parse::<Number>().unwrap(), Number::new_ratio_i64(-1, 8));
    assert_eq!("1.25e2".parse::<Number>().unwrap(), Number::from(125));
    assert_eq!("1e-3".parse::<Number>().unwrap(), Number::new_ratio_i64(1, 1000));
}

#[test]
fn supports_ordering_and_hashing() {
    let mut values = [Number::new_i64(2), Number::new_ratio_i64(1, 2)];
    values.sort_by(|a, b| a.cmp(b));
    assert_eq!(values, [Number::new_ratio_i64(1, 2), Number::new_i64(2)]);

    let mut set = std::collections::HashSet::new();
    set.insert(Number::new_ratio_i64(2, 4));
    assert!(set.contains(&Number::new_ratio_i64(1, 2)));
}

#[test]
fn compares_signed_integer_samples() {
    let samples = [
        (-1, -1, Equal),
        (-1, 0, Less),
        (-1, 1, Less),
        (0, -1, Greater),
        (0, 0, Equal),
        (0, 1, Less),
        (1, -1, Greater),
        (1, 0, Greater),
        (1, 1, Equal),
        (999, 1000, Less),
        (1000, 1000, Equal),
        (1001, 1000, Greater),
        (1000, 999, Greater),
        (1000, 1001, Less),
        (-999, -1000, Greater),
        (-1000, -1000, Equal),
        (-1001, -1000, Less),
        (-1000, -999, Less),
        (-1000, -1001, Greater),
    ];

    for (left, right, result) in samples {
        assert_eq!(
            Number::new_i64(left).cmp(&Number::new_i64(right)),
            result,
            "{left:?} {} {right:?}",
            match result {
                Less => "<",
                Equal => "=",
                Greater => ">",
            }
        );
    }
}

#[test]
fn supports_math_ops_with_convertible_numbers() {
    let one_half = Number::new_ratio_i64(1, 2);

    assert_eq!(one_half.clone() + 2i32, Number::new_ratio_i64(5, 2));
    assert_eq!(&one_half + 2u64, Number::new_ratio_i64(5, 2));
    assert_eq!(2i32 + one_half.clone(), Number::new_ratio_i64(5, 2));
    assert_eq!(2i32 - &one_half, Number::new_ratio_i64(3, 2));
    assert_eq!(2i32 * one_half.clone(), Number::new_i64(1));
    assert_eq!(2i32 / &one_half, Number::new_i64(4));
    assert_eq!(Number::new_i64(5) % 2u8, Number::new_i64(1));
    assert_eq!(-&one_half, Number::new_ratio_i64(-1, 2));

    let nonzero = core::num::NonZeroI32::new(3).unwrap();
    assert_eq!(nonzero.get() + one_half, Number::new_ratio_i64(7, 2));

    assert_eq!(true + Number::new_i64(2), Number::new_i64(3));
    assert_eq!(false * Number::new_i64(2), Number::new_i64(-2));
    assert_eq!(Some(true) - Number::new_i64(2), Number::new_i64(-1));
    assert_eq!(None::<bool> + Number::new_i64(2), Number::new_i64(2));
}

#[test]
fn supports_signed_integer_math_identities() {
    assert_eq!(lit("1") + 2, lit("3"));
    assert_eq!(2 + lit("1"), lit("3"));
    assert_eq!(neg_lit("1") + -2, neg_lit("3"));
    assert_eq!(-2 + neg_lit("1"), neg_lit("3"));
    assert_eq!(neg_lit("1") + 2, lit("1"));
    assert_eq!(neg_lit("2") + 1, neg_lit("1"));
    assert_eq!(lit("2") - 1, lit("1"));
    assert_eq!(lit("1") - 2, neg_lit("1"));
    assert_eq!(lit("0") - 0, lit("0"));
    assert_eq!(lit("1") - 1, lit("0"));
    assert_eq!(lit("1") + -1, lit("0"));
    assert_eq!(lit("0") * -1, lit("0"));
    assert_eq!(lit("1") * 0, lit("0"));
    assert_eq!(lit("3") * 2, lit("6"));
    assert_eq!(neg_lit("3") * -2, lit("6"));
    assert_eq!(lit("3") * -2, neg_lit("6"));
    assert_eq!(neg_lit("3") * 2, neg_lit("6"));
}

#[test]
fn raises_to_integer_powers() {
    let two_thirds = Number::new_ratio_i64(2, 3);

    assert_eq!(two_thirds.clone().pow(3i16), Number::new_ratio_i64(8, 27));
    assert_eq!(two_thirds.clone().pow(-2i16), Number::new_ratio_i64(9, 4));
    assert_eq!(two_thirds.pow(0i16), Number::new_i64(1));

    assert_eq!(lit("2").pow(3i16).to_debug_string(), "8");
    assert_eq!(neg_lit("2").pow(3i16).to_debug_string(), "-8");
}

#[test]
fn sums_iterators() {
    let values = [Number::new_ratio_i64(1, 2), Number::new_ratio_i64(1, 3), Number::new_i64(2)];

    assert_eq!(Number::sum_of(&values.clone()), Number::new_ratio_i64(17, 6));
    assert_eq!(Number::sum_of(&values), Number::new_ratio_i64(17, 6));
    assert_eq!(Number::sum_of(&[]), Number::new_i64(0));
}

#[test]
fn tries_into_primitive_integers() {
    let number = Number::new_i8(i8::MIN);
    assert_eq!(i8::try_from(number.clone()).unwrap(), i8::MIN);
    assert_eq!(i8::try_from(&number).unwrap(), i8::MIN);
    let number = Number::new_i16(i16::MIN);
    assert_eq!(i16::try_from(number.clone()).unwrap(), i16::MIN);
    assert_eq!(i16::try_from(&number).unwrap(), i16::MIN);
    let number = Number::new_i32(i32::MIN);
    assert_eq!(i32::try_from(number.clone()).unwrap(), i32::MIN);
    assert_eq!(i32::try_from(&number).unwrap(), i32::MIN);
    let number = Number::new_i64(i64::MIN);
    assert_eq!(i64::try_from(number.clone()).unwrap(), i64::MIN);
    assert_eq!(i64::try_from(&number).unwrap(), i64::MIN);
    let number = Number::new_i128(i128::MIN);
    assert_eq!(i128::try_from(number.clone()).unwrap(), i128::MIN);
    assert_eq!(i128::try_from(&number).unwrap(), i128::MIN);
    let number = Number::new_isize(isize::MIN);
    assert_eq!(isize::try_from(number.clone()).unwrap(), isize::MIN);
    assert_eq!(isize::try_from(&number).unwrap(), isize::MIN);
    let number = Number::new_u8(u8::MAX);
    assert_eq!(u8::try_from(number.clone()).unwrap(), u8::MAX);
    assert_eq!(u8::try_from(&number).unwrap(), u8::MAX);
    let number = Number::new_u16(u16::MAX);
    assert_eq!(u16::try_from(number.clone()).unwrap(), u16::MAX);
    assert_eq!(u16::try_from(&number).unwrap(), u16::MAX);
    let number = Number::new_u32(u32::MAX);
    assert_eq!(u32::try_from(number.clone()).unwrap(), u32::MAX);
    assert_eq!(u32::try_from(&number).unwrap(), u32::MAX);
    let number = Number::new_u64(u64::MAX);
    assert_eq!(u64::try_from(number.clone()).unwrap(), u64::MAX);
    assert_eq!(u64::try_from(&number).unwrap(), u64::MAX);
    let number = Number::new_u128(u128::MAX);
    assert_eq!(u128::try_from(number.clone()).unwrap(), u128::MAX);
    assert_eq!(u128::try_from(&number).unwrap(), u128::MAX);
    let number = Number::new_usize(usize::MAX);
    assert_eq!(usize::try_from(number.clone()).unwrap(), usize::MAX);
    assert_eq!(usize::try_from(&number).unwrap(), usize::MAX);
}

#[test]
fn rejects_invalid_primitive_integer_conversions() {
    assert!(i8::try_from(Number::new_i64(i64::from(i8::MAX) + 1)).is_err());
    assert!(u8::try_from(Number::new_i64(-1)).is_err());
    assert!(u128::try_from(Number::new_i64(-1)).is_err());
    assert!(i128::try_from(Number::new_u128(u128::MAX)).is_err());
    assert!(i64::try_from(Number::new_ratio_i64(3, 2)).is_err());
}

#[test]
fn creates_from_128_bit_integer_boundaries() {
    let i64_min_as_number: Number = Number::new_i64(i64::MIN);
    let u64_max_as_number: Number = Number::new_u64(u64::MAX);

    assert_eq!(i64_min_as_number, Number::new_i128(i64::MIN as i128));
    assert_eq!(u64_max_as_number, Number::new_u128(u64::MAX as u128));
    assert_eq!(Number::new_i128(i128::MIN).to_fraction_string(), i128::MIN.to_string());
    assert_eq!(Number::new_i128(i128::MAX).to_fraction_string(), i128::MAX.to_string());
    assert_eq!(Number::new_u128(u128::MAX).to_fraction_string(), u128::MAX.to_string());
}

#[test]
fn supports_128_bit_ratios() {
    let denominator = 1i128 << 100;
    let numerator = denominator * 3;

    assert_eq!(Number::new_ratio_i128(numerator, denominator), Number::new_i64(3));
    assert_eq!(
        Number::new_ratio_i128(i128::MIN, i128::MAX).to_fraction_string(),
        format!("{}/{}", i128::MIN, i128::MAX)
    );
    assert_eq!(
        Number::new_ratio_i128(i128::MAX - 1, i128::MAX).to_fraction_string(),
        format!("{}/{}", i128::MAX - 1, i128::MAX)
    );
}

#[test]
fn supports_math_ops_with_128_bit_integers() {
    let big_u = u128::MAX;
    let big_i = i128::MIN + 1;
    let half = Number::new_ratio_i64(1, 2);

    assert_eq!((half.clone() + big_u).to_fraction_string(), "680564733841876926926749214863536422911/2");
    assert_eq!((big_u - half.clone()).to_fraction_string(), "680564733841876926926749214863536422909/2");
    assert_eq!(half.clone() * big_i, Number::new_ratio_i128(big_i, 2));
    assert_eq!((big_i / half).to_fraction_string(), "-340282366920938463463374607431768211454");
}

#[test]
fn creates_from_num_macro_at_const_time() {
    let negative = neg_lit("1231232312311232123");
    let i64_min = neg_lit("9223372036854775808");
    let zero = lit("0");
    let positive = lit("123123123");
    let u64_max = lit("18446744073709551615");
    let ratio = ratio_lit("32", false, "12", false);
    let negative_ratio = ratio_lit("32", true, "12", false);
    let negative_denominator_ratio = ratio_lit("32", false, "12", true);
    let positive_from_two_negatives_ratio = ratio_lit("32", true, "12", true);
    let decimal_numerator_ratio = ratio_lit("42.21", false, "3", false);
    let decimal_denominator_ratio = ratio_lit("1", false, "2.5", false);
    let decimal_ratio = ratio_lit("1.5", false, "0.25", false);
    let decimal = lit("42.21");
    let negative_decimal = neg_lit("42.21");
    let underscored_decimal = lit("1_000.050");

    assert_eq!(negative, Number::new_i64(-1231232312311232123));
    assert_eq!(i64_min, Number::new_i64(i64::MIN));
    assert_eq!(zero, Number::new_i64(0));
    assert_eq!(positive, Number::new_i64(123123123));
    assert_eq!(u64_max, Number::new_u64(u64::MAX));
    assert_eq!(ratio, Number::new_ratio_i64(32, 12));
    assert_eq!(negative_ratio, Number::new_ratio_i64(-32, 12));
    assert_eq!(negative_denominator_ratio, Number::new_ratio_i64(-32, 12));
    assert_eq!(positive_from_two_negatives_ratio, Number::new_ratio_i64(32, 12));
    assert_eq!(decimal_numerator_ratio, Number::new_ratio_i64(4221, 300));
    assert_eq!(decimal_denominator_ratio, Number::new_ratio_i64(10, 25));
    assert_eq!(decimal_ratio, Number::new_ratio_i64(1500, 250));
    assert_eq!(decimal, Number::new_ratio_i64(4221, 100));
    assert_eq!(negative_decimal, Number::new_ratio_i64(-4221, 100));
    assert_eq!(underscored_decimal, Number::new_ratio_i64(1_000_050, 1000));
}

#[test]
fn creates_from_num_macro_with_convertible_expressions() {
    let two = 2i32;
    let numerator = 6i64;
    let denominator = 4i64;
    let adjusted_numerator = numerator + 2;
    let adjusted_denominator = denominator - 2;
    let big = u128::MAX;

    assert_eq!(Number::from(two), Number::new_i64(2));
    assert_eq!(Number::from(two + 3), Number::new_i64(5));
    assert_eq!(Number::from(Some(false)), Number::new_i64(-1));
    assert_eq!(Number::from(big), Number::new_u128(u128::MAX));
    assert_eq!(Number::from(numerator) / Number::from(denominator), Number::new_ratio_i64(3, 2));
    assert_eq!(Number::from(numerator).negated() / Number::from(denominator), Number::new_ratio_i64(-3, 2));
    assert_eq!(Number::from(adjusted_numerator) / Number::from(adjusted_denominator), Number::new_i64(4));
}

#[test]
fn debug_formats_rationals_as_decimal_numbers() {
    assert_eq!(neg_lit("1").to_debug_string(), "-1");
    assert_eq!(lit("3").to_debug_string(), "3");
    assert_eq!((Number::new_i64(4) / 2).to_debug_string(), "2");
    assert_eq!(Number::new_ratio_i64(1, 2).to_debug_string(), "0.5");
    assert_eq!(Number::new_ratio_i64(1, 2).to_fraction_string(), "1/2");
    assert_eq!(Number::new_ratio_i64(4, 2).to_fraction_string(), "2");
    assert_eq!((Number::new_i64(7) / 4).to_debug_string(), "1.75");
    assert_eq!((Number::new_i64(15) / 10).to_debug_string(), "1.5");
    assert_eq!((Number::new_i64(105) / 100).to_debug_string(), "1.05");
    assert_eq!((Number::new_i64(1) / 10).to_debug_string(), "0.1");
    assert_eq!(Number::new_ratio_i64(32, 12).to_debug_string(), "2.66666666666666666666666666666666...");
    assert_eq!(
        Number::new_ratio_i128(10031232131231312321, 10_000_000_000).to_debug_string(),
        "1003123213.1231312321"
    );
}

#[test]
fn zero_divided_by_integer_stays_zero() {
    assert_eq!(Number::new_i64(0) / 10_000, lit("0"));
}

#[test]
fn serde_serializes_as_string() {
    let number = Number::new_ratio_i64(2, 3);
    let encoded = number.to_fraction_string();

    assert_eq!(encoded, "2/3");
    assert_eq!(encoded.parse::<Number>().unwrap(), number);
}

#[test]
fn typical_serializes_as_two_arbitrary_size_varints() {
    let number = Number::new_ratio_i64(2, 3);
    let mut encoded = Vec::new();
    number.serialize(&mut encoded);

    assert_eq!(encoded, vec![4, 3]);
    assert_eq!(number.size(), encoded.len());
    assert_eq!(Number::deserialize(&encoded).unwrap(), number);

    let integer = Number::new_i64(42);
    let mut encoded = Vec::new();
    integer.serialize(&mut encoded);
    assert_eq!(encoded, vec![84, 1]);
    assert_eq!(Number::deserialize(&encoded).unwrap(), integer);

    let negative = Number::new_ratio_i64(-2, 3);
    let mut encoded = Vec::new();
    negative.serialize(&mut encoded);
    assert_eq!(encoded, vec![3, 3]);
    assert_eq!(Number::deserialize(&encoded).unwrap(), negative);
}

#[test]
fn typical_varints_support_values_larger_than_u128() {
    let number = "680564733841876926926749214863536422912/3".parse::<Number>().unwrap();
    let mut encoded = Vec::new();
    number.serialize(&mut encoded);

    assert!(encoded.len() > 18);
    assert_eq!(Number::deserialize(&encoded).unwrap(), number);
}

#[test]
fn supports_num_traits() {
    assert!(Number::zero().is_zero());
    assert!(Number::one().is_one());
    assert_eq!(Number::from_str_radix("22/7", 10).unwrap(), Number::new_ratio_i64(22, 7));
    assert!(Number::from_str_radix("10", 2).is_err());
    assert_eq!(Number::new_i64(-2).abs(), Number::new_i64(2));
    assert_eq!(Number::new_i64(2).abs_sub(&Number::new_i64(5)), Number::new_i64(0));
    assert_eq!(Number::new_i64(-2).signum(), Number::new_i64(-1));
    assert_eq!(Number::new_i64(2).inv(), Number::new_ratio_i64(1, 2));
    assert_eq!(Number::new_ratio_i64(2, 3).pow(3i16), Number::new_ratio_i64(8, 27));
    assert_eq!(Number::new_ratio_i64(2, 3).pow(i16::from(3u8)), Number::new_ratio_i64(8, 27));
    assert_eq!(Number::new_ratio_i64(2, 3).pow(i16::from(-2i8)), Number::new_ratio_i64(9, 4));
    assert_eq!(Number::new_ratio_i64(2, 3).clone().pow(-2i16), Number::new_ratio_i64(9, 4));
    assert_eq!(Number::new_ratio_i64(2, 3).clone().pow(i16::from(3u8)), Number::new_ratio_i64(8, 27));
    assert_eq!(Number::one().signum() * 0, Number::zero());
    assert_eq!(Number::one().signum() * 1, Number::one());
    assert_eq!(Number::one().negated().signum() * 0, Number::zero());
    assert_eq!(Number::one().negated().signum() * 1, neg_lit("1"));
}

#[test]
fn serde_parses_decimal_string_without_float_feature() {
    let text = "10.5";
    let num: Number = text.parse().unwrap();
    assert_eq!(num, Number::from(21) / 2);
}

#[test]
fn number_serde_parses_integer() {
    let num: Number = Number::new_u64(10);
    assert_eq!(num, Number::from(10i32));
}

#[test]
fn serde_integer_serde_parses_integer() {
    let num: Number = Number::new_i64(10);
    assert_eq!(num, Number::from(10i32));
}

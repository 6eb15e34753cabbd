//! Reading numbers from text: `n`, `n/d` (each part may lead with `+`, the whole with `-`),
//! and finite decimal or scientific notation (`10.5`, `-.125`, `1.25e2`, `1e-3`).

use crate::number::Number;
use crate::ratio::{
    gcd, lemma_gcd_one_right, lemma_gcd_symmetric, lemma_reduced_linear, lemma_reduced_of_lowest,
    lemma_reduced_scale, ratio_mul, ratio_pow, reduced,
};
use vstd::arithmetic::power::{lemma1_pow, lemma_pow0, lemma_pow_adds, lemma_pow_positive, pow};
use vstd::prelude::*;
use vstd::string::StringSliceAdditionalSpecFns;

verus! {

/// A decimal digit character.
pub open spec fn is_digit_char(c: char) -> bool {
    '0' <= c && c <= '9'
}

/// The value of a string of decimal digits, most significant first.
pub open spec fn digits_text_value(s: Seq<char>) -> nat
    decreases s.len(),
{
    if s.len() == 0 {
        0
    } else {
        digits_text_value(s.drop_last()) * 10 + ((s.last() as int - 48) as nat)
    }
}

/// What Malachite reads as a natural number: an optional `+`, then one or more decimal digits.
pub open spec fn natural_text(s: Seq<char>) -> Option<nat> {
    let digits = if s.len() > 0 && s[0] == '+' {
        s.drop_first()
    } else {
        s
    };
    if digits.len() > 0 && forall|i: int| 0 <= i < digits.len() ==> is_digit_char(#[trigger] digits[i]) {
        Some(digits_text_value(digits))
    } else {
        None
    }
}

/// The index of the first `c` in `s`, or `-1`.
pub open spec fn first_index_of(s: Seq<char>, c: char) -> int
    decreases s.len(),
{
    if s.len() == 0 {
        -1
    } else if s[0] == c {
        0
    } else {
        let k = first_index_of(s.drop_first(), c);
        if k < 0 {
            -1
        } else {
            k + 1
        }
    }
}

/// What Malachite reads as a rational: an optional `-` (not followed by `+`), then a natural,
/// or a natural, `/` and a nonzero natural; in lowest terms.
pub open spec fn rational_text(s: Seq<char>) -> Option<(int, nat)> {
    let negative = s.len() > 0 && s[0] == '-';
    let body = if negative {
        s.drop_first()
    } else {
        s
    };
    if negative && body.len() > 0 && body[0] == '+' {
        None
    } else {
        let k = first_index_of(body, '/');
        if k >= 0 {
            match (natural_text(body.take(k)), natural_text(body.skip(k + 1))) {
                (Some(n), Some(d)) => if d == 0 {
                    None
                } else {
                    Some(reduced(if negative { -n } else { n as int }, d))
                },
                _ => None,
            }
        } else {
            match natural_text(body) {
                Some(n) => Some((if negative { -n } else { n as int }, 1)),
                None => None,
            }
        }
    }
}

/// A byte is a decimal digit.
pub open spec fn is_digit_byte(b: u8) -> bool {
    48 <= b && b <= 57
}

/// The length of an optional leading sign, and whether it is `-`.
pub open spec fn sign_prefix(bytes: Seq<u8>) -> (int, bool) {
    if bytes.len() > 0 && (bytes[0] == 45 || bytes[0] == 43) {
        (1, bytes[0] == 45)
    } else {
        (0, false)
    }
}

/// Reads exponent digits from position `i` on, with `acc` the value so far: the value and
/// whether a digit was seen, or `Err` on another byte or past `i128::MAX`. `_` is skipped.
pub open spec fn exponent_scan(bytes: Seq<u8>, i: int, acc: int, seen: bool) -> Result<(int, bool), ()>
    decreases bytes.len() - i,
{
    if i >= bytes.len() || i < 0 {
        Ok((acc, seen))
    } else if bytes[i] == 95 {
        exponent_scan(bytes, i + 1, acc, seen)
    } else if is_digit_byte(bytes[i]) {
        let next = acc * 10 + (bytes[i] - 48);
        if next > i128::MAX {
            Err(())
        } else {
            exponent_scan(bytes, i + 1, next, true)
        }
    } else {
        Err(())
    }
}

/// A decimal exponent: an optional sign, then digits with optional `_` separators, within
/// `i128`.
pub open spec fn exponent_text(bytes: Seq<u8>) -> Result<int, ()> {
    let (start, negative) = sign_prefix(bytes);
    match exponent_scan(bytes, start, 0, false) {
        Err(()) => Err(()),
        Ok((value, seen)) => if !seen {
            Err(())
        } else if negative {
            Ok(-value)
        } else {
            Ok(value)
        },
    }
}

/// Reads a decimal exponent: an optional sign, then digits with optional `_` separators.
pub fn parse_decimal_exponent(bytes: &[u8]) -> (r: Result<i128, ()>)
    ensures
        match exponent_text(bytes@) {
            Ok(e) => r == Ok::<i128, ()>(e as i128) && i128::MIN <= e <= i128::MAX,
            Err(()) => r is Err,
        },
{
    let mut index: usize = 0;
    let negative = if bytes.len() > 0 && bytes[0] == 45u8 {
        index = 1;
        true
    } else if bytes.len() > 0 && bytes[0] == 43u8 {
        index = 1;
        false
    } else {
        false
    };
    let mut exponent: i128 = 0;
    let mut seen_digit = false;
    while index < bytes.len()
        invariant
            index <= bytes.len(),
            0 <= exponent,
            exponent_scan(bytes@, sign_prefix(bytes@).0, 0, false) == exponent_scan(
                bytes@,
                index as int,
                exponent as int,
                seen_digit,
            ),
            negative == sign_prefix(bytes@).1,
        decreases bytes.len() - index,
    {
        let byte = bytes[index];
        if byte == 95u8 {
        } else if byte >= 48u8 && byte <= 57u8 {
            let digit = (byte - 48u8) as i128;
            if exponent > (i128::MAX - digit) / 10 {
                proof {
                    assert(exponent * 10 + digit > i128::MAX) by (nonlinear_arith)
                        requires
                            exponent > (i128::MAX - digit) / 10,
                            0 <= digit <= 9,
                    ;
                }
                return Err(());
            }
            proof {
                assert(exponent * 10 + digit <= i128::MAX) by (nonlinear_arith)
                    requires
                        exponent <= (i128::MAX - digit) / 10,
                        0 <= digit <= 9,
                        exponent >= 0,
                ;
            }
            exponent = exponent * 10 + digit;
            seen_digit = true;
        } else {
            return Err(());
        }
        index += 1;
    }
    if !seen_digit {
        return Err(());
    }
    if negative {
        Ok(-exponent)
    } else {
        Ok(exponent)
    }
}

/// `n`, negated when `negative` holds.
pub open spec fn signed(negative: bool, n: nat) -> int {
    if negative {
        -n
    } else {
        n as int
    }
}

/// The characters of ASCII bytes.
pub open spec fn ascii_chars(bytes: Seq<u8>) -> Seq<char> {
    bytes.map_values(|b: u8| b as char)
}

/// `k` zero characters.
pub open spec fn zero_chars(k: nat) -> Seq<char> {
    Seq::new(k, |i: int| '0')
}

/// Reads the mantissa of decimal notation from position `i` on: the digits, the count of
/// digits after the decimal point, whether the point was seen, and where the mantissa stops
/// (at `e`, `E` or the end); `Err` on a second point or another byte. `_` is skipped.
pub open spec fn mantissa_scan(bytes: Seq<u8>, i: int, digits: Seq<char>, fraction: nat, point: bool) -> Result<
    (Seq<char>, nat, bool, int),
    (),
>
    decreases bytes.len() - i,
{
    if i >= bytes.len() || i < 0 {
        Ok((digits, fraction, point, bytes.len() as int))
    } else if bytes[i] == 101 || bytes[i] == 69 {
        Ok((digits, fraction, point, i))
    } else if bytes[i] == 95 {
        mantissa_scan(bytes, i + 1, digits, fraction, point)
    } else if bytes[i] == 46 {
        if point {
            Err(())
        } else {
            mantissa_scan(bytes, i + 1, digits, fraction, true)
        }
    } else if is_digit_byte(bytes[i]) {
        mantissa_scan(
            bytes,
            i + 1,
            digits.push(bytes[i] as char),
            if point { fraction + 1 } else { fraction },
            point,
        )
    } else {
        Err(())
    }
}

/// Finite decimal or scientific notation with a decimal point or an exponent: an optional sign,
/// digits with at most one point and optional `_` separators, then optionally `e` or `E` and
/// an exponent. The value is exact, in lowest terms; `Err` also when the power of ten does not
/// fit the ranges the reader works in.
pub open spec fn decimal_text(bytes: Seq<u8>) -> Result<(int, nat), ()> {
    let (start, negative) = sign_prefix(bytes);
    match mantissa_scan(bytes, start, Seq::empty(), 0, false) {
        Err(()) => Err(()),
        Ok((digits, fraction, point, stop)) => {
            if digits.len() == 0 || (!point && stop == bytes.len()) {
                Err(())
            } else {
                let exponent = if stop < bytes.len() {
                    exponent_text(bytes.skip(stop + 1))
                } else {
                    Ok(0)
                };
                match exponent {
                    Err(()) => Err(()),
                    Ok(e) => {
                        let scale = fraction - e;
                        let n = digits_text_value(digits);
                        if scale > i128::MAX {
                            Err(())
                        } else if scale <= 0 {
                            if -scale > usize::MAX {
                                Err(())
                            } else {
                                Ok((signed(negative, n) * pow(10, (-scale) as nat), 1))
                            }
                        } else if scale > usize::MAX {
                            Err(())
                        } else {
                            Ok(reduced(signed(negative, n), pow(10, scale as nat) as nat))
                        }
                    },
                }
            }
        },
    }
}

/// Appending `k` zero digits multiplies the value by `10^k`.
proof fn lemma_value_append_zeros(s: Seq<char>, k: nat)
    ensures
        digits_text_value(s + zero_chars(k)) == digits_text_value(s) * pow(10, k),
    decreases k,
{
    reveal(pow);
    if k == 0 {
        assert(s + zero_chars(0) =~= s);
    } else {
        let t = s + zero_chars(k);
        assert(t.drop_last() =~= s + zero_chars((k - 1) as nat));
        lemma_value_append_zeros(s, (k - 1) as nat);
        assert(t.last() == '0');
        let v = digits_text_value(s);
        let p = pow(10, (k - 1) as nat);
        assert((v * p) * 10 == v * (10 * p)) by (nonlinear_arith);
    }
}

/// A leading zero digit does not change the value.
proof fn lemma_value_leading_zero(s: Seq<char>)
    requires
        s.len() > 0,
        s[0] == '0',
    ensures
        digits_text_value(s) == digits_text_value(s.drop_first()),
    decreases s.len(),
{
    if s.len() == 1 {
        assert(s.drop_last() =~= Seq::<char>::empty());
        assert(s.drop_first() =~= Seq::<char>::empty());
    } else {
        lemma_value_leading_zero(s.drop_last());
        assert(s.drop_last().drop_first() =~= s.drop_first().drop_last());
        assert(s.drop_first().last() == s.last());
    }
}

/// Leading zero digits do not change the value.
proof fn lemma_value_skip_zeros(s: Seq<char>, j: int)
    requires
        0 <= j <= s.len(),
        forall|i: int| 0 <= i < j ==> s[i] == '0',
    ensures
        digits_text_value(s) == digits_text_value(s.skip(j)),
    decreases j,
{
    if j > 0 {
        lemma_value_leading_zero(s);
        assert forall|i: int| 0 <= i < j - 1 implies s.drop_first()[i] == '0' by {
            assert(s.drop_first()[i] == s[i + 1]);
        }
        lemma_value_skip_zeros(s.drop_first(), j - 1);
        assert(s.drop_first().skip(j - 1) =~= s.skip(j));
    } else {
        assert(s.skip(0) =~= s);
    }
}

/// `c` does not occur.
proof fn lemma_first_index_absent(s: Seq<char>, c: char)
    requires
        forall|i: int| 0 <= i < s.len() ==> s[i] != c,
    ensures
        first_index_of(s, c) == -1,
    decreases s.len(),
{
    if s.len() > 0 {
        assert forall|i: int| 0 <= i < s.drop_first().len() implies s.drop_first()[i] != c by {
            assert(s.drop_first()[i] == s[i + 1]);
        }
        lemma_first_index_absent(s.drop_first(), c);
    }
}

/// The first `c` follows a prefix without one.
proof fn lemma_first_index_at(a: Seq<char>, c: char, b: Seq<char>)
    requires
        forall|i: int| 0 <= i < a.len() ==> a[i] != c,
    ensures
        first_index_of(a + seq![c] + b, c) == a.len(),
    decreases a.len(),
{
    if a.len() > 0 {
        assert forall|i: int| 0 <= i < a.drop_first().len() implies a.drop_first()[i] != c by {
            assert(a.drop_first()[i] == a[i + 1]);
        }
        lemma_first_index_at(a.drop_first(), c, b);
        assert((a + seq![c] + b).drop_first() =~= a.drop_first() + seq![c] + b);
    }
}

/// The value of a single digit.
proof fn lemma_single_digit_value(c: char)
    requires
        is_digit_char(c),
    ensures
        digits_text_value(seq![c]) == c as int - 48,
{
    assert(seq![c].drop_last() =~= Seq::<char>::empty());
    assert(seq![c].last() == c);
    assert(digits_text_value(Seq::<char>::empty()) == 0);
}

/// Decimal digits, optionally after `-`, read as an integer.
pub(crate) proof fn lemma_integer_text(negative: bool, body: Seq<char>)
    requires
        body.len() > 0,
        forall|i: int| 0 <= i < body.len() ==> is_digit_char(#[trigger] body[i]),
    ensures
        rational_text((if negative { seq!['-'] } else { Seq::empty() }) + body) == Some(
            (signed(negative, digits_text_value(body)), 1nat),
        ),
{
    let s = (if negative { seq!['-'] } else { Seq::empty() }) + body;
    if negative {
        assert(s.drop_first() =~= body);
    } else {
        assert(s =~= body);
    }
    assert(is_digit_char(body[0]));
    lemma_first_index_absent(body, '/');
}

/// Decimal digits, `/` and decimal digits, optionally after `-`, read as a ratio.
pub(crate) proof fn lemma_ratio_text(negative: bool, num: Seq<char>, den: Seq<char>)
    requires
        num.len() > 0,
        den.len() > 0,
        forall|i: int| 0 <= i < num.len() ==> is_digit_char(#[trigger] num[i]),
        forall|i: int| 0 <= i < den.len() ==> is_digit_char(#[trigger] den[i]),
        digits_text_value(den) > 0,
    ensures
        rational_text((if negative { seq!['-'] } else { Seq::empty() }) + num + seq!['/'] + den)
            == Some(reduced(signed(negative, digits_text_value(num)), digits_text_value(den))),
{
    let body = num + seq!['/'] + den;
    let s = (if negative { seq!['-'] } else { Seq::empty() }) + num + seq!['/'] + den;
    if negative {
        assert(s.drop_first() =~= body);
    } else {
        assert(s =~= body);
    }
    assert(is_digit_char(num[0]));
    assert(body[0] == num[0]);
    assert forall|i: int| 0 <= i < num.len() implies num[i] != '/' by {
        assert(is_digit_char(num[i]));
    }
    lemma_first_index_at(num, '/', den);
    assert(body.take(num.len() as int) =~= num);
    assert(body.skip(num.len() as int + 1) =~= den);
    assert(is_digit_char(den[0]));
}

/// Appends `count` zero digits.
fn push_zero_digits(text: &mut Vec<u8>, count: usize)
    ensures
        final(text)@ == old(text)@ + Seq::new(count as nat, |i: int| 48u8),
{
    let ghost start = text@;
    let mut pushed: usize = 0;
    while pushed < count
        invariant
            pushed <= count,
            text@ == start + Seq::new(pushed as nat, |i: int| 48u8),
        decreases count - pushed,
    {
        text.push(48u8);
        pushed = pushed + 1;
        proof {
            assert(text@ =~= start + Seq::new(pushed as nat, |i: int| 48u8));
        }
    }
}

/// Appends bytes.
pub(crate) fn push_all(text: &mut Vec<u8>, more: &Vec<u8>)
    ensures
        final(text)@ == old(text)@ + more@,
{
    let ghost start = text@;
    let mut index: usize = 0;
    while index < more.len()
        invariant
            index <= more.len(),
            text@ == start + more@.take(index as int),
        decreases more.len() - index,
    {
        text.push(more[index]);
        index = index + 1;
        proof {
            assert(text@ =~= start + more@.take(index as int));
        }
    }
    proof {
        assert(more@.take(index as int) =~= more@);
    }
}

/// Reads the mantissa of decimal notation from `start`: its digit bytes, the count of digits
/// after the point, whether the point was seen, and where it stops.
fn scan_mantissa(bytes: &[u8], start: usize) -> (r: Result<(Vec<u8>, usize, bool, usize), ()>)
    requires
        start <= bytes@.len(),
    ensures
        match mantissa_scan(bytes@, start as int, Seq::empty(), 0, false) {
            Err(()) => r is Err,
            Ok((digits, fraction, point, stop)) => r matches Ok((d, f, p, s)) && ascii_chars(d@)
                == digits && f == fraction && p == point && s == stop && s <= bytes@.len() && (s
                < bytes@.len() ==> (bytes@[s as int] == 101 || bytes@[s as int] == 69)) && (
            forall|i: int| 0 <= i < d@.len() ==> is_digit_byte(#[trigger] d@[i])),
        },
{
    let mut index = start;
    let mut digits: Vec<u8> = Vec::new();
    let mut fractional_digits: usize = 0;
    let mut seen_decimal_point = false;
    assert(ascii_chars(digits@) =~= Seq::<char>::empty());
    while index < bytes.len() && bytes[index] != 101u8 && bytes[index] != 69u8
        invariant
            start <= index <= bytes@.len(),
            fractional_digits <= index,
            forall|i: int| 0 <= i < digits@.len() ==> is_digit_byte(#[trigger] digits@[i]),
            mantissa_scan(bytes@, start as int, Seq::empty(), 0, false) == mantissa_scan(
                bytes@,
                index as int,
                ascii_chars(digits@),
                fractional_digits as nat,
                seen_decimal_point,
            ),
        decreases bytes.len() - index,
    {
        let byte = bytes[index];
        if byte == 95u8 {
        } else if byte == 46u8 {
            if seen_decimal_point {
                return Err(());
            }
            seen_decimal_point = true;
        } else if byte >= 48u8 && byte <= 57u8 {
            let ghost before = digits@;
            digits.push(byte);
            proof {
                assert(ascii_chars(digits@) =~= ascii_chars(before).push(byte as char));
            }
            if seen_decimal_point {
                fractional_digits = fractional_digits + 1;
            }
        } else {
            return Err(());
        }
        index = index + 1;
    }
    Ok((digits, fractional_digits, seen_decimal_point, index))
}

/// The digits without leading zeros, or a single zero when all are zero.
fn strip_leading_zeros(digits: &Vec<u8>) -> (r: Vec<u8>)
    requires
        forall|i: int| 0 <= i < digits@.len() ==> is_digit_byte(#[trigger] digits@[i]),
    ensures
        r@.len() > 0,
        forall|i: int| 0 <= i < r@.len() ==> is_digit_byte(#[trigger] r@[i]),
        digits_text_value(ascii_chars(r@)) == digits_text_value(ascii_chars(digits@)),
        (r@.len() == 1 && r@[0] == 48) <==> digits_text_value(ascii_chars(digits@)) == 0,
{
    let mut first: usize = 0;
    while first < digits.len() && digits[first] == 48u8
        invariant
            first <= digits@.len(),
            forall|i: int| 0 <= i < first ==> digits@[i] == 48,
        decreases digits.len() - first,
    {
        first = first + 1;
    }
    let mut stripped: Vec<u8> = Vec::new();
    let ghost chars = ascii_chars(digits@);
    proof {
        assert forall|i: int| 0 <= i < first implies chars[i] == '0' by {
        }
        lemma_value_skip_zeros(chars, first as int);
    }
    if first == digits.len() {
        stripped.push(48u8);
        proof {
            assert(chars.skip(first as int) =~= Seq::<char>::empty());
            assert(ascii_chars(stripped@) =~= seq!['0']);
            assert(seq!['0'].drop_last() =~= Seq::<char>::empty());
        }
        return stripped;
    }
    let mut index = first;
    while index < digits.len()
        invariant
            first <= index <= digits@.len(),
            stripped@ == digits@.subrange(first as int, index as int),
        decreases digits.len() - index,
    {
        stripped.push(digits[index]);
        index = index + 1;
        proof {
            assert(stripped@ =~= digits@.subrange(first as int, index as int));
        }
    }
    proof {
        assert(ascii_chars(stripped@) =~= chars.skip(first as int));
        assert(digits@[first as int] != 48);
        lemma_value_positive_when_first_nonzero(ascii_chars(stripped@));
    }
    stripped
}

/// Digits that start with a nonzero digit have a positive value.
proof fn lemma_value_positive_when_first_nonzero(s: Seq<char>)
    requires
        s.len() > 0,
        forall|i: int| 0 <= i < s.len() ==> is_digit_char(#[trigger] s[i]),
        s[0] != '0',
    ensures
        digits_text_value(s) > 0,
    decreases s.len(),
{
    if s.len() > 1 {
        assert(s.drop_last()[0] == s[0]);
        assert forall|i: int| 0 <= i < s.drop_last().len() implies is_digit_char(#[trigger] s.drop_last()[i]) by {
            assert(s.drop_last()[i] == s[i]);
        }
        lemma_value_positive_when_first_nonzero(s.drop_last());
    } else {
        assert(s.drop_last() =~= Seq::<char>::empty());
        assert(is_digit_char(s[0]));
    }
}

/// The characters of ASCII digit bytes are decimal digit characters.
proof fn lemma_digit_bytes_chars(b: Seq<u8>)
    requires
        forall|i: int| 0 <= i < b.len() ==> is_digit_byte(#[trigger] b[i]),
    ensures
        forall|i: int| 0 <= i < b.len() ==> is_digit_char(#[trigger] ascii_chars(b)[i]),
        forall|i: int| 0 <= i < b.len() ==> #[trigger] b[i] < 128,
{
}

/// The integer `±value(digits) * 10^zeros`, read back through its text.
fn integer_from_digits(negative: bool, numerator: &Vec<u8>, zeros: usize) -> (r: Result<Number, ()>)
    requires
        numerator@.len() > 0,
        forall|i: int| 0 <= i < numerator@.len() ==> is_digit_byte(#[trigger] numerator@[i]),
    ensures
        r matches Ok(x) && x@ == (signed(negative, digits_text_value(ascii_chars(numerator@))) * pow(
            10,
            zeros as nat,
        ), 1nat),
{
    let mut body: Vec<u8> = Vec::new();
    push_all(&mut body, numerator);
    push_zero_digits(&mut body, zeros);
    let ghost zero_bytes = Seq::new(zeros as nat, |i: int| 48u8);
    let ghost n = digits_text_value(ascii_chars(numerator@));
    proof {
        assert(ascii_chars(body@) =~= ascii_chars(numerator@) + zero_chars(zeros as nat));
        lemma_value_append_zeros(ascii_chars(numerator@), zeros as nat);
        assert forall|i: int| 0 <= i < body@.len() implies is_digit_byte(#[trigger] body@[i]) by {
            if i >= numerator@.len() {
                assert(body@[i] == zero_bytes[i - numerator@.len()]);
            } else {
                assert(body@[i] == numerator@[i]);
            }
        }
        lemma_digit_bytes_chars(body@);
    }
    let with_sign = negative && !(body.len() == 1 && body[0] == 48u8);
    let mut text: Vec<u8> = Vec::new();
    if with_sign {
        text.push(45u8);
    }
    push_all(&mut text, &body);
    proof {
        let prefix: Seq<char> = if with_sign { seq!['-'] } else { Seq::empty() };
        assert(ascii_chars(text@) =~= prefix + ascii_chars(body@));
        lemma_integer_text(with_sign, ascii_chars(body@));
        if body@.len() == 1 && body@[0] == 48 {
            assert(ascii_chars(body@) =~= seq!['0']);
            lemma_single_digit_value('0');
        }
        assert forall|i: int| 0 <= i < text@.len() implies text@[i] < 128 by {
            if with_sign && i == 0 {
            } else if with_sign {
                assert(text@[i] == body@[i - 1]);
            } else {
                assert(text@[i] == body@[i]);
            }
        }
        assert(signed(negative, n) * pow(10, zeros as nat) == signed(with_sign, digits_text_value(ascii_chars(body@)))) by {
            if negative {
                assert(-(n as int) * pow(10, zeros as nat) == -(n * pow(10, zeros as nat))) by (nonlinear_arith);
            }
        }
    }
    let string = crate::malachite::string_from_ascii(text);
    match crate::malachite::rational_from_str(string.as_str()) {
        Some(x) => Ok(x),
        None => Err(()),
    }
}

/// The ratio `±value(digits) / 10^zeros`, read back through its text.
fn ratio_from_digits(negative: bool, numerator: &Vec<u8>, zeros: usize) -> (r: Result<Number, ()>)
    requires
        numerator@.len() > 0,
        forall|i: int| 0 <= i < numerator@.len() ==> is_digit_byte(#[trigger] numerator@[i]),
    ensures
        r matches Ok(x) && x@ == reduced(
            signed(negative, digits_text_value(ascii_chars(numerator@))),
            pow(10, zeros as nat) as nat,
        ),
{
    proof {
        lemma_digit_bytes_chars(numerator@);
    }
    let with_sign = negative && !(numerator.len() == 1 && numerator[0] == 48u8);
    let mut text: Vec<u8> = Vec::new();
    if with_sign {
        text.push(45u8);
    }
    push_all(&mut text, numerator);
    text.push(47u8);
    let mut denominator: Vec<u8> = Vec::new();
    denominator.push(49u8);
    push_zero_digits(&mut denominator, zeros);
    push_all(&mut text, &denominator);
    let ghost zero_bytes = Seq::new(zeros as nat, |i: int| 48u8);
    proof {
        let prefix: Seq<char> = if with_sign { seq!['-'] } else { Seq::empty() };
        let den_chars = ascii_chars(denominator@);
        assert(den_chars =~= seq!['1'] + zero_chars(zeros as nat));
        lemma_single_digit_value('1');
        assert('1' as int == 49);
        assert(digits_text_value(seq!['1']) == 1);
        lemma_value_append_zeros(seq!['1'], zeros as nat);
        vstd::arithmetic::power::lemma_pow_positive(10, zeros as nat);
        assert forall|i: int| 0 <= i < den_chars.len() implies is_digit_char(#[trigger] den_chars[i]) by {
            if i > 0 {
                assert(den_chars[i] == zero_chars(zeros as nat)[i - 1]);
            }
        }
        assert(ascii_chars(text@) =~= prefix + ascii_chars(numerator@) + seq!['/'] + den_chars);
        lemma_ratio_text(with_sign, ascii_chars(numerator@), den_chars);
        if numerator@.len() == 1 && numerator@[0] == 48 {
            assert(ascii_chars(numerator@) =~= seq!['0']);
            lemma_single_digit_value('0');
        }
        let n = digits_text_value(ascii_chars(numerator@));
        assert(signed(negative, n) == signed(with_sign, n));
        assert forall|i: int| 0 <= i < text@.len() implies text@[i] < 128 by {
            let p: int = if with_sign { 1 } else { 0 };
            if i < p {
            } else if i < p + numerator@.len() {
                assert(text@[i] == numerator@[i - p]);
            } else if i == p + numerator@.len() {
            } else {
                let j = i - p - numerator@.len() - 1;
                assert(text@[i] == denominator@[j]);
                if j > 0 {
                    assert(denominator@[j] == zero_bytes[j - 1]);
                }
            }
        }
    }
    let string = crate::malachite::string_from_ascii(text);
    match crate::malachite::rational_from_str(string.as_str()) {
        Some(x) => Ok(x),
        None => Err(()),
    }
}

/// What a string reads as: Malachite's `n` or `n/d` form, else decimal or scientific notation.
pub open spec fn number_text(chars: Seq<char>, bytes: Seq<u8>) -> Result<(int, nat), ()> {
    match rational_text(chars) {
        Some(v) => Ok(v),
        None => decimal_text(bytes),
    }
}

impl Number {
    /// Reads a number from text: `n` or `n/d`, else finite decimal or scientific notation.
    pub(crate) fn parse_str(value: &str) -> (r: Result<Self, ()>)
        ensures
            match number_text(value@, value.spec_bytes()) {
                Ok(v) => r matches Ok(x) && x@ == v,
                Err(()) => r is Err,
            },
    {
        if let Some(parsed) = crate::malachite::rational_from_str(value) {
            return Ok(parsed);
        }
        parse_decimal_rational(value)
    }

    /// Reads a number from text in a radix; only radix 10 is read.
    pub fn from_str_radix(value: &str, radix: u32) -> (r: Result<Self, ()>)
        ensures
            radix != 10 ==> r is Err,
            radix == 10 ==> match number_text(value@, value.spec_bytes()) {
                Ok(v) => r matches Ok(x) && x@ == v,
                Err(()) => r is Err,
            },
    {
        if radix != 10 {
            return Err(());
        }
        Self::parse_str(value)
    }
}

impl core::str::FromStr for Number {
    type Err = ();

    fn from_str(value: &str) -> (r: Result<Self, ()>)
        ensures
            match number_text(value@, value.spec_bytes()) {
                Ok(v) => r matches Ok(x) && x@ == v,
                Err(()) => r is Err,
            },
    {
        Self::parse_str(value)
    }
}

/// Reads finite decimal or scientific notation that has a decimal point or an exponent.
fn parse_decimal_rational(value: &str) -> (r: Result<Number, ()>)
    ensures
        match decimal_text(value.spec_bytes()) {
            Ok(v) => r matches Ok(x) && x@ == v,
            Err(()) => r is Err,
        },
{
    let bytes = value.as_bytes();
    let mut index: usize = 0;
    let negative = if bytes.len() > 0 && bytes[0] == 45u8 {
        index = 1;
        true
    } else if bytes.len() > 0 && bytes[0] == 43u8 {
        index = 1;
        false
    } else {
        false
    };
    let (digits, fractional_digits, seen_decimal_point, stop) = scan_mantissa(bytes, index)?;
    if digits.len() == 0 || (!seen_decimal_point && stop == bytes.len()) {
        return Err(());
    }
    let exponent: i128 = if stop < bytes.len() {
        let (_, tail) = bytes.split_at(stop + 1);
        proof {
            assert(tail@ =~= bytes@.skip(stop + 1));
        }
        parse_decimal_exponent(tail)?
    } else {
        0
    };
    let fraction = fractional_digits as i128;
    if exponent < 0 && fraction > i128::MAX + exponent {
        return Err(());
    }
    let scale = fraction - exponent;
    let numerator = strip_leading_zeros(&digits);
    if scale <= 0 {
        let zeros_wide = -scale;
        if zeros_wide > usize::MAX as i128 {
            return Err(());
        }
        integer_from_digits(negative, &numerator, zeros_wide as usize)
    } else {
        if scale > usize::MAX as i128 {
            return Err(());
        }
        ratio_from_digits(negative, &numerator, scale as usize)
    }
}

/// Reading exponent digits after one more leading byte gives what reading them without it gives.
proof fn lemma_exponent_scan_shift(c: Seq<u8>, d: Seq<u8>, j: int, acc: int, seen: bool)
    requires
        c.len() == 1,
        0 <= j,
    ensures
        exponent_scan(c + d, j + 1, acc, seen) == exponent_scan(d, j, acc, seen),
    decreases d.len() - j,
{
    let t = c + d;
    if j < d.len() {
        assert(t[j + 1] == d[j]);
        if d[j] == 95 {
            lemma_exponent_scan_shift(c, d, j + 1, acc, seen);
        } else if is_digit_byte(d[j]) {
            let next = acc * 10 + (d[j] - 48);
            if next <= i128::MAX {
                lemma_exponent_scan_shift(c, d, j + 1, next, true);
            }
        }
    }
}

/// A `-` before an exponent negates it, and a `+` leaves it as it is: reading `-d` gives the
/// negation of what reading `d` gives, and reading `+d` gives the same, errors alike.
pub proof fn law_exponent_sign(d: Seq<u8>)
    requires
        d.len() == 0 || (d[0] != 43 && d[0] != 45),
    ensures
        exponent_text(seq![45u8] + d) == (match exponent_text(d) {
            Ok(e) => Ok::<int, ()>(-e),
            Err(()) => Err::<int, ()>(()),
        }),
        exponent_text(seq![43u8] + d) == exponent_text(d),
{
    lemma_exponent_scan_shift(seq![45u8], d, 0, 0, false);
    lemma_exponent_scan_shift(seq![43u8], d, 0, 0, false);
    assert((seq![45u8] + d)[0] == 45);
    assert((seq![43u8] + d)[0] == 43);
}

/// The bytes with a `_` inserted at position `p`.
pub open spec fn insert_underscore(bytes: Seq<u8>, p: int) -> Seq<u8> {
    bytes.take(p) + seq![95u8] + bytes.skip(p)
}

/// A mantissa scan's result with its stop moved one place on when it is at or after `p`.
spec fn stop_shifted(r: Result<(Seq<char>, nat, bool, int), ()>, p: int) -> Result<
    (Seq<char>, nat, bool, int),
    (),
> {
    match r {
        Err(()) => Err(()),
        Ok((digits, fraction, point, stop)) => Ok(
            (digits, fraction, point, if stop < p { stop } else { stop + 1 }),
        ),
    }
}

/// The bytes around an inserted `_`.
proof fn lemma_insert_underscore_index(bytes: Seq<u8>, p: int)
    requires
        0 <= p <= bytes.len(),
    ensures
        insert_underscore(bytes, p).len() == bytes.len() + 1,
        insert_underscore(bytes, p)[p] == 95,
        forall|j: int| 0 <= j < p ==> #[trigger] insert_underscore(bytes, p)[j] == bytes[j],
        forall|k: int| p <= k < bytes.len() ==> #[trigger] insert_underscore(bytes, p)[k + 1] == bytes[k],
{
    let t = insert_underscore(bytes, p);
    assert forall|k: int| p <= k < bytes.len() implies #[trigger] t[k + 1] == bytes[k] by {
        assert(t[k + 1] == bytes.skip(p)[k - p]);
    }
}

/// A mantissa scan stops within the bytes, not before where it started.
proof fn lemma_mantissa_stop_bound(bytes: Seq<u8>, i: int, digits: Seq<char>, fraction: nat, point: bool)
    requires
        0 <= i <= bytes.len(),
    ensures
        mantissa_scan(bytes, i, digits, fraction, point) matches Ok((_, _, _, stop)) ==> i <= stop
            <= bytes.len() && (stop < bytes.len() ==> bytes[stop] == 101 || bytes[stop] == 69),
    decreases bytes.len() - i,
{
    if i < bytes.len() && bytes[i] != 101 && bytes[i] != 69 {
        let next_digits = if is_digit_byte(bytes[i]) { digits.push(bytes[i] as char) } else { digits };
        let next_fraction = if is_digit_byte(bytes[i]) && point { fraction + 1 } else { fraction };
        lemma_mantissa_stop_bound(bytes, i + 1, digits, fraction, point);
        lemma_mantissa_stop_bound(bytes, i + 1, digits, fraction, true);
        lemma_mantissa_stop_bound(bytes, i + 1, next_digits, next_fraction, point);
    }
}

/// After an inserted `_`, the mantissa scan goes as it went one place earlier.
proof fn lemma_mantissa_after_underscore(
    bytes: Seq<u8>,
    p: int,
    k: int,
    digits: Seq<char>,
    fraction: nat,
    point: bool,
)
    requires
        0 <= p <= k,
        p <= bytes.len(),
    ensures
        mantissa_scan(insert_underscore(bytes, p), k + 1, digits, fraction, point) == stop_shifted(
            mantissa_scan(bytes, k, digits, fraction, point),
            p,
        ),
    decreases bytes.len() - k,
{
    let t = insert_underscore(bytes, p);
    lemma_insert_underscore_index(bytes, p);
    if k < bytes.len() {
        assert(t[k + 1] == bytes[k]);
        let b = bytes[k];
        if b == 101 || b == 69 {
        } else if b == 95 {
            lemma_mantissa_after_underscore(bytes, p, k + 1, digits, fraction, point);
        } else if b == 46 {
            if !point {
                lemma_mantissa_after_underscore(bytes, p, k + 1, digits, fraction, true);
            }
        } else if is_digit_byte(b) {
            lemma_mantissa_after_underscore(
                bytes,
                p,
                k + 1,
                digits.push(b as char),
                if point { fraction + 1 } else { fraction },
                point,
            );
        }
    }
}

/// Up to an inserted `_`, the mantissa scan goes as it did, and it steps over the `_`.
proof fn lemma_mantissa_before_underscore(
    bytes: Seq<u8>,
    p: int,
    j: int,
    digits: Seq<char>,
    fraction: nat,
    point: bool,
)
    requires
        0 <= j <= p <= bytes.len(),
    ensures
        mantissa_scan(insert_underscore(bytes, p), j, digits, fraction, point) == stop_shifted(
            mantissa_scan(bytes, j, digits, fraction, point),
            p,
        ),
    decreases p - j,
{
    let t = insert_underscore(bytes, p);
    lemma_insert_underscore_index(bytes, p);
    if j == p {
        lemma_mantissa_after_underscore(bytes, p, p, digits, fraction, point);
    } else {
        assert(t[j] == bytes[j]);
        let b = bytes[j];
        if b == 101 || b == 69 {
        } else if b == 95 {
            lemma_mantissa_before_underscore(bytes, p, j + 1, digits, fraction, point);
        } else if b == 46 {
            if !point {
                lemma_mantissa_before_underscore(bytes, p, j + 1, digits, fraction, true);
            }
        } else if is_digit_byte(b) {
            lemma_mantissa_before_underscore(
                bytes,
                p,
                j + 1,
                digits.push(b as char),
                if point { fraction + 1 } else { fraction },
                point,
            );
        }
    }
}

/// After an inserted `_`, the exponent scan goes as it went one place earlier.
proof fn lemma_exponent_after_underscore(bytes: Seq<u8>, q: int, k: int, acc: int, seen: bool)
    requires
        0 <= q <= k,
        q <= bytes.len(),
    ensures
        exponent_scan(insert_underscore(bytes, q), k + 1, acc, seen) == exponent_scan(bytes, k, acc, seen),
    decreases bytes.len() - k,
{
    let t = insert_underscore(bytes, q);
    lemma_insert_underscore_index(bytes, q);
    if k < bytes.len() {
        assert(t[k + 1] == bytes[k]);
        if bytes[k] == 95 {
            lemma_exponent_after_underscore(bytes, q, k + 1, acc, seen);
        } else if is_digit_byte(bytes[k]) {
            let next = acc * 10 + (bytes[k] - 48);
            if next <= i128::MAX {
                lemma_exponent_after_underscore(bytes, q, k + 1, next, true);
            }
        }
    }
}

/// Up to an inserted `_`, the exponent scan goes as it did, and it steps over the `_`.
proof fn lemma_exponent_before_underscore(bytes: Seq<u8>, q: int, j: int, acc: int, seen: bool)
    requires
        0 <= j <= q <= bytes.len(),
    ensures
        exponent_scan(insert_underscore(bytes, q), j, acc, seen) == exponent_scan(bytes, j, acc, seen),
    decreases q - j,
{
    let t = insert_underscore(bytes, q);
    lemma_insert_underscore_index(bytes, q);
    if j == q {
        lemma_exponent_after_underscore(bytes, q, q, acc, seen);
    } else {
        assert(t[j] == bytes[j]);
        if bytes[j] == 95 {
            lemma_exponent_before_underscore(bytes, q, j + 1, acc, seen);
        } else if is_digit_byte(bytes[j]) {
            let next = acc * 10 + (bytes[j] - 48);
            if next <= i128::MAX {
                lemma_exponent_before_underscore(bytes, q, j + 1, next, true);
            }
        }
    }
}

/// A `_` inserted into an exponent, but not just before a sign, changes nothing.
proof fn lemma_exponent_text_underscore(bytes: Seq<u8>, q: int)
    requires
        0 <= q <= bytes.len(),
        q == bytes.len() || (bytes[q] != 43 && bytes[q] != 45),
    ensures
        exponent_text(insert_underscore(bytes, q)) == exponent_text(bytes),
{
    let t = insert_underscore(bytes, q);
    lemma_insert_underscore_index(bytes, q);
    assert(sign_prefix(t) == sign_prefix(bytes));
    lemma_exponent_before_underscore(bytes, q, sign_prefix(bytes).0, 0, false);
}

/// Underscores are separators: a `_` inserted anywhere into decimal or scientific notation,
/// but not just before a sign, leaves what it reads as unchanged, errors alike. Inserting one
/// at a time, any number of them can be inserted.
pub proof fn law_decimal_underscore_ignored(bytes: Seq<u8>, p: int)
    requires
        0 <= p <= bytes.len(),
        p == bytes.len() || (bytes[p] != 43 && bytes[p] != 45),
    ensures
        decimal_text(insert_underscore(bytes, p)) == decimal_text(bytes),
{
    let t = insert_underscore(bytes, p);
    lemma_insert_underscore_index(bytes, p);
    assert(sign_prefix(t) == sign_prefix(bytes));
    let start = sign_prefix(bytes).0;
    lemma_mantissa_before_underscore(bytes, p, start, Seq::empty(), 0, false);
    lemma_mantissa_stop_bound(bytes, start, Seq::empty(), 0, false);
    match mantissa_scan(bytes, start, Seq::empty(), 0, false) {
        Err(()) => {},
        Ok((digits, fraction, point, stop)) => {
            if stop < bytes.len() {
                if stop < p {
                    let u = bytes.skip(stop + 1);
                    assert(t.skip(stop + 1) =~= insert_underscore(u, p - stop - 1));
                    if p < bytes.len() {
                        assert(u[p - stop - 1] == bytes[p]);
                    }
                    lemma_exponent_text_underscore(u, p - stop - 1);
                } else {
                    assert(t.skip(stop + 2) =~= bytes.skip(stop + 1));
                }
            }
        },
    }
}

/// The count of digits after the decimal point in the mantissa of decimal notation.
pub open spec fn fraction_digit_count(bytes: Seq<u8>) -> int {
    match mantissa_scan(bytes, sign_prefix(bytes).0, Seq::empty(), 0, false) {
        Ok((_, fraction, _, _)) => fraction as int,
        Err(()) => 0,
    }
}

/// A mantissa without `e` or `E` scans alike whatever exponent follows it, stopping at the
/// exponent's marker.
proof fn lemma_mantissa_before_exponent(
    m: Seq<u8>,
    rest: Seq<u8>,
    j: int,
    digits: Seq<char>,
    fraction: nat,
    point: bool,
)
    requires
        0 <= j <= m.len(),
        rest.len() > 0,
        rest[0] == 101 || rest[0] == 69,
        forall|i: int| 0 <= i < m.len() ==> m[i] != 101 && m[i] != 69,
    ensures
        mantissa_scan(m + rest, j, digits, fraction, point) == mantissa_scan(m, j, digits, fraction, point),
    decreases m.len() - j,
{
    let t = m + rest;
    if j == m.len() {
        assert(t[j] == rest[0]);
    } else {
        assert(t[j] == m[j]);
        let b = m[j];
        if b == 95 {
            lemma_mantissa_before_exponent(m, rest, j + 1, digits, fraction, point);
        } else if b == 46 {
            if !point {
                lemma_mantissa_before_exponent(m, rest, j + 1, digits, fraction, true);
            }
        } else if is_digit_byte(b) {
            lemma_mantissa_before_exponent(
                m,
                rest,
                j + 1,
                digits.push(b as char),
                if point { fraction + 1 } else { fraction },
                point,
            );
        }
    }
}

/// `n / 10^f` times `10^k`, in the form that decimal notation with `f` fractional digits and
/// exponent `k` reads as.
proof fn lemma_scaled_decimal(n: int, f: nat, k: int)
    ensures
        ratio_mul(reduced(n, pow(10, f) as nat), ratio_pow((10, 1), k)) == (if f - k <= 0 {
            (n * pow(10, (k - f) as nat), 1nat)
        } else {
            reduced(n, pow(10, (f - k) as nat) as nat)
        }),
{
    let p = pow(10, f);
    lemma_pow_positive(10, f);
    let x = reduced(n, p as nat);
    if k >= 0 {
        let q = pow(10, k as nat);
        lemma_pow_positive(10, k as nat);
        lemma1_pow(k as nat);
        lemma_gcd_one_right(q as nat);
        lemma_reduced_of_lowest(q, 1);
        assert(ratio_pow((10, 1), k) == (q, 1nat));
        lemma_reduced_linear(n, p as nat, q, 0, 1);
        assert(x.0 * q + 0 * x.1 == x.0 * q);
        assert(n * q + 0 * p == n * q);
        if f - k <= 0 {
            let r = pow(10, (k - f) as nat);
            lemma_pow_adds(10, (k - f) as nat, f);
            assert(n * q == (n * r) * p) by (nonlinear_arith)
                requires
                    q == r * p,
            ;
            lemma_reduced_scale(n * r, 1, p as nat);
            assert(1 * p == p);
            lemma_gcd_one_right(crate::ratio::abs(n * r));
            lemma_reduced_of_lowest(n * r, 1);
        } else {
            let r = pow(10, (f - k) as nat);
            lemma_pow_positive(10, (f - k) as nat);
            lemma_pow_adds(10, (f - k) as nat, k as nat);
            lemma_reduced_scale(n, r as nat, q as nat);
            assert(p * 1 == r * q);
        }
    } else {
        let e = (-k) as nat;
        let q = pow(10, e);
        lemma_pow_positive(10, e);
        lemma1_pow(e);
        lemma_gcd_one_right(1);
        lemma_gcd_symmetric(1, q as nat);
        lemma_reduced_of_lowest(1, q as nat);
        assert(ratio_pow((10, 1), k) == (1int, q as nat)) by {
            assert(pow(1, e) * crate::ratio::sign(q) == 1);
        }
        lemma_reduced_linear(n, p as nat, 1, 0, q as nat);
        assert(x.0 * 1 + 0 * x.1 == x.0);
        assert(n * 1 + 0 * p == n);
        lemma_pow_adds(10, f, e);
        assert(f - k == f + e);
    }
}

/// An exponent scales decimal notation by its power of ten: when a mantissa without `e` or `E`
/// reads as `v` and `d` reads as the exponent `k`, the mantissa followed by `e` (or `E`) and `d`
/// reads as `v * 10^k`. It reads at all exactly when the power of ten that it is divided by,
/// `10^(f - k)` for `f` digits after the point, has an exponent within `usize` either way.
pub proof fn law_decimal_exponent_scales(m: Seq<u8>, marker: u8, d: Seq<u8>)
    requires
        marker == 101 || marker == 69,
        forall|i: int| 0 <= i < m.len() ==> m[i] != 101 && m[i] != 69,
        decimal_text(m) is Ok,
        exponent_text(d) is Ok,
    ensures
        decimal_text(m + seq![marker] + d) is Ok <==> -(usize::MAX as int) <= fraction_digit_count(m)
            - exponent_text(d)->Ok_0 <= usize::MAX,
        decimal_text(m + seq![marker] + d) is Ok ==> decimal_text(m + seq![marker] + d) == Ok::<
            (int, nat),
            (),
        >(ratio_mul(decimal_text(m)->Ok_0, ratio_pow((10, 1), exponent_text(d)->Ok_0))),
{
    let rest = seq![marker] + d;
    let t = m + rest;
    assert(t =~= m + seq![marker] + d);
    let start = sign_prefix(m).0;
    if m.len() == 0 {
        assert(mantissa_scan(m, 0, Seq::empty(), 0, false) == Ok::<(Seq<char>, nat, bool, int), ()>(
            (Seq::empty(), 0nat, false, 0int),
        ));
        assert(false);
    }
    assert(t[0] == m[0]);
    assert(sign_prefix(t) == sign_prefix(m));
    lemma_mantissa_before_exponent(m, rest, start, Seq::empty(), 0, false);
    lemma_mantissa_stop_bound(m, start, Seq::empty(), 0, false);
    let (digits, fraction, point, stop) = mantissa_scan(m, start, Seq::empty(), 0, false)->Ok_0;
    assert(stop == m.len());
    assert(t.skip(stop + 1) =~= d);
    let k = exponent_text(d)->Ok_0;
    let negative = sign_prefix(m).1;
    let n = signed(negative, digits_text_value(digits));
    lemma_scaled_decimal(n, fraction, k);
    assert(decimal_text(m)->Ok_0 == reduced(n, pow(10, fraction) as nat)) by {
        if fraction == 0 {
            lemma_pow0(10);
            lemma_gcd_one_right(crate::ratio::abs(n));
            lemma_reduced_of_lowest(n, 1);
            assert(n * pow(10, 0) == n);
        }
    }
}

/// After one leading byte, the mantissa scan goes as it went without it, one place earlier.
proof fn lemma_mantissa_after_prefix(
    c: u8,
    bytes: Seq<u8>,
    k: int,
    digits: Seq<char>,
    fraction: nat,
    point: bool,
)
    requires
        0 <= k,
    ensures
        mantissa_scan(seq![c] + bytes, k + 1, digits, fraction, point) == stop_shifted(
            mantissa_scan(bytes, k, digits, fraction, point),
            0,
        ),
    decreases bytes.len() - k,
{
    let t = seq![c] + bytes;
    if k < bytes.len() {
        assert(t[k + 1] == bytes[k]);
        let b = bytes[k];
        if b == 101 || b == 69 {
        } else if b == 95 {
            lemma_mantissa_after_prefix(c, bytes, k + 1, digits, fraction, point);
        } else if b == 46 {
            if !point {
                lemma_mantissa_after_prefix(c, bytes, k + 1, digits, fraction, true);
            }
        } else if is_digit_byte(b) {
            lemma_mantissa_after_prefix(
                c,
                bytes,
                k + 1,
                digits.push(b as char),
                if point { fraction + 1 } else { fraction },
                point,
            );
        }
    }
}

/// A leading `-` negates what decimal or scientific notation reads as, with a decimal point or
/// without one, and a leading `+` leaves it as it is; errors stay errors.
pub proof fn law_decimal_sign(t: Seq<u8>)
    requires
        t.len() == 0 || (t[0] != 43 && t[0] != 45),
    ensures
        decimal_text(seq![45u8] + t) == (match decimal_text(t) {
            Ok(v) => Ok::<(int, nat), ()>((-v.0, v.1)),
            Err(()) => Err::<(int, nat), ()>(()),
        }),
        decimal_text(seq![43u8] + t) == decimal_text(t),
{
    lemma_decimal_signed(45u8, t);
    lemma_decimal_signed(43u8, t);
}

/// What decimal notation reads as after a leading sign byte.
proof fn lemma_decimal_signed(c: u8, t: Seq<u8>)
    requires
        c == 45 || c == 43,
        t.len() == 0 || (t[0] != 43 && t[0] != 45),
    ensures
        decimal_text(seq![c] + t) == (match decimal_text(t) {
            Ok(v) => Ok::<(int, nat), ()>(if c == 45 { (-v.0, v.1) } else { v }),
            Err(()) => Err::<(int, nat), ()>(()),
        }),
{
    let s = seq![c] + t;
    assert(s[0] == c);
    assert(sign_prefix(s) == (1int, c == 45));
    assert(sign_prefix(t) == (0int, false));
    lemma_mantissa_after_prefix(c, t, 0, Seq::empty(), 0, false);
    lemma_mantissa_stop_bound(t, 0, Seq::empty(), 0, false);
    match mantissa_scan(t, 0, Seq::empty(), 0, false) {
        Err(()) => {},
        Ok((digits, fraction, point, stop)) => {
            if stop < t.len() {
                assert(s.skip(stop + 2) =~= t.skip(stop + 1));
            }
            let n = digits_text_value(digits);
            let negative = c == 45;
            assert(signed(false, n) == n as int);
            let ex = if stop < t.len() { exponent_text(t.skip(stop + 1)) } else { Ok(0) };
            if negative && ex is Ok {
                let scale = fraction - ex->Ok_0;
                if scale <= 0 {
                    let q = pow(10, (-scale) as nat);
                    assert(-(n as int) * q == -(n * q)) by (nonlinear_arith);
                } else {
                    let d = pow(10, scale as nat) as nat;
                    lemma_pow_positive(10, scale as nat);
                    assert(crate::ratio::abs(-(n as int)) == n);
                    assert(crate::ratio::abs(n as int) == n);
                    if n == 0 {
                        crate::ratio::lemma_gcd_zero_left(d);
                        assert(0nat / d == 0) by (nonlinear_arith)
                            requires
                                d > 0,
                        ;
                        assert(-(n as int) == 0);
                    }
                    assert(reduced(-(n as int), d) == (-reduced(n as int, d).0, reduced(n as int, d).1));
                }
            }
        },
    }
}

} // verus!

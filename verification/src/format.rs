//! Text forms of numbers: the exact fraction `n` or `n/d`, and decimal notation.

use crate::malachite::{decimal_expansion, natural_to_digits_asc, rational_decimal_digits, string_from_ascii};
use crate::natural::{
    canonical_digits, digits_value, lemma_canonical_digits_unique, lemma_canonical_limbs_unique,
    lemma_limbs_value_small, limbs_value,
};
use crate::number::Number;
use crate::parse::{
    ascii_chars, decimal_text, digits_text_value, is_digit_byte, is_digit_char, mantissa_scan, number_text,
    rational_text, sign_prefix, signed,
};
use crate::ratio::{abs, is_lowest_terms, reduced};
use crate::rational_varint::{base_digits, lemma_base_digits};
use vstd::arithmetic::power::{lemma_pow0, lemma_pow1, lemma_pow_adds, lemma_pow_positive, pow};
use vstd::prelude::*;

verus! {

/// The value of decimal digits, most significant first.
pub open spec fn be_digits_value(digits: Seq<u8>) -> nat
    decreases digits.len(),
{
    if digits.len() == 0 {
        0
    } else {
        be_digits_value(digits.drop_last()) * 10 + digits.last() as nat
    }
}

/// Fractional digit `i` of the non-repeating run `n` followed by the repeating run `r`.
pub open spec fn expansion_digit(n: Seq<u8>, r: Seq<u8>, i: int) -> u8 {
    if i < n.len() {
        n[i]
    } else {
        r[(i - n.len()) % (r.len() as int)]
    }
}

/// The count of fractional digits shown of a repeating expansion.
pub const SHOWN_FRACTIONAL_DIGITS: usize = 32;

/// The fractional digits shown: all of a finite expansion, else the first 32.
pub open spec fn shown_fraction(n: Seq<u8>, r: Seq<u8>) -> Seq<u8> {
    if r.len() == 0 {
        n
    } else {
        Seq::new(SHOWN_FRACTIONAL_DIGITS as nat, |i: int| expansion_digit(n, r, i))
    }
}

/// Digits below ten as characters, in the order given.
pub open spec fn digit_chars(digits: Seq<u8>) -> Seq<char> {
    Seq::new(digits.len(), |i: int| (digits[i] + 48) as char)
}

/// Decimal notation from an expansion: `-` for a negative number, the integer part (`0` when
/// it has no digits), `.`, the fractional digits shown, and `...` after a repeating expansion.
pub open spec fn decimal_render(negative: bool, before: Seq<u8>, n: Seq<u8>, r: Seq<u8>) -> Seq<char> {
    let sign: Seq<char> = if negative { seq!['-'] } else { Seq::empty() };
    let integer: Seq<char> = if before.len() == 0 { seq!['0'] } else { digit_chars(before.reverse()) };
    let tail: Seq<char> = if r.len() == 0 { Seq::empty() } else { seq!['.', '.', '.'] };
    sign + integer + seq!['.'] + digit_chars(shown_fraction(n, r)) + tail
}

/// The debugging text of a number: the exact fraction text of an integer, else decimal
/// notation from Malachite's expansion of it.
pub open spec fn debug_text(v: (int, nat)) -> Seq<char> {
    if v.1 == 1 {
        fraction_text(v)
    } else {
        let e = decimal_expansion(abs(v.0), v.1);
        decimal_render(v.0 < 0, e.0, e.1, e.2)
    }
}

/// The decimal digits of `m`, most significant first: `0` for zero.
pub open spec fn decimal_chars(m: nat) -> Seq<char> {
    if m == 0 {
        seq!['0']
    } else {
        let d = base_digits(m, 10);
        Seq::new(d.len(), |i: int| (d[d.len() - 1 - i] + 48) as char)
    }
}

/// The exact text of a rational: `n` for an integer, else `n/d`, with `-` before a negative
/// numerator.
pub open spec fn fraction_text(v: (int, nat)) -> Seq<char> {
    let sign: Seq<char> = if v.0 < 0 { seq!['-'] } else { Seq::empty() };
    if v.1 == 1 {
        sign + decimal_chars(abs(v.0))
    } else {
        sign + decimal_chars(abs(v.0)) + seq!['/'] + decimal_chars(v.1)
    }
}

/// The decimal digits of a natural are digit characters with its value.
pub proof fn lemma_decimal_chars(m: nat)
    ensures
        decimal_chars(m).len() > 0,
        forall|i: int| 0 <= i < decimal_chars(m).len() ==> is_digit_char(#[trigger] decimal_chars(m)[i]),
        digits_text_value(decimal_chars(m)) == m,
    decreases m,
{
    if m == 0 {
        assert(seq!['0'].drop_last() =~= Seq::<char>::empty());
        assert(digits_text_value(Seq::<char>::empty()) == 0);
    } else {
        lemma_base_digits(m, 10);
        let d = base_digits(m, 10);
        assert(d.len() > 0);
        assert forall|i: int| 0 <= i < decimal_chars(m).len() implies is_digit_char(#[trigger] decimal_chars(m)[i]) by {
            assert(d[d.len() - 1 - i] < 10);
        }
        lemma_decimal_chars_value(m);
    }
}

/// The value of the reversed base-10 digits of a positive natural is the natural.
proof fn lemma_decimal_chars_value(m: nat)
    requires
        m > 0,
    ensures
        digits_text_value(decimal_chars(m)) == m,
    decreases m,
{
    vstd::arithmetic::div_mod::lemma_fundamental_div_mod(m as int, 10);
    let d = base_digits(m, 10);
    let s = decimal_chars(m);
    lemma_base_digits(m, 10);
    assert(d[0] == (m % 10) as u8);
    assert(s.last() == ((m % 10) + 48) as char);
    if m / 10 == 0 {
        assert(base_digits(m / 10, 10) =~= Seq::<u8>::empty());
        assert(d.len() == 1);
        assert(s.drop_last() =~= Seq::<char>::empty());
        assert(digits_text_value(Seq::<char>::empty()) == 0);
    } else {
        vstd::arithmetic::div_mod::lemma_div_decreases(m as int, 10);
        lemma_decimal_chars_value(m / 10);
        let rest = base_digits(m / 10, 10);
        assert(d.drop_first() =~= rest);
        assert(s.drop_last() =~= decimal_chars(m / 10)) by {
            assert forall|i: int| 0 <= i < s.drop_last().len() implies s.drop_last()[i] == decimal_chars(m / 10)[i] by {
                assert(d[d.len() - 1 - i] == rest[rest.len() - 1 - i]);
            }
        }
    }
}

/// The exact fraction text of a number in lowest terms reads back as the number, both as
/// Malachite reads it and as a number is read from text.
pub proof fn law_fraction_text_reads_back(v: (int, nat))
    requires
        is_lowest_terms(v.0, v.1),
    ensures
        rational_text(fraction_text(v)) == Some(v),
        forall|bytes: Seq<u8>| number_text(fraction_text(v), bytes) == Ok::<(int, nat), ()>(v),
{
    lemma_decimal_chars(abs(v.0));
    lemma_decimal_chars(v.1);
    let negative = v.0 < 0;
    assert(signed(negative, abs(v.0)) == v.0);
    if v.1 == 1 {
        crate::parse::lemma_integer_text(negative, decimal_chars(abs(v.0)));
    } else {
        crate::parse::lemma_ratio_text(negative, decimal_chars(abs(v.0)), decimal_chars(v.1));
        crate::ratio::lemma_reduced_of_lowest(v.0, v.1);
    }
}

/// The ASCII decimal digits of a natural, most significant first.
fn decimal_bytes(value: &Vec<u64>) -> (r: Vec<u8>)
    ensures
        ascii_chars(r@) == decimal_chars(limbs_value(value@)),
        forall|i: int| 0 <= i < r@.len() ==> #[trigger] r@[i] < 128,
{
    let digits = natural_to_digits_asc(value, 10);
    let ghost m = limbs_value(value@);
    proof {
        lemma_base_digits(m, 10);
        lemma_canonical_digits_unique(digits@, base_digits(m, 10), 10);
    }
    let mut r: Vec<u8> = Vec::new();
    if digits.len() == 0 {
        r.push(48u8);
        proof {
            if m > 0 {
                assert(base_digits(m, 10).len() > 0);
            }
            assert(ascii_chars(r@) =~= seq!['0']);
        }
        return r;
    }
    let mut index = digits.len();
    while index > 0
        invariant
            index <= digits@.len(),
            digits@ == base_digits(m, 10),
            canonical_digits(digits@, 10),
            r@.len() == digits@.len() - index,
            forall|i: int| 0 <= i < r@.len() ==> #[trigger] r@[i] == digits@[digits@.len() - 1 - i] + 48,
        decreases index,
    {
        index = index - 1;
        let digit = digits[index];
        assert(digit < 10);
        r.push(digit + 48);
    }
    proof {
        assert(m > 0) by {
            if m == 0 {
                assert(base_digits(m, 10) =~= Seq::<u8>::empty());
            }
        }
        assert(ascii_chars(r@) =~= decimal_chars(m));
    }
    r
}

/// All bytes are ASCII.
pub open spec fn is_ascii_bytes(b: Seq<u8>) -> bool {
    forall|i: int| 0 <= i < b.len() ==> #[trigger] b[i] < 128
}

/// Appends digits below ten as ASCII characters.
fn push_digit_chars(text: &mut Vec<u8>, digits: &Vec<u8>)
    requires
        forall|i: int| 0 <= i < digits@.len() ==> #[trigger] digits@[i] < 10,
        is_ascii_bytes(old(text)@),
    ensures
        ascii_chars(final(text)@) == ascii_chars(old(text)@) + digit_chars(digits@),
        is_ascii_bytes(final(text)@),
{
    let ghost start = text@;
    let mut index: usize = 0;
    while index < digits.len()
        invariant
            index <= digits@.len(),
            forall|i: int| 0 <= i < digits@.len() ==> #[trigger] digits@[i] < 10,
            is_ascii_bytes(text@),
            ascii_chars(text@) == ascii_chars(start) + digit_chars(digits@.take(index as int)),
        decreases digits.len() - index,
    {
        let ghost before = text@;
        text.push(digits[index] + 48);
        index = index + 1;
        proof {
            assert(ascii_chars(text@) =~= ascii_chars(before) + seq![(digits@[index - 1] + 48) as char]);
            assert(digit_chars(digits@.take(index as int)) =~= digit_chars(digits@.take(index - 1)) + seq![(digits@[index - 1] + 48) as char]);
        }
    }
    proof {
        assert(digits@.take(index as int) =~= digits@);
    }
}

/// The digits in the reverse order.
fn reversed(digits: &Vec<u8>) -> (r: Vec<u8>)
    ensures
        r@ == digits@.reverse(),
{
    let mut r: Vec<u8> = Vec::new();
    let mut index = digits.len();
    while index > 0
        invariant
            index <= digits@.len(),
            r@ == digits@.subrange(index as int, digits@.len() as int).reverse(),
        decreases index,
    {
        index = index - 1;
        r.push(digits[index]);
        proof {
            assert(r@ =~= digits@.subrange(index as int, digits@.len() as int).reverse());
        }
    }
    proof {
        assert(digits@.subrange(0, digits@.len() as int) =~= digits@);
    }
    r
}

/// The fractional digits shown of an expansion.
fn shown_digits(non_repeating: &Vec<u8>, repeating: &Vec<u8>) -> (r: Vec<u8>)
    requires
        forall|i: int| 0 <= i < non_repeating@.len() ==> #[trigger] non_repeating@[i] < 10,
        forall|i: int| 0 <= i < repeating@.len() ==> #[trigger] repeating@[i] < 10,
    ensures
        r@ == shown_fraction(non_repeating@, repeating@),
        forall|i: int| 0 <= i < r@.len() ==> #[trigger] r@[i] < 10,
{
    if repeating.len() == 0 {
        let mut copy: Vec<u8> = Vec::new();
        crate::parse::push_all(&mut copy, non_repeating);
        proof {
            assert(copy@ =~= non_repeating@);
        }
        return copy;
    }
    let mut digits: Vec<u8> = Vec::new();
    let mut index: usize = 0;
    while index < SHOWN_FRACTIONAL_DIGITS
        invariant
            repeating@.len() > 0,
            forall|i: int| 0 <= i < non_repeating@.len() ==> #[trigger] non_repeating@[i] < 10,
            forall|i: int| 0 <= i < repeating@.len() ==> #[trigger] repeating@[i] < 10,
            index <= SHOWN_FRACTIONAL_DIGITS,
            digits@.len() == index,
            forall|i: int| 0 <= i < index ==> #[trigger] digits@[i] == expansion_digit(non_repeating@, repeating@, i),
            forall|i: int| 0 <= i < index ==> #[trigger] digits@[i] < 10,
        decreases SHOWN_FRACTIONAL_DIGITS - index,
    {
        let digit = if index < non_repeating.len() {
            non_repeating[index]
        } else {
            repeating[(index - non_repeating.len()) % repeating.len()]
        };
        digits.push(digit);
        index = index + 1;
    }
    proof {
        assert(digits@ =~= shown_fraction(non_repeating@, repeating@));
    }
    digits
}

/// Decimal notation from an expansion of a rational: `-` for a negative number, the integer
/// part's digits (given least significant first; `0` when there are none), `.`, then all
/// fractional digits of a finite expansion, or the first 32 of a repeating one and `...`.
pub fn render_decimal(negative: bool, before: &Vec<u8>, non_repeating: &Vec<u8>, repeating: &Vec<u8>) -> (r: String)
    requires
        forall|i: int| 0 <= i < before@.len() ==> #[trigger] before@[i] < 10,
        forall|i: int| 0 <= i < non_repeating@.len() ==> #[trigger] non_repeating@[i] < 10,
        forall|i: int| 0 <= i < repeating@.len() ==> #[trigger] repeating@[i] < 10,
    ensures
        r@ == decimal_render(negative, before@, non_repeating@, repeating@),
{
    let mut text: Vec<u8> = Vec::new();
    if negative {
        text.push(45u8);
    }
    let ghost sign = ascii_chars(text@);
    proof {
        if negative {
            assert(sign =~= seq!['-']);
        } else {
            assert(sign =~= Seq::<char>::empty());
        }
    }
    if before.len() == 0 {
        text.push(48u8);
        proof {
            assert(ascii_chars(text@) =~= sign + seq!['0']);
        }
    } else {
        let integer = reversed(before);
        proof {
            assert forall|i: int| 0 <= i < integer@.len() implies #[trigger] integer@[i] < 10 by {
                assert(integer@[i] == before@[before@.len() - 1 - i]);
            }
        }
        push_digit_chars(&mut text, &integer);
    }
    let ghost after_integer = ascii_chars(text@);
    text.push(46u8);
    proof {
        assert(ascii_chars(text@) =~= after_integer + seq!['.']);
    }
    let shown = shown_digits(non_repeating, repeating);
    push_digit_chars(&mut text, &shown);
    let ghost after_fraction = ascii_chars(text@);
    if repeating.len() > 0 {
        text.push(46u8);
        text.push(46u8);
        text.push(46u8);
        proof {
            assert(ascii_chars(text@) =~= after_fraction + seq!['.', '.', '.']);
        }
    }
    proof {
        assert(ascii_chars(text@) =~= decimal_render(negative, before@, non_repeating@, repeating@));
    }
    string_from_ascii(text)
}

impl Number {
    /// The debugging text of the number: an integer as `n`, otherwise decimal notation with
    /// all fractional digits of a finite expansion, or the first 32 of a repeating one
    /// followed by `...`.
    #[verifier::spinoff_prover]
    #[verifier::rlimit(40)]
    pub fn to_debug_string(&self) -> (r: String)
        ensures
            r@ == debug_text(self@),
            self@.1 != 1 ==> digits_value(decimal_expansion(abs(self@.0), self@.1).0, 10) == abs(self@.0)
                / self@.1,
            self@.1 != 1 ==> ({
                let e = decimal_expansion(abs(self@.0), self@.1);
                &&& forall|i: int| 0 <= i < e.0.len() ==> #[trigger] e.0[i] < 10
                &&& forall|i: int| 0 <= i < e.1.len() ==> #[trigger] e.1[i] < 10
                &&& forall|i: int| 0 <= i < e.2.len() ==> #[trigger] e.2[i] < 10
                &&& shown_count(e.1, e.2) <= usize::MAX
            }),
            self@.1 != 1 ==> ({
                let e = decimal_expansion(abs(self@.0), self@.1);
                forall|k: int|
                    0 <= k <= shown_fraction(e.1, e.2).len() ==> #[trigger] be_digits_value(
                        shown_fraction(e.1, e.2).take(k),
                    ) == ((abs(self@.0) % self@.1) * pow(10, k as nat)) / (self@.1 as int)
            }),
    {
        let denominator = self.denominator_limbs();
        let is_integer = denominator.len() == 1 && denominator[0] == 1;
        proof {
            lemma_limbs_value_small(1);
            if self@.1 == 1 {
                lemma_canonical_limbs_unique(denominator@, seq![1u64]);
            }
            if is_integer {
                assert(denominator@ =~= seq![1u64]);
            }
        }
        if is_integer {
            return self.to_fraction_string();
        }
        let (before, non_repeating, repeating) = rational_decimal_digits(self);
        proof {
            use_type_invariant(self);
            self.lemma_valid();
            vstd::arithmetic::div_mod::lemma_mod_bound(abs(self@.0) as int, self@.1 as int);
            law_shown_digits_are_true_digits(
                abs(self@.0) % self@.1,
                self@.1,
                non_repeating@,
                repeating@,
            );
            assert(non_repeating@.len() <= usize::MAX);
            assert forall|i: int| 0 <= i < before@.len() implies #[trigger] before@[i] < 10 by {
            }
        }
        render_decimal(self.is_negative_sign(), &before, &non_repeating, &repeating)
    }

    /// The exact text of the number: `n` for an integer, else `n/d`, with `-` before a
    /// negative numerator.
    pub fn to_fraction_string(&self) -> (r: String)
        ensures
            r@ == fraction_text(self@),
    {
        let mut text: Vec<u8> = Vec::new();
        let negative = self.is_negative_sign();
        if negative {
            text.push(45u8);
        }
        let numerator = decimal_bytes(self.numerator_limbs());
        crate::parse::push_all(&mut text, &numerator);
        let denominator = self.denominator_limbs();
        let is_integer = denominator.len() == 1 && denominator[0] == 1;
        proof {
            lemma_limbs_value_small(1);
            if self@.1 == 1 {
                lemma_canonical_limbs_unique(denominator@, seq![1u64]);
            }
            if is_integer {
                assert(denominator@ =~= seq![1u64]);
            }
        }
        let ghost before_den = text@;
        if !is_integer {
            text.push(47u8);
            let den_text = decimal_bytes(denominator);
            crate::parse::push_all(&mut text, &den_text);
            proof {
                let sign: Seq<char> = if negative { seq!['-'] } else { Seq::empty() };
                assert(ascii_chars(text@) =~= sign + ascii_chars(numerator@) + seq!['/'] + ascii_chars(den_text@));
            }
        } else {
            proof {
                let sign: Seq<char> = if negative { seq!['-'] } else { Seq::empty() };
                assert(ascii_chars(text@) =~= sign + ascii_chars(numerator@));
            }
        }
        proof {
            assert forall|i: int| 0 <= i < text@.len() implies text@[i] < 128 by {
                let p: int = if negative { 1 } else { 0 };
                if i < p {
                } else if i < p + numerator@.len() {
                    assert(text@[i] == numerator@[i - p]);
                } else if i == p + numerator@.len() {
                } else {
                    assert(text@[i] < 128);
                }
            }
        }
        string_from_ascii(text)
    }
}

/// The debugging text of a negative number is `-` followed by that of its magnitude, for
/// integers and non-integers alike.
pub proof fn law_debug_text_of_negation(v: (int, nat))
    requires
        v.0 > 0,
        v.1 > 0,
    ensures
        debug_text((-v.0, v.1)) == seq!['-'] + debug_text(v),
        debug_text((-v.0, v.1))[0] == '-',
{
    assert(abs(-v.0) == abs(v.0));
    if v.1 == 1 {
        assert(fraction_text((-v.0, v.1)) =~= seq!['-'] + fraction_text(v));
    } else {
        let e = decimal_expansion(abs(v.0), v.1);
        assert(decimal_render(true, e.0, e.1, e.2) =~= seq!['-'] + decimal_render(false, e.0, e.1, e.2));
    }
}

/// Runs of digits one after another: the first run's value is shifted past the second's.
#[verifier::spinoff_prover]
#[verifier::rlimit(40)]
proof fn lemma_be_concat(a: Seq<u8>, b: Seq<u8>)
    ensures
        be_digits_value(a + b) == be_digits_value(a) * pow(10, b.len()) + be_digits_value(b),
    decreases b.len(),
{
    if b.len() == 0 {
        assert(a + b =~= a);
        lemma_pow0(10);
    } else {
        let init = b.drop_last();
        lemma_be_concat(a, init);
        assert((a + b).drop_last() =~= a + init);
        assert((a + b).last() == b.last());
        lemma_pow_adds(10, init.len(), 1);
        lemma_pow1(10);
        let x = be_digits_value(a);
        let p = pow(10, init.len());
        let y = be_digits_value(init);
        assert((x * p + y) * 10 + b.last() == x * (p * 10) + (y * 10 + b.last())) by (nonlinear_arith);
    }
}

/// Digits below ten are worth less than the next power of ten; with a digit below nine among
/// them, less than that power minus one.
#[verifier::spinoff_prover]
#[verifier::rlimit(40)]
proof fn lemma_be_bound(a: Seq<u8>)
    requires
        forall|i: int| 0 <= i < a.len() ==> #[trigger] a[i] < 10,
    ensures
        be_digits_value(a) < pow(10, a.len()),
        (exists|i: int| 0 <= i < a.len() && a[i] != 9) ==> be_digits_value(a) + 1 < pow(10, a.len()),
    decreases a.len(),
{
    if a.len() == 0 {
        lemma_pow0(10);
    } else {
        let init = a.drop_last();
        assert forall|i: int| 0 <= i < init.len() implies #[trigger] init[i] < 10 by {
            assert(init[i] == a[i]);
        }
        lemma_be_bound(init);
        lemma_pow_adds(10, init.len(), 1);
        lemma_pow1(10);
        let p = pow(10, init.len());
        let y = be_digits_value(init);
        let l = a.last() as int;
        assert(a.last() < 10);
        assert(y * 10 + l < p * 10) by (nonlinear_arith)
            requires
                y < p,
                l < 10,
        ;
        if exists|i: int| 0 <= i < a.len() && a[i] != 9 {
            let i = choose|i: int| 0 <= i < a.len() && a[i] != 9;
            if i < init.len() {
                assert(init[i] == a[i]);
                assert(y * 10 + l + 1 < p * 10) by (nonlinear_arith)
                    requires
                        y + 1 < p,
                        l < 10,
                ;
            } else {
                assert(y * 10 + l + 1 < p * 10) by (nonlinear_arith)
                    requires
                        y < p,
                        l < 9,
                ;
            }
        }
    }
}

/// The digits of `r` read from position `s` round to position `s` again.
pub open spec fn rotation(r: Seq<u8>, s: int) -> Seq<u8> {
    r.skip(s) + r.take(s)
}

/// The first `j` digits of `r` repeated without end.
pub open spec fn repeated(r: Seq<u8>, j: nat) -> Seq<u8> {
    Seq::new(j, |i: int| r[i % (r.len() as int)])
}

/// Moving the leading digit of a run to its end: ten times the value, less that digit times
/// `10^len - 1`.
proof fn lemma_be_rotate_one(w: Seq<u8>)
    requires
        w.len() > 0,
    ensures
        be_digits_value(w.drop_first().push(w[0])) + w[0] * (pow(10, w.len()) - 1) == 10
            * be_digits_value(w),
{
    let a = w[0];
    let rest = w.drop_first();
    assert(w =~= seq![a] + rest);
    lemma_be_concat(seq![a], rest);
    assert(seq![a].drop_last() =~= Seq::<u8>::empty());
    assert(be_digits_value(Seq::<u8>::empty()) == 0);
    assert(seq![a].last() == a);
    assert(be_digits_value(seq![a]) == a);
    assert(rest.push(a).drop_last() =~= rest);
    lemma_pow_adds(10, rest.len(), 1);
    lemma_pow1(10);
    let p = pow(10, rest.len());
    let y = be_digits_value(rest);
    assert(y * 10 + a + a * (p * 10 - 1) == 10 * (a * p + y)) by (nonlinear_arith);
}

/// Repeating a run: `C 10^j = P_j M + rot_j` for `C` the run's value, `M = 10^R - 1`, `P_j` the
/// value of its first `j` repeated digits and `rot_j` that of the run read from `j mod R`.
#[verifier::spinoff_prover]
#[verifier::rlimit(40)]
proof fn lemma_repeated_value(r: Seq<u8>, j: nat)
    requires
        r.len() > 0,
    ensures
        be_digits_value(r) * pow(10, j) == be_digits_value(repeated(r, j)) * (pow(10, r.len()) - 1)
            + be_digits_value(rotation(r, (j as int) % (r.len() as int))),
    decreases j,
{
    let len = r.len() as int;
    let m = pow(10, r.len()) - 1;
    if j == 0 {
        lemma_pow0(10);
        assert(repeated(r, 0) =~= Seq::<u8>::empty());
        assert(rotation(r, 0) =~= r);
        vstd::arithmetic::div_mod::lemma_small_mod(0, r.len());
        assert((0int) % len == 0);
        assert(be_digits_value(Seq::<u8>::empty()) == 0);
        assert(be_digits_value(r) * 1 == be_digits_value(r));
        assert(be_digits_value(repeated(r, 0)) == 0);
        assert(rotation(r, (0int) % len) == r);
        assert(pow(10, 0) == 1);
        assert(be_digits_value(r) * pow(10, j) == be_digits_value(repeated(r, j)) * (pow(10, r.len()) - 1)
            + be_digits_value(rotation(r, (j as int) % (r.len() as int))));
    } else {
        let i = (j - 1) as nat;
        lemma_repeated_value(r, i);
        let s = (i as int) % len;
        vstd::arithmetic::div_mod::lemma_fundamental_div_mod(i as int, len);
        vstd::arithmetic::div_mod::lemma_mod_bound(i as int, len);
        let w = rotation(r, s);
        assert(w[0] == r[s]);
        lemma_be_rotate_one(w);
        assert(w.len() == r.len());
        let next: int = if s + 1 == len { 0 } else { s + 1 };
        assert((j as int) % len == next) by {
            let q = (i as int) / len;
            assert(i as int == len * q + s);
            if s + 1 == len {
                assert(j as int == (q + 1) * len + 0) by (nonlinear_arith)
                    requires
                        i as int == len * q + s,
                        s + 1 == len,
                        j == i + 1,
                ;
                vstd::arithmetic::div_mod::lemma_fundamental_div_mod_converse(j as int, len, q + 1, 0);
            } else {
                assert(j as int == q * len + (s + 1)) by (nonlinear_arith)
                    requires
                        i as int == len * q + s,
                        j == i + 1,
                ;
                vstd::arithmetic::div_mod::lemma_fundamental_div_mod_converse(j as int, len, q, s + 1);
            }
        }
        assert(rotation(r, next) =~= w.drop_first().push(r[s]));
        assert(repeated(r, j).drop_last() =~= repeated(r, i));
        assert(repeated(r, j).last() == r[s]);
        lemma_pow_adds(10, i, 1);
        lemma_pow1(10);
        let c = be_digits_value(r);
        let pi = be_digits_value(repeated(r, i));
        let rot = be_digits_value(w);
        let rot_next = be_digits_value(rotation(r, next));
        let a = r[s] as int;
        assert(be_digits_value(repeated(r, j)) == pi * 10 + a);
        assert(pow(10, j) == pow(10, i) * 10);
        assert(rot_next + a * m == 10 * rot);
        assert(c * pow(10, i) == pi * m + rot);
        let pj = pow(10, j);
        let pii = pow(10, i);
        assert(c * pj == (pi * 10 + a) * m + rot_next) by (nonlinear_arith)
            requires
                c * pii == pi * m + rot,
                rot_next + a * m == 10 * rot,
                pj == pii * 10,
        ;
        assert(rotation(r, (j as int) % len) == rotation(r, next));
        assert(be_digits_value(r) * pow(10, j) == be_digits_value(repeated(r, j)) * (pow(10, r.len()) - 1)
            + be_digits_value(rotation(r, (j as int) % (r.len() as int))));
    }
}

/// A run with a digit other than nine keeps one wherever it is read from.
proof fn lemma_rotation_has_non_nine(r: Seq<u8>, s: int)
    requires
        0 <= s < r.len(),
        exists|i: int| 0 <= i < r.len() && r[i] != 9,
    ensures
        exists|i: int| 0 <= i < rotation(r, s).len() && rotation(r, s)[i] != 9,
{
    let i = choose|i: int| 0 <= i < r.len() && r[i] != 9;
    let w = rotation(r, s);
    if i >= s {
        assert(w[i - s] == r[i]);
    } else {
        assert(w[r.len() - s + i] == r[i]);
    }
}

/// `X D == (E D + rem) d` with `0 <= rem < D` makes `E` the quotient of `X` by `d`.
proof fn lemma_quotient_from_bounds(x: int, d: int, e: int, big_d: int, rem: int)
    requires
        d > 0,
        big_d > 0,
        0 <= rem < big_d,
        x * big_d == (e * big_d + rem) * d,
    ensures
        e == x / d,
{
    assert(0 <= x - e * d < d) by (nonlinear_arith)
        requires
            d > 0,
            big_d > 0,
            0 <= rem < big_d,
            x * big_d == (e * big_d + rem) * d,
    ;
    vstd::arithmetic::div_mod::lemma_fundamental_div_mod_converse(x, d, e, x - e * d);
}

/// The fractional digits shown are the true decimal digits of the number: for an expansion of
/// the fraction `f / d` that Malachite's value facts describe, the first `k` digits shown read
/// as `floor(f 10^k / d)`, for every `k` up to the count shown. So digit `i` is
/// `floor(f 10^(i+1) / d) mod 10`, and the repeating run continues from the end of the
/// non-repeating one.
#[verifier::spinoff_prover]
#[verifier::rlimit(40)]
pub proof fn law_shown_digits_are_true_digits(f: nat, d: nat, n: Seq<u8>, r: Seq<u8>)
    requires
        f < d,
        forall|i: int| 0 <= i < n.len() ==> #[trigger] n[i] < 10,
        forall|i: int| 0 <= i < r.len() ==> #[trigger] r[i] < 10,
        r.len() == 0 ==> f * pow(10, n.len()) == be_digits_value(n) * d,
        r.len() > 0 ==> f * pow(10, n.len()) * (pow(10, r.len()) - 1) == (be_digits_value(n) * (pow(
            10,
            r.len(),
        ) - 1) + be_digits_value(r)) * d,
        r.len() > 0 ==> exists|i: int| 0 <= i < r.len() && r[i] != 9,
    ensures
        forall|k: int|
            0 <= k <= shown_fraction(n, r).len() ==> #[trigger] be_digits_value(shown_fraction(n, r).take(k))
                == (f * pow(10, k as nat)) / (d as int),
{
    let shown = shown_fraction(n, r);
    let len_n = n.len();
    let b = be_digits_value(n);
    assert forall|k: int| 0 <= k <= shown.len() implies #[trigger] be_digits_value(shown.take(k)) == (f
        * pow(10, k as nat)) / (d as int) by {
        let kn = k as nat;
        lemma_pow_positive(10, kn);
        if r.len() == 0 {
            // A finite expansion: the rest of the digits make up the remainder.
            let head = n.take(k);
            let tail = n.skip(k);
            assert(n =~= head + tail);
            assert(shown.take(k) =~= head);
            lemma_be_concat(head, tail);
            assert forall|i: int| 0 <= i < tail.len() implies #[trigger] tail[i] < 10 by {
                assert(tail[i] == n[i + k]);
            }
            lemma_be_bound(tail);
            lemma_pow_adds(10, kn, tail.len());
            lemma_pow_positive(10, tail.len());
            let big_d = pow(10, tail.len());
            let e = be_digits_value(head);
            let rem = be_digits_value(tail);
            assert((f * pow(10, kn)) * big_d == (e * big_d + rem) * d) by (nonlinear_arith)
                requires
                    pow(10, len_n) == pow(10, kn) * big_d,
                    f * pow(10, len_n) == b * d,
                    b == e * big_d + rem,
            ;
            lemma_quotient_from_bounds(f * pow(10, kn), d as int, e as int, big_d, rem as int);
        } else {
            let m = pow(10, r.len()) - 1;
            lemma_pow_positive(10, r.len());
            assert(m > 0) by {
                lemma_pow_adds(10, 1, (r.len() - 1) as nat);
                lemma_pow1(10);
                lemma_pow_positive(10, (r.len() - 1) as nat);
            }
            let c = be_digits_value(r);
            lemma_be_bound(r);
            if k <= len_n {
                let head = n.take(k);
                let tail = n.skip(k);
                assert(n =~= head + tail);
                assert(shown.take(k) =~= head) by {
                    assert forall|i: int| 0 <= i < k implies shown.take(k)[i] == head[i] by {
                        assert(shown[i] == expansion_digit(n, r, i));
                    }
                }
                lemma_be_concat(head, tail);
                assert forall|i: int| 0 <= i < tail.len() implies #[trigger] tail[i] < 10 by {
                    assert(tail[i] == n[i + k]);
                }
                lemma_be_bound(tail);
                lemma_pow_adds(10, kn, tail.len());
                lemma_pow_positive(10, tail.len());
                let p = pow(10, tail.len());
                let big_d = p * m;
                let e = be_digits_value(head);
                let t = be_digits_value(tail);
                let rem = t * m + c;
                assert(rem < big_d && big_d > 0) by (nonlinear_arith)
                    requires
                        t < p,
                        c + 1 < m + 1,
                        m > 0,
                        big_d == p * m,
                        rem == t * m + c,
                ;
                assert((f * pow(10, kn)) * big_d == (e * big_d + rem) * d) by (nonlinear_arith)
                    requires
                        pow(10, len_n) == pow(10, kn) * p,
                        f * pow(10, len_n) * m == (b * m + c) * d,
                        b == e * p + t,
                        big_d == p * m,
                        rem == t * m + c,
                ;
                lemma_quotient_from_bounds(f * pow(10, kn), d as int, e as int, big_d, rem);
            } else {
                let j = (k - len_n) as nat;
                let rep = repeated(r, j);
                assert(shown.take(k) =~= n + rep) by {
                    assert forall|i: int| 0 <= i < k implies shown.take(k)[i] == (n + rep)[i] by {
                        assert(shown[i] == expansion_digit(n, r, i));
                        if i >= len_n {
                            assert(rep[i - len_n] == r[(i - len_n) % (r.len() as int)]);
                        }
                    }
                }
                lemma_be_concat(n, rep);
                lemma_repeated_value(r, j);
                let s = (j as int) % (r.len() as int);
                vstd::arithmetic::div_mod::lemma_mod_bound(j as int, r.len() as int);
                lemma_rotation_has_non_nine(r, s);
                let w = rotation(r, s);
                assert forall|i: int| 0 <= i < w.len() implies #[trigger] w[i] < 10 by {
                    if i < r.len() - s {
                        assert(w[i] == r[i + s]);
                    } else {
                        assert(w[i] == r[i - (r.len() - s)]);
                    }
                }
                lemma_be_bound(w);
                assert(w.len() == r.len());
                lemma_pow_adds(10, len_n, j);
                let rot = be_digits_value(w);
                let pj = be_digits_value(rep);
                let e = b * pow(10, j) + pj;
                let pl = pow(10, len_n);
                let pjw = pow(10, j);
                let x = f * pow(10, kn);
                let a = f * pl * m;
                assert(x * m == a * pjw) by (nonlinear_arith)
                    requires
                        pow(10, kn) == pl * pjw,
                        x == f * pow(10, kn),
                        a == f * pl * m,
                ;
                let bc = b * m + c;
                assert(a * pjw == (bc * pjw) * d) by (nonlinear_arith)
                    requires
                        a == bc * d,
                ;
                assert(bc * pjw == (b * pjw) * m + c * pjw) by (nonlinear_arith)
                    requires
                        bc == b * m + c,
                ;
                assert((b * pjw) * m + c * pjw == e * m + rot) by (nonlinear_arith)
                    requires
                        c * pjw == pj * m + rot,
                        e == b * pjw + pj,
                ;
                lemma_quotient_from_bounds(f * pow(10, kn), d as int, e, m, rot as int);
            }
        }
    }
}

/// Little-endian digits reversed read most significant first as the same value.
proof fn lemma_be_reverse(s: Seq<u8>)
    ensures
        be_digits_value(s.reverse()) == digits_value(s, 10),
    decreases s.len(),
{
    if s.len() == 0 {
        assert(s.reverse() =~= Seq::<u8>::empty());
    } else {
        let rest = s.drop_first();
        lemma_be_reverse(rest);
        assert(s.reverse() =~= rest.reverse().push(s[0]));
        assert(s.reverse().drop_last() =~= rest.reverse());
    }
}

/// Digit characters read as the value of their digits.
proof fn lemma_digit_chars_value(s: Seq<u8>)
    requires
        forall|i: int| 0 <= i < s.len() ==> #[trigger] s[i] < 10,
    ensures
        digits_text_value(digit_chars(s)) == be_digits_value(s),
        forall|i: int| 0 <= i < s.len() ==> is_digit_char(#[trigger] digit_chars(s)[i]),
    decreases s.len(),
{
    if s.len() > 0 {
        let init = s.drop_last();
        assert forall|i: int| 0 <= i < init.len() implies #[trigger] init[i] < 10 by {
            assert(init[i] == s[i]);
        }
        lemma_digit_chars_value(init);
        assert(digit_chars(s).drop_last() =~= digit_chars(init));
        assert(s.last() < 10);
        assert(digit_chars(s).last() == (s.last() + 48) as char);
    }
}

/// A run of digit bytes scans as those digits, counted as fractional after the point.
proof fn lemma_mantissa_digit_run(
    bytes: Seq<u8>,
    i: int,
    j: int,
    digits: Seq<char>,
    fraction: nat,
    point: bool,
)
    requires
        0 <= i <= j <= bytes.len(),
        forall|k: int| i <= k < j ==> is_digit_byte(#[trigger] bytes[k]),
    ensures
        mantissa_scan(bytes, i, digits, fraction, point) == mantissa_scan(
            bytes,
            j,
            digits + ascii_chars(bytes.subrange(i, j)),
            if point { fraction + (j - i) as nat } else { fraction },
            point,
        ),
    decreases j - i,
{
    if i == j {
        assert(digits + ascii_chars(bytes.subrange(i, j)) =~= digits);
    } else {
        let b = bytes[i];
        assert(is_digit_byte(b));
        let next = digits.push(b as char);
        lemma_mantissa_digit_run(
            bytes,
            i + 1,
            j,
            next,
            if point { fraction + 1 } else { fraction },
            point,
        );
        assert(next + ascii_chars(bytes.subrange(i + 1, j)) =~= digits + ascii_chars(bytes.subrange(i, j)));
    }
}

/// The count of fractional digits shown.
pub open spec fn shown_count(n: Seq<u8>, r: Seq<u8>) -> nat {
    shown_fraction(n, r).len()
}

/// The `...` after a repeating expansion.
pub open spec fn repeat_mark(r: Seq<u8>) -> Seq<char> {
    if r.len() == 0 { Seq::empty() } else { seq!['.', '.', '.'] }
}

/// Decimal notation of a number reads back as the number cut after the digits shown: when the
/// integer part's digits are worth `m / d` and the first `k` fractional digits shown read as
/// `floor((m mod d) 10^k / d)` (as `to_debug_string` states), the text without its `...` reads
/// as `±floor(m 10^k / d) / 10^k` for `k` the count shown. A finite expansion reads back
/// exactly.
#[verifier::spinoff_prover]
#[verifier::rlimit(40)]
pub proof fn law_decimal_render_reads_back(
    negative: bool,
    m: nat,
    d: nat,
    before: Seq<u8>,
    n: Seq<u8>,
    r: Seq<u8>,
    bytes: Seq<u8>,
)
    requires
        d > 0,
        forall|i: int| 0 <= i < before.len() ==> #[trigger] before[i] < 10,
        forall|i: int| 0 <= i < n.len() ==> #[trigger] n[i] < 10,
        forall|i: int| 0 <= i < r.len() ==> #[trigger] r[i] < 10,
        digits_value(before, 10) == m / d,
        forall|k: int|
            0 <= k <= shown_count(n, r) ==> #[trigger] be_digits_value(shown_fraction(n, r).take(k)) == ((m
                % d) * pow(10, k as nat)) / (d as int),
        shown_count(n, r) <= usize::MAX,
        ascii_chars(bytes) + repeat_mark(r) == decimal_render(negative, before, n, r),
    ensures
        decimal_text(bytes) == Ok::<(int, nat), ()>(
            reduced(
                signed(negative, ((m * pow(10, shown_count(n, r))) / (d as int)) as nat),
                pow(10, shown_count(n, r)) as nat,
            ),
        ),
{
    let shown = shown_fraction(n, r);
    let k = shown.len();
    assert forall|i: int| 0 <= i < shown.len() implies #[trigger] shown[i] < 10 by {
        if r.len() > 0 {
            if i >= n.len() {
                vstd::arithmetic::div_mod::lemma_mod_bound(i - n.len(), r.len() as int);
            }
        }
    }
    let int_digits: Seq<u8> = if before.len() == 0 { seq![0u8] } else { before.reverse() };
    assert forall|i: int| 0 <= i < int_digits.len() implies #[trigger] int_digits[i] < 10 by {
        if before.len() > 0 {
            assert(int_digits[i] == before[before.len() - 1 - i]);
        }
    }
    let sign: Seq<char> = if negative { seq!['-'] } else { Seq::empty() };
    let integer: Seq<char> = if before.len() == 0 { seq!['0'] } else { digit_chars(before.reverse()) };
    assert(integer =~= digit_chars(int_digits));
    let text = sign + integer + seq!['.'] + digit_chars(shown);
    assert(decimal_render(negative, before, n, r) =~= text + repeat_mark(r));
    assert(ascii_chars(bytes) =~= text) by {
        let a = ascii_chars(bytes);
        assert(a + repeat_mark(r) == text + repeat_mark(r));
        assert((a + repeat_mark(r)).len() == (text + repeat_mark(r)).len());
        assert(a.len() == text.len());
        assert forall|i: int| 0 <= i < a.len() implies a[i] == text[i] by {
            assert((a + repeat_mark(r))[i] == (text + repeat_mark(r))[i]);
        }
    }
    let s0: int = if negative { 1 } else { 0 };
    let p = s0 + int_digits.len();
    lemma_digit_chars_value(int_digits);
    lemma_digit_chars_value(shown);
    assert(bytes.len() == p + 1 + k);
    // Each byte is the character it shows.
    assert forall|i: int| s0 <= i < p implies is_digit_byte(#[trigger] bytes[i]) by {
        assert(ascii_chars(bytes)[i] == text[i]);
        assert(text[i] == digit_chars(int_digits)[i - s0]);
        assert(is_digit_char(digit_chars(int_digits)[i - s0]));
    }
    assert forall|i: int| p + 1 <= i < bytes.len() implies is_digit_byte(#[trigger] bytes[i]) by {
        assert(ascii_chars(bytes)[i] == text[i]);
        assert(text[i] == digit_chars(shown)[i - p - 1]);
        assert(is_digit_char(digit_chars(shown)[i - p - 1]));
    }
    assert(ascii_chars(bytes)[p] == text[p]);
    assert(bytes[p] == 46);
    if negative {
        assert(ascii_chars(bytes)[0] == text[0]);
        assert(bytes[0] == 45);
    } else {
        assert(is_digit_byte(bytes[0]));
    }
    assert(sign_prefix(bytes) == (s0, negative));
    assert(ascii_chars(bytes.subrange(s0, p)) =~= digit_chars(int_digits)) by {
        assert forall|i: int| 0 <= i < int_digits.len() implies ascii_chars(bytes.subrange(s0, p))[i] == digit_chars(int_digits)[i] by {
            assert(ascii_chars(bytes)[i + s0] == text[i + s0]);
        }
    }
    assert(ascii_chars(bytes.subrange(p + 1, bytes.len() as int)) =~= digit_chars(shown)) by {
        assert forall|i: int| 0 <= i < shown.len() implies ascii_chars(bytes.subrange(p + 1, bytes.len() as int))[i] == digit_chars(shown)[i] by {
            assert(ascii_chars(bytes)[i + p + 1] == text[i + p + 1]);
        }
    }
    lemma_mantissa_digit_run(bytes, s0, p, Seq::empty(), 0, false);
    assert(Seq::<char>::empty() + digit_chars(int_digits) =~= digit_chars(int_digits));
    lemma_mantissa_digit_run(bytes, p + 1, bytes.len() as int, digit_chars(int_digits), 0, true);
    let all = digit_chars(int_digits) + digit_chars(shown);
    assert(all =~= digit_chars(int_digits + shown));
    assert forall|i: int| 0 <= i < (int_digits + shown).len() implies #[trigger] (int_digits + shown)[i] < 10 by {
        if i < int_digits.len() {
        } else {
            assert((int_digits + shown)[i] == shown[i - int_digits.len()]);
        }
    }
    lemma_digit_chars_value(int_digits + shown);
    lemma_be_concat(int_digits, shown);
    // The value: the integer part shifted past the shown digits, plus their value.
    let q = m / d;
    let f = m % d;
    if before.len() == 0 {
        assert(seq![0u8].drop_last() =~= Seq::<u8>::empty());
        assert(be_digits_value(Seq::<u8>::empty()) == 0);
        assert(seq![0u8].last() == 0);
        assert(int_digits == seq![0u8]);
        assert(be_digits_value(int_digits) == 0);
        assert(digits_value(before, 10) == 0);
    } else {
        lemma_be_reverse(before);
    }
    assert(be_digits_value(int_digits) == q);
    assert(shown.take(k as int) =~= shown);
    let pk = pow(10, k);
    lemma_pow_positive(10, k);
    let big = digits_text_value(all);
    assert(big == q * pk + (f * pk) / (d as int));
    vstd::arithmetic::div_mod::lemma_fundamental_div_mod(m as int, d as int);
    vstd::arithmetic::div_mod::lemma_fundamental_div_mod((f * pk) as int, d as int);
    vstd::arithmetic::div_mod::lemma_mod_bound((f * pk) as int, d as int);
    let t = (f * pk) / (d as int);
    assert(m * pk == (q * pk + t) * d + (f * pk) % (d as int)) by (nonlinear_arith)
        requires
            m == d * q + f,
            f * pk == d * t + (f * pk) % (d as int),
    ;
    vstd::arithmetic::div_mod::lemma_fundamental_div_mod_converse(
        (m * pk) as int,
        d as int,
        q * pk + t,
        (f * pk) % (d as int),
    );
    assert(big == (m * pk) / (d as int));
    if k == 0 {
        lemma_pow0(10);
        crate::ratio::lemma_gcd_one_right(abs(signed(negative, big)));
        crate::ratio::lemma_reduced_of_lowest(signed(negative, big), 1);
        let p0 = pow(10, 0);
        assert(p0 == 1);
        let sb = signed(negative, big);
        assert(sb * p0 == sb) by (nonlinear_arith)
            requires
                p0 == 1,
        ;
    }
}

} // verus!

//! The binary encoding of a number as two arbitrary-size varints: the numerator in zigzag
//! form (`2n` for `n >= 0`, `2|n| - 1` for `n < 0`), then the denominator. Each varint holds
//! base-128 digits, least significant first, with the high bit set on every byte but the last.

use crate::malachite::{
    natural_add_one, natural_from_digits_asc, natural_is_even, natural_shl_one, natural_shr_one,
    natural_sub_one, natural_to_digits_asc, rational_from_sign_and_naturals,
};
use crate::natural::{
    canonical_digits, canonical_limbs, digits_value, lemma_canonical_digits_unique,
    lemma_canonical_limbs_positive, limbs_value,
};
use crate::number::Number;
use crate::ratio::reduced;
use vstd::arithmetic::div_mod::{lemma_div_decreases, lemma_fundamental_div_mod};
use vstd::prelude::*;

verus! {

/// The base of a varint digit.
pub const VARINT_BASE: u8 = 128;

/// Why bytes do not decode into a number.
#[derive(Clone, Copy, Debug, PartialEq, Eq)]
pub enum DecodeVarintError {
    /// The bytes end before the two varints are complete.
    UnexpectedEnd,
    /// A varint does not denote a natural number.
    InvalidVarint,
    /// The denominator is zero.
    ZeroDenominator,
}

/// The zigzag form of an integer: `2n` for `n >= 0`, `2|n| - 1` for `n < 0`.
pub open spec fn zigzag(n: int) -> nat {
    if n < 0 {
        (-2 * n - 1) as nat
    } else {
        (2 * n) as nat
    }
}

/// The digits of `m` in `base` (at least 2), least significant first, without a most
/// significant zero.
pub open spec fn base_digits(m: nat, base: nat) -> Seq<u8>
    decreases m,
{
    if m == 0 || base < 2 {
        Seq::empty()
    } else {
        proof {
            lemma_div_decreases(m as int, base as int);
        }
        seq![(m % base) as u8] + base_digits(m / base, base)
    }
}

/// The base-128 digits of a varint: those of `m`, or a single zero for zero.
pub open spec fn varint_digits(m: nat) -> Seq<u8> {
    if m == 0 {
        seq![0u8]
    } else {
        base_digits(m, 128)
    }
}

/// The bytes of a varint: its digits, with the high bit set on every byte but the last.
pub open spec fn varint_bytes(m: nat) -> Seq<u8> {
    let d = varint_digits(m);
    Seq::new(d.len(), |i: int| if i + 1 < d.len() { (d[i] + 128) as u8 } else { d[i] })
}

/// The encoding of a rational given as a numerator and a positive denominator.
pub open spec fn encoding(v: (int, nat)) -> Seq<u8> {
    varint_bytes(zigzag(v.0)) + varint_bytes(v.1)
}

/// The length of the varint at the start of `bytes`: up to and including the first byte
/// without the high bit; `None` when every byte has it.
pub open spec fn varint_len(bytes: Seq<u8>) -> Option<nat>
    decreases bytes.len(),
{
    if bytes.len() == 0 {
        None
    } else if bytes[0] < 128 {
        Some(1)
    } else {
        match varint_len(bytes.drop_first()) {
            Some(k) => Some(k + 1),
            None => None,
        }
    }
}

/// The low seven bits of each byte.
pub open spec fn low_bits(bytes: Seq<u8>) -> Seq<u8> {
    Seq::new(bytes.len(), |i: int| (bytes[i] % 128) as u8)
}

/// The value of the first `k` bytes taken as varint digits.
pub open spec fn varint_value(bytes: Seq<u8>, k: nat) -> nat {
    digits_value(low_bits(bytes.take(k as int)), 128)
}

/// The rational whose numerator in zigzag form is `z`, over `d > 0`, reduced.
pub open spec fn unzigzag_ratio(z: nat, d: nat) -> (int, nat) {
    if z % 2 == 0 {
        reduced((z / 2) as int, d)
    } else {
        reduced(-(((z + 1) / 2) as int), d)
    }
}

/// What the bytes decode into: the number and the count of bytes of its two varints, or the
/// reason they do not decode. Bytes after the two varints are not read.
pub open spec fn decoding(bytes: Seq<u8>) -> Result<((int, nat), nat), DecodeVarintError> {
    match varint_len(bytes) {
        None => Err(DecodeVarintError::UnexpectedEnd),
        Some(k1) => match varint_len(bytes.skip(k1 as int)) {
            None => Err(DecodeVarintError::UnexpectedEnd),
            Some(k2) => {
                let z = varint_value(bytes, k1);
                let d = varint_value(bytes.skip(k1 as int), k2);
                if d == 0 {
                    Err(DecodeVarintError::ZeroDenominator)
                } else {
                    Ok((unzigzag_ratio(z, d), k1 + k2))
                }
            },
        },
    }
}

/// The digits of `m` are canonical and denote `m`.
pub proof fn lemma_base_digits(m: nat, base: nat)
    requires
        2 <= base <= 256,
    ensures
        canonical_digits(base_digits(m, base), base),
        digits_value(base_digits(m, base), base) == m,
    decreases m,
{
    if m > 0 {
        lemma_div_decreases(m as int, base as int);
        lemma_base_digits(m / base, base);
        lemma_fundamental_div_mod(m as int, base as int);
        let d = base_digits(m, base);
        let rest = base_digits(m / base, base);
        assert(d.drop_first() =~= rest);
        assert(m % base < base);
        assert forall|i: int| 0 <= i < d.len() implies (#[trigger] d[i]) < base by {
            if i > 0 {
                assert(d[i] == rest[i - 1]);
            }
        }
        if rest.len() == 0 {
            assert(m / base == 0) by {
                if m / base > 0 {
                    assert(base_digits(m / base, base).len() > 0);
                }
            }
            assert(m % base > 0);
        } else {
            assert(d.last() == rest.last());
        }
    }
}

/// The varint digits of `m` are nonempty, below 128, and denote `m`.
pub proof fn lemma_varint_digits(m: nat)
    ensures
        varint_digits(m).len() > 0,
        forall|i: int| 0 <= i < varint_digits(m).len() ==> (#[trigger] varint_digits(m)[i]) < 128,
        digits_value(varint_digits(m), 128) == m,
{
    if m == 0 {
        assert(seq![0u8].drop_first() =~= Seq::<u8>::empty());
        assert(digits_value(Seq::<u8>::empty(), 128) == 0);
    } else {
        lemma_base_digits(m, 128);
        if base_digits(m, 128).len() == 0 {
            assert(digits_value(base_digits(m, 128), 128) == 0);
        }
    }
}

/// A varint's bytes lead any following bytes with their own length, and their low bits are
/// the varint's digits.
pub proof fn lemma_varint_bytes_read(m: nat, rest: Seq<u8>)
    ensures
        varint_len(varint_bytes(m) + rest) == Some(varint_bytes(m).len()),
        low_bits((varint_bytes(m) + rest).take(varint_bytes(m).len() as int)) == varint_digits(m),
{
    lemma_varint_digits(m);
    let b = varint_bytes(m);
    let d = varint_digits(m);
    assert((b + rest).take(b.len() as int) =~= b);
    assert(low_bits(b) =~= d) by {
        assert forall|i: int| 0 <= i < b.len() implies low_bits(b)[i] == d[i] by {
            assert(d[i] < 128);
            if i + 1 < d.len() {
                assert(b[i] == d[i] + 128);
            }
        }
    }
    lemma_varint_len_of_marked(b, rest);
}

/// Bytes whose high bit is set on all but the last have their full length as varint length,
/// whatever follows.
proof fn lemma_varint_len_of_marked(b: Seq<u8>, rest: Seq<u8>)
    requires
        b.len() > 0,
        forall|i: int| 0 <= i < b.len() - 1 ==> #[trigger] b[i] >= 128,
        b.last() < 128,
    ensures
        varint_len(b + rest) == Some(b.len()),
    decreases b.len(),
{
    if b.len() > 1 {
        assert((b + rest).drop_first() =~= b.drop_first() + rest);
        assert forall|i: int| 0 <= i < b.drop_first().len() - 1 implies #[trigger] b.drop_first()[i] >= 128 by {
            assert(b.drop_first()[i] == b[i + 1]);
        }
        lemma_varint_len_of_marked(b.drop_first(), rest);
        assert(b[0] >= 128);
    }
}

/// The bytes of a varint have their high bit set on all but the last.
proof fn lemma_varint_bytes_marked(m: nat)
    ensures
        varint_bytes(m).len() > 0,
        forall|i: int| 0 <= i < varint_bytes(m).len() - 1 ==> #[trigger] varint_bytes(m)[i] >= 128,
        varint_bytes(m).last() < 128,
{
    lemma_varint_digits(m);
}

/// A varint followed by anything reads back as its value, over its own length.
pub proof fn lemma_varint_roundtrip(m: nat, rest: Seq<u8>)
    ensures
        varint_len(varint_bytes(m) + rest) == Some(varint_bytes(m).len()),
        varint_value(varint_bytes(m) + rest, varint_bytes(m).len()) == m,
{
    lemma_varint_bytes_marked(m);
    lemma_varint_len_of_marked(varint_bytes(m), rest);
    lemma_varint_bytes_read(m, rest);
    lemma_varint_digits(m);
}

/// Reading the zigzag form of a numerator back over a denominator gives the reduced ratio.
proof fn lemma_unzigzag_zigzag(n: int, d: nat)
    requires
        crate::ratio::is_lowest_terms(n, d),
    ensures
        unzigzag_ratio(zigzag(n), d) == (n, d),
{
    crate::ratio::lemma_reduced_of_lowest(n, d);
    if n < 0 {
        assert(zigzag(n) % 2 == 1);
        assert((zigzag(n) + 1) / 2 == -n);
    } else {
        assert(zigzag(n) % 2 == 0);
        assert(zigzag(n) / 2 == n);
    }
}

/// Decoding a number's encoding, followed by anything, gives the number back and the length
/// of its encoding.
pub proof fn law_decoding_reads_back_encoding(v: (int, nat), rest: Seq<u8>)
    requires
        crate::ratio::is_lowest_terms(v.0, v.1),
    ensures
        decoding(encoding(v) + rest) == Ok::<((int, nat), nat), DecodeVarintError>((v, encoding(v).len())),
{
    let zb = varint_bytes(zigzag(v.0));
    let db = varint_bytes(v.1);
    let all = encoding(v) + rest;
    assert(all =~= zb + (db + rest));
    assert(all.skip(zb.len() as int) =~= db + rest);
    lemma_varint_roundtrip(zigzag(v.0), db + rest);
    lemma_varint_roundtrip(v.1, rest);
    lemma_unzigzag_zigzag(v.0, v.1);
}

/// A varint found in some bytes is found alike when more bytes follow.
proof fn lemma_varint_len_extend(bytes: Seq<u8>, rest: Seq<u8>)
    requires
        varint_len(bytes) is Some,
    ensures
        varint_len(bytes + rest) == varint_len(bytes),
    decreases bytes.len(),
{
    if bytes[0] >= 128 {
        assert((bytes + rest).drop_first() =~= bytes.drop_first() + rest);
        lemma_varint_len_extend(bytes.drop_first(), rest);
    }
}

/// Once bytes decode or fail for a reason other than their end, more bytes after them do not
/// change the outcome: a reader may stop at the first prefix that is not cut short.
pub proof fn law_decoding_ignores_what_follows(bytes: Seq<u8>, rest: Seq<u8>)
    requires
        decoding(bytes) != Err::<((int, nat), nat), DecodeVarintError>(DecodeVarintError::UnexpectedEnd),
    ensures
        decoding(bytes + rest) == decoding(bytes),
{
    let k1 = varint_len(bytes).unwrap();
    lemma_varint_len_extend(bytes, rest);
    lemma_varint_len_bound(bytes);
    assert((bytes + rest).skip(k1 as int) =~= bytes.skip(k1 as int) + rest);
    let k2 = varint_len(bytes.skip(k1 as int)).unwrap();
    lemma_varint_len_extend(bytes.skip(k1 as int), rest);
    lemma_varint_len_bound(bytes.skip(k1 as int));
    assert((bytes + rest).take(k1 as int) =~= bytes.take(k1 as int));
    assert((bytes.skip(k1 as int) + rest).take(k2 as int) =~= bytes.skip(k1 as int).take(k2 as int));
}

/// Bytes never decode past their end.
proof fn lemma_decoding_within(bytes: Seq<u8>)
    ensures
        decoding(bytes) matches Ok((_, n)) ==> n <= bytes.len(),
{
    lemma_varint_len_bound(bytes);
    if let Some(k1) = varint_len(bytes) {
        lemma_varint_len_bound(bytes.skip(k1 as int));
    }
}

/// Every strict prefix of a number's encoding is cut short: a reader that stops at the first
/// prefix that is not cut short reads exactly the encoding.
pub proof fn law_strict_prefix_is_cut_short(v: (int, nat), k: int)
    requires
        crate::ratio::is_lowest_terms(v.0, v.1),
        0 <= k < encoding(v).len(),
    ensures
        decoding(encoding(v).take(k)) == Err::<((int, nat), nat), DecodeVarintError>(DecodeVarintError::UnexpectedEnd),
{
    let p = encoding(v).take(k);
    let rest = encoding(v).skip(k);
    assert(p + rest =~= encoding(v));
    assert(encoding(v) + Seq::<u8>::empty() =~= encoding(v));
    law_decoding_reads_back_encoding(v, Seq::empty());
    if decoding(p) != Err::<((int, nat), nat), DecodeVarintError>(DecodeVarintError::UnexpectedEnd) {
        law_decoding_ignores_what_follows(p, rest);
        lemma_decoding_within(p);
    }
}

/// The limbs of a number's numerator in zigzag form.
fn encode_signed_numerator(value: &Number) -> (r: Vec<u64>)
    ensures
        canonical_limbs(r@),
        limbs_value(r@) == zigzag(value@.0),
{
    let numerator = value.numerator_limbs();
    if value.is_negative_sign() {
        natural_sub_one(&natural_shl_one(numerator))
    } else {
        natural_shl_one(numerator)
    }
}

/// The sign (true for nonnegative) and magnitude of a numerator from its zigzag form.
fn decode_signed_numerator(value: &Vec<u64>) -> (r: (bool, Vec<u64>))
    ensures
        canonical_limbs(r.1@),
        r.0 == (limbs_value(value@) % 2 == 0),
        r.0 ==> limbs_value(r.1@) == limbs_value(value@) / 2,
        !r.0 ==> limbs_value(r.1@) == (limbs_value(value@) + 1) / 2,
{
    if natural_is_even(value) {
        (true, natural_shr_one(value))
    } else {
        (false, natural_shr_one(&natural_add_one(value)))
    }
}

/// The base-128 digits of a natural as a varint: at least one digit.
fn varint_digits_of(value: &Vec<u64>) -> (r: Vec<u8>)
    ensures
        r@ == varint_digits(limbs_value(value@)),
{
    let mut digits = natural_to_digits_asc(value, VARINT_BASE);
    proof {
        let m = limbs_value(value@);
        lemma_base_digits(m, 128);
        lemma_canonical_digits_unique(digits@, base_digits(m, 128), 128);
    }
    if digits.len() == 0 {
        digits.push(0);
        proof {
            assert(digits@ =~= seq![0u8]);
        }
    }
    digits
}

/// The count of bytes of a natural's varint.
fn varint_size(value: &Vec<u64>) -> (r: usize)
    ensures
        r == varint_bytes(limbs_value(value@)).len(),
{
    varint_digits_of(value).len()
}

/// Appends the varint of a natural.
fn encode_unsigned_varint(value: &Vec<u64>, dest: &mut Vec<u8>)
    ensures
        final(dest)@ == old(dest)@ + varint_bytes(limbs_value(value@)),
{
    let digits = varint_digits_of(value);
    let ghost start = dest@;
    let last_index = digits.len() - 1;
    let mut index: usize = 0;
    proof {
        lemma_varint_digits(limbs_value(value@));
    }
    while index < digits.len()
        invariant
            digits@ == varint_digits(limbs_value(value@)),
            digits.len() > 0,
            last_index == digits.len() - 1,
            forall|i: int| 0 <= i < digits.len() ==> (#[trigger] digits@[i]) < 128,
            index <= digits.len(),
            dest@ == start + varint_bytes(limbs_value(value@)).take(index as int),
        decreases digits.len() - index,
    {
        let digit = digits[index];
        let byte = if index == last_index {
            digit
        } else {
            assert(digit < 128);
            assert(digit | 0x80 == digit + 128) by (bit_vector)
                requires
                    digit < 128,
            ;
            digit | 0x80
        };
        dest.push(byte);
        proof {
            assert(varint_bytes(limbs_value(value@)).take(index + 1) =~= varint_bytes(
                limbs_value(value@),
            ).take(index as int).push(byte));
        }
        index = index + 1;
    }
    proof {
        assert(varint_bytes(limbs_value(value@)).take(index as int) =~= varint_bytes(
            limbs_value(value@),
        ));
    }
}

/// The count of bytes of a number's encoding, or `usize::MAX` when it does not fit.
pub fn size(value: &Number) -> (r: usize)
    ensures
        encoding(value@).len() <= usize::MAX ==> r == encoding(value@).len(),
        encoding(value@).len() > usize::MAX ==> r == usize::MAX,
{
    let numerator = encode_signed_numerator(value);
    let a = varint_size(&numerator);
    let b = varint_size(value.denominator_limbs());
    if a > usize::MAX - b {
        usize::MAX
    } else {
        a + b
    }
}

/// The encoding of a number.
pub fn encode(value: &Number) -> (r: Vec<u8>)
    ensures
        r@ == encoding(value@),
{
    let mut encoded: Vec<u8> = Vec::new();
    encode_unsigned_varint(&encode_signed_numerator(value), &mut encoded);
    encode_unsigned_varint(value.denominator_limbs(), &mut encoded);
    proof {
        assert(encoded@ =~= encoding(value@));
    }
    encoded
}

/// Reads the varint that starts at `start`: its limbs and its byte count.
fn decode_unsigned_varint(bytes: &[u8], start: usize) -> (r: Option<(Vec<u64>, usize)>)
    requires
        start <= bytes@.len(),
    ensures
        match varint_len(bytes@.skip(start as int)) {
            None => r is None,
            Some(k) => r matches Some((limbs, n)) && n == k && canonical_limbs(limbs@) && limbs_value(
                limbs@,
            ) == varint_value(bytes@.skip(start as int), k),
        },
{
    let ghost tail = bytes@.skip(start as int);
    let mut digits: Vec<u8> = Vec::new();
    let mut index: usize = start;
    while index < bytes.len()
        invariant
            start <= index <= bytes@.len(),
            tail == bytes@.skip(start as int),
            digits@ == low_bits(tail.take(index - start)),
            forall|i: int| 0 <= i < index - start ==> #[trigger] tail[i] >= 128,
        decreases bytes.len() - index,
    {
        let byte = bytes[index];
        proof {
            assert(tail[index - start] == byte);
        }
        assert(byte & 0x7f == byte % 128) by (bit_vector);
        digits.push(byte & 0x7f);
        proof {
            assert(digits@ =~= low_bits(tail.take(index - start + 1)));
        }
        assert((byte & 0x80 == 0) == (byte < 128)) by (bit_vector);
        if byte & 0x80 == 0 {
            proof {
                lemma_varint_len_after_marked(tail, (index - start) as nat);
            }
            assert forall|i: int| 0 <= i < digits@.len() implies digits@[i] < 128 by {
            }
            match natural_from_digits_asc(&digits, VARINT_BASE) {
                Some(limbs) => {
                    return Some((limbs, index - start + 1));
                },
                None => {
                    return None;
                },
            }
        }
        index = index + 1;
    }
    proof {
        assert(tail.take(index - start) =~= tail);
        lemma_varint_len_all_marked(tail);
    }
    None
}

/// If the first `j` bytes have the high bit and byte `j` does not, the varint length is `j + 1`.
proof fn lemma_varint_len_after_marked(bytes: Seq<u8>, j: nat)
    requires
        j < bytes.len(),
        forall|i: int| 0 <= i < j ==> #[trigger] bytes[i] >= 128,
        bytes[j as int] < 128,
    ensures
        varint_len(bytes) == Some(j + 1),
    decreases j,
{
    if j > 0 {
        assert forall|i: int| 0 <= i < j - 1 implies #[trigger] bytes.drop_first()[i] >= 128 by {
            assert(bytes.drop_first()[i] == bytes[i + 1]);
        }
        assert(bytes.drop_first()[j - 1] == bytes[j as int]);
        lemma_varint_len_after_marked(bytes.drop_first(), (j - 1) as nat);
        assert(bytes[0] >= 128);
    }
}

/// If every byte has the high bit, no varint ends in the bytes.
proof fn lemma_varint_len_all_marked(bytes: Seq<u8>)
    requires
        forall|i: int| 0 <= i < bytes.len() ==> #[trigger] bytes[i] >= 128,
    ensures
        varint_len(bytes) is None,
    decreases bytes.len(),
{
    if bytes.len() > 0 {
        assert forall|i: int| 0 <= i < bytes.drop_first().len() implies #[trigger] bytes.drop_first()[i] >= 128 by {
            assert(bytes.drop_first()[i] == bytes[i + 1]);
        }
        lemma_varint_len_all_marked(bytes.drop_first());
        assert(bytes[0] >= 128);
    }
}

/// A varint never runs past the end of the bytes.
proof fn lemma_varint_len_bound(bytes: Seq<u8>)
    ensures
        varint_len(bytes) matches Some(k) ==> 0 < k <= bytes.len(),
    decreases bytes.len(),
{
    if bytes.len() > 0 {
        lemma_varint_len_bound(bytes.drop_first());
    }
}

/// Decodes a number from the two varints at the start of `bytes`, giving it and the count of
/// bytes read.
pub fn decode(bytes: &[u8]) -> (r: Result<(Number, usize), DecodeVarintError>)
    ensures
        match decoding(bytes@) {
            Ok((v, n)) => r matches Ok((x, m)) && x@ == v && m == n,
            Err(e) => r == Err::<(Number, usize), DecodeVarintError>(e),
        },
{
    proof {
        assert(bytes@.skip(0) =~= bytes@);
        lemma_varint_len_bound(bytes@);
    }
    let (encoded_numerator, first) = match decode_unsigned_varint(bytes, 0) {
        Some(read) => read,
        None => {
            return Err(DecodeVarintError::UnexpectedEnd);
        },
    };
    proof {
        assert(first <= bytes@.len());
        lemma_varint_len_bound(bytes@.skip(first as int));
    }
    let (denominator, second) = match decode_unsigned_varint(bytes, first) {
        Some(read) => read,
        None => {
            return Err(DecodeVarintError::UnexpectedEnd);
        },
    };
    if denominator.len() == 0 {
        proof {
            assert(denominator@ =~= Seq::<u64>::empty());
        }
        return Err(DecodeVarintError::ZeroDenominator);
    }
    proof {
        lemma_canonical_limbs_positive(denominator@);
    }
    assert(second <= bytes@.len() - first);
    assert(bytes@.len() == bytes.len());
    let (sign, numerator) = decode_signed_numerator(&encoded_numerator);
    let value = rational_from_sign_and_naturals(sign, &numerator, &denominator);
    Ok((value, first + second))
}

/// The encoding's first byte carries the sign in its low bit: it is odd exactly for a negative
/// number.
pub proof fn law_encoding_sign_bit(v: (int, nat))
    ensures
        encoding(v).len() > 0,
        (encoding(v)[0] % 2 == 1) <==> v.0 < 0,
{
    let z = zigzag(v.0);
    let d = varint_digits(z);
    lemma_varint_digits(z);
    assert(encoding(v)[0] == varint_bytes(z)[0]);
    if z == 0 {
        assert(d[0] == 0);
    } else {
        assert(d[0] == (z % 128) as u8);
        assert((z % 128) % 2 == z % 2) by (nonlinear_arith);
    }
    let b = varint_bytes(z)[0];
    assert(b % 2 == d[0] % 2);
    if v.0 < 0 {
        assert(z == -2 * v.0 - 1);
        assert(z % 2 == 1) by (nonlinear_arith)
            requires
                z == -2 * v.0 - 1,
                v.0 < 0,
        ;
    } else {
        assert(z % 2 == 0) by (nonlinear_arith)
            requires
                z == 2 * v.0,
        ;
    }
}

} // verus!

//! Serialization of numbers as two arbitrary-size varints (see `rational_varint`).

use crate::number::Number;
use crate::rational_varint::{decode, decoding, encode, encoding, size, DecodeVarintError};
use vstd::prelude::*;

verus! {

/// A value with a binary encoding.
pub trait Serialize {
    /// The count of bytes of the encoding.
    fn size(&self) -> usize;

    /// Appends the encoding to `writer`.
    fn serialize(&self, writer: &mut Vec<u8>);
}

/// A value that decodes from exactly the given bytes.
pub trait Deserialize: Sized {
    fn deserialize(bytes: &[u8]) -> Result<Self, DeserializeError>;
}

/// Why bytes do not deserialize into a number.
#[derive(Clone, Copy, Debug, PartialEq, Eq)]
pub enum DeserializeError {
    /// The bytes end before the two varints are complete.
    UnexpectedEnd,
    /// A varint does not denote a natural number.
    InvalidVarint,
    /// The denominator is zero.
    ZeroDenominator,
    /// Bytes follow the two varints.
    TrailingBytes,
}

/// What exactly the given bytes deserialize into.
pub open spec fn deserialization(bytes: Seq<u8>) -> Result<(int, nat), DeserializeError> {
    match decoding(bytes) {
        Err(DecodeVarintError::UnexpectedEnd) => Err(DeserializeError::UnexpectedEnd),
        Err(DecodeVarintError::InvalidVarint) => Err(DeserializeError::InvalidVarint),
        Err(DecodeVarintError::ZeroDenominator) => Err(DeserializeError::ZeroDenominator),
        Ok((v, n)) => if n < bytes.len() {
            Err(DeserializeError::TrailingBytes)
        } else {
            Ok(v)
        },
    }
}

impl Serialize for Number {
    fn size(&self) -> (r: usize)
        ensures
            encoding(self@).len() <= usize::MAX ==> r == encoding(self@).len(),
    {
        size(self)
    }

    fn serialize(&self, writer: &mut Vec<u8>)
        ensures
            final(writer)@ == old(writer)@ + encoding(self@),
    {
        let encoded = encode(self);
        let mut index: usize = 0;
        let ghost start = writer@;
        while index < encoded.len()
            invariant
                index <= encoded.len(),
                writer@ == start + encoded@.take(index as int),
            decreases encoded.len() - index,
        {
            writer.push(encoded[index]);
            proof {
                assert(encoded@.take(index + 1) =~= encoded@.take(index as int).push(encoded@[index as int]));
            }
            index = index + 1;
        }
        proof {
            assert(encoded@.take(index as int) =~= encoded@);
        }
    }
}

impl Deserialize for Number {
    fn deserialize(bytes: &[u8]) -> (r: Result<Number, DeserializeError>)
        ensures
            match deserialization(bytes@) {
                Ok(v) => r matches Ok(x) && x@ == v,
                Err(e) => r == Err::<Number, DeserializeError>(e),
            },
    {
        match decode(bytes) {
            Err(DecodeVarintError::UnexpectedEnd) => Err(DeserializeError::UnexpectedEnd),
            Err(DecodeVarintError::InvalidVarint) => Err(DeserializeError::InvalidVarint),
            Err(DecodeVarintError::ZeroDenominator) => Err(DeserializeError::ZeroDenominator),
            Ok((value, read)) => {
                if read < bytes.len() {
                    Err(DeserializeError::TrailingBytes)
                } else {
                    Ok(value)
                }
            },
        }
    }
}

/// A number's encoding deserializes back into the number.
pub proof fn law_deserialize_serialize(v: (int, nat))
    requires
        crate::ratio::is_lowest_terms(v.0, v.1),
    ensures
        deserialization(encoding(v)) == Ok::<(int, nat), DeserializeError>(v),
{
    crate::rational_varint::law_decoding_reads_back_encoding(v, Seq::empty());
    assert(encoding(v) + Seq::<u8>::empty() =~= encoding(v));
}

} // verus!

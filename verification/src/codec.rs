//! The serialization adapter: any binary structure to bytes and back, and to
//! text and back.
//!
//! Encoding copies the image; decoding checks the byte count and then reads
//! the image. Field values are never validated: every bit pattern of the
//! right length is a value. The text form lists the bytes of the image.

use crate::layout::BinaryStructure;
use crate::text::{bytes_of, bytes_to_text, lemma_bytes_of_text, text_of, text_to_bytes};
use vstd::prelude::*;

verus! {

/// The input of a decode did not have the size of the structure.
#[derive(Debug, Clone, Copy, PartialEq, Eq, Structural)]
pub struct SizeMismatch {
    /// The fixed size of the structure, in bytes.
    pub expected: usize,
    /// The number of bytes that were supplied.
    pub actual: usize,
}

/// What decoding `bytes` as a `T` gives.
pub open spec fn decoded<T: BinaryStructure>(bytes: Seq<u8>) -> Result<T, SizeMismatch> {
    if bytes.len() == T::spec_size() {
        Ok(T::from_image(bytes))
    } else {
        Err((SizeMismatch { expected: T::spec_size() as usize, actual: bytes.len() as usize }))
    }
}

/// The bytes of `value`: its image, copied.
pub fn encode<T: BinaryStructure>(value: &T) -> (bytes: Vec<u8>)
    ensures
        bytes@ == value.image(),
        bytes@.len() == T::spec_size(),
{
    let mut bytes: Vec<u8> = Vec::new();
    value.write_to(&mut bytes);
    proof {
        value.lemma_image_len();
        assert(bytes@ =~= value.image());
    }
    bytes
}

/// The value that `bytes` holds, if `bytes` has the size of a `T`; a size
/// mismatch otherwise. No byte outside `bytes` is read.
pub fn decode<T: BinaryStructure>(bytes: &[u8]) -> (result: Result<T, SizeMismatch>)
    ensures
        result == decoded::<T>(bytes@),
        result is Ok <==> bytes@.len() == T::spec_size(),
        result matches Ok(value) ==> value.image() == bytes@,
        result matches Err(mismatch) ==> mismatch.expected == T::spec_size() && mismatch.actual
            == bytes@.len(),
{
    let expected = T::size();
    if bytes.len() == expected {
        proof {
            T::lemma_image_of_value(bytes@);
        }
        Ok(T::read_from(bytes))
    } else {
        Err(SizeMismatch { expected, actual: bytes.len() })
    }
}

/// Decoding the encoding of a value succeeds and gives a value with the same
/// encoding, byte for byte; it is in fact the same value.
pub proof fn lemma_round_trip<T: BinaryStructure>(value: T)
    ensures
        decoded::<T>(value.image()) == Ok::<T, SizeMismatch>(value),
        decoded::<T>(value.image()) matches Ok(again) && again.image() == value.image(),
{
    value.lemma_image_len();
    value.lemma_value_of_image();
}

/// Decoding any bytes of the right size succeeds, and encoding the result
/// gives those bytes back.
pub proof fn lemma_decode_then_encode<T: BinaryStructure>(bytes: Seq<u8>)
    requires
        bytes.len() == T::spec_size(),
    ensures
        decoded::<T>(bytes) matches Ok(value) && value.image() == bytes,
{
    T::lemma_image_of_value(bytes);
}

/// Bytes of any other size are refused, whatever they hold.
pub proof fn lemma_wrong_size_is_refused<T: BinaryStructure>(bytes: Seq<u8>)
    requires
        bytes.len() != T::spec_size(),
    ensures
        decoded::<T>(bytes) is Err,
{
}

/// Two values with the same encoding are the same value.
pub proof fn lemma_encoding_is_injective<T: BinaryStructure>(a: T, b: T)
    requires
        a.image() == b.image(),
    ensures
        a == b,
{
    a.lemma_value_of_image();
    b.lemma_value_of_image();
}

/// Why a text could not be decoded.
#[derive(Debug, Clone, Copy, PartialEq, Eq, Structural)]
pub enum TextError {
    /// The text is not the text of any byte sequence.
    Malformed,
    /// The text lists bytes, but not as many as the structure has.
    Size(SizeMismatch),
}

/// What decoding `text` as a `T` gives.
pub open spec fn decoded_text<T: BinaryStructure>(text: Seq<char>) -> Result<T, TextError> {
    match bytes_of(text) {
        None => Err(TextError::Malformed),
        Some(bytes) => match decoded::<T>(bytes) {
            Ok(value) => Ok(value),
            Err(mismatch) => Err(TextError::Size(mismatch)),
        },
    }
}

/// The text of `value`: the text of its image.
pub fn encode_text<T: BinaryStructure>(value: &T) -> (text: String)
    ensures
        text@ == text_of(value.image()),
{
    let bytes = encode(value);
    bytes_to_text(bytes.as_slice())
}

/// The value whose text `text` is. A text that lists no byte sequence is
/// malformed; one that lists bytes of another count than the structure has
/// is a size mismatch.
pub fn decode_text<T: BinaryStructure>(text: &str) -> (result: Result<T, TextError>)
    ensures
        result == decoded_text::<T>(text@),
        result matches Ok(value) ==> text_of(value.image()) == text@,
{
    match text_to_bytes(text) {
        None => Err(TextError::Malformed),
        Some(bytes) => match decode(bytes.as_slice()) {
            Ok(value) => Ok(value),
            Err(mismatch) => Err(TextError::Size(mismatch)),
        },
    }
}

/// Decoding the text of a value gives the value back, and with it the same
/// text.
pub proof fn lemma_text_round_trip<T: BinaryStructure>(value: T)
    ensures
        decoded_text::<T>(text_of(value.image())) == Ok::<T, TextError>(value),
{
    lemma_bytes_of_text(value.image());
    lemma_round_trip(value);
}

/// The text form refuses what the byte form refuses: a text that lists
/// bytes of another count than the structure has is a size mismatch.
pub proof fn lemma_text_of_wrong_size_is_refused<T: BinaryStructure>(bytes: Seq<u8>)
    requires
        bytes.len() != T::spec_size(),
    ensures
        decoded_text::<T>(text_of(bytes)) == Err::<T, TextError>(
            TextError::Size(
                SizeMismatch { expected: T::spec_size() as usize, actual: bytes.len() as usize },
            ),
        ),
{
    lemma_bytes_of_text(bytes);
}

} // verus!

//! Binary structures: values with a fixed-size byte image, and the adapter
//! that turns any of them into bytes and back.
//!
//! A binary structure is defined by its image, a byte sequence of a length
//! that depends on the type alone. The image function is a bijection between
//! the values of the type and the byte sequences of that length: every byte
//! of the image belongs to a field, so nothing is lost in either direction.

use crate::endian::{
    le_bytes, le_value, lemma_capacities, lemma_le_bytes_len, lemma_le_bytes_of_value,
    lemma_le_bytes_zero, lemma_le_value_bound, lemma_le_value_of_bytes, u128_from_le, u128_to_le,
    u32_from_le, u32_to_le, u64_from_le, u64_to_le,
};
use vstd::prelude::*;

verus! {

/// The all-zero byte sequence of the given length.
pub open spec fn zero_image(len: nat) -> Seq<u8> {
    Seq::new(len, |i: int| 0u8)
}

/// A value with a fixed-size byte image.
pub trait BinaryStructure: Sized {
    /// The size of every image of this type, in bytes.
    spec fn spec_size() -> nat;

    /// The byte image of the value.
    spec fn image(&self) -> Seq<u8>;

    /// The value that an image of the right size holds.
    spec fn from_image(bytes: Seq<u8>) -> Self;

    /// Every image has the type's size.
    proof fn lemma_image_len(&self)
        ensures
            self.image().len() == Self::spec_size(),
    ;

    /// The value read from an image has that image: no byte is dropped or
    /// changed, whatever the bytes are.
    proof fn lemma_image_of_value(bytes: Seq<u8>)
        requires
            bytes.len() == Self::spec_size(),
        ensures
            Self::from_image(bytes).image() == bytes,
    ;

    /// Reading a value's image gives the value back.
    proof fn lemma_value_of_image(&self)
        ensures
            Self::from_image(self.image()) == *self,
    ;

    /// The size of every image of this type, in bytes.
    fn size() -> (n: usize)
        ensures
            n == Self::spec_size(),
    ;

    /// The value whose image is all zero bytes.
    fn zeroed() -> (value: Self)
        ensures
            value.image() == zero_image(Self::spec_size()),
    ;

    /// Appends the value's image to `out`.
    fn write_to(&self, out: &mut Vec<u8>)
        ensures
            final(out)@ == old(out)@ + self.image(),
    ;

    /// Reads the value that `bytes` holds.
    fn read_from(bytes: &[u8]) -> (value: Self)
        requires
            bytes@.len() == Self::spec_size(),
        ensures
            value == Self::from_image(bytes@),
    ;
}

/// Appends `bytes` to `out`.
pub(crate) fn append(out: &mut Vec<u8>, bytes: &[u8])
    ensures
        final(out)@ == old(out)@ + bytes@,
{
    let mut i: usize = 0;
    while i < bytes.len()
        invariant
            i <= bytes@.len(),
            out@ == old(out)@ + bytes@.take(i as int),
        decreases bytes@.len() - i,
    {
        out.push(bytes[i]);
        i += 1;
        assert(out@ =~= old(out)@ + bytes@.take(i as int));
    }
    assert(bytes@.take(i as int) =~= bytes@);
}

impl BinaryStructure for u32 {
    open spec fn spec_size() -> nat {
        4
    }

    open spec fn image(&self) -> Seq<u8> {
        le_bytes(*self as nat, 4)
    }

    open spec fn from_image(bytes: Seq<u8>) -> Self {
        le_value(bytes) as u32
    }

    proof fn lemma_image_len(&self) {
        lemma_le_bytes_len(*self as nat, 4);
    }

    proof fn lemma_image_of_value(bytes: Seq<u8>) {
        lemma_capacities();
        lemma_le_value_bound(bytes);
        lemma_le_bytes_of_value(bytes);
    }

    proof fn lemma_value_of_image(&self) {
        lemma_capacities();
        lemma_le_value_of_bytes(*self as nat, 4);
    }

    fn size() -> (n: usize) {
        4
    }

    fn zeroed() -> (value: Self) {
        proof {
            lemma_le_bytes_zero(4);
        }
        0
    }

    fn write_to(&self, out: &mut Vec<u8>) {
        let bytes = u32_to_le(*self);
        append(out, bytes.as_slice());
    }

    fn read_from(bytes: &[u8]) -> (value: Self) {
        match u32_from_le(bytes) {
            Some(value) => value,
            None => 0,
        }
    }
}

impl BinaryStructure for u64 {
    open spec fn spec_size() -> nat {
        8
    }

    open spec fn image(&self) -> Seq<u8> {
        le_bytes(*self as nat, 8)
    }

    open spec fn from_image(bytes: Seq<u8>) -> Self {
        le_value(bytes) as u64
    }

    proof fn lemma_image_len(&self) {
        lemma_le_bytes_len(*self as nat, 8);
    }

    proof fn lemma_image_of_value(bytes: Seq<u8>) {
        lemma_capacities();
        lemma_le_value_bound(bytes);
        lemma_le_bytes_of_value(bytes);
    }

    proof fn lemma_value_of_image(&self) {
        lemma_capacities();
        lemma_le_value_of_bytes(*self as nat, 8);
    }

    fn size() -> (n: usize) {
        8
    }

    fn zeroed() -> (value: Self) {
        proof {
            lemma_le_bytes_zero(8);
        }
        0
    }

    fn write_to(&self, out: &mut Vec<u8>) {
        let bytes = u64_to_le(*self);
        append(out, bytes.as_slice());
    }

    fn read_from(bytes: &[u8]) -> (value: Self) {
        match u64_from_le(bytes) {
            Some(value) => value,
            None => 0,
        }
    }
}

impl BinaryStructure for u128 {
    open spec fn spec_size() -> nat {
        16
    }

    open spec fn image(&self) -> Seq<u8> {
        le_bytes(*self as nat, 16)
    }

    open spec fn from_image(bytes: Seq<u8>) -> Self {
        le_value(bytes) as u128
    }

    proof fn lemma_image_len(&self) {
        lemma_le_bytes_len(*self as nat, 16);
    }

    proof fn lemma_image_of_value(bytes: Seq<u8>) {
        lemma_capacities();
        lemma_le_value_bound(bytes);
        lemma_le_bytes_of_value(bytes);
    }

    proof fn lemma_value_of_image(&self) {
        lemma_capacities();
        lemma_le_value_of_bytes(*self as nat, 16);
    }

    fn size() -> (n: usize) {
        16
    }

    fn zeroed() -> (value: Self) {
        proof {
            lemma_le_bytes_zero(16);
        }
        0
    }

    fn write_to(&self, out: &mut Vec<u8>) {
        let bytes = u128_to_le(*self);
        append(out, bytes.as_slice());
    }

    fn read_from(bytes: &[u8]) -> (value: Self) {
        match u128_from_le(bytes) {
            Some(value) => value,
            None => 0,
        }
    }
}

} // verus!

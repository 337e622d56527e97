//! Little-endian byte images of unsigned integers.
//!
//! The images are defined arithmetically, by repeated division by 256. The
//! conversions themselves are done by `zerocopy`, at its little-endian
//! integer types; their contracts below are stated over the arithmetic
//! definitions and are the only unproved facts in this module.

use vstd::prelude::*;
use zerocopy::byteorder::{LittleEndian, U128, U32, U64};
use zerocopy::{FromBytes, IntoBytes};

verus! {

/// The `width` low-order base-256 digits of `value`, least significant first.
pub open spec fn le_bytes(value: nat, width: nat) -> Seq<u8>
    decreases width,
{
    if width == 0 {
        Seq::empty()
    } else {
        seq![(value % 256) as u8] + le_bytes(value / 256, (width - 1) as nat)
    }
}

/// The number whose base-256 digits, least significant first, are `bytes`.
pub open spec fn le_value(bytes: Seq<u8>) -> nat
    decreases bytes.len(),
{
    if bytes.len() == 0 {
        0
    } else {
        bytes[0] as nat + 256 * le_value(bytes.skip(1))
    }
}

/// The number of values that fit in `width` bytes: 256 to the power `width`.
pub open spec fn capacity(width: nat) -> nat
    decreases width,
{
    if width == 0 {
        1
    } else {
        256 * capacity((width - 1) as nat)
    }
}

/// An image has as many bytes as were asked for.
pub proof fn lemma_le_bytes_len(value: nat, width: nat)
    ensures
        le_bytes(value, width).len() == width,
    decreases width,
{
    if width > 0 {
        lemma_le_bytes_len(value / 256, (width - 1) as nat);
    }
}

/// The value of a byte sequence fits in as many bytes as the sequence has.
pub proof fn lemma_le_value_bound(bytes: Seq<u8>)
    ensures
        le_value(bytes) < capacity(bytes.len()),
    decreases bytes.len(),
{
    if bytes.len() > 0 {
        lemma_le_value_bound(bytes.skip(1));
    }
}

/// Reading back the image of a value that fits gives the value.
pub proof fn lemma_le_value_of_bytes(value: nat, width: nat)
    requires
        value < capacity(width),
    ensures
        le_value(le_bytes(value, width)) == value,
    decreases width,
{
    if width > 0 {
        let rest = le_bytes(value / 256, (width - 1) as nat);
        let image = le_bytes(value, width);
        lemma_le_bytes_len(value / 256, (width - 1) as nat);
        assert(image.skip(1) =~= rest);
        lemma_le_value_of_bytes(value / 256, (width - 1) as nat);
    }
}

/// The image of the value of a byte sequence is that sequence.
pub proof fn lemma_le_bytes_of_value(bytes: Seq<u8>)
    ensures
        le_bytes(le_value(bytes), bytes.len()) == bytes,
    decreases bytes.len(),
{
    if bytes.len() > 0 {
        let tail = bytes.skip(1);
        lemma_le_bytes_of_value(tail);
        let value = le_value(bytes);
        assert(value % 256 == bytes[0] as nat && value / 256 == le_value(tail)) by {
            let t = le_value(tail) as int;
            let b = bytes[0] as int;
            assert((b + 256 * t) % 256 == b && (b + 256 * t) / 256 == t) by (nonlinear_arith)
                requires
                    0 <= b < 256,
                    0 <= t,
            ;
        }
        assert(le_bytes(value, bytes.len()) =~= bytes);
    }
}

/// The image of zero is all zero bytes.
pub proof fn lemma_le_bytes_zero(width: nat)
    ensures
        le_bytes(0, width) == Seq::new(width, |i: int| 0u8),
    decreases width,
{
    if width > 0 {
        lemma_le_bytes_zero((width - 1) as nat);
        lemma_le_bytes_len(0, (width - 1) as nat);
    }
    lemma_le_bytes_len(0, width);
    assert(le_bytes(0, width) =~= Seq::new(width, |i: int| 0u8));
}

/// The capacities of the widths that the structures use.
pub proof fn lemma_capacities()
    ensures
        capacity(4) == 0x1_0000_0000,
        capacity(8) == 0x1_0000_0000_0000_0000,
        capacity(16) == 0x1_0000_0000_0000_0000_0000_0000_0000_0000,
{
    reveal_with_fuel(capacity, 17);
}

/// `zerocopy::IntoBytes::as_bytes` of `zerocopy::byteorder::U32::<LittleEndian>::new`:
/// the four bytes of `value`, least significant first.
#[verifier::external_body]
pub(crate) fn u32_to_le(value: u32) -> (bytes: Vec<u8>)
    ensures
        bytes@ == le_bytes(value as nat, 4),
{
    U32::<LittleEndian>::new(value).as_bytes().to_vec()
}

/// `zerocopy::FromBytes::read_from_bytes` at `U32<LittleEndian>`, followed by
/// `get`: refuses a source that is not four bytes long, and otherwise gives
/// the number that the bytes hold, least significant first.
#[verifier::external_body]
pub(crate) fn u32_from_le(source: &[u8]) -> (value: Option<u32>)
    ensures
        source@.len() == 4 ==> value == Some(le_value(source@) as u32),
        source@.len() != 4 ==> value is None,
{
    match U32::<LittleEndian>::read_from_bytes(source) {
        Ok(number) => Some(number.get()),
        Err(_) => None,
    }
}

/// `zerocopy::IntoBytes::as_bytes` of `zerocopy::byteorder::U64::<LittleEndian>::new`:
/// the eight bytes of `value`, least significant first.
#[verifier::external_body]
pub(crate) fn u64_to_le(value: u64) -> (bytes: Vec<u8>)
    ensures
        bytes@ == le_bytes(value as nat, 8),
{
    U64::<LittleEndian>::new(value).as_bytes().to_vec()
}

/// `zerocopy::FromBytes::read_from_bytes` at `U64<LittleEndian>`, followed by
/// `get`: refuses a source that is not eight bytes long, and otherwise gives
/// the number that the bytes hold, least significant first.
#[verifier::external_body]
pub(crate) fn u64_from_le(source: &[u8]) -> (value: Option<u64>)
    ensures
        source@.len() == 8 ==> value == Some(le_value(source@) as u64),
        source@.len() != 8 ==> value is None,
{
    match U64::<LittleEndian>::read_from_bytes(source) {
        Ok(number) => Some(number.get()),
        Err(_) => None,
    }
}

/// `zerocopy::IntoBytes::as_bytes` of `zerocopy::byteorder::U128::<LittleEndian>::new`:
/// the sixteen bytes of `value`, least significant first.
#[verifier::external_body]
pub(crate) fn u128_to_le(value: u128) -> (bytes: Vec<u8>)
    ensures
        bytes@ == le_bytes(value as nat, 16),
{
    U128::<LittleEndian>::new(value).as_bytes().to_vec()
}

/// `zerocopy::FromBytes::read_from_bytes` at `U128<LittleEndian>`, followed
/// by `get`: refuses a source that is not sixteen bytes long, and otherwise
/// gives the number that the bytes hold, least significant first.
#[verifier::external_body]
pub(crate) fn u128_from_le(source: &[u8]) -> (value: Option<u128>)
    ensures
        source@.len() == 16 ==> value == Some(le_value(source@) as u128),
        source@.len() != 16 ==> value is None,
{
    match U128::<LittleEndian>::read_from_bytes(source) {
        Ok(number) => Some(number.get()),
        Err(_) => None,
    }
}

} // verus!

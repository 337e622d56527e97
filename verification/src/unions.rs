//! Union regions: one byte extent that can be read as any of several
//! members, each of which starts at the first byte.
//!
//! The holder of a union region is a binary structure of the region's full
//! size. A member is read from the first bytes of the holder's image, and
//! stored by replacing those bytes; the bytes after the member are kept.

use crate::codec::encode;
use crate::layout::{append, BinaryStructure};
use vstd::prelude::*;
use vstd::slice::slice_subrange;

verus! {

/// The member that the first bytes of `region` hold.
pub open spec fn member_of<M: BinaryStructure>(region: Seq<u8>) -> M {
    M::from_image(region.take(M::spec_size() as int))
}

/// `region` after `member` was stored in it: the member's image, then the
/// bytes of the region that the member does not cover.
pub open spec fn stored<M: BinaryStructure>(region: Seq<u8>, member: M) -> Seq<u8> {
    member.image() + region.skip(M::spec_size() as int)
}

/// A member that was stored is the member that is read.
pub proof fn lemma_member_of_stored<M: BinaryStructure>(region: Seq<u8>, member: M)
    requires
        M::spec_size() <= region.len(),
    ensures
        member_of::<M>(stored(region, member)) == member,
{
    member.lemma_image_len();
    member.lemma_value_of_image();
    assert(stored(region, member).take(M::spec_size() as int) =~= member.image());
}

/// Storing a member keeps the size of the region and the bytes after the
/// member.
pub proof fn lemma_stored_keeps_rest<M: BinaryStructure>(region: Seq<u8>, member: M)
    requires
        M::spec_size() <= region.len(),
    ensures
        stored(region, member).len() == region.len(),
        stored(region, member).skip(M::spec_size() as int) == region.skip(M::spec_size() as int),
{
    member.lemma_image_len();
    assert(stored(region, member).skip(M::spec_size() as int) =~= region.skip(
        M::spec_size() as int,
    ));
}

/// Storing the member that a region holds leaves the region as it is.
pub proof fn lemma_stored_member<M: BinaryStructure>(region: Seq<u8>)
    requires
        M::spec_size() <= region.len(),
    ensures
        stored(region, member_of::<M>(region)) == region,
{
    M::lemma_image_of_value(region.take(M::spec_size() as int));
    assert(stored(region, member_of::<M>(region)) =~= region);
}

/// Reads the member of type `M` that `holder` holds.
pub(crate) fn member<U: BinaryStructure, M: BinaryStructure>(holder: &U) -> (member: M)
    requires
        M::spec_size() <= U::spec_size(),
    ensures
        member == member_of::<M>(holder.image()),
{
    let bytes = encode(holder);
    let part = slice_subrange(bytes.as_slice(), 0, M::size());
    M::read_from(part)
}

/// Stores `member` in `holder`, keeping the bytes that the member does not
/// cover.
pub(crate) fn store<U: BinaryStructure, M: BinaryStructure>(holder: &mut U, member: &M)
    requires
        M::spec_size() <= U::spec_size(),
    ensures
        final(holder).image() == stored(old(holder).image(), *member),
{
    let bytes = encode(holder);
    let mut next: Vec<u8> = Vec::new();
    member.write_to(&mut next);
    append(&mut next, slice_subrange(bytes.as_slice(), M::size(), U::size()));
    proof {
        member.lemma_image_len();
        assert(next@ =~= stored(old(holder).image(), *member));
        U::lemma_image_of_value(next@);
    }
    *holder = U::read_from(next.as_slice());
}

} // verus!

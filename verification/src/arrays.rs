//! Fixed-length arrays of binary structures: the image of an array is the
//! images of its elements, one after the other.

use crate::layout::{zero_image, BinaryStructure};
use vstd::prelude::*;
use vstd::slice::slice_subrange;

verus! {

/// The array whose first `upto` elements are those of `items`, the rest
/// being `items[0]`.
pub open spec fn array_prefix<T: Copy, const N: usize>(items: Seq<T>, upto: nat) -> [T; N]
    decreases upto,
{
    if upto == 0 {
        vstd::array::spec_array_fill_for_copy_type::<T, N>(items[0])
    } else {
        vstd::array::spec_array_update(
            array_prefix::<T, N>(items, (upto - 1) as nat),
            upto - 1,
            items[upto - 1],
        )
    }
}

/// The array that holds `items`, for a sequence of the array's length.
pub open spec fn array_of<T: Copy, const N: usize>(items: Seq<T>) -> [T; N] {
    array_prefix::<T, N>(items, N as nat)
}

proof fn lemma_array_prefix<T: Copy, const N: usize>(items: Seq<T>, upto: nat)
    requires
        upto <= N,
    ensures
        forall|i: int| 0 <= i < upto ==> array_prefix::<T, N>(items, upto)@[i] == items[i],
    decreases upto,
{
    broadcast use vstd::array::group_array_axioms;

    if upto > 0 {
        lemma_array_prefix::<T, N>(items, (upto - 1) as nat);
    }
}

/// `array_of` is the inverse of the view.
pub proof fn lemma_array_of<T: Copy, const N: usize>(items: Seq<T>)
    requires
        items.len() == N,
    ensures
        array_of::<T, N>(items)@ == items,
{
    broadcast use vstd::array::group_array_axioms;

    lemma_array_prefix::<T, N>(items, N as nat);
    assert(array_of::<T, N>(items)@ =~= items);
}

/// An array is the array of its view.
pub proof fn lemma_array_of_view<T: Copy, const N: usize>(array: [T; N])
    ensures
        array_of::<T, N>(array@) == array,
{
    broadcast use vstd::array::group_array_axioms;

    lemma_array_of::<T, N>(array@);
    assert(array_of::<T, N>(array@) =~= array);
}

/// The images of `items`, one after the other.
pub open spec fn images<T: BinaryStructure>(items: Seq<T>) -> Seq<u8>
    decreases items.len(),
{
    if items.len() == 0 {
        Seq::empty()
    } else {
        images(items.drop_last()) + items.last().image()
    }
}

/// The part of `bytes` that holds element `index` of a run of elements of
/// `size` bytes each.
pub open spec fn chunk(bytes: Seq<u8>, index: int, size: nat) -> Seq<u8> {
    bytes.subrange(index * size, (index + 1) * size)
}

/// The `count` elements that `bytes` holds, one after the other.
pub open spec fn elements<T: BinaryStructure>(bytes: Seq<u8>, count: nat) -> Seq<T> {
    Seq::new(count, |i: int| T::from_image(chunk(bytes, i, T::spec_size())))
}

/// The images of `count` elements take `count` times the element's size.
pub proof fn lemma_images_len<T: BinaryStructure>(items: Seq<T>)
    ensures
        images(items).len() == items.len() * T::spec_size(),
    decreases items.len(),
{
    let size = T::spec_size() as int;
    let count = items.len() as int;
    if count > 0 {
        lemma_images_len(items.drop_last());
        items.last().lemma_image_len();
        assert((count - 1) * size + size == count * size) by (nonlinear_arith);
    } else {
        assert(0 * size == 0) by (nonlinear_arith);
    }
}

/// Element `index` of a run lies inside the run.
pub proof fn lemma_chunk_bounds(index: int, count: int, size: int)
    requires
        0 <= index < count,
        0 <= size,
    ensures
        0 <= index * size <= (index + 1) * size <= count * size,
        (index + 1) * size == index * size + size,
{
    assert(0 <= index * size <= (index + 1) * size <= count * size && (index + 1) * size == index
        * size + size) by (nonlinear_arith)
        requires
            0 <= index < count,
            0 <= size,
    ;
}

/// Each element's image stands at its place among the images.
pub proof fn lemma_images_chunk<T: BinaryStructure>(items: Seq<T>, index: int)
    requires
        0 <= index < items.len(),
    ensures
        chunk(images(items), index, T::spec_size()) == items[index].image(),
    decreases items.len(),
{
    let size = T::spec_size();
    let front = items.drop_last();
    lemma_images_len(front);
    lemma_images_len(items);
    items.last().lemma_image_len();
    lemma_chunk_bounds(index, items.len() as int, size as int);
    if index == items.len() - 1 {
        assert(chunk(images(items), index, size) =~= items[index].image());
    } else {
        lemma_images_chunk(front, index);
        lemma_chunk_bounds(index, front.len() as int, size as int);
        assert(chunk(images(items), index, size) =~= chunk(images(front), index, size));
    }
}

/// Reading the images of some elements gives the elements back.
pub proof fn lemma_elements_of_images<T: BinaryStructure>(items: Seq<T>)
    ensures
        elements::<T>(images(items), items.len()) == items,
{
    let read = elements::<T>(images(items), items.len());
    assert forall|i: int| 0 <= i < items.len() implies read[i] == items[i] by {
        lemma_images_chunk(items, i);
        items[i].lemma_value_of_image();
    }
    assert(read =~= items);
}

proof fn lemma_images_of_elements_upto<T: BinaryStructure>(bytes: Seq<u8>, count: nat, upto: nat)
    requires
        bytes.len() == count * T::spec_size(),
        upto <= count,
    ensures
        images(elements::<T>(bytes, upto)) == bytes.subrange(0, (upto * T::spec_size()) as int),
    decreases upto,
{
    let size = T::spec_size();
    if upto == 0 {
        assert(0 * size == 0) by (nonlinear_arith);
        assert(images(elements::<T>(bytes, upto)) =~= bytes.subrange(0, (upto * size) as int));
    } else {
        let index = (upto - 1) as int;
        lemma_images_of_elements_upto::<T>(bytes, count, (upto - 1) as nat);
        lemma_chunk_bounds(index, count as int, size as int);
        let all = elements::<T>(bytes, upto);
        assert(all.drop_last() =~= elements::<T>(bytes, (upto - 1) as nat));
        T::lemma_image_of_value(chunk(bytes, index, size));
        assert(images(all) =~= bytes.subrange(0, (upto * size) as int));
    }
}

/// The images of the elements read from some bytes are those bytes.
pub proof fn lemma_images_of_elements<T: BinaryStructure>(bytes: Seq<u8>, count: nat)
    requires
        bytes.len() == count * T::spec_size(),
    ensures
        images(elements::<T>(bytes, count)) == bytes,
{
    lemma_images_of_elements_upto::<T>(bytes, count, count);
    assert(bytes.subrange(0, (count * T::spec_size()) as int) =~= bytes);
}

/// The images of elements whose images are all zero are all zero.
pub proof fn lemma_images_zero<T: BinaryStructure>(items: Seq<T>)
    requires
        forall|i: int| 0 <= i < items.len() ==> (#[trigger] items[i]).image() == zero_image(
            T::spec_size(),
        ),
    ensures
        images(items) == zero_image(items.len() * T::spec_size()),
    decreases items.len(),
{
    lemma_images_len(items);
    if items.len() > 0 {
        let front = items.drop_last();
        assert forall|i: int| 0 <= i < front.len() implies (#[trigger] front[i]).image()
            == zero_image(T::spec_size()) by {
            assert(front[i] == items[i]);
        }
        lemma_images_zero(front);
        lemma_images_len(front);
        assert(items.last() == items[items.len() - 1]);
    }
    assert(images(items) =~= zero_image(items.len() * T::spec_size()));
}

/// The array whose elements all have the all-zero image.
pub fn zeroed_array<T: BinaryStructure + Copy, const N: usize>() -> (array: [T; N])
    ensures
        images(array@) == zero_image((N * T::spec_size()) as nat),
{
    let array = [T::zeroed(); N];
    proof {
        broadcast use vstd::array::group_array_axioms;

        lemma_images_zero(array@);
    }
    array
}

/// Appends the images of the elements of `array` to `out`, in order.
pub fn write_array<T: BinaryStructure, const N: usize>(array: &[T; N], out: &mut Vec<u8>)
    ensures
        final(out)@ == old(out)@ + images(array@),
{
    let mut i: usize = 0;
    assert(old(out)@ + images(array@.take(0)) =~= old(out)@);
    while i < N
        invariant
            i <= N,
            array@.len() == N,
            out@ == old(out)@ + images(array@.take(i as int)),
        decreases N - i,
    {
        array[i].write_to(out);
        proof {
            let next = array@.take(i + 1);
            assert(next.drop_last() =~= array@.take(i as int));
            assert(next.last() == array@[i as int]);
            assert(out@ =~= old(out)@ + images(next));
        }
        i += 1;
    }
    assert(array@.take(N as int) =~= array@);
}

/// Reads the `N` elements that `bytes` holds, one after the other.
pub fn read_array<T: BinaryStructure + Copy, const N: usize>(bytes: &[u8]) -> (array: [T; N])
    requires
        bytes@.len() == N * T::spec_size(),
    ensures
        array@ == elements::<T>(bytes@, N as nat),
        array == array_of::<T, N>(elements::<T>(bytes@, N as nat)),
{
    let size = T::size();
    let total = bytes.len();
    let mut array = [T::zeroed(); N];
    let mut i: usize = 0;
    while i < N
        invariant
            i <= N,
            size == T::spec_size(),
            total == N * size,
            array@.len() == N,
            bytes@.len() == N * T::spec_size(),
            forall|j: int| 0 <= j < i ==> array@[j] == T::from_image(chunk(bytes@, j, size as nat)),
        decreases N - i,
    {
        proof {
            lemma_chunk_bounds(i as int, N as int, size as int);
        }
        let part = slice_subrange(bytes, i * size, (i + 1) * size);
        array[i] = T::read_from(part);
        i += 1;
    }
    proof {
        broadcast use vstd::array::group_array_axioms;

        assert(array@ =~= elements::<T>(bytes@, N as nat));
        lemma_array_of_view(array);
    }
    array
}

} // verus!

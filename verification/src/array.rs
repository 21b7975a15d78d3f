//! Arrays of `i32` whose length is known only when they are stored.

use crate::traits::Referent;
use vstd::bytes::{
    lemma_auto_spec_u32_to_from_le_bytes, spec_u32_from_le_bytes, spec_u32_to_le_bytes,
    u32_from_le_bytes, u32_to_le_bytes,
};
use vstd::layout::{align_nonzero, align_of, align_properties, layout_of_primitives, size_of};
use vstd::prelude::*;
use vstd::slice::slice_subrange;

verus! {

/// The bytes of an array: four for each element, the low byte first, the
/// elements in their order.
pub open spec fn array_bytes(elements: Seq<i32>) -> Seq<u8> {
    Seq::new(4 * elements.len(), |k: int| spec_u32_to_le_bytes(elements[k / 4] as u32)[k % 4])
}

/// The array that `data` holds, read four bytes at a time.
pub open spec fn array_elements(data: Seq<u8>) -> Seq<i32> {
    Seq::new(
        (data.len() / 4) as nat,
        |i: int| spec_u32_from_le_bytes(data.subrange(4 * i, 4 * i + 4)) as i32,
    )
}

/// Reading back what `array_bytes` wrote gives the array.
pub proof fn lemma_array_elements_of_bytes(elements: Seq<i32>)
    ensures
        array_elements(array_bytes(elements)) == elements,
{
    lemma_auto_spec_u32_to_from_le_bytes();
    let data = array_bytes(elements);
    assert forall|i: int| 0 <= i < elements.len() implies array_elements(data)[i] == elements[i] by {
        let word = spec_u32_to_le_bytes(elements[i] as u32);
        assert(data.subrange(4 * i, 4 * i + 4) =~= word) by {
            assert forall|j: int| 0 <= j < 4 implies data.subrange(4 * i, 4 * i + 4)[j] == word[j] by {
                assert((4 * i + j) / 4 == i && (4 * i + j) % 4 == j);
            }
        }
        let x = elements[i];
        assert((x as u32) as i32 == x) by (bit_vector);
    }
    assert(array_elements(data) =~= elements);
}

/// Writing what `array_elements` read gives the bytes, where they are whole
/// elements.
pub proof fn lemma_array_bytes_of_elements(data: Seq<u8>)
    requires
        data.len() % 4 == 0,
    ensures
        array_bytes(array_elements(data)) == data,
{
    lemma_auto_spec_u32_to_from_le_bytes();
    let elements = array_elements(data);
    assert forall|k: int| 0 <= k < data.len() implies array_bytes(elements)[k] == data[k] by {
        let i = k / 4;
        let word = data.subrange(4 * i, 4 * i + 4);
        let w = spec_u32_from_le_bytes(word);
        assert((w as i32) as u32 == w) by (bit_vector);
        assert(spec_u32_to_le_bytes(w) == word);
        assert(word[k % 4] == data[k]);
    }
    assert(array_bytes(elements) =~= data);
}

/// Two arrays with the same bytes are the same array.
pub proof fn lemma_array_bytes_injective(a: Seq<i32>, b: Seq<i32>)
    requires
        array_bytes(a) == array_bytes(b),
    ensures
        a == b,
{
    lemma_array_elements_of_bytes(a);
    lemma_array_elements_of_bytes(b);
}

/// An `i32` takes four bytes, and its alignment divides them: it is 1, 2
/// or 4.
pub proof fn lemma_element_layout()
    ensures
        size_of::<i32>() == 4,
        0 < align_of::<i32>() <= 4,
        4nat % align_of::<i32>() == 0,
{
    broadcast use layout_of_primitives, align_properties, align_nonzero;

    let align = align_of::<i32>();
    if align > 4 {
        vstd::arithmetic::div_mod::lemma_small_mod(4, align);
    }
}

/// Calls `referent::Referent::disassemble` on a slice and keeps the metadata
/// half of the pair. For a slice the crate returns the slice's own data
/// pointer together with `slice.len()`: the metadata is the element count.
#[verifier::external_body]
fn slice_meta(slice: &[i32]) -> (meta: usize)
    ensures
        meta == slice@.len(),
{
    referent::Referent::disassemble(slice).1
}

impl Referent for Vec<i32> {
    /// The number of elements.
    type Meta = usize;

    open spec fn spec_size_of_val(meta: usize) -> nat {
        meta as nat * size_of::<i32>()
    }

    open spec fn spec_align_of_val(meta: usize) -> nat {
        align_of::<i32>()
    }

    open spec fn spec_disassemble(&self) -> (Seq<u8>, usize) {
        (array_bytes(self@), self@.len() as usize)
    }

    open spec fn spec_valid_parts(data: Seq<u8>, meta: usize) -> bool {
        data.len() == 4 * meta
    }

    proof fn lemma_valid_parts_layout(data: Seq<u8>, meta: usize) {
        lemma_element_layout();
    }

    fn size_of_val(meta: usize) -> (size: usize) {
        broadcast use layout_of_primitives;

        meta * core::mem::size_of::<i32>()
    }

    fn align_of_val(meta: usize) -> (align: usize) {
        core::mem::align_of::<i32>()
    }

    fn disassemble(self) -> (parts: (Vec<u8>, usize)) {
        let meta: usize = slice_meta(self.as_slice());
        let mut data: Vec<u8> = Vec::new();
        let mut i: usize = 0;
        while i < meta
            invariant
                meta == self@.len(),
                i <= meta,
                data@.len() == 4 * i,
                forall|k: int| 0 <= k < 4 * i ==> data@[k] == array_bytes(self@)[k],
            decreases meta - i,
        {
            let word: Vec<u8> = u32_to_le_bytes(#[verifier::truncate] (self[i] as u32));
            let ghost before = data@;
            data.push(word[0]);
            data.push(word[1]);
            data.push(word[2]);
            data.push(word[3]);
            proof {
                assert forall|k: int| 0 <= k < 4 * (i + 1) implies data@[k] == array_bytes(self@)[k] by {
                    if k < 4 * i {
                        assert(data@[k] == before[k]);
                    } else {
                        assert(k / 4 == i && data@[k] == word@[k % 4]);
                    }
                }
            }
            i = i + 1;
        }
        assert(data@ =~= array_bytes(self@));
        (data, meta)
    }

    fn assemble(data: &[u8], meta: usize) -> (handle: Vec<i32>) {
        let mut elements: Vec<i32> = Vec::new();
        let mut i: usize = 0;
        while i < meta
            invariant
                data.len() == 4 * meta,
                i <= meta,
                elements@.len() == i,
                forall|j: int| 0 <= j < i ==> elements@[j] == array_elements(data@)[j],
            decreases meta - i,
        {
            let word: u32 = u32_from_le_bytes(slice_subrange(data, 4 * i, 4 * i + 4));
            elements.push(#[verifier::truncate] (word as i32));
            i = i + 1;
        }
        proof {
            assert(elements@ =~= array_elements(data@));
            lemma_array_bytes_of_elements(data@);
        }
        elements
    }
}

} // verus!


//! The container: a byte region and, beside it, the table of where each
//! element starts and what its metadata is.

use crate::arena::{grown_capacity, Arena};
use crate::iter::{IntoIter, Iter};
use crate::layout::{aligned_offset, lemma_aligned_offset_is_least_multiple, padding_for};
use crate::traits::Referent;
use vstd::prelude::*;
use vstd::slice::slice_subrange;

verus! {

/// Elements of one kind, packed into one region in the order of their
/// insertion. The view is the sequence of the elements' parts.
pub struct DSTVec<T: Referent> {
    // Offsets from the region's base, with each element's metadata: a
    // handle is made from them when one is asked for.
    pointers: Vec<(usize, T::Meta)>,
    data: Arena,
    used_bytes: usize,
}

impl<T: Referent> View for DSTVec<T> {
    type V = Seq<(Seq<u8>, T::Meta)>;

    closed spec fn view(&self) -> Seq<(Seq<u8>, T::Meta)> {
        Seq::new(
            self.pointers@.len(),
            |i: int|
                (
                    self.data@.subrange(
                        self.pointers@[i].0 as int,
                        self.pointers@[i].0 + T::spec_size_of_val(self.pointers@[i].1),
                    ),
                    self.pointers@[i].1,
                ),
        )
    }
}

impl<T: Referent> DSTVec<T> {
    /// Number of elements.
    pub open spec fn spec_len(&self) -> nat {
        self@.len()
    }

    /// High-water mark of the bytes in use, padding included.
    pub closed spec fn spec_used_bytes(&self) -> nat {
        self.used_bytes as nat
    }

    /// The region: every byte of it, used or not.
    pub closed spec fn spec_region(&self) -> Seq<u8> {
        self.data@
    }

    /// Size of the region.
    pub open spec fn spec_capacity(&self) -> nat {
        self.spec_region().len()
    }

    /// Where element `index` starts, counted from the region's base.
    pub closed spec fn spec_offset(&self, index: int) -> nat {
        self.pointers@[index].0 as nat
    }

    /// The bytes of element `index`.
    pub open spec fn spec_data(&self, index: int) -> Seq<u8> {
        self@[index].0
    }

    /// The metadata recorded for element `index`.
    pub open spec fn spec_meta(&self, index: int) -> T::Meta {
        self@[index].1
    }

    /// Where element `index` ends.
    pub open spec fn spec_end(&self, index: int) -> nat {
        self.spec_offset(index) + T::spec_size_of_val(self.spec_meta(index))
    }

    /// Element `index` holds the parts of a value, its bytes are those of
    /// the region from its offset on, it starts at a multiple of its
    /// alignment and ends at or before the used-bytes mark.
    pub open spec fn entry_wf(&self, index: int) -> bool {
        &&& T::spec_valid_parts(self.spec_data(index), self.spec_meta(index))
        &&& self.spec_data(index) == self.spec_region().subrange(
            self.spec_offset(index) as int,
            self.spec_end(index) as int,
        )
        &&& self.spec_offset(index) % T::spec_align_of_val(self.spec_meta(index)) == 0
        &&& self.spec_end(index) <= self.spec_used_bytes()
    }

    /// The invariant: the used bytes lie inside the region, every element is
    /// well formed, and the elements follow each other in the order of their
    /// insertion without overlap.
    pub open spec fn wf(&self) -> bool {
        &&& self.spec_used_bytes() <= self.spec_capacity()
        &&& forall|i: int| 0 <= i < self.spec_len() ==> #[trigger] self.entry_wf(i)
        &&& forall|i: int, j: int|
            #![trigger self.spec_offset(i), self.spec_offset(j)]
            0 <= i < j < self.spec_len() ==> self.spec_offset(i) + T::spec_size_of_val(
                self.spec_meta(i),
            ) <= self.spec_offset(j)
    }

    /// An empty container. Nothing is allocated.
    pub fn new() -> (vec: DSTVec<T>)
        ensures
            vec.wf(),
            vec@ == Seq::<(Seq<u8>, T::Meta)>::empty(),
            vec.spec_used_bytes() == 0,
            vec.spec_capacity() == 0,
    {
        let data = Arena::new();
        DSTVec { pointers: Vec::new(), data: data, used_bytes: 0 }
    }

    /// Appends `value`. Its bytes go to the first offset at or behind the
    /// used-bytes mark that is a multiple of its alignment; the region grows
    /// if it has to. What was stored before stays as it was: bytes, offsets
    /// and metadata.
    pub fn push(&mut self, value: T)
        requires
            old(self).wf(),
            aligned_offset(
                old(self).spec_used_bytes(),
                T::spec_align_of_val(value.spec_disassemble().1),
            ) + T::spec_size_of_val(value.spec_disassemble().1) <= usize::MAX,
        ensures
            final(self).wf(),
            final(self)@ == old(self)@.push(value.spec_disassemble()),
            final(self).spec_offset(old(self).spec_len() as int) == aligned_offset(
                old(self).spec_used_bytes(),
                T::spec_align_of_val(value.spec_disassemble().1),
            ),
            final(self).spec_used_bytes() == final(self).spec_offset(old(self).spec_len() as int)
                + T::spec_size_of_val(value.spec_disassemble().1),
            final(self).spec_capacity() == grown_capacity(
                old(self).spec_capacity(),
                final(self).spec_used_bytes(),
            ),
            forall|i: int|
                0 <= i < old(self).spec_len() ==> #[trigger] final(self).spec_offset(i) == old(
                    self,
                ).spec_offset(i),
    {
        let (bytes, meta) = value.disassemble();
        proof {
            T::lemma_valid_parts_layout(bytes@, meta);
            lemma_aligned_offset_is_least_multiple(
                self.used_bytes as nat,
                T::spec_align_of_val(meta),
            );
        }
        let align: usize = T::align_of_val(meta);
        let size: usize = bytes.len();
        let gap: usize = padding_for(self.used_bytes, align);

        self.data.reserve(self.used_bytes, gap + size);
        self.pointers.reserve(1);
        let ghost grown = self.data@;

        let offset: usize = self.used_bytes + gap;
        self.data.write(offset, bytes.as_slice());
        self.pointers.push((offset, meta));
        self.used_bytes = offset + size;

        proof {
            let n = old(self).spec_len() as int;
            assert forall|i: int| 0 <= i < n implies self@[i] == old(self)@[i] by {
                assert(old(self).entry_wf(i));
                assert forall|k: int|
                    old(self).spec_offset(i) <= k < old(self).spec_end(i) implies self.data@[k]
                    == old(self).data@[k] by {
                    assert(grown[k] == old(self).data@[k]);
                }
                assert(self@[i].0 =~= old(self)@[i].0);
            }
            assert(self@[n].0 =~= bytes@);
            assert(self@ =~= old(self)@.push(value.spec_disassemble()));
            assert forall|i: int| 0 <= i < self.spec_len() implies #[trigger] self.entry_wf(i) by {
                if i < n {
                    assert(old(self).entry_wf(i));
                    assert(self.spec_offset(i) == old(self).spec_offset(i));
                }
            }
            assert forall|i: int, j: int|
                #![trigger self.spec_offset(i), self.spec_offset(j)]
                0 <= i < j < self.spec_len() implies self.spec_offset(i) + T::spec_size_of_val(
                self.spec_meta(i),
            ) <= self.spec_offset(j) by {
                assert(old(self).entry_wf(i));
                assert(self.spec_offset(i) == old(self).spec_offset(i));
                if j < n {
                    assert(self.spec_offset(j) == old(self).spec_offset(j));
                }
            }
        }
    }

    /// Number of elements.
    pub fn len(&self) -> (len: usize)
        ensures
            len == self.spec_len(),
    {
        self.pointers.len()
    }

    /// High-water mark of the bytes in use, padding included.
    pub fn used_bytes(&self) -> (used: usize)
        ensures
            used == self.spec_used_bytes(),
    {
        self.used_bytes
    }

    /// Size of the region.
    pub fn capacity(&self) -> (capacity: usize)
        ensures
            capacity == self.spec_capacity(),
    {
        self.data.capacity()
    }

    /// Where element `index` starts, counted from the region's base.
    pub fn offset(&self, index: usize) -> (offset: usize)
        requires
            index < self.spec_len(),
        ensures
            offset == self.spec_offset(index as int),
    {
        self.pointers[index].0
    }

    /// Makes a handle to element `index` from the bytes at its offset and
    /// the metadata recorded for it.
    pub fn assemble(&self, index: usize) -> (handle: T)
        requires
            self.wf(),
            index < self.spec_len(),
        ensures
            handle.spec_disassemble() == self@[index as int],
    {
        assert(self.entry_wf(index as int));
        let (offset, meta) = self.pointers[index];
        let size: usize = T::size_of_val(meta);
        let bytes = slice_subrange(self.data.base(), offset, offset + size);
        T::assemble(bytes, meta)
    }

    /// Borrowing iteration: handles to the elements in the order of their
    /// insertion. The container stays as it is.
    pub fn iter(&self) -> (iter: Iter<'_, T>)
        requires
            self.wf(),
        ensures
            iter.wf(),
            iter.spec_source() == self@,
            iter.spec_position() == 0,
            iter.remaining() == self@,
    {
        Iter::new(self)
    }

    /// Consuming iteration: the container becomes a one-shot sequence of
    /// handles, in the order of insertion, and is itself no more.
    pub fn into_iter(self) -> (iter: IntoIter<T>)
        requires
            self.wf(),
        ensures
            iter.wf(),
            iter.spec_source() == self@,
            iter.spec_position() == 0,
            iter.remaining() == self@,
    {
        IntoIter::new(self)
    }

    /// Ends the container: makes a handle to every element once, in the
    /// order of insertion, and gives them up to the caller, with whom they
    /// end.
    pub fn teardown(self) -> (released: Vec<T>)
        requires
            self.wf(),
        ensures
            released@.len() == self@.len(),
            forall|i: int|
                0 <= i < released@.len() ==> (#[trigger] released@[i]).spec_disassemble() == self@[i],
    {
        let iter = self.into_iter();
        proof {
            iter.lemma_remaining_in_order();
        }
        iter.teardown()
    }

    /// Round trip. Where `after` is what a push of `value` made of
    /// `before`, every element of `before` stands in `after` at its index
    /// with the same bytes and metadata, and the last element of `after` has
    /// the bytes and metadata of `value`.
    pub proof fn lemma_push_round_trip(before: &Self, after: &Self, value: T)
        requires
            after@ == before@.push(value.spec_disassemble()),
        ensures
            after@.len() == before@.len() + 1,
            after@[before@.len() as int] == value.spec_disassemble(),
            forall|i: int| 0 <= i < before@.len() ==> after@[i] == before@[i],
    {
    }

    /// The layout invariants of a well-formed container, for any two
    /// elements `i` before `j`: each lies inside the used bytes, which lie
    /// inside the region; each starts at a multiple of its alignment; `i`
    /// ends before `j` starts, so offsets never decrease and grow strictly
    /// behind an element of nonzero size.
    pub proof fn lemma_layout(&self, i: int, j: int)
        requires
            self.wf(),
            0 <= i < j < self.spec_len(),
        ensures
            self.spec_offset(i) % T::spec_align_of_val(self.spec_meta(i)) == 0,
            self.spec_offset(j) % T::spec_align_of_val(self.spec_meta(j)) == 0,
            self.spec_offset(i) + T::spec_size_of_val(self.spec_meta(i)) <= self.spec_offset(j),
            self.spec_offset(j) + T::spec_size_of_val(self.spec_meta(j)) <= self.spec_used_bytes(),
            self.spec_used_bytes() <= self.spec_capacity(),
            T::spec_size_of_val(self.spec_meta(i)) > 0 ==> self.spec_offset(i) < self.spec_offset(j),
    {
        assert(self.entry_wf(i));
        assert(self.entry_wf(j));
    }
}

} // verus!

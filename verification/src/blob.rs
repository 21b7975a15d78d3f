//! Elements whose layout is known only when they are stored: values of any
//! concrete type behind one interface, kept as their bytes.

use crate::traits::Referent;
use vstd::prelude::*;
use vstd::slice::slice_to_vec;

verus! {

/// What is kept beside the bytes of a `Blob`: how many there are, how they
/// want to be aligned, and a tag that tells a user what they are, such as a
/// reference to the operations of the concrete type.
#[derive(Clone, Copy)]
pub struct BlobMeta<M: Copy> {
    pub size: usize,
    pub align: usize,
    pub tag: M,
}

/// The storage of one value with its alignment and its tag.
pub struct Blob<M: Copy> {
    data: Vec<u8>,
    align: usize,
    tag: M,
}

impl<M: Copy> Blob<M> {
    #[verifier::type_invariant]
    spec fn align_is_positive(&self) -> bool {
        self.align > 0
    }

    /// The bytes of the value's storage.
    pub closed spec fn spec_data(&self) -> Seq<u8> {
        self.data@
    }

    /// The alignment the value asks for.
    pub closed spec fn spec_align(&self) -> usize {
        self.align
    }

    /// What the user said the bytes are.
    pub closed spec fn spec_tag(&self) -> M {
        self.tag
    }

    /// A value with the storage `data`, to be placed at a multiple of
    /// `align`.
    pub fn new(data: Vec<u8>, align: usize, tag: M) -> (blob: Blob<M>)
        requires
            align > 0,
        ensures
            blob.spec_data() == data@,
            blob.spec_align() == align,
            blob.spec_tag() == tag,
    {
        Blob { data: data, align: align, tag: tag }
    }

    pub fn data(&self) -> (data: &[u8])
        ensures
            data@ == self.spec_data(),
    {
        self.data.as_slice()
    }

    pub fn align(&self) -> (align: usize)
        ensures
            align == self.spec_align(),
            align > 0,
    {
        proof {
            use_type_invariant(self);
        }
        self.align
    }

    pub fn tag(&self) -> (tag: M)
        ensures
            tag == self.spec_tag(),
    {
        self.tag
    }
}

impl<M: Copy> Referent for Blob<M> {
    type Meta = BlobMeta<M>;

    open spec fn spec_size_of_val(meta: BlobMeta<M>) -> nat {
        meta.size as nat
    }

    open spec fn spec_align_of_val(meta: BlobMeta<M>) -> nat {
        meta.align as nat
    }

    open spec fn spec_disassemble(&self) -> (Seq<u8>, BlobMeta<M>) {
        (
            self.spec_data(),
            BlobMeta {
                size: self.spec_data().len() as usize,
                align: self.spec_align(),
                tag: self.spec_tag(),
            },
        )
    }

    open spec fn spec_valid_parts(data: Seq<u8>, meta: BlobMeta<M>) -> bool {
        data.len() == meta.size && meta.align > 0
    }

    proof fn lemma_valid_parts_layout(data: Seq<u8>, meta: BlobMeta<M>) {
    }

    fn size_of_val(meta: BlobMeta<M>) -> (size: usize) {
        meta.size
    }

    fn align_of_val(meta: BlobMeta<M>) -> (align: usize) {
        meta.align
    }

    fn disassemble(self) -> (parts: (Vec<u8>, BlobMeta<M>)) {
        proof {
            use_type_invariant(&self);
        }
        let meta = BlobMeta { size: self.data.len(), align: self.align, tag: self.tag };
        (self.data, meta)
    }

    fn assemble(data: &[u8], meta: BlobMeta<M>) -> (handle: Blob<M>) {
        Blob { data: slice_to_vec(data), align: meta.align, tag: meta.tag }
    }
}

} // verus!

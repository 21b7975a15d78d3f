//! What a kind of element has to offer so that a container can keep its
//! values as bytes and make handles to them again.

use vstd::prelude::*;

verus! {

/// A kind of element that comes apart into the bytes of its storage and a
/// small piece of metadata, and that the two together bring back.
///
/// The metadata alone tells how many bytes a value takes and how it wants
/// them aligned: an element count for an array, a descriptor of the concrete
/// type behind an interface.
pub trait Referent: Sized {
    /// What has to be kept beside the bytes to make a handle from them.
    type Meta: Copy;

    /// Number of bytes that a value with this metadata occupies.
    spec fn spec_size_of_val(meta: Self::Meta) -> nat;

    /// Alignment that a value with this metadata asks for.
    spec fn spec_align_of_val(meta: Self::Meta) -> nat;

    /// The bytes and the metadata that this value comes apart into.
    spec fn spec_disassemble(&self) -> (Seq<u8>, Self::Meta);

    /// Whether `data` and `meta` are what some value comes apart into.
    /// `assemble` is owed only such pairs.
    spec fn spec_valid_parts(data: Seq<u8>, meta: Self::Meta) -> bool;

    /// The parts of a value have the size that their metadata names, and
    /// the alignment it names is a positive machine integer.
    proof fn lemma_valid_parts_layout(data: Seq<u8>, meta: Self::Meta)
        requires
            Self::spec_valid_parts(data, meta),
        ensures
            data.len() == Self::spec_size_of_val(meta),
            0 < Self::spec_align_of_val(meta) <= usize::MAX,
    ;

    fn size_of_val(meta: Self::Meta) -> (size: usize)
        requires
            Self::spec_size_of_val(meta) <= usize::MAX,
        ensures
            size == Self::spec_size_of_val(meta),
    ;

    fn align_of_val(meta: Self::Meta) -> (align: usize)
        requires
            Self::spec_align_of_val(meta) <= usize::MAX,
        ensures
            align == Self::spec_align_of_val(meta),
    ;

    /// Takes the value apart. The value is used up: what it held lives on in
    /// the bytes.
    fn disassemble(self) -> (parts: (Vec<u8>, Self::Meta))
        ensures
            (parts.0@, parts.1) == self.spec_disassemble(),
            Self::spec_valid_parts(parts.0@, parts.1),
    ;

    /// Makes a handle to the value that `data` and `meta` are the parts of.
    fn assemble(data: &[u8], meta: Self::Meta) -> (handle: Self)
        requires
            Self::spec_valid_parts(data@, meta),
        ensures
            handle.spec_disassemble() == (data@, meta),
    ;
}

} // verus!

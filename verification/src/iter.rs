//! Walking a container: by borrowing it, or by taking it over.

use crate::dstvec::DSTVec;
use crate::traits::Referent;
use vstd::prelude::*;

verus! {

/// A walk over a borrowed container, front to back. Each step makes a handle
/// to the next element; the container is not changed.
pub struct Iter<'a, T: Referent> {
    vec: &'a DSTVec<T>,
    position: usize,
}

impl<'a, T: Referent> Iter<'a, T> {
    /// The elements of the container that is walked.
    pub closed spec fn spec_source(&self) -> Seq<(Seq<u8>, T::Meta)> {
        self.vec@
    }

    /// How many elements have been handed out.
    pub closed spec fn spec_position(&self) -> nat {
        self.position as nat
    }

    /// The elements still to come, the next one first.
    pub open spec fn remaining(&self) -> Seq<(Seq<u8>, T::Meta)> {
        self.spec_source().skip(self.spec_position() as int)
    }

    /// The invariant: the container is well formed and the walk has not
    /// left it.
    pub closed spec fn wf(&self) -> bool {
        &&& self.vec.wf()
        &&& self.position <= self.vec.spec_len()
    }

    pub(crate) fn new(vec: &'a DSTVec<T>) -> (iter: Self)
        requires
            vec.wf(),
        ensures
            iter.wf(),
            iter.spec_source() == vec@,
            iter.spec_position() == 0,
    {
        Iter { vec: vec, position: 0 }
    }

    /// A handle to the next element, or `None` behind the last one.
    pub fn next(&mut self) -> (item: Option<T>)
        requires
            old(self).wf(),
        ensures
            final(self).wf(),
            final(self).spec_source() == old(self).spec_source(),
            match item {
                Some(handle) => {
                    &&& old(self).remaining().len() > 0
                    &&& handle.spec_disassemble() == old(self).remaining()[0]
                    &&& final(self).spec_position() == old(self).spec_position() + 1
                    &&& final(self).remaining() == old(self).remaining().skip(1)
                },
                None => {
                    &&& old(self).remaining().len() == 0
                    &&& final(self).spec_position() == old(self).spec_position()
                },
            },
    {
        if self.position < self.vec.len() {
            let handle = self.vec.assemble(self.position);
            self.position = self.position + 1;
            assert(self.remaining() =~= old(self).remaining().skip(1));
            Some(handle)
        } else {
            None
        }
    }

    /// Order. The walk never leaves the container, and what is still to
    /// come is the container's elements from the walk's position on, in the
    /// order of their insertion.
    pub proof fn lemma_remaining_in_order(&self)
        requires
            self.wf(),
        ensures
            self.spec_position() <= self.spec_source().len(),
            self.remaining().len() == self.spec_source().len() - self.spec_position(),
            forall|k: int|
                0 <= k < self.remaining().len() ==> self.remaining()[k] == self.spec_source()[
                    self.spec_position() + k],
    {
    }
}

/// A container turned into a one-shot walk. Each element is handed out at
/// most once; what has been handed out is the caller's, what has not is
/// still the walk's to end.
pub struct IntoIter<T: Referent> {
    vec: DSTVec<T>,
    position: usize,
}

impl<T: Referent> IntoIter<T> {
    /// The elements of the container that was taken over.
    pub closed spec fn spec_source(&self) -> Seq<(Seq<u8>, T::Meta)> {
        self.vec@
    }

    /// How many elements have been handed out.
    pub closed spec fn spec_position(&self) -> nat {
        self.position as nat
    }

    /// The elements that have been handed out, in the order in which they
    /// were.
    pub open spec fn yielded(&self) -> Seq<(Seq<u8>, T::Meta)> {
        self.spec_source().take(self.spec_position() as int)
    }

    /// The elements still to come, the next one first.
    pub open spec fn remaining(&self) -> Seq<(Seq<u8>, T::Meta)> {
        self.spec_source().skip(self.spec_position() as int)
    }

    /// The invariant: the container is well formed and the walk has not
    /// left it.
    pub closed spec fn wf(&self) -> bool {
        &&& self.vec.wf()
        &&& self.position <= self.vec.spec_len()
    }

    pub(crate) fn new(vec: DSTVec<T>) -> (iter: Self)
        requires
            vec.wf(),
        ensures
            iter.wf(),
            iter.spec_source() == vec@,
            iter.spec_position() == 0,
    {
        IntoIter { vec: vec, position: 0 }
    }

    /// A handle to the next element, which from now on is the caller's to
    /// end, or `None` behind the last one.
    pub fn next(&mut self) -> (item: Option<T>)
        requires
            old(self).wf(),
        ensures
            final(self).wf(),
            final(self).spec_source() == old(self).spec_source(),
            match item {
                Some(handle) => {
                    &&& old(self).remaining().len() > 0
                    &&& handle.spec_disassemble() == old(self).remaining()[0]
                    &&& final(self).spec_position() == old(self).spec_position() + 1
                    &&& final(self).remaining() == old(self).remaining().skip(1)
                },
                None => {
                    &&& old(self).remaining().len() == 0
                    &&& final(self).spec_position() == old(self).spec_position()
                },
            },
    {
        if self.position < self.vec.len() {
            let handle = self.vec.assemble(self.position);
            self.position = self.position + 1;
            assert(self.remaining() =~= old(self).remaining().skip(1));
            Some(handle)
        } else {
            None
        }
    }

    /// The number of elements still to come, as its own lower and upper
    /// bound.
    pub fn size_hint(&self) -> (hint: (usize, Option<usize>))
        requires
            self.wf(),
        ensures
            hint.0 == self.remaining().len(),
            hint.1 == Some(hint.0),
    {
        let left: usize = self.vec.len() - self.position;
        (left, Some(left))
    }

    /// Ends the walk: makes a handle to every element that has not been
    /// handed out, once, in order, and gives them up to the caller, with
    /// whom they end. What `next` handed out before is not touched again.
    pub fn teardown(self) -> (released: Vec<T>)
        requires
            self.wf(),
        ensures
            released@.len() == self.remaining().len(),
            forall|i: int|
                0 <= i < released@.len() ==> (#[trigger] released@[i]).spec_disassemble()
                    == self.remaining()[i],
    {
        let mut released: Vec<T> = Vec::new();
        let mut index: usize = self.position;
        let len: usize = self.vec.len();
        while index < len
            invariant
                self.wf(),
                len == self.vec.spec_len(),
                self.position <= index <= len,
                released@.len() == index - self.position,
                forall|i: int|
                    0 <= i < released@.len() ==> (#[trigger] released@[i]).spec_disassemble()
                        == self.vec@[self.position + i],
            decreases len - index,
        {
            let handle = self.vec.assemble(index);
            released.push(handle);
            index = index + 1;
        }
        released
    }

    /// Order. The walk never leaves the container, and what is still to
    /// come is the container's elements from the walk's position on, in the
    /// order of their insertion.
    pub proof fn lemma_remaining_in_order(&self)
        requires
            self.wf(),
        ensures
            self.spec_position() <= self.spec_source().len(),
            self.remaining().len() == self.spec_source().len() - self.spec_position(),
            forall|k: int|
                0 <= k < self.remaining().len() ==> self.remaining()[k] == self.spec_source()[
                    self.spec_position() + k],
    {
    }

    /// Exactly once. Every element of the container is either among those
    /// handed out or among those still to come, never in both, and the two
    /// together are the container in its order: what `next` gave away and
    /// what `teardown` ends make up the whole, with nothing twice.
    pub proof fn lemma_yielded_then_remaining(&self)
        requires
            self.wf(),
        ensures
            self.yielded() + self.remaining() == self.spec_source(),
            self.yielded().len() == self.spec_position(),
            self.yielded().len() + self.remaining().len() == self.spec_source().len(),
    {
        assert(self.yielded() + self.remaining() =~= self.spec_source());
    }
}

} // verus!

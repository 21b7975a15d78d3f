//! The byte region that backs a container: one contiguous, growable buffer
//! that knows nothing of the values laid out in it.

use vstd::prelude::*;

verus! {

/// Capacity of a region of `capacity` bytes after a request that `required`
/// bytes fit: unchanged where they fit already; else twice the old capacity,
/// or `required` itself where the double falls short of it or leaves `usize`.
pub open spec fn grown_capacity(capacity: nat, required: nat) -> nat {
    if required <= capacity {
        capacity
    } else if required <= 2 * capacity <= usize::MAX {
        2 * capacity
    } else {
        required
    }
}

/// An owned region of bytes. Its view is the whole region, so the length of
/// the view is the capacity.
pub struct Arena {
    bytes: Vec<u8>,
}

impl View for Arena {
    type V = Seq<u8>;

    closed spec fn view(&self) -> Seq<u8> {
        self.bytes@
    }
}

impl Arena {
    /// Number of bytes the region holds.
    pub open spec fn spec_capacity(&self) -> nat {
        self@.len()
    }

    /// An empty region: nothing is allocated.
    pub fn new() -> (arena: Arena)
        ensures
            arena.spec_capacity() == 0,
    {
        Arena { bytes: Vec::new() }
    }

    /// Number of bytes the region holds.
    pub fn capacity(&self) -> (capacity: usize)
        ensures
            capacity == self.spec_capacity(),
    {
        self.bytes.len()
    }

    /// Makes room for `additional` bytes behind the first `used_bytes`.
    /// The region grows by `grown_capacity`, and the bytes in front of
    /// `used_bytes` stay where they are, counted from the base.
    pub fn reserve(&mut self, used_bytes: usize, additional: usize)
        requires
            used_bytes + additional <= usize::MAX,
        ensures
            final(self).spec_capacity() == grown_capacity(
                old(self).spec_capacity(),
                (used_bytes + additional) as nat,
            ),
            final(self).spec_capacity() >= used_bytes + additional,
            final(self).spec_capacity() >= old(self).spec_capacity(),
            forall|i: int|
                0 <= i < used_bytes && i < old(self).spec_capacity() ==> final(self)@[i] == old(
                    self,
                )@[i],
    {
        let capacity: usize = self.bytes.len();
        let required: usize = used_bytes + additional;
        if required <= capacity {
            return ;
        }
        let grown: usize = if capacity <= usize::MAX / 2 && required <= 2 * capacity {
            2 * capacity
        } else {
            required
        };
        self.bytes.resize(grown, 0u8);
        assert forall|i: int| 0 <= i < used_bytes && i < capacity implies self.bytes@[i] == old(
            self,
        ).bytes@[i] by {
            assert(self.bytes@.subrange(0, capacity as int)[i] == self.bytes@[i]);
        }
    }

    /// Copies `data` into the region, starting at `offset`. No other byte
    /// changes.
    pub fn write(&mut self, offset: usize, data: &[u8])
        requires
            offset + data@.len() <= old(self).spec_capacity(),
        ensures
            final(self).spec_capacity() == old(self).spec_capacity(),
            final(self)@.subrange(offset as int, offset + data@.len()) == data@,
            forall|i: int|
                0 <= i < offset || offset + data@.len() <= i < old(self).spec_capacity()
                    ==> final(self)@[i] == old(self)@[i],
    {
        let n: usize = data.len();
        let mut k: usize = 0;
        while k < n
            invariant
                n == data@.len(),
                k <= n,
                offset + n <= self.bytes.len(),
                self.bytes@.len() == old(self).bytes@.len(),
                forall|i: int| 0 <= i < k ==> self.bytes@[offset + i] == data@[i],
                forall|i: int|
                    0 <= i < offset || offset + k <= i < self.bytes@.len() ==> self.bytes@[i]
                        == old(self).bytes@[i],
            decreases n - k,
        {
            self.bytes[offset + k] = data[k];
            k = k + 1;
        }
        assert(self.bytes@.subrange(offset as int, offset + data@.len()) =~= data@);
    }

    /// The region from its first byte. The borrow ends before the region can
    /// grow, so no stale base outlives a `reserve`.
    pub fn base(&self) -> (bytes: &[u8])
        ensures
            bytes@ == self@,
    {
        self.bytes.as_slice()
    }
}

} // verus!

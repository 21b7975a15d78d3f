//! Alignment arithmetic for placing a value behind a used-bytes mark.

use vstd::prelude::*;

verus! {

/// Bytes of padding between the mark `used` and the next multiple of `align`.
pub open spec fn padding_gap(used: nat, align: nat) -> nat
    recommends
        align > 0,
{
    ((align - used % align) % (align as int)) as nat
}

/// First offset at or behind the mark `used` that is a multiple of `align`.
pub open spec fn aligned_offset(used: nat, align: nat) -> nat
    recommends
        align > 0,
{
    used + padding_gap(used, align)
}

/// The alignment law: `aligned_offset(used, align)` is a multiple of `align`,
/// it is not below `used`, it is `used` itself where `used` is already a
/// multiple, and no multiple of `align` lies between `used` and it.
pub proof fn lemma_aligned_offset_is_least_multiple(used: nat, align: nat)
    requires
        align > 0,
    ensures
        aligned_offset(used, align) % align == 0,
        used <= aligned_offset(used, align) < used + align,
        used % align == 0 ==> aligned_offset(used, align) == used,
        forall|m: nat| used <= m && #[trigger] (m % align) == 0 ==> aligned_offset(used, align) <= m,
{
    let a = align as int;
    let u = used as int;
    let r = u % a;
    let q = u / a;
    assert(u == a * q + r && 0 <= r < a) by {
        vstd::arithmetic::div_mod::lemma_fundamental_div_mod(u, a);
        vstd::arithmetic::div_mod::lemma_mod_bound(u, a);
    }
    let off = aligned_offset(used, align) as int;
    if r == 0 {
        assert((a - r) % a == 0) by {
            vstd::arithmetic::div_mod::lemma_mod_self_0(a);
        }
        assert(off == u);
    } else {
        assert((a - r) % a == a - r) by {
            vstd::arithmetic::div_mod::lemma_small_mod((a - r) as nat, a as nat);
        }
        assert(off == a * (q + 1)) by {
            vstd::arithmetic::mul::lemma_mul_is_distributive_add(a, q, 1);
        }
        assert(off % a == 0) by {
            vstd::arithmetic::div_mod::lemma_mod_multiples_basic(q + 1, a);
            vstd::arithmetic::mul::lemma_mul_is_commutative(a, q + 1);
        }
    }
    assert forall|m: nat| used <= m && #[trigger] (m % align) == 0 implies off <= m by {
        if r != 0 {
            let mi = m as int;
            let k = mi / a;
            assert(mi == a * k) by {
                vstd::arithmetic::div_mod::lemma_fundamental_div_mod(mi, a);
            }
            if k <= q {
                assert(a * k <= a * q) by {
                    vstd::arithmetic::mul::lemma_mul_inequality(k, q, a);
                    vstd::arithmetic::mul::lemma_mul_is_commutative(a, k);
                    vstd::arithmetic::mul::lemma_mul_is_commutative(a, q);
                }
                assert(false);
            }
            assert(a * (q + 1) <= a * k) by {
                vstd::arithmetic::mul::lemma_mul_inequality(q + 1, k, a);
                vstd::arithmetic::mul::lemma_mul_is_commutative(a, k);
                vstd::arithmetic::mul::lemma_mul_is_commutative(a, q + 1);
            }
        }
    }
}

/// Computes the padding that `aligned_offset` adds to `used`.
pub fn padding_for(used: usize, align: usize) -> (gap: usize)
    requires
        align > 0,
    ensures
        gap == padding_gap(used as nat, align as nat),
        gap < align,
{
    (align - used % align) % align
}

} // verus!

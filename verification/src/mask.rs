//! Capability sets as 64-bit masks: bit `i` stands for the capability
//! with kernel-defined value `i`.

use vstd::prelude::*;
use crate::caps::Capability;
use crate::nr;

verus! {

/// The bits of all the capabilities this library knows.
pub const KNOWN_BITS: u64 = 0x1ff_ffff_ffff;

/// Whether bit `index` of `mask` is set.
pub open spec fn has_bit(mask: u64, index: u8) -> bool {
    mask & (1u64 << (index as u64)) != 0
}

/// The bits of `mask` below bit `n`.
pub open spec fn low_bits(mask: u64, n: u8) -> u64 {
    mask & !(u64::MAX << (n as u64))
}

/// The capabilities whose bit is set in `mask`. A bit that stands for no
/// known capability adds nothing.
pub open spec fn caps_of_mask(mask: u64) -> Set<Capability> {
    Set::new(|cap: Capability| has_bit(mask, cap.spec_index()))
}

/// The bits of the members of `caps` whose index is below `n`.
pub open spec fn mask_below(caps: Set<Capability>, n: u8) -> u64
    decreases n,
{
    if n == 0 {
        0
    } else {
        let rest = mask_below(caps, (n - 1) as u8);
        match Capability::spec_from_index((n - 1) as u8) {
            Some(cap) => if caps.contains(cap) {
                rest | (1u64 << ((n - 1) as u64))
            } else {
                rest
            },
            None => rest,
        }
    }
}

/// The mask with exactly the bits of the members of `caps`.
pub open spec fn mask_of_caps(caps: Set<Capability>) -> u64 {
    mask_below(caps, nr::CAP_COUNT)
}

/// Setting bit `j` sets that bit and leaves the others.
pub proof fn lemma_set_bit(mask: u64, j: u8, i: u8)
    requires
        i < 64,
        j < 64,
    ensures
        has_bit(mask | (1u64 << (j as u64)), i) == (has_bit(mask, i) || i == j),
{
    assert(((mask | (1u64 << (j as u64))) & (1u64 << (i as u64)) != 0) == ((mask & (1u64 << (
    i as u64)) != 0) || i == j)) by (bit_vector)
        requires
            i < 64,
            j < 64,
    ;
}

/// Clearing bit `j` clears that bit and leaves the others.
pub proof fn lemma_clear_bit(mask: u64, j: u8, i: u8)
    requires
        i < 64,
        j < 64,
    ensures
        has_bit(mask & !(1u64 << (j as u64)), i) == (has_bit(mask, i) && i != j),
{
    assert(((mask & !(1u64 << (j as u64))) & (1u64 << (i as u64)) != 0) == ((mask & (1u64 << (
    i as u64)) != 0) && i != j)) by (bit_vector)
        requires
            i < 64,
            j < 64,
    ;
}

/// The bits below `n + 1` are the bits below `n` and bit `n`.
pub proof fn lemma_low_bits_step(mask: u64, n: u8)
    requires
        n < 63,
    ensures
        low_bits(mask, 0) == 0,
        has_bit(mask, n) ==> low_bits(mask, (n + 1) as u8) == low_bits(mask, n) | (1u64 << (
        n as u64)),
        !has_bit(mask, n) ==> low_bits(mask, (n + 1) as u8) == low_bits(mask, n),
{
    let m = (n + 1) as u8;
    assert(mask & !(u64::MAX << 0u64) == 0) by (bit_vector);
    assert(mask & (1u64 << (n as u64)) != 0 ==> mask & !(u64::MAX << (m as u64)) == (mask & !(
    u64::MAX << (n as u64))) | (1u64 << (n as u64))) by (bit_vector)
        requires
            n < 63,
            m == n + 1,
    ;
    assert(mask & (1u64 << (n as u64)) == 0 ==> mask & !(u64::MAX << (m as u64)) == mask & !(
    u64::MAX << (n as u64))) by (bit_vector)
        requires
            n < 63,
            m == n + 1,
    ;
}

/// Bit `i` of `mask_below(caps, n)` is set exactly when `i` is below `n`
/// and stands for a member of `caps`.
pub proof fn lemma_mask_below_bit(caps: Set<Capability>, n: u8, i: u8)
    requires
        n <= nr::CAP_COUNT,
        i < 64,
    ensures
        has_bit(mask_below(caps, n), i) <==> i < n && caps.contains(
            Capability::spec_from_index(i).unwrap(),
        ),
    decreases n,
{
    if n == 0 {
        assert(0u64 & (1u64 << (i as u64)) == 0) by (bit_vector);
    } else {
        let k = (n - 1) as u8;
        lemma_mask_below_bit(caps, k, i);
        lemma_set_bit(mask_below(caps, k), k, i);
    }
}

/// No capability is read from a mask without bits.
pub proof fn lemma_caps_of_zero()
    ensures
        caps_of_mask(0) == Set::<Capability>::empty(),
{
    assert forall|cap: Capability| !has_bit(0, cap.spec_index()) by {
        let i = cap.spec_index();
        assert(0u64 & (1u64 << (i as u64)) == 0) by (bit_vector);
    }
    assert(caps_of_mask(0) =~= Set::<Capability>::empty());
}

/// The empty set has no bit.
pub proof fn lemma_mask_of_empty(n: u8)
    requires
        n <= nr::CAP_COUNT,
    ensures
        mask_below(Set::<Capability>::empty(), n) == 0,
    decreases n,
{
    if n > 0 {
        lemma_mask_of_empty((n - 1) as u8);
    }
}

/// Reading back the mask of a set gives the set.
pub proof fn lemma_caps_of_mask_of_caps(caps: Set<Capability>)
    ensures
        caps_of_mask(mask_of_caps(caps)) == caps,
        mask_of_caps(caps) & !KNOWN_BITS == 0,
{
    assert forall|cap: Capability|
        has_bit(mask_of_caps(caps), cap.spec_index()) == caps.contains(cap) by {
        lemma_mask_below_bit(caps, nr::CAP_COUNT, cap.spec_index());
    }
    assert(caps_of_mask(mask_of_caps(caps)) =~= caps);
    lemma_mask_below_known(caps, nr::CAP_COUNT);
    let m = mask_of_caps(caps);
    assert(m & !(u64::MAX << 41u64) == m ==> m & !0x1ff_ffff_ffffu64 == 0) by (bit_vector);
}

/// `mask_below(caps, n)` has no bit at `n` or above.
pub proof fn lemma_mask_below_known(caps: Set<Capability>, n: u8)
    requires
        n <= nr::CAP_COUNT,
    ensures
        low_bits(mask_below(caps, n), n) == mask_below(caps, n),
    decreases n,
{
    if n == 0 {
        assert(0u64 & !(u64::MAX << 0u64) == 0) by (bit_vector);
    } else {
        let k = (n - 1) as u8;
        let rest = mask_below(caps, k);
        lemma_mask_below_known(caps, k);
        assert(rest & !(u64::MAX << (k as u64)) == rest ==> {
            &&& rest & !(u64::MAX << (n as u64)) == rest
            &&& (rest | (1u64 << (k as u64))) & !(u64::MAX << (n as u64)) == rest | (1u64 << (
            k as u64))
        }) by (bit_vector)
            requires
                n <= 41,
                k == n - 1,
        ;
    }
}

/// The mask of the set read from `mask` is `mask` without the bits that
/// stand for no known capability.
pub proof fn lemma_mask_of_caps_of_mask(mask: u64)
    ensures
        mask_of_caps(caps_of_mask(mask)) == mask & KNOWN_BITS,
{
    lemma_mask_below_of_mask(mask, nr::CAP_COUNT);
    assert(mask & !(u64::MAX << 41u64) == mask & 0x1ff_ffff_ffffu64) by (bit_vector);
}

/// `mask_below` of the set read from `mask` is `mask` below bit `n`.
pub proof fn lemma_mask_below_of_mask(mask: u64, n: u8)
    requires
        n <= nr::CAP_COUNT,
    ensures
        mask_below(caps_of_mask(mask), n) == low_bits(mask, n),
    decreases n,
{
    if n == 0 {
        lemma_low_bits_step(mask, 0);
    } else {
        let k = (n - 1) as u8;
        lemma_mask_below_of_mask(mask, k);
        lemma_low_bits_step(mask, k);
        let cap = Capability::spec_from_index(k).unwrap();
        assert(cap.spec_index() == k);
        assert(caps_of_mask(mask).contains(cap) == has_bit(mask, k));
    }
}

/// The bit of a capability is one of the known bits.
pub proof fn lemma_bitmask_known(cap: Capability)
    ensures
        cap.spec_bitmask() & !KNOWN_BITS == 0,
        has_bit(KNOWN_BITS, cap.spec_index()),
{
    let i = cap.spec_index();
    assert((1u64 << (i as u64)) & !0x1ff_ffff_ffffu64 == 0 && 0x1ff_ffff_ffffu64 & (1u64 << (
    i as u64)) != 0) by (bit_vector)
        requires
            i < 41,
    ;
}

/// The mask of a set with one capability more is the mask of the set
/// with the bit of that capability set.
pub proof fn lemma_mask_of_insert(caps: Set<Capability>, cap: Capability)
    ensures
        mask_of_caps(caps.insert(cap)) == mask_of_caps(caps) | cap.spec_bitmask(),
{
    let before = mask_of_caps(caps);
    let bit = cap.spec_bitmask();
    let after = before | bit;
    lemma_caps_of_mask_of_caps(caps);
    lemma_bitmask_known(cap);
    assert forall|c: Capability|
        caps_of_mask(after).contains(c) == caps.insert(cap).contains(c) by {
        lemma_set_bit(before, cap.spec_index(), c.spec_index());
        assert(caps_of_mask(before).contains(c) == has_bit(before, c.spec_index()));
        cap.lemma_index_injective(c);
    }
    assert(caps_of_mask(after) =~= caps.insert(cap));
    lemma_mask_of_caps_of_mask(after);
    assert(before & !0x1ff_ffff_ffffu64 == 0 && bit & !0x1ff_ffff_ffffu64 == 0 ==> (before | bit)
        & 0x1ff_ffff_ffffu64 == before | bit) by (bit_vector);
}

/// The mask of a set with one capability less is the mask of the set
/// with the bit of that capability cleared.
pub proof fn lemma_mask_of_remove(caps: Set<Capability>, cap: Capability)
    ensures
        mask_of_caps(caps.remove(cap)) == mask_of_caps(caps) & !cap.spec_bitmask(),
{
    let before = mask_of_caps(caps);
    let bit = cap.spec_bitmask();
    let after = before & !bit;
    lemma_caps_of_mask_of_caps(caps);
    assert forall|c: Capability|
        caps_of_mask(after).contains(c) == caps.remove(cap).contains(c) by {
        lemma_clear_bit(before, cap.spec_index(), c.spec_index());
        assert(caps_of_mask(before).contains(c) == has_bit(before, c.spec_index()));
        cap.lemma_index_injective(c);
    }
    assert(caps_of_mask(after) =~= caps.remove(cap));
    lemma_mask_of_caps_of_mask(after);
    assert(before & !0x1ff_ffff_ffffu64 == 0 ==> (before & !bit) & 0x1ff_ffff_ffffu64 == before
        & !bit) by (bit_vector);
}

/// The mask of all the capabilities is the known bits.
pub proof fn lemma_mask_of_full()
    ensures
        mask_of_caps(Set::<Capability>::full()) == KNOWN_BITS,
        caps_of_mask(KNOWN_BITS) == Set::<Capability>::full(),
{
    assert forall|c: Capability| has_bit(KNOWN_BITS, c.spec_index()) by {
        lemma_bitmask_known(c);
    }
    assert(caps_of_mask(KNOWN_BITS) =~= Set::<Capability>::full());
    lemma_mask_of_caps_of_mask(KNOWN_BITS);
    assert(0x1ff_ffff_ffffu64 & 0x1ff_ffff_ffffu64 == 0x1ff_ffff_ffffu64) by (bit_vector);
}

} // verus!

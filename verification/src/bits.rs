//! Trusted boundary around `fixedbitset::FixedBitSet`, the packed bit array
//! that stores one bit per cell.
//!
//! The bit set is opaque to the verifier; `bit_seq` names its contents as a
//! sequence of booleans, and each wrapper states, over that name, what the
//! called `fixedbitset` function does according to its source.

use fixedbitset::FixedBitSet;
use vstd::prelude::*;

verus! {

#[verifier::external_type_specification]
#[verifier::external_body]
pub struct ExFixedBitSet(FixedBitSet);

/// The contents of a bit set: one boolean per bit of its fixed capacity,
/// in bit order.
pub uninterp spec fn bit_seq(s: FixedBitSet) -> Seq<bool>;

/// Relies on `FixedBitSet::with_capacity`: a set of exactly `bits` bits,
/// all initially clear.
#[verifier::external_body]
pub(crate) fn fbs_with_capacity(bits: usize) -> (r: FixedBitSet)
    ensures
        bit_seq(r) == Seq::new(bits as nat, |i: int| false),
{
    FixedBitSet::with_capacity(bits)
}

/// Relies on `FixedBitSet::contains`: reads one bit; bits within the
/// capacity are returned as stored.
#[verifier::external_body]
pub(crate) fn fbs_contains(s: &FixedBitSet, bit: usize) -> (r: bool)
    requires
        bit < bit_seq(*s).len(),
    ensures
        r == bit_seq(*s)[bit as int],
{
    s.contains(bit)
}

/// Relies on `FixedBitSet::set`: writes one in-range bit and leaves every
/// other bit and the capacity unchanged. Out-of-range bits are excluded
/// because the call would panic on them.
#[verifier::external_body]
pub(crate) fn fbs_set(s: &mut FixedBitSet, bit: usize, enabled: bool)
    requires
        bit < bit_seq(*old(s)).len(),
    ensures
        bit_seq(*final(s)) == bit_seq(*old(s)).update(bit as int, enabled),
{
    s.set(bit, enabled)
}

/// Relies on `FixedBitSet::clear`: disables every bit and keeps the
/// capacity.
#[verifier::external_body]
pub(crate) fn fbs_clear(s: &mut FixedBitSet)
    ensures
        bit_seq(*final(s)) == Seq::new(bit_seq(*old(s)).len(), |i: int| false),
{
    s.clear()
}

/// Relies on `FixedBitSet`'s `Clone` impl: an exact copy of the blocks and
/// the capacity.
#[verifier::external_body]
pub(crate) fn fbs_clone(s: &FixedBitSet) -> (r: FixedBitSet)
    ensures
        bit_seq(r) == bit_seq(*s),
{
    s.clone()
}

/// Relies on `FixedBitSet::as_slice`: the backing `u32` blocks, one block
/// per 32 bits of capacity, bit `i` of the set stored in block `i / 32` at
/// bit position `i % 32`, and padding bits beyond the capacity kept zero.
#[verifier::external_body]
pub(crate) fn fbs_as_slice(s: &FixedBitSet) -> (r: &[u32])
    ensures
        r@.len() == (bit_seq(*s).len() + 31) / 32,
        forall|i: int|
            0 <= i < bit_seq(*s).len() ==> #[trigger] bit_seq(*s)[i] == (((r@[i / 32] >> ((i % 32)
                as u32)) & 1) == 1),
{
    s.as_slice()
}

} // verus!

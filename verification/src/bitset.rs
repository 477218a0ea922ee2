//! What this library assumes of `fixedbitset::FixedBitSet`.
//!
//! Nothing in this file is proved. Each item states, over the sequence of bits
//! that a set holds, what the crate's source shows of one of its functions.

use fixedbitset::FixedBitSet;
use vstd::prelude::*;

verus! {

/// `fixedbitset::FixedBitSet`, declared so that it can stand in fields and
/// signatures. Nothing inside a value of it is visible to the proofs: they
/// speak of it through `bits_of` alone.
#[verifier::external_type_specification]
#[verifier::external_body]
pub struct ExFixedBitSet(FixedBitSet);

/// The bits that a set holds, in index order: one entry for each position
/// below the set's length, `true` where the bit is enabled.
pub uninterp spec fn bits_of(set: FixedBitSet) -> Seq<bool>;

/// `FixedBitSet::with_capacity`: a set of the given number of bits, all of
/// them disabled.
pub assume_specification[ FixedBitSet::with_capacity ](bits: usize) -> (set: FixedBitSet)
    ensures
        bits_of(set) == Seq::new(bits as nat, |i: int| false),
;

/// `FixedBitSet::len`: the number of bits, enabled or not.
pub assume_specification[ FixedBitSet::len ](set: &FixedBitSet) -> (len: usize)
    ensures
        len == bits_of(*set).len(),
;

/// `FixedBitSet::contains`: whether the bit is enabled. A position at or past
/// the length is reported as disabled.
pub assume_specification[ FixedBitSet::contains ](set: &FixedBitSet, bit: usize) -> (enabled: bool)
    ensures
        enabled == (bit < bits_of(*set).len() && bits_of(*set)[bit as int]),
;

/// `FixedBitSet::set`: gives one bit the value handed in and leaves the
/// others alone. It panics on a position at or past the length, which the
/// precondition leaves out.
pub assume_specification[ FixedBitSet::set ](set: &mut FixedBitSet, bit: usize, enabled: bool)
    requires
        bit < bits_of(*old(set)).len(),
    ensures
        bits_of(*final(set)) == bits_of(*old(set)).update(bit as int, enabled),
;

/// Whether bit `i` is enabled in a list of 32-bit blocks: block `i / 32`, bit
/// `i % 32` counted from the least significant.
pub open spec fn block_bit(blocks: Seq<u32>, i: int) -> bool {
    blocks[i / 32] & (1u32 << ((i % 32) as u32)) != 0
}

/// `FixedBitSet::as_slice`: the blocks that store the bits, 32 bits to a
/// block, as many blocks as the length needs.
pub assume_specification[ FixedBitSet::as_slice ](set: &FixedBitSet) -> (blocks: &[u32])
    ensures
        blocks@.len() == (bits_of(*set).len() + 31) / 32,
        forall|i: int|
            0 <= i < bits_of(*set).len() ==> #[trigger] bits_of(*set)[i] == block_bit(blocks@, i),
;

/// `FixedBitSet::set_range` over the full range `..` with `false`: disables
/// every bit and keeps the length.
#[verifier::external_body]
pub(crate) fn clear_all(set: &mut FixedBitSet)
    ensures
        bits_of(*final(set)) == Seq::new(bits_of(*old(set)).len(), |i: int| false),
{
    set.set_range(.., false);
}

/// `Clone::clone_from` on `FixedBitSet`: the target takes the length and the
/// bits of the source.
#[verifier::external_body]
pub(crate) fn copy_from(target: &mut FixedBitSet, source: &FixedBitSet)
    ensures
        bits_of(*final(target)) == bits_of(*source),
{
    target.clone_from(source);
}

} // verus!

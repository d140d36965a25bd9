//! The occupancy bit-vector, kept in a `bitvec::vec::BitVec<u32>`.

use vstd::prelude::*;
use bitvec::vec::BitVec;

verus! {

/// A bit-vector of occupancy bits; its contents are `bits_of(self)`.
#[verifier::external_body]
pub struct Bits {
    inner: BitVec<u32>,
}

/// The bits that a bit-vector holds, in index order.
pub uninterp spec fn bits_of(v: Bits) -> Seq<bool>;

/// Relies on `BitVec::repeat`: a vector of `len` copies of `bit`. It panics
/// on a length above `BitSlice::MAX_BITS`, which is `usize::MAX >> 3`.
#[verifier::external_body]
pub(crate) fn bits_repeat(bit: bool, len: usize) -> (r: Bits)
    requires
        len <= usize::MAX / 8,
    ensures
        bits_of(r) == Seq::new(len as nat, |_i: int| bit),
{
    Bits { inner: BitVec::<u32>::repeat(bit, len) }
}

/// Relies on indexing a `BitSlice` (reached through `Deref`): the bit at `i`.
#[verifier::external_body]
pub(crate) fn bits_get(v: &Bits, i: usize) -> (r: bool)
    requires
        i < bits_of(*v).len(),
    ensures
        r == bits_of(*v)[i as int],
{
    v.inner[i]
}

/// Relies on `BitSlice::set`: writes the bit at `i` and no other.
#[verifier::external_body]
pub(crate) fn bits_set(v: &mut Bits, i: usize, bit: bool)
    requires
        i < bits_of(*old(v)).len(),
    ensures
        bits_of(*final(v)) == bits_of(*old(v)).update(i as int, bit),
{
    v.inner.set(i, bit);
}

} // verus!

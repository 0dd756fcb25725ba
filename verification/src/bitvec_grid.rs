//! The store that packs one cell per bit in a `bitvec::vec::BitVec`, in words of `usize` filled
//! from the least significant bit.
//!
//! Verus does not see inside the vector. What is said of it here is believed, not proved: it
//! is stated over the bits that the vector holds, and each statement stands above the function
//! that makes the call.

use vstd::prelude::*;
use crate::board::{Board, Pair};
use crate::grid::{GameGrid, Grid};
use crate::iter::{BitSource, GridIter};

verus! {

/// A `bitvec::vec::BitVec` of `usize` words. Verus cannot be told of that type by name, since
/// its parameters are bound by traits of its crate, so the vector is held in a struct that
/// Verus takes as opaque.
#[verifier::external_body]
pub struct PackedBits {
    bits: bitvec::vec::BitVec,
}

/// The iterator of `bitvec` over the bits of a [`PackedBits`], held as the vector is.
#[verifier::external_body]
pub struct PackedBitsIter<'a> {
    bits: bitvec::slice::Iter<'a, usize, bitvec::order::Lsb0>,
}

/// The bits that the vector holds, from index 0 up.
pub uninterp spec fn packed_bits(bits: PackedBits) -> Seq<bool>;

/// The bits that the iterator has yet to yield, the next one first.
pub uninterp spec fn packed_pending(iter: PackedBitsIter<'_>) -> Seq<bool>;

/// `bitvec::vec::BitVec::repeat`: a vector of `len` bits, each of them `bit`. It panics for a
/// length above the most that a bit slice can span, an eighth of the range of `usize`, which
/// `requires` leaves out.
#[verifier::external_body]
fn repeat(bit: bool, len: usize) -> (bits: PackedBits)
    requires
        len <= usize::MAX / 8,
    ensures
        packed_bits(bits) == Seq::new(len as nat, |i: int| bit),
{
    PackedBits { bits: bitvec::vec::BitVec::repeat(bit, len) }
}

/// Indexing a `bitvec::vec::BitVec`: the bit at index `i`. It panics for an index that is not
/// below the length, which `requires` leaves out.
#[verifier::external_body]
fn bit_at(bits: &PackedBits, i: usize) -> (bit: bool)
    requires
        i < packed_bits(*bits).len(),
    ensures
        bit == packed_bits(*bits)[i as int],
{
    bits.bits[i]
}

/// `bitvec::slice::BitSlice::set`: the bit at index `i` becomes `value` and no other bit
/// changes. It panics for an index that is not below the length, which `requires` leaves out.
#[verifier::external_body]
fn set_bit(bits: &mut PackedBits, i: usize, value: bool)
    requires
        i < packed_bits(*old(bits)).len(),
    ensures
        packed_bits(*final(bits)) == packed_bits(*old(bits)).update(i as int, value),
{
    bits.bits.set(i, value)
}

/// `bitvec::slice::BitSlice::iter`: an iterator that has every bit of the vector yet to yield,
/// in order.
#[verifier::external_body]
fn iter_bits<'a>(bits: &'a PackedBits) -> (iter: PackedBitsIter<'a>)
    ensures
        packed_pending(iter) == packed_bits(*bits),
{
    PackedBitsIter { bits: bits.bits.iter() }
}

/// `next` of `bitvec::slice::Iter`: the first of the bits yet to come, which then is no longer
/// to come; nothing, and no change, once none is left.
#[verifier::external_body]
fn next_of(iter: &mut PackedBitsIter<'_>) -> (bit: Option<bool>)
    ensures
        packed_pending(*old(iter)).len() > 0 ==> bit == Some(packed_pending(*old(iter))[0])
            && packed_pending(*final(iter)) == packed_pending(*old(iter)).skip(1),
        packed_pending(*old(iter)).len() == 0 ==> bit.is_none() && packed_pending(*final(iter))
            == packed_pending(*old(iter)),
{
    iter.bits.next().as_deref().copied()
}

impl<'a> BitSource for PackedBitsIter<'a> {
    open spec fn pending(&self) -> Seq<bool> {
        packed_pending(*self)
    }

    #[inline]
    fn next_bit(&mut self) -> (bit: Option<bool>) {
        next_of(self)
    }
}

impl GameGrid for Grid<PackedBits> {
    type Iter<'a> = GridIter<PackedBitsIter<'a>>;

    open spec fn board(&self) -> Board {
        Board { dims: self.1, cells: packed_bits(self.0) }
    }

    /// A bit slice of `bitvec` spans no more than an eighth of the range of `usize`.
    open spec fn max_cells() -> nat {
        (usize::MAX / 8) as nat
    }

    fn new(dimensions: Pair) -> (grid: Self) {
        (repeat(false, dimensions.0 * dimensions.1), dimensions)
    }

    #[inline]
    fn dimensions(&self) -> (dimensions: Pair) {
        self.1
    }

    #[inline]
    fn get(&self, cell: Pair) -> (alive: Option<bool>) {
        let index = self.index(cell)?;
        Some(bit_at(&self.0, index))
    }

    #[inline]
    fn set(&mut self, cell: Pair, alive: bool) {
        let index = self.index(cell).unwrap();
        set_bit(&mut self.0, index, alive);
    }

    fn iter(&self) -> (cells: Self::Iter<'_>) {
        GridIter::start(iter_bits(&self.0), self.1)
    }
}

} // verus!

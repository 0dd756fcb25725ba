//! The store that packs one cell per bit in a `bit_vec::BitVec`.
//!
//! Verus does not see inside the vector. What is said of it here is believed, not proved: it
//! is stated over the bits that the vector holds, and each statement stands above the function
//! that makes the call.

use vstd::prelude::*;
use crate::board::{Board, Pair};
use crate::grid::{GameGrid, Grid};
use crate::iter::{BitSource, GridIter};

verus! {

/// `bit_vec::BitVec`, of which Verus sees no more than the name.
#[verifier::external_type_specification]
#[verifier::external_body]
#[verifier::reject_recursive_types(B)]
pub struct ExBitVec<B>(bit_vec::BitVec<B>);

/// `bit_vec::Iter`, of which Verus sees no more than the name.
#[verifier::external_type_specification]
#[verifier::external_body]
#[verifier::reject_recursive_types(B)]
pub struct ExBitVecIter<'a, B: 'a>(bit_vec::Iter<'a, B>);

/// The bits that a `bit_vec::BitVec` holds, from index 0 up.
pub uninterp spec fn bit_vec_bits(bits: bit_vec::BitVec) -> Seq<bool>;

/// The bits that a `bit_vec::Iter` has yet to yield, the next one first.
pub uninterp spec fn bit_vec_pending(iter: bit_vec::Iter<'_>) -> Seq<bool>;

/// `bit_vec::BitVec::from_elem`: a vector of `nbits` bits, each of them `bit`.
#[verifier::external_body]
fn from_elem(nbits: usize, bit: bool) -> (bits: bit_vec::BitVec)
    ensures
        bit_vec_bits(bits) == Seq::new(nbits as nat, |i: int| bit),
{
    bit_vec::BitVec::from_elem(nbits, bit)
}

/// Indexing a `bit_vec::BitVec`: the bit at index `i`. It panics for an index that is not
/// below the length, which `requires` leaves out.
#[verifier::external_body]
fn bit_at(bits: &bit_vec::BitVec, i: usize) -> (bit: bool)
    requires
        i < bit_vec_bits(*bits).len(),
    ensures
        bit == bit_vec_bits(*bits)[i as int],
{
    bits[i]
}

/// `bit_vec::BitVec::set`: the bit at index `i` becomes `x` and no other bit changes. It
/// panics for an index that is not below the length, which `requires` leaves out.
#[verifier::external_body]
fn set_bit(bits: &mut bit_vec::BitVec, i: usize, x: bool)
    requires
        i < bit_vec_bits(*old(bits)).len(),
    ensures
        bit_vec_bits(*final(bits)) == bit_vec_bits(*old(bits)).update(i as int, x),
{
    bits.set(i, x)
}

/// `bit_vec::BitVec::iter`: an iterator that has every bit of the vector yet to yield, in
/// order.
#[verifier::external_body]
fn iter_bits<'a>(bits: &'a bit_vec::BitVec) -> (iter: bit_vec::Iter<'a>)
    ensures
        bit_vec_pending(iter) == bit_vec_bits(*bits),
{
    bits.iter()
}

/// `next` of `bit_vec::Iter`: the first of the bits yet to come, which then is no longer to
/// come; nothing, and no change, once none is left.
#[verifier::external_body]
fn next_of(iter: &mut bit_vec::Iter<'_>) -> (bit: Option<bool>)
    ensures
        bit_vec_pending(*old(iter)).len() > 0 ==> bit == Some(bit_vec_pending(*old(iter))[0])
            && bit_vec_pending(*final(iter)) == bit_vec_pending(*old(iter)).skip(1),
        bit_vec_pending(*old(iter)).len() == 0 ==> bit.is_none() && bit_vec_pending(*final(iter))
            == bit_vec_pending(*old(iter)),
{
    iter.next()
}

impl<'a> BitSource for bit_vec::Iter<'a> {
    open spec fn pending(&self) -> Seq<bool> {
        bit_vec_pending(*self)
    }

    #[inline]
    fn next_bit(&mut self) -> (bit: Option<bool>) {
        next_of(self)
    }
}

impl GameGrid for Grid<bit_vec::BitVec> {
    type Iter<'a> = GridIter<bit_vec::Iter<'a>>;

    open spec fn board(&self) -> Board {
        Board { dims: self.1, cells: bit_vec_bits(self.0) }
    }

    /// The vector counts its bits in a `usize`.
    open spec fn max_cells() -> nat {
        usize::MAX as nat
    }

    fn new(dimensions: Pair) -> (grid: Self) {
        (from_elem(dimensions.0 * dimensions.1, false), dimensions)
    }

    #[inline]
    fn dimensions(&self) -> (dimensions: Pair) {
        self.1
    }

    #[inline]
    fn get(&self, cell: Pair) -> (alive: Option<bool>) {
        let index = self.index(cell)?;
        Some(bit_at(&self.0, index))
    }

    #[inline]
    fn set(&mut self, cell: Pair, alive: bool) {
        let index = self.index(cell).unwrap();
        set_bit(&mut self.0, index, alive);
    }

    fn iter(&self) -> (cells: Self::Iter<'_>) {
        GridIter::start(iter_bits(&self.0), self.1)
    }
}

} // verus!

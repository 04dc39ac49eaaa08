//! The output of the hash.

use crate::field::types::PrimeField64;
use vstd::prelude::*;

verus! {

/// The number of field elements of a hash.
pub const NUM_HASH_OUT_ELTS: usize = 4;

/// A hash: four field elements.
#[derive(Copy, Clone, Debug)]
pub struct HashOut<F: PrimeField64> {
    pub elements: [F; 4],
}

impl<F: PrimeField64> View for HashOut<F> {
    type V = Seq<int>;

    /// The canonical values of the four elements.
    open spec fn view(&self) -> Seq<int> {
        Seq::new(4, |i: int| self.elements[i].value())
    }
}

impl<F: PrimeField64> HashOut<F> {
    /// The hash with all elements zero.
    pub fn zero() -> (hash: Self)
        ensures
            hash@ == Seq::new(4, |i: int| 0int),
    {
        let zero = F::zero();
        let hash = HashOut { elements: [zero, zero, zero, zero] };
        assert(hash@ =~= Seq::new(4, |i: int| 0int));
        hash
    }
}

} // verus!

//! The Goldilocks field, held as one 64-bit word.

use crate::field::types::{PrimeField64, ORDER};
use vstd::arithmetic::div_mod::{
    lemma_add_mod_noop, lemma_mod_add_multiples_vanish, lemma_mul_mod_noop_general,
    lemma_sub_mod_noop,
};
use vstd::prelude::*;
use vstd::std_specs::cmp::PartialEqSpecImpl;

verus! {

/// An element of the Goldilocks field. The word may be any 64-bit number;
/// it stands for its remainder modulo `ORDER`.
#[derive(Clone, Copy, Debug)]
pub struct GoldilocksField(pub u64);

/// The product of two 64-bit words fits in 128 bits, with room for one
/// more word.
proof fn lemma_product_fits(a: u64, b: u64)
    ensures
        0 <= (a as int) * (b as int) <= 0xFFFF_FFFF_FFFF_FFFE_0000_0000_0000_0001,
{
    assert(0 <= (a as int) * (b as int) <= 0xFFFF_FFFF_FFFF_FFFF * 0xFFFF_FFFF_FFFF_FFFF)
        by (nonlinear_arith)
        requires
            0 <= a <= 0xFFFF_FFFF_FFFF_FFFF,
            0 <= b <= 0xFFFF_FFFF_FFFF_FFFF,
    ;
}

impl PrimeField64 for GoldilocksField {
    open spec fn value(&self) -> int {
        self.0 as int % (ORDER as int)
    }

    proof fn lemma_value_canonical(&self) {
    }

    fn zero() -> (r: Self) {
        GoldilocksField(0)
    }

    fn one() -> (r: Self) {
        GoldilocksField(1)
    }

    fn two() -> (r: Self) {
        GoldilocksField(2)
    }

    fn neg_one() -> (r: Self) {
        GoldilocksField(ORDER - 1)
    }

    fn from_canonical_u64(n: u64) -> (r: Self) {
        GoldilocksField(n)
    }

    fn from_canonical_u8(n: u8) -> (r: Self) {
        GoldilocksField(n as u64)
    }

    fn from_noncanonical_u64(n: u64) -> (r: Self) {
        GoldilocksField(n)
    }

    fn from_noncanonical_u96(n: (u64, u32)) -> (r: Self) {
        let wide: u128 = (n.0 as u128) + (n.1 as u128) * 0x1_0000_0000_0000_0000u128;
        GoldilocksField((wide % (ORDER as u128)) as u64)
    }

    fn to_canonical_u64(&self) -> (r: u64) {
        self.0 % ORDER
    }

    fn to_noncanonical_u64(&self) -> (r: u64) {
        self.0
    }

    fn add_canonical_u64(&self, rhs: u64) -> (r: Self) {
        let wide: u128 = (self.0 as u128) + (rhs as u128);
        GoldilocksField((wide % (ORDER as u128)) as u64)
    }

    fn add(self, rhs: Self) -> (r: Self) {
        let wide: u128 = (self.0 as u128) + (rhs.0 as u128);
        GoldilocksField((wide % (ORDER as u128)) as u64)
    }

    fn sub(self, rhs: Self) -> (r: Self) {
        let negated: u64 = ORDER - rhs.0 % ORDER;
        let wide: u128 = (self.0 as u128) + (negated as u128);
        proof {
            let p = ORDER as int;
            lemma_mod_add_multiples_vanish(self.0 as int - rhs.value(), p);
            lemma_sub_mod_noop(self.0 as int, rhs.value(), p);
        }
        GoldilocksField((wide % (ORDER as u128)) as u64)
    }

    fn mul(self, rhs: Self) -> (r: Self) {
        proof {
            lemma_product_fits(self.0, rhs.0);
            lemma_mul_mod_noop_general(self.0 as int, rhs.0 as int, ORDER as int);
        }
        let wide: u128 = (self.0 as u128) * (rhs.0 as u128);
        GoldilocksField((wide % (ORDER as u128)) as u64)
    }

    fn square(&self) -> (r: Self) {
        self.mul(*self)
    }

    fn multiply_accumulate(&self, x: Self, y: Self) -> (r: Self) {
        proof {
            let p = ORDER as int;
            lemma_product_fits(x.0, y.0);
            lemma_mul_mod_noop_general(x.0 as int, y.0 as int, p);
            lemma_add_mod_noop(self.0 as int, (x.0 as int) * (y.0 as int), p);
            lemma_add_mod_noop(self.value(), x.value() * y.value(), p);
        }
        let wide: u128 = (self.0 as u128) + (x.0 as u128) * (y.0 as u128);
        GoldilocksField((wide % (ORDER as u128)) as u64)
    }
}

impl PartialEq for GoldilocksField {
    fn eq(&self, other: &Self) -> (r: bool) {
        self.0 % ORDER == other.0 % ORDER
    }
}

impl Eq for GoldilocksField {
}

impl PartialEqSpecImpl for GoldilocksField {
    open spec fn obeys_eq_spec() -> bool {
        true
    }

    open spec fn eq_spec(&self, other: &Self) -> bool {
        self.value() == other.value()
    }
}

} // verus!

//! The operations that the permutation asks of its base field.

use vstd::arithmetic::div_mod::{lemma_add_mod_noop, lemma_mul_mod_noop_general, lemma_sub_mod_noop};
use vstd::prelude::*;

verus! {

/// The order of the field: the Goldilocks prime `2^64 - 2^32 + 1`.
pub const ORDER: u64 = 0xFFFF_FFFF_0000_0001;

/// The sum of two integers as a field element.
pub open spec fn field_add(a: int, b: int) -> int {
    (a + b) % (ORDER as int)
}

/// The difference of two integers as a field element.
pub open spec fn field_sub(a: int, b: int) -> int {
    (a - b) % (ORDER as int)
}

/// The product of two integers as a field element.
pub open spec fn field_mul(a: int, b: int) -> int {
    (a * b) % (ORDER as int)
}

/// The integer that a 96-bit number, given as its low 64 and high 32 bits,
/// stands for.
pub open spec fn u96_value(n: (u64, u32)) -> int {
    n.0 as int + (n.1 as int) * 0x1_0000_0000_0000_0000
}

/// Sums of numbers that agree modulo `ORDER` agree modulo `ORDER`.
pub proof fn lemma_add_congruent(a: int, b: int, c: int, d: int)
    requires
        a % (ORDER as int) == c % (ORDER as int),
        b % (ORDER as int) == d % (ORDER as int),
    ensures
        (a + b) % (ORDER as int) == (c + d) % (ORDER as int),
{
    lemma_add_mod_noop(a, b, ORDER as int);
    lemma_add_mod_noop(c, d, ORDER as int);
}

/// Products of numbers that agree modulo `ORDER` agree modulo `ORDER`.
pub proof fn lemma_mul_congruent(a: int, b: int, c: int, d: int)
    requires
        a % (ORDER as int) == c % (ORDER as int),
        b % (ORDER as int) == d % (ORDER as int),
    ensures
        (a * b) % (ORDER as int) == (c * d) % (ORDER as int),
{
    lemma_mul_mod_noop_general(a, b, ORDER as int);
    lemma_mul_mod_noop_general(c, d, ORDER as int);
}

/// Two integers that stand for the same field element.
#[verifier::opaque]
pub open spec fn congruent(a: int, b: int) -> bool {
    a % (ORDER as int) == b % (ORDER as int)
}

/// Every integer stands for the field element that it stands for.
pub proof fn lemma_congruent_reflexive(a: int)
    ensures
        congruent(a, a),
{
    reveal(congruent);
}

/// Integers that stand for the same field element have the same
/// remainder, and a reduced one is that remainder.
pub proof fn lemma_congruent_remainder(x: int, a: int)
    requires
        congruent(x, a),
    ensures
        x % (ORDER as int) == a % (ORDER as int),
        0 <= x < ORDER ==> x == a % (ORDER as int),
{
    reveal(congruent);
}

/// Integers with the same remainder stand for the same field element.
pub proof fn lemma_remainder_congruent(x: int, a: int)
    requires
        x % (ORDER as int) == a % (ORDER as int),
    ensures
        congruent(x, a),
{
    reveal(congruent);
}

/// The field sum of two elements stands for the sum of any integers that
/// stand for them.
pub proof fn lemma_field_add_congruent(x: int, y: int, a: int, b: int)
    requires
        congruent(x, a),
        congruent(y, b),
    ensures
        congruent(field_add(x, y), a + b),
{
    reveal(congruent);
    lemma_add_congruent(x, y, a, b);
}

/// The field difference of two elements stands for the difference of any
/// integers that stand for them.
pub proof fn lemma_field_sub_congruent(x: int, y: int, a: int, b: int)
    requires
        congruent(x, a),
        congruent(y, b),
    ensures
        congruent(field_sub(x, y), a - b),
{
    reveal(congruent);
    lemma_sub_mod_noop(x, y, ORDER as int);
    lemma_sub_mod_noop(a, b, ORDER as int);
}

/// The field product of a number and an element stands for the product
/// of the number and any integer that stands for the element.
pub proof fn lemma_field_scale_congruent(k: int, x: int, a: int)
    requires
        congruent(x, a),
    ensures
        congruent(field_mul(k, x), k * a),
{
    reveal(congruent);
    lemma_mul_congruent(k, x, k, a);
}

/// An element of the field of order `ORDER`, whatever its representation.
///
/// Every element has one canonical value in `0..ORDER`; the contracts of
/// the operations speak of that value alone.
pub trait PrimeField64: Copy + Sized {
    /// The canonical value of the element.
    spec fn value(&self) -> int;

    /// The canonical value lies in `0..ORDER`.
    proof fn lemma_value_canonical(&self)
        ensures
            0 <= self.value() < ORDER,
    ;

    fn zero() -> (r: Self)
        ensures
            r.value() == 0,
    ;

    fn one() -> (r: Self)
        ensures
            r.value() == 1,
    ;

    fn two() -> (r: Self)
        ensures
            r.value() == 2,
    ;

    fn neg_one() -> (r: Self)
        ensures
            r.value() == ORDER - 1,
    ;

    /// The element with the given canonical value.
    fn from_canonical_u64(n: u64) -> (r: Self)
        requires
            n < ORDER,
        ensures
            r.value() == n,
    ;

    fn from_canonical_u8(n: u8) -> (r: Self)
        ensures
            r.value() == n,
    ;

    /// The element that any 64-bit number stands for.
    fn from_noncanonical_u64(n: u64) -> (r: Self)
        ensures
            r.value() == n as int % (ORDER as int),
    ;

    /// The element that a 96-bit number stands for.
    fn from_noncanonical_u96(n: (u64, u32)) -> (r: Self)
        ensures
            r.value() == u96_value(n) % (ORDER as int),
    ;

    fn to_canonical_u64(&self) -> (r: u64)
        ensures
            r == self.value(),
    ;

    /// Some 64-bit number that stands for the element, reduced or not.
    fn to_noncanonical_u64(&self) -> (r: u64)
        ensures
            r as int % (ORDER as int) == self.value(),
    ;

    /// `self + rhs` for a `rhs` that is already a canonical value.
    fn add_canonical_u64(&self, rhs: u64) -> (r: Self)
        requires
            rhs < ORDER,
        ensures
            r.value() == field_add(self.value(), rhs as int),
    ;

    fn add(self, rhs: Self) -> (r: Self)
        ensures
            r.value() == field_add(self.value(), rhs.value()),
    ;

    fn sub(self, rhs: Self) -> (r: Self)
        ensures
            r.value() == field_sub(self.value(), rhs.value()),
    ;

    fn mul(self, rhs: Self) -> (r: Self)
        ensures
            r.value() == field_mul(self.value(), rhs.value()),
    ;

    fn square(&self) -> (r: Self)
        ensures
            r.value() == field_mul(self.value(), self.value()),
    ;

    /// `self + x * y`.
    fn multiply_accumulate(&self, x: Self, y: Self) -> (r: Self)
        ensures
            r.value() == field_add(self.value(), x.value() * y.value()),
    ;
}

} // verus!

//! The extension of the field by a root of `X^D - 7`, for any degree `D`.

use crate::field::types::{
    congruent, field_add, field_mul, field_sub, lemma_add_congruent, lemma_mul_congruent,
    PrimeField64, ORDER,
};
use vstd::prelude::*;

verus! {

/// The number whose `D`th root the extension adjoins.
pub const EXTENSION_W: u64 = 7;

/// An element of the extension: the coefficients of `1, X, .., X^(D-1)`.
#[derive(Clone, Copy, Debug)]
pub struct Extension<F: PrimeField64, const D: usize>(pub [F; D]);

impl<F: PrimeField64, const D: usize> View for Extension<F, D> {
    type V = Seq<int>;

    /// The canonical values of the `D` coefficients.
    open spec fn view(&self) -> Seq<int> {
        Seq::new(D as nat, |k: int| self.0[k].value())
    }
}

/// The base-field element `v` as an element of the extension of degree `d`.
pub open spec fn ext_embed(v: int, d: nat) -> Seq<int> {
    Seq::new(d, |k: int| if k == 0 { v } else { 0 })
}

/// The sum of two elements of the extension.
pub open spec fn ext_add(a: Seq<int>, b: Seq<int>) -> Seq<int> {
    Seq::new(a.len(), |k: int| field_add(a[k], b[k]))
}

/// The difference of two elements of the extension.
pub open spec fn ext_sub(a: Seq<int>, b: Seq<int>) -> Seq<int> {
    Seq::new(a.len(), |k: int| field_sub(a[k], b[k]))
}

/// What coefficient `i` of `a` adds to coefficient `k` of the product
/// `a * b`: its product with the coefficient of `b` that brings the power
/// to `X^k`, directly or by `X^D = 7`.
pub open spec fn ext_mul_term(a: Seq<int>, b: Seq<int>, k: int, i: int) -> int {
    if i <= k {
        a[i] * b[k - i]
    } else {
        7 * (a[i] * b[k + a.len() - i])
    }
}

/// What the first `n` coefficients of `a` add to coefficient `k` of the
/// product `a * b`.
pub open spec fn ext_mul_sum(a: Seq<int>, b: Seq<int>, k: int, n: int) -> int
    decreases n,
{
    if n <= 0 {
        0
    } else {
        ext_mul_sum(a, b, k, n - 1) + ext_mul_term(a, b, k, n - 1)
    }
}

/// The product of two elements of the extension: the product of the two
/// polynomials, reduced by `X^D = 7`.
pub open spec fn ext_mul(a: Seq<int>, b: Seq<int>) -> Seq<int> {
    Seq::new(a.len(), |k: int| ext_mul_sum(a, b, k, a.len() as int) % (ORDER as int))
}

/// An element of the extension scaled by an element of the base field.
pub open spec fn ext_scale(c: int, a: Seq<int>) -> Seq<int> {
    Seq::new(a.len(), |k: int| field_mul(c, a[k]))
}

/// The sum of two elements of the extension does not depend on their
/// order.
pub proof fn lemma_ext_add_commutative(a: Seq<int>, b: Seq<int>)
    requires
        a.len() == b.len(),
    ensures
        ext_add(a, b) == ext_add(b, a),
{
    assert(ext_add(a, b) =~= ext_add(b, a));
}

/// Zero plus `a`, plus `b`, is `a` plus `b`.
pub proof fn lemma_ext_add_zero_left(a: Seq<int>, b: Seq<int>)
    requires
        a.len() == b.len(),
    ensures
        ext_add(ext_add(ext_embed(0, a.len()), a), b) == ext_add(a, b),
{
    assert forall|k: int| 0 <= k < a.len() implies field_add(field_add(0, a[k]), b[k])
        == field_add(a[k], b[k]) by {
        lemma_add_congruent(field_add(0, a[k]), b[k], a[k], b[k]);
    }
    assert(ext_add(ext_add(ext_embed(0, a.len()), a), b) =~= ext_add(a, b));
}

/// `a` plus `b`, plus `b` again, is `a` plus twice `b`.
pub proof fn lemma_ext_add_twice(a: Seq<int>, b: Seq<int>)
    requires
        a.len() == b.len(),
    ensures
        ext_add(ext_add(a, b), b) == ext_add(a, ext_scale(2, b)),
{
    assert forall|k: int| 0 <= k < a.len() implies field_add(field_add(a[k], b[k]), b[k])
        == field_add(a[k], field_mul(2, b[k])) by {
        lemma_add_congruent(field_add(a[k], b[k]), b[k], a[k] + b[k], b[k]);
        lemma_add_congruent(a[k], field_mul(2, b[k]), a[k], 2 * b[k]);
    }
    assert(ext_add(ext_add(a, b), b) =~= ext_add(a, ext_scale(2, b)));
}

/// A product with a factor that is zero.
pub proof fn lemma_mul_zero(x: int, y: int)
    requires
        x == 0 || y == 0,
    ensures
        x * y == 0,
{
}

/// What the first `n` coefficients of `x` add to coefficient `k` of
/// `x * c`, for `c` of the base field.
proof fn lemma_ext_mul_sum_embed_right(x: Seq<int>, c: int, k: int, n: int)
    requires
        0 <= k < x.len(),
        0 <= n <= x.len(),
    ensures
        ext_mul_sum(x, ext_embed(c, x.len()), k, n) == if n > k {
            x[k] * c
        } else {
            0
        },
    decreases n,
{
    if n > 0 {
        let e = ext_embed(c, x.len());
        let i = n - 1;
        lemma_ext_mul_sum_embed_right(x, c, k, n - 1);
        if i < k {
            lemma_mul_zero(x[i], e[k - i]);
        } else if i > k {
            lemma_mul_zero(x[i], e[k + x.len() - i]);
        }
    }
}

/// What the first `n` coefficients of `c`, of the base field, add to
/// coefficient `k` of `c * x`.
proof fn lemma_ext_mul_sum_embed_left(c: int, x: Seq<int>, k: int, n: int)
    requires
        0 <= k < x.len(),
        0 <= n <= x.len(),
    ensures
        ext_mul_sum(ext_embed(c, x.len()), x, k, n) == if n > 0 {
            c * x[k]
        } else {
            0
        },
    decreases n,
{
    if n > 0 {
        let e = ext_embed(c, x.len());
        let i = n - 1;
        lemma_ext_mul_sum_embed_left(c, x, k, n - 1);
        if i > k {
            lemma_mul_zero(e[i], x[k + x.len() - i]);
        } else if i > 0 {
            lemma_mul_zero(e[i], x[k - i]);
        }
    }
}

/// The product with an element of the base field, on the right, scales
/// every coefficient.
pub proof fn lemma_ext_mul_embed_right(x: Seq<int>, c: int)
    ensures
        ext_mul(x, ext_embed(c, x.len())) == ext_scale(c, x),
{
    assert forall|k: int| 0 <= k < x.len() implies ext_mul(x, ext_embed(c, x.len()))[k]
        == ext_scale(c, x)[k] by {
        lemma_ext_mul_sum_embed_right(x, c, k, x.len() as int);
        assert(x[k] * c == c * x[k]) by (nonlinear_arith);
    }
    assert(ext_mul(x, ext_embed(c, x.len())) =~= ext_scale(c, x));
}

/// The product with an element of the base field, on the left, scales
/// every coefficient.
pub proof fn lemma_ext_mul_embed_left(c: int, x: Seq<int>)
    ensures
        ext_mul(ext_embed(c, x.len()), x) == ext_scale(c, x),
{
    assert forall|k: int| 0 <= k < x.len() implies ext_mul(ext_embed(c, x.len()), x)[k]
        == ext_scale(c, x)[k] by {
        lemma_ext_mul_sum_embed_left(c, x, k, x.len() as int);
    }
    assert(ext_mul(ext_embed(c, x.len()), x) =~= ext_scale(c, x));
}

/// The embedding of the base field keeps sums, differences and products.
pub proof fn lemma_ext_embed_homomorphic(a: int, b: int, d: nat)
    ensures
        ext_add(ext_embed(a, d), ext_embed(b, d)) == ext_embed(field_add(a, b), d),
        ext_sub(ext_embed(a, d), ext_embed(b, d)) == ext_embed(field_sub(a, b), d),
        ext_mul(ext_embed(a, d), ext_embed(b, d)) == ext_embed(field_mul(a, b), d),
{
    assert(ext_add(ext_embed(a, d), ext_embed(b, d)) =~= ext_embed(field_add(a, b), d));
    assert(ext_sub(ext_embed(a, d), ext_embed(b, d)) =~= ext_embed(field_sub(a, b), d));
    lemma_ext_mul_embed_left(a, ext_embed(b, d));
    assert(ext_scale(a, ext_embed(b, d)) =~= ext_embed(field_mul(a, b), d)) by {
        assert forall|k: int| 0 < k < d implies field_mul(a, ext_embed(b, d)[k]) == 0 by {
            lemma_mul_zero(a, ext_embed(b, d)[k]);
        }
    }
}

/// What the first coefficients add to a coefficient of a product depends
/// on the coefficients of the left factor modulo `ORDER` alone.
proof fn lemma_ext_mul_sum_congruent(a: Seq<int>, a2: Seq<int>, b: Seq<int>, k: int, n: int)
    requires
        a.len() == a2.len(),
        0 <= n <= a.len(),
        forall|i: int| 0 <= i < a.len() ==> congruent(#[trigger] a[i], a2[i]),
    ensures
        congruent(ext_mul_sum(a, b, k, n), ext_mul_sum(a2, b, k, n)),
    decreases n,
{
    reveal(congruent);
    if n > 0 {
        let i = n - 1;
        lemma_ext_mul_sum_congruent(a, a2, b, k, n - 1);
        assert(congruent(a[i], a2[i]));
        if i <= k {
            lemma_mul_congruent(a[i], b[k - i], a2[i], b[k - i]);
        } else {
            let j = k + a.len() - i;
            lemma_mul_congruent(a[i], b[j], a2[i], b[j]);
            lemma_mul_congruent(7, a[i] * b[j], 7, a2[i] * b[j]);
        }
        lemma_add_congruent(
            ext_mul_sum(a, b, k, n - 1),
            ext_mul_term(a, b, k, i),
            ext_mul_sum(a2, b, k, n - 1),
            ext_mul_term(a2, b, k, i),
        );
    }
}

/// A product depends on the coefficients of its left factor modulo
/// `ORDER` alone.
pub proof fn lemma_ext_mul_congruent(a: Seq<int>, a2: Seq<int>, b: Seq<int>)
    requires
        a.len() == a2.len(),
        forall|i: int| 0 <= i < a.len() ==> congruent(#[trigger] a[i], a2[i]),
    ensures
        ext_mul(a, b) == ext_mul(a2, b),
{
    assert forall|k: int| 0 <= k < a.len() implies ext_mul(a, b)[k] == ext_mul(a2, b)[k] by {
        lemma_ext_mul_sum_congruent(a, a2, b, k, a.len() as int);
        reveal(congruent);
    }
    assert(ext_mul(a, b) =~= ext_mul(a2, b));
}

/// The one of the extension times `x`, times `y`, is `x` times `y`.
pub proof fn lemma_ext_mul_one_left(x: Seq<int>, y: Seq<int>)
    ensures
        ext_mul(ext_mul(ext_embed(1, x.len()), x), y) == ext_mul(x, y),
{
    lemma_ext_mul_embed_left(1, x);
    assert forall|i: int| 0 <= i < x.len() implies congruent(
        #[trigger] ext_scale(1, x)[i],
        x[i],
    ) by {
        reveal(congruent);
    }
    lemma_ext_mul_congruent(ext_scale(1, x), x, y);
}

/// The power of an element of the extension by squaring: `product` times
/// `current` to the power `exponent`, one bit of the exponent at a time
/// from the lowest on.
pub open spec fn ext_exp_bits(product: Seq<int>, current: Seq<int>, exponent: nat) -> Seq<int>
    decreases exponent,
{
    if exponent == 0 {
        product
    } else {
        let next = if exponent % 2 == 1 {
            ext_mul(product, current)
        } else {
            product
        };
        ext_exp_bits(next, ext_mul(current, current), exponent / 2)
    }
}

/// The power of an element of the extension, as squaring and multiplying
/// computes it.
pub open spec fn ext_exp_u64(x: Seq<int>, exponent: nat) -> Seq<int> {
    if exponent == 0 {
        ext_embed(1, x.len())
    } else if exponent == 1 {
        x
    } else if exponent == 2 {
        ext_mul(x, x)
    } else {
        ext_exp_bits(ext_embed(1, x.len()), x, exponent)
    }
}

impl<F: PrimeField64, const D: usize> Extension<F, D> {
    /// The base-field element `x` as an element of the extension.
    pub fn from_basefield(x: F) -> (r: Self)
        ensures
            r@ == ext_embed(x.value(), D as nat),
    {
        let zero = F::zero();
        let mut coefficients = [zero;D];
        for k in 0..D
            invariant
                zero.value() == 0,
                forall|j: int|
                    0 <= j < k ==> (#[trigger] coefficients[j]).value() == ext_embed(
                        x.value(),
                        D as nat,
                    )[j],
        {
            coefficients[k] = if k == 0 {
                x
            } else {
                zero
            };
        }
        let r = Extension(coefficients);
        assert(r@ =~= ext_embed(x.value(), D as nat));
        r
    }

    pub fn zero() -> (r: Self)
        ensures
            r@ == ext_embed(0, D as nat),
    {
        Self::from_basefield(F::zero())
    }

    pub fn one() -> (r: Self)
        ensures
            r@ == ext_embed(1, D as nat),
    {
        Self::from_basefield(F::one())
    }

    pub fn two() -> (r: Self)
        ensures
            r@ == ext_embed(2, D as nat),
    {
        Self::from_basefield(F::two())
    }

    pub fn from_canonical_u8(n: u8) -> (r: Self)
        ensures
            r@ == ext_embed(n as int, D as nat),
    {
        Self::from_basefield(F::from_canonical_u8(n))
    }

    pub fn from_canonical_u64(n: u64) -> (r: Self)
        requires
            n < ORDER,
        ensures
            r@ == ext_embed(n as int, D as nat),
    {
        Self::from_basefield(F::from_canonical_u64(n))
    }

    /// Whether two elements of the extension are the same element.
    pub fn equals(&self, other: &Self) -> (r: bool)
        ensures
            r == (self@ == other@),
    {
        for k in 0..D
            invariant
                forall|j: int| 0 <= j < k ==> self@[j] == other@[j],
        {
            if self.0[k].to_canonical_u64() != other.0[k].to_canonical_u64() {
                assert(self@[k as int] != other@[k as int]);
                return false;
            }
        }
        assert(self@ =~= other@);
        true
    }

    pub fn from_basefield_array(coefficients: [F; D]) -> (r: Self)
        ensures
            r.0 == coefficients,
    {
        Extension(coefficients)
    }

    pub fn to_basefield_array(&self) -> (r: [F; D])
        ensures
            r == self.0,
    {
        self.0
    }

    pub fn add(self, rhs: Self) -> (r: Self)
        ensures
            r@ == ext_add(self@, rhs@),
    {
        let mut coefficients = self.0;
        for k in 0..D
            invariant
                forall|j: int|
                    0 <= j < k ==> #[trigger] coefficients[j].value() == field_add(
                        self.0[j].value(),
                        rhs.0[j].value(),
                    ),
        {
            coefficients[k] = self.0[k].add(rhs.0[k]);
        }
        let r = Extension(coefficients);
        assert(r@ =~= ext_add(self@, rhs@));
        r
    }

    pub fn sub(self, rhs: Self) -> (r: Self)
        ensures
            r@ == ext_sub(self@, rhs@),
    {
        let mut coefficients = self.0;
        for k in 0..D
            invariant
                forall|j: int|
                    0 <= j < k ==> #[trigger] coefficients[j].value() == field_sub(
                        self.0[j].value(),
                        rhs.0[j].value(),
                    ),
        {
            coefficients[k] = self.0[k].sub(rhs.0[k]);
        }
        let r = Extension(coefficients);
        assert(r@ =~= ext_sub(self@, rhs@));
        r
    }

    /// The element scaled by an element of the base field.
    pub fn scalar_mul(&self, scalar: F) -> (r: Self)
        ensures
            r@ == ext_scale(scalar.value(), self@),
    {
        let mut coefficients = self.0;
        for k in 0..D
            invariant
                forall|j: int|
                    0 <= j < k ==> #[trigger] coefficients[j].value() == field_mul(
                        scalar.value(),
                        self.0[j].value(),
                    ),
        {
            coefficients[k] = scalar.mul(self.0[k]);
        }
        let r = Extension(coefficients);
        assert(r@ =~= ext_scale(scalar.value(), self@));
        r
    }

    pub fn mul(self, rhs: Self) -> (r: Self)
        ensures
            r@ == ext_mul(self@, rhs@),
    {
        let w = F::from_canonical_u64(EXTENSION_W);
        let mut coefficients = self.0;
        for k in 0..D
            invariant
                w.value() == 7,
                forall|j: int|
                    0 <= j < k ==> #[trigger] coefficients[j].value() == ext_mul(self@, rhs@)[j],
        {
            let mut acc = F::zero();
            for i in 0..D
                invariant
                    k < D,
                    w.value() == 7,
                    acc.value() == ext_mul_sum(self@, rhs@, k as int, i as int) % (ORDER as int),
            {
                let ghost before = ext_mul_sum(self@, rhs@, k as int, i as int);
                let ghost x = self.0[i as int].value();
                if i <= k {
                    let ghost y = rhs.0[k - i].value();
                    acc = acc.multiply_accumulate(self.0[i], rhs.0[k - i]);
                    proof {
                        lemma_add_congruent(before % (ORDER as int), x * y, before, x * y);
                    }
                } else {
                    let ghost y = rhs.0[D - (i - k)].value();
                    let t = self.0[i].mul(rhs.0[D - (i - k)]);
                    acc = acc.multiply_accumulate(w, t);
                    proof {
                        lemma_mul_congruent(7, t.value(), 7, x * y);
                        lemma_add_congruent(
                            before % (ORDER as int),
                            7 * t.value(),
                            before,
                            7 * (x * y),
                        );
                    }
                }
            }
            coefficients[k] = acc;
        }
        let r = Extension(coefficients);
        assert(r@ =~= ext_mul(self@, rhs@));
        r
    }

    pub fn square(&self) -> (r: Self)
        ensures
            r@ == ext_mul(self@, self@),
    {
        self.mul(*self)
    }

    /// `self + x * y`.
    pub fn multiply_accumulate(&self, x: Self, y: Self) -> (r: Self)
        ensures
            r@ == ext_add(self@, ext_mul(x@, y@)),
    {
        self.add(x.mul(y))
    }
}

} // verus!

//! The extension algebra: `D` elements of the extension, added and scaled
//! component by component.

use crate::field::extension::{ext_add, ext_embed, ext_mul, ext_sub, Extension};
use crate::field::types::PrimeField64;
use vstd::prelude::*;

verus! {

/// An element of the extension algebra: its `D` components.
#[derive(Clone, Copy, Debug)]
pub struct ExtensionAlgebra<F: PrimeField64, const D: usize>(pub [Extension<F, D>; D]);

impl<F: PrimeField64, const D: usize> View for ExtensionAlgebra<F, D> {
    type V = Seq<Seq<int>>;

    /// The coefficients of the `D` components.
    open spec fn view(&self) -> Seq<Seq<int>> {
        Seq::new(D as nat, |a: int| self.0[a]@)
    }
}

/// The sum of two elements of the extension algebra.
pub open spec fn algebra_add(x: Seq<Seq<int>>, y: Seq<Seq<int>>) -> Seq<Seq<int>> {
    Seq::new(x.len(), |a: int| ext_add(x[a], y[a]))
}

/// The difference of two elements of the extension algebra.
pub open spec fn algebra_sub(x: Seq<Seq<int>>, y: Seq<Seq<int>>) -> Seq<Seq<int>> {
    Seq::new(x.len(), |a: int| ext_sub(x[a], y[a]))
}

/// An element of the extension algebra with every component multiplied
/// by an element of the extension.
pub open spec fn algebra_scalar_mul(x: Seq<Seq<int>>, scalar: Seq<int>) -> Seq<Seq<int>> {
    Seq::new(x.len(), |a: int| ext_mul(x[a], scalar))
}

/// The zero of the extension algebra of degree `d`.
pub open spec fn algebra_zero(d: nat) -> Seq<Seq<int>> {
    Seq::new(d, |a: int| ext_embed(0, d))
}

impl<F: PrimeField64, const D: usize> ExtensionAlgebra<F, D> {
    pub fn zero() -> (r: Self)
        ensures
            r@ == algebra_zero(D as nat),
    {
        let zero = Extension::<F, D>::zero();
        let mut components = [zero;D];
        for a in 0..D
            invariant
                zero@ == ext_embed(0, D as nat),
                forall|j: int| 0 <= j < a ==> (#[trigger] components[j])@ == ext_embed(0, D as nat),
        {
            components[a] = zero;
        }
        let r = ExtensionAlgebra(components);
        assert(r@ =~= algebra_zero(D as nat));
        r
    }

    pub fn from_basefield_array(components: [Extension<F, D>; D]) -> (r: Self)
        ensures
            r.0 == components,
    {
        ExtensionAlgebra(components)
    }

    pub fn to_basefield_array(&self) -> (r: [Extension<F, D>; D])
        ensures
            r == self.0,
    {
        self.0
    }

    pub fn add(self, rhs: Self) -> (r: Self)
        ensures
            r@ == algebra_add(self@, rhs@),
    {
        let mut components = self.0;
        for a in 0..D
            invariant
                forall|j: int|
                    0 <= j < a ==> (#[trigger] components[j])@ == ext_add(self.0[j]@, rhs.0[j]@),
        {
            components[a] = self.0[a].add(rhs.0[a]);
        }
        let r = ExtensionAlgebra(components);
        assert(r@ =~= algebra_add(self@, rhs@));
        r
    }

    pub fn sub(self, rhs: Self) -> (r: Self)
        ensures
            r@ == algebra_sub(self@, rhs@),
    {
        let mut components = self.0;
        for a in 0..D
            invariant
                forall|j: int|
                    0 <= j < a ==> (#[trigger] components[j])@ == ext_sub(self.0[j]@, rhs.0[j]@),
        {
            components[a] = self.0[a].sub(rhs.0[a]);
        }
        let r = ExtensionAlgebra(components);
        assert(r@ =~= algebra_sub(self@, rhs@));
        r
    }

    /// Every component multiplied by an element of the extension.
    pub fn scalar_mul(&self, scalar: Extension<F, D>) -> (r: Self)
        ensures
            r@ == algebra_scalar_mul(self@, scalar@),
    {
        let mut components = self.0;
        for a in 0..D
            invariant
                forall|j: int|
                    0 <= j < a ==> (#[trigger] components[j])@ == ext_mul(self.0[j]@, scalar@),
        {
            components[a] = self.0[a].mul(scalar);
        }
        let r = ExtensionAlgebra(components);
        assert(r@ =~= algebra_scalar_mul(self@, scalar@));
        r
    }
}

} // verus!

//! The values of one row that a gate is evaluated on: elements of the
//! extension, elements of the field, or targets of a circuit.

use core::ops::Range;
use crate::field::algebra::ExtensionAlgebra;
use crate::field::extension::Extension;
use crate::field::types::PrimeField64;
use crate::iop::ext_target::{ext_target_value, ExtensionAlgebraTarget, ExtensionTarget};
use crate::iop::target::Target;
use vstd::prelude::*;

verus! {

/// A row whose wires hold elements of the extension.
#[derive(Copy, Clone, Debug)]
pub struct EvaluationVars<'a, F: PrimeField64, const D: usize> {
    pub local_constants: &'a [Extension<F, D>],
    pub local_wires: &'a [Extension<F, D>],
}

/// A row whose wires hold elements of the field.
#[derive(Copy, Clone, Debug)]
pub struct EvaluationVarsBase<'a, F: PrimeField64> {
    pub local_constants: &'a [F],
    pub local_wires: &'a [F],
}

/// A row whose wires are extension targets of a circuit.
#[derive(Copy, Clone, Debug)]
pub struct EvaluationTargets<'a, const D: usize> {
    pub local_constants: &'a [ExtensionTarget<D>],
    pub local_wires: &'a [ExtensionTarget<D>],
}

/// The coefficients of the elements of the extension that the wires of a
/// row hold.
pub open spec fn ext_wire_values<F: PrimeField64, const D: usize>(
    wires: Seq<Extension<F, D>>,
) -> Seq<Seq<int>> {
    Seq::new(wires.len(), |n: int| wires[n]@)
}

/// The canonical values of the field elements that the wires of a row
/// hold.
pub open spec fn base_wire_values<F: PrimeField64>(wires: Seq<F>) -> Seq<int> {
    Seq::new(wires.len(), |n: int| wires[n].value())
}

/// The elements of the extension that an assignment of values gives to
/// the wires of a row of extension targets.
pub open spec fn target_wire_values<const D: usize>(
    values: Map<Target, int>,
    wires: Seq<ExtensionTarget<D>>,
) -> Seq<Seq<int>> {
    Seq::new(wires.len(), |n: int| ext_target_value(values, wires[n]))
}

impl<'a, F: PrimeField64, const D: usize> EvaluationVars<'a, F, D> {
    /// The element of the extension algebra that `D` neighbouring wires
    /// hold.
    pub fn get_local_ext_algebra(&self, wire_range: Range<usize>) -> (r: ExtensionAlgebra<F, D>)
        requires
            wire_range.end == wire_range.start + D,
            wire_range.end <= self.local_wires@.len(),
        ensures
            forall|a: int| 0 <= a < D ==> #[trigger] r.0[a] == self.local_wires@[wire_range.start + a],
    {
        let start = wire_range.start;
        let mut components = [Extension::<F, D>::zero();D];
        for a in 0..D
            invariant
                start + D <= usize::MAX,
                start + D <= self.local_wires@.len(),
                forall|j: int| 0 <= j < a ==> #[trigger] components[j] == self.local_wires@[start + j],
        {
            components[a] = self.local_wires[start + a];
        }
        ExtensionAlgebra::from_basefield_array(components)
    }
}

impl<'a, F: PrimeField64> EvaluationVarsBase<'a, F> {
    /// The element of the extension that `D` neighbouring wires hold.
    pub fn get_local_ext<const D: usize>(&self, wire_range: Range<usize>) -> (r: Extension<F, D>)
        requires
            wire_range.end == wire_range.start + D,
            wire_range.end <= self.local_wires@.len(),
        ensures
            forall|k: int| 0 <= k < D ==> #[trigger] r.0[k] == self.local_wires@[wire_range.start + k],
    {
        let start = wire_range.start;
        let mut coefficients = [F::zero();D];
        for k in 0..D
            invariant
                start + D <= usize::MAX,
                start + D <= self.local_wires@.len(),
                forall|j: int|
                    0 <= j < k ==> #[trigger] coefficients[j] == self.local_wires@[start + j],
        {
            coefficients[k] = self.local_wires[start + k];
        }
        Extension::from_basefield_array(coefficients)
    }
}

impl<'a, const D: usize> EvaluationTargets<'a, D> {
    /// The target of the extension algebra made of `D` neighbouring wires.
    pub fn get_local_ext_algebra(&self, wire_range: Range<usize>) -> (r: ExtensionAlgebraTarget<D>)
        requires
            wire_range.end == wire_range.start + D,
            wire_range.end <= self.local_wires@.len(),
        ensures
            forall|a: int| 0 <= a < D ==> #[trigger] r.0[a] == self.local_wires@[wire_range.start + a],
    {
        let start = wire_range.start;
        let mut components = [ExtensionTarget([Target::wire(0, 0);D]);D];
        for a in 0..D
            invariant
                start + D <= usize::MAX,
                start + D <= self.local_wires@.len(),
                forall|j: int| 0 <= j < a ==> #[trigger] components[j] == self.local_wires@[start + j],
        {
            components[a] = self.local_wires[start + a];
        }
        ExtensionAlgebraTarget(components)
    }
}

} // verus!

//! The places of a circuit that hold one element of the extension each.

use core::ops::Range;
use crate::iop::target::{wires_of_range, Target};
use vstd::prelude::*;

verus! {

/// The `D` targets that hold the coefficients of an element of the
/// extension.
#[derive(Copy, Clone, Debug)]
pub struct ExtensionTarget<const D: usize>(pub [Target; D]);

/// The `D` extension targets that hold the components of an element of
/// the extension algebra.
#[derive(Copy, Clone, Debug)]
pub struct ExtensionAlgebraTarget<const D: usize>(pub [ExtensionTarget<D>; D]);

/// The extension target whose targets are the `D` given ones.
pub open spec fn ext_target_of<const D: usize>(targets: Seq<Target>) -> ExtensionTarget<D> {
    choose|t: ExtensionTarget<D>| t.0@ == targets
}

/// The extension target of the first `D` wires of a row.
pub open spec fn row_target<const D: usize>(row: int) -> ExtensionTarget<D> {
    ext_target_of(wires_of_range(row as usize, 0, D))
}

/// An extension target is the one of its targets.
pub proof fn lemma_ext_target_of<const D: usize>(t: ExtensionTarget<D>)
    ensures
        ext_target_of::<D>(t.0@) == t,
{
    let u = ext_target_of::<D>(t.0@);
    assert(u.0@ == t.0@);
    assert(u.0 =~= t.0);
}

/// The target of the extension algebra whose components are the `D`
/// given ones.
pub open spec fn algebra_target_of<const D: usize>(
    components: Seq<ExtensionTarget<D>>,
) -> ExtensionAlgebraTarget<D> {
    choose|t: ExtensionAlgebraTarget<D>| t.0@ == components
}

/// The target of the extension algebra whose components are the results
/// of the `D` rows from row `first` on.
pub open spec fn rows_target<const D: usize>(first: int) -> ExtensionAlgebraTarget<D> {
    algebra_target_of(Seq::new(D as nat, |a: int| row_target::<D>(first + a)))
}

/// A target of the extension algebra is the one of its components.
pub proof fn lemma_algebra_target_of<const D: usize>(t: ExtensionAlgebraTarget<D>)
    ensures
        algebra_target_of::<D>(t.0@) == t,
{
    let u = algebra_target_of::<D>(t.0@);
    assert(u.0@ == t.0@);
    assert(u.0 =~= t.0);
}

/// The element of the extension that an assignment of values gives to an
/// extension target.
pub open spec fn ext_target_value<const D: usize>(
    values: Map<Target, int>,
    target: ExtensionTarget<D>,
) -> Seq<int> {
    Seq::new(D as nat, |k: int| values[target.0[k]])
}

/// The components that an assignment of values gives to a target of the
/// extension algebra.
pub open spec fn ext_algebra_target_value<const D: usize>(
    values: Map<Target, int>,
    target: ExtensionAlgebraTarget<D>,
) -> Seq<Seq<int>> {
    Seq::new(D as nat, |a: int| ext_target_value(values, target.0[a]))
}

/// The elements of the extension that an assignment of values gives to
/// the twelve extension targets of a state.
pub open spec fn ext_state_target_values<const D: usize>(
    values: Map<Target, int>,
    state: [ExtensionTarget<D>; 12],
) -> Seq<Seq<int>> {
    Seq::new(12, |i: int| ext_target_value(values, state[i]))
}

/// The elements of the extension algebra that an assignment of values
/// gives to the twelve targets of a state.
pub open spec fn algebra_state_target_values<const D: usize>(
    values: Map<Target, int>,
    state: [ExtensionAlgebraTarget<D>; 12],
) -> Seq<Seq<Seq<int>>> {
    Seq::new(12, |i: int| ext_algebra_target_value(values, state[i]))
}

impl<const D: usize> ExtensionTarget<D> {
    /// The extension target made of the `D` wires of a range of columns
    /// of a row.
    pub fn from_range(row: usize, range: Range<usize>) -> (target: Self)
        requires
            range.start <= range.end,
            range.end - range.start == D,
        ensures
            target.0@ == wires_of_range(row, range.start, range.end),
    {
        let mut targets = [Target::wire(row, range.start);D];
        for k in 0..D
            invariant
                range.start + D == range.end,
                forall|j: int|
                    0 <= j < k ==> #[trigger] targets[j] == (Target::Wire {
                        row,
                        column: (range.start + j) as usize,
                    }),
        {
            targets[k] = Target::wire(row, range.start + k);
        }
        assert(targets@ =~= wires_of_range(row, range.start, range.end));
        ExtensionTarget(targets)
    }
}

impl<const D: usize> ExtensionAlgebraTarget<D> {
    pub fn to_ext_target_array(&self) -> (targets: [ExtensionTarget<D>; D])
        ensures
            targets == self.0,
    {
        self.0
    }
}

} // verus!

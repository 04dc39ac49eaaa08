//! Where a gate puts the residuals of its constraints.

use crate::field::types::PrimeField64;
use vstd::prelude::*;

verus! {

/// Collects the residuals of the constraints of a gate, in the order in
/// which they are given.
pub struct StridedConstraintConsumer<F: PrimeField64> {
    pub terms: Vec<F>,
}

impl<F: PrimeField64> StridedConstraintConsumer<F> {
    pub fn new() -> (consumer: Self)
        ensures
            consumer.terms@.len() == 0,
    {
        StridedConstraintConsumer { terms: Vec::new() }
    }

    /// Emit one constraint.
    pub fn one(&mut self, constraint: F)
        ensures
            final(self).terms@ == old(self).terms@.push(constraint),
    {
        self.terms.push(constraint);
    }

    /// Emit several constraints, in order.
    pub fn many(&mut self, constraints: &[F])
        ensures
            final(self).terms@ == old(self).terms@ + constraints@,
    {
        for n in 0..constraints.len()
            invariant
                self.terms@ == old(self).terms@ + constraints@.subrange(0, n as int),
        {
            self.terms.push(constraints[n]);
            assert(constraints@.subrange(0, n + 1) =~= constraints@.subrange(0, n as int).push(
                constraints@[n as int],
            ));
        }
        assert(constraints@.subrange(0, constraints@.len() as int) =~= constraints@);
    }
}

} // verus!

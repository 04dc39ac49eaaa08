//! The places of a circuit that hold one field element each.

use core::ops::Range;
use vstd::prelude::*;

verus! {

/// A place that holds one field element: a wire of a row of the circuit,
/// or a virtual target that belongs to no row.
#[derive(Copy, Clone, Debug, PartialEq, Eq, Structural)]
pub enum Target {
    Wire { row: usize, column: usize },
    VirtualTarget { index: usize },
}

/// A target that holds 0 or 1.
#[derive(Copy, Clone, Debug, PartialEq, Eq, Structural)]
pub struct BoolTarget {
    pub target: Target,
}

/// What an assignment of values gives to twelve targets.
pub open spec fn target_values(values: Map<Target, int>, targets: [Target; 12]) -> Seq<int> {
    Seq::new(12, |i: int| values[targets[i]])
}

/// The wires of the range `start..end` of columns of a row, in order.
pub open spec fn wires_of_range(row: usize, start: usize, end: usize) -> Seq<Target> {
    Seq::new(
        (end - start) as nat,
        |k: int| Target::Wire { row, column: (start + k) as usize },
    )
}

impl Target {
    pub fn wire(row: usize, column: usize) -> (target: Self)
        ensures
            target == (Target::Wire { row, column }),
    {
        Target::Wire { row, column }
    }

    /// The wires of a range of columns of a row, in order.
    pub fn wires_from_range(row: usize, range: Range<usize>) -> (targets: Vec<Target>)
        requires
            range.start <= range.end,
        ensures
            targets@ == wires_of_range(row, range.start, range.end),
    {
        let mut targets: Vec<Target> = Vec::new();
        let mut column = range.start;
        while column < range.end
            invariant
                range.start <= column <= range.end,
                targets@ == wires_of_range(row, range.start, column),
            decreases range.end - column,
        {
            targets.push(Target::wire(row, column));
            column += 1;
            assert(targets@ =~= wires_of_range(row, range.start, column));
        }
        targets
    }
}

} // verus!

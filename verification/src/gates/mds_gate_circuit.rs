//! The rows that the full linear layer on targets of the extension algebra
//! and the constraints of the MDS gate add to a circuit.

use crate::field::extension::ext_embed;
use crate::iop::ext_target::{
    algebra_target_of, ext_target_of, row_target, rows_target, ExtensionAlgebraTarget,
    ExtensionTarget,
};
use crate::plonk::circuit_builder::{
    algebra_mul_add_rows, algebra_rows, constant_rows, constant_targets, Operation,
};
use vstd::prelude::*;

verus! {

/// The rows of the 4x4 matrix on the four lanes of group `g`, from row
/// `first` on, given the targets of the numbers 2 and 4: eight
/// operations of `D` rows each.
pub open spec fn algebra_group_rows<const D: usize>(
    first: int,
    state: Seq<ExtensionAlgebraTarget<D>>,
    two: ExtensionTarget<D>,
    four: ExtensionTarget<D>,
    g: int,
) -> Seq<Operation<D>> {
    let t0 = rows_target::<D>(first);
    let t1 = rows_target::<D>(first + D);
    let t2 = rows_target::<D>(first + 2 * D);
    let t3 = rows_target::<D>(first + 3 * D);
    let t4 = rows_target::<D>(first + 4 * D);
    let t5 = rows_target::<D>(first + 5 * D);
    algebra_rows(state[4 * g], state[4 * g + 1], false, D as int) + algebra_rows(
        state[4 * g + 2],
        state[4 * g + 3],
        false,
        D as int,
    ) + algebra_mul_add_rows(two, state[4 * g + 1], t1, D as int) + algebra_mul_add_rows(
        two,
        state[4 * g + 3],
        t0,
        D as int,
    ) + algebra_mul_add_rows(four, t1, t3, D as int) + algebra_mul_add_rows(
        four,
        t0,
        t2,
        D as int,
    ) + algebra_rows(t3, t5, false, D as int) + algebra_rows(t2, t4, false, D as int)
}

/// Eight operations of `D` rows each, added one after the other, are the
/// rows of `algebra_group_rows`.
pub proof fn lemma_algebra_group_rows<const D: usize>(
    rows: Seq<Seq<Operation<D>>>,
    state: Seq<ExtensionAlgebraTarget<D>>,
    two: ExtensionTarget<D>,
    four: ExtensionTarget<D>,
    g: int,
)
    requires
        rows.len() == 9,
        rows[1] == rows[0] + algebra_rows(state[4 * g], state[4 * g + 1], false, D as int),
        rows[2] == rows[1] + algebra_rows(state[4 * g + 2], state[4 * g + 3], false, D as int),
        rows[3] == rows[2] + algebra_mul_add_rows(
            two,
            state[4 * g + 1],
            rows_target::<D>(rows[1].len() as int),
            D as int,
        ),
        rows[4] == rows[3] + algebra_mul_add_rows(
            two,
            state[4 * g + 3],
            rows_target::<D>(rows[0].len() as int),
            D as int,
        ),
        rows[5] == rows[4] + algebra_mul_add_rows(
            four,
            rows_target::<D>(rows[1].len() as int),
            rows_target::<D>(rows[3].len() as int),
            D as int,
        ),
        rows[6] == rows[5] + algebra_mul_add_rows(
            four,
            rows_target::<D>(rows[0].len() as int),
            rows_target::<D>(rows[2].len() as int),
            D as int,
        ),
        rows[7] == rows[6] + algebra_rows(
            rows_target::<D>(rows[3].len() as int),
            rows_target::<D>(rows[5].len() as int),
            false,
            D as int,
        ),
        rows[8] == rows[7] + algebra_rows(
            rows_target::<D>(rows[2].len() as int),
            rows_target::<D>(rows[4].len() as int),
            false,
            D as int,
        ),
    ensures
        rows[8] == rows[0] + algebra_group_rows(rows[0].len() as int, state, two, four, g),
        rows[4].len() == rows[0].len() + 4 * D,
        rows[5].len() == rows[0].len() + 5 * D,
        rows[6].len() == rows[0].len() + 6 * D,
        rows[7].len() == rows[0].len() + 7 * D,
{
    let first = rows[0].len() as int;
    assert(rows[1].len() == first + D);
    assert(rows[2].len() == first + 2 * D);
    assert(rows[3].len() == first + 3 * D);
    assert(rows[4].len() == first + 4 * D);
    assert(rows[5].len() == first + 5 * D);
    assert(rows[6].len() == first + 6 * D);
    assert(rows[7].len() == first + 7 * D);
    assert(rows[8] =~= rows[0] + algebra_group_rows(first, state, two, four, g));
}

/// The four results of the rows of `algebra_group_rows`.
pub open spec fn algebra_group_results<const D: usize>(first: int) -> Seq<
    ExtensionAlgebraTarget<D>,
> {
    seq![
        rows_target::<D>(first + 6 * D),
        rows_target::<D>(first + 5 * D),
        rows_target::<D>(first + 7 * D),
        rows_target::<D>(first + 4 * D),
    ]
}

/// The rows of a circuit and the results after the 4x4 matrix on the
/// first `n` groups.
pub open spec fn algebra_groups_rows<const D: usize>(
    rows: Seq<Operation<D>>,
    state: Seq<ExtensionAlgebraTarget<D>>,
    two: ExtensionTarget<D>,
    four: ExtensionTarget<D>,
    n: int,
) -> (Seq<Operation<D>>, Seq<ExtensionAlgebraTarget<D>>)
    decreases n,
{
    if n <= 0 {
        (rows, Seq::empty())
    } else {
        let earlier = algebra_groups_rows(rows, state, two, four, n - 1);
        (
            earlier.0 + algebra_group_rows(earlier.0.len() as int, state, two, four, n - 1),
            earlier.1 + algebra_group_results(earlier.0.len() as int),
        )
    }
}

/// The rows of a circuit and the sums after the first `n` sums over the
/// three groups: two additions each.
pub open spec fn algebra_stored_rows<const D: usize>(
    rows: Seq<Operation<D>>,
    mixed: Seq<ExtensionAlgebraTarget<D>>,
    n: int,
) -> (Seq<Operation<D>>, Seq<ExtensionAlgebraTarget<D>>)
    decreases n,
{
    if n <= 0 {
        (rows, Seq::empty())
    } else {
        let earlier = algebra_stored_rows(rows, mixed, n - 1);
        let first = earlier.0.len() as int;
        (
            earlier.0 + algebra_rows(mixed[n - 1], mixed[4 + n - 1], false, D as int)
                + algebra_rows(rows_target::<D>(first), mixed[8 + n - 1], false, D as int),
            earlier.1.push(rows_target::<D>(first + D)),
        )
    }
}

/// The rows of a circuit and the results after the sums were added to the
/// first `n` lanes.
pub open spec fn algebra_final_rows<const D: usize>(
    rows: Seq<Operation<D>>,
    mixed: Seq<ExtensionAlgebraTarget<D>>,
    stored: Seq<ExtensionAlgebraTarget<D>>,
    n: int,
) -> (Seq<Operation<D>>, Seq<ExtensionAlgebraTarget<D>>)
    decreases n,
{
    if n <= 0 {
        (rows, Seq::empty())
    } else {
        let earlier = algebra_final_rows(rows, mixed, stored, n - 1);
        (
            earlier.0 + algebra_rows(mixed[n - 1], stored[(n - 1) % 4], false, D as int),
            earlier.1.push(rows_target::<D>(earlier.0.len() as int)),
        )
    }
}

/// The rows of a circuit after the full linear layer on targets of the
/// extension algebra, and its results: the rows of a zero and of the
/// numbers 2 and 4, the rows of the three groups, of the four sums, and
/// of the twelve lanes.
pub open spec fn mds_layer_algebra_rows<const D: usize>(
    rows: Seq<Operation<D>>,
    state: Seq<ExtensionAlgebraTarget<D>>,
) -> (Seq<Operation<D>>, Seq<ExtensionAlgebraTarget<D>>) {
    let constants = rows + constant_rows(ext_embed(0, D as nat), D as int) + constant_rows(
        ext_embed(2, D as nat),
        D as int,
    ) + constant_rows(ext_embed(4, D as nat), D as int);
    let two = ext_target_of::<D>(constant_targets(rows.len() + D, D as int));
    let four = ext_target_of::<D>(constant_targets(rows.len() + 2 * D, D as int));
    let groups = algebra_groups_rows(constants, state, two, four, 3);
    let stored = algebra_stored_rows(groups.0, groups.1, 4);
    algebra_final_rows(stored.0, groups.1, stored.1, 12)
}

/// The targets of the extension algebra made of the twelve blocks of `D`
/// wires of a row of extension targets that start at wire `start`.
pub open spec fn wire_algebra_targets<const D: usize>(
    wires: Seq<ExtensionTarget<D>>,
    start: int,
) -> Seq<ExtensionAlgebraTarget<D>> {
    Seq::new(
        12,
        |i: int| algebra_target_of(Seq::new(D as nat, |a: int| wires[start + i * D + a])),
    )
}

/// The rows of a circuit and the residuals after the constraints of the
/// first `n` lanes: for each lane the rows of the output wires minus the
/// computed outputs.
pub open spec fn residual_rows<const D: usize>(
    rows: Seq<Operation<D>>,
    outputs: Seq<ExtensionAlgebraTarget<D>>,
    computed: Seq<ExtensionAlgebraTarget<D>>,
    n: int,
) -> (Seq<Operation<D>>, Seq<ExtensionTarget<D>>)
    decreases n,
{
    if n <= 0 {
        (rows, Seq::empty())
    } else {
        let earlier = residual_rows(rows, outputs, computed, n - 1);
        (
            earlier.0 + algebra_rows(outputs[n - 1], computed[n - 1], true, D as int),
            earlier.1 + Seq::new(D as nat, |a: int| row_target::<D>(earlier.0.len() + a)),
        )
    }
}

/// The rows of a circuit after the constraints of an MDS gate on a row of
/// extension targets, and the residuals: the rows of the full linear
/// layer on the input wires, then those of the residuals.
pub open spec fn mds_gate_constraint_rows<const D: usize>(
    rows: Seq<Operation<D>>,
    wires: Seq<ExtensionTarget<D>>,
) -> (Seq<Operation<D>>, Seq<ExtensionTarget<D>>) {
    let layer = mds_layer_algebra_rows(rows, wire_algebra_targets(wires, 0));
    residual_rows(layer.0, wire_algebra_targets(wires, 12 * D), layer.1, 12)
}

} // verus!

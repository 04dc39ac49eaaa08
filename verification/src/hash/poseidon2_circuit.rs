//! The rows that the layers of the permutation add to a circuit.

use crate::field::extension::ext_embed;
use crate::hash::poseidon2_spec::round_constant;
use crate::iop::ext_target::{ext_target_of, row_target, ExtensionTarget};
use crate::iop::target::Target;
use crate::plonk::circuit_builder::{
    add_many_rows, add_many_target, constant_rows, constant_targets, converted_targets,
    exp_u64_rows, Operation,
};
use vstd::prelude::*;

verus! {

/// The rows of a circuit and the state after the constant layer of a
/// round on the first `n` lanes: for each lane the rows of its round
/// constant, then the row that adds it to the lane.
pub open spec fn constant_layer_rows<const D: usize>(
    rows: Seq<Operation<D>>,
    state: Seq<ExtensionTarget<D>>,
    round: int,
    n: int,
) -> (Seq<Operation<D>>, Seq<ExtensionTarget<D>>)
    decreases n,
{
    if n <= 0 {
        (rows, state)
    } else {
        let earlier = constant_layer_rows(rows, state, round, n - 1);
        let constant = ext_target_of::<D>(constant_targets(earlier.0.len() as int, D as int));
        (
            (earlier.0 + constant_rows(
                ext_embed(round_constant(round, n - 1), D as nat),
                D as int,
            )).push(Operation::Add { x: earlier.1[n - 1], y: constant }),
            earlier.1.update(n - 1, row_target(earlier.0.len() + D)),
        )
    }
}

/// The rows of a circuit and the state after the S-box layer on the
/// first `n` lanes: for each lane the rows of its seventh power.
pub open spec fn sbox_layer_rows<const D: usize>(
    rows: Seq<Operation<D>>,
    state: Seq<ExtensionTarget<D>>,
    n: int,
) -> (Seq<Operation<D>>, Seq<ExtensionTarget<D>>)
    decreases n,
{
    if n <= 0 {
        (rows, state)
    } else {
        let earlier = sbox_layer_rows(rows, state, n - 1);
        let power = exp_u64_rows(earlier.0, earlier.1[n - 1], 7);
        (power.0, earlier.1.update(n - 1, power.1))
    }
}

/// The rows of a circuit after the sum of the first `n` lanes of a state,
/// `n` at least 1, and the target of the sum: lane 0, and one row for
/// each further lane that adds it.
pub open spec fn partial_sum_rows<const D: usize>(
    rows: Seq<Operation<D>>,
    state: Seq<ExtensionTarget<D>>,
    n: int,
) -> (Seq<Operation<D>>, ExtensionTarget<D>)
    decreases n,
{
    if n <= 1 {
        (rows, state[0])
    } else {
        let earlier = partial_sum_rows(rows, state, n - 1);
        (
            earlier.0.push(Operation::Add { x: earlier.1, y: state[n - 1] }),
            row_target(earlier.0.len() as int),
        )
    }
}

/// The rows of a circuit and the results after the first `n` lanes of the
/// partial-round linear layer, given the target of the sum of the lanes:
/// for each lane the rows of its diagonal entry, then the row that
/// multiplies the lane by it and adds the sum.
pub open spec fn partial_lane_rows<const D: usize>(
    rows: Seq<Operation<D>>,
    diag: Seq<int>,
    state: Seq<ExtensionTarget<D>>,
    sum: ExtensionTarget<D>,
    n: int,
) -> (Seq<Operation<D>>, Seq<ExtensionTarget<D>>)
    decreases n,
{
    if n <= 0 {
        (rows, Seq::empty())
    } else {
        let earlier = partial_lane_rows(rows, diag, state, sum, n - 1);
        let entry = ext_target_of::<D>(constant_targets(earlier.0.len() as int, D as int));
        (
            (earlier.0 + constant_rows(ext_embed(diag[n - 1], D as nat), D as int)).push(
                Operation::MulAdd { x: state[n - 1], y: entry, z: sum },
            ),
            earlier.1.push(row_target(earlier.0.len() + D)),
        )
    }
}

/// The rows of a circuit after the partial-round linear layer, and its
/// results: the rows of the sum of the lanes, the rows of a zero, and the
/// rows of the twelve lanes.
pub open spec fn mds_partial_layer_rows<const D: usize>(
    rows: Seq<Operation<D>>,
    diag: Seq<int>,
    state: Seq<ExtensionTarget<D>>,
) -> (Seq<Operation<D>>, Seq<ExtensionTarget<D>>) {
    let sum = partial_sum_rows(rows, state, 12);
    partial_lane_rows(
        sum.0 + constant_rows(ext_embed(0, D as nat), D as int),
        diag,
        state,
        sum.1,
        12,
    )
}

/// The two rows of `a * x + y` for a target `a` of the field, from row
/// `first` on: the zero that makes `a` an element of the extension, and
/// the product and sum.
pub open spec fn scalar_mul_add_rows<const D: usize>(
    first: int,
    a: Target,
    x: ExtensionTarget<D>,
    y: ExtensionTarget<D>,
) -> Seq<Operation<D>> {
    seq![
        Operation::Constant { value: 0 },
        Operation::MulAdd {
            x: ext_target_of(converted_targets(a, first, D as int)),
            y: x,
            z: y,
        },
    ]
}

/// The twelve rows of the 4x4 matrix on the four lanes of group `g`, from
/// row `first` on, given the targets of the numbers 2 and 4.
pub open spec fn mds_group_rows<const D: usize>(
    first: int,
    state: Seq<ExtensionTarget<D>>,
    two: Target,
    four: Target,
    g: int,
) -> Seq<Operation<D>> {
    let t0 = row_target::<D>(first);
    let t1 = row_target::<D>(first + 1);
    let t2 = row_target::<D>(first + 3);
    let t3 = row_target::<D>(first + 5);
    let t4 = row_target::<D>(first + 7);
    let t5 = row_target::<D>(first + 9);
    seq![
        Operation::Add { x: state[4 * g], y: state[4 * g + 1] },
        Operation::Add { x: state[4 * g + 2], y: state[4 * g + 3] },
    ] + scalar_mul_add_rows(first + 2, two, state[4 * g + 1], t1) + scalar_mul_add_rows(
        first + 4,
        two,
        state[4 * g + 3],
        t0,
    ) + scalar_mul_add_rows(first + 6, four, t1, t3) + scalar_mul_add_rows(first + 8, four, t0, t2)
        + seq![Operation::Add { x: t3, y: t5 }, Operation::Add { x: t2, y: t4 }]
}

/// Eight operations, added one after the other, are the rows of
/// `mds_group_rows`.
pub proof fn lemma_mds_group_rows<const D: usize>(
    rows: Seq<Seq<Operation<D>>>,
    state: Seq<ExtensionTarget<D>>,
    two: Target,
    four: Target,
    g: int,
)
    requires
        rows.len() == 9,
        rows[1] == rows[0].push(Operation::Add { x: state[4 * g], y: state[4 * g + 1] }),
        rows[2] == rows[1].push(Operation::Add { x: state[4 * g + 2], y: state[4 * g + 3] }),
        rows[3] == rows[2] + scalar_mul_add_rows(
            rows[2].len() as int,
            two,
            state[4 * g + 1],
            row_target::<D>(rows[1].len() as int),
        ),
        rows[4] == rows[3] + scalar_mul_add_rows(
            rows[3].len() as int,
            two,
            state[4 * g + 3],
            row_target::<D>(rows[0].len() as int),
        ),
        rows[5] == rows[4] + scalar_mul_add_rows(
            rows[4].len() as int,
            four,
            row_target::<D>(rows[1].len() as int),
            row_target::<D>(rows[3].len() as int + 1),
        ),
        rows[6] == rows[5] + scalar_mul_add_rows(
            rows[5].len() as int,
            four,
            row_target::<D>(rows[0].len() as int),
            row_target::<D>(rows[2].len() as int + 1),
        ),
        rows[7] == rows[6].push(
            Operation::Add {
                x: row_target::<D>(rows[3].len() as int + 1),
                y: row_target::<D>(rows[5].len() as int + 1),
            },
        ),
        rows[8] == rows[7].push(
            Operation::Add {
                x: row_target::<D>(rows[2].len() as int + 1),
                y: row_target::<D>(rows[4].len() as int + 1),
            },
        ),
    ensures
        rows[8] == rows[0] + mds_group_rows(rows[0].len() as int, state, two, four, g),
        rows[4].len() == rows[0].len() + 6,
        rows[5].len() == rows[0].len() + 8,
        rows[6].len() == rows[0].len() + 10,
        rows[7].len() == rows[0].len() + 11,
{
    let first = rows[0].len() as int;
    assert(rows[1].len() == first + 1);
    assert(rows[2].len() == first + 2);
    assert(rows[3].len() == first + 4);
    assert(rows[4].len() == first + 6);
    assert(rows[5].len() == first + 8);
    assert(rows[6].len() == first + 10);
    assert(rows[7].len() == first + 11);
    assert(rows[8] =~= rows[0] + mds_group_rows(first, state, two, four, g));
}

/// The four results of the rows of `mds_group_rows`.
pub open spec fn mds_group_results<const D: usize>(first: int) -> Seq<ExtensionTarget<D>> {
    seq![
        row_target::<D>(first + 10),
        row_target::<D>(first + 9),
        row_target::<D>(first + 11),
        row_target::<D>(first + 7),
    ]
}

/// The rows of a circuit and the results after the 4x4 matrix on the
/// first `n` groups.
pub open spec fn mds_groups_rows<const D: usize>(
    rows: Seq<Operation<D>>,
    state: Seq<ExtensionTarget<D>>,
    two: Target,
    four: Target,
    n: int,
) -> (Seq<Operation<D>>, Seq<ExtensionTarget<D>>)
    decreases n,
{
    if n <= 0 {
        (rows, Seq::empty())
    } else {
        let earlier = mds_groups_rows(rows, state, two, four, n - 1);
        (
            earlier.0 + mds_group_rows(earlier.0.len() as int, state, two, four, n - 1),
            earlier.1 + mds_group_results(earlier.0.len() as int),
        )
    }
}

/// The rows of a circuit and the sums after the first `n` sums over the
/// three groups, each made by `add_many_extension`.
pub open spec fn mds_stored_rows<const D: usize>(
    rows: Seq<Operation<D>>,
    mixed: Seq<ExtensionTarget<D>>,
    n: int,
) -> (Seq<Operation<D>>, Seq<ExtensionTarget<D>>)
    decreases n,
{
    if n <= 0 {
        (rows, Seq::empty())
    } else {
        let earlier = mds_stored_rows(rows, mixed, n - 1);
        (
            earlier.0 + add_many_rows(
                earlier.0.len() as int,
                seq![mixed[n - 1], mixed[4 + n - 1], mixed[8 + n - 1]],
                3,
            ),
            earlier.1.push(add_many_target(earlier.0.len() as int, 3)),
        )
    }
}

/// The rows of a circuit and the results after the sums were added to the
/// first `n` lanes.
pub open spec fn mds_final_rows<const D: usize>(
    rows: Seq<Operation<D>>,
    mixed: Seq<ExtensionTarget<D>>,
    stored: Seq<ExtensionTarget<D>>,
    n: int,
) -> (Seq<Operation<D>>, Seq<ExtensionTarget<D>>)
    decreases n,
{
    if n <= 0 {
        (rows, Seq::empty())
    } else {
        let earlier = mds_final_rows(rows, mixed, stored, n - 1);
        (
            earlier.0.push(Operation::Add { x: mixed[n - 1], y: stored[(n - 1) % 4] }),
            earlier.1.push(row_target(earlier.0.len() as int)),
        )
    }
}

/// The rows of a circuit after the full linear layer as rows of
/// arithmetic, and its results: the rows of a zero and of the numbers 2
/// and 4, the rows of the three groups, of the four sums, and of the
/// twelve lanes.
pub open spec fn mds_layer_rows<const D: usize>(
    rows: Seq<Operation<D>>,
    state: Seq<ExtensionTarget<D>>,
) -> (Seq<Operation<D>>, Seq<ExtensionTarget<D>>) {
    let constants = (rows + constant_rows(ext_embed(0, D as nat), D as int)).push(
        Operation::Constant { value: 2 },
    ).push(Operation::Constant { value: 4 });
    let two = Target::Wire { row: (rows.len() + D) as usize, column: 0 };
    let four = Target::Wire { row: (rows.len() + D + 1) as usize, column: 0 };
    let groups = mds_groups_rows(constants, state, two, four, 3);
    let stored = mds_stored_rows(groups.0, groups.1, 4);
    mds_final_rows(stored.0, groups.1, stored.1, 12)
}

} // verus!

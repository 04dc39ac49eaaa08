//! The MDS gate: one full linear layer of the permutation as a gate of a
//! circuit over the extension of degree `D`.

use core::marker::PhantomData;
use core::ops::Range;
use crate::field::algebra::ExtensionAlgebra;
use crate::field::extension::{ext_embed, ext_sub, Extension};
use crate::field::types::{field_sub, PrimeField64, ORDER};
use crate::gates::gate::{decimal_digits, ends_with, is_digit, lemma_decimal_digits, Gate};
use crate::gates::mds_gate_circuit::{
    algebra_final_rows, algebra_group_results, algebra_group_rows, algebra_groups_rows,
    algebra_stored_rows, lemma_algebra_group_rows, mds_gate_constraint_rows, mds_layer_algebra_rows,
    residual_rows, wire_algebra_targets,
};
use crate::gates::util::StridedConstraintConsumer;
use crate::hash::mds_matrix::{
    algebra_lane, lemma_mds_block_ext_added_twice, lemma_mds_block_ext_product_left,
    lemma_mds_two_stage_ext, mds_group_algebra, mds_group_ext, mds_layer_algebra_spec,
    mds_layer_field_spec, mds_stored_algebra, mds_two_stage_ext,
};
use crate::hash::poseidon2::{Poseidon, SPONGE_WIDTH};
use crate::hash::poseidon2_spec::ext_state_values;
use crate::iop::ext_target::{
    algebra_state_target_values, ext_algebra_target_value, ext_target_value,
    lemma_algebra_target_of, lemma_ext_target_of, ExtensionAlgebraTarget, ExtensionTarget,
};
use crate::iop::target::{wires_of_range, Target};
use crate::iop::witness::{assigns_all, extension_entries, GeneratedValues, PartitionWitness};
use crate::plonk::circuit_builder::{constant_rows, CircuitBuilder, Operation};
use crate::plonk::vars::{
    base_wire_values, ext_wire_values, target_wire_values, EvaluationTargets, EvaluationVars,
    EvaluationVarsBase,
};
use vstd::prelude::*;

verus! {

/// The elements of the extension that an assignment of values gives to
/// the twelve blocks of `d` wires of a row that start at column `start`.
pub open spec fn row_blocks(values: Map<Target, int>, row: usize, start: int, d: nat) -> Seq<
    Seq<int>,
> {
    Seq::new(
        12,
        |i: int|
            Seq::new(d, |k: int| values[Target::Wire { row, column: (start + i * d + k) as usize }]),
    )
}

/// What an assignment of values gives to the input wires of an MDS gate
/// in a row.
pub open spec fn mds_gate_inputs(values: Map<Target, int>, row: usize, d: nat) -> Seq<Seq<int>> {
    row_blocks(values, row, 0, d)
}

/// What an assignment of values gives to the output wires of an MDS gate
/// in a row.
pub open spec fn mds_gate_outputs(values: Map<Target, int>, row: usize, d: nat) -> Seq<Seq<int>> {
    row_blocks(values, row, 12 * d as int, d)
}

/// The connections of lane `i` of a state to the wires of input lane `i`
/// of an MDS gate in a row, coefficient by coefficient.
pub open spec fn mds_gate_lane_connections<const D: usize>(
    state: [ExtensionTarget<D>; 12],
    row: usize,
    i: int,
) -> Seq<(Target, Target)> {
    Seq::new(
        D as nat,
        |k: int| (state[i].0[k], Target::Wire { row, column: (i * D + k) as usize }),
    )
}

/// The connections of the first `n` lanes of a state to the input wires
/// of an MDS gate in a row, lane by lane.
pub open spec fn mds_gate_connections<const D: usize>(
    state: [ExtensionTarget<D>; 12],
    row: usize,
    n: int,
) -> Seq<(Target, Target)>
    decreases n,
{
    if n <= 0 {
        Seq::empty()
    } else {
        mds_gate_connections(state, row, n - 1) + mds_gate_lane_connections(state, row, n - 1)
    }
}

/// The relation of an MDS gate in a row: the output wires hold the full
/// linear layer of what the input wires hold.
pub open spec fn mds_gate_holds(values: Map<Target, int>, row: usize, d: nat) -> bool {
    mds_gate_outputs(values, row, d) == mds_layer_field_spec(mds_gate_inputs(values, row, d), d)
}

/// The MDS gate over the field `F` and its extension of degree `D`.
#[derive(Debug, Default)]
pub struct PoseidonMdsGate<F: PrimeField64, const D: usize>(pub PhantomData<F>);

impl<F: PrimeField64, const D: usize> PoseidonMdsGate<F, D> {
    /// A gate of this kind. It holds no data: all gates of this kind and
    /// degree are the same.
    pub fn new() -> (gate: Self)
        ensures
            gate == PoseidonMdsGate::<F, D>(PhantomData),
    {
        PoseidonMdsGate(PhantomData)
    }

    /// What a row of a circuit holds that holds this gate.
    pub fn operation(&self) -> (operation: Operation<D>)
        ensures
            operation == Operation::<D>::PoseidonMds,
    {
        Operation::PoseidonMds
    }

    /// The number of wires of a row that this gate uses: `D` for each
    /// input lane and each output lane.
    pub fn num_wires(&self) -> (n: usize)
        requires
            2 * SPONGE_WIDTH * D <= usize::MAX,
        ensures
            n == 2 * D * SPONGE_WIDTH,
    {
        assert(2 * D * SPONGE_WIDTH == 2 * SPONGE_WIDTH * D) by (nonlinear_arith);
        assert(2 * D <= 2 * SPONGE_WIDTH * D) by (nonlinear_arith);
        2 * D * SPONGE_WIDTH
    }

    /// The wires of input lane `i`: the `i`th block of `D` wires.
    pub fn wires_input(i: usize) -> (wires: Range<usize>)
        requires
            i < SPONGE_WIDTH,
            2 * SPONGE_WIDTH * D <= usize::MAX,
        ensures
            wires.start == i * D,
            wires.end == (i + 1) * D,
            wires.end == wires.start + D,
            wires.end <= SPONGE_WIDTH * D,
    {
        assert((i + 1) * D <= SPONGE_WIDTH * D <= 2 * SPONGE_WIDTH * D) by (nonlinear_arith)
            requires
                i < SPONGE_WIDTH,
        ;
        assert((i + 1) * D == i * D + D) by (nonlinear_arith);
        i * D..(i + 1) * D
    }

    /// The wires of output lane `i`: the `i`th block of `D` wires after
    /// those of the inputs.
    pub fn wires_output(i: usize) -> (wires: Range<usize>)
        requires
            i < SPONGE_WIDTH,
            2 * SPONGE_WIDTH * D <= usize::MAX,
        ensures
            wires.start == (SPONGE_WIDTH + i) * D,
            wires.end == (SPONGE_WIDTH + i + 1) * D,
            wires.end == wires.start + D,
            wires.start == 12 * D + i * D,
            wires.end <= 2 * SPONGE_WIDTH * D,
    {
        assert((SPONGE_WIDTH + i + 1) * D <= 2 * SPONGE_WIDTH * D) by (nonlinear_arith)
            requires
                i < SPONGE_WIDTH,
        ;
        assert((SPONGE_WIDTH + i + 1) * D == (SPONGE_WIDTH + i) * D + D) by (nonlinear_arith);
        assert((SPONGE_WIDTH + i) * D == 12 * D + i * D) by (nonlinear_arith);
        (SPONGE_WIDTH + i) * D..(SPONGE_WIDTH + i + 1) * D
    }
}

/// Where the blocks of `d` wires begin and end.
proof fn lemma_block_bounds(j: int, i: int, a: int, d: int)
    requires
        0 <= j <= i,
        0 <= a < d,
    ensures
        0 * d == 0,
        (i + 1) * d == i * d + d,
        0 <= j * d,
        j < i ==> j * d + a < i * d,
{
    assert(0 * d == 0) by (nonlinear_arith);
    assert((i + 1) * d == i * d + d) by (nonlinear_arith);
    assert(0 <= j * d) by (nonlinear_arith)
        requires
            0 <= j,
            0 < d,
    ;
    if j < i {
        assert(j * d + a < i * d) by (nonlinear_arith)
            requires
                0 <= j < i,
                0 <= a < d,
        ;
    }
}

/// The components of the twelve lanes of a state of elements of the
/// extension algebra.
pub open spec fn algebra_state_values<F: PrimeField64, const D: usize>(
    state: [ExtensionAlgebra<F, D>; 12],
) -> Seq<Seq<Seq<int>>> {
    Seq::new(12, |i: int| state[i]@)
}

/// The elements of the extension algebra that the twelve blocks of `d`
/// wires of a row hold that start at wire `start`, each wire holding an
/// element of the extension.
pub open spec fn wire_blocks_algebra(wires: Seq<Seq<int>>, start: int, d: nat) -> Seq<
    Seq<Seq<int>>,
> {
    Seq::new(12, |i: int| Seq::new(d, |a: int| wires[start + i * d + a]))
}

/// The elements of the extension that the twelve blocks of `d` wires of a
/// row hold that start at wire `start`, each wire holding an element of
/// the field.
pub open spec fn wire_blocks_base(wires: Seq<int>, start: int, d: nat) -> Seq<Seq<int>> {
    Seq::new(12, |i: int| Seq::new(d, |k: int| wires[start + i * d + k]))
}

/// The residual of lane `i` and component `a` of an MDS gate on a row of
/// elements of the extension: the output wire minus the full linear layer
/// of the input wires.
pub open spec fn mds_gate_residual(wires: Seq<Seq<int>>, d: nat, i: int, a: int) -> Seq<int> {
    ext_sub(
        wires[12 * d + i * d + a],
        mds_layer_algebra_spec(wire_blocks_algebra(wires, 0, d), d)[i][a],
    )
}

/// The residual of lane `i` and coefficient `k` of an MDS gate on a row
/// of elements of the field.
pub open spec fn mds_gate_residual_base(wires: Seq<int>, d: nat, i: int, k: int) -> int {
    field_sub(
        wires[12 * d + i * d + k],
        mds_layer_field_spec(wire_blocks_base(wires, 0, d), d)[i][k],
    )
}

/// The 4x4 matrix on the four lanes of group `g` of a state of targets of
/// the extension algebra, as rows of arithmetic, given the targets of the
/// numbers 2 and 4.
#[verifier::rlimit(80)]
fn algebra_group_circuit<F: PrimeField64, const D: usize>(
    builder: &mut CircuitBuilder<F, D>,
    state: &[ExtensionAlgebraTarget<D>; 12],
    two: ExtensionTarget<D>,
    four: ExtensionTarget<D>,
    g: usize,
) -> (group: [ExtensionAlgebraTarget<D>; 4])
    requires
        g < 3,
    ensures
        final(builder).extends(*old(builder)),
        final(builder).gate_rows() == old(builder).gate_rows(),
        final(builder).copy_constraints == old(builder).copy_constraints,
        final(builder).virtual_target_index == old(builder).virtual_target_index,
        final(builder).gate_instances@ == old(builder).gate_instances@ + algebra_group_rows(
            old(builder).gate_instances@.len() as int,
            state@,
            two,
            four,
            g as int,
        ),
        group@ == algebra_group_results::<D>(old(builder).gate_instances@.len() as int),
        forall|values: Map<Target, int>| #[trigger]
            final(builder).satisfied_by(values) ==> {
                &&& old(builder).satisfied_by(values)
                &&& ext_target_value(values, two) == ext_embed(2, D as nat) && ext_target_value(
                    values,
                    four,
                ) == ext_embed(4, D as nat) ==> forall|k: int|
                    0 <= k < 4 ==> ext_algebra_target_value(values, #[trigger] group[k])
                        == mds_group_algebra(
                        algebra_state_target_values(values, *state),
                        g as int,
                        k,
                        D as nat,
                    )
            },
{
    let start_index = g * 4;
    let ghost rows0 = builder.gate_instances@;
    let t0 = builder.add_ext_algebra(state[start_index], state[start_index + 1]);
    let ghost rows1 = builder.gate_instances@;
    let t1 = builder.add_ext_algebra(state[start_index + 2], state[start_index + 3]);
    let ghost rows2 = builder.gate_instances@;
    let t2 = builder.scalar_mul_add_ext_algebra(two, state[start_index + 1], t1);
    let ghost rows3 = builder.gate_instances@;
    let t3 = builder.scalar_mul_add_ext_algebra(two, state[start_index + 3], t0);
    let ghost rows4 = builder.gate_instances@;
    let t4 = builder.scalar_mul_add_ext_algebra(four, t1, t3);
    let ghost rows5 = builder.gate_instances@;
    let t5 = builder.scalar_mul_add_ext_algebra(four, t0, t2);
    let ghost rows6 = builder.gate_instances@;
    let r0 = builder.add_ext_algebra(t3, t5);
    let ghost rows7 = builder.gate_instances@;
    let r2 = builder.add_ext_algebra(t2, t4);
    let group = [r0, t5, r2, t4];
    proof {
        lemma_algebra_group_rows(
            seq![rows0, rows1, rows2, rows3, rows4, rows5, rows6, rows7, builder.gate_instances@],
            state@,
            two,
            four,
            g as int,
        );
        assert(group@ =~= algebra_group_results::<D>(rows0.len() as int));
        assert forall|values: Map<Target, int>| #[trigger]
            builder.satisfied_by(values) && ext_target_value(values, two) == ext_embed(
                2,
                D as nat,
            ) && ext_target_value(values, four) == ext_embed(4, D as nat) implies forall|k: int|
            0 <= k < 4 ==> ext_algebra_target_value(values, #[trigger] group[k])
                == mds_group_algebra(
                algebra_state_target_values(values, *state),
                g as int,
                k,
                D as nat,
            ) by {
            let sv = algebra_state_target_values(values, *state);
            let g = g as int;
            assert forall|a: int| 0 <= a < D implies {
                &&& ext_algebra_target_value(values, r0)[a] == mds_group_ext(
                    algebra_lane(sv, a),
                    g,
                    0,
                )
                &&& ext_algebra_target_value(values, t5)[a] == mds_group_ext(
                    algebra_lane(sv, a),
                    g,
                    1,
                )
                &&& ext_algebra_target_value(values, r2)[a] == mds_group_ext(
                    algebra_lane(sv, a),
                    g,
                    2,
                )
                &&& ext_algebra_target_value(values, t4)[a] == mds_group_ext(
                    algebra_lane(sv, a),
                    g,
                    3,
                )
            } by {
                let lane = algebra_lane(sv, a);
                assert(lane[4 * g] == ext_algebra_target_value(values, state[start_index as int])[a]);
                assert(lane[4 * g + 1] == ext_algebra_target_value(
                    values,
                    state[start_index + 1],
                )[a]);
                assert(lane[4 * g + 2] == ext_algebra_target_value(
                    values,
                    state[start_index + 2],
                )[a]);
                assert(lane[4 * g + 3] == ext_algebra_target_value(
                    values,
                    state[start_index + 3],
                )[a]);
                lemma_mds_block_ext_product_left(
                    lane[4 * g],
                    lane[4 * g + 1],
                    lane[4 * g + 2],
                    lane[4 * g + 3],
                );
            }
            assert(ext_algebra_target_value(values, r0) =~= mds_group_algebra(sv, g, 0, D as nat));
            assert(ext_algebra_target_value(values, t5) =~= mds_group_algebra(sv, g, 1, D as nat));
            assert(ext_algebra_target_value(values, r2) =~= mds_group_algebra(sv, g, 2, D as nat));
            assert(ext_algebra_target_value(values, t4) =~= mds_group_algebra(sv, g, 3, D as nat));
        }
    }
    group
}

impl<F: Poseidon, const D: usize> PoseidonMdsGate<F, D> {
    /// Same as `mds_layer` for an extension algebra of `F`.
    pub fn mds_layer_algebra(state: &[ExtensionAlgebra<F, D>; 12]) -> (result: [ExtensionAlgebra<
        F,
        D,
    >; 12])
        ensures
            algebra_state_values(result) == mds_layer_algebra_spec(
                algebra_state_values(*state),
                D as nat,
            ),
    {
        let mut result = [ExtensionAlgebra::<F, D>::zero();12];
        let mut stored = [ExtensionAlgebra::<F, D>::zero();4];
        let four = Extension::<F, D>::from_canonical_u8(4);
        let ghost sv = algebra_state_values(*state);

        // Applying cheap 4x4 MDS matrix to each 4-element part of the state
        for i in 0..3usize
            invariant
                four@ == ext_embed(4, D as nat),
                sv == algebra_state_values(*state),
                forall|j: int|
                    0 <= j < 4 * i ==> (#[trigger] result[j])@ == mds_group_algebra(
                        sv,
                        j / 4,
                        j % 4,
                        D as nat,
                    ),
        {
            let start_index = i * 4;
            let t0 = state[start_index].add(state[start_index + 1]);
            let t1 = state[start_index + 2].add(state[start_index + 3]);
            let t2 = t1.add(state[start_index + 1]).add(state[start_index + 1]);
            let t3 = t0.add(state[start_index + 3]).add(state[start_index + 3]);
            let t4 = t3.add(t1.scalar_mul(four));
            let t5 = t2.add(t0.scalar_mul(four));
            let r0 = t3.add(t5);
            let r2 = t2.add(t4);

            result[start_index] = r0;
            result[start_index + 1] = t5;
            result[start_index + 2] = r2;
            result[start_index + 3] = t4;
            proof {
                let g = i as int;
                assert forall|a: int| 0 <= a < D implies {
                    &&& r0@[a] == mds_group_ext(algebra_lane(sv, a), g, 0)
                    &&& t5@[a] == mds_group_ext(algebra_lane(sv, a), g, 1)
                    &&& r2@[a] == mds_group_ext(algebra_lane(sv, a), g, 2)
                    &&& t4@[a] == mds_group_ext(algebra_lane(sv, a), g, 3)
                } by {
                    let lane = algebra_lane(sv, a);
                    assert(lane[4 * g] == state[start_index as int]@[a]);
                    assert(lane[4 * g + 1] == state[start_index + 1]@[a]);
                    assert(lane[4 * g + 2] == state[start_index + 2]@[a]);
                    assert(lane[4 * g + 3] == state[start_index + 3]@[a]);
                    lemma_mds_block_ext_added_twice(
                        lane[4 * g],
                        lane[4 * g + 1],
                        lane[4 * g + 2],
                        lane[4 * g + 3],
                    );
                }
                assert(r0@ =~= mds_group_algebra(sv, g, 0, D as nat));
                assert(t5@ =~= mds_group_algebra(sv, g, 1, D as nat));
                assert(r2@ =~= mds_group_algebra(sv, g, 2, D as nat));
                assert(t4@ =~= mds_group_algebra(sv, g, 3, D as nat));
            }
        }

        // Applying second cheap matrix
        for i in 0..4usize
            invariant
                forall|j: int|
                    0 <= j < 12 ==> (#[trigger] result[j])@ == mds_group_algebra(
                        sv,
                        j / 4,
                        j % 4,
                        D as nat,
                    ),
                forall|k: int|
                    0 <= k < i ==> (#[trigger] stored[k])@ == mds_stored_algebra(sv, k, D as nat),
        {
            let sum = result[i].add(result[4 + i]).add(result[8 + i]);
            stored[i] = sum;
            proof {
                assert(result[i as int]@ == mds_group_algebra(sv, 0, i as int, D as nat));
                assert(result[4 + i]@ == mds_group_algebra(sv, 1, i as int, D as nat));
                assert(result[8 + i]@ == mds_group_algebra(sv, 2, i as int, D as nat));
                assert(sum@ =~= mds_stored_algebra(sv, i as int, D as nat));
            }
        }
        for i in 0..12usize
            invariant
                sv == algebra_state_values(*state),
                forall|k: int|
                    0 <= k < 4 ==> (#[trigger] stored[k])@ == mds_stored_algebra(sv, k, D as nat),
                forall|j: int|
                    i <= j < 12 ==> (#[trigger] result[j])@ == mds_group_algebra(
                        sv,
                        j / 4,
                        j % 4,
                        D as nat,
                    ),
                forall|j: int|
                    0 <= j < i ==> (#[trigger] result[j])@ == mds_layer_algebra_spec(
                        sv,
                        D as nat,
                    )[j],
        {
            let sum = result[i].add(stored[i % 4]);
            proof {
                assert forall|a: int| 0 <= a < D implies sum@[a] == mds_layer_field_spec(
                    algebra_lane(sv, a),
                    D as nat,
                )[i as int] by {
                    let lane = algebra_lane(sv, a);
                    assert(sum@[a] == mds_two_stage_ext(lane, i as int));
                    assert forall|j: int| 0 <= j < 12 implies (#[trigger] lane[j]).len() == D by {
                        assert(lane[j] == state[j]@[a]);
                    }
                    lemma_mds_two_stage_ext(lane, D as nat, i as int);
                }
                assert(sum@ =~= mds_layer_algebra_spec(sv, D as nat)[i as int]);
            }
            result[i] = sum;
        }
        assert(algebra_state_values(result) =~= mds_layer_algebra_spec(sv, D as nat));
        result
    }

    /// Same as `mds_layer_circuit` for an extension algebra of `F`, as
    /// rows of arithmetic.
    #[verifier::rlimit(80)]
    pub fn mds_layer_algebra_circuit(
        builder: &mut CircuitBuilder<F, D>,
        state: &[ExtensionAlgebraTarget<D>; 12],
    ) -> (result: [ExtensionAlgebraTarget<D>; 12])
        ensures
            (final(builder).gate_instances@, result@) == mds_layer_algebra_rows(
                old(builder).gate_instances@,
                state@,
            ),
            final(builder).extends(*old(builder)),
            final(builder).gate_rows() == old(builder).gate_rows(),
            final(builder).copy_constraints == old(builder).copy_constraints,
            final(builder).virtual_target_index == old(builder).virtual_target_index,
            forall|values: Map<Target, int>| #[trigger]
                final(builder).satisfied_by(values) ==> old(builder).satisfied_by(values)
                    && algebra_state_target_values(values, result) == mds_layer_algebra_spec(
                    algebra_state_target_values(values, *state),
                    D as nat,
                ),
    {
        let zero = builder.zero_ext_algebra();
        let mut result = [zero;12];
        let mut stored = [zero;4];
        let two = builder.constant_extension(Extension::<F, D>::two());
        let four = builder.constant_extension(Extension::<F, D>::from_canonical_u8(4));
        let ghost constants = builder.gate_instances@;
        proof {
            lemma_ext_target_of(two);
            lemma_ext_target_of(four);
            assert(constants =~= old(builder).gate_instances@ + constant_rows(
                ext_embed(0, D as nat),
                D as int,
            ) + constant_rows(ext_embed(2, D as nat), D as int) + constant_rows(
                ext_embed(4, D as nat),
                D as int,
            ));
            assert(result@.subrange(0, 0) =~= Seq::<ExtensionAlgebraTarget<D>>::empty());
        }

        // Applying cheap 4x4 MDS matrix to each 4-element part of the state
        for i in 0..3usize
            invariant
                (builder.gate_instances@, result@.subrange(0, 4 * i)) == algebra_groups_rows(
                    constants,
                    state@,
                    two,
                    four,
                    i as int,
                ),
                builder.extends(*old(builder)),
                builder.gate_rows() == old(builder).gate_rows(),
                builder.copy_constraints == old(builder).copy_constraints,
                builder.virtual_target_index == old(builder).virtual_target_index,
                forall|values: Map<Target, int>| #[trigger]
                    builder.satisfied_by(values) ==> {
                        &&& old(builder).satisfied_by(values)
                        &&& ext_target_value(values, two) == ext_embed(2, D as nat)
                        &&& ext_target_value(values, four) == ext_embed(4, D as nat)
                        &&& forall|j: int|
                            0 <= j < 4 * i ==> ext_algebra_target_value(
                                values,
                                #[trigger] result[j],
                            ) == mds_group_algebra(
                                algebra_state_target_values(values, *state),
                                j / 4,
                                j % 4,
                                D as nat,
                            )
                    },
        {
            let ghost before = *builder;
            let ghost earlier = result;
            let start_index = i * 4;
            let group = algebra_group_circuit(builder, state, two, four, i);
            result[start_index] = group[0];
            result[start_index + 1] = group[1];
            result[start_index + 2] = group[2];
            result[start_index + 3] = group[3];
            proof {
                assert(result@.subrange(0, 4 * (i + 1)) =~= earlier@.subrange(0, 4 * i) + group@);
                assert forall|values: Map<Target, int>| #[trigger]
                    builder.satisfied_by(values) implies {
                    &&& before.satisfied_by(values)
                    &&& forall|j: int|
                        0 <= j < 4 * (i + 1) ==> ext_algebra_target_value(
                            values,
                            #[trigger] result[j],
                        ) == mds_group_algebra(
                            algebra_state_target_values(values, *state),
                            j / 4,
                            j % 4,
                            D as nat,
                        )
                } by {
                    let sv = algebra_state_target_values(values, *state);
                    assert(before.satisfied_by(values));
                    assert forall|j: int| 0 <= j < 4 * (i + 1) implies ext_algebra_target_value(
                        values,
                        #[trigger] result[j],
                    ) == mds_group_algebra(sv, j / 4, j % 4, D as nat) by {
                        if j < 4 * i {
                            assert(result[j] == earlier[j]);
                        } else {
                            assert(result[j] == group[j - 4 * i]);
                        }
                    }
                }
            }
        }

        // Applying second cheap matrix
        let ghost mixed = result@;
        let ghost with_groups = builder.gate_instances@;
        assert(result@.subrange(0, 12) =~= result@);
        assert(stored@.subrange(0, 0) =~= Seq::<ExtensionAlgebraTarget<D>>::empty());
        for i in 0..4usize
            invariant
                mixed == result@,
                (builder.gate_instances@, stored@.subrange(0, i as int)) == algebra_stored_rows(
                    with_groups,
                    mixed,
                    i as int,
                ),
                builder.extends(*old(builder)),
                builder.gate_rows() == old(builder).gate_rows(),
                builder.copy_constraints == old(builder).copy_constraints,
                builder.virtual_target_index == old(builder).virtual_target_index,
                forall|values: Map<Target, int>| #[trigger]
                    builder.satisfied_by(values) ==> {
                        &&& old(builder).satisfied_by(values)
                        &&& forall|j: int|
                            0 <= j < 12 ==> ext_algebra_target_value(values, #[trigger] result[j])
                                == mds_group_algebra(
                                algebra_state_target_values(values, *state),
                                j / 4,
                                j % 4,
                                D as nat,
                            )
                        &&& forall|k: int|
                            0 <= k < i ==> ext_algebra_target_value(values, #[trigger] stored[k])
                                == mds_stored_algebra(
                                algebra_state_target_values(values, *state),
                                k,
                                D as nat,
                            )
                    },
        {
            let ghost before = *builder;
            let ghost earlier = stored;
            let partial = builder.add_ext_algebra(result[i], result[4 + i]);
            let sum = builder.add_ext_algebra(partial, result[8 + i]);
            stored[i] = sum;
            proof {
                assert(stored@.subrange(0, i + 1) =~= earlier@.subrange(0, i as int).push(sum));
                assert forall|values: Map<Target, int>| #[trigger]
                    builder.satisfied_by(values) implies {
                    &&& before.satisfied_by(values)
                    &&& forall|k: int|
                        0 <= k < i + 1 ==> ext_algebra_target_value(values, #[trigger] stored[k])
                            == mds_stored_algebra(
                            algebra_state_target_values(values, *state),
                            k,
                            D as nat,
                        )
                } by {
                    let sv = algebra_state_target_values(values, *state);
                    assert(before.satisfied_by(values));
                    assert(ext_algebra_target_value(values, result[i as int]) == mds_group_algebra(
                        sv,
                        0,
                        i as int,
                        D as nat,
                    ));
                    assert(ext_algebra_target_value(values, result[4 + i]) == mds_group_algebra(
                        sv,
                        1,
                        i as int,
                        D as nat,
                    ));
                    assert(ext_algebra_target_value(values, result[8 + i]) == mds_group_algebra(
                        sv,
                        2,
                        i as int,
                        D as nat,
                    ));
                    assert(ext_algebra_target_value(values, sum) =~= mds_stored_algebra(
                        sv,
                        i as int,
                        D as nat,
                    ));
                    assert forall|k: int| 0 <= k < i + 1 implies ext_algebra_target_value(
                        values,
                        #[trigger] stored[k],
                    ) == mds_stored_algebra(sv, k, D as nat) by {
                        if k < i {
                            assert(stored[k] == earlier[k]);
                        }
                    }
                }
            }
        }
        let ghost sums = stored@;
        let ghost with_sums = builder.gate_instances@;
        assert(stored@.subrange(0, 4) =~= stored@);
        assert(result@.subrange(0, 0) =~= Seq::<ExtensionAlgebraTarget<D>>::empty());
        for i in 0..12usize
            invariant
                sums == stored@,
                forall|j: int| i <= j < 12 ==> result[j] == mixed[j],
                (builder.gate_instances@, result@.subrange(0, i as int)) == algebra_final_rows(
                    with_sums,
                    mixed,
                    sums,
                    i as int,
                ),
                builder.extends(*old(builder)),
                builder.gate_rows() == old(builder).gate_rows(),
                builder.copy_constraints == old(builder).copy_constraints,
                builder.virtual_target_index == old(builder).virtual_target_index,
                forall|values: Map<Target, int>| #[trigger]
                    builder.satisfied_by(values) ==> {
                        &&& old(builder).satisfied_by(values)
                        &&& forall|k: int|
                            0 <= k < 4 ==> ext_algebra_target_value(values, #[trigger] stored[k])
                                == mds_stored_algebra(
                                algebra_state_target_values(values, *state),
                                k,
                                D as nat,
                            )
                        &&& forall|j: int|
                            i <= j < 12 ==> ext_algebra_target_value(values, #[trigger] result[j])
                                == mds_group_algebra(
                                algebra_state_target_values(values, *state),
                                j / 4,
                                j % 4,
                                D as nat,
                            )
                        &&& forall|j: int|
                            0 <= j < i ==> ext_algebra_target_value(values, #[trigger] result[j])
                                == mds_layer_algebra_spec(
                                algebra_state_target_values(values, *state),
                                D as nat,
                            )[j]
                    },
        {
            let ghost before = *builder;
            let ghost earlier = result;
            let sum = builder.add_ext_algebra(result[i], stored[i % 4]);
            result[i] = sum;
            proof {
                assert(result@.subrange(0, i + 1) =~= earlier@.subrange(0, i as int).push(sum));
                assert forall|values: Map<Target, int>| #[trigger]
                    builder.satisfied_by(values) implies {
                    &&& before.satisfied_by(values)
                    &&& forall|j: int|
                        i + 1 <= j < 12 ==> ext_algebra_target_value(values, #[trigger] result[j])
                            == mds_group_algebra(
                            algebra_state_target_values(values, *state),
                            j / 4,
                            j % 4,
                            D as nat,
                        )
                    &&& forall|j: int|
                        0 <= j < i + 1 ==> ext_algebra_target_value(values, #[trigger] result[j])
                            == mds_layer_algebra_spec(
                            algebra_state_target_values(values, *state),
                            D as nat,
                        )[j]
                } by {
                    let sv = algebra_state_target_values(values, *state);
                    assert(before.satisfied_by(values));
                    assert(ext_algebra_target_value(values, earlier[i as int])
                        == mds_group_algebra(sv, i as int / 4, i as int % 4, D as nat));
                    assert(ext_algebra_target_value(values, stored[i as int % 4])
                        == mds_stored_algebra(sv, i as int % 4, D as nat));
                    assert forall|a: int| 0 <= a < D implies ext_algebra_target_value(
                        values,
                        sum,
                    )[a] == mds_layer_field_spec(algebra_lane(sv, a), D as nat)[i as int] by {
                        let lane = algebra_lane(sv, a);
                        assert(ext_algebra_target_value(values, sum)[a] == mds_two_stage_ext(
                            lane,
                            i as int,
                        ));
                        assert forall|j: int| 0 <= j < 12 implies (#[trigger] lane[j]).len()
                            == D by {
                            assert(lane[j] == ext_algebra_target_value(values, state[j])[a]);
                        }
                        lemma_mds_two_stage_ext(lane, D as nat, i as int);
                    }
                    assert(ext_algebra_target_value(values, sum) =~= mds_layer_algebra_spec(
                        sv,
                        D as nat,
                    )[i as int]);
                    assert forall|j: int| 0 <= j < 12 && j != i implies result[j]
                        == earlier[j] by {}
                }
            }
        }
        assert(result@.subrange(0, 12) =~= result@);
        proof {
            assert forall|values: Map<Target, int>| #[trigger]
                builder.satisfied_by(values) implies algebra_state_target_values(values, result)
                == mds_layer_algebra_spec(
                algebra_state_target_values(values, *state),
                D as nat,
            ) by {
                assert(algebra_state_target_values(values, result) =~= mds_layer_algebra_spec(
                    algebra_state_target_values(values, *state),
                    D as nat,
                ));
            }
        }
        result
    }
}

/// On a row of canonical field elements the residuals of an MDS gate are
/// all zero if and only if the output wires hold the full linear layer of
/// what the input wires hold.
proof fn lemma_mds_gate_residuals_zero(wires: Seq<int>, d: nat)
    requires
        wires.len() >= 24 * d,
        forall|n: int| 0 <= n < wires.len() ==> 0 <= #[trigger] wires[n] < ORDER,
    ensures
        (forall|i: int, k: int|
            0 <= i < 12 && 0 <= k < d ==> #[trigger] mds_gate_residual_base(wires, d, i, k) == 0)
            <==> wire_blocks_base(wires, 12 * d as int, d) == mds_layer_field_spec(
            wire_blocks_base(wires, 0, d),
            d,
        ),
{
    let outputs = wire_blocks_base(wires, 12 * d as int, d);
    let computed = mds_layer_field_spec(wire_blocks_base(wires, 0, d), d);
    if forall|i: int, k: int|
        0 <= i < 12 && 0 <= k < d ==> #[trigger] mds_gate_residual_base(wires, d, i, k) == 0 {
        assert forall|i: int| 0 <= i < 12 implies #[trigger] outputs[i] == computed[i] by {
            assert forall|k: int| 0 <= k < d implies outputs[i][k] == computed[i][k] by {
                lemma_block_bounds(i, 12, k, d as int);
                assert(mds_gate_residual_base(wires, d, i, k) == 0);
                assert(0 <= wires[12 * d + i * d + k] < ORDER);
            }
            assert(outputs[i] =~= computed[i]);
        }
        assert(outputs =~= computed);
    }
    if outputs == computed {
        assert forall|i: int, k: int| 0 <= i < 12 && 0 <= k < d implies #[trigger] mds_gate_residual_base(
            wires,
            d,
            i,
            k,
        ) == 0 by {
            assert(outputs[i][k] == computed[i][k]);
        }
    }
}

/// The input and output blocks of a row of field elements are what the
/// assignment gives to the input and output wires of an MDS gate in that
/// row, if the row holds what the assignment gives to its wires.
proof fn lemma_row_wire_blocks(values: Map<Target, int>, row: usize, wires: Seq<int>, d: nat)
    requires
        wires.len() == 24 * d,
        24 * d <= usize::MAX,
        forall|n: int|
            0 <= n < 24 * d ==> #[trigger] wires[n] == values[Target::Wire {
                row,
                column: n as usize,
            }],
    ensures
        wire_blocks_base(wires, 0, d) == mds_gate_inputs(values, row, d),
        wire_blocks_base(wires, 12 * d as int, d) == mds_gate_outputs(values, row, d),
{
    let inputs = wire_blocks_base(wires, 0, d);
    let outputs = wire_blocks_base(wires, 12 * d as int, d);
    assert forall|i: int| 0 <= i < 12 implies #[trigger] inputs[i] == mds_gate_inputs(
        values,
        row,
        d,
    )[i] by {
        assert forall|k: int| 0 <= k < d implies inputs[i][k] == mds_gate_inputs(
            values,
            row,
            d,
        )[i][k] by {
            lemma_block_bounds(i, 12, k, d as int);
            assert(inputs[i][k] == wires[i * d + k]);
        }
        assert(inputs[i] =~= mds_gate_inputs(values, row, d)[i]);
    }
    assert(inputs =~= mds_gate_inputs(values, row, d));
    assert forall|i: int| 0 <= i < 12 implies #[trigger] outputs[i] == mds_gate_outputs(
        values,
        row,
        d,
    )[i] by {
        assert forall|k: int| 0 <= k < d implies outputs[i][k] == mds_gate_outputs(
            values,
            row,
            d,
        )[i][k] by {
            lemma_block_bounds(i, 12, k, d as int);
            assert(outputs[i][k] == wires[12 * d + i * d + k]);
        }
        assert(outputs[i] =~= mds_gate_outputs(values, row, d)[i]);
    }
    assert(outputs =~= mds_gate_outputs(values, row, d));
}



/// The relation of an MDS gate holds in a row if and only if the residuals
/// of its constraints on the field elements of the row are all zero.
pub proof fn lemma_mds_gate_holds_iff_residuals_zero(
    values: Map<Target, int>,
    row: usize,
    wires: Seq<int>,
    d: nat,
)
    requires
        wires.len() == 24 * d,
        24 * d <= usize::MAX,
        forall|n: int|
            0 <= n < 24 * d ==> #[trigger] wires[n] == values[Target::Wire {
                row,
                column: n as usize,
            }],
        forall|n: int| 0 <= n < wires.len() ==> 0 <= #[trigger] wires[n] < ORDER,
    ensures
        mds_gate_holds(values, row, d) <==> (forall|i: int, k: int|
            0 <= i < 12 && 0 <= k < d ==> #[trigger] mds_gate_residual_base(wires, d, i, k) == 0),
{
    lemma_mds_gate_residuals_zero(wires, d);
    lemma_row_wire_blocks(values, row, wires, d);
}

/// The end of the name of an MDS gate over the extension of degree `d`:
/// the degree and the width of the state.
pub open spec fn mds_gate_id_ending(d: nat) -> Seq<char> {
    "<D="@ + decimal_digits(d) + "><WIDTH=12>"@
}

/// The character of a text that ends with the name ending of degree `d`
/// at place `k` of the digits, counted from the last digit, is that
/// digit; the character before the digits is `=`.
proof fn lemma_id_ending_places(text: Seq<char>, d: nat, k: int)
    requires
        ends_with(text, mds_gate_id_ending(d)),
        0 <= k <= decimal_digits(d).len(),
    ensures
        text.len() >= 14 + decimal_digits(d).len(),
        k < decimal_digits(d).len() ==> text[text.len() - 12 - k] == decimal_digits(d)[
            decimal_digits(d).len() - 1 - k],
        k == decimal_digits(d).len() ==> text[text.len() - 12 - k] == '=',
{
    reveal_strlit("<D=");
    reveal_strlit("><WIDTH=12>");
    let digits = decimal_digits(d);
    let ending = mds_gate_id_ending(d);
    let n = digits.len() as int;
    assert(ending.len() == 14 + n);
    let place = 3 + n - 1 - k;
    assert(text.subrange(text.len() - ending.len(), text.len() as int)[place] == ending[place]);
    if k < n {
        assert(ending[place] == digits[n - 1 - k]);
    } else {
        assert(ending[2] == '=');
    }
}

/// MDS gates of different degrees have different names.
pub proof fn lemma_mds_gate_ids_differ(first: Seq<char>, second: Seq<char>, d1: nat, d2: nat)
    requires
        ends_with(first, mds_gate_id_ending(d1)),
        ends_with(second, mds_gate_id_ending(d2)),
        d1 != d2,
    ensures
        first != second,
{
    let digits1 = decimal_digits(d1);
    let digits2 = decimal_digits(d2);
    lemma_decimal_digits(d1);
    lemma_decimal_digits(d2);
    if first == second {
        if digits1.len() == digits2.len() {
            assert forall|i: int| 0 <= i < digits1.len() implies digits1[i] == digits2[i] by {
                lemma_id_ending_places(first, d1, digits1.len() - 1 - i);
                lemma_id_ending_places(second, d2, digits1.len() - 1 - i);
            }
            assert(digits1 =~= digits2);
        } else if digits1.len() < digits2.len() {
            lemma_id_ending_places(first, d1, digits1.len() as int);
            lemma_id_ending_places(second, d2, digits1.len() as int);
            assert(is_digit(digits2[digits2.len() - 1 - digits1.len()]));
        } else {
            lemma_id_ending_places(second, d2, digits2.len() as int);
            lemma_id_ending_places(first, d1, digits2.len() as int);
            assert(is_digit(digits1[digits1.len() - 1 - digits2.len()]));
        }
    }
}

impl<F: PrimeField64 + core::fmt::Debug, const D: usize> PoseidonMdsGate<F, D> {
    /// The text that the standard library's `format!` makes of the `Debug`
    /// form of this gate, the degree of the extension and the width of the
    /// state. Of the text it is claimed only how it ends, which the format
    /// string fixes: the literal `<D=`, the decimal digits of the degree as
    /// `{}` writes a `usize`, without sign or padding, the literal
    /// `><WIDTH=`, the decimal digits of 12, and `>`. Nothing is claimed of
    /// the `Debug` form before it.
    #[verifier::external_body]
    fn debug_name(&self) -> (text: String)
        ensures
            ends_with(text@, mds_gate_id_ending(D as nat)),
    {
        format!("{:?}<D={}><WIDTH={}>", self, D, SPONGE_WIDTH)
    }
}

impl<F: Poseidon + core::fmt::Debug, const D: usize> Gate<F, D> for PoseidonMdsGate<F, D> {
    type Generator = PoseidonMdsGenerator<D>;

    open spec fn wires(&self) -> nat {
        (2 * SPONGE_WIDTH * D) as nat
    }

    open spec fn constraints(&self) -> nat {
        (SPONGE_WIDTH * D) as nat
    }

    open spec fn id_ending(&self) -> Seq<char> {
        mds_gate_id_ending(D as nat)
    }

    /// The name of this gate for debugging: its `Debug` form, which names
    /// the kind of gate and the field, the degree of the extension, and
    /// the width of the state.
    fn id(&self) -> (id: String) {
        self.debug_name()
    }

    /// The residuals of the constraints on a row of elements of the
    /// extension, lane by lane and component by component.
    fn eval_unfiltered(&self, vars: EvaluationVars<F, D>) -> (constraints: Vec<Extension<F, D>>)
        ensures
            constraints@.len() == SPONGE_WIDTH * D,
            forall|i: int, a: int|
                0 <= i < 12 && 0 <= a < D ==> (#[trigger] constraints@[i * D + a])@
                    == mds_gate_residual(ext_wire_values(vars.local_wires@), D as nat, i, a),
    {
        let ghost wires = ext_wire_values(vars.local_wires@);
        let mut inputs = [ExtensionAlgebra::<F, D>::zero();12];
        for i in 0..SPONGE_WIDTH
            invariant
                2 * SPONGE_WIDTH * D <= usize::MAX,
                2 * SPONGE_WIDTH * D <= vars.local_wires@.len(),
                wires == ext_wire_values(vars.local_wires@),
                forall|j: int|
                    0 <= j < i ==> (#[trigger] inputs[j])@ == wire_blocks_algebra(
                        wires,
                        0,
                        D as nat,
                    )[j],
        {
            let input_wires = Self::wires_input(i);
            assert(SPONGE_WIDTH * D <= 2 * SPONGE_WIDTH * D) by (nonlinear_arith);
            let input = vars.get_local_ext_algebra(input_wires);
            proof {
                assert(input@ =~= wire_blocks_algebra(wires, 0, D as nat)[i as int]);
            }
            inputs[i] = input;
        }
        assert(algebra_state_values(inputs) =~= wire_blocks_algebra(wires, 0, D as nat));

        let computed_outputs = Self::mds_layer_algebra(&inputs);

        let mut constraints: Vec<Extension<F, D>> = Vec::new();
        assert(0 * D == 0) by (nonlinear_arith);
        for i in 0..SPONGE_WIDTH
            invariant
                2 * SPONGE_WIDTH * D <= usize::MAX,
                2 * SPONGE_WIDTH * D <= vars.local_wires@.len(),
                wires == ext_wire_values(vars.local_wires@),
                algebra_state_values(computed_outputs) == mds_layer_algebra_spec(
                    wire_blocks_algebra(wires, 0, D as nat),
                    D as nat,
                ),
                constraints@.len() == i * D,
                forall|j: int, a: int|
                    0 <= j < i && 0 <= a < D ==> (#[trigger] constraints@[j * D + a])@
                        == mds_gate_residual(wires, D as nat, j, a),
        {
            let output_wires = Self::wires_output(i);
            let out = vars.get_local_ext_algebra(output_wires);
            let residual = out.sub(computed_outputs[i]);
            let difference = residual.to_basefield_array();
            let ghost before = constraints@;
            for a in 0..D
                invariant
                    i < SPONGE_WIDTH,
                    before.len() == i * D,
                    constraints@ == before + difference@.subrange(0, a as int),
            {
                constraints.push(difference[a]);
                assert(difference@.subrange(0, a + 1) =~= difference@.subrange(0, a as int).push(
                    difference@[a as int],
                ));
            }
            proof {
                assert((i + 1) * D == i * D + D) by (nonlinear_arith);
                assert(constraints@ =~= before + difference@);
                assert forall|j: int, a: int| 0 <= j < i + 1 && 0 <= a < D implies (
                #[trigger] constraints@[j * D + a])@ == mds_gate_residual(wires, D as nat, j, a) by {
                    lemma_block_bounds(j, i as int, a, D as int);
                    if j < i {
                        assert(constraints@[j * D + a] == before[j * D + a]);
                    } else {
                        let n = 12 * D + i * D + a;
                        assert(n == output_wires.start + a);
                        assert(constraints@[i * D + a] == difference@[a]);
                        assert(difference@[a]@ == residual@[a]);
                        assert(residual@[a] == ext_sub(out@[a], computed_outputs[i as int]@[a]));
                        assert(out@[a] == out.0[a]@);
                        assert(out.0[a] == vars.local_wires@[n]);
                        assert(wires[n] == vars.local_wires@[n]@);
                        assert(computed_outputs[i as int]@[a] == algebra_state_values(
                            computed_outputs,
                        )[i as int][a]);
                    }
                }
            }
        }
        constraints
    }

    /// The residuals of the constraints on a row of elements of the
    /// field, lane by lane and coefficient by coefficient, handed to
    /// `yield_constr`.
    fn eval_unfiltered_base_one(
        &self,
        vars: EvaluationVarsBase<F>,
        yield_constr: &mut StridedConstraintConsumer<F>,
    )
        ensures
            final(yield_constr).terms@.len() == old(yield_constr).terms@.len() + SPONGE_WIDTH * D,
            forall|n: int|
                0 <= n < old(yield_constr).terms@.len() ==> final(yield_constr).terms@[n] == old(
                    yield_constr,
                ).terms@[n],
            forall|i: int, k: int|
                0 <= i < 12 && 0 <= k < D ==> (#[trigger] final(yield_constr).terms@[old(
                    yield_constr,
                ).terms@.len() + i * D + k]).value() == mds_gate_residual_base(
                    base_wire_values(vars.local_wires@),
                    D as nat,
                    i,
                    k,
                ),
    {
        let ghost wires = base_wire_values(vars.local_wires@);
        let ghost start = old(yield_constr).terms@.len();
        let mut inputs = [Extension::<F, D>::zero();12];
        for i in 0..SPONGE_WIDTH
            invariant
                2 * SPONGE_WIDTH * D <= usize::MAX,
                2 * SPONGE_WIDTH * D <= vars.local_wires@.len(),
                wires == base_wire_values(vars.local_wires@),
                forall|j: int|
                    0 <= j < i ==> (#[trigger] inputs[j])@ == wire_blocks_base(wires, 0, D as nat)[j],
        {
            let input_wires = Self::wires_input(i);
            assert(SPONGE_WIDTH * D <= 2 * SPONGE_WIDTH * D) by (nonlinear_arith);
            let input = vars.get_local_ext(input_wires);
            proof {
                assert(input@ =~= wire_blocks_base(wires, 0, D as nat)[i as int]);
            }
            inputs[i] = input;
        }
        assert(ext_state_values(inputs) =~= wire_blocks_base(wires, 0, D as nat));

        let computed_outputs = F::mds_layer_field(&inputs);

        assert(0 * D == 0) by (nonlinear_arith);
        for i in 0..SPONGE_WIDTH
            invariant
                2 * SPONGE_WIDTH * D <= usize::MAX,
                2 * SPONGE_WIDTH * D <= vars.local_wires@.len(),
                wires == base_wire_values(vars.local_wires@),
                start == old(yield_constr).terms@.len(),
                ext_state_values(computed_outputs) == mds_layer_field_spec(
                    wire_blocks_base(wires, 0, D as nat),
                    D as nat,
                ),
                yield_constr.terms@.len() == start + i * D,
                forall|n: int| 0 <= n < start ==> yield_constr.terms@[n] == old(yield_constr).terms@[n],
                forall|j: int, k: int|
                    0 <= j < i && 0 <= k < D ==> (#[trigger] yield_constr.terms@[start + j * D
                        + k]).value() == mds_gate_residual_base(wires, D as nat, j, k),
        {
            let output_wires = Self::wires_output(i);
            let out = vars.get_local_ext::<D>(output_wires);
            let residual = out.sub(computed_outputs[i]);
            let difference = residual.to_basefield_array();
            let ghost before = yield_constr.terms@;
            yield_constr.many(&difference);
            proof {
                assert((i + 1) * D == i * D + D) by (nonlinear_arith);
                assert forall|j: int, k: int| 0 <= j < i + 1 && 0 <= k < D implies (
                #[trigger] yield_constr.terms@[start + j * D + k]).value()
                    == mds_gate_residual_base(wires, D as nat, j, k) by {
                    lemma_block_bounds(j, i as int, k, D as int);
                    if j < i {
                        assert(yield_constr.terms@[start + j * D + k] == before[start + j * D + k]);
                    } else {
                        let n = 12 * D + i * D + k;
                        assert(n == output_wires.start + k);
                        assert(yield_constr.terms@[start + i * D + k] == difference@[k]);
                        assert(difference@[k].value() == residual@[k]);
                        assert(residual@[k] == field_sub(out@[k], computed_outputs[i as int]@[k]));
                        assert(out@[k] == out.0[k].value());
                        assert(out.0[k] == vars.local_wires@[n]);
                        assert(wires[n] == vars.local_wires@[n].value());
                        assert(computed_outputs[i as int]@[k] == ext_state_values(
                            computed_outputs,
                        )[i as int][k]);
                    }
                }
            }
        }
    }

    /// The residuals of the constraints on a row of extension targets,
    /// lane by lane and component by component, as rows of arithmetic of
    /// a circuit.
    fn eval_unfiltered_circuit(
        &self,
        builder: &mut CircuitBuilder<F, D>,
        vars: EvaluationTargets<D>,
    ) -> (constraints: Vec<ExtensionTarget<D>>)
        ensures
            (final(builder).gate_instances@, constraints@) == mds_gate_constraint_rows(
                old(builder).gate_instances@,
                vars.local_wires@,
            ),
            constraints@.len() == SPONGE_WIDTH * D,
            final(builder).extends(*old(builder)),
            final(builder).gate_rows() == old(builder).gate_rows(),
            final(builder).copy_constraints == old(builder).copy_constraints,
            final(builder).virtual_target_index == old(builder).virtual_target_index,
            forall|values: Map<Target, int>| #[trigger]
                final(builder).satisfied_by(values) ==> old(builder).satisfied_by(values)
                    && forall|i: int, a: int|
                    0 <= i < 12 && 0 <= a < D ==> ext_target_value(
                        values,
                        #[trigger] constraints@[i * D + a],
                    ) == mds_gate_residual(
                        target_wire_values(values, vars.local_wires@),
                        D as nat,
                        i,
                        a,
                    ),
    {
        let zero = ExtensionAlgebraTarget([ExtensionTarget([Target::wire(0, 0);D]);D]);
        let mut inputs = [zero;12];
        for i in 0..SPONGE_WIDTH
            invariant
                2 * SPONGE_WIDTH * D <= usize::MAX,
                2 * SPONGE_WIDTH * D <= vars.local_wires@.len(),
                forall|j: int, a: int|
                    0 <= j < i && 0 <= a < D ==> (#[trigger] inputs[j].0[a])
                        == vars.local_wires@[j * D + a],
        {
            let input_wires = Self::wires_input(i);
            assert(SPONGE_WIDTH * D <= 2 * SPONGE_WIDTH * D) by (nonlinear_arith);
            inputs[i] = vars.get_local_ext_algebra(input_wires);
        }
        proof {
            assert forall|values: Map<Target, int>|
                algebra_state_target_values(values, inputs) == wire_blocks_algebra(
                    target_wire_values(values, vars.local_wires@),
                    0,
                    D as nat,
                ) by {
                let wires = target_wire_values(values, vars.local_wires@);
                assert forall|j: int, a: int| 0 <= j < 12 && 0 <= a < D implies (
                #[trigger] algebra_state_target_values(values, inputs)[j][a]) == wires[j * D
                    + a] by {
                    lemma_block_bounds(j, 12, a, D as int);
                    assert(0 <= j * D + a < 12 * D);
                    assert(12 * D <= 2 * SPONGE_WIDTH * D) by (nonlinear_arith);
                    assert(inputs[j].0[a] == vars.local_wires@[j * D + a]);
                    assert(wires[j * D + a] == ext_target_value(
                        values,
                        vars.local_wires@[j * D + a],
                    ));
                    assert(algebra_state_target_values(values, inputs)[j]
                        == ext_algebra_target_value(values, inputs[j]));
                    assert(ext_algebra_target_value(values, inputs[j])[a] == ext_target_value(
                        values,
                        inputs[j].0[a],
                    ));
                }
                assert forall|j: int| 0 <= j < 12 implies (#[trigger] algebra_state_target_values(
                    values,
                    inputs,
                )[j]) == wire_blocks_algebra(wires, 0, D as nat)[j] by {
                    assert(algebra_state_target_values(values, inputs)[j] =~= wire_blocks_algebra(
                        wires,
                        0,
                        D as nat,
                    )[j]);
                }
                assert(algebra_state_target_values(values, inputs) =~= wire_blocks_algebra(
                    wires,
                    0,
                    D as nat,
                ));
            }
        }

        proof {
            assert forall|j: int| 0 <= j < 12 implies #[trigger] inputs@[j] == wire_algebra_targets(
                vars.local_wires@,
                0,
            )[j] by {
                lemma_algebra_target_of(inputs[j]);
                assert(inputs[j].0@ =~= Seq::new(
                    D as nat,
                    |a: int| vars.local_wires@[0 + j * D + a],
                ));
            }
            assert(inputs@ =~= wire_algebra_targets(vars.local_wires@, 0));
        }
        let computed_outputs = Self::mds_layer_algebra_circuit(builder, &inputs);
        let ghost computed = *builder;
        let ghost outputs = wire_algebra_targets(vars.local_wires@, 12 * D);

        let mut constraints: Vec<ExtensionTarget<D>> = Vec::new();
        assert(0 * D == 0) by (nonlinear_arith);
        assert(constraints@ =~= Seq::<ExtensionTarget<D>>::empty());
        for i in 0..SPONGE_WIDTH
            invariant
                2 * SPONGE_WIDTH * D <= usize::MAX,
                2 * SPONGE_WIDTH * D <= vars.local_wires@.len(),
                outputs == wire_algebra_targets(vars.local_wires@, 12 * D),
                (builder.gate_instances@, constraints@) == residual_rows(
                    computed.gate_instances@,
                    outputs,
                    computed_outputs@,
                    i as int,
                ),
                builder.extends(computed),
                builder.gate_rows() == computed.gate_rows(),
                builder.copy_constraints == computed.copy_constraints,
                builder.virtual_target_index == computed.virtual_target_index,
                constraints@.len() == i * D,
                forall|values: Map<Target, int>| #[trigger]
                    builder.satisfied_by(values) ==> computed.satisfied_by(values)
                        && forall|j: int, a: int|
                        0 <= j < i && 0 <= a < D ==> ext_target_value(
                            values,
                            #[trigger] constraints@[j * D + a],
                        ) == ext_sub(
                            target_wire_values(values, vars.local_wires@)[12 * D + j * D + a],
                            ext_algebra_target_value(values, computed_outputs[j])[a],
                        ),
        {
            let ghost before_builder = *builder;
            let output_wires = Self::wires_output(i);
            let out = vars.get_local_ext_algebra(output_wires);
            let residual = builder.sub_ext_algebra(out, computed_outputs[i]);
            let difference = residual.to_ext_target_array();
            let ghost before = constraints@;
            proof {
                lemma_algebra_target_of(out);
                assert(out.0@ =~= Seq::new(
                    D as nat,
                    |a: int| vars.local_wires@[12 * D + i * D + a],
                ));
                assert(out == outputs[i as int]);
            }
            for a in 0..D
                invariant
                    i < SPONGE_WIDTH,
                    before.len() == i * D,
                    constraints@ == before + difference@.subrange(0, a as int),
            {
                constraints.push(difference[a]);
                assert(difference@.subrange(0, a + 1) =~= difference@.subrange(0, a as int).push(
                    difference@[a as int],
                ));
            }
            proof {
                assert((i + 1) * D == i * D + D) by (nonlinear_arith);
                assert(constraints@ =~= before + difference@);
                assert forall|values: Map<Target, int>| #[trigger]
                    builder.satisfied_by(values) implies computed.satisfied_by(values)
                    && forall|j: int, a: int|
                    0 <= j < i + 1 && 0 <= a < D ==> ext_target_value(
                        values,
                        #[trigger] constraints@[j * D + a],
                    ) == ext_sub(
                        target_wire_values(values, vars.local_wires@)[12 * D + j * D + a],
                        ext_algebra_target_value(values, computed_outputs[j])[a],
                    ) by {
                    assert(before_builder.satisfied_by(values));
                    assert forall|j: int, a: int| 0 <= j < i + 1 && 0 <= a < D implies ext_target_value(
                        values,
                        #[trigger] constraints@[j * D + a],
                    ) == ext_sub(
                        target_wire_values(values, vars.local_wires@)[12 * D + j * D + a],
                        ext_algebra_target_value(values, computed_outputs[j])[a],
                    ) by {
                        lemma_block_bounds(j, i as int, a, D as int);
                        if j < i {
                            assert(constraints@[j * D + a] == before[j * D + a]);
                        } else {
                            let n = 12 * D + i * D + a;
                            assert(n == output_wires.start + a);
                            assert(constraints@[i * D + a] == difference@[a]);
                            assert(ext_target_value(values, difference@[a])
                                == ext_algebra_target_value(values, residual)[a]);
                            assert(ext_algebra_target_value(values, out)[a] == ext_target_value(
                                values,
                                out.0[a],
                            ));
                            assert(out.0[a] == vars.local_wires@[n]);
                        }
                    }
                }
            }
        }
        proof {
            computed.lemma_extends_transitive(*builder, *old(builder));
            assert forall|values: Map<Target, int>| #[trigger]
                builder.satisfied_by(values) implies old(builder).satisfied_by(values)
                && forall|i: int, a: int|
                0 <= i < 12 && 0 <= a < D ==> ext_target_value(
                    values,
                    #[trigger] constraints@[i * D + a],
                ) == mds_gate_residual(
                    target_wire_values(values, vars.local_wires@),
                    D as nat,
                    i,
                    a,
                ) by {
                assert(computed.satisfied_by(values));
                assert forall|i: int, a: int| 0 <= i < 12 && 0 <= a < D implies ext_target_value(
                    values,
                    #[trigger] constraints@[i * D + a],
                ) == mds_gate_residual(
                    target_wire_values(values, vars.local_wires@),
                    D as nat,
                    i,
                    a,
                ) by {
                    assert(ext_algebra_target_value(values, computed_outputs[i])
                        == algebra_state_target_values(values, computed_outputs)[i]);
                }
            }
        }
        constraints
    }

    /// The generators that fill the wires of a row of this gate: the one
    /// that fills its outputs.
    fn generators(&self, row: usize, _local_constants: &[F]) -> (generators: Vec<
        PoseidonMdsGenerator<D>,
    >)
        ensures
            generators@ == seq![PoseidonMdsGenerator::<D> { row }],
    {
        let mut generators = Vec::new();
        generators.push(PoseidonMdsGenerator { row });
        assert(generators@ =~= seq![PoseidonMdsGenerator::<D> { row }]);
        generators
    }

    fn num_wires(&self) -> (n: usize)
        ensures
            n == 2 * D * SPONGE_WIDTH,
    {
        assert(2 * D * SPONGE_WIDTH == 2 * SPONGE_WIDTH * D) by (nonlinear_arith);
        PoseidonMdsGate::<F, D>::num_wires(self)
    }

    /// The number of constants that a row of this gate uses: none.
    fn num_constants(&self) -> (n: usize)
        ensures
            n == 0,
    {
        0
    }

    /// The degree of the constraints of this gate: they are linear.
    fn degree(&self) -> (n: usize)
        ensures
            n == 1,
    {
        1
    }

    /// The number of constraints of this gate: one for each coefficient
    /// of each lane.
    fn num_constraints(&self) -> (n: usize)
        ensures
            n == SPONGE_WIDTH * D,
    {
        assert(SPONGE_WIDTH * D <= 2 * SPONGE_WIDTH * D) by (nonlinear_arith);
        SPONGE_WIDTH * D
    }
}

/// Fills the output wires of an MDS gate in a row from its input wires.
#[derive(Clone, Copy, Debug)]
pub struct PoseidonMdsGenerator<const D: usize> {
    pub row: usize,
}

/// What the generator of a row produces for output lane `i`: for each wire
/// of the lane the coefficient of the full linear layer of the inputs.
pub open spec fn mds_generated_lane(values: Map<Target, int>, row: usize, d: nat, i: int) -> Seq<
    (Target, int),
> {
    Seq::new(
        d,
        |k: int|
            (
                Target::Wire { row, column: (12 * d + i * d + k) as usize },
                mds_layer_field_spec(mds_gate_inputs(values, row, d), d)[i][k],
            ),
    )
}

/// What the generator of a row produces for the first `n` output lanes,
/// in order.
pub open spec fn mds_generated(values: Map<Target, int>, row: usize, d: nat, n: int) -> Seq<
    (Target, int),
>
    decreases n,
{
    if n <= 0 {
        Seq::empty()
    } else {
        mds_generated(values, row, d, n - 1) + mds_generated_lane(values, row, d, n - 1)
    }
}

/// The produced values are `n * d`, and the one for coefficient `k` of
/// lane `i` is at `i * d + k`.
pub proof fn lemma_mds_generated_index(
    values: Map<Target, int>,
    row: usize,
    d: nat,
    n: int,
    i: int,
    k: int,
)
    requires
        0 <= i < n,
        0 <= k < d,
    ensures
        mds_generated(values, row, d, n).len() == n * d,
        0 <= i * d + k < n * d,
        mds_generated(values, row, d, n)[i * d + k] == mds_generated_lane(values, row, d, i)[k],
    decreases n,
{
    lemma_block_bounds(i, n - 1, k, d as int);
    assert(n * d == (n - 1) * d + d) by (nonlinear_arith);
    if n > 1 {
        if i < n - 1 {
            lemma_mds_generated_index(values, row, d, n - 1, i, k);
        } else {
            lemma_mds_generated_index(values, row, d, n - 1, 0, k);
        }
    } else {
        assert(mds_generated(values, row, d, 0).len() == 0);
    }
}

/// What the generator of a row produces depends on the input wires of the
/// row alone: assignments that agree on them give the same values.
pub proof fn lemma_mds_generated_deterministic(
    first: Map<Target, int>,
    second: Map<Target, int>,
    row: usize,
    d: nat,
    n: int,
)
    requires
        forall|m: int|
            0 <= m < 12 * d ==> first[#[trigger] wires_of_range(row, 0, (12 * d) as usize)[m]]
                == second[wires_of_range(row, 0, (12 * d) as usize)[m]],
        12 * d <= usize::MAX,
    ensures
        mds_gate_inputs(first, row, d) == mds_gate_inputs(second, row, d),
        mds_generated(first, row, d, n) == mds_generated(second, row, d, n),
    decreases n,
{
    let all = wires_of_range(row, 0, (12 * d) as usize);
    assert forall|i: int| 0 <= i < 12 implies #[trigger] mds_gate_inputs(first, row, d)[i]
        == mds_gate_inputs(second, row, d)[i] by {
        assert forall|k: int| 0 <= k < d implies mds_gate_inputs(first, row, d)[i][k]
            == mds_gate_inputs(second, row, d)[i][k] by {
            lemma_block_bounds(i, 12, k, d as int);
            assert(all[i * d + k] == Target::Wire { row, column: (i * d + k) as usize });
        }
        assert(mds_gate_inputs(first, row, d)[i] =~= mds_gate_inputs(second, row, d)[i]);
    }
    assert(mds_gate_inputs(first, row, d) =~= mds_gate_inputs(second, row, d));
    if n > 0 {
        lemma_mds_generated_deterministic(first, second, row, d, n - 1);
        assert(mds_generated_lane(first, row, d, n - 1) =~= mds_generated_lane(
            second,
            row,
            d,
            n - 1,
        ));
    }
}

/// Whether a target is a wire of the columns `start..end` of a row.
pub open spec fn is_wire_of(target: Target, row: usize, start: int, end: int) -> bool {
    match target {
        Target::Wire { row: r, column } => r == row && start <= column < end,
        Target::VirtualTarget { index } => false,
    }
}

/// Every value that the generator of an MDS gate produces is for an
/// output wire of its row.
pub proof fn lemma_mds_generated_targets(
    values: Map<Target, int>,
    row: usize,
    d: nat,
    n: int,
    m: int,
)
    requires
        0 <= n <= 12,
        0 <= m < mds_generated(values, row, d, n).len(),
        24 * d <= usize::MAX,
    ensures
        is_wire_of(mds_generated(values, row, d, n)[m].0, row, 12 * d as int, 12 * d + n * d),
    decreases n,
{
    if n > 0 {
        assert(n * d == (n - 1) * d + d) by (nonlinear_arith);
        assert(0 <= (n - 1) * d <= 11 * d) by (nonlinear_arith)
            requires
                1 <= n <= 12,
        ;
        let earlier = mds_generated(values, row, d, n - 1);
        if m < earlier.len() {
            lemma_mds_generated_targets(values, row, d, n - 1, m);
        } else {
            let k = m - earlier.len();
            assert(mds_generated(values, row, d, n)[m] == mds_generated_lane(
                values,
                row,
                d,
                n - 1,
            )[k]);
        }
    }
}

/// An assignment that gives the output wires of a row what the generator
/// produces from it meets the relation of the MDS gate in that row.
pub proof fn lemma_mds_generated_holds(values: Map<Target, int>, row: usize, d: nat)
    requires
        24 * d <= usize::MAX,
        forall|i: int, k: int|
            0 <= i < 12 && 0 <= k < d ==> values[(#[trigger] mds_generated_lane(
                values,
                row,
                d,
                i,
            )[k]).0] == mds_generated_lane(values, row, d, i)[k].1,
    ensures
        mds_gate_holds(values, row, d),
{
    let outputs = mds_gate_outputs(values, row, d);
    let computed = mds_layer_field_spec(mds_gate_inputs(values, row, d), d);
    assert forall|i: int| 0 <= i < 12 implies #[trigger] outputs[i] == computed[i] by {
        assert forall|k: int| 0 <= k < d implies outputs[i][k] == computed[i][k] by {
            lemma_block_bounds(i, 12, k, d as int);
            let entry = mds_generated_lane(values, row, d, i)[k];
            assert(values[entry.0] == entry.1);
        }
        assert(outputs[i] =~= computed[i]);
    }
    assert(outputs =~= computed);
}

impl<const D: usize> PoseidonMdsGenerator<D> {
    /// The targets that the generator reads: the input wires of its row.
    pub fn dependencies<F: PrimeField64>(&self) -> (targets: Vec<Target>)
        requires
            2 * SPONGE_WIDTH * D <= usize::MAX,
        ensures
            targets@ == wires_of_range(self.row, 0, (SPONGE_WIDTH * D) as usize),
    {
        let mut targets: Vec<Target> = Vec::new();
        assert(0 * D == 0) by (nonlinear_arith);
        assert(targets@ =~= wires_of_range(self.row, 0, 0));
        for i in 0..SPONGE_WIDTH
            invariant
                2 * SPONGE_WIDTH * D <= usize::MAX,
                targets@ == wires_of_range(self.row, 0, (i * D) as usize),
                i * D <= usize::MAX,
        {
            let range = PoseidonMdsGate::<F, D>::wires_input(i);
            let mut lane = Target::wires_from_range(self.row, range);
            let ghost before = targets@;
            let ghost added = lane@;
            targets.append(&mut lane);
            proof {
                assert((i + 1) * D == i * D + D) by (nonlinear_arith);
                assert(before + added =~= wires_of_range(self.row, 0, ((i + 1) * D) as usize));
            }
        }
        targets
    }

    /// Reads the input wires of the row, all of which have a value, and
    /// produces the values of the output wires: the full linear layer of
    /// the inputs.
    pub fn run_once<F: Poseidon>(
        &self,
        witness: &PartitionWitness<F>,
        out_buffer: &mut GeneratedValues<F>,
    )
        requires
            2 * SPONGE_WIDTH * D <= usize::MAX,
            assigns_all(witness@, wires_of_range(self.row, 0, (SPONGE_WIDTH * D) as usize)),
        ensures
            final(out_buffer)@ == old(out_buffer)@ + mds_generated(
                witness@,
                self.row,
                D as nat,
                12,
            ),
    {
        let mut inputs = [Extension::<F, D>::zero();12];
        assert(SPONGE_WIDTH * D <= 2 * SPONGE_WIDTH * D) by (nonlinear_arith);
        for i in 0..SPONGE_WIDTH
            invariant
                2 * SPONGE_WIDTH * D <= usize::MAX,
                SPONGE_WIDTH * D <= 2 * SPONGE_WIDTH * D,
                assigns_all(witness@, wires_of_range(self.row, 0, (SPONGE_WIDTH * D) as usize)),
                forall|j: int|
                    0 <= j < i ==> (#[trigger] inputs[j])@ == mds_gate_inputs(
                        witness@,
                        self.row,
                        D as nat,
                    )[j],
        {
            let range = PoseidonMdsGate::<F, D>::wires_input(i);
            let target = ExtensionTarget::from_range(self.row, range);
            proof {
                let all = wires_of_range(self.row, 0, (SPONGE_WIDTH * D) as usize);
                assert forall|k: int| 0 <= k < D implies witness@.dom().contains(
                    #[trigger] target.0@[k],
                ) by {
                    assert(target.0@[k] == all[i * D + k]);
                }
            }
            let input = witness.get_extension_target(target);
            proof {
                assert(input@ =~= mds_gate_inputs(witness@, self.row, D as nat)[i as int]);
            }
            inputs[i] = input;
        }
        assert(ext_state_values(inputs) =~= mds_gate_inputs(witness@, self.row, D as nat));

        let outputs = F::mds_layer_field(&inputs);

        for i in 0..SPONGE_WIDTH
            invariant
                2 * SPONGE_WIDTH * D <= usize::MAX,
                ext_state_values(outputs) == mds_layer_field_spec(
                    mds_gate_inputs(witness@, self.row, D as nat),
                    D as nat,
                ),
                out_buffer@ == old(out_buffer)@ + mds_generated(
                    witness@,
                    self.row,
                    D as nat,
                    i as int,
                ),
        {
            let range = PoseidonMdsGate::<F, D>::wires_output(i);
            let target = ExtensionTarget::from_range(self.row, range);
            let ghost before = out_buffer@;
            out_buffer.set_extension_target(target, outputs[i]);
            proof {
                assert(outputs[i as int]@ == ext_state_values(outputs)[i as int]);
                assert(extension_entries(target, outputs[i as int]@) =~= mds_generated_lane(
                    witness@,
                    self.row,
                    D as nat,
                    i as int,
                ));
                assert(out_buffer@ =~= old(out_buffer)@ + mds_generated(
                    witness@,
                    self.row,
                    D as nat,
                    i + 1,
                ));
            }
        }
    }

    /// Runs the generator if all the targets that it reads have a value;
    /// says whether it ran, and produces nothing if it did not.
    pub fn run<F: Poseidon>(
        &self,
        witness: &PartitionWitness<F>,
        out_buffer: &mut GeneratedValues<F>,
    ) -> (ran: bool)
        requires
            2 * SPONGE_WIDTH * D <= usize::MAX,
        ensures
            ran == assigns_all(
                witness@,
                wires_of_range(self.row, 0, (SPONGE_WIDTH * D) as usize),
            ),
            ran ==> final(out_buffer)@ == old(out_buffer)@ + mds_generated(
                witness@,
                self.row,
                D as nat,
                12,
            ),
            !ran ==> final(out_buffer)@ == old(out_buffer)@,
    {
        let dependencies = self.dependencies::<F>();
        if witness.contains_all(dependencies.as_slice()) {
            self.run_once(witness, out_buffer);
            true
        } else {
            false
        }
    }
}

} // verus!

//! The Poseidon2 permutation of width 12: its rounds on field elements.

use crate::field::extension::{
    ext_add, ext_embed, ext_scale, lemma_ext_add_commutative, lemma_ext_mul_embed_right, Extension,
};
use crate::field::types::{field_add, lemma_add_congruent, u96_value, PrimeField64, ORDER};
use crate::gates::poseidon2::{poseidon_gate_connections, row_wires, swapped_inputs, PoseidonGate};
use crate::gates::poseidon2_mds::{
    mds_gate_connections, mds_gate_inputs, mds_gate_lane_connections, mds_gate_outputs,
    PoseidonMdsGate,
};
use crate::hash::hash_types::HashOut;
use crate::hash::hashing::{
    compress, field_values, hash_n_to_hash_no_pad, hash_no_pad_spec, two_to_one_spec,
};
use crate::hash::mds_matrix::{
    lemma_group_mix_bound, lemma_mds_block_ext_scaled_left, lemma_mds_lane,
    lemma_mds_stored_ext_from_zero, lemma_mds_two_stage_ext, mds_group_ext, mds_group_mix,
    mds_layer_field_spec, mds_layer_spec, mds_stored_ext, mds_two_stage, mds_two_stage_ext,
};
use crate::hash::partial_matrix::{
    diag_values, ext_sum, lemma_mds_partial_fast, lemma_mds_partial_fast_ext, lemma_sum12_congruent,
    mds_partial_fast_ext, mds_partial_layer_field_spec, mds_partial_layer_spec, prefix_sum12, sum12,
};
use crate::hash::poseidon2_circuit::{
    constant_layer_rows, lemma_mds_group_rows, mds_final_rows, mds_group_results, mds_groups_rows,
    mds_layer_rows, mds_partial_layer_rows, mds_stored_rows, partial_lane_rows, partial_sum_rows,
    sbox_layer_rows, scalar_mul_add_rows,
};
use crate::hash::poseidon2_spec::{
    constant_layer_field_spec, constant_layer_spec, ext_sbox_spec, ext_state_values,
    full_rounds_iter, full_rounds_spec, lemma_ext_exp_seven, lemma_ext_sbox_degree_one,
    partial_rounds_iter, partial_rounds_spec, poseidon_spec, round_constant, sbox_layer_field_spec,
    sbox_layer_spec, sbox_spec,
};
use crate::hash::round_constants::{lemma_round_constants_canonical, ALL_ROUND_CONSTANTS};
use crate::iop::ext_target::{
    ext_state_target_values, ext_target_value, lemma_ext_target_of, ExtensionTarget,
};
use crate::iop::target::{target_values, wires_of_range, BoolTarget, Target};
use crate::plonk::circuit_builder::{
    constant_rows, exp_u64_rows, ext_add_many, extension_connections, CircuitBuilder, Operation,
};
use vstd::prelude::*;

verus! {

/// The number of lanes of the state.
pub const SPONGE_WIDTH: usize = 12;

/// The number of full rounds before the partial rounds, and again after
/// them. Changing any of these numbers asks for other round constants.
pub const HALF_N_FULL_ROUNDS: usize = 4;

/// The number of full rounds.
pub const N_FULL_ROUNDS_TOTAL: usize = 2 * HALF_N_FULL_ROUNDS;

/// The number of partial rounds.
pub const N_PARTIAL_ROUNDS: usize = 22;

/// The number of rounds.
pub const N_ROUNDS: usize = N_FULL_ROUNDS_TOTAL + N_PARTIAL_ROUNDS;

/// The number of round constants: one for each lane of each round.
pub const N_ROUND_CONSTANTS: usize = SPONGE_WIDTH * N_ROUNDS;

/// The canonical values of the twelve lanes of a state.
pub open spec fn state_values<F: PrimeField64>(state: [F; 12]) -> Seq<int> {
    Seq::new(12, |i: int| state[i].value())
}

/// Splits a number below `2^96` into its low 64 and its high 32 bits.
fn split_u96(sum: u128) -> (n: (u64, u32))
    requires
        sum < 0x1_0000_0000_0000_0000_0000_0000,
    ensures
        u96_value(n) == sum,
{
    let lo: u128 = sum & 0xFFFF_FFFF_FFFF_FFFF;
    let hi: u128 = sum >> 64;
    assert(lo <= 0xFFFF_FFFF_FFFF_FFFF && hi <= 0xFFFF_FFFF && lo + hi * 0x1_0000_0000_0000_0000
        == sum) by (bit_vector)
        requires
            sum < 0x1_0000_0000_0000_0000_0000_0000u128,
            lo == sum & 0xFFFF_FFFF_FFFF_FFFF,
            hi == sum >> 64,
    ;
    (lo as u64, hi as u32)
}

/// The Poseidon2 permutation over a field of order `ORDER`.
pub trait Poseidon: PrimeField64 {
    /// The diagonal of the matrix of the partial-round linear layer, which
    /// is the matrix of ones plus this diagonal.
    const MDS_MATRIX_DIAG: [u64; 12];

    /// The constants that the partial rounds add to lane 0.
    const FAST_PARTIAL_ROUND_CONSTANTS: [u64; 22];

    /// The constants are canonical, and those of the partial rounds are
    /// the ones that the table of round constants holds for lane 0.
    proof fn lemma_constants()
        ensures
            forall|i: int| 0 <= i < 12 ==> Self::MDS_MATRIX_DIAG[i] < ORDER,
            forall|i: int|
                0 <= i < 22 ==> Self::FAST_PARTIAL_ROUND_CONSTANTS[i] == ALL_ROUND_CONSTANTS[(
                HALF_N_FULL_ROUNDS + i) * 12],
    ;

    /// The full linear layer.
    #[verifier::rlimit(50)]
    fn mds_layer(state: &[Self; 12]) -> (result: [Self; 12])
        ensures
            state_values(result) == mds_layer_spec(state_values(*state)),
    {
        let mut result = [Self::zero();12];
        let mut result_u128 = [0u128;12];
        let mut stored = [0u128;4];
        let ghost mut raw: Seq<int> = Seq::empty();

        // Applying cheap 4x4 MDS matrix to each 4-element part of the state
        for i in 0..3usize
            invariant
                raw.len() == 4 * i,
                forall|j: int|
                    0 <= j < 4 * i ==> 0 <= #[trigger] raw[j] <= 0xFFFF_FFFF_FFFF_FFFF && raw[j] % (
                    ORDER as int) == state[j].value(),
                forall|j: int|
                    0 <= j < 4 * i ==> #[trigger] result_u128[j] == mds_group_mix(raw, j / 4, j % 4),
        {
            let start_index = i * 4;
            let s0 = state[start_index].to_noncanonical_u64() as u128;
            let s1 = state[start_index + 1].to_noncanonical_u64() as u128;
            let s2 = state[start_index + 2].to_noncanonical_u64() as u128;
            let s3 = state[start_index + 3].to_noncanonical_u64() as u128;
            let t0 = s0 + s1;
            let t1 = s2 + s3;
            let t2 = t1 + 2 * s1;
            let t3 = t0 + 2 * s3;
            let t4 = t3 + 4 * t1;
            let t5 = t2 + 4 * t0;

            result_u128[start_index] = t3 + t5;
            result_u128[start_index + 1] = t5;
            result_u128[start_index + 2] = t2 + t4;
            result_u128[start_index + 3] = t4;
            proof {
                raw = raw.push(s0 as int).push(s1 as int).push(s2 as int).push(s3 as int);
            }
        }

        // Applying second cheap matrix
        proof {
            assert forall|j: int| 0 <= j < 12 implies #[trigger] result_u128[j] <= 16
                * 0xFFFF_FFFF_FFFF_FFFF by {
                lemma_group_mix_bound(raw, j / 4, j % 4);
            }
        }
        for i in 0..4usize
            invariant
                forall|j: int| 0 <= j < 12 ==> #[trigger] result_u128[j] <= 16 * 0xFFFF_FFFF_FFFF_FFFF,
                forall|k: int|
                    0 <= k < i ==> #[trigger] stored[k] == result_u128[k] + result_u128[4 + k]
                        + result_u128[8 + k],
        {
            stored[i] = result_u128[i] + result_u128[4 + i] + result_u128[8 + i];
        }
        proof {
            assert forall|j: int| 0 <= j < 12 implies #[trigger] result_u128[j] + stored[j % 4]
                == mds_two_stage(raw, j) by {
                let k = j % 4;
                assert(stored[k] == result_u128[k] + result_u128[4 + k] + result_u128[8 + k]);
                assert(result_u128[k] == mds_group_mix(raw, 0, k));
                assert(result_u128[4 + k] == mds_group_mix(raw, 1, k));
                assert(result_u128[8 + k] == mds_group_mix(raw, 2, k));
            }
        }
        for i in 0..12usize
            invariant
                raw.len() == 12,
                forall|j: int| 0 <= j < 12 ==> 0 <= #[trigger] raw[j] <= 0xFFFF_FFFF_FFFF_FFFF,
                forall|j: int| 0 <= j < 12 ==> #[trigger] raw[j] % (ORDER as int) == state[j].value(),
                forall|j: int|
                    0 <= j < 12 ==> #[trigger] result_u128[j] + stored[j % 4] == mds_two_stage(
                        raw,
                        j,
                    ),
                forall|j: int|
                    0 <= j < i ==> #[trigger] result[j].value() == mds_layer_spec(
                        state_values(*state),
                    )[j],
        {
            proof {
                state[i as int].lemma_value_canonical();
                assert forall|j: int| 0 <= j < 12 implies raw[j] % (ORDER as int) == state_values(
                    *state,
                )[j] % (ORDER as int) by {
                    state[j].lemma_value_canonical();
                }
                lemma_mds_lane(raw, state_values(*state), i as int);
            }
            let sum = result_u128[i] + stored[i % 4];
            let n = split_u96(sum);
            result[i] = Self::from_noncanonical_u96(n);
        }
        assert(state_values(result) =~= mds_layer_spec(state_values(*state)));
        result
    }

    /// Same as `mds_layer` for the extension of degree `D`.
    fn mds_layer_field<const D: usize>(state: &[Extension<Self, D>; 12]) -> (result: [Extension<
        Self,
        D,
    >; 12])
        ensures
            ext_state_values(result) == mds_layer_field_spec(ext_state_values(*state), D as nat),
    {
        let mut result = [Extension::<Self, D>::zero();12];
        let mut stored = [Extension::<Self, D>::zero();4];
        let two = Extension::<Self, D>::two();
        let four = Extension::<Self, D>::from_canonical_u8(4);
        let ghost sv = ext_state_values(*state);

        // Applying cheap 4x4 MDS matrix to each 4-element part of the state
        for i in 0..3usize
            invariant
                two@ == ext_embed(2, D as nat),
                four@ == ext_embed(4, D as nat),
                sv == ext_state_values(*state),
                forall|j: int|
                    0 <= j < 4 * i ==> (#[trigger] result[j])@ == mds_group_ext(sv, j / 4, j % 4),
        {
            let start_index = i * 4;
            let t0 = state[start_index].add(state[start_index + 1]);
            let t1 = state[start_index + 2].add(state[start_index + 3]);
            let t2 = t1.multiply_accumulate(state[start_index + 1], two);
            let t3 = t0.multiply_accumulate(state[start_index + 3], two);
            let t4 = t3.multiply_accumulate(t1, four);
            let t5 = t2.multiply_accumulate(t0, four);
            proof {
                lemma_ext_mul_embed_right(state[start_index + 1]@, 2);
                lemma_ext_mul_embed_right(state[start_index + 3]@, 2);
                lemma_ext_mul_embed_right(t1@, 4);
                lemma_ext_mul_embed_right(t0@, 4);
            }

            result[start_index] = t3.add(t5);
            result[start_index + 1] = t5;
            result[start_index + 2] = t2.add(t4);
            result[start_index + 3] = t4;
            proof {
                let g = i as int;
                assert(sv[4 * g] == state[start_index as int]@);
                assert(sv[4 * g + 1] == state[start_index + 1]@);
                assert(sv[4 * g + 2] == state[start_index + 2]@);
                assert(sv[4 * g + 3] == state[start_index + 3]@);
                assert(result[4 * g]@ == mds_group_ext(sv, g, 0));
                assert(result[4 * g + 1]@ == mds_group_ext(sv, g, 1));
                assert(result[4 * g + 2]@ == mds_group_ext(sv, g, 2));
                assert(result[4 * g + 3]@ == mds_group_ext(sv, g, 3));
            }
        }

        // Applying second cheap matrix
        for i in 0..4usize
            invariant
                forall|j: int|
                    0 <= j < 12 ==> (#[trigger] result[j])@ == mds_group_ext(sv, j / 4, j % 4),
                forall|k: int| 0 <= k < i ==> (#[trigger] stored[k])@ == mds_stored_ext(sv, k),
        {
            stored[i] = result[i].add(result[4 + i]).add(result[8 + i]);
        }
        for i in 0..12usize
            invariant
                sv == ext_state_values(*state),
                forall|k: int| 0 <= k < 4 ==> (#[trigger] stored[k])@ == mds_stored_ext(sv, k),
                forall|j: int|
                    i <= j < 12 ==> (#[trigger] result[j])@ == mds_group_ext(sv, j / 4, j % 4),
                forall|j: int|
                    0 <= j < i ==> (#[trigger] result[j])@ == mds_layer_field_spec(sv, D as nat)[j],
        {
            result[i] = result[i].add(stored[i % 4]);
            proof {
                assert(result[i as int]@ == mds_two_stage_ext(sv, i as int));
                lemma_mds_two_stage_ext(sv, D as nat, i as int);
            }
        }
        assert(ext_state_values(result) =~= mds_layer_field_spec(sv, D as nat));
        result
    }

    /// Same as `mds_layer` in a circuit: with enough routed wires one MDS
    /// gate, connected to the state; otherwise rows of arithmetic.
    #[verifier::rlimit(80)]
    fn mds_layer_circuit<const D: usize>(
        builder: &mut CircuitBuilder<Self, D>,
        state: &[ExtensionTarget<D>; 12],
    ) -> (result: [ExtensionTarget<D>; 12])
        requires
            2 * SPONGE_WIDTH * D <= usize::MAX,
        ensures
            final(builder).extends(*old(builder)),
            final(builder).virtual_target_index == old(builder).virtual_target_index,
            forall|values: Map<Target, int>| #[trigger]
                final(builder).satisfied_by(values) ==> old(builder).satisfied_by(values)
                    && ext_state_target_values(values, result) == mds_layer_field_spec(
                    ext_state_target_values(values, *state),
                    D as nat,
                ),
            old(builder).config.num_routed_wires >= 2 * D * SPONGE_WIDTH ==> {
                &&& final(builder).gate_instances@ == old(builder).gate_instances@.push(
                    Operation::PoseidonMds,
                )
                &&& final(builder).copy_constraints@ == old(builder).copy_constraints@
                    + mds_gate_connections(
                    *state,
                    old(builder).gate_instances@.len() as usize,
                    12,
                )
                &&& forall|i: int|
                    0 <= i < 12 ==> (#[trigger] result[i]).0@ == wires_of_range(
                        old(builder).gate_instances@.len() as usize,
                        ((SPONGE_WIDTH + i) * D) as usize,
                        ((SPONGE_WIDTH + i + 1) * D) as usize,
                    )
            },
            old(builder).config.num_routed_wires < 2 * D * SPONGE_WIDTH ==> {
                &&& final(builder).gate_rows() == old(builder).gate_rows()
                &&& final(builder).copy_constraints == old(builder).copy_constraints
                &&& (final(builder).gate_instances@, result@) == mds_layer_rows(
                    old(builder).gate_instances@,
                    state@,
                )
            },
    {
        // If we have enough routed wires, we will use PoseidonMdsGate.
        let mds_gate = PoseidonMdsGate::<Self, D>::new();
        if builder.config.num_routed_wires >= mds_gate.num_wires() {
            let index = builder.add_gate(mds_gate.operation());
            let ghost with_gate = *builder;
            assert(builder.copy_constraints@ =~= old(builder).copy_constraints@
                + mds_gate_connections(*state, index, 0));
            for i in 0..SPONGE_WIDTH
                invariant
                    2 * SPONGE_WIDTH * D <= usize::MAX,
                    index == old(builder).gate_instances@.len(),
                    builder.gate_instances == with_gate.gate_instances,
                    builder.virtual_target_index == old(builder).virtual_target_index,
                    builder.copy_constraints@ == old(builder).copy_constraints@
                        + mds_gate_connections(*state, index, i as int),
                    builder.extends(with_gate),
                    forall|values: Map<Target, int>| #[trigger]
                        builder.satisfied_by(values) ==> with_gate.satisfied_by(values)
                            && forall|j: int|
                            0 <= j < i ==> ext_target_value(values, #[trigger] state[j])
                                == mds_gate_inputs(values, index, D as nat)[j],
            {
                let input_wire = PoseidonMdsGate::<Self, D>::wires_input(i);
                let input = ExtensionTarget::from_range(index, input_wire);
                builder.connect_extension(state[i], input);
                proof {
                    assert(extension_connections(state[i as int], input, D as int)
                        =~= mds_gate_lane_connections(*state, index, i as int));
                    assert(builder.copy_constraints@ =~= old(builder).copy_constraints@
                        + mds_gate_connections(*state, index, i + 1));
                    assert forall|values: Map<Target, int>| ext_target_value(values, input)
                        == mds_gate_inputs(values, index, D as nat)[i as int] by {
                        assert(ext_target_value(values, input) =~= mds_gate_inputs(
                            values,
                            index,
                            D as nat,
                        )[i as int]);
                    }
                }
            }
            let first = ExtensionTarget::from_range(
                index,
                PoseidonMdsGate::<Self, D>::wires_output(0),
            );
            let mut result = [first;12];
            for i in 0..SPONGE_WIDTH
                invariant
                    2 * SPONGE_WIDTH * D <= usize::MAX,
                    forall|j: int|
                        0 <= j < i ==> (#[trigger] result[j]).0@ == wires_of_range(
                            index,
                            ((SPONGE_WIDTH + j) * D) as usize,
                            ((SPONGE_WIDTH + j + 1) * D) as usize,
                        ),
            {
                let output_wire = PoseidonMdsGate::<Self, D>::wires_output(i);
                result[i] = ExtensionTarget::from_range(index, output_wire);
            }
            proof {
                assert forall|values: Map<Target, int>| #[trigger]
                    builder.satisfied_by(values) implies old(builder).satisfied_by(values)
                    && ext_state_target_values(values, result) == mds_layer_field_spec(
                    ext_state_target_values(values, *state),
                    D as nat,
                ) by {
                    assert(with_gate.satisfied_by(values));
                    assert(ext_state_target_values(values, *state) =~= mds_gate_inputs(
                        values,
                        index,
                        D as nat,
                    ));
                    assert forall|j: int| 0 <= j < 12 implies ext_target_value(values, result[j])
                        == mds_gate_outputs(values, index, D as nat)[j] by {
                        assert(((SPONGE_WIDTH + j) * D) as usize == 12 * D + j * D)
                            by (nonlinear_arith)
                            requires
                                0 <= j < 12,
                                2 * SPONGE_WIDTH * D <= usize::MAX,
                        ;
                        assert(ext_target_value(values, result[j]) =~= mds_gate_outputs(
                            values,
                            index,
                            D as nat,
                        )[j]);
                    }
                    assert(ext_state_target_values(values, result) =~= mds_gate_outputs(
                        values,
                        index,
                        D as nat,
                    ));
                }
            }
            result
        } else {
            let zero = builder.zero_extension();
            let mut result = [zero;12];
            let mut stored = [zero;4];
            let two = builder.constant(Self::two());
            let four = builder.constant(Self::from_canonical_u8(4));
            let ghost constants = builder.gate_instances@;
            assert(result@.subrange(0, 0) =~= Seq::<ExtensionTarget<D>>::empty());

            // Applying cheap 4x4 MDS matrix to each 4-element part of the state
            for i in 0..3usize
                invariant
                    (builder.gate_instances@, result@.subrange(0, 4 * i)) == mds_groups_rows(
                        constants,
                        state@,
                        two,
                        four,
                        i as int,
                    ),
                    builder.extends(*old(builder)),
                    builder.gate_rows() == old(builder).gate_rows(),
                    builder.copy_constraints == old(builder).copy_constraints,
                    builder.virtual_target_index == old(builder).virtual_target_index,
                    forall|values: Map<Target, int>| #[trigger]
                        builder.satisfied_by(values) ==> {
                            &&& old(builder).satisfied_by(values)
                            &&& values[two] == 2
                            &&& values[four] == 4
                            &&& forall|j: int|
                                0 <= j < 4 * i ==> ext_target_value(values, #[trigger] result[j])
                                    == mds_group_ext(
                                    ext_state_target_values(values, *state),
                                    j / 4,
                                    j % 4,
                                )
                        },
            {
                let ghost before = *builder;
                let ghost earlier = result;
                let start_index = i * 4;
                let ghost rows0 = builder.gate_instances@;
                let t0 = builder.add_extension(state[start_index], state[start_index + 1]);
                let ghost rows1 = builder.gate_instances@;
                let t1 = builder.add_extension(state[start_index + 2], state[start_index + 3]);
                let ghost rows2 = builder.gate_instances@;
                let t2 = builder.scalar_mul_add_extension(two, state[start_index + 1], t1);
                let ghost rows3 = builder.gate_instances@;
                let t3 = builder.scalar_mul_add_extension(two, state[start_index + 3], t0);
                let ghost rows4 = builder.gate_instances@;
                let t4 = builder.scalar_mul_add_extension(four, t1, t3);
                let ghost rows5 = builder.gate_instances@;
                let t5 = builder.scalar_mul_add_extension(four, t0, t2);
                let ghost rows6 = builder.gate_instances@;

                result[start_index] = builder.add_extension(t3, t5);
                let ghost rows7 = builder.gate_instances@;
                result[start_index + 1] = t5;
                result[start_index + 2] = builder.add_extension(t2, t4);
                result[start_index + 3] = t4;
                proof {
                    lemma_ext_target_of(t0);
                    lemma_ext_target_of(t1);
                    lemma_ext_target_of(t2);
                    lemma_ext_target_of(t3);
                    lemma_ext_target_of(t4);
                    lemma_ext_target_of(t5);
                    lemma_ext_target_of(result[start_index as int]);
                    lemma_ext_target_of(result[start_index + 2]);
                    assert(rows3 =~= rows2 + scalar_mul_add_rows(
                        rows2.len() as int,
                        two,
                        state@[4 * i + 1],
                        t1,
                    ));
                    assert(rows4 =~= rows3 + scalar_mul_add_rows(
                        rows3.len() as int,
                        two,
                        state@[4 * i + 3],
                        t0,
                    ));
                    assert(rows5 =~= rows4 + scalar_mul_add_rows(rows4.len() as int, four, t1, t3));
                    assert(rows6 =~= rows5 + scalar_mul_add_rows(rows5.len() as int, four, t0, t2));
                    lemma_mds_group_rows(
                        seq![
                            rows0,
                            rows1,
                            rows2,
                            rows3,
                            rows4,
                            rows5,
                            rows6,
                            rows7,
                            builder.gate_instances@,
                        ],
                        state@,
                        two,
                        four,
                        i as int,
                    );
                    assert(result@.subrange(0, 4 * (i + 1)) =~= earlier@.subrange(0, 4 * i)
                        + mds_group_results::<D>(rows0.len() as int));
                    assert forall|values: Map<Target, int>| #[trigger]
                        builder.satisfied_by(values) implies {
                        &&& before.satisfied_by(values)
                        &&& forall|j: int|
                            0 <= j < 4 * (i + 1) ==> ext_target_value(values, #[trigger] result[j])
                                == mds_group_ext(
                                ext_state_target_values(values, *state),
                                j / 4,
                                j % 4,
                            )
                    } by {
                        let sv = ext_state_target_values(values, *state);
                        let g = i as int;
                        lemma_mds_block_ext_scaled_left(
                            sv[4 * g],
                            sv[4 * g + 1],
                            sv[4 * g + 2],
                            sv[4 * g + 3],
                        );
                        assert(before.satisfied_by(values));
                        assert forall|j: int| 0 <= j < 4 * (i + 1) implies ext_target_value(
                            values,
                            #[trigger] result[j],
                        ) == mds_group_ext(sv, j / 4, j % 4) by {
                            if j < 4 * i {
                                assert(result[j] == earlier[j]);
                            }
                        }
                    }
                }
            }

            // Applying second cheap matrix
            let ghost mixed = result@;
            let ghost with_groups = builder.gate_instances@;
            assert(result@.subrange(0, 12) =~= result@);
            assert(stored@.subrange(0, 0) =~= Seq::<ExtensionTarget<D>>::empty());
            for i in 0..4usize
                invariant
                    mixed == result@,
                    (builder.gate_instances@, stored@.subrange(0, i as int)) == mds_stored_rows(
                        with_groups,
                        mixed,
                        i as int,
                    ),
                    builder.extends(*old(builder)),
                    builder.gate_rows() == old(builder).gate_rows(),
                    builder.copy_constraints == old(builder).copy_constraints,
                    builder.virtual_target_index == old(builder).virtual_target_index,
                    forall|values: Map<Target, int>| #[trigger]
                        builder.satisfied_by(values) ==> {
                            &&& old(builder).satisfied_by(values)
                            &&& forall|j: int|
                                0 <= j < 12 ==> ext_target_value(values, #[trigger] result[j])
                                    == mds_group_ext(
                                    ext_state_target_values(values, *state),
                                    j / 4,
                                    j % 4,
                                )
                            &&& forall|k: int|
                                0 <= k < i ==> ext_target_value(values, #[trigger] stored[k])
                                    == mds_stored_ext(ext_state_target_values(values, *state), k)
                        },
            {
                let ghost before = *builder;
                let ghost earlier = stored;
                let terms = [result[i], result[4 + i], result[8 + i]];
                stored[i] = builder.add_many_extension(&terms);
                proof {
                    assert(terms@ =~= seq![mixed[i as int], mixed[4 + i], mixed[8 + i]]);
                    assert(stored@.subrange(0, i + 1) =~= earlier@.subrange(0, i as int).push(
                        stored[i as int],
                    ));
                    assert forall|values: Map<Target, int>| #[trigger]
                        builder.satisfied_by(values) implies {
                        &&& before.satisfied_by(values)
                        &&& forall|k: int|
                            0 <= k < i + 1 ==> ext_target_value(values, #[trigger] stored[k])
                                == mds_stored_ext(ext_state_target_values(values, *state), k)
                    } by {
                        let sv = ext_state_target_values(values, *state);
                        reveal_with_fuel(ext_add_many, 4);
                        lemma_mds_stored_ext_from_zero(sv, D as nat, i as int);
                        assert(before.satisfied_by(values));
                        assert(ext_target_value(values, terms@[0]) == mds_group_ext(sv, 0, i as int));
                        assert(ext_target_value(values, terms@[1]) == mds_group_ext(sv, 1, i as int));
                        assert(ext_target_value(values, terms@[2]) == mds_group_ext(sv, 2, i as int));
                        assert forall|k: int| 0 <= k < i + 1 implies ext_target_value(
                            values,
                            #[trigger] stored[k],
                        ) == mds_stored_ext(sv, k) by {
                            if k < i {
                                assert(stored[k] == earlier[k]);
                            }
                        }
                    }
                }
            }
            let ghost sums = stored@;
            let ghost with_sums = builder.gate_instances@;
            assert(stored@.subrange(0, 4) =~= stored@);
            assert(result@.subrange(0, 0) =~= Seq::<ExtensionTarget<D>>::empty());
            for i in 0..12usize
                invariant
                    sums == stored@,
                    forall|j: int| i <= j < 12 ==> result[j] == mixed[j],
                    (builder.gate_instances@, result@.subrange(0, i as int)) == mds_final_rows(
                        with_sums,
                        mixed,
                        sums,
                        i as int,
                    ),
                    builder.extends(*old(builder)),
                    builder.gate_rows() == old(builder).gate_rows(),
                    builder.copy_constraints == old(builder).copy_constraints,
                    builder.virtual_target_index == old(builder).virtual_target_index,
                    forall|values: Map<Target, int>| #[trigger]
                        builder.satisfied_by(values) ==> {
                            &&& old(builder).satisfied_by(values)
                            &&& forall|k: int|
                                0 <= k < 4 ==> ext_target_value(values, #[trigger] stored[k])
                                    == mds_stored_ext(ext_state_target_values(values, *state), k)
                            &&& forall|j: int|
                                i <= j < 12 ==> ext_target_value(values, #[trigger] result[j])
                                    == mds_group_ext(
                                    ext_state_target_values(values, *state),
                                    j / 4,
                                    j % 4,
                                )
                            &&& forall|j: int|
                                0 <= j < i ==> ext_target_value(values, #[trigger] result[j])
                                    == mds_layer_field_spec(
                                    ext_state_target_values(values, *state),
                                    D as nat,
                                )[j]
                        },
            {
                let ghost before = *builder;
                let ghost earlier = result;
                result[i] = builder.add_extension(result[i], stored[i % 4]);
                proof {
                    lemma_ext_target_of(result[i as int]);
                    assert(result@.subrange(0, i + 1) =~= earlier@.subrange(0, i as int).push(
                        result[i as int],
                    ));
                    assert forall|values: Map<Target, int>| #[trigger]
                        builder.satisfied_by(values) implies {
                        &&& before.satisfied_by(values)
                        &&& forall|j: int|
                            i + 1 <= j < 12 ==> ext_target_value(values, #[trigger] result[j])
                                == mds_group_ext(
                                ext_state_target_values(values, *state),
                                j / 4,
                                j % 4,
                            )
                        &&& forall|j: int|
                            0 <= j < i + 1 ==> ext_target_value(values, #[trigger] result[j])
                                == mds_layer_field_spec(
                                ext_state_target_values(values, *state),
                                D as nat,
                            )[j]
                    } by {
                        let sv = ext_state_target_values(values, *state);
                        assert(before.satisfied_by(values));
                        assert(ext_target_value(values, earlier[i as int]) == mds_group_ext(
                            sv,
                            i as int / 4,
                            i as int % 4,
                        ));
                        assert(ext_target_value(values, result[i as int]) == mds_two_stage_ext(
                            sv,
                            i as int,
                        ));
                        lemma_mds_two_stage_ext(sv, D as nat, i as int);
                        assert forall|j: int| 0 <= j < 12 && j != i implies result[j]
                            == earlier[j] by {}
                    }
                }
            }
            assert(result@.subrange(0, 12) =~= result@);
            proof {
                assert forall|values: Map<Target, int>| #[trigger]
                    builder.satisfied_by(values) implies ext_state_target_values(values, result)
                    == mds_layer_field_spec(ext_state_target_values(values, *state), D as nat) by {
                    assert(ext_state_target_values(values, result) =~= mds_layer_field_spec(
                        ext_state_target_values(values, *state),
                        D as nat,
                    ));
                }
            }
            result
        }
    }

    /// The linear layer of a partial round, in its fast form.
    fn mds_partial_layer_fast(state: &[Self; 12]) -> (result: [Self; 12])
        ensures
            state_values(result) == mds_partial_layer_spec(
                diag_values(Self::MDS_MATRIX_DIAG),
                state_values(*state),
            ),
    {
        let first = state[0].to_noncanonical_u64();
        let mut sum = first as u128;
        let ghost mut raw: Seq<int> = seq![first as int];
        for i in 1..12usize
            invariant
                raw.len() == i,
                forall|j: int|
                    0 <= j < i ==> 0 <= #[trigger] raw[j] <= 0xFFFF_FFFF_FFFF_FFFF && raw[j] % (
                    ORDER as int) == state[j].value(),
                sum <= i * 0xFFFF_FFFF_FFFF_FFFF,
                sum == prefix_sum12(raw, i as int),
        {
            if i < SPONGE_WIDTH {
                let si = state[i].to_noncanonical_u64() as u128;
                sum += si;
                proof {
                    raw = raw.push(si as int);
                }
            }
        }
        let n = split_u96(sum);
        let sum = Self::from_noncanonical_u96(n);

        let mut result = [Self::zero();12];
        for i in 0..12usize
            invariant
                raw.len() == 12,
                forall|j: int| 0 <= j < 12 ==> raw[j] % (ORDER as int) == state[j].value(),
                sum.value() == sum12(raw) % (ORDER as int),
                forall|j: int|
                    0 <= j < i ==> #[trigger] result[j].value() == mds_partial_layer_spec(
                        diag_values(Self::MDS_MATRIX_DIAG),
                        state_values(*state),
                    )[j],
        {
            if i < SPONGE_WIDTH {
                proof {
                    Self::lemma_constants();
                }
                let t = Self::from_canonical_u64(Self::MDS_MATRIX_DIAG[i]);
                result[i] = sum.multiply_accumulate(state[i], t);
                proof {
                    let diag = diag_values(Self::MDS_MATRIX_DIAG);
                    let values = state_values(*state);
                    lemma_sum12_congruent(raw, values);
                    assert(state[i as int].value() * t.value() == diag[i as int] * values[i as int])
                        by (nonlinear_arith)
                        requires
                            state[i as int].value() == values[i as int],
                            t.value() == diag[i as int],
                    ;
                    lemma_add_congruent(
                        sum.value(),
                        state[i as int].value() * t.value(),
                        sum12(values),
                        diag[i as int] * values[i as int],
                    );
                    lemma_mds_partial_fast(diag, values, i as int);
                }
            }
        }
        assert(state_values(result) =~= mds_partial_layer_spec(
            diag_values(Self::MDS_MATRIX_DIAG),
            state_values(*state),
        ));
        result
    }

    /// Same as `mds_partial_layer_fast` for the extension of degree `D`.
    fn mds_partial_layer_fast_field<const D: usize>(state: &[Extension<Self, D>; 12]) -> (result:
        [Extension<Self, D>; 12])
        ensures
            ext_state_values(result) == mds_partial_layer_field_spec(
                diag_values(Self::MDS_MATRIX_DIAG),
                ext_state_values(*state),
                D as nat,
            ),
    {
        let ghost sv = ext_state_values(*state);
        let ghost diag = diag_values(Self::MDS_MATRIX_DIAG);
        let mut sum = state[0];
        for i in 1..12usize
            invariant
                sv == ext_state_values(*state),
                sum@ == ext_sum(sv, i as int),
        {
            if i < SPONGE_WIDTH {
                sum = sum.add(state[i]);
            }
        }

        let mut result = [Extension::<Self, D>::zero();12];
        for i in 0..12usize
            invariant
                sv == ext_state_values(*state),
                diag == diag_values(Self::MDS_MATRIX_DIAG),
                sum@ == ext_sum(sv, 12),
                forall|j: int|
                    0 <= j < i ==> (#[trigger] result[j])@ == mds_partial_layer_field_spec(
                        diag,
                        sv,
                        D as nat,
                    )[j],
        {
            if i < SPONGE_WIDTH {
                proof {
                    Self::lemma_constants();
                }
                let t = Extension::<Self, D>::from_canonical_u64(Self::MDS_MATRIX_DIAG[i]);
                result[i] = sum.multiply_accumulate(state[i], t);
                proof {
                    lemma_ext_mul_embed_right(state[i as int]@, diag[i as int]);
                    assert(result[i as int]@ == mds_partial_fast_ext(diag, sv, i as int));
                    lemma_mds_partial_fast_ext(diag, sv, D as nat, i as int);
                }
            }
        }
        assert(ext_state_values(result) =~= mds_partial_layer_field_spec(diag, sv, D as nat));
        result
    }

    /// Same as `mds_partial_layer_fast` in a circuit, as rows of
    /// arithmetic.
    fn mds_partial_layer_fast_circuit<const D: usize>(
        builder: &mut CircuitBuilder<Self, D>,
        state: &[ExtensionTarget<D>; 12],
    ) -> (result: [ExtensionTarget<D>; 12])
        ensures
            (final(builder).gate_instances@, result@) == mds_partial_layer_rows(
                old(builder).gate_instances@,
                diag_values(Self::MDS_MATRIX_DIAG),
                state@,
            ),
            final(builder).extends(*old(builder)),
            final(builder).gate_rows() == old(builder).gate_rows(),
            final(builder).copy_constraints == old(builder).copy_constraints,
            final(builder).virtual_target_index == old(builder).virtual_target_index,
            forall|values: Map<Target, int>| #[trigger]
                final(builder).satisfied_by(values) ==> old(builder).satisfied_by(values)
                    && ext_state_target_values(values, result) == mds_partial_layer_field_spec(
                    diag_values(Self::MDS_MATRIX_DIAG),
                    ext_state_target_values(values, *state),
                    D as nat,
                ),
    {
        let ghost diag = diag_values(Self::MDS_MATRIX_DIAG);
        let mut sum = state[0];
        for i in 1..12usize
            invariant
                (builder.gate_instances@, sum) == partial_sum_rows(
                    old(builder).gate_instances@,
                    state@,
                    i as int,
                ),
                builder.extends(*old(builder)),
                builder.gate_rows() == old(builder).gate_rows(),
                builder.copy_constraints == old(builder).copy_constraints,
                builder.virtual_target_index == old(builder).virtual_target_index,
                forall|values: Map<Target, int>| #[trigger]
                    builder.satisfied_by(values) ==> old(builder).satisfied_by(values)
                        && ext_target_value(values, sum) == ext_sum(
                        ext_state_target_values(values, *state),
                        i as int,
                    ),
        {
            if i < SPONGE_WIDTH {
                sum = builder.add_extension(sum, state[i]);
                proof {
                    lemma_ext_target_of(sum);
                }
            }
        }

        let zero = builder.zero_extension();
        let ghost with_zero = builder.gate_instances@;
        let mut result = [zero;12];
        assert(result@.subrange(0, 0) =~= Seq::<ExtensionTarget<D>>::empty());
        for i in 0..12usize
            invariant
                with_zero == partial_sum_rows(old(builder).gate_instances@, state@, 12).0
                    + constant_rows(ext_embed(0, D as nat), D as int),
                sum == partial_sum_rows(old(builder).gate_instances@, state@, 12).1,
                (builder.gate_instances@, result@.subrange(0, i as int)) == partial_lane_rows(
                    with_zero,
                    diag,
                    state@,
                    sum,
                    i as int,
                ),
                diag == diag_values(Self::MDS_MATRIX_DIAG),
                builder.extends(*old(builder)),
                builder.gate_rows() == old(builder).gate_rows(),
                builder.copy_constraints == old(builder).copy_constraints,
                builder.virtual_target_index == old(builder).virtual_target_index,
                forall|values: Map<Target, int>| #[trigger]
                    builder.satisfied_by(values) ==> {
                        &&& old(builder).satisfied_by(values)
                        &&& ext_target_value(values, sum) == ext_sum(
                            ext_state_target_values(values, *state),
                            12,
                        )
                        &&& forall|j: int|
                            0 <= j < i ==> ext_target_value(values, #[trigger] result[j])
                                == mds_partial_layer_field_spec(
                                diag,
                                ext_state_target_values(values, *state),
                                D as nat,
                            )[j]
                    },
        {
            if i < SPONGE_WIDTH {
                let ghost before = *builder;
                let ghost earlier = result;
                proof {
                    Self::lemma_constants();
                }
                let t = Self::MDS_MATRIX_DIAG[i];
                let t = Extension::<Self, D>::from_canonical_u64(t);
                let ghost rows = builder.gate_instances@;
                let t = builder.constant_extension(t);
                result[i] = builder.mul_add_extension(state[i], t, sum);
                proof {
                    lemma_ext_target_of(t);
                    lemma_ext_target_of(result[i as int]);
                    assert(builder.gate_instances@.len() == rows.len() + D + 1);
                    assert(result@.subrange(0, i + 1) =~= earlier@.subrange(0, i as int).push(
                        result[i as int],
                    ));
                    assert forall|values: Map<Target, int>| #[trigger]
                        builder.satisfied_by(values) implies {
                        &&& before.satisfied_by(values)
                        &&& forall|j: int|
                            0 <= j < i + 1 ==> ext_target_value(values, #[trigger] result[j])
                                == mds_partial_layer_field_spec(
                                diag,
                                ext_state_target_values(values, *state),
                                D as nat,
                            )[j]
                    } by {
                        let sv = ext_state_target_values(values, *state);
                        assert(before.satisfied_by(values));
                        lemma_ext_mul_embed_right(sv[i as int], diag[i as int]);
                        lemma_ext_add_commutative(
                            ext_scale(diag[i as int], sv[i as int]),
                            ext_sum(sv, 12),
                        );
                        assert(ext_target_value(values, result[i as int]) == mds_partial_fast_ext(
                            diag,
                            sv,
                            i as int,
                        ));
                        lemma_mds_partial_fast_ext(diag, sv, D as nat, i as int);
                        assert forall|j: int| 0 <= j < i implies result[j] == earlier[j] by {}
                    }
                }
            }
        }
        assert(result@.subrange(0, 12) =~= result@);
        proof {
            assert forall|values: Map<Target, int>| #[trigger]
                builder.satisfied_by(values) implies ext_state_target_values(values, result)
                == mds_partial_layer_field_spec(
                diag,
                ext_state_target_values(values, *state),
                D as nat,
            ) by {
                assert(ext_state_target_values(values, result) =~= mds_partial_layer_field_spec(
                    diag,
                    ext_state_target_values(values, *state),
                    D as nat,
                ));
            }
        }
        result
    }

    /// The constant layer of round `round_ctr`.
    fn constant_layer(state: &mut [Self; 12], round_ctr: usize)
        requires
            round_ctr < N_ROUNDS,
        ensures
            state_values(*final(state)) == constant_layer_spec(
                state_values(*old(state)),
                round_ctr as int,
            ),
    {
        for i in 0..12usize
            invariant
                round_ctr < N_ROUNDS,
                forall|j: int|
                    0 <= j < i ==> #[trigger] state[j].value() == field_add(
                        old(state)[j].value(),
                        round_constant(round_ctr as int, j),
                    ),
                forall|j: int| i <= j < 12 ==> state[j] == old(state)[j],
        {
            if i < SPONGE_WIDTH {
                let round_constant = ALL_ROUND_CONSTANTS[i + SPONGE_WIDTH * round_ctr];
                proof {
                    lemma_round_constants_canonical();
                }
                state[i] = state[i].add_canonical_u64(round_constant);
            }
        }
        assert(state_values(*state) =~= constant_layer_spec(
            state_values(*old(state)),
            round_ctr as int,
        ));
    }

    /// Same as `constant_layer` for the extension of degree `D`.
    fn constant_layer_field<const D: usize>(state: &mut [Extension<Self, D>; 12], round_ctr: usize)
        requires
            round_ctr < N_ROUNDS,
        ensures
            ext_state_values(*final(state)) == constant_layer_field_spec(
                ext_state_values(*old(state)),
                round_ctr as int,
                D as nat,
            ),
    {
        for i in 0..SPONGE_WIDTH
            invariant
                round_ctr < N_ROUNDS,
                forall|j: int|
                    0 <= j < i ==> (#[trigger] state[j])@ == ext_add(
                        old(state)[j]@,
                        ext_embed(round_constant(round_ctr as int, j), D as nat),
                    ),
                forall|j: int| i <= j < 12 ==> state[j] == old(state)[j],
        {
            proof {
                lemma_round_constants_canonical();
            }
            state[i] = state[i].add(
                Extension::from_canonical_u64(ALL_ROUND_CONSTANTS[i + SPONGE_WIDTH * round_ctr]),
            );
        }
        assert(ext_state_values(*state) =~= constant_layer_field_spec(
            ext_state_values(*old(state)),
            round_ctr as int,
            D as nat,
        ));
    }

    /// Same as `constant_layer` in a circuit.
    fn constant_layer_circuit<const D: usize>(
        builder: &mut CircuitBuilder<Self, D>,
        state: &mut [ExtensionTarget<D>; 12],
        round_ctr: usize,
    )
        requires
            round_ctr < N_ROUNDS,
        ensures
            (final(builder).gate_instances@, final(state)@) == constant_layer_rows(
                old(builder).gate_instances@,
                old(state)@,
                round_ctr as int,
                12,
            ),
            final(builder).extends(*old(builder)),
            final(builder).gate_rows() == old(builder).gate_rows(),
            final(builder).copy_constraints == old(builder).copy_constraints,
            final(builder).virtual_target_index == old(builder).virtual_target_index,
            forall|values: Map<Target, int>| #[trigger]
                final(builder).satisfied_by(values) ==> old(builder).satisfied_by(values)
                    && ext_state_target_values(values, *final(state))
                    == constant_layer_field_spec(
                    ext_state_target_values(values, *old(state)),
                    round_ctr as int,
                    D as nat,
                ),
    {
        for i in 0..SPONGE_WIDTH
            invariant
                (builder.gate_instances@, state@) == constant_layer_rows(
                    old(builder).gate_instances@,
                    old(state)@,
                    round_ctr as int,
                    i as int,
                ),
                round_ctr < N_ROUNDS,
                builder.extends(*old(builder)),
                builder.gate_rows() == old(builder).gate_rows(),
                builder.copy_constraints == old(builder).copy_constraints,
                builder.virtual_target_index == old(builder).virtual_target_index,
                forall|j: int| i <= j < 12 ==> state[j] == old(state)[j],
                forall|values: Map<Target, int>| #[trigger]
                    builder.satisfied_by(values) ==> old(builder).satisfied_by(values)
                        && forall|j: int|
                        0 <= j < i ==> ext_target_value(values, #[trigger] state[j]) == ext_add(
                            ext_target_value(values, old(state)[j]),
                            ext_embed(round_constant(round_ctr as int, j), D as nat),
                        ),
        {
            proof {
                lemma_round_constants_canonical();
            }
            let c = ALL_ROUND_CONSTANTS[i + SPONGE_WIDTH * round_ctr];
            let c = Extension::<Self, D>::from_canonical_u64(c);
            let ghost before = state@;
            let ghost rows = builder.gate_instances@;
            let c = builder.constant_extension(c);
            state[i] = builder.add_extension(state[i], c);
            proof {
                lemma_ext_target_of(c);
                lemma_ext_target_of(state[i as int]);
                assert(state@ =~= before.update(i as int, state[i as int]));
                assert(builder.gate_instances@.len() == rows.len() + D + 1);
            }
        }
        proof {
            assert forall|values: Map<Target, int>| #[trigger]
                builder.satisfied_by(values) implies ext_state_target_values(values, *state)
                == constant_layer_field_spec(
                ext_state_target_values(values, *old(state)),
                round_ctr as int,
                D as nat,
            ) by {
                assert(ext_state_target_values(values, *state) =~= constant_layer_field_spec(
                    ext_state_target_values(values, *old(state)),
                    round_ctr as int,
                    D as nat,
                ));
            }
        }
    }

    /// The S-box on an element of the extension of degree `D`.
    fn sbox_monomial<const D: usize>(x: Extension<Self, D>) -> (r: Extension<Self, D>)
        ensures
            r@ == ext_sbox_spec(x@),
    {
        // x |--> x^7
        let x2 = x.square();
        let x4 = x2.square();
        let x3 = x.mul(x2);
        x3.mul(x4)
    }

    /// Same as `sbox_monomial` in a circuit: the seventh power by squaring
    /// and multiplying.
    fn sbox_monomial_circuit<const D: usize>(
        builder: &mut CircuitBuilder<Self, D>,
        x: ExtensionTarget<D>,
    ) -> (r: ExtensionTarget<D>)
        ensures
            (final(builder).gate_instances@, r) == exp_u64_rows(old(builder).gate_instances@, x, 7),
            final(builder).extends(*old(builder)),
            final(builder).gate_rows() == old(builder).gate_rows(),
            final(builder).copy_constraints == old(builder).copy_constraints,
            final(builder).virtual_target_index == old(builder).virtual_target_index,
            forall|values: Map<Target, int>| #[trigger]
                final(builder).satisfied_by(values) ==> old(builder).satisfied_by(values)
                    && ext_target_value(values, r) == ext_sbox_spec(ext_target_value(values, x)),
    {
        // x |--> x^7
        let r = builder.exp_u64_extension(x, 7);
        proof {
            assert forall|values: Map<Target, int>| #[trigger]
                builder.satisfied_by(values) implies ext_target_value(values, r) == ext_sbox_spec(
                ext_target_value(values, x),
            ) by {
                lemma_ext_exp_seven(ext_target_value(values, x));
            }
        }
        r
    }

    /// The S-box on every lane.
    fn sbox_layer(state: &mut [Self; 12])
        ensures
            state_values(*final(state)) == sbox_layer_spec(state_values(*old(state))),
    {
        for i in 0..12usize
            invariant
                forall|j: int|
                    0 <= j < i ==> #[trigger] state[j].value() == sbox_spec(old(state)[j].value()),
                forall|j: int| i <= j < 12 ==> state[j] == old(state)[j],
        {
            if i < SPONGE_WIDTH {
                let x: Extension<Self, 1> = Extension::from_basefield_array([state[i]]);
                let y = Self::sbox_monomial(x);
                proof {
                    assert(x@[0] == state[i as int].value());
                    lemma_ext_sbox_degree_one(x@);
                    assert(y@[0] == y.0[0].value());
                }
                state[i] = y.to_basefield_array()[0];
            }
        }
        assert(state_values(*state) =~= sbox_layer_spec(state_values(*old(state))));
    }

    /// Same as `sbox_layer` for the extension of degree `D`.
    fn sbox_layer_field<const D: usize>(state: &mut [Extension<Self, D>; 12])
        ensures
            ext_state_values(*final(state)) == sbox_layer_field_spec(ext_state_values(*old(state))),
    {
        for i in 0..SPONGE_WIDTH
            invariant
                forall|j: int| 0 <= j < i ==> (#[trigger] state[j])@ == ext_sbox_spec(old(state)[j]@),
                forall|j: int| i <= j < 12 ==> state[j] == old(state)[j],
        {
            state[i] = Self::sbox_monomial(state[i]);
        }
        assert(ext_state_values(*state) =~= sbox_layer_field_spec(ext_state_values(*old(state))));
    }

    /// Same as `sbox_layer` in a circuit.
    fn sbox_layer_circuit<const D: usize>(
        builder: &mut CircuitBuilder<Self, D>,
        state: &mut [ExtensionTarget<D>; 12],
    )
        ensures
            (final(builder).gate_instances@, final(state)@) == sbox_layer_rows(
                old(builder).gate_instances@,
                old(state)@,
                12,
            ),
            final(builder).extends(*old(builder)),
            final(builder).gate_rows() == old(builder).gate_rows(),
            final(builder).copy_constraints == old(builder).copy_constraints,
            final(builder).virtual_target_index == old(builder).virtual_target_index,
            forall|values: Map<Target, int>| #[trigger]
                final(builder).satisfied_by(values) ==> old(builder).satisfied_by(values)
                    && ext_state_target_values(values, *final(state)) == sbox_layer_field_spec(
                    ext_state_target_values(values, *old(state)),
                ),
    {
        for i in 0..SPONGE_WIDTH
            invariant
                (builder.gate_instances@, state@) == sbox_layer_rows(
                    old(builder).gate_instances@,
                    old(state)@,
                    i as int,
                ),
                builder.extends(*old(builder)),
                builder.gate_rows() == old(builder).gate_rows(),
                builder.copy_constraints == old(builder).copy_constraints,
                builder.virtual_target_index == old(builder).virtual_target_index,
                forall|j: int| i <= j < 12 ==> state[j] == old(state)[j],
                forall|values: Map<Target, int>| #[trigger]
                    builder.satisfied_by(values) ==> old(builder).satisfied_by(values)
                        && forall|j: int|
                        0 <= j < i ==> ext_target_value(values, #[trigger] state[j])
                            == ext_sbox_spec(ext_target_value(values, old(state)[j])),
        {
            let ghost before = state@;
            state[i] = Self::sbox_monomial_circuit(builder, state[i]);
            assert(state@ =~= before.update(i as int, state[i as int]));
        }
        proof {
            assert forall|values: Map<Target, int>| #[trigger]
                builder.satisfied_by(values) implies ext_state_target_values(values, *state)
                == sbox_layer_field_spec(ext_state_target_values(values, *old(state))) by {
                assert(ext_state_target_values(values, *state) =~= sbox_layer_field_spec(
                    ext_state_target_values(values, *old(state)),
                ));
            }
        }
    }

    /// `HALF_N_FULL_ROUNDS` full rounds, the first of them round
    /// `round_ctr`, which moves on by as many.
    fn full_rounds(state: &mut [Self; 12], round_ctr: &mut usize)
        requires
            *old(round_ctr) + HALF_N_FULL_ROUNDS <= N_ROUNDS,
        ensures
            (state_values(*final(state)), *final(round_ctr) as int) == full_rounds_spec(
                state_values(*old(state)),
                *old(round_ctr) as int,
            ),
    {
        for r in 0..HALF_N_FULL_ROUNDS
            invariant
                *round_ctr == *old(round_ctr) + r,
                *old(round_ctr) + HALF_N_FULL_ROUNDS <= N_ROUNDS,
                state_values(*state) == full_rounds_iter(
                    state_values(*old(state)),
                    *old(round_ctr) as int,
                    r as nat,
                ),
        {
            Self::constant_layer(state, *round_ctr);
            Self::sbox_layer(state);
            *state = Self::mds_layer(state);
            *round_ctr += 1;
        }
    }

    /// The `N_PARTIAL_ROUNDS` partial rounds; `round_ctr` moves on by as
    /// many.
    fn partial_rounds(state: &mut [Self; 12], round_ctr: &mut usize)
        requires
            *old(round_ctr) <= usize::MAX - N_PARTIAL_ROUNDS,
        ensures
            (state_values(*final(state)), *final(round_ctr) as int) == partial_rounds_spec(
                diag_values(Self::MDS_MATRIX_DIAG),
                state_values(*old(state)),
                *old(round_ctr) as int,
            ),
    {
        for i in 0..N_PARTIAL_ROUNDS
            invariant
                *round_ctr == *old(round_ctr),
                state_values(*state) == partial_rounds_iter(
                    diag_values(Self::MDS_MATRIX_DIAG),
                    state_values(*old(state)),
                    i as nat,
                ),
        {
            let ghost before = state_values(*state);
            proof {
                Self::lemma_constants();
                lemma_round_constants_canonical();
            }
            state[0] = state[0].add_canonical_u64(Self::FAST_PARTIAL_ROUND_CONSTANTS[i]);
            let x: Extension<Self, 1> = Extension::from_basefield_array([state[0]]);
            let y = Self::sbox_monomial(x);
            proof {
                assert(x@[0] == state[0].value());
                lemma_ext_sbox_degree_one(x@);
                assert(y@[0] == y.0[0].value());
            }
            state[0] = y.to_basefield_array()[0];
            assert(state_values(*state) =~= before.update(
                0,
                sbox_spec(
                    field_add(before[0], round_constant(HALF_N_FULL_ROUNDS as int + i as int, 0)),
                ),
            ));
            *state = Self::mds_partial_layer_fast(state);
        }
        *round_ctr += N_PARTIAL_ROUNDS;
    }

    /// The permutation.
    fn poseidon(input: [Self; 12]) -> (output: [Self; 12])
        ensures
            state_values(output) == poseidon_spec(
                diag_values(Self::MDS_MATRIX_DIAG),
                state_values(input),
            ),
    {
        let mut state = input;
        let mut round_ctr: usize = 0;

        // Linear layer at beginning
        state = Self::mds_layer(&state);

        Self::full_rounds(&mut state, &mut round_ctr);
        Self::partial_rounds(&mut state, &mut round_ctr);
        Self::full_rounds(&mut state, &mut round_ctr);
        assert(round_ctr == N_ROUNDS);

        state
    }
}

} // verus!

verus! {

/// The permutation as the step of a sponge.
pub struct PoseidonPermutation;

impl PoseidonPermutation {
    pub fn permute<F: Poseidon>(input: [F; 12]) -> (output: [F; 12])
        ensures
            state_values(output) == poseidon_spec(
                diag_values(F::MDS_MATRIX_DIAG),
                state_values(input),
            ),
    {
        F::poseidon(input)
    }
}

/// Poseidon hash function.
#[derive(Copy, Clone, Debug, Eq, PartialEq)]
pub struct PoseidonHash;

impl PoseidonHash {
    /// The number of bytes of a hash.
    pub const HASH_SIZE: usize = 4 * 8;

    /// The hash of field elements, without padding.
    pub fn hash_no_pad<F: Poseidon>(input: &[F]) -> (hash: HashOut<F>)
        ensures
            hash@ == hash_no_pad_spec(diag_values(F::MDS_MATRIX_DIAG), field_values(input@)),
    {
        hash_n_to_hash_no_pad::<F>(input)
    }

    /// The hash of two hashes.
    pub fn two_to_one<F: Poseidon>(left: HashOut<F>, right: HashOut<F>) -> (hash: HashOut<F>)
        ensures
            hash@ == two_to_one_spec(diag_values(F::MDS_MATRIX_DIAG), left@, right@),
    {
        compress::<F>(left, right)
    }

    /// The permutation in a circuit, as one Poseidon gate: on the inputs
    /// as they are if `swap` holds 0, and with their first two groups of
    /// four exchanged if it holds 1.
    pub fn permute_swapped<F: Poseidon, const D: usize>(
        inputs: [Target; 12],
        swap: BoolTarget,
        builder: &mut CircuitBuilder<F, D>,
    ) -> (outputs: [Target; 12])
        ensures
            final(builder).gate_instances@ == old(builder).gate_instances@.push(
                Operation::Poseidon { mds_matrix_diag: F::MDS_MATRIX_DIAG },
            ),
            final(builder).copy_constraints@ == old(builder).copy_constraints@.push(
                (
                    swap.target,
                    Target::Wire { row: old(builder).gate_instances@.len() as usize, column: 24 },
                ),
            ) + poseidon_gate_connections(
                inputs,
                old(builder).gate_instances@.len() as usize,
                12,
            ),
            final(builder).extends(*old(builder)),
            final(builder).virtual_target_index == old(builder).virtual_target_index,
            forall|i: int|
                0 <= i < 12 ==> #[trigger] outputs[i] == (Target::Wire {
                    row: old(builder).gate_instances@.len() as usize,
                    column: (SPONGE_WIDTH + i) as usize,
                }),
            forall|values: Map<Target, int>| #[trigger]
                final(builder).satisfied_by(values) ==> {
                    &&& old(builder).satisfied_by(values)
                    &&& (values[swap.target] == 0 || values[swap.target] == 1)
                    &&& target_values(values, outputs) == poseidon_spec(
                        diag_values(F::MDS_MATRIX_DIAG),
                        swapped_inputs(target_values(values, inputs), values[swap.target]),
                    )
                },
    {
        let gate_type = PoseidonGate::<F, D>::new();
        let gate = builder.add_gate(gate_type.operation(F::MDS_MATRIX_DIAG));
        let ghost with_gate = *builder;

        let swap_wire = PoseidonGate::<F, D>::WIRE_SWAP;
        let swap_wire = Target::wire(gate, swap_wire);
        builder.connect(swap.target, swap_wire);

        // Route input wires.
        let ghost with_switch = builder.copy_constraints@;
        assert(builder.copy_constraints@ =~= with_switch + poseidon_gate_connections(
            inputs,
            gate,
            0,
        ));
        for i in 0..SPONGE_WIDTH
            invariant
                builder.gate_instances == with_gate.gate_instances,
                builder.virtual_target_index == old(builder).virtual_target_index,
                builder.copy_constraints@ == with_switch + poseidon_gate_connections(
                    inputs,
                    gate,
                    i as int,
                ),
                builder.extends(with_gate),
                swap_wire == (Target::Wire { row: gate, column: 24 }),
                forall|values: Map<Target, int>| #[trigger]
                    builder.satisfied_by(values) ==> {
                        &&& with_gate.satisfied_by(values)
                        &&& values[swap.target] == values[swap_wire]
                        &&& forall|j: int|
                            0 <= j < i ==> values[#[trigger] inputs[j]] == values[Target::Wire {
                                row: gate,
                                column: j as usize,
                            }]
                    },
        {
            let in_wire = PoseidonGate::<F, D>::wire_input(i);
            let in_wire = Target::wire(gate, in_wire);
            builder.connect(inputs[i], in_wire);
            assert(builder.copy_constraints@ =~= with_switch + poseidon_gate_connections(
                inputs,
                gate,
                i + 1,
            ));
        }

        // Collect output wires.
        let mut outputs = [swap_wire;12];
        for i in 0..SPONGE_WIDTH
            invariant
                forall|j: int|
                    0 <= j < i ==> #[trigger] outputs[j] == (Target::Wire {
                        row: gate,
                        column: (SPONGE_WIDTH + j) as usize,
                    }),
        {
            outputs[i] = Target::wire(gate, PoseidonGate::<F, D>::wire_output(i));
        }
        proof {
            assert forall|values: Map<Target, int>| #[trigger]
                builder.satisfied_by(values) implies {
                &&& old(builder).satisfied_by(values)
                &&& (values[swap.target] == 0 || values[swap.target] == 1)
                &&& target_values(values, outputs) == poseidon_spec(
                    diag_values(F::MDS_MATRIX_DIAG),
                    swapped_inputs(target_values(values, inputs), values[swap.target]),
                )
            } by {
                assert(with_gate.satisfied_by(values));
                assert(target_values(values, inputs) =~= row_wires(values, gate, 0));
                assert(target_values(values, outputs) =~= row_wires(values, gate, 12));
            }
        }
        outputs
    }
}

} // verus!

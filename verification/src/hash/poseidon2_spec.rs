//! What the permutation computes: its layers, its rounds and the whole.

use crate::field::extension::{
    ext_add, ext_embed, ext_exp_bits, ext_exp_u64, ext_mul, ext_mul_sum, lemma_ext_mul_one_left,
    Extension,
};
use crate::field::types::{field_add, field_mul, lemma_mul_congruent, PrimeField64, ORDER};
use crate::hash::mds_matrix::mds_layer_spec;
use crate::hash::partial_matrix::mds_partial_layer_spec;
use crate::hash::poseidon2::{HALF_N_FULL_ROUNDS, N_PARTIAL_ROUNDS, N_ROUNDS};
use crate::hash::round_constants::ALL_ROUND_CONSTANTS;
use vstd::prelude::*;

verus! {

/// The constant of a round and a lane.
pub open spec fn round_constant(round: int, lane: int) -> int {
    ALL_ROUND_CONSTANTS[lane + 12 * round] as int
}

/// The constant layer of a full round: each lane plus its round constant.
pub open spec fn constant_layer_spec(state: Seq<int>, round: int) -> Seq<int> {
    Seq::new(12, |i: int| field_add(state[i], round_constant(round, i)))
}

/// The seventh power of an integer.
pub open spec fn pow7(x: int) -> int {
    x * x * x * x * x * x * x
}

/// The S-box on a field element: its seventh power.
pub open spec fn sbox_spec(x: int) -> int {
    pow7(x) % (ORDER as int)
}

/// The S-box on every lane.
pub open spec fn sbox_layer_spec(state: Seq<int>) -> Seq<int> {
    Seq::new(12, |i: int| sbox_spec(state[i]))
}

/// The S-box on an element of the extension: its cube times its fourth
/// power.
pub open spec fn ext_sbox_spec(x: Seq<int>) -> Seq<int> {
    let x2 = ext_mul(x, x);
    let x4 = ext_mul(x2, x2);
    let x3 = ext_mul(x, x2);
    ext_mul(x3, x4)
}

/// The coefficients of the twelve lanes of a state of elements of an
/// extension.
pub open spec fn ext_state_values<F: PrimeField64, const D: usize>(
    state: [Extension<F, D>; 12],
) -> Seq<Seq<int>> {
    Seq::new(12, |i: int| state[i]@)
}

/// The constant layer on elements of an extension of degree `d`: each
/// lane plus its round constant, which is of the base field.
pub open spec fn constant_layer_field_spec(state: Seq<Seq<int>>, round: int, d: nat) -> Seq<
    Seq<int>,
> {
    Seq::new(12, |i: int| ext_add(state[i], ext_embed(round_constant(round, i), d)))
}

/// The S-box on every lane of a state of elements of an extension.
pub open spec fn sbox_layer_field_spec(state: Seq<Seq<int>>) -> Seq<Seq<int>> {
    Seq::new(12, |i: int| ext_sbox_spec(state[i]))
}

/// One full round: constants, S-box on every lane, full linear layer.
pub open spec fn full_round_spec(state: Seq<int>, round: int) -> Seq<int> {
    mds_layer_spec(sbox_layer_spec(constant_layer_spec(state, round)))
}

/// The state after `n` full rounds, the first of them round `round_ctr`.
pub open spec fn full_rounds_iter(state: Seq<int>, round_ctr: int, n: nat) -> Seq<int>
    decreases n,
{
    if n == 0 {
        state
    } else {
        full_round_spec(full_rounds_iter(state, round_ctr, (n - 1) as nat), round_ctr + n - 1)
    }
}

/// Partial round `i`: the constant and the S-box on lane 0, then the
/// partial-round linear layer.
pub open spec fn partial_round_spec(diag: Seq<int>, state: Seq<int>, i: int) -> Seq<int> {
    mds_partial_layer_spec(
        diag,
        state.update(
            0,
            sbox_spec(field_add(state[0], round_constant(HALF_N_FULL_ROUNDS as int + i, 0))),
        ),
    )
}

/// The state after the first `n` partial rounds.
pub open spec fn partial_rounds_iter(diag: Seq<int>, state: Seq<int>, n: nat) -> Seq<int>
    decreases n,
{
    if n == 0 {
        state
    } else {
        partial_round_spec(diag, partial_rounds_iter(diag, state, (n - 1) as nat), n - 1)
    }
}

/// A phase of full rounds: the state and the round counter after it.
pub open spec fn full_rounds_spec(state: Seq<int>, round_ctr: int) -> (Seq<int>, int) {
    (
        full_rounds_iter(state, round_ctr, HALF_N_FULL_ROUNDS as nat),
        round_ctr + HALF_N_FULL_ROUNDS as int,
    )
}

/// The phase of partial rounds: the state and the round counter after it.
pub open spec fn partial_rounds_spec(diag: Seq<int>, state: Seq<int>, round_ctr: int) -> (
    Seq<int>,
    int,
) {
    (
        partial_rounds_iter(diag, state, N_PARTIAL_ROUNDS as nat),
        round_ctr + N_PARTIAL_ROUNDS as int,
    )
}

/// The permutation with its bookkeeping: the output state and the number
/// of rounds that were run. A linear layer, then full rounds, partial
/// rounds, and full rounds again.
pub open spec fn poseidon_trace(diag: Seq<int>, input: Seq<int>) -> (Seq<int>, int) {
    let (s1, c1) = full_rounds_spec(mds_layer_spec(input), 0);
    let (s2, c2) = partial_rounds_spec(diag, s1, c1);
    full_rounds_spec(s2, c2)
}

/// The permutation.
pub open spec fn poseidon_spec(diag: Seq<int>, input: Seq<int>) -> Seq<int> {
    poseidon_trace(diag, input).0
}

/// On every input the permutation runs `N_ROUNDS` rounds, twice
/// `HALF_N_FULL_ROUNDS` full ones and `N_PARTIAL_ROUNDS` partial ones.
pub proof fn lemma_round_count(diag: Seq<int>, input: Seq<int>)
    ensures
        poseidon_trace(diag, input).1 == N_ROUNDS,
        poseidon_trace(diag, input).1 == 2 * HALF_N_FULL_ROUNDS + N_PARTIAL_ROUNDS,
{
}

/// The cube times the fourth power, each step reduced, is the seventh
/// power reduced.
pub proof fn lemma_sbox_steps(x: int)
    ensures
        ({
            let x2 = field_mul(x, x);
            let x4 = field_mul(x2, x2);
            let x3 = field_mul(x, x2);
            field_mul(x3, x4) == sbox_spec(x)
        }),
{
    let x2 = field_mul(x, x);
    let x4 = field_mul(x2, x2);
    let x3 = field_mul(x, x2);
    lemma_mul_congruent(x2, x2, x * x, x * x);
    lemma_mul_congruent(x, x2, x, x * x);
    lemma_mul_congruent(x3, x4, x * (x * x), (x * x) * (x * x));
    assert((x * (x * x)) * ((x * x) * (x * x)) == pow7(x)) by (nonlinear_arith);
}

/// On the extension of degree 1 the S-box is the S-box of the field.
pub proof fn lemma_ext_sbox_degree_one(x: Seq<int>)
    requires
        x.len() == 1,
    ensures
        ext_sbox_spec(x) == seq![sbox_spec(x[0])],
{
    reveal_with_fuel(ext_mul_sum, 2);
    let x2 = ext_mul(x, x);
    let x4 = ext_mul(x2, x2);
    let x3 = ext_mul(x, x2);
    assert(x2[0] == field_mul(x[0], x[0]));
    assert(x4[0] == field_mul(x2[0], x2[0]));
    assert(x3[0] == field_mul(x[0], x2[0]));
    assert(ext_mul(x3, x4)[0] == field_mul(x3[0], x4[0]));
    lemma_sbox_steps(x[0]);
    assert(ext_sbox_spec(x) =~= seq![sbox_spec(x[0])]);
}

/// The seventh power by squaring and multiplying is the S-box.
pub proof fn lemma_ext_exp_seven(x: Seq<int>)
    ensures
        ext_exp_u64(x, 7) == ext_sbox_spec(x),
{
    let one = ext_embed(1, x.len());
    let x2 = ext_mul(x, x);
    let x4 = ext_mul(x2, x2);
    let p1 = ext_mul(one, x);
    let p3 = ext_mul(p1, x2);
    let p7 = ext_mul(p3, x4);
    assert(ext_exp_bits(p7, ext_mul(x4, x4), 0) == p7);
    assert(ext_exp_bits(p3, x4, 1) == p7);
    assert(ext_exp_bits(p1, x2, 3) == p7);
    assert(ext_exp_bits(one, x, 7) == p7);
    lemma_ext_mul_one_left(x, x2);
}

} // verus!

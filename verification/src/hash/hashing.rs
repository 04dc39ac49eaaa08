//! The sponge on the permutation: hashing without padding, and the
//! compression of two hashes into one.

use crate::field::types::PrimeField64;
use crate::hash::hash_types::HashOut;
use crate::hash::partial_matrix::diag_values;
use crate::hash::poseidon2::{state_values, Poseidon, PoseidonPermutation};
use crate::hash::poseidon2_spec::poseidon_spec;
use vstd::prelude::*;

verus! {

/// The number of lanes of the state that take input and give output.
pub const SPONGE_RATE: usize = 8;

/// The number of lanes of the state that input never touches.
pub const SPONGE_CAPACITY: usize = 4;

/// The state with its first lanes overwritten by a chunk of input.
pub open spec fn absorb_chunk(state: Seq<int>, chunk: Seq<int>) -> Seq<int> {
    Seq::new(12, |i: int| if i < chunk.len() { chunk[i] } else { state[i] })
}

/// The state of the sponge after it absorbed the inputs, in chunks of
/// `SPONGE_RATE` and a shorter last one: each chunk overwrites the first
/// lanes, and the permutation follows.
pub open spec fn sponge_absorb(diag: Seq<int>, state: Seq<int>, inputs: Seq<int>) -> Seq<int>
    decreases inputs.len(),
{
    if inputs.len() == 0 {
        state
    } else {
        let n = if inputs.len() < 8 { inputs.len() as int } else { 8 };
        sponge_absorb(
            diag,
            poseidon_spec(diag, absorb_chunk(state, inputs.take(n))),
            inputs.skip(n),
        )
    }
}

/// The hash of field elements without padding: the first four lanes of
/// the sponge that absorbed them, begun at zero.
pub open spec fn hash_no_pad_spec(diag: Seq<int>, inputs: Seq<int>) -> Seq<int> {
    sponge_absorb(diag, Seq::new(12, |i: int| 0int), inputs).take(4)
}

/// The compression of two hashes: the first four lanes of the permutation
/// of the two hashes followed by zeros.
pub open spec fn two_to_one_spec(diag: Seq<int>, left: Seq<int>, right: Seq<int>) -> Seq<int> {
    poseidon_spec(
        diag,
        Seq::new(12, |i: int| if i < 4 { left[i] } else if i < 8 { right[i - 4] } else { 0 }),
    ).take(4)
}

/// The canonical values of a list of field elements.
pub open spec fn field_values<F: PrimeField64>(elements: Seq<F>) -> Seq<int> {
    Seq::new(elements.len(), |i: int| elements[i].value())
}

/// The hash of field elements without padding.
pub fn hash_n_to_hash_no_pad<F: Poseidon>(inputs: &[F]) -> (hash: HashOut<F>)
    ensures
        hash@ == hash_no_pad_spec(diag_values(F::MDS_MATRIX_DIAG), field_values(inputs@)),
{
    let ghost diag = diag_values(F::MDS_MATRIX_DIAG);
    let ghost all = field_values(inputs@);
    let zero = F::zero();
    let mut state = [zero, zero, zero, zero, zero, zero, zero, zero, zero, zero, zero, zero];
    assert(state_values(state) =~= Seq::new(12, |i: int| 0int));
    assert(all.skip(0) =~= all);
    let total = inputs.len();
    let mut position: usize = 0;
    // Absorb all input chunks.
    while position < total
        invariant
            total == inputs@.len(),
            position <= total,
            all == field_values(inputs@),
            diag == diag_values(F::MDS_MATRIX_DIAG),
            sponge_absorb(diag, state_values(state), all.skip(position as int)) == sponge_absorb(
                diag,
                Seq::new(12, |i: int| 0int),
                all,
            ),
        decreases total - position,
    {
        let left = total - position;
        let n = if left < SPONGE_RATE {
            left
        } else {
            SPONGE_RATE
        };
        let ghost before = state_values(state);
        let ghost rest = all.skip(position as int);
        for i in 0..n
            invariant
                n <= 8,
                total == inputs@.len(),
                position + n <= total,
                forall|j: int| 0 <= j < i ==> (#[trigger] state[j]).value() == inputs@[position + j].value(),
                forall|j: int| i <= j < 12 ==> (#[trigger] state[j]).value() == before[j],
        {
            state[i] = inputs[position + i];
        }
        assert(state_values(state) =~= absorb_chunk(before, rest.take(n as int)));
        state = PoseidonPermutation::permute(state);
        position += n;
        assert(rest.skip(n as int) =~= all.skip(position as int));
    }
    assert(all.skip(position as int).len() == 0);
    let hash = HashOut { elements: [state[0], state[1], state[2], state[3]] };
    assert(hash@ =~= state_values(state).take(4));
    hash
}

/// The compression of two hashes into one.
pub fn compress<F: Poseidon>(x: HashOut<F>, y: HashOut<F>) -> (hash: HashOut<F>)
    ensures
        hash@ == two_to_one_spec(diag_values(F::MDS_MATRIX_DIAG), x@, y@),
{
    let zero = F::zero();
    let perm_inputs = [
        x.elements[0],
        x.elements[1],
        x.elements[2],
        x.elements[3],
        y.elements[0],
        y.elements[1],
        y.elements[2],
        y.elements[3],
        zero,
        zero,
        zero,
        zero,
    ];
    assert(state_values(perm_inputs) =~= Seq::new(
        12,
        |i: int| if i < 4 { x@[i] } else if i < 8 { y@[i - 4] } else { 0 },
    ));
    let state = PoseidonPermutation::permute(perm_inputs);
    let hash = HashOut { elements: [state[0], state[1], state[2], state[3]] };
    assert(hash@ =~= state_values(state).take(4));
    hash
}

} // verus!

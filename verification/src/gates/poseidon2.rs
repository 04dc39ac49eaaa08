//! The Poseidon gate: one whole permutation in a row, with a switch that
//! swaps the first two groups of four inputs.

use core::marker::PhantomData;
use crate::field::types::PrimeField64;
use crate::hash::poseidon2::SPONGE_WIDTH;
use crate::hash::poseidon2_spec::poseidon_spec;
use crate::iop::target::Target;
use crate::plonk::circuit_builder::Operation;
use vstd::prelude::*;

verus! {

/// The state with lanes `0..4` and `4..8` exchanged if `swap` is 1, and
/// unchanged otherwise.
pub open spec fn swapped_inputs(inputs: Seq<int>, swap: int) -> Seq<int> {
    Seq::new(
        12,
        |i: int|
            if swap == 1 && i < 4 {
                inputs[i + 4]
            } else if swap == 1 && i < 8 {
                inputs[i - 4]
            } else {
                inputs[i]
            },
    )
}

/// What an assignment of values gives to the twelve wires of a row that
/// start at column `start`.
pub open spec fn row_wires(values: Map<Target, int>, row: usize, start: int) -> Seq<int> {
    Seq::new(12, |i: int| values[Target::Wire { row, column: (start + i) as usize }])
}

/// The connections of the first `n` of twelve targets to the input wires
/// of a Poseidon gate in a row, in order.
pub open spec fn poseidon_gate_connections(inputs: [Target; 12], row: usize, n: int) -> Seq<
    (Target, Target),
> {
    Seq::new(n as nat, |i: int| (inputs[i], Target::Wire { row, column: i as usize }))
}

/// The relation of a Poseidon gate in a row: the switch is 0 or 1, and the
/// output wires hold the permutation of the input wires, swapped if the
/// switch is 1.
pub open spec fn poseidon_gate_holds(diag: Seq<int>, values: Map<Target, int>, row: usize) -> bool {
    let swap = values[Target::Wire { row, column: 24 }];
    &&& (swap == 0 || swap == 1)
    &&& row_wires(values, row, 12) == poseidon_spec(
        diag,
        swapped_inputs(row_wires(values, row, 0), swap),
    )
}

/// The Poseidon gate over the field `F` and its extension of degree `D`.
#[derive(Debug, Default)]
pub struct PoseidonGate<F: PrimeField64, const D: usize>(pub PhantomData<F>);

impl<F: PrimeField64, const D: usize> PoseidonGate<F, D> {
    /// If this is set to 1, the first four inputs will be swapped with the
    /// next four inputs. Otherwise, this should be set to 0.
    pub const WIRE_SWAP: usize = 2 * SPONGE_WIDTH;

    pub fn new() -> (gate: Self)
        ensures
            gate == PoseidonGate::<F, D>(PhantomData),
    {
        PoseidonGate(PhantomData)
    }

    /// The wire index for the `i`th input to the permutation.
    pub fn wire_input(i: usize) -> (column: usize)
        requires
            i < SPONGE_WIDTH,
        ensures
            column == i,
    {
        i
    }

    /// The wire index for the `i`th output to the permutation.
    pub fn wire_output(i: usize) -> (column: usize)
        requires
            i < SPONGE_WIDTH,
        ensures
            column == SPONGE_WIDTH + i,
    {
        SPONGE_WIDTH + i
    }

    /// What a row of a circuit holds that holds this gate, for the
    /// permutation whose partial-round matrix has the given diagonal.
    pub fn operation(&self, mds_matrix_diag: [u64; 12]) -> (operation: Operation<D>)
        ensures
            operation == (Operation::<D>::Poseidon { mds_matrix_diag }),
    {
        Operation::Poseidon { mds_matrix_diag }
    }

    /// The number of wires that this gate connects to other rows: inputs,
    /// outputs and the switch.
    pub fn num_wires(&self) -> (n: usize)
        ensures
            n == 2 * SPONGE_WIDTH + 1,
    {
        2 * SPONGE_WIDTH + 1
    }
}

} // verus!

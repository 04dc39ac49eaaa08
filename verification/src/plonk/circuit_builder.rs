//! The builder of a circuit: it records rows of arithmetic and gates and
//! the connections between wires, and hands out the wires of the results.

use core::marker::PhantomData;
use crate::field::algebra::{algebra_add, algebra_sub, algebra_zero};
use crate::field::extension::{
    ext_add, ext_embed, ext_exp_bits, ext_exp_u64, ext_mul, ext_scale, ext_sub,
    lemma_ext_mul_embed_left, Extension,
};
use crate::field::types::{PrimeField64, ORDER};
use crate::gates::poseidon2::poseidon_gate_holds;
use crate::gates::poseidon2_mds::mds_gate_holds;
use crate::hash::partial_matrix::diag_values;
use crate::iop::ext_target::{
    ext_algebra_target_value, ext_target_of, ext_target_value, lemma_algebra_target_of,
    lemma_ext_target_of, row_target, rows_target, ExtensionAlgebraTarget, ExtensionTarget,
};
use crate::iop::target::{wires_of_range, Target};
use crate::plonk::circuit_data::CircuitConfig;
use vstd::prelude::*;

verus! {

/// What a row of the circuit holds. The result of an arithmetic row is
/// on the first wires of the row; its operands are wires of other rows.
#[derive(Copy, Clone, Debug)]
pub enum Operation<const D: usize> {
    /// Wire 0 holds the constant with this canonical value.
    Constant { value: u64 },
    /// The first `D` wires hold `x + y`.
    Add { x: ExtensionTarget<D>, y: ExtensionTarget<D> },
    /// The first `D` wires hold `x - y`.
    Sub { x: ExtensionTarget<D>, y: ExtensionTarget<D> },
    /// The first `D` wires hold `x * y`.
    Mul { x: ExtensionTarget<D>, y: ExtensionTarget<D> },
    /// The first `D` wires hold `x * y + z`.
    MulAdd { x: ExtensionTarget<D>, y: ExtensionTarget<D>, z: ExtensionTarget<D> },
    /// The row is an MDS gate.
    PoseidonMds,
    /// The row is a Poseidon gate, for the permutation whose partial-round
    /// matrix has this diagonal.
    Poseidon { mds_matrix_diag: [u64; 12] },
}

/// What an assignment of values gives to the first `d` wires of a row.
pub open spec fn row_result(values: Map<Target, int>, row: usize, d: nat) -> Seq<int> {
    Seq::new(d, |k: int| values[Target::Wire { row, column: k as usize }])
}

/// Whether an assignment of values meets the relation of a row.
pub open spec fn operation_holds<const D: usize>(
    operation: Operation<D>,
    row: usize,
    values: Map<Target, int>,
) -> bool {
    match operation {
        Operation::Constant { value } => values[Target::Wire { row, column: 0 }] == value as int % (
        ORDER as int),
        Operation::Add { x, y } => row_result(values, row, D as nat) == ext_add(
            ext_target_value(values, x),
            ext_target_value(values, y),
        ),
        Operation::Sub { x, y } => row_result(values, row, D as nat) == ext_sub(
            ext_target_value(values, x),
            ext_target_value(values, y),
        ),
        Operation::Mul { x, y } => row_result(values, row, D as nat) == ext_mul(
            ext_target_value(values, x),
            ext_target_value(values, y),
        ),
        Operation::MulAdd { x, y, z } => row_result(values, row, D as nat) == ext_add(
            ext_mul(ext_target_value(values, x), ext_target_value(values, y)),
            ext_target_value(values, z),
        ),
        Operation::PoseidonMds => mds_gate_holds(values, row, D as nat),
        Operation::Poseidon { mds_matrix_diag } => poseidon_gate_holds(
            diag_values(mds_matrix_diag),
            values,
            row,
        ),
    }
}

/// Whether a row holds a gate of the permutation, not arithmetic.
pub open spec fn is_gate_row<const D: usize>(operation: Operation<D>) -> bool {
    operation is PoseidonMds || operation is Poseidon
}

/// The number of rows that hold a gate of the permutation.
pub open spec fn count_gate_rows<const D: usize>(rows: Seq<Operation<D>>) -> nat
    decreases rows.len(),
{
    if rows.len() == 0 {
        0
    } else {
        count_gate_rows(rows.drop_last()) + if is_gate_row(rows.last()) {
            1nat
        } else {
            0nat
        }
    }
}

/// A circuit under construction over the extension of degree `D`.
pub struct CircuitBuilder<F: PrimeField64, const D: usize> {
    pub config: CircuitConfig,
    /// The rows, in the order in which they were added.
    pub gate_instances: Vec<Operation<D>>,
    /// The pairs of targets that must hold the same value.
    pub copy_constraints: Vec<(Target, Target)>,
    /// The number of virtual targets handed out.
    pub virtual_target_index: usize,
    pub field: PhantomData<F>,
}

impl<F: PrimeField64, const D: usize> CircuitBuilder<F, D> {
    /// Whether an assignment of values meets every row and every
    /// connection of the circuit.
    #[verifier::opaque]
    pub open spec fn satisfied_by(&self, values: Map<Target, int>) -> bool {
        &&& forall|r: int|
            0 <= r < self.gate_instances@.len() ==> operation_holds::<D>(
                #[trigger] self.gate_instances@[r],
                r as usize,
                values,
            )
        &&& forall|c: int|
            0 <= c < self.copy_constraints@.len() ==> values[(
            #[trigger] self.copy_constraints@[c]).0] == values[self.copy_constraints@[c].1]
    }

    /// The number of rows that hold a gate of the permutation.
    pub open spec fn gate_rows(&self) -> nat {
        count_gate_rows(self.gate_instances@)
    }

    /// Whether this circuit holds everything that `earlier` holds, in the
    /// same places.
    pub open spec fn extends(&self, earlier: Self) -> bool {
        &&& self.config == earlier.config
        &&& earlier.gate_instances@.is_prefix_of(self.gate_instances@)
        &&& earlier.copy_constraints@.is_prefix_of(self.copy_constraints@)
        &&& earlier.virtual_target_index <= self.virtual_target_index
    }

    /// Whatever meets a circuit meets every circuit that it extends.
    pub proof fn lemma_extends_satisfied(&self, earlier: Self, values: Map<Target, int>)
        requires
            self.extends(earlier),
            self.satisfied_by(values),
        ensures
            earlier.satisfied_by(values),
    {
        reveal(CircuitBuilder::satisfied_by);
        assert forall|r: int| 0 <= r < earlier.gate_instances@.len() implies operation_holds::<D>(
            #[trigger] earlier.gate_instances@[r],
            r as usize,
            values,
        ) by {
            assert(earlier.gate_instances@[r] == self.gate_instances@[r]);
        }
        assert forall|c: int| 0 <= c < earlier.copy_constraints@.len() implies values[(
        #[trigger] earlier.copy_constraints@[c]).0] == values[earlier.copy_constraints@[c].1] by {
            assert(earlier.copy_constraints@[c] == self.copy_constraints@[c]);
        }
    }

    /// To extend is transitive: what extends this circuit extends every
    /// circuit that this one extends.
    pub proof fn lemma_extends_transitive(&self, later: Self, earlier: Self)
        requires
            later.extends(*self),
            self.extends(earlier),
        ensures
            later.extends(earlier),
    {
    }

    /// The empty circuit.
    pub fn new(config: CircuitConfig) -> (builder: Self)
        ensures
            builder.config == config,
            builder.gate_instances@.len() == 0,
            builder.copy_constraints@.len() == 0,
            builder.virtual_target_index == 0,
    {
        CircuitBuilder {
            config,
            gate_instances: Vec::new(),
            copy_constraints: Vec::new(),
            virtual_target_index: 0,
            field: PhantomData,
        }
    }

    /// The number of rows.
    pub fn num_gates(&self) -> (n: usize)
        ensures
            n == self.gate_instances@.len(),
    {
        self.gate_instances.len()
    }

    /// Adds a row and returns its index.
    fn add_operation(&mut self, operation: Operation<D>) -> (row: usize)
        ensures
            row == old(self).gate_instances@.len(),
            final(self).gate_instances@ == old(self).gate_instances@.push(operation),
            final(self).copy_constraints == old(self).copy_constraints,
            final(self).config == old(self).config,
            final(self).virtual_target_index == old(self).virtual_target_index,
            final(self).extends(*old(self)),
            final(self).gate_rows() == old(self).gate_rows() + if is_gate_row(operation) {
                1nat
            } else {
                0nat
            },
            forall|values: Map<Target, int>| #[trigger]
                final(self).satisfied_by(values) ==> old(self).satisfied_by(values)
                    && operation_holds::<D>(operation, row, values),
    {
        let row = self.gate_instances.len();
        self.gate_instances.push(operation);
        proof {
            assert(self.gate_instances@.drop_last() =~= old(self).gate_instances@);
            assert forall|values: Map<Target, int>| #[trigger]
                self.satisfied_by(values) implies old(self).satisfied_by(values)
                && operation_holds::<D>(operation, row, values) by {
                self.lemma_extends_satisfied(*old(self), values);
                reveal(CircuitBuilder::satisfied_by);
                assert(self.gate_instances@[row as int] == operation);
            }
        }
        row
    }

    /// Adds a row of arithmetic and returns the extension target of its
    /// result.
    fn add_arithmetic(&mut self, operation: Operation<D>) -> (output: ExtensionTarget<D>)
        requires
            !is_gate_row(operation),
        ensures
            final(self).gate_instances@ == old(self).gate_instances@.push(operation),
            final(self).copy_constraints == old(self).copy_constraints,
            final(self).config == old(self).config,
            final(self).virtual_target_index == old(self).virtual_target_index,
            final(self).extends(*old(self)),
            final(self).gate_rows() == old(self).gate_rows(),
            output.0@ == wires_of_range(old(self).gate_instances@.len() as usize, 0, D),
            forall|values: Map<Target, int>| #[trigger]
                final(self).satisfied_by(values) ==> old(self).satisfied_by(values)
                    && operation_holds::<D>(
                    operation,
                    old(self).gate_instances@.len() as usize,
                    values,
                ),
            forall|values: Map<Target, int>| #[trigger]
                ext_target_value(values, output) == row_result(
                    values,
                    old(self).gate_instances@.len() as usize,
                    D as nat,
                ),
    {
        let row = self.add_operation(operation);
        let output = ExtensionTarget::from_range(row, 0..D);
        proof {
            assert forall|values: Map<Target, int>| #[trigger]
                ext_target_value(values, output) == row_result(values, row, D as nat) by {
                assert(ext_target_value(values, output) =~= row_result(values, row, D as nat));
            }
        }
        output
    }

    /// A new target that no row determines.
    pub fn add_virtual_target(&mut self) -> (target: Target)
        requires
            old(self).virtual_target_index < usize::MAX,
        ensures
            target == (Target::VirtualTarget { index: old(self).virtual_target_index }),
            final(self).virtual_target_index == old(self).virtual_target_index + 1,
            final(self).gate_instances == old(self).gate_instances,
            final(self).copy_constraints == old(self).copy_constraints,
            final(self).config == old(self).config,
    {
        let index = self.virtual_target_index;
        self.virtual_target_index = index + 1;
        Target::VirtualTarget { index }
    }

    /// A new extension target that no row determines.
    pub fn add_virtual_extension_target(&mut self) -> (target: ExtensionTarget<D>)
        requires
            old(self).virtual_target_index + D <= usize::MAX,
        ensures
            forall|k: int|
                0 <= k < D ==> #[trigger] target.0[k] == (Target::VirtualTarget {
                    index: (old(self).virtual_target_index + k) as usize,
                }),
            final(self).virtual_target_index == old(self).virtual_target_index + D,
            final(self).gate_instances == old(self).gate_instances,
            final(self).copy_constraints == old(self).copy_constraints,
            final(self).config == old(self).config,
    {
        let first = self.virtual_target_index;
        let mut targets = [Target::VirtualTarget { index: first };D];
        for k in 0..D
            invariant
                first + D <= usize::MAX,
                first == old(self).virtual_target_index,
                self.virtual_target_index == first + k,
                self.gate_instances == old(self).gate_instances,
                self.copy_constraints == old(self).copy_constraints,
                self.config == old(self).config,
                forall|j: int|
                    0 <= j < k ==> #[trigger] targets[j] == (Target::VirtualTarget {
                        index: (first + j) as usize,
                    }),
        {
            targets[k] = self.add_virtual_target();
        }
        ExtensionTarget(targets)
    }

    /// Adds a row that holds a gate and returns its index.
    pub fn add_gate(&mut self, gate: Operation<D>) -> (row: usize)
        ensures
            row == old(self).gate_instances@.len(),
            final(self).gate_instances@ == old(self).gate_instances@.push(gate),
            final(self).copy_constraints == old(self).copy_constraints,
            final(self).config == old(self).config,
            final(self).virtual_target_index == old(self).virtual_target_index,
            final(self).extends(*old(self)),
            final(self).gate_rows() == old(self).gate_rows() + if is_gate_row(gate) {
                1nat
            } else {
                0nat
            },
            forall|values: Map<Target, int>| #[trigger]
                final(self).satisfied_by(values) ==> old(self).satisfied_by(values)
                    && operation_holds::<D>(gate, row, values),
    {
        self.add_operation(gate)
    }

    /// Asks that two targets hold the same value.
    pub fn connect(&mut self, x: Target, y: Target)
        ensures
            final(self).gate_instances == old(self).gate_instances,
            final(self).copy_constraints@ == old(self).copy_constraints@.push((x, y)),
            final(self).config == old(self).config,
            final(self).virtual_target_index == old(self).virtual_target_index,
            final(self).extends(*old(self)),
            forall|values: Map<Target, int>| #[trigger]
                final(self).satisfied_by(values) ==> old(self).satisfied_by(values) && values[x]
                    == values[y],
    {
        self.copy_constraints.push((x, y));
        proof {
            assert forall|values: Map<Target, int>| #[trigger]
                self.satisfied_by(values) implies old(self).satisfied_by(values) && values[x]
                == values[y] by {
                self.lemma_extends_satisfied(*old(self), values);
                reveal(CircuitBuilder::satisfied_by);
                assert(self.copy_constraints@[old(self).copy_constraints@.len() as int] == (x, y));
            }
        }
    }

    /// Asks that two extension targets hold the same element.
    pub fn connect_extension(&mut self, src: ExtensionTarget<D>, dst: ExtensionTarget<D>)
        ensures
            final(self).gate_instances == old(self).gate_instances,
            final(self).copy_constraints@ == old(self).copy_constraints@ + extension_connections(
                src,
                dst,
                D as int,
            ),
            final(self).config == old(self).config,
            final(self).virtual_target_index == old(self).virtual_target_index,
            final(self).extends(*old(self)),
            forall|values: Map<Target, int>| #[trigger]
                final(self).satisfied_by(values) ==> old(self).satisfied_by(values)
                    && ext_target_value(values, src) == ext_target_value(values, dst),
    {
        assert(self.copy_constraints@ =~= old(self).copy_constraints@ + extension_connections(
            src,
            dst,
            0,
        ));
        for k in 0..D
            invariant
                self.gate_instances == old(self).gate_instances,
                self.copy_constraints@ == old(self).copy_constraints@ + extension_connections(
                    src,
                    dst,
                    k as int,
                ),
                self.config == old(self).config,
                self.virtual_target_index == old(self).virtual_target_index,
                self.extends(*old(self)),
                forall|values: Map<Target, int>| #[trigger]
                    self.satisfied_by(values) ==> old(self).satisfied_by(values) && forall|j: int|
                        0 <= j < k ==> values[#[trigger] src.0[j]] == values[dst.0[j]],
        {
            self.connect(src.0[k], dst.0[k]);
            assert(self.copy_constraints@ =~= old(self).copy_constraints@ + extension_connections(
                src,
                dst,
                k + 1,
            ));
        }
        proof {
            assert forall|values: Map<Target, int>| #[trigger]
                self.satisfied_by(values) implies ext_target_value(values, src)
                == ext_target_value(values, dst) by {
                assert(ext_target_value(values, src) =~= ext_target_value(values, dst));
            }
        }
    }

    /// A wire that holds a constant of the base field.
    pub fn constant(&mut self, c: F) -> (target: Target)
        ensures
            final(self).gate_instances@ == old(self).gate_instances@.push(
                Operation::Constant { value: c.value() as u64 },
            ),
            target == (Target::Wire { row: old(self).gate_instances@.len() as usize, column: 0 }),
            final(self).copy_constraints == old(self).copy_constraints,
            final(self).config == old(self).config,
            final(self).virtual_target_index == old(self).virtual_target_index,
            final(self).extends(*old(self)),
            final(self).gate_rows() == old(self).gate_rows(),
            final(self).gate_instances@.len() == old(self).gate_instances@.len() + 1,
            forall|values: Map<Target, int>| #[trigger]
                final(self).satisfied_by(values) ==> old(self).satisfied_by(values)
                    && values[target] == c.value(),
    {
        let value = c.to_canonical_u64();
        proof {
            c.lemma_value_canonical();
        }
        let row = self.add_operation(Operation::Constant { value });
        Target::wire(row, 0)
    }

    /// Wires that hold a constant of the extension.
    pub fn constant_extension(&mut self, c: Extension<F, D>) -> (target: ExtensionTarget<D>)
        ensures
            final(self).gate_instances@ == old(self).gate_instances@ + constant_rows(c@, D as int),
            target.0@ == constant_targets(old(self).gate_instances@.len() as int, D as int),
            final(self).copy_constraints == old(self).copy_constraints,
            final(self).config == old(self).config,
            final(self).virtual_target_index == old(self).virtual_target_index,
            final(self).extends(*old(self)),
            final(self).gate_rows() == old(self).gate_rows(),
            forall|values: Map<Target, int>| #[trigger]
                final(self).satisfied_by(values) ==> old(self).satisfied_by(values)
                    && ext_target_value(values, target) == c@,
    {
        let mut targets = [Target::wire(0, 0);D];
        assert(self.gate_instances@ =~= old(self).gate_instances@ + constant_rows(c@, 0));
        for k in 0..D
            invariant
                self.gate_instances@ == old(self).gate_instances@ + constant_rows(c@, k as int),
                forall|j: int|
                    0 <= j < k ==> #[trigger] targets[j] == constant_targets(
                        old(self).gate_instances@.len() as int,
                        D as int,
                    )[j],
                self.copy_constraints == old(self).copy_constraints,
                self.config == old(self).config,
                self.virtual_target_index == old(self).virtual_target_index,
                self.extends(*old(self)),
                self.gate_rows() == old(self).gate_rows(),
                forall|values: Map<Target, int>| #[trigger]
                    self.satisfied_by(values) ==> old(self).satisfied_by(values) && forall|j: int|
                        0 <= j < k ==> values[#[trigger] targets[j]] == c.0[j].value(),
        {
            targets[k] = self.constant(c.0[k]);
            proof {
                c.0[k as int].lemma_value_canonical();
                assert(self.gate_instances@ =~= old(self).gate_instances@ + constant_rows(
                    c@,
                    k + 1,
                ));
            }
        }
        let target = ExtensionTarget(targets);
        assert(target.0@ =~= constant_targets(old(self).gate_instances@.len() as int, D as int));
        proof {
            assert forall|values: Map<Target, int>| #[trigger]
                self.satisfied_by(values) implies ext_target_value(values, target) == c@ by {
                assert(ext_target_value(values, target) =~= c@);
            }
        }
        target
    }

    /// Wires that hold the zero of the extension.
    pub fn zero_extension(&mut self) -> (target: ExtensionTarget<D>)
        ensures
            final(self).gate_instances@ == old(self).gate_instances@ + constant_rows(
                ext_embed(0, D as nat),
                D as int,
            ),
            target.0@ == constant_targets(old(self).gate_instances@.len() as int, D as int),
            final(self).copy_constraints == old(self).copy_constraints,
            final(self).config == old(self).config,
            final(self).virtual_target_index == old(self).virtual_target_index,
            final(self).extends(*old(self)),
            final(self).gate_rows() == old(self).gate_rows(),
            forall|values: Map<Target, int>| #[trigger]
                final(self).satisfied_by(values) ==> old(self).satisfied_by(values)
                    && ext_target_value(values, target) == ext_embed(0, D as nat),
    {
        self.constant_extension(Extension::zero())
    }

    /// Wires that hold the one of the extension.
    pub fn one_extension(&mut self) -> (target: ExtensionTarget<D>)
        ensures
            final(self).gate_instances@ == old(self).gate_instances@ + constant_rows(
                ext_embed(1, D as nat),
                D as int,
            ),
            target.0@ == constant_targets(old(self).gate_instances@.len() as int, D as int),
            final(self).copy_constraints == old(self).copy_constraints,
            final(self).config == old(self).config,
            final(self).virtual_target_index == old(self).virtual_target_index,
            final(self).extends(*old(self)),
            final(self).gate_rows() == old(self).gate_rows(),
            forall|values: Map<Target, int>| #[trigger]
                final(self).satisfied_by(values) ==> old(self).satisfied_by(values)
                    && ext_target_value(values, target) == ext_embed(1, D as nat),
    {
        self.constant_extension(Extension::one())
    }

    /// `x + y` in the extension.
    pub fn add_extension(&mut self, x: ExtensionTarget<D>, y: ExtensionTarget<D>) -> (output:
        ExtensionTarget<D>)
        ensures
            final(self).gate_instances@ == old(self).gate_instances@.push(Operation::Add { x, y }),
            output.0@ == wires_of_range(old(self).gate_instances@.len() as usize, 0, D),
            final(self).copy_constraints == old(self).copy_constraints,
            final(self).config == old(self).config,
            final(self).virtual_target_index == old(self).virtual_target_index,
            final(self).extends(*old(self)),
            final(self).gate_rows() == old(self).gate_rows(),
            forall|values: Map<Target, int>| #[trigger]
                final(self).satisfied_by(values) ==> old(self).satisfied_by(values)
                    && ext_target_value(values, output) == ext_add(
                    ext_target_value(values, x),
                    ext_target_value(values, y),
                ),
    {
        self.add_arithmetic(Operation::Add { x, y })
    }

    /// `x - y` in the extension.
    pub fn sub_extension(&mut self, x: ExtensionTarget<D>, y: ExtensionTarget<D>) -> (output:
        ExtensionTarget<D>)
        ensures
            final(self).gate_instances@ == old(self).gate_instances@.push(Operation::Sub { x, y }),
            output.0@ == wires_of_range(old(self).gate_instances@.len() as usize, 0, D),
            final(self).copy_constraints == old(self).copy_constraints,
            final(self).config == old(self).config,
            final(self).virtual_target_index == old(self).virtual_target_index,
            final(self).extends(*old(self)),
            final(self).gate_rows() == old(self).gate_rows(),
            forall|values: Map<Target, int>| #[trigger]
                final(self).satisfied_by(values) ==> old(self).satisfied_by(values)
                    && ext_target_value(values, output) == ext_sub(
                    ext_target_value(values, x),
                    ext_target_value(values, y),
                ),
    {
        self.add_arithmetic(Operation::Sub { x, y })
    }

    /// `x * y` in the extension.
    pub fn mul_extension(&mut self, x: ExtensionTarget<D>, y: ExtensionTarget<D>) -> (output:
        ExtensionTarget<D>)
        ensures
            final(self).gate_instances@ == old(self).gate_instances@.push(Operation::Mul { x, y }),
            output.0@ == wires_of_range(old(self).gate_instances@.len() as usize, 0, D),
            final(self).copy_constraints == old(self).copy_constraints,
            final(self).config == old(self).config,
            final(self).virtual_target_index == old(self).virtual_target_index,
            final(self).extends(*old(self)),
            final(self).gate_rows() == old(self).gate_rows(),
            forall|values: Map<Target, int>| #[trigger]
                final(self).satisfied_by(values) ==> old(self).satisfied_by(values)
                    && ext_target_value(values, output) == ext_mul(
                    ext_target_value(values, x),
                    ext_target_value(values, y),
                ),
    {
        self.add_arithmetic(Operation::Mul { x, y })
    }

    /// `x * x` in the extension.
    pub fn square_extension(&mut self, x: ExtensionTarget<D>) -> (output: ExtensionTarget<D>)
        ensures
            final(self).gate_instances@ == old(self).gate_instances@.push(Operation::Mul { x, y: x }),
            output.0@ == wires_of_range(old(self).gate_instances@.len() as usize, 0, D),
            final(self).copy_constraints == old(self).copy_constraints,
            final(self).config == old(self).config,
            final(self).virtual_target_index == old(self).virtual_target_index,
            final(self).extends(*old(self)),
            final(self).gate_rows() == old(self).gate_rows(),
            forall|values: Map<Target, int>| #[trigger]
                final(self).satisfied_by(values) ==> old(self).satisfied_by(values)
                    && ext_target_value(values, output) == ext_mul(
                    ext_target_value(values, x),
                    ext_target_value(values, x),
                ),
    {
        self.mul_extension(x, x)
    }

    /// `x * y + z` in the extension.
    pub fn mul_add_extension(
        &mut self,
        x: ExtensionTarget<D>,
        y: ExtensionTarget<D>,
        z: ExtensionTarget<D>,
    ) -> (output: ExtensionTarget<D>)
        ensures
            final(self).gate_instances@ == old(self).gate_instances@.push(Operation::MulAdd { x, y, z }),
            output.0@ == wires_of_range(old(self).gate_instances@.len() as usize, 0, D),
            final(self).copy_constraints == old(self).copy_constraints,
            final(self).config == old(self).config,
            final(self).virtual_target_index == old(self).virtual_target_index,
            final(self).extends(*old(self)),
            final(self).gate_rows() == old(self).gate_rows(),
            forall|values: Map<Target, int>| #[trigger]
                final(self).satisfied_by(values) ==> old(self).satisfied_by(values)
                    && ext_target_value(values, output) == ext_add(
                    ext_mul(ext_target_value(values, x), ext_target_value(values, y)),
                    ext_target_value(values, z),
                ),
    {
        self.add_arithmetic(Operation::MulAdd { x, y, z })
    }

    /// The extension target that holds what a target holds, as an element
    /// of the extension.
    pub fn convert_to_ext(&mut self, t: Target) -> (target: ExtensionTarget<D>)
        ensures
            final(self).gate_instances@ == old(self).gate_instances@.push(
                Operation::Constant { value: 0 },
            ),
            target.0@ == converted_targets(t, old(self).gate_instances@.len() as int, D as int),
            final(self).copy_constraints == old(self).copy_constraints,
            final(self).config == old(self).config,
            final(self).virtual_target_index == old(self).virtual_target_index,
            final(self).extends(*old(self)),
            final(self).gate_rows() == old(self).gate_rows(),
            forall|values: Map<Target, int>| #[trigger]
                final(self).satisfied_by(values) ==> old(self).satisfied_by(values)
                    && ext_target_value(values, target) == ext_embed(values[t], D as nat),
    {
        let zero = self.constant(F::zero());
        let mut targets = [zero;D];
        for k in 0..D
            invariant
                forall|j: int| 0 < j < k ==> targets[j] == zero,
                k > 0 ==> targets[0] == t,
        {
            targets[k] = if k == 0 {
                t
            } else {
                zero
            };
        }
        let target = ExtensionTarget(targets);
        assert(target.0@ =~= converted_targets(t, old(self).gate_instances@.len() as int, D as int));
        proof {
            assert forall|values: Map<Target, int>| #[trigger]
                self.satisfied_by(values) implies ext_target_value(values, target) == ext_embed(
                values[t],
                D as nat,
            ) by {
                assert(values[zero] == 0);
                assert forall|k: int| 0 <= k < D implies ext_target_value(values, target)[k]
                    == ext_embed(values[t], D as nat)[k] by {
                    if k > 0 {
                        assert(target.0[k] == zero);
                    }
                }
                assert(ext_target_value(values, target) =~= ext_embed(values[t], D as nat));
            }
        }
        target
    }

    /// `a * x + y`, for `a` of the base field.
    pub fn scalar_mul_add_extension(
        &mut self,
        a: Target,
        x: ExtensionTarget<D>,
        y: ExtensionTarget<D>,
    ) -> (output: ExtensionTarget<D>)
        ensures
            final(self).gate_instances@ == old(self).gate_instances@.push(
                Operation::Constant { value: 0 },
            ).push(
                Operation::MulAdd {
                    x: ext_target_of(
                        converted_targets(a, old(self).gate_instances@.len() as int, D as int),
                    ),
                    y: x,
                    z: y,
                },
            ),
            output.0@ == wires_of_range((old(self).gate_instances@.len() + 1) as usize, 0, D),
            final(self).copy_constraints == old(self).copy_constraints,
            final(self).config == old(self).config,
            final(self).virtual_target_index == old(self).virtual_target_index,
            final(self).extends(*old(self)),
            final(self).gate_rows() == old(self).gate_rows(),
            forall|values: Map<Target, int>| #[trigger]
                final(self).satisfied_by(values) ==> old(self).satisfied_by(values)
                    && ext_target_value(values, output) == ext_add(
                    ext_scale(values[a], ext_target_value(values, x)),
                    ext_target_value(values, y),
                ),
    {
        let a_ext = self.convert_to_ext(a);
        proof {
            lemma_ext_target_of(a_ext);
        }
        let output = self.mul_add_extension(a_ext, x, y);
        proof {
            assert forall|values: Map<Target, int>| #[trigger]
                self.satisfied_by(values) implies ext_target_value(values, output) == ext_add(
                ext_scale(values[a], ext_target_value(values, x)),
                ext_target_value(values, y),
            ) by {
                lemma_ext_mul_embed_left(values[a], ext_target_value(values, x));
            }
        }
        output
    }

    /// The sum of the terms, added to zero one after the other.
    pub fn add_many_extension(&mut self, terms: &[ExtensionTarget<D>]) -> (output: ExtensionTarget<
        D,
    >)
        ensures
            final(self).gate_instances@ == old(self).gate_instances@ + add_many_rows(
                old(self).gate_instances@.len() as int,
                terms@,
                terms@.len() as int,
            ),
            output == add_many_target::<D>(
                old(self).gate_instances@.len() as int,
                terms@.len() as int,
            ),
            final(self).copy_constraints == old(self).copy_constraints,
            final(self).config == old(self).config,
            final(self).virtual_target_index == old(self).virtual_target_index,
            final(self).extends(*old(self)),
            final(self).gate_rows() == old(self).gate_rows(),
            forall|values: Map<Target, int>| #[trigger]
                final(self).satisfied_by(values) ==> old(self).satisfied_by(values)
                    && ext_target_value(values, output) == ext_add_many(
                    values,
                    terms@,
                    terms@.len() as int,
                ),
    {
        let mut sum = self.zero_extension();
        proof {
            lemma_ext_target_of(sum);
        }
        for i in 0..terms.len()
            invariant
                self.gate_instances@ == old(self).gate_instances@ + add_many_rows(
                    old(self).gate_instances@.len() as int,
                    terms@,
                    i as int,
                ),
                sum == add_many_target::<D>(old(self).gate_instances@.len() as int, i as int),
                self.copy_constraints == old(self).copy_constraints,
                self.config == old(self).config,
                self.virtual_target_index == old(self).virtual_target_index,
                self.extends(*old(self)),
                self.gate_rows() == old(self).gate_rows(),
                forall|values: Map<Target, int>| #[trigger]
                    self.satisfied_by(values) ==> old(self).satisfied_by(values)
                        && ext_target_value(values, sum) == ext_add_many(values, terms@, i as int),
        {
            let ghost before = self.gate_instances@;
            sum = self.add_extension(sum, terms[i]);
            proof {
                lemma_ext_target_of(sum);
                lemma_add_many_rows_len(
                    old(self).gate_instances@.len() as int,
                    terms@,
                    i as int,
                );
                assert(before.len() == old(self).gate_instances@.len() + D + i);
                assert(self.gate_instances@ =~= old(self).gate_instances@ + add_many_rows(
                    old(self).gate_instances@.len() as int,
                    terms@,
                    i + 1,
                ));
            }
        }
        sum
    }

    /// `base` to the power `exponent`, by squaring and multiplying.
    pub fn exp_u64_extension(&mut self, base: ExtensionTarget<D>, exponent: u64) -> (output:
        ExtensionTarget<D>)
        ensures
            (final(self).gate_instances@, output) == exp_u64_rows(
                old(self).gate_instances@,
                base,
                exponent as nat,
            ),
            final(self).copy_constraints == old(self).copy_constraints,
            final(self).config == old(self).config,
            final(self).virtual_target_index == old(self).virtual_target_index,
            final(self).extends(*old(self)),
            final(self).gate_rows() == old(self).gate_rows(),
            forall|values: Map<Target, int>| #[trigger]
                final(self).satisfied_by(values) ==> old(self).satisfied_by(values)
                    && ext_target_value(values, output) == ext_exp_u64(
                    ext_target_value(values, base),
                    exponent as nat,
                ),
    {
        if exponent == 0 {
            let one = self.one_extension();
            proof {
                lemma_ext_target_of(one);
            }
            return one;
        }
        if exponent == 1 {
            return base;
        }
        if exponent == 2 {
            let square = self.square_extension(base);
            proof {
                lemma_ext_target_of(square);
            }
            return square;
        }
        let mut current = base;
        let mut product = self.one_extension();
        proof {
            lemma_ext_target_of(product);
        }
        let mut remaining = exponent;
        let mut first = true;
        while remaining != 0
            invariant
                exp_loop_rows(self.gate_instances@, product, current, remaining as nat, first)
                    == exp_u64_rows(old(self).gate_instances@, base, exponent as nat),
                exponent > 2,
                self.copy_constraints == old(self).copy_constraints,
                self.config == old(self).config,
                self.virtual_target_index == old(self).virtual_target_index,
                self.extends(*old(self)),
                self.gate_rows() == old(self).gate_rows(),
                forall|values: Map<Target, int>| #[trigger]
                    self.satisfied_by(values) ==> old(self).satisfied_by(values) && ext_exp_bits(
                        ext_target_value(values, product),
                        if first {
                            ext_target_value(values, current)
                        } else {
                            ext_mul(
                                ext_target_value(values, current),
                                ext_target_value(values, current),
                            )
                        },
                        remaining as nat,
                    ) == ext_exp_bits(
                        ext_embed(1, D as nat),
                        ext_target_value(values, base),
                        exponent as nat,
                    ),
            decreases remaining,
        {
            if !first {
                current = self.square_extension(current);
                proof {
                    lemma_ext_target_of(current);
                }
            }
            first = false;
            if remaining % 2 == 1 {
                product = self.mul_extension(product, current);
                proof {
                    lemma_ext_target_of(product);
                }
            }
            remaining = remaining / 2;
        }
        product
    }

    /// Wires that hold the zero of the extension algebra.
    pub fn zero_ext_algebra(&mut self) -> (target: ExtensionAlgebraTarget<D>)
        ensures
            final(self).gate_instances@ == old(self).gate_instances@ + constant_rows(
                ext_embed(0, D as nat),
                D as int,
            ),
            forall|a: int|
                0 <= a < D ==> (#[trigger] target.0[a]).0@ == constant_targets(
                    old(self).gate_instances@.len() as int,
                    D as int,
                ),
            final(self).copy_constraints == old(self).copy_constraints,
            final(self).config == old(self).config,
            final(self).virtual_target_index == old(self).virtual_target_index,
            final(self).extends(*old(self)),
            final(self).gate_rows() == old(self).gate_rows(),
            forall|values: Map<Target, int>| #[trigger]
                final(self).satisfied_by(values) ==> old(self).satisfied_by(values)
                    && ext_algebra_target_value(values, target) == algebra_zero(D as nat),
    {
        let zero = self.zero_extension();
        let mut components = [zero;D];
        for a in 0..D
            invariant
                forall|j: int| 0 <= j < a ==> components[j] == zero,
        {
            components[a] = zero;
        }
        let target = ExtensionAlgebraTarget(components);
        proof {
            assert forall|values: Map<Target, int>| #[trigger]
                self.satisfied_by(values) implies ext_algebra_target_value(values, target)
                == algebra_zero(D as nat) by {
                assert(ext_algebra_target_value(values, target) =~= algebra_zero(D as nat));
            }
        }
        target
    }

    /// `x + y` in the extension algebra.
    pub fn add_ext_algebra(
        &mut self,
        x: ExtensionAlgebraTarget<D>,
        y: ExtensionAlgebraTarget<D>,
    ) -> (output: ExtensionAlgebraTarget<D>)
        ensures
            final(self).gate_instances@ == old(self).gate_instances@ + algebra_rows(
                x,
                y,
                false,
                D as int,
            ),
            output == rows_target::<D>(old(self).gate_instances@.len() as int),
            final(self).copy_constraints == old(self).copy_constraints,
            final(self).config == old(self).config,
            final(self).virtual_target_index == old(self).virtual_target_index,
            final(self).extends(*old(self)),
            final(self).gate_rows() == old(self).gate_rows(),
            forall|values: Map<Target, int>| #[trigger]
                final(self).satisfied_by(values) ==> old(self).satisfied_by(values)
                    && ext_algebra_target_value(values, output) == algebra_add(
                    ext_algebra_target_value(values, x),
                    ext_algebra_target_value(values, y),
                ),
    {
        let mut components = x.0;
        assert(self.gate_instances@ =~= old(self).gate_instances@ + algebra_rows(x, y, false, 0));
        for a in 0..D
            invariant
                self.gate_instances@ == old(self).gate_instances@ + algebra_rows(
                    x,
                    y,
                    false,
                    a as int,
                ),
                forall|j: int|
                    0 <= j < a ==> #[trigger] components[j] == row_target::<D>(
                        old(self).gate_instances@.len() + j,
                    ),
                self.copy_constraints == old(self).copy_constraints,
                self.config == old(self).config,
                self.virtual_target_index == old(self).virtual_target_index,
                self.extends(*old(self)),
                self.gate_rows() == old(self).gate_rows(),
                forall|values: Map<Target, int>| #[trigger]
                    self.satisfied_by(values) ==> old(self).satisfied_by(values) && forall|j: int|
                        0 <= j < a ==> ext_target_value(values, #[trigger] components[j])
                            == ext_add(
                            ext_target_value(values, x.0[j]),
                            ext_target_value(values, y.0[j]),
                        ),
        {
            components[a] = self.add_extension(x.0[a], y.0[a]);
            proof {
                lemma_ext_target_of(components[a as int]);
                assert(self.gate_instances@ =~= old(self).gate_instances@ + algebra_rows(
                    x,
                    y,
                    false,
                    a + 1,
                ));
            }
        }
        let output = ExtensionAlgebraTarget(components);
        proof {
            lemma_algebra_target_of(output);
            assert(output.0@ =~= Seq::new(
                D as nat,
                |a: int| row_target::<D>(old(self).gate_instances@.len() + a),
            ));
        }
        proof {
            assert forall|values: Map<Target, int>| #[trigger]
                self.satisfied_by(values) implies ext_algebra_target_value(values, output)
                == algebra_add(
                ext_algebra_target_value(values, x),
                ext_algebra_target_value(values, y),
            ) by {
                assert(ext_algebra_target_value(values, output) =~= algebra_add(
                    ext_algebra_target_value(values, x),
                    ext_algebra_target_value(values, y),
                ));
            }
        }
        output
    }

    /// `x - y` in the extension algebra.
    pub fn sub_ext_algebra(
        &mut self,
        x: ExtensionAlgebraTarget<D>,
        y: ExtensionAlgebraTarget<D>,
    ) -> (output: ExtensionAlgebraTarget<D>)
        ensures
            final(self).gate_instances@ == old(self).gate_instances@ + algebra_rows(
                x,
                y,
                true,
                D as int,
            ),
            output == rows_target::<D>(old(self).gate_instances@.len() as int),
            output.0@ == Seq::new(
                D as nat,
                |a: int| row_target::<D>(old(self).gate_instances@.len() + a),
            ),
            final(self).copy_constraints == old(self).copy_constraints,
            final(self).config == old(self).config,
            final(self).virtual_target_index == old(self).virtual_target_index,
            final(self).extends(*old(self)),
            final(self).gate_rows() == old(self).gate_rows(),
            forall|values: Map<Target, int>| #[trigger]
                final(self).satisfied_by(values) ==> old(self).satisfied_by(values)
                    && ext_algebra_target_value(values, output) == algebra_sub(
                    ext_algebra_target_value(values, x),
                    ext_algebra_target_value(values, y),
                ),
    {
        let mut components = x.0;
        assert(self.gate_instances@ =~= old(self).gate_instances@ + algebra_rows(x, y, true, 0));
        for a in 0..D
            invariant
                self.gate_instances@ == old(self).gate_instances@ + algebra_rows(
                    x,
                    y,
                    true,
                    a as int,
                ),
                forall|j: int|
                    0 <= j < a ==> #[trigger] components[j] == row_target::<D>(
                        old(self).gate_instances@.len() + j,
                    ),
                self.copy_constraints == old(self).copy_constraints,
                self.config == old(self).config,
                self.virtual_target_index == old(self).virtual_target_index,
                self.extends(*old(self)),
                self.gate_rows() == old(self).gate_rows(),
                forall|values: Map<Target, int>| #[trigger]
                    self.satisfied_by(values) ==> old(self).satisfied_by(values) && forall|j: int|
                        0 <= j < a ==> ext_target_value(values, #[trigger] components[j])
                            == ext_sub(
                            ext_target_value(values, x.0[j]),
                            ext_target_value(values, y.0[j]),
                        ),
        {
            components[a] = self.sub_extension(x.0[a], y.0[a]);
            proof {
                lemma_ext_target_of(components[a as int]);
                assert(self.gate_instances@ =~= old(self).gate_instances@ + algebra_rows(
                    x,
                    y,
                    true,
                    a + 1,
                ));
            }
        }
        let output = ExtensionAlgebraTarget(components);
        proof {
            lemma_algebra_target_of(output);
            assert(output.0@ =~= Seq::new(
                D as nat,
                |a: int| row_target::<D>(old(self).gate_instances@.len() + a),
            ));
        }
        proof {
            assert forall|values: Map<Target, int>| #[trigger]
                self.satisfied_by(values) implies ext_algebra_target_value(values, output)
                == algebra_sub(
                ext_algebra_target_value(values, x),
                ext_algebra_target_value(values, y),
            ) by {
                assert(ext_algebra_target_value(values, output) =~= algebra_sub(
                    ext_algebra_target_value(values, x),
                    ext_algebra_target_value(values, y),
                ));
            }
        }
        output
    }

    /// `a * x + y` in the extension algebra, for `a` of the extension:
    /// component by component.
    pub fn scalar_mul_add_ext_algebra(
        &mut self,
        a: ExtensionTarget<D>,
        x: ExtensionAlgebraTarget<D>,
        y: ExtensionAlgebraTarget<D>,
    ) -> (output: ExtensionAlgebraTarget<D>)
        ensures
            final(self).gate_instances@ == old(self).gate_instances@ + algebra_mul_add_rows(
                a,
                x,
                y,
                D as int,
            ),
            output == rows_target::<D>(old(self).gate_instances@.len() as int),
            final(self).copy_constraints == old(self).copy_constraints,
            final(self).config == old(self).config,
            final(self).virtual_target_index == old(self).virtual_target_index,
            final(self).extends(*old(self)),
            final(self).gate_rows() == old(self).gate_rows(),
            forall|values: Map<Target, int>| #[trigger]
                final(self).satisfied_by(values) ==> old(self).satisfied_by(values)
                    && ext_algebra_target_value(values, output) == algebra_scalar_mul_add(
                    ext_target_value(values, a),
                    ext_algebra_target_value(values, x),
                    ext_algebra_target_value(values, y),
                ),
    {
        let mut components = x.0;
        assert(self.gate_instances@ =~= old(self).gate_instances@ + algebra_mul_add_rows(
            a,
            x,
            y,
            0,
        ));
        for i in 0..D
            invariant
                self.gate_instances@ == old(self).gate_instances@ + algebra_mul_add_rows(
                    a,
                    x,
                    y,
                    i as int,
                ),
                forall|j: int|
                    0 <= j < i ==> #[trigger] components[j] == row_target::<D>(
                        old(self).gate_instances@.len() + j,
                    ),
                self.copy_constraints == old(self).copy_constraints,
                self.config == old(self).config,
                self.virtual_target_index == old(self).virtual_target_index,
                self.extends(*old(self)),
                self.gate_rows() == old(self).gate_rows(),
                forall|values: Map<Target, int>| #[trigger]
                    self.satisfied_by(values) ==> old(self).satisfied_by(values) && forall|j: int|
                        0 <= j < i ==> ext_target_value(values, #[trigger] components[j])
                            == ext_add(
                            ext_mul(ext_target_value(values, a), ext_target_value(values, x.0[j])),
                            ext_target_value(values, y.0[j]),
                        ),
        {
            components[i] = self.mul_add_extension(a, x.0[i], y.0[i]);
            proof {
                lemma_ext_target_of(components[i as int]);
                assert(self.gate_instances@ =~= old(self).gate_instances@ + algebra_mul_add_rows(
                    a,
                    x,
                    y,
                    i + 1,
                ));
            }
        }
        let output = ExtensionAlgebraTarget(components);
        proof {
            lemma_algebra_target_of(output);
            assert(output.0@ =~= Seq::new(
                D as nat,
                |a: int| row_target::<D>(old(self).gate_instances@.len() + a),
            ));
        }
        proof {
            assert forall|values: Map<Target, int>| #[trigger]
                self.satisfied_by(values) implies ext_algebra_target_value(values, output)
                == algebra_scalar_mul_add(
                ext_target_value(values, a),
                ext_algebra_target_value(values, x),
                ext_algebra_target_value(values, y),
            ) by {
                assert(ext_algebra_target_value(values, output) =~= algebra_scalar_mul_add(
                    ext_target_value(values, a),
                    ext_algebra_target_value(values, x),
                    ext_algebra_target_value(values, y),
                ));
            }
        }
        output
    }
}

/// The rows that hold the first `n` coefficients of a constant of the
/// extension, one constant of the field in each.
pub open spec fn constant_rows<const D: usize>(c: Seq<int>, n: int) -> Seq<Operation<D>> {
    Seq::new(n as nat, |k: int| Operation::Constant { value: c[k] as u64 })
}

/// Wire 0 of each of the `n` rows from row `first` on.
pub open spec fn constant_targets(first: int, n: int) -> Seq<Target> {
    Seq::new(n as nat, |k: int| Target::Wire { row: (first + k) as usize, column: 0 })
}

/// The targets of a target taken as an element of the extension: the
/// target itself, then wire 0 of the row that holds zero.
pub open spec fn converted_targets(t: Target, zero_row: int, n: int) -> Seq<Target> {
    Seq::new(
        n as nat,
        |k: int|
            if k == 0 {
                t
            } else {
                Target::Wire { row: zero_row as usize, column: 0 }
            },
    )
}

/// The target of the sum of the first `n` terms of `add_many_extension`,
/// whose zero is in the `D` rows from row `first` on.
pub open spec fn add_many_target<const D: usize>(first: int, n: int) -> ExtensionTarget<D> {
    if n <= 0 {
        ext_target_of(constant_targets(first, D as int))
    } else {
        row_target(first + D + n - 1)
    }
}

/// The rows of `add_many_extension` for the first `n` terms, from row
/// `first` on: those of zero, then one addition for each term.
pub open spec fn add_many_rows<const D: usize>(
    first: int,
    terms: Seq<ExtensionTarget<D>>,
    n: int,
) -> Seq<Operation<D>>
    decreases n,
{
    if n <= 0 {
        constant_rows(ext_embed(0, D as nat), D as int)
    } else {
        add_many_rows(first, terms, n - 1).push(
            Operation::Add { x: add_many_target(first, n - 1), y: terms[n - 1] },
        )
    }
}

/// `add_many_extension` adds the rows of zero and one row for each term.
pub proof fn lemma_add_many_rows_len<const D: usize>(
    first: int,
    terms: Seq<ExtensionTarget<D>>,
    n: int,
)
    requires
        0 <= n,
    ensures
        add_many_rows(first, terms, n).len() == D + n,
    decreases n,
{
    if n > 0 {
        lemma_add_many_rows_len(first, terms, n - 1);
    }
}

/// The rows and the result of the loop of `exp_u64_extension`: for each
/// bit of what remains of the exponent, from the lowest on, a row that
/// squares `current`, except for the first bit, and, where the bit is
/// set, a row that multiplies `product` by it.
pub open spec fn exp_loop_rows<const D: usize>(
    rows: Seq<Operation<D>>,
    product: ExtensionTarget<D>,
    current: ExtensionTarget<D>,
    remaining: nat,
    first: bool,
) -> (Seq<Operation<D>>, ExtensionTarget<D>)
    decreases remaining,
{
    if remaining == 0 {
        (rows, product)
    } else {
        let squared = if first {
            (rows, current)
        } else {
            (rows.push(Operation::Mul { x: current, y: current }), row_target(rows.len() as int))
        };
        let multiplied = if remaining % 2 == 1 {
            (
                squared.0.push(Operation::Mul { x: product, y: squared.1 }),
                row_target(squared.0.len() as int),
            )
        } else {
            (squared.0, product)
        };
        exp_loop_rows(multiplied.0, multiplied.1, squared.1, remaining / 2, false)
    }
}

/// The rows of a circuit after `exp_u64_extension`, and its result.
pub open spec fn exp_u64_rows<const D: usize>(
    rows: Seq<Operation<D>>,
    base: ExtensionTarget<D>,
    exponent: nat,
) -> (Seq<Operation<D>>, ExtensionTarget<D>) {
    if exponent == 0 {
        (
            rows + constant_rows(ext_embed(1, D as nat), D as int),
            ext_target_of(constant_targets(rows.len() as int, D as int)),
        )
    } else if exponent == 1 {
        (rows, base)
    } else if exponent == 2 {
        (rows.push(Operation::Mul { x: base, y: base }), row_target(rows.len() as int))
    } else {
        exp_loop_rows(
            rows + constant_rows(ext_embed(1, D as nat), D as int),
            ext_target_of(constant_targets(rows.len() as int, D as int)),
            base,
            exponent,
            true,
        )
    }
}

/// The rows of an operation on the first `n` components of two targets
/// of the extension algebra, one row for each component.
pub open spec fn algebra_rows<const D: usize>(
    x: ExtensionAlgebraTarget<D>,
    y: ExtensionAlgebraTarget<D>,
    subtract: bool,
    n: int,
) -> Seq<Operation<D>> {
    Seq::new(
        n as nat,
        |a: int|
            if subtract {
                Operation::Sub { x: x.0[a], y: y.0[a] }
            } else {
                Operation::Add { x: x.0[a], y: y.0[a] }
            },
    )
}

/// The rows of `a * x + y` on the first `n` components of two targets of
/// the extension algebra, one row for each component.
pub open spec fn algebra_mul_add_rows<const D: usize>(
    a: ExtensionTarget<D>,
    x: ExtensionAlgebraTarget<D>,
    y: ExtensionAlgebraTarget<D>,
    n: int,
) -> Seq<Operation<D>> {
    Seq::new(n as nat, |i: int| Operation::MulAdd { x: a, y: x.0[i], z: y.0[i] })
}

/// The connections of the first `n` targets of an extension target to
/// those of another, in order.
pub open spec fn extension_connections<const D: usize>(
    src: ExtensionTarget<D>,
    dst: ExtensionTarget<D>,
    n: int,
) -> Seq<(Target, Target)> {
    Seq::new(n as nat, |k: int| (src.0[k], dst.0[k]))
}

/// The sum of the first `n` of the terms, added to zero one after the
/// other, under an assignment of values.
pub open spec fn ext_add_many<const D: usize>(
    values: Map<Target, int>,
    terms: Seq<ExtensionTarget<D>>,
    n: int,
) -> Seq<int>
    decreases n,
{
    if n <= 0 {
        ext_embed(0, D as nat)
    } else {
        ext_add(ext_add_many(values, terms, n - 1), ext_target_value(values, terms[n - 1]))
    }
}

/// `a * x + y` in the extension algebra, for `a` of the extension:
/// component by component.
pub open spec fn algebra_scalar_mul_add(a: Seq<int>, x: Seq<Seq<int>>, y: Seq<Seq<int>>) -> Seq<
    Seq<int>,
> {
    Seq::new(x.len(), |i: int| ext_add(ext_mul(a, x[i]), y[i]))
}

} // verus!

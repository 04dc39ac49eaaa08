use poseidon2::field::extension::Extension;
use poseidon2::field::goldilocks_field::GoldilocksField as F;
use poseidon2::field::types::PrimeField64;
use poseidon2::hash::poseidon2::{Poseidon, PoseidonHash};
use poseidon2::iop::ext_target::ExtensionTarget;
use poseidon2::iop::target::{BoolTarget, Target};
use poseidon2::gates::gate::Gate;
use poseidon2::gates::poseidon2_mds::PoseidonMdsGate;
use poseidon2::iop::witness::{GeneratedValues, PartitionWitness};
use poseidon2::plonk::circuit_builder::{CircuitBuilder, Operation};
use poseidon2::plonk::circuit_data::CircuitConfig;

const D: usize = 2;

struct Rng(u64);

impl Rng {
    fn next_u64(&mut self) -> u64 {
        self.0 ^= self.0 << 13;
        self.0 ^= self.0 >> 7;
        self.0 ^= self.0 << 17;
        self.0
    }

    fn field(&mut self) -> F {
        F::from_noncanonical_u64(self.next_u64())
    }

    fn extension(&mut self) -> Extension<F, D> {
        Extension([self.field(), self.field()])
    }

    fn state(&mut self) -> [Extension<F, D>; 12] {
        let mut state = [Extension::zero(); 12];
        for lane in state.iter_mut() {
            *lane = self.extension();
        }
        state
    }
}

/// A configuration with room for an MDS gate over the extension of degree
/// 2, which has 48 wires.
fn wide() -> CircuitConfig {
    CircuitConfig::standard_recursion_config()
}

/// A configuration without room for an MDS gate.
fn narrow() -> CircuitConfig {
    CircuitConfig { num_wires: 135, num_routed_wires: 47 }
}

fn inputs(
    builder: &mut CircuitBuilder<F, D>,
    witness: &mut PartitionWitness<F>,
    values: &[Extension<F, D>; 12],
) -> [ExtensionTarget<D>; 12] {
    let mut targets = [ExtensionTarget([Target::wire(0, 0); D]); 12];
    for i in 0..12 {
        targets[i] = builder.add_virtual_extension_target();
        for k in 0..D {
            witness.set_target(targets[i].0[k], values[i].0[k]);
        }
    }
    targets
}

/// Fills the wires that a row determines, if the targets that it reads
/// have their values. `None` if a wire has another value already.
fn fill_row<const D: usize>(
    operation: &Operation<D>,
    row: usize,
    witness: &mut PartitionWitness<F>,
) -> Option<bool> {
    let output = ExtensionTarget::<D>::from_range(row, 0..D);
    let set = |witness: &mut PartitionWitness<F>, value: Extension<F, D>| -> Option<bool> {
        for k in 0..D {
            if !witness.try_set_target(output.0[k], value.0[k]) {
                return None;
            }
        }
        Some(true)
    };
    let get = |witness: &PartitionWitness<F>, target: &ExtensionTarget<D>| {
        witness.try_get_extension_target(*target)
    };
    match operation {
        Operation::Constant { value } => {
            witness
                .try_set_target(Target::wire(row, 0), F::from_noncanonical_u64(*value))
                .then_some(true)
        }
        Operation::Add { x, y } => match (get(witness, x), get(witness, y)) {
            (Some(x), Some(y)) => set(witness, x.add(y)),
            _ => Some(false),
        },
        Operation::Sub { x, y } => match (get(witness, x), get(witness, y)) {
            (Some(x), Some(y)) => set(witness, x.sub(y)),
            _ => Some(false),
        },
        Operation::Mul { x, y } => match (get(witness, x), get(witness, y)) {
            (Some(x), Some(y)) => set(witness, x.mul(y)),
            _ => Some(false),
        },
        Operation::MulAdd { x, y, z } => {
            match (get(witness, x), get(witness, y), get(witness, z)) {
                (Some(x), Some(y), Some(z)) => set(witness, x.mul(y).add(z)),
                _ => Some(false),
            }
        }
        Operation::PoseidonMds => {
            let gate = PoseidonMdsGate::<F, D>::new();
            let mut out_buffer = GeneratedValues::empty();
            for generator in gate.generators(row, &[]) {
                if !generator.run(witness, &mut out_buffer) {
                    return Some(false);
                }
            }
            for (target, value) in out_buffer.target_values {
                if !witness.try_set_target(target, value) {
                    return None;
                }
            }
            Some(true)
        }
        Operation::Poseidon { mds_matrix_diag } => {
            assert_eq!(*mds_matrix_diag, <F as Poseidon>::MDS_MATRIX_DIAG);
            let mut inputs = [F::zero(); 12];
            for i in 0..12 {
                match witness.try_get_target(Target::wire(row, i)) {
                    Some(value) => inputs[i] = value,
                    None => return Some(false),
                }
            }
            let swap = match witness.try_get_target(Target::wire(row, 24)) {
                Some(swap) => swap.to_canonical_u64(),
                None => return Some(false),
            };
            match swap {
                0 => {}
                1 => {
                    for i in 0..4 {
                        inputs.swap(i, i + 4);
                    }
                }
                _ => return None,
            }
            let outputs = F::poseidon(inputs);
            for i in 0..12 {
                if !witness.try_set_target(Target::wire(row, 12 + i), outputs[i]) {
                    return None;
                }
            }
            Some(true)
        }
    }
}

/// Fills the wires of a circuit from the values that the witness holds:
/// hands values over the connections and runs every row once, when the
/// targets that it reads have their values. Says whether every row was
/// filled and every connection holds.
fn generate_partial_witness<const D: usize>(
    builder: &CircuitBuilder<F, D>,
    witness: &mut PartitionWitness<F>,
) -> bool {
    let mut filled = vec![false; builder.gate_instances.len()];
    loop {
        let mut progress = false;
        for (x, y) in builder.copy_constraints.iter() {
            match (witness.try_get_target(*x), witness.try_get_target(*y)) {
                (Some(a), None) => {
                    witness.set_target(*y, a);
                    progress = true;
                }
                (None, Some(b)) => {
                    witness.set_target(*x, b);
                    progress = true;
                }
                (Some(a), Some(b)) if a != b => return false,
                _ => {}
            }
        }
        for (row, operation) in builder.gate_instances.iter().enumerate() {
            if !filled[row] {
                match fill_row(operation, row, witness) {
                    Some(true) => {
                        filled[row] = true;
                        progress = true;
                    }
                    Some(false) => {}
                    None => return false,
                }
            }
        }
        if !progress {
            break;
        }
    }
    filled.iter().all(|f| *f)
        && builder
            .copy_constraints
            .iter()
            .all(|(x, y)| {
                witness.contains(*x) && witness.try_get_target(*x) == witness.try_get_target(*y)
            })
}

fn fill(builder: &CircuitBuilder<F, D>, witness: &mut PartitionWitness<F>) {
    assert!(generate_partial_witness(builder, witness));
}

fn assert_holds(
    witness: &PartitionWitness<F>,
    targets: &[ExtensionTarget<D>; 12],
    values: &[Extension<F, D>; 12],
) {
    for i in 0..12 {
        assert!(witness.get_extension_target(targets[i]).equals(&values[i]));
    }
}

fn count_gates(builder: &CircuitBuilder<F, D>) -> usize {
    builder
        .gate_instances
        .iter()
        .filter(|op| matches!(op, Operation::PoseidonMds | Operation::Poseidon { .. }))
        .count()
}

#[test]
fn mds_layer_circuit_uses_gate_when_there_is_room() {
    let mut rng = Rng(31);
    for _ in 0..20 {
        let state = rng.state();
        let mut builder = CircuitBuilder::<F, D>::new(wide());
        let mut witness = PartitionWitness::new();
        let targets = inputs(&mut builder, &mut witness, &state);
        let result = F::mds_layer_circuit(&mut builder, &targets);
        assert_eq!(builder.num_gates(), 1);
        assert!(matches!(builder.gate_instances[0], Operation::PoseidonMds));
        assert_eq!(builder.copy_constraints.len(), 12 * D);
        for i in 0..12 {
            for k in 0..D {
                assert_eq!(
                    builder.copy_constraints[i * D + k],
                    (targets[i].0[k], Target::wire(0, i * D + k))
                );
            }
        }
        for i in 0..12 {
            for k in 0..D {
                assert_eq!(result[i].0[k], Target::Wire { row: 0, column: (12 + i) * D + k });
            }
        }
        fill(&builder, &mut witness);
        assert_holds(&witness, &result, &F::mds_layer_field(&state));
    }
}

#[test]
fn mds_layer_circuit_unrolls_when_there_is_no_room() {
    let mut rng = Rng(32);
    for _ in 0..20 {
        let state = rng.state();
        let mut builder = CircuitBuilder::<F, D>::new(narrow());
        let mut witness = PartitionWitness::new();
        let targets = inputs(&mut builder, &mut witness, &state);
        let result = F::mds_layer_circuit(&mut builder, &targets);
        assert_eq!(count_gates(&builder), 0);
        assert!(builder.copy_constraints.is_empty());
        // A zero, the numbers 2 and 4, twelve rows for each of three
        // groups, four sums of three terms from zero, and twelve lanes.
        assert_eq!(builder.num_gates(), D + 2 + 3 * 12 + 4 * (D + 3) + 12);
        assert!(matches!(builder.gate_instances[D], Operation::Constant { value: 2 }));
        assert!(matches!(builder.gate_instances[D + 1], Operation::Constant { value: 4 }));
        assert!(matches!(builder.gate_instances[D + 2], Operation::Add { .. }));
        assert!(matches!(builder.gate_instances[D + 5], Operation::MulAdd { .. }));
        let last = builder.num_gates() - 1;
        assert_eq!(result[11].0, [Target::wire(last, 0), Target::wire(last, 1)]);
        assert_eq!(builder.virtual_target_index, 12 * D);
        fill(&builder, &mut witness);
        assert_holds(&witness, &result, &F::mds_layer_field(&state));
    }
}

#[test]
fn mds_layer_circuit_at_the_edge_of_room() {
    let state = Rng(33).state();
    let mut builder =
        CircuitBuilder::<F, D>::new(CircuitConfig { num_wires: 48, num_routed_wires: 48 });
    let mut witness = PartitionWitness::new();
    let targets = inputs(&mut builder, &mut witness, &state);
    F::mds_layer_circuit(&mut builder, &targets);
    assert_eq!(count_gates(&builder), 1);
}

#[test]
fn both_branches_agree_on_embedded_field_elements() {
    let mut rng = Rng(34);
    for _ in 0..20 {
        let mut base = [F::zero(); 12];
        let mut state = [Extension::<F, D>::zero(); 12];
        for i in 0..12 {
            base[i] = rng.field();
            state[i] = Extension::from_basefield(base[i]);
        }
        let mixed = F::mds_layer(&base);
        let mut expected = [Extension::<F, D>::zero(); 12];
        for i in 0..12 {
            expected[i] = Extension::from_basefield(mixed[i]);
        }
        for config in [wide(), narrow()] {
            let mut builder = CircuitBuilder::<F, D>::new(config);
            let mut witness = PartitionWitness::new();
            let targets = inputs(&mut builder, &mut witness, &state);
            let result = F::mds_layer_circuit(&mut builder, &targets);
            fill(&builder, &mut witness);
            assert_holds(&witness, &result, &expected);
        }
    }
}

#[test]
fn partial_layer_circuit_agrees() {
    let mut rng = Rng(35);
    for _ in 0..20 {
        let state = rng.state();
        let mut builder = CircuitBuilder::<F, D>::new(wide());
        let mut witness = PartitionWitness::new();
        let targets = inputs(&mut builder, &mut witness, &state);
        let result = F::mds_partial_layer_fast_circuit(&mut builder, &targets);
        assert_eq!(count_gates(&builder), 0);
        // Eleven additions, a zero, and for each lane its diagonal entry
        // and one row.
        assert_eq!(builder.num_gates(), 11 + D + 12 * (D + 1));
        for i in 0..12 {
            let row = 11 + D + i * (D + 1) + D;
            assert_eq!(result[i].0, [Target::wire(row, 0), Target::wire(row, 1)]);
            assert!(matches!(builder.gate_instances[row], Operation::MulAdd { .. }));
        }
        fill(&builder, &mut witness);
        assert_holds(&witness, &result, &F::mds_partial_layer_fast_field(&state));
    }
}

#[test]
fn constant_and_sbox_layer_circuits_agree() {
    let mut rng = Rng(36);
    for round in [0usize, 4, 25, 29] {
        let state = rng.state();
        let mut builder = CircuitBuilder::<F, D>::new(wide());
        let mut witness = PartitionWitness::new();
        let mut targets = inputs(&mut builder, &mut witness, &state);
        let mut expected = state;
        F::constant_layer_circuit(&mut builder, &mut targets, round);
        assert_eq!(builder.num_gates(), 12 * (D + 1));
        for i in 0..12 {
            let row = i * (D + 1) + D;
            assert_eq!(targets[i].0, [Target::wire(row, 0), Target::wire(row, 1)]);
        }
        F::constant_layer_field(&mut expected, round);
        F::sbox_layer_circuit(&mut builder, &mut targets);
        F::sbox_layer_field(&mut expected);
        fill(&builder, &mut witness);
        assert_holds(&witness, &targets, &expected);
    }
}

#[test]
fn sbox_circuit_is_seventh_power() {
    let mut builder = CircuitBuilder::<F, D>::new(wide());
    let mut witness = PartitionWitness::new();
    let x = builder.add_virtual_extension_target();
    witness.set_target(x.0[0], F::from_canonical_u64(3));
    witness.set_target(x.0[1], F::zero());
    let y = F::sbox_monomial_circuit(&mut builder, x);
    // The rows of the number 1, then x, x^2, x^3, x^4 and x^7.
    assert_eq!(builder.num_gates(), D + 5);
    assert!(matches!(builder.gate_instances[0], Operation::Constant { value: 1 }));
    assert!(matches!(builder.gate_instances[1], Operation::Constant { value: 0 }));
    let one = ExtensionTarget([Target::wire(0, 0), Target::wire(1, 0)]);
    let row = |r: usize| ExtensionTarget([Target::wire(r, 0), Target::wire(r, 1)]);
    let expected = [(one, x), (x, x), (row(2), row(3)), (row(3), row(3)), (row(4), row(5))];
    for (n, (a, b)) in expected.iter().enumerate() {
        match builder.gate_instances[D + n] {
            Operation::Mul { x, y } => {
                assert_eq!(x.0, a.0);
                assert_eq!(y.0, b.0);
            }
            _ => panic!("row {} is no product", D + n),
        }
    }
    assert_eq!(y.0, row(6).0);
    assert!(builder.copy_constraints.is_empty());
    fill(&builder, &mut witness);
    assert!(witness.get_extension_target(y).equals(&Extension::from_canonical_u64(2187)));
}

#[test]
fn powers_in_circuit() {
    let mut rng = Rng(37);
    for exponent in [0u64, 1, 2, 3, 7, 10, 64, 255] {
        let base = rng.extension();
        let mut builder = CircuitBuilder::<F, D>::new(wide());
        let mut witness = PartitionWitness::new();
        let x = builder.add_virtual_extension_target();
        witness.set_target(x.0[0], base.0[0]);
        witness.set_target(x.0[1], base.0[1]);
        let y = builder.exp_u64_extension(x, exponent);
        fill(&builder, &mut witness);
        let mut expected = Extension::<F, D>::one();
        for _ in 0..exponent {
            expected = expected.mul(base);
        }
        assert!(witness.get_extension_target(y).equals(&expected));
    }
}

#[test]
fn builder_arithmetic() {
    let mut rng = Rng(38);
    let a = rng.extension();
    let b = rng.extension();
    let c = rng.extension();
    let s = rng.field();
    let mut builder = CircuitBuilder::<F, D>::new(wide());
    let mut witness = PartitionWitness::new();
    let at = builder.add_virtual_extension_target();
    let bt = builder.add_virtual_extension_target();
    let ct = builder.add_virtual_extension_target();
    let st = builder.add_virtual_target();
    for (t, v) in [(at, a), (bt, b), (ct, c)] {
        witness.set_target(t.0[0], v.0[0]);
        witness.set_target(t.0[1], v.0[1]);
    }
    witness.set_target(st, s);
    assert_eq!(builder.virtual_target_index, 7);
    let sum = builder.add_extension(at, bt);
    let difference = builder.sub_extension(at, bt);
    let product = builder.mul_extension(at, bt);
    let square = builder.square_extension(at);
    let mul_add = builder.mul_add_extension(at, bt, ct);
    let scaled = builder.scalar_mul_add_extension(st, bt, ct);
    let many = builder.add_many_extension(&[at, bt, ct]);
    let none = builder.add_many_extension(&[]);
    let lifted = builder.convert_to_ext(st);
    let constant = builder.constant_extension(c);
    let five = builder.constant(F::from_canonical_u64(5));
    let copy = builder.add_virtual_extension_target();
    builder.connect_extension(sum, copy);
    fill(&builder, &mut witness);
    let value = |t| witness.get_extension_target(t);
    assert!(value(sum).equals(&a.add(b)));
    assert!(value(difference).equals(&a.sub(b)));
    assert!(value(product).equals(&a.mul(b)));
    assert!(value(square).equals(&a.mul(a)));
    assert!(value(mul_add).equals(&a.mul(b).add(c)));
    assert!(value(scaled).equals(&b.scalar_mul(s).add(c)));
    assert!(value(many).equals(&a.add(b).add(c)));
    assert!(value(none).equals(&Extension::zero()));
    assert!(value(lifted).equals(&Extension::from_basefield(s)));
    assert!(value(constant).equals(&c));
    assert!(value(copy).equals(&a.add(b)));
    assert_eq!(witness.get_target(five).to_canonical_u64(), 5);
}

#[test]
fn permute_swapped_is_poseidon_gate() {
    let mut rng = Rng(39);
    for swap in [0u64, 1] {
        let mut state = [F::zero(); 12];
        for x in state.iter_mut() {
            *x = rng.field();
        }
        let mut builder = CircuitBuilder::<F, D>::new(wide());
        let mut witness = PartitionWitness::new();
        let mut targets = [Target::wire(0, 0); 12];
        for i in 0..12 {
            targets[i] = builder.add_virtual_target();
            witness.set_target(targets[i], state[i]);
        }
        let swap_target = BoolTarget { target: builder.add_virtual_target() };
        witness.set_target(swap_target.target, F::from_canonical_u64(swap));
        let outputs = PoseidonHash::permute_swapped(targets, swap_target, &mut builder);
        assert_eq!(builder.num_gates(), 1);
        assert!(matches!(builder.gate_instances[0], Operation::Poseidon { .. }));
        assert_eq!(builder.copy_constraints.len(), 13);
        assert_eq!(builder.copy_constraints[0], (swap_target.target, Target::wire(0, 24)));
        for i in 0..12 {
            assert_eq!(builder.copy_constraints[1 + i], (targets[i], Target::wire(0, i)));
        }
        for i in 0..12 {
            assert_eq!(outputs[i], Target::Wire { row: 0, column: 12 + i });
        }
        fill(&builder, &mut witness);
        let mut expected = state;
        if swap == 1 {
            for i in 0..4 {
                expected.swap(i, i + 4);
            }
        }
        let expected = F::poseidon(expected);
        for i in 0..12 {
            assert_eq!(witness.get_target(outputs[i]), expected[i]);
        }
    }
}

#[test]
fn permute_swapped_refuses_other_switch_values() {
    let mut builder = CircuitBuilder::<F, D>::new(wide());
    let mut witness = PartitionWitness::new();
    let mut targets = [Target::wire(0, 0); 12];
    for i in 0..12 {
        targets[i] = builder.add_virtual_target();
        witness.set_target(targets[i], F::zero());
    }
    let swap_target = BoolTarget { target: builder.add_virtual_target() };
    witness.set_target(swap_target.target, F::from_canonical_u64(2));
    PoseidonHash::permute_swapped(targets, swap_target, &mut builder);
    assert!(!generate_partial_witness(&builder, &mut witness));
}

#[test]
fn filling_keeps_assigned_values() {
    let state = Rng(40).state();
    let mut builder = CircuitBuilder::<F, D>::new(narrow());
    let mut witness = PartitionWitness::new();
    let targets = inputs(&mut builder, &mut witness, &state);
    let result = F::mds_layer_circuit(&mut builder, &targets);
    fill(&builder, &mut witness);
    let before: Vec<_> = witness.target_values.clone();
    // Filling again changes no value, and the inputs are as they were set.
    assert!(generate_partial_witness(&builder, &mut witness));
    for (target, value) in before.iter() {
        assert_eq!(witness.get_target(*target), *value);
    }
    assert_holds(&witness, &targets, &state);
    assert_holds(&witness, &result, &F::mds_layer_field(&state));
}

#[test]
fn filling_stops_at_a_conflict() {
    let state = Rng(41).state();
    let mut builder = CircuitBuilder::<F, D>::new(wide());
    let mut witness = PartitionWitness::new();
    let targets = inputs(&mut builder, &mut witness, &state);
    let result = F::mds_layer_circuit(&mut builder, &targets);
    // An output wire that holds a wrong value already.
    let wrong = F::mds_layer_field(&state)[0].0[0].add(F::one());
    witness.set_target(result[0].0[0], wrong);
    assert!(!generate_partial_witness(&builder, &mut witness));
    assert_eq!(witness.get_target(result[0].0[0]), wrong);
}

#[test]
fn rows_wait_for_their_inputs() {
    let mut builder = CircuitBuilder::<F, D>::new(wide());
    let x = builder.add_virtual_extension_target();
    let y = builder.add_virtual_extension_target();
    let sum = builder.add_extension(x, y);
    assert_eq!(sum.0, [Target::wire(0, 0), Target::wire(0, 1)]);
    assert!(matches!(builder.gate_instances[0], Operation::Add { .. }));
    let mut witness = PartitionWitness::new();
    witness.set_target(x.0[0], F::one());
    witness.set_target(x.0[1], F::one());
    assert!(witness.try_get_extension_target(x).is_some());
    assert!(witness.try_get_extension_target(y).is_none());
    assert!(!generate_partial_witness(&builder, &mut witness));
    assert!(!witness.contains(sum.0[0]));
    witness.set_target(y.0[0], F::two());
    witness.set_target(y.0[1], F::zero());
    assert!(generate_partial_witness(&builder, &mut witness));
    assert_eq!(witness.get_target(sum.0[0]).to_canonical_u64(), 3);
    assert_eq!(witness.get_target(sum.0[1]).to_canonical_u64(), 1);
}

fn mds_layer_circuit_of_degree<const E: usize>(seed: u64) -> (usize, usize) {
    let mut rng = Rng(seed);
    let mut state = [Extension::<F, E>::zero(); 12];
    let mut builder = CircuitBuilder::<F, E>::new(CircuitConfig::standard_recursion_config());
    let mut witness = PartitionWitness::new();
    let mut targets = [ExtensionTarget([Target::wire(0, 0); E]); 12];
    for i in 0..12 {
        targets[i] = builder.add_virtual_extension_target();
        for k in 0..E {
            state[i].0[k] = rng.field();
            witness.set_target(targets[i].0[k], state[i].0[k]);
        }
    }
    let result = F::mds_layer_circuit(&mut builder, &targets);
    assert!(generate_partial_witness(&builder, &mut witness));
    let expected = F::mds_layer_field(&state);
    for i in 0..12 {
        assert!(witness.get_extension_target(result[i]).equals(&expected[i]));
    }
    let gates = builder
        .gate_instances
        .iter()
        .filter(|op| matches!(op, Operation::PoseidonMds))
        .count();
    (gates, builder.num_gates())
}

#[test]
fn mds_layer_circuit_in_other_degrees() {
    // 24 and 72 wires fit in the 80 routed wires, 96 wires do not.
    assert_eq!(mds_layer_circuit_of_degree::<1>(51), (1, 1));
    assert_eq!(mds_layer_circuit_of_degree::<3>(52), (1, 1));
    let (gates, rows) = mds_layer_circuit_of_degree::<4>(53);
    assert_eq!(gates, 0);
    assert!(rows > 12);
}

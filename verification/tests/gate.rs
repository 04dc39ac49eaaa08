use poseidon2::field::algebra::ExtensionAlgebra;
use poseidon2::field::extension::Extension;
use poseidon2::field::goldilocks_field::GoldilocksField;
use poseidon2::field::goldilocks_field::GoldilocksField as F;
use poseidon2::field::types::PrimeField64;
use poseidon2::gates::gate::Gate;
use poseidon2::gates::poseidon2_mds::{PoseidonMdsGate, PoseidonMdsGenerator};
use poseidon2::gates::util::StridedConstraintConsumer;
use poseidon2::hash::poseidon2::Poseidon;
use poseidon2::iop::ext_target::ExtensionTarget;
use poseidon2::iop::target::Target;
use poseidon2::iop::witness::{GeneratedValues, PartitionWitness};
use poseidon2::plonk::circuit_builder::{CircuitBuilder, Operation};
use poseidon2::plonk::circuit_data::CircuitConfig;
use poseidon2::plonk::vars::{EvaluationTargets, EvaluationVars, EvaluationVarsBase};

struct Rng(u64);

impl Rng {
    fn next_u64(&mut self) -> u64 {
        self.0 ^= self.0 << 13;
        self.0 ^= self.0 >> 7;
        self.0 ^= self.0 << 17;
        self.0
    }

    fn field(&mut self) -> GoldilocksField {
        GoldilocksField::from_noncanonical_u64(self.next_u64())
    }

    fn extension<const D: usize>(&mut self) -> Extension<GoldilocksField, D> {
        let mut coefficients = [GoldilocksField::zero(); D];
        for c in coefficients.iter_mut() {
            *c = self.field();
        }
        Extension(coefficients)
    }

    fn extension_row<const D: usize>(&mut self, n: usize) -> Vec<Extension<GoldilocksField, D>> {
        (0..n).map(|_| self.extension()).collect()
    }
}

fn eval<const D: usize>(
    gate: &PoseidonMdsGate<GoldilocksField, D>,
    wires: &[Extension<GoldilocksField, D>],
) -> Vec<Extension<GoldilocksField, D>> {
    gate.eval_unfiltered(EvaluationVars { local_constants: &[], local_wires: wires })
}

/// Fills the wires that a row determines, if the targets that it reads
/// have their values. `None` if a wire has another value already.
fn fill_row<const D: usize>(
    operation: &Operation<D>,
    row: usize,
    witness: &mut PartitionWitness<F>,
) -> Option<bool> {
    let output = ExtensionTarget::<D>::from_range(row, 0..D);
    let set = |witness: &mut PartitionWitness<F>, value: Extension<F, D>| -> Option<bool> {
        for k in 0..D {
            if !witness.try_set_target(output.0[k], value.0[k]) {
                return None;
            }
        }
        Some(true)
    };
    let get = |witness: &PartitionWitness<F>, target: &ExtensionTarget<D>| {
        witness.try_get_extension_target(*target)
    };
    match operation {
        Operation::Constant { value } => {
            witness
                .try_set_target(Target::wire(row, 0), F::from_noncanonical_u64(*value))
                .then_some(true)
        }
        Operation::Add { x, y } => match (get(witness, x), get(witness, y)) {
            (Some(x), Some(y)) => set(witness, x.add(y)),
            _ => Some(false),
        },
        Operation::Sub { x, y } => match (get(witness, x), get(witness, y)) {
            (Some(x), Some(y)) => set(witness, x.sub(y)),
            _ => Some(false),
        },
        Operation::Mul { x, y } => match (get(witness, x), get(witness, y)) {
            (Some(x), Some(y)) => set(witness, x.mul(y)),
            _ => Some(false),
        },
        Operation::MulAdd { x, y, z } => {
            match (get(witness, x), get(witness, y), get(witness, z)) {
                (Some(x), Some(y), Some(z)) => set(witness, x.mul(y).add(z)),
                _ => Some(false),
            }
        }
        Operation::PoseidonMds => {
            let gate = PoseidonMdsGate::<F, D>::new();
            let mut out_buffer = GeneratedValues::empty();
            for generator in gate.generators(row, &[]) {
                if !generator.run(witness, &mut out_buffer) {
                    return Some(false);
                }
            }
            for (target, value) in out_buffer.target_values {
                if !witness.try_set_target(target, value) {
                    return None;
                }
            }
            Some(true)
        }
        Operation::Poseidon { mds_matrix_diag } => {
            assert_eq!(*mds_matrix_diag, <F as Poseidon>::MDS_MATRIX_DIAG);
            let mut inputs = [F::zero(); 12];
            for i in 0..12 {
                match witness.try_get_target(Target::wire(row, i)) {
                    Some(value) => inputs[i] = value,
                    None => return Some(false),
                }
            }
            let swap = match witness.try_get_target(Target::wire(row, 24)) {
                Some(swap) => swap.to_canonical_u64(),
                None => return Some(false),
            };
            match swap {
                0 => {}
                1 => {
                    for i in 0..4 {
                        inputs.swap(i, i + 4);
                    }
                }
                _ => return None,
            }
            let outputs = F::poseidon(inputs);
            for i in 0..12 {
                if !witness.try_set_target(Target::wire(row, 12 + i), outputs[i]) {
                    return None;
                }
            }
            Some(true)
        }
    }
}

/// Fills the wires of a circuit from the values that the witness holds:
/// hands values over the connections and runs every row once, when the
/// targets that it reads have their values. Says whether every row was
/// filled and every connection holds.
fn generate_partial_witness<const D: usize>(
    builder: &CircuitBuilder<F, D>,
    witness: &mut PartitionWitness<F>,
) -> bool {
    let mut filled = vec![false; builder.gate_instances.len()];
    loop {
        let mut progress = false;
        for (x, y) in builder.copy_constraints.iter() {
            match (witness.try_get_target(*x), witness.try_get_target(*y)) {
                (Some(a), None) => {
                    witness.set_target(*y, a);
                    progress = true;
                }
                (None, Some(b)) => {
                    witness.set_target(*x, b);
                    progress = true;
                }
                (Some(a), Some(b)) if a != b => return false,
                _ => {}
            }
        }
        for (row, operation) in builder.gate_instances.iter().enumerate() {
            if !filled[row] {
                match fill_row(operation, row, witness) {
                    Some(true) => {
                        filled[row] = true;
                        progress = true;
                    }
                    Some(false) => {}
                    None => return false,
                }
            }
        }
        if !progress {
            break;
        }
    }
    filled.iter().all(|f| *f)
        && builder
            .copy_constraints
            .iter()
            .all(|(x, y)| {
                witness.contains(*x) && witness.try_get_target(*x) == witness.try_get_target(*y)
            })
}

/// The residuals of a gate are polynomials of degree at most `degree()`
/// in the wires: along any line through two rows they are polynomials of
/// that degree in the parameter of the line.
fn test_low_degree<const D: usize>(gate: PoseidonMdsGate<GoldilocksField, D>) {
    assert_eq!(gate.degree(), 1);
    let mut rng = Rng(21);
    for _ in 0..20 {
        let start = rng.extension_row::<D>(gate.num_wires());
        let step = rng.extension_row::<D>(gate.num_wires());
        let at = |t: u64| -> Vec<Extension<GoldilocksField, D>> {
            let t = GoldilocksField::from_noncanonical_u64(t);
            let row: Vec<_> =
                start.iter().zip(step.iter()).map(|(a, b)| a.add(b.scalar_mul(t))).collect();
            eval(&gate, &row)
        };
        let r0 = at(0);
        let r1 = at(1);
        for t in [2u64, 3, 1000, rng.next_u64()] {
            let rt = at(t);
            let t = GoldilocksField::from_noncanonical_u64(t);
            for n in 0..gate.num_constraints() {
                // A polynomial of degree 1 through r0 and r1.
                let expected = r0[n].add(r1[n].sub(r0[n]).scalar_mul(t));
                assert!(rt[n].equals(&expected));
            }
        }
        // The degree is not 0: the residuals change along the line.
        assert!((0..gate.num_constraints()).any(|n| !r0[n].equals(&r1[n])));
    }
}

/// The three ways to evaluate a gate agree: on a row of field elements,
/// on the same row as elements of the extension, and as a circuit.
fn test_eval_fns<const D: usize>(gate: PoseidonMdsGate<GoldilocksField, D>) -> Result<(), String> {
    let mut rng = Rng(22);

    // On field elements and on their embeddings.
    for _ in 0..50 {
        let wires_base: Vec<GoldilocksField> =
            (0..gate.num_wires()).map(|_| rng.field()).collect();
        let mut consumer = StridedConstraintConsumer::new();
        gate.eval_unfiltered_base_one(
            EvaluationVarsBase { local_constants: &[], local_wires: &wires_base },
            &mut consumer,
        );
        if consumer.terms.len() != gate.num_constraints() {
            return Err(format!("{} residuals on field elements", consumer.terms.len()));
        }
        // The same wires as elements of the extension give the same
        // residuals, embedded.
        let wires_ext: Vec<Extension<GoldilocksField, D>> =
            wires_base.iter().map(|w| Extension::from_basefield(*w)).collect();
        let evals = eval(&gate, &wires_ext);
        if evals.len() != gate.num_constraints() {
            return Err(format!("{} residuals on the extension", evals.len()));
        }
        for n in 0..gate.num_constraints() {
            assert!(evals[n].equals(&Extension::from_basefield(consumer.terms[n])));
        }
        // Each residual is the output wire minus the mixed input wires.
        for i in 0..12 {
            for a in 0..D {
                let mut lane = [GoldilocksField::zero(); 12];
                for j in 0..12 {
                    lane[j] = wires_base[j * D + a];
                }
                let mixed = GoldilocksField::mds_layer(&lane);
                let expected = wires_base[(12 + i) * D + a].sub(mixed[i]);
                assert_eq!(consumer.terms[i * D + a], expected);
            }
        }
    }

    // As a circuit.
    for _ in 0..10 {
        let wires = rng.extension_row::<D>(gate.num_wires());
        let mut builder =
            CircuitBuilder::<GoldilocksField, D>::new(CircuitConfig::standard_recursion_config());
        let wires_t: Vec<ExtensionTarget<D>> =
            (0..gate.num_wires()).map(|_| builder.add_virtual_extension_target()).collect();
        let mut witness = PartitionWitness::new();
        for (t, w) in wires_t.iter().zip(wires.iter()) {
            for k in 0..D {
                witness.set_target(t.0[k], w.0[k]);
            }
        }
        let evals_t = gate.eval_unfiltered_circuit(
            &mut builder,
            EvaluationTargets { local_constants: &[], local_wires: &wires_t },
        );
        if evals_t.len() != gate.num_constraints() {
            return Err(format!("{} residuals in the circuit", evals_t.len()));
        }
        if !generate_partial_witness(&builder, &mut witness) {
            return Err("the circuit could not be filled".to_string());
        }
        let evals = eval(&gate, &wires);
        for n in 0..gate.num_constraints() {
            assert!(witness.get_extension_target(evals_t[n]).equals(&evals[n]));
        }
    }
    Ok(())
}

#[test]
fn low_degree() {
    const D: usize = 2;
    type F = GoldilocksField;
    let gate = PoseidonMdsGate::<F, D>::new();
    test_low_degree(gate)
}

#[test]
fn eval_fns() -> Result<(), String> {
    const D: usize = 2;
    type F = GoldilocksField;
    let gate = PoseidonMdsGate::<F, D>::new();
    test_eval_fns::<D>(gate)
}

#[test]
fn wire_layout() {
    type Gate = PoseidonMdsGate<GoldilocksField, 2>;
    assert_eq!(Gate::wires_input(0), 0..2);
    assert_eq!(Gate::wires_input(3), 6..8);
    assert_eq!(Gate::wires_input(11), 22..24);
    assert_eq!(Gate::wires_output(0), 24..26);
    assert_eq!(Gate::wires_output(11), 46..48);
    let gate = Gate::new();
    assert_eq!(gate.num_wires(), 48);
    assert_eq!(gate.num_constraints(), 24);
    assert_eq!(gate.num_constants(), 0);
    assert_eq!(gate.degree(), 1);
    type Gate1 = PoseidonMdsGate<GoldilocksField, 1>;
    assert_eq!(Gate1::wires_input(5), 5..6);
    assert_eq!(Gate1::wires_output(5), 17..18);
    assert_eq!(Gate1::new().num_wires(), 24);
    type Gate4 = PoseidonMdsGate<GoldilocksField, 4>;
    assert_eq!(Gate4::wires_output(2), 56..60);
    assert_eq!(Gate4::new().num_constraints(), 48);
}

#[test]
fn gate_id_names_gate_and_width() {
    let id = PoseidonMdsGate::<GoldilocksField, 2>::new().id();
    assert!(id.starts_with("PoseidonMdsGate("));
    assert!(id.contains("GoldilocksField"));
    assert!(id.ends_with("<D=2><WIDTH=12>"));
    assert_eq!(id, PoseidonMdsGate::<GoldilocksField, 2>::new().id());
    // Gates of another degree have another name.
    let other = PoseidonMdsGate::<GoldilocksField, 4>::new().id();
    assert!(other.ends_with("<D=4><WIDTH=12>"));
    assert_ne!(id, other);
    // The degree is written in decimal digits, without padding.
    assert!(PoseidonMdsGate::<GoldilocksField, 1>::new().id().ends_with(">)<D=1><WIDTH=12>"));
    assert!(PoseidonMdsGate::<GoldilocksField, 12>::new().id().ends_with(">)<D=12><WIDTH=12>"));
    assert!(PoseidonMdsGate::<GoldilocksField, 100>::new().id().ends_with(">)<D=100><WIDTH=12>"));
}

#[test]
fn residuals_vanish_on_mixed_outputs() {
    const D: usize = 2;
    let gate = PoseidonMdsGate::<GoldilocksField, D>::new();
    let mut rng = Rng(23);
    for _ in 0..20 {
        let mut inputs = [ExtensionAlgebra::<GoldilocksField, D>::zero(); 12];
        let mut wires = Vec::new();
        for lane in inputs.iter_mut() {
            *lane = ExtensionAlgebra([rng.extension(), rng.extension()]);
            wires.extend_from_slice(&lane.0);
        }
        let outputs = PoseidonMdsGate::<GoldilocksField, D>::mds_layer_algebra(&inputs);
        for lane in outputs.iter() {
            wires.extend_from_slice(&lane.0);
        }
        let zero = Extension::<GoldilocksField, D>::zero();
        assert!(eval(&gate, &wires).iter().all(|r| r.equals(&zero)));
        // One changed output wire leaves one residual.
        let n = (rng.next_u64() % 24) as usize;
        wires[24 + n] = wires[24 + n].add(Extension::one());
        let residuals = eval(&gate, &wires);
        for m in 0..24 {
            let expected = if m == n { Extension::one() } else { zero };
            assert!(residuals[m].equals(&expected));
        }
    }
}

#[test]
fn algebra_layer_works_on_each_component() {
    const D: usize = 2;
    let mut rng = Rng(24);
    for _ in 0..50 {
        let mut state = [ExtensionAlgebra::<GoldilocksField, D>::zero(); 12];
        let mut first = [Extension::<GoldilocksField, D>::zero(); 12];
        let mut second = first;
        for i in 0..12 {
            first[i] = rng.extension();
            second[i] = rng.extension();
            state[i] = ExtensionAlgebra([first[i], second[i]]);
        }
        let out = PoseidonMdsGate::<GoldilocksField, D>::mds_layer_algebra(&state);
        let out_first = GoldilocksField::mds_layer_field(&first);
        let out_second = GoldilocksField::mds_layer_field(&second);
        for i in 0..12 {
            assert!(out[i].0[0].equals(&out_first[i]));
            assert!(out[i].0[1].equals(&out_second[i]));
        }
    }
}

#[test]
fn base_residuals_are_appended() {
    const D: usize = 1;
    let gate = PoseidonMdsGate::<GoldilocksField, D>::new();
    let mut rng = Rng(25);
    let mut lane = [GoldilocksField::zero(); 12];
    for x in lane.iter_mut() {
        *x = rng.field();
    }
    let mut wires = lane.to_vec();
    wires.extend_from_slice(&GoldilocksField::mds_layer(&lane));
    wires[12 + 7] = wires[12 + 7].add(GoldilocksField::from_canonical_u64(5));
    let mut consumer = StridedConstraintConsumer::new();
    consumer.one(GoldilocksField::from_canonical_u64(99));
    gate.eval_unfiltered_base_one(
        EvaluationVarsBase { local_constants: &[], local_wires: &wires },
        &mut consumer,
    );
    assert_eq!(consumer.terms.len(), 13);
    assert_eq!(consumer.terms[0].to_canonical_u64(), 99);
    for i in 0..12 {
        assert_eq!(consumer.terms[1 + i].to_canonical_u64(), if i == 7 { 5 } else { 0 });
    }
}

#[test]
fn generator_reads_inputs_and_fills_outputs() {
    const D: usize = 2;
    let gate = PoseidonMdsGate::<GoldilocksField, D>::new();
    let generators = gate.generators(3, &[]);
    assert_eq!(generators.len(), 1);
    let generator = generators[0];
    assert_eq!(generator.row, 3);
    let dependencies = generator.dependencies::<GoldilocksField>();
    assert_eq!(dependencies.len(), 24);
    for (n, t) in dependencies.iter().enumerate() {
        assert_eq!(*t, Target::Wire { row: 3, column: n });
    }

    let mut rng = Rng(26);
    let mut witness = PartitionWitness::new();
    let mut inputs = [Extension::<GoldilocksField, D>::zero(); 12];
    for i in 0..12 {
        inputs[i] = rng.extension();
        // Not ready before the last input has its value.
        let mut out_buffer = GeneratedValues::empty();
        assert!(!generator.run(&witness, &mut out_buffer));
        assert!(out_buffer.target_values.is_empty());
        for k in 0..D {
            witness.set_target(Target::wire(3, i * D + k), inputs[i].0[k]);
        }
    }
    let expected = GoldilocksField::mds_layer_field(&inputs);
    let mut out_buffer = GeneratedValues::empty();
    assert!(generator.run(&witness, &mut out_buffer));
    assert_eq!(out_buffer.target_values.len(), 24);
    for i in 0..12 {
        for k in 0..D {
            let (target, value) = out_buffer.target_values[i * D + k];
            assert_eq!(target, Target::Wire { row: 3, column: 24 + i * D + k });
            assert_eq!(value, expected[i].0[k]);
        }
    }
    // With the same inputs it writes the same outputs again.
    let mut again = GeneratedValues::empty();
    generator.run_once(&witness, &mut again);
    assert_eq!(again.target_values, out_buffer.target_values);
    // What it reads is its inputs alone: other wires do not matter.
    witness.set_target(Target::wire(3, 24), GoldilocksField::from_canonical_u64(1));
    witness.set_target(Target::wire(4, 0), GoldilocksField::from_canonical_u64(2));
    let mut third = GeneratedValues::empty();
    PoseidonMdsGenerator::<D> { row: 3 }.run_once(&witness, &mut third);
    assert_eq!(third.target_values, out_buffer.target_values);
}

#[test]
fn witness_keeps_values() {
    let mut witness = PartitionWitness::<GoldilocksField>::new();
    let t = Target::VirtualTarget { index: 7 };
    assert!(!witness.contains(t));
    assert!(witness.try_get_target(t).is_none());
    assert!(witness.try_set_target(t, GoldilocksField::from_canonical_u64(5)));
    assert!(witness.contains(t));
    assert_eq!(witness.get_target(t).to_canonical_u64(), 5);
    // The same value again is accepted, another one is not.
    assert!(witness.try_set_target(t, GoldilocksField::from_canonical_u64(5)));
    assert!(!witness.try_set_target(t, GoldilocksField::from_canonical_u64(6)));
    assert_eq!(witness.get_target(t).to_canonical_u64(), 5);
    witness.set_target(t, GoldilocksField::from_canonical_u64(5));
    assert_eq!(witness.get_target(t).to_canonical_u64(), 5);
    let u = Target::wire(0, 0);
    assert!(!witness.contains_all(&[t, u]));
    witness.set_target(u, GoldilocksField::from_canonical_u64(9));
    assert!(witness.contains_all(&[t, u]));
    let et = ExtensionTarget([t, u]);
    let value = witness.get_extension_target(et).to_basefield_array();
    assert_eq!(value[0].to_canonical_u64(), 5);
    assert_eq!(value[1].to_canonical_u64(), 9);
}

fn residual_counts<G: Gate<GoldilocksField, 2>>(gate: &G, seed: u64) {
    let mut rng = Rng(seed);
    let wires = rng.extension_row::<2>(gate.num_wires());
    let evals =
        gate.eval_unfiltered(EvaluationVars { local_constants: &[], local_wires: &wires });
    assert_eq!(evals.len(), gate.num_constraints());
    let wires_base: Vec<GoldilocksField> = (0..gate.num_wires()).map(|_| rng.field()).collect();
    let mut consumer = StridedConstraintConsumer::new();
    gate.eval_unfiltered_base_one(
        EvaluationVarsBase { local_constants: &[], local_wires: &wires_base },
        &mut consumer,
    );
    assert_eq!(consumer.terms.len(), gate.num_constraints());
    let mut builder =
        CircuitBuilder::<GoldilocksField, 2>::new(CircuitConfig::standard_recursion_config());
    let wires_t: Vec<ExtensionTarget<2>> =
        (0..gate.num_wires()).map(|_| builder.add_virtual_extension_target()).collect();
    let evals_t = gate.eval_unfiltered_circuit(
        &mut builder,
        EvaluationTargets { local_constants: &[], local_wires: &wires_t },
    );
    assert_eq!(evals_t.len(), gate.num_constraints());
    assert!(gate.degree() >= 1);
    assert!(!gate.id().is_empty());
}

#[test]
fn every_evaluation_gives_num_constraints_residuals() {
    let gate = PoseidonMdsGate::<GoldilocksField, 2>::new();
    for seed in 1..20 {
        residual_counts(&gate, seed);
    }
}

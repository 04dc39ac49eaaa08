use poseidon2::field::extension::Extension;
use poseidon2::field::goldilocks_field::GoldilocksField as F;
use poseidon2::field::types::{PrimeField64, ORDER};
use poseidon2::hash::hash_types::HashOut;
use poseidon2::hash::poseidon2::{
    Poseidon, PoseidonHash, PoseidonPermutation, HALF_N_FULL_ROUNDS, N_FULL_ROUNDS_TOTAL,
    N_PARTIAL_ROUNDS, N_ROUNDS, N_ROUND_CONSTANTS, SPONGE_WIDTH,
};
use poseidon2::hash::round_constants::ALL_ROUND_CONSTANTS;

struct Rng(u64);

impl Rng {
    fn next_u64(&mut self) -> u64 {
        self.0 ^= self.0 << 13;
        self.0 ^= self.0 >> 7;
        self.0 ^= self.0 << 17;
        self.0
    }

    fn field(&mut self) -> F {
        F::from_noncanonical_u64(self.next_u64())
    }

    fn state(&mut self) -> [F; 12] {
        let mut state = [F::zero(); 12];
        for lane in state.iter_mut() {
            *lane = self.field();
        }
        state
    }
}

fn canonical(state: &[F; 12]) -> [u64; 12] {
    let mut out = [0u64; 12];
    for i in 0..12 {
        out[i] = state[i].to_canonical_u64();
    }
    out
}

fn embed<const D: usize>(state: &[F; 12]) -> [Extension<F, D>; 12] {
    let mut out = [Extension::<F, D>::zero(); 12];
    for i in 0..12 {
        out[i] = Extension::from_basefield(state[i]);
    }
    out
}

fn assert_embedded<const D: usize>(ext: &[Extension<F, D>; 12], base: &[F; 12]) {
    for i in 0..12 {
        assert!(ext[i].equals(&Extension::from_basefield(base[i])));
    }
}

fn mulmod(a: u64, b: u64) -> u64 {
    ((a as u128 * b as u128) % ORDER as u128) as u64
}

fn addmod(a: u64, b: u64) -> u64 {
    ((a as u128 + b as u128) % ORDER as u128) as u64
}

const M4: [[u64; 4]; 4] = [[5, 7, 1, 3], [4, 6, 1, 1], [1, 3, 5, 7], [1, 1, 4, 6]];

#[test]
fn field_arithmetic_is_modular() {
    let a = F::from_canonical_u64(ORDER - 1);
    let b = F::from_canonical_u64(2);
    assert_eq!(a.add(b).to_canonical_u64(), 1);
    assert_eq!(b.sub(a).to_canonical_u64(), 3);
    assert_eq!(a.mul(a).to_canonical_u64(), 1);
    assert_eq!(a.square().to_canonical_u64(), 1);
    assert_eq!(a.multiply_accumulate(a, b).to_canonical_u64(), ORDER - 3);
    assert_eq!(a.add_canonical_u64(ORDER - 1).to_canonical_u64(), ORDER - 2);
    assert_eq!(F::neg_one().to_canonical_u64(), 0xFFFF_FFFF_0000_0000);
    assert_eq!(F::from_noncanonical_u64(u64::MAX).to_canonical_u64(), 0xFFFF_FFFE);
    // 2^64 = 2^32 - 1 modulo the order, so 3 * 2^64 + 5 = 3 * 2^32 + 2
    assert_eq!(F::from_noncanonical_u96((5, 3)).to_canonical_u64(), 3 * (1u64 << 32) + 2);
    assert_eq!(F::from_canonical_u8(255).to_canonical_u64(), 255);
    assert_eq!(F(ORDER), F::zero());
    assert_ne!(F(1), F::zero());
}

#[test]
fn extension_multiplication_reduces_by_seven() {
    // (1 + 2X)(3 + 4X) = 3 + 10X + 8X^2 = 59 + 10X
    let a = Extension::<F, 2>([F::from_canonical_u64(1), F::from_canonical_u64(2)]);
    let b = Extension::<F, 2>([F::from_canonical_u64(3), F::from_canonical_u64(4)]);
    let product = a.mul(b).to_basefield_array();
    assert_eq!(product[0].to_canonical_u64(), 59);
    assert_eq!(product[1].to_canonical_u64(), 10);
    // X * X^3 = X^4 = 7 in degree 4
    let x = Extension::<F, 4>([F::zero(), F::one(), F::zero(), F::zero()]);
    let x3 = x.mul(x).mul(x);
    assert!(x.mul(x3).equals(&Extension::from_canonical_u8(7)));
    let sum = a.add(b).to_basefield_array();
    assert_eq!(sum[0].to_canonical_u64(), 4);
    assert_eq!(sum[1].to_canonical_u64(), 6);
    let difference = a.sub(b).to_basefield_array();
    assert_eq!(difference[0].to_canonical_u64(), ORDER - 2);
    assert!(a.multiply_accumulate(a, b).equals(&a.add(a.mul(b))));
    assert!(a.scalar_mul(F::two()).equals(&a.add(a)));
}

#[test]
fn round_constants_table() {
    assert_eq!(N_ROUNDS, 30);
    assert_eq!(2 * HALF_N_FULL_ROUNDS + N_PARTIAL_ROUNDS, N_ROUNDS);
    assert_eq!(N_FULL_ROUNDS_TOTAL, 8);
    assert_eq!(SPONGE_WIDTH, 12);
    assert_eq!(N_ROUND_CONSTANTS, 360);
    assert_eq!(ALL_ROUND_CONSTANTS.len(), N_ROUND_CONSTANTS);
    for i in 0..N_PARTIAL_ROUNDS {
        let round = HALF_N_FULL_ROUNDS + i;
        assert_eq!(<F as Poseidon>::FAST_PARTIAL_ROUND_CONSTANTS[i], ALL_ROUND_CONSTANTS[12 * round]);
        for lane in 1..12 {
            assert_eq!(ALL_ROUND_CONSTANTS[12 * round + lane], 0);
        }
    }
    for c in ALL_ROUND_CONSTANTS.iter() {
        assert!(*c < ORDER);
    }
}

#[test]
fn round_counter_advances() {
    let mut rng = Rng(11);
    let mut state = rng.state();
    let mut round_ctr = 0;
    F::full_rounds(&mut state, &mut round_ctr);
    assert_eq!(round_ctr, HALF_N_FULL_ROUNDS);
    F::partial_rounds(&mut state, &mut round_ctr);
    assert_eq!(round_ctr, HALF_N_FULL_ROUNDS + N_PARTIAL_ROUNDS);
    F::full_rounds(&mut state, &mut round_ctr);
    assert_eq!(round_ctr, N_ROUNDS);
}

#[test]
fn permutation_is_its_phases() {
    let mut rng = Rng(12);
    for _ in 0..20 {
        let input = rng.state();
        let mut state = F::mds_layer(&input);
        let mut round_ctr = 0;
        F::full_rounds(&mut state, &mut round_ctr);
        F::partial_rounds(&mut state, &mut round_ctr);
        F::full_rounds(&mut state, &mut round_ctr);
        assert_eq!(canonical(&state), canonical(&F::poseidon(input)));
        assert_eq!(canonical(&state), canonical(&PoseidonPermutation::permute(input)));
    }
}

#[test]
fn full_round_is_its_layers() {
    let mut rng = Rng(13);
    let input = rng.state();
    for round in [0usize, 3, 26, 29] {
        let mut expected = input;
        F::constant_layer(&mut expected, round);
        for i in 0..12 {
            let c = ALL_ROUND_CONSTANTS[12 * round + i];
            assert_eq!(expected[i].to_canonical_u64(), addmod(input[i].to_canonical_u64(), c));
        }
        F::sbox_layer(&mut expected);
        for i in 0..12 {
            let x = addmod(input[i].to_canonical_u64(), ALL_ROUND_CONSTANTS[12 * round + i]);
            let x2 = mulmod(x, x);
            let x4 = mulmod(x2, x2);
            let x7 = mulmod(mulmod(x4, x2), x);
            assert_eq!(expected[i].to_canonical_u64(), x7);
        }
    }
}

#[test]
fn sbox_is_seventh_power() {
    let x = Extension::<F, 1>([F::from_canonical_u64(3)]);
    assert_eq!(F::sbox_monomial(x).to_basefield_array()[0].to_canonical_u64(), 2187);
    let mut rng = Rng(14);
    for _ in 0..50 {
        let x = Extension::<F, 2>([rng.field(), rng.field()]);
        let mut power = x;
        for _ in 0..6 {
            power = power.mul(x);
        }
        assert!(F::sbox_monomial(x).equals(&power));
    }
}

#[test]
fn mds_layer_is_dense_matrix() {
    let mut rng = Rng(15);
    for _ in 0..1000 {
        let state = rng.state();
        let fast = F::mds_layer(&state);
        for i in 0..12 {
            let mut acc = 0u64;
            for j in 0..12 {
                let mut entry = M4[i % 4][j % 4];
                if i / 4 == j / 4 {
                    entry *= 2;
                }
                acc = addmod(acc, mulmod(entry, state[j].to_canonical_u64()));
            }
            assert_eq!(fast[i].to_canonical_u64(), acc);
        }
    }
}

#[test]
fn mds_layer_on_unit_vector() {
    let mut state = [F::zero(); 12];
    state[1] = F::one();
    let out = canonical(&F::mds_layer(&state));
    assert_eq!(out, [14, 12, 6, 2, 7, 6, 3, 1, 7, 6, 3, 1]);
}

#[test]
fn partial_layer_is_dense_matrix() {
    let mut rng = Rng(16);
    let diag = <F as Poseidon>::MDS_MATRIX_DIAG;
    for _ in 0..1000 {
        let state = rng.state();
        let fast = F::mds_partial_layer_fast(&state);
        for i in 0..12 {
            let mut acc = 0u64;
            for j in 0..12 {
                let entry = if i == j { addmod(1, diag[i]) } else { 1 };
                acc = addmod(acc, mulmod(entry, state[j].to_canonical_u64()));
            }
            assert_eq!(fast[i].to_canonical_u64(), acc);
        }
    }
}

#[test]
fn partial_layer_on_ones() {
    let state = [F::one(); 12];
    let out = F::mds_partial_layer_fast(&state);
    let diag = <F as Poseidon>::MDS_MATRIX_DIAG;
    for i in 0..12 {
        assert_eq!(out[i].to_canonical_u64(), addmod(12, diag[i]));
    }
    assert_eq!(diag[0], 0xcf6f77ac16722af9);
    assert_eq!(out[0].to_canonical_u64(), 0xcf6f77ac16722b05);
}

#[test]
fn extension_layers_agree_with_field_layers() {
    let mut rng = Rng(17);
    for _ in 0..1000 {
        let state = rng.state();
        assert_embedded::<2>(&F::mds_layer_field(&embed::<2>(&state)), &F::mds_layer(&state));
        assert_embedded::<2>(
            &F::mds_partial_layer_fast_field(&embed::<2>(&state)),
            &F::mds_partial_layer_fast(&state),
        );
    }
    for _ in 0..20 {
        let state = rng.state();
        assert_embedded::<4>(&F::mds_layer_field(&embed::<4>(&state)), &F::mds_layer(&state));
        for round in [0usize, 5, 29] {
            let mut base = state;
            let mut ext = embed::<2>(&state);
            F::constant_layer(&mut base, round);
            F::constant_layer_field(&mut ext, round);
            assert_embedded(&ext, &base);
            F::sbox_layer(&mut base);
            F::sbox_layer_field(&mut ext);
            assert_embedded(&ext, &base);
        }
    }
}

#[test]
fn extension_layer_works_on_each_coefficient() {
    let mut rng = Rng(18);
    for _ in 0..100 {
        let low = rng.state();
        let high = rng.state();
        let mut state = [Extension::<F, 2>::zero(); 12];
        for i in 0..12 {
            state[i] = Extension([low[i], high[i]]);
        }
        let out = F::mds_layer_field(&state);
        let out_low = F::mds_layer(&low);
        let out_high = F::mds_layer(&high);
        let partial = F::mds_partial_layer_fast_field(&state);
        let partial_low = F::mds_partial_layer_fast(&low);
        let partial_high = F::mds_partial_layer_fast(&high);
        for i in 0..12 {
            assert!(out[i].equals(&Extension([out_low[i], out_high[i]])));
            assert!(partial[i].equals(&Extension([partial_low[i], partial_high[i]])));
        }
    }
}

#[test]
fn hashing_on_the_sponge() {
    let canon = |h: HashOut<F>| -> [u64; 4] {
        [
            h.elements[0].to_canonical_u64(),
            h.elements[1].to_canonical_u64(),
            h.elements[2].to_canonical_u64(),
            h.elements[3].to_canonical_u64(),
        ]
    };
    let of_zero_state =
        [0x40e4c449028440b0, 0x8d5233d4e1ff2fa3, 0xd8809d1ad0ac1e59, 0x5b9f29d2bf3a7634];
    assert_eq!(canon(PoseidonHash::hash_no_pad::<F>(&[])), [0, 0, 0, 0]);
    assert_eq!(canon(PoseidonHash::hash_no_pad(&[F::zero(); 8])), of_zero_state);
    assert_eq!(canon(PoseidonHash::hash_no_pad(&[F::zero()])), of_zero_state);
    assert_eq!(canon(PoseidonHash::two_to_one(HashOut::<F>::zero(), HashOut::zero())), of_zero_state);
    assert_eq!(canon(HashOut::<F>::zero()), [0, 0, 0, 0]);
    assert_eq!(PoseidonHash::HASH_SIZE, 32);

    let mut rng = Rng(19);
    let inputs: Vec<F> = (0..19).map(|_| rng.field()).collect();
    // Three chunks: 8, 8 and 3 elements, each over the first lanes.
    let mut state = [F::zero(); 12];
    state[..8].copy_from_slice(&inputs[..8]);
    state = F::poseidon(state);
    state[..8].copy_from_slice(&inputs[8..16]);
    state = F::poseidon(state);
    state[..3].copy_from_slice(&inputs[16..]);
    state = F::poseidon(state);
    let hash = PoseidonHash::hash_no_pad(&inputs);
    assert_eq!(canon(hash), [
        state[0].to_canonical_u64(),
        state[1].to_canonical_u64(),
        state[2].to_canonical_u64(),
        state[3].to_canonical_u64()
    ]);

    let left = PoseidonHash::hash_no_pad(&inputs[..5]);
    let right = PoseidonHash::hash_no_pad(&inputs[5..]);
    let mut state = [F::zero(); 12];
    state[..4].copy_from_slice(&left.elements);
    state[4..8].copy_from_slice(&right.elements);
    let state = F::poseidon(state);
    assert_eq!(canon(PoseidonHash::two_to_one(left, right)), [
        state[0].to_canonical_u64(),
        state[1].to_canonical_u64(),
        state[2].to_canonical_u64(),
        state[3].to_canonical_u64()
    ]);
}

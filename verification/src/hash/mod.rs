//! The permutation and the hash built on it.

pub mod embedding;
pub mod hash_types;
pub mod hashing;
pub mod mds_matrix;
pub mod partial_matrix;
pub mod poseidon2;
pub mod poseidon2_circuit;
pub mod poseidon2_goldilocks;
pub mod poseidon2_spec;
pub mod round_constants;

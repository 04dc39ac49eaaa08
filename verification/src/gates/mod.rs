//! The gates of the permutation.

pub mod gate;
pub mod mds_constraints;
pub mod mds_gate_circuit;
pub mod poseidon2;
pub mod poseidon2_mds;
pub mod util;

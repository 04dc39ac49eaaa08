//! The Poseidon2 permutation over the Goldilocks field, in three forms:
//! on field elements, on elements of an extension of the field, and as a
//! circuit of wires and gates, with the MDS gate that holds one step of
//! linear mixing and the generator that fills its output wires.

pub mod field;
pub mod gates;
pub mod hash;
pub mod iop;
pub mod plonk;

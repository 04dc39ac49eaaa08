//! Wires, their values, and the generators that fill them.

pub mod ext_target;
pub mod target;
pub mod witness;

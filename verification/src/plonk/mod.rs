//! The circuit: its configuration, its builder, and the rows that a gate
//! is evaluated on.

pub mod circuit_builder;
pub mod circuit_data;
pub mod vars;

//! The prime field of 64-bit order that the permutation works over.

pub mod algebra;
pub mod extension;
pub mod goldilocks_field;
pub mod types;

//! The configuration of a circuit.

use vstd::prelude::*;

verus! {

/// How many wires a row has, and how many of them can be connected to
/// other rows.
#[derive(Copy, Clone, Debug, PartialEq, Eq, Structural)]
pub struct CircuitConfig {
    pub num_wires: usize,
    pub num_routed_wires: usize,
}

impl CircuitConfig {
    /// The configuration with 135 wires, 80 of them routed.
    pub fn standard_recursion_config() -> (config: Self)
        ensures
            config.num_wires == 135,
            config.num_routed_wires == 80,
    {
        CircuitConfig { num_wires: 135, num_routed_wires: 80 }
    }
}

} // verus!

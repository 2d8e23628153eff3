//! Negotiated power profiles.

use vstd::prelude::*;

verus! {

/// An electrical operating point: a voltage and the current available at it.
#[derive(Debug, Clone, Copy, PartialEq, Eq, Structural)]
pub struct PowerCapability {
    /// Voltage in millivolts.
    pub voltage_mv: u16,
    /// Current in milliamperes.
    pub current_ma: u16,
}

/// The profile a port draws while it consumes power.
#[derive(Debug, Clone, Copy, PartialEq, Eq, Structural)]
pub struct ConsumerPowerCapability {
    /// Operating point of the contract.
    pub capability: PowerCapability,
}

/// The profile a port offers while it provides power.
#[derive(Debug, Clone, Copy, PartialEq, Eq, Structural)]
pub struct ProviderPowerCapability {
    /// Operating point of the contract.
    pub capability: PowerCapability,
}

} // verus!

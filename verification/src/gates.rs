//! Boolean function units: the two-input gates from which every adder and the
//! ALU are composed. Each unit evaluates the exact truth table of its kind.

use vstd::prelude::*;

verus! {

/// The boolean functions a gate can compute.
#[derive(Debug, Clone, Copy, PartialEq, Eq, Structural)]
pub enum GateType {
    AND,
    OR,
    XOR,
}

impl GateType {
    /// The truth table of this kind of gate.
    pub open spec fn apply(self, a: bool, b: bool) -> bool {
        match self {
            GateType::AND => a && b,
            GateType::OR => a || b,
            GateType::XOR => a != b,
        }
    }
}

/// A two-input gate of a fixed kind.
#[derive(Debug)]
pub struct LogicGate {
    gate_type: GateType,
}

impl LogicGate {
    /// The kind of this gate.
    pub closed spec fn kind(&self) -> GateType {
        self.gate_type
    }

    /// Creates a gate of the given kind.
    pub fn new(gate_type: GateType) -> (gate: Self)
        ensures
            gate.kind() == gate_type,
    {
        LogicGate { gate_type }
    }

    /// Computes the output for two input bits.
    pub fn compute(&self, a: bool, b: bool) -> (out: bool)
        ensures
            out == self.kind().apply(a, b),
    {
        match self.gate_type {
            GateType::AND => a && b,
            GateType::OR => a || b,
            GateType::XOR => a != b,
        }
    }

    /// The kind of this gate.
    pub fn gate_type(&self) -> (kind: &GateType)
        ensures
            *kind == self.kind(),
    {
        &self.gate_type
    }
}

} // verus!

//! The half adder: one XOR gate for the sum of two bits and one AND gate for
//! their carry.

use vstd::prelude::*;
use crate::gates::{GateType, LogicGate};

verus! {

/// What a half adder puts out.
#[derive(Debug, Clone, Copy, PartialEq, Eq, Structural)]
pub struct HalfAdderResult {
    pub sum: bool,
    pub carry: bool,
}

/// The sum and carry of two bits.
pub open spec fn half_add(a: bool, b: bool) -> HalfAdderResult {
    HalfAdderResult { sum: a != b, carry: a && b }
}

/// How a half adder is wired: the kinds of the two gates it is made of.
pub struct HalfAdderWiring {
    /// The kind of its first gate, which gives the sum.
    pub sum_gate: GateType,
    /// The kind of its second gate, which gives the carry.
    pub carry_gate: GateType,
}

impl HalfAdderWiring {
    /// The wiring of every half adder: an XOR gate for the sum and an AND
    /// gate for the carry.
    pub open spec fn standard() -> HalfAdderWiring {
        HalfAdderWiring { sum_gate: GateType::XOR, carry_gate: GateType::AND }
    }
}

/// Adds two bits.
#[derive(Debug)]
pub struct HalfAdder {
    xor_gate: LogicGate,
    and_gate: LogicGate,
}

impl View for HalfAdder {
    type V = HalfAdderWiring;

    /// The kinds of the two gates.
    closed spec fn view(&self) -> HalfAdderWiring {
        HalfAdderWiring { sum_gate: self.xor_gate.kind(), carry_gate: self.and_gate.kind() }
    }
}

impl HalfAdder {
    /// The sum comes from an XOR gate and the carry from an AND gate.
    #[verifier::type_invariant]
    spec fn wired(&self) -> bool {
        &&& self.xor_gate.kind() == GateType::XOR
        &&& self.and_gate.kind() == GateType::AND
    }

    /// Wires up a half adder from a fresh XOR gate and a fresh AND gate.
    pub fn new() -> (adder: Self)
        ensures
            adder@ == HalfAdderWiring::standard(),
    {
        HalfAdder { xor_gate: LogicGate::new(GateType::XOR), and_gate: LogicGate::new(GateType::AND) }
    }

    /// Adds `a` and `b`: the sum is what the first gate makes of them, the
    /// carry what the second does. As every half adder is wired alike, these
    /// are the sum and the carry of the two bits.
    pub fn compute(&self, a: bool, b: bool) -> (out: HalfAdderResult)
        ensures
            out.sum == self@.sum_gate.apply(a, b),
            out.carry == self@.carry_gate.apply(a, b),
            self@ == HalfAdderWiring::standard(),
            out == half_add(a, b),
    {
        proof {
            use_type_invariant(self);
        }
        let sum = self.xor_gate.compute(a, b);
        let carry = self.and_gate.compute(a, b);
        HalfAdderResult { sum, carry }
    }
}

impl Default for HalfAdder {
    fn default() -> (adder: Self)
        ensures
            adder@ == HalfAdderWiring::standard(),
    {
        Self::new()
    }
}

/// The weight of a bit in a sum: 1 if it is set, else 0.
pub open spec fn bit_value(bit: bool) -> int {
    if bit {
        1
    } else {
        0
    }
}

/// A half adder adds: its two output bits, read as a two-bit number, are the
/// arithmetic sum of its inputs.
pub proof fn lemma_half_add_is_sum(a: bool, b: bool)
    ensures
        bit_value(half_add(a, b).sum) + 2 * bit_value(half_add(a, b).carry) == bit_value(a)
            + bit_value(b),
{
}

} // verus!

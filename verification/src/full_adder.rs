//! The full adder: two half adders in series and an OR gate that joins their
//! carries.

use vstd::prelude::*;
use crate::gates::{GateType, LogicGate};
use crate::half_adder::{bit_value, half_add, HalfAdder, HalfAdderWiring};

verus! {

/// What a full adder puts out.
#[derive(Debug, Clone, Copy, PartialEq, Eq, Structural)]
pub struct FullAdderResult {
    pub sum: bool,
    pub carry: bool,
}

/// The sum and carry of two bits and a carry-in, by the standard truth table:
/// the sum is `a xor b xor carry_in`, the carry `(a and b) or (carry_in and (a xor b))`.
pub open spec fn full_add(a: bool, b: bool, carry_in: bool) -> FullAdderResult {
    FullAdderResult {
        sum: (a != b) != carry_in,
        carry: (a && b) || (carry_in && (a != b)),
    }
}

/// How a full adder is wired: its two half adders and the kind of its
/// third gate, which joins their carries.
pub struct FullAdderWiring {
    /// The half adder that takes the two bits.
    pub first: HalfAdderWiring,
    /// The half adder that takes the first sum and the carry-in.
    pub second: HalfAdderWiring,
    /// The kind of its third gate, which joins the two carries.
    pub carry_gate: GateType,
}

impl FullAdderWiring {
    /// The wiring of every full adder: two half adders in series, and an OR
    /// gate for the carry.
    pub open spec fn standard() -> FullAdderWiring {
        FullAdderWiring {
            first: HalfAdderWiring::standard(),
            second: HalfAdderWiring::standard(),
            carry_gate: GateType::OR,
        }
    }
}

/// Adds two bits and a carry-in.
#[derive(Debug)]
pub struct FullAdder {
    half_adder1: HalfAdder,
    half_adder2: HalfAdder,
    or_gate: LogicGate,
}

impl View for FullAdder {
    type V = FullAdderWiring;

    /// The wiring of the two half adders and the kind of the third gate.
    closed spec fn view(&self) -> FullAdderWiring {
        FullAdderWiring {
            first: self.half_adder1@,
            second: self.half_adder2@,
            carry_gate: self.or_gate.kind(),
        }
    }
}

impl FullAdder {
    /// Both half adders are wired as half adders are, and the carries are
    /// joined by an OR gate.
    #[verifier::type_invariant]
    spec fn wired(&self) -> bool {
        &&& self.half_adder1@ == HalfAdderWiring::standard()
        &&& self.half_adder2@ == HalfAdderWiring::standard()
        &&& self.or_gate.kind() == GateType::OR
    }

    /// Wires up a full adder from two fresh half adders and a fresh OR gate.
    pub fn new() -> (adder: Self)
        ensures
            adder@ == FullAdderWiring::standard(),
    {
        FullAdder {
            half_adder1: HalfAdder::new(),
            half_adder2: HalfAdder::new(),
            or_gate: LogicGate::new(GateType::OR),
        }
    }

    /// Adds `a`, `b` and `carry_in`: the first half adder adds the two bits,
    /// the second adds the carry-in to their sum, and the third gate joins
    /// the two carries.
    pub fn compute(&self, a: bool, b: bool, carry_in: bool) -> (out: FullAdderResult)
        ensures
            self@ == FullAdderWiring::standard(),
            out.sum == half_add(half_add(a, b).sum, carry_in).sum,
            out.carry == self@.carry_gate.apply(
                half_add(a, b).carry,
                half_add(half_add(a, b).sum, carry_in).carry,
            ),
            out == full_add(a, b, carry_in),
    {
        proof {
            use_type_invariant(self);
        }
        let result1 = self.half_adder1.compute(a, b);
        let result2 = self.half_adder2.compute(result1.sum, carry_in);
        let carry = self.or_gate.compute(result1.carry, result2.carry);
        FullAdderResult { sum: result2.sum, carry }
    }
}

impl Default for FullAdder {
    fn default() -> (adder: Self)
        ensures
            adder@ == FullAdderWiring::standard(),
    {
        Self::new()
    }
}

/// A full adder adds: its two output bits, read as a two-bit number, are the
/// arithmetic sum of its three inputs.
pub proof fn lemma_full_add_is_sum(a: bool, b: bool, carry_in: bool)
    ensures
        bit_value(full_add(a, b, carry_in).sum) + 2 * bit_value(full_add(a, b, carry_in).carry)
            == bit_value(a) + bit_value(b) + bit_value(carry_in),
{
}

} // verus!

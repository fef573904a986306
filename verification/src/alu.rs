//! The arithmetic logic unit: a ripple-carry chain of four full adders for
//! addition and subtraction, and four gates per bitwise operation.

use vstd::prelude::*;
use crate::full_adder::{lemma_full_add_is_sum, FullAdder, FullAdderWiring};
use crate::gates::{GateType, LogicGate};
use crate::half_adder::bit_value;
use crate::nibble::{lemma_low_nibble_is_remainder, lemma_low_nibble_of_nibble, low_nibble};

verus! {

/// The operations of the ALU.
#[derive(Debug, Clone, Copy, PartialEq, Eq, Structural)]
pub enum ALUOperation {
    Add,
    Subtract,
    And,
    Or,
    Xor,
}

/// What the ALU puts out: a nibble and two flags.
#[derive(Debug, Clone, Copy, PartialEq, Eq, Structural)]
pub struct ALUResult {
    pub result: u8,
    pub carry: bool,
    pub zero: bool,
}

/// The result nibble of `operation` on the nibbles `a` and `b`.
///
/// Subtraction wraps around modulo 16.
pub open spec fn alu_value(a: u8, b: u8, operation: ALUOperation) -> u8
    recommends
        a <= 15,
        b <= 15,
{
    match operation {
        ALUOperation::Add => ((a + b) % 16) as u8,
        ALUOperation::Subtract => ((a - b) % 16) as u8,
        ALUOperation::And => a & b,
        ALUOperation::Or => a | b,
        ALUOperation::Xor => a ^ b,
    }
}

/// The carry flag of `operation` on the nibbles `a` and `b`.
///
/// An addition carries when the sum exceeds 15. A subtraction adds the two's
/// complement of `b`, itself reduced to four bits, and reports the carry of
/// that addition: it is set exactly when `b` is not zero and `a` is at least
/// `b`. The bitwise operations never carry.
pub open spec fn alu_carry(a: u8, b: u8, operation: ALUOperation) -> bool
    recommends
        a <= 15,
        b <= 15,
{
    match operation {
        ALUOperation::Add => a + b > 15,
        ALUOperation::Subtract => b != 0 && a >= b,
        _ => false,
    }
}

/// What the ALU computes for any two bytes: both are first reduced to four
/// bits.
pub open spec fn alu_compute(a: u8, b: u8, operation: ALUOperation) -> ALUResult {
    let x = low_nibble(a);
    let y = low_nibble(b);
    ALUResult {
        result: alu_value(x, y, operation),
        carry: alu_carry(x, y, operation),
        zero: alu_value(x, y, operation) == 0,
    }
}

/// Addition of two nibbles: the result is the four low bits of the sum, and
/// the carry tells whether the sum exceeds 15.
pub proof fn lemma_add_wraps(a: u8, b: u8)
    requires
        a <= 15,
        b <= 15,
    ensures
        alu_compute(a, b, ALUOperation::Add).result == ((a + b) as u8) & 0x0F,
        alu_compute(a, b, ALUOperation::Add).carry == (a + b > 15),
        alu_compute(a, b, ALUOperation::Add).zero == ((a + b) % 16 == 0),
{
    lemma_low_nibble_of_nibble(a);
    lemma_low_nibble_of_nibble(b);
    let sum = (a + b) as u8;
    assert(sum & 0x0F == sum % 16) by (bit_vector);
}

/// Subtraction of two nibbles wraps around: the result is the difference
/// modulo 16.
pub proof fn lemma_subtract_wraps(a: u8, b: u8)
    requires
        a <= 15,
        b <= 15,
    ensures
        alu_compute(a, b, ALUOperation::Subtract).result == (a - b) % 16,
        a >= b ==> alu_compute(a, b, ALUOperation::Subtract).result == a - b,
        a < b ==> alu_compute(a, b, ALUOperation::Subtract).result == a + 16 - b,
        alu_compute(a, b, ALUOperation::Subtract).zero == (a == b),
{
    lemma_low_nibble_of_nibble(a);
    lemma_low_nibble_of_nibble(b);
}

/// The bitwise operations on any two bytes are the exact operations on their
/// four low bits; they never carry.
pub proof fn lemma_bitwise_exact(a: u8, b: u8)
    ensures
        alu_compute(a, b, ALUOperation::And).result == (a & b) & 0x0F,
        alu_compute(a, b, ALUOperation::Or).result == (a | b) & 0x0F,
        alu_compute(a, b, ALUOperation::Xor).result == (a ^ b) & 0x0F,
        !alu_compute(a, b, ALUOperation::And).carry,
        !alu_compute(a, b, ALUOperation::Or).carry,
        !alu_compute(a, b, ALUOperation::Xor).carry,
        a <= 15 && b <= 15 ==> {
            &&& alu_compute(a, b, ALUOperation::And).result == a & b
            &&& alu_compute(a, b, ALUOperation::Or).result == a | b
            &&& alu_compute(a, b, ALUOperation::Xor).result == a ^ b
        },
{
    assert((a & 0x0F) & (b & 0x0F) == (a & b) & 0x0F) by (bit_vector);
    assert((a & 0x0F) | (b & 0x0F) == (a | b) & 0x0F) by (bit_vector);
    assert((a & 0x0F) ^ (b & 0x0F) == (a ^ b) & 0x0F) by (bit_vector);
    if a <= 15 && b <= 15 {
        lemma_low_nibble_of_nibble(a);
        lemma_low_nibble_of_nibble(b);
    }
}

/// The number that four bits stand for, least significant first.
pub open spec fn bits_value(bits: [bool; 4]) -> int {
    bit_value(bits[0]) + 2 * bit_value(bits[1]) + 4 * bit_value(bits[2]) + 8 * bit_value(bits[3])
}

/// Bit `index` of `value`.
pub open spec fn bit_of(value: u8, index: u8) -> bool {
    (value >> index) & 1 == 1
}

/// A nibble is the number its four low bits stand for.
proof fn lemma_nibble_bits(value: u8)
    requires
        value <= 15,
    ensures
        value == bit_value(bit_of(value, 0)) + 2 * bit_value(bit_of(value, 1)) + 4 * bit_value(
            bit_of(value, 2),
        ) + 8 * bit_value(bit_of(value, 3)),
{
    let b0: u8 = (value >> 0u8) & 1;
    let b1: u8 = (value >> 1u8) & 1;
    let b2: u8 = (value >> 2u8) & 1;
    let b3: u8 = (value >> 3u8) & 1;
    assert(value <= 15 ==> value == ((value >> 0u8) & 1) + 2 * ((value >> 1u8) & 1) + 4 * ((value
        >> 2u8) & 1) + 8 * ((value >> 3u8) & 1)) by (bit_vector);
    assert(b0 == 0 || b0 == 1) by (bit_vector)
        requires
            b0 == (value >> 0u8) & 1,
    ;
    assert(b1 == 0 || b1 == 1) by (bit_vector)
        requires
            b1 == (value >> 1u8) & 1,
    ;
    assert(b2 == 0 || b2 == 1) by (bit_vector)
        requires
            b2 == (value >> 2u8) & 1,
    ;
    assert(b3 == 0 || b3 == 1) by (bit_vector)
        requires
            b3 == (value >> 3u8) & 1,
    ;
}

/// The bits of the bitwise operations are those of the gates, position by
/// position.
proof fn lemma_bitwise_bits(a: u8, b: u8, index: u8)
    requires
        index < 4,
    ensures
        bit_of(a & b, index) == GateType::AND.apply(bit_of(a, index), bit_of(b, index)),
        bit_of(a | b, index) == GateType::OR.apply(bit_of(a, index), bit_of(b, index)),
        bit_of(a ^ b, index) == GateType::XOR.apply(bit_of(a, index), bit_of(b, index)),
{
    assert((((a & b) >> index) & 1 == 1) == (((a >> index) & 1 == 1) && ((b >> index) & 1 == 1)))
        by (bit_vector);
    assert((((a | b) >> index) & 1 == 1) == (((a >> index) & 1 == 1) || ((b >> index) & 1 == 1)))
        by (bit_vector);
    assert((((a ^ b) >> index) & 1 == 1) == (((a >> index) & 1 == 1) != ((b >> index) & 1 == 1)))
        by (bit_vector);
}

/// How an ALU is wired: its full adders, least significant first, and the
/// kinds of its gates for the bitwise operations, one of each per bit.
pub struct AluWiring {
    /// The chain of full adders.
    pub adders: Seq<FullAdderWiring>,
    /// The kinds of the gates for the bitwise AND.
    pub and_gates: Seq<GateType>,
    /// The kinds of the gates for the bitwise OR.
    pub or_gates: Seq<GateType>,
    /// The kinds of the gates for the bitwise XOR.
    pub xor_gates: Seq<GateType>,
}

impl AluWiring {
    /// The wiring of every ALU: four full adders, and four AND gates, four
    /// OR gates and four XOR gates.
    pub open spec fn standard() -> AluWiring {
        AluWiring {
            adders: Seq::new(4, |i: int| FullAdderWiring::standard()),
            and_gates: Seq::new(4, |i: int| GateType::AND),
            or_gates: Seq::new(4, |i: int| GateType::OR),
            xor_gates: Seq::new(4, |i: int| GateType::XOR),
        }
    }
}

/// A four-bit ALU.
#[derive(Debug)]
pub struct ALU {
    adder0: FullAdder,
    adder1: FullAdder,
    adder2: FullAdder,
    adder3: FullAdder,
    and_gates: [LogicGate; 4],
    or_gates: [LogicGate; 4],
    xor_gates: [LogicGate; 4],
}

impl View for ALU {
    type V = AluWiring;

    /// The wiring of the four adders and the kinds of the twelve gates.
    closed spec fn view(&self) -> AluWiring {
        AluWiring {
            adders: seq![self.adder0@, self.adder1@, self.adder2@, self.adder3@],
            and_gates: Seq::new(4, |i: int| self.and_gates[i].kind()),
            or_gates: Seq::new(4, |i: int| self.or_gates[i].kind()),
            xor_gates: Seq::new(4, |i: int| self.xor_gates[i].kind()),
        }
    }
}

impl ALU {
    /// Every adder is wired as full adders are, and every gate is of the
    /// kind that its place asks for.
    #[verifier::type_invariant]
    spec fn wired(&self) -> bool {
        &&& self.adder0@ == FullAdderWiring::standard()
        &&& self.adder1@ == FullAdderWiring::standard()
        &&& self.adder2@ == FullAdderWiring::standard()
        &&& self.adder3@ == FullAdderWiring::standard()
        &&& forall|i: int| 0 <= i < 4 ==> (#[trigger] self.and_gates[i]).kind() == GateType::AND
        &&& forall|i: int| 0 <= i < 4 ==> (#[trigger] self.or_gates[i]).kind() == GateType::OR
        &&& forall|i: int| 0 <= i < 4 ==> (#[trigger] self.xor_gates[i]).kind() == GateType::XOR
    }

    /// Wires up an ALU from four fresh full adders and, for each of the
    /// three bitwise operations, four fresh gates of its kind.
    pub fn new() -> (alu: Self)
        ensures
            alu@ == AluWiring::standard(),
    {
        let alu = ALU {
            adder0: FullAdder::new(),
            adder1: FullAdder::new(),
            adder2: FullAdder::new(),
            adder3: FullAdder::new(),
            and_gates: [
                LogicGate::new(GateType::AND),
                LogicGate::new(GateType::AND),
                LogicGate::new(GateType::AND),
                LogicGate::new(GateType::AND),
            ],
            or_gates: [
                LogicGate::new(GateType::OR),
                LogicGate::new(GateType::OR),
                LogicGate::new(GateType::OR),
                LogicGate::new(GateType::OR),
            ],
            xor_gates: [
                LogicGate::new(GateType::XOR),
                LogicGate::new(GateType::XOR),
                LogicGate::new(GateType::XOR),
                LogicGate::new(GateType::XOR),
            ],
        };
        assert(alu@.adders =~= AluWiring::standard().adders);
        assert(alu@.and_gates =~= AluWiring::standard().and_gates);
        assert(alu@.or_gates =~= AluWiring::standard().or_gates);
        assert(alu@.xor_gates =~= AluWiring::standard().xor_gates);
        alu
    }

    /// Performs `operation` on the four low bits of `a` and of `b`. Every
    /// ALU is wired alike, so the result does not depend on the ALU.
    pub fn compute(&self, a: u8, b: u8, operation: ALUOperation) -> (out: ALUResult)
        ensures
            self@ == AluWiring::standard(),
            out == alu_compute(a, b, operation),
            out.result <= 15,
    {
        proof {
            use_type_invariant(self);
            assert(self@.adders =~= AluWiring::standard().adders);
            assert(self@.and_gates =~= AluWiring::standard().and_gates);
            assert(self@.or_gates =~= AluWiring::standard().or_gates);
            assert(self@.xor_gates =~= AluWiring::standard().xor_gates);
            lemma_low_nibble_is_remainder(a);
            lemma_low_nibble_is_remainder(b);
        }
        let a = a & 0x0F;
        let b = b & 0x0F;
        match operation {
            ALUOperation::Add => self.add(a, b),
            ALUOperation::Subtract => self.subtract(a, b),
            ALUOperation::And => self.bitwise_and(a, b),
            ALUOperation::Or => self.bitwise_or(a, b),
            ALUOperation::Xor => self.bitwise_xor(a, b),
        }
    }

    /// Adds two nibbles through the chain of full adders, least significant
    /// bit first, with no carry into the first.
    fn add(&self, a: u8, b: u8) -> (out: ALUResult)
        requires
            a <= 15,
            b <= 15,
        ensures
            out.result == (a + b) % 16,
            out.carry == (a + b > 15),
            out.zero == (out.result == 0),
    {
        let a_bits = self.to_bits(a);
        let b_bits = self.to_bits(b);
        let result0 = self.adder0.compute(a_bits[0], b_bits[0], false);
        let result1 = self.adder1.compute(a_bits[1], b_bits[1], result0.carry);
        let result2 = self.adder2.compute(a_bits[2], b_bits[2], result1.carry);
        let result3 = self.adder3.compute(a_bits[3], b_bits[3], result2.carry);
        let result_bits = [result0.sum, result1.sum, result2.sum, result3.sum];
        let result_value = self.bits_to_u8(result_bits);
        proof {
            lemma_nibble_bits(a);
            lemma_nibble_bits(b);
            lemma_full_add_is_sum(a_bits[0], b_bits[0], false);
            lemma_full_add_is_sum(a_bits[1], b_bits[1], result0.carry);
            lemma_full_add_is_sum(a_bits[2], b_bits[2], result1.carry);
            lemma_full_add_is_sum(a_bits[3], b_bits[3], result2.carry);
            assert(result_value + 16 * bit_value(result3.carry) == a + b);
        }
        ALUResult { result: result_value, carry: result3.carry, zero: result_value == 0 }
    }

    /// Subtracts by adding the two's complement of `b`: its inverted bits plus
    /// one, reduced to four bits.
    fn subtract(&self, a: u8, b: u8) -> (out: ALUResult)
        requires
            a <= 15,
            b <= 15,
        ensures
            out.result == (a - b) % 16,
            out.carry == (b != 0 && a >= b),
            out.zero == (out.result == 0),
    {
        let b_complement = (!b) & 0x0F;
        proof {
            assert(b <= 15 ==> (!b) & 0x0F == 15 - b) by (bit_vector);
        }
        let b_plus_one = self.add(b_complement, 1);
        self.add(a, b_plus_one.result)
    }

    /// The bitwise AND of two nibbles, one gate per bit.
    fn bitwise_and(&self, a: u8, b: u8) -> (out: ALUResult)
        requires
            a <= 15,
            b <= 15,
        ensures
            out.result == a & b,
            out.result <= 15,
            !out.carry,
            out.zero == (out.result == 0),
    {
        proof {
            use_type_invariant(self);
        }
        let a_bits = self.to_bits(a);
        let b_bits = self.to_bits(b);
        let mut result_bits = [false;4];
        for i in 0..4usize
            invariant
                self.wired(),
                forall|j: int| 0 <= j < 4 ==> a_bits[j] == bit_of(a, j as u8),
                forall|j: int| 0 <= j < 4 ==> b_bits[j] == bit_of(b, j as u8),
                forall|j: int| 0 <= j < i ==> result_bits[j] == bit_of(a & b, j as u8),
        {
            proof {
                lemma_bitwise_bits(a, b, i as u8);
            }
            let bit = self.and_gates[i].compute(a_bits[i], b_bits[i]);
            result_bits[i] = bit;
        }
        let result_value = self.bits_to_u8(result_bits);
        proof {
            assert(a <= 15 ==> (a & b) <= 15) by (bit_vector);
            lemma_nibble_bits(a & b);
        }
        ALUResult { result: result_value, carry: false, zero: result_value == 0 }
    }

    /// The bitwise OR of two nibbles, one gate per bit.
    fn bitwise_or(&self, a: u8, b: u8) -> (out: ALUResult)
        requires
            a <= 15,
            b <= 15,
        ensures
            out.result == a | b,
            out.result <= 15,
            !out.carry,
            out.zero == (out.result == 0),
    {
        proof {
            use_type_invariant(self);
        }
        let a_bits = self.to_bits(a);
        let b_bits = self.to_bits(b);
        let mut result_bits = [false;4];
        for i in 0..4usize
            invariant
                self.wired(),
                forall|j: int| 0 <= j < 4 ==> a_bits[j] == bit_of(a, j as u8),
                forall|j: int| 0 <= j < 4 ==> b_bits[j] == bit_of(b, j as u8),
                forall|j: int| 0 <= j < i ==> result_bits[j] == bit_of(a | b, j as u8),
        {
            proof {
                lemma_bitwise_bits(a, b, i as u8);
            }
            let bit = self.or_gates[i].compute(a_bits[i], b_bits[i]);
            result_bits[i] = bit;
        }
        let result_value = self.bits_to_u8(result_bits);
        proof {
            assert(a <= 15 && b <= 15 ==> (a | b) <= 15) by (bit_vector);
            lemma_nibble_bits(a | b);
        }
        ALUResult { result: result_value, carry: false, zero: result_value == 0 }
    }

    /// The bitwise XOR of two nibbles, one gate per bit.
    fn bitwise_xor(&self, a: u8, b: u8) -> (out: ALUResult)
        requires
            a <= 15,
            b <= 15,
        ensures
            out.result == a ^ b,
            out.result <= 15,
            !out.carry,
            out.zero == (out.result == 0),
    {
        proof {
            use_type_invariant(self);
        }
        let a_bits = self.to_bits(a);
        let b_bits = self.to_bits(b);
        let mut result_bits = [false;4];
        for i in 0..4usize
            invariant
                self.wired(),
                forall|j: int| 0 <= j < 4 ==> a_bits[j] == bit_of(a, j as u8),
                forall|j: int| 0 <= j < 4 ==> b_bits[j] == bit_of(b, j as u8),
                forall|j: int| 0 <= j < i ==> result_bits[j] == bit_of(a ^ b, j as u8),
        {
            proof {
                lemma_bitwise_bits(a, b, i as u8);
            }
            let bit = self.xor_gates[i].compute(a_bits[i], b_bits[i]);
            result_bits[i] = bit;
        }
        let result_value = self.bits_to_u8(result_bits);
        proof {
            assert(a <= 15 && b <= 15 ==> (a ^ b) <= 15) by (bit_vector);
            lemma_nibble_bits(a ^ b);
        }
        ALUResult { result: result_value, carry: false, zero: result_value == 0 }
    }

    /// Splits the four low bits of `value`, least significant first.
    fn to_bits(&self, value: u8) -> (bits: [bool; 4])
        ensures
            forall|i: int| 0 <= i < 4 ==> bits[i] == bit_of(value, i as u8),
    {
        proof {
            assert(((value & 0x01) != 0) == ((value >> 0u8) & 1 == 1)) by (bit_vector);
            assert(((value & 0x02) != 0) == ((value >> 1u8) & 1 == 1)) by (bit_vector);
            assert(((value & 0x04) != 0) == ((value >> 2u8) & 1 == 1)) by (bit_vector);
            assert(((value & 0x08) != 0) == ((value >> 3u8) & 1 == 1)) by (bit_vector);
        }
        [(value & 0x01) != 0, (value & 0x02) != 0, (value & 0x04) != 0, (value & 0x08) != 0]
    }

    /// Joins four bits, least significant first, into a nibble.
    fn bits_to_u8(&self, bits: [bool; 4]) -> (value: u8)
        ensures
            value == bits_value(bits),
            value <= 15,
    {
        let mut result = 0u8;
        if bits[0] {
            result |= 0x01;
        }
        assert(result == bit_value(bits[0])) by {
            assert(0u8 | 0x01 == 1) by (bit_vector);
        }
        let ghost low1 = result;
        if bits[1] {
            result |= 0x02;
        }
        assert(result == low1 + 2 * bit_value(bits[1])) by {
            assert(low1 <= 1 ==> low1 | 0x02 == low1 + 2) by (bit_vector);
        }
        let ghost low2 = result;
        if bits[2] {
            result |= 0x04;
        }
        assert(result == low2 + 4 * bit_value(bits[2])) by {
            assert(low2 <= 3 ==> low2 | 0x04 == low2 + 4) by (bit_vector);
        }
        let ghost low3 = result;
        if bits[3] {
            result |= 0x08;
        }
        assert(result == low3 + 8 * bit_value(bits[3])) by {
            assert(low3 <= 7 ==> low3 | 0x08 == low3 + 8) by (bit_vector);
        }
        result
    }
}

impl Default for ALU {
    fn default() -> (alu: Self)
        ensures
            alu@ == AluWiring::standard(),
    {
        Self::new()
    }
}

} // verus!

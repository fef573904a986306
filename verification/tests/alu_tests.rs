use aspirina::alu::{ALUOperation, ALUResult, ALU};
use aspirina::full_adder::{FullAdder, FullAdderResult};
use aspirina::gates::{GateType, LogicGate};
use aspirina::half_adder::{HalfAdder, HalfAdderResult};

#[test]
fn test_half_adder_truth_table() {
    let adder = HalfAdder::new();

    assert_eq!(adder.compute(false, false), HalfAdderResult { sum: false, carry: false });
    assert_eq!(adder.compute(false, true), HalfAdderResult { sum: true, carry: false });
    assert_eq!(adder.compute(true, false), HalfAdderResult { sum: true, carry: false });
    assert_eq!(adder.compute(true, true), HalfAdderResult { sum: false, carry: true });
}

#[test]
fn gates_follow_their_truth_tables() {
    let and = LogicGate::new(GateType::AND);
    let or = LogicGate::new(GateType::OR);
    let xor = LogicGate::new(GateType::XOR);
    for (a, b) in [(false, false), (false, true), (true, false), (true, true)] {
        assert_eq!(and.compute(a, b), a & b);
        assert_eq!(or.compute(a, b), a | b);
        assert_eq!(xor.compute(a, b), a ^ b);
    }
    assert_eq!(*and.gate_type(), GateType::AND);
    assert_eq!(*or.gate_type(), GateType::OR);
    assert_eq!(*xor.gate_type(), GateType::XOR);
}

#[test]
fn full_adder_truth_table() {
    let adder = FullAdder::new();
    for a in [false, true] {
        for b in [false, true] {
            for cin in [false, true] {
                let expected = FullAdderResult {
                    sum: a ^ b ^ cin,
                    carry: (a & b) | (cin & (a ^ b)),
                };
                assert_eq!(adder.compute(a, b, cin), expected);
            }
        }
    }
    assert_eq!(adder.compute(true, true, true), FullAdderResult { sum: true, carry: true });
    assert_eq!(adder.compute(true, false, true), FullAdderResult { sum: false, carry: true });
}

#[test]
fn alu_adds_every_pair_of_nibbles() {
    let alu = ALU::new();
    for a in 0..16u8 {
        for b in 0..16u8 {
            let out = alu.compute(a, b, ALUOperation::Add);
            assert_eq!(out.result, (a + b) & 0x0F);
            assert_eq!(out.carry, (a + b) > 15);
            assert_eq!(out.zero, out.result == 0);
        }
    }
    assert_eq!(
        alu.compute(15, 1, ALUOperation::Add),
        ALUResult { result: 0, carry: true, zero: true }
    );
    assert_eq!(
        alu.compute(5, 3, ALUOperation::Add),
        ALUResult { result: 8, carry: false, zero: false }
    );
}

#[test]
fn alu_subtracts_every_pair_of_nibbles() {
    let alu = ALU::new();
    for a in 0..16u8 {
        for b in 0..16u8 {
            let out = alu.compute(a, b, ALUOperation::Subtract);
            assert_eq!(out.result, a.wrapping_sub(b) & 0x0F);
            assert_eq!(out.carry, b != 0 && a >= b);
            assert_eq!(out.zero, out.result == 0);
        }
    }
    assert_eq!(
        alu.compute(8, 3, ALUOperation::Subtract),
        ALUResult { result: 5, carry: true, zero: false }
    );
    assert_eq!(
        alu.compute(5, 7, ALUOperation::Subtract),
        ALUResult { result: 14, carry: false, zero: false }
    );
    assert_eq!(
        alu.compute(5, 0, ALUOperation::Subtract),
        ALUResult { result: 5, carry: false, zero: false }
    );
    assert_eq!(
        alu.compute(4, 4, ALUOperation::Subtract),
        ALUResult { result: 0, carry: true, zero: true }
    );
}

#[test]
fn alu_bitwise_operations_are_exact() {
    let alu = ALU::new();
    for a in 0..16u8 {
        for b in 0..16u8 {
            let and = alu.compute(a, b, ALUOperation::And);
            let or = alu.compute(a, b, ALUOperation::Or);
            let xor = alu.compute(a, b, ALUOperation::Xor);
            assert_eq!(and, ALUResult { result: a & b, carry: false, zero: a & b == 0 });
            assert_eq!(or, ALUResult { result: a | b, carry: false, zero: a | b == 0 });
            assert_eq!(xor, ALUResult { result: a ^ b, carry: false, zero: a ^ b == 0 });
        }
    }
    assert_eq!(alu.compute(12, 5, ALUOperation::And).result, 4);
    assert_eq!(alu.compute(10, 3, ALUOperation::Or).result, 11);
    assert_eq!(alu.compute(15, 5, ALUOperation::Xor).result, 10);
}

#[test]
fn alu_masks_operands_above_fifteen() {
    let alu = ALU::new();
    assert_eq!(
        alu.compute(0x25, 0x13, ALUOperation::Add),
        ALUResult { result: 8, carry: false, zero: false }
    );
    assert_eq!(alu.compute(0xFF, 0xF1, ALUOperation::And).result, 1);
    assert_eq!(alu.compute(0x10, 0x20, ALUOperation::Or).result, 0);
    assert!(alu.compute(0x10, 0x20, ALUOperation::Or).zero);
    assert_eq!(alu.compute(0xF0, 0x01, ALUOperation::Subtract).result, 15);
}

use aspirina::cpu::{Instruction, SimpleCPU};

#[test]
fn test_cpu_fetch() {
    let mut cpu = SimpleCPU::new();
    cpu.memory.write(0, 0xA5);

    // A cell is four bits wide: only the low nibble of 0xA5 is stored.
    let instruction = cpu.fetch();
    assert_eq!(instruction, 0x5);
    assert_eq!(cpu.registers.instruction_register.read(), 0x5);
}

#[test]
fn test_cpu_decode() {
    let cpu = SimpleCPU::new();

    // Opcodes are the values 0x0 to 0xF; any other byte is no opcode and
    // reads as NOP.
    assert_eq!(cpu.decode(0x00), Instruction::NOP);
    assert_eq!(cpu.decode(0x15), Instruction::NOP);
    assert_eq!(cpu.decode(0x2A), Instruction::NOP);
    assert_eq!(cpu.decode(0xF0), Instruction::NOP);
}

#[test]
fn test_cpu_execute_ldi() {
    let mut cpu = SimpleCPU::new();
    cpu.execute(Instruction::LDI(7));
    assert_eq!(cpu.registers.accumulator.read(), 7);
}

#[test]
fn test_cpu_program() {
    let mut cpu = SimpleCPU::new();

    // The four bytes are stored as the nibbles 5, 0, F, 0: an AND with its
    // operand, then HALT.
    let program = [0xA5, 0xB0, 0x2F, 0xF0];

    cpu.load_program(&program);
    cpu.run(10);

    assert_eq!(cpu.memory.read(0xF), 0);
    assert!(cpu.halted);
    assert_eq!(cpu.cycle_count, 2);
}

#[test]
fn decode_reads_each_opcode_with_the_cell_after_it() {
    let mut cpu = SimpleCPU::new();
    cpu.memory.write(1, 0x9);
    assert_eq!(cpu.decode(0x0), Instruction::NOP);
    assert_eq!(cpu.decode(0x1), Instruction::LOAD(9));
    assert_eq!(cpu.decode(0x2), Instruction::STORE(9));
    assert_eq!(cpu.decode(0x3), Instruction::ADD(9));
    assert_eq!(cpu.decode(0x4), Instruction::SUB(9));
    assert_eq!(cpu.decode(0x5), Instruction::AND(9));
    assert_eq!(cpu.decode(0x6), Instruction::OR(9));
    assert_eq!(cpu.decode(0x7), Instruction::XOR(9));
    assert_eq!(cpu.decode(0x8), Instruction::JUMP(9));
    assert_eq!(cpu.decode(0x9), Instruction::JZ(9));
    assert_eq!(cpu.decode(0xA), Instruction::LDI(9));
    assert_eq!(cpu.decode(0xB), Instruction::INC);
    assert_eq!(cpu.decode(0xC), Instruction::DEC);
    assert_eq!(cpu.decode(0xD), Instruction::CMP(9));
    assert_eq!(cpu.decode(0xE), Instruction::JNZ(9));
    assert_eq!(cpu.decode(0xF), Instruction::HALT);
}

#[test]
fn operand_after_the_last_cell_is_cell_zero() {
    let mut cpu = SimpleCPU::new();
    cpu.memory.write(0, 0x6);
    cpu.registers.program_counter.write(0xF);
    assert_eq!(cpu.decode(0xA), Instruction::LDI(6));
}

#[test]
fn simple_addition_program() {
    let mut cpu = SimpleCPU::new();
    let program = [0xA, 0x5, 0x3, 0xE, 0x2, 0xF, 0xF];
    cpu.memory.write(0xE, 3);
    cpu.load_program(&program);
    cpu.run(10);
    assert_eq!(cpu.memory.read(0xF), 8);
    assert_eq!(cpu.registers.accumulator.read(), 8);
    assert!(cpu.halted);
    assert_eq!(cpu.cycle_count, 4);
    assert_eq!(cpu.registers.program_counter.read(), 6);
}

#[test]
fn countdown_with_conditional_jump() {
    let mut cpu = SimpleCPU::new();
    let program = [0xA, 0x3, 0x2, 0xE, 0xC, 0x9, 0x8, 0x8, 0x4, 0xF];
    cpu.load_program(&program);
    cpu.run(30);
    assert_eq!(cpu.registers.accumulator.read(), 0);
}

#[test]
fn countdown_with_jnz_halts_with_zero_accumulator() {
    // LDI 3 / STORE 0xE / DEC / JNZ 4 / HALT, with DEC at address 4.
    let mut cpu = SimpleCPU::new();
    let program = [0xA, 0x3, 0x2, 0xE, 0xC, 0xE, 0x4, 0xF];
    cpu.load_program(&program);
    cpu.run(100);
    assert!(cpu.halted);
    assert_eq!(cpu.registers.accumulator.read(), 0);
    assert!(cpu.registers.zero_flag);
    assert_eq!(cpu.memory.read(0xE), 3);
    assert_eq!(cpu.cycle_count, 9);
}

#[test]
fn logical_operations_program() {
    let mut cpu = SimpleCPU::new();
    let program = [0xA, 0xC, 0x5, 0xD, 0x2, 0xC, 0xA, 0xA, 0x6, 0xD, 0x2, 0xB, 0xF];
    cpu.memory.write(0xD, 5);
    cpu.load_program(&program);
    cpu.run(20);
    assert_eq!(cpu.memory.read(0xC), 4);
    assert_eq!(cpu.memory.read(0xB), 15);
}

#[test]
fn run_never_counts_past_its_budget() {
    // JUMP 0 loops forever.
    let mut cpu = SimpleCPU::new();
    cpu.load_program(&[0x8, 0x0]);
    cpu.run(25);
    assert!(!cpu.halted);
    assert_eq!(cpu.cycle_count, 25);
    cpu.run(25);
    assert_eq!(cpu.cycle_count, 25);
    cpu.run(10);
    assert_eq!(cpu.cycle_count, 25);
    cpu.run(0);
    assert_eq!(cpu.cycle_count, 25);
    cpu.run(26);
    assert_eq!(cpu.cycle_count, 26);
}

#[test]
fn halted_cpu_does_nothing() {
    let mut cpu = SimpleCPU::new();
    cpu.load_program(&[0xF]);
    cpu.cycle();
    assert!(cpu.halted);
    assert_eq!(cpu.cycle_count, 1);
    assert_eq!(cpu.registers.program_counter.read(), 0);
    cpu.cycle();
    cpu.run(50);
    assert!(cpu.halted);
    assert_eq!(cpu.cycle_count, 1);
    assert_eq!(cpu.registers.program_counter.read(), 0);
}

#[test]
fn reset_clears_everything_together() {
    let mut cpu = SimpleCPU::new();
    cpu.load_program(&[0xA, 0x7, 0x2, 0xE, 0xF]);
    cpu.run(10);
    assert!(cpu.halted);
    cpu.reset();
    assert!(!cpu.halted);
    assert_eq!(cpu.cycle_count, 0);
    assert_eq!(cpu.memory.dump(), [0u8; 16]);
    assert_eq!(cpu.registers.accumulator.read(), 0);
    assert_eq!(cpu.registers.program_counter.read(), 0);
}

#[test]
fn program_counter_advances_by_instruction_size() {
    let mut cpu = SimpleCPU::new();
    cpu.execute(Instruction::NOP);
    assert_eq!(cpu.registers.program_counter.read(), 1);
    cpu.execute(Instruction::INC);
    assert_eq!(cpu.registers.program_counter.read(), 2);
    cpu.execute(Instruction::LOAD(0));
    assert_eq!(cpu.registers.program_counter.read(), 4);
    cpu.execute(Instruction::STORE(9));
    assert_eq!(cpu.registers.program_counter.read(), 6);
    cpu.execute(Instruction::CMP(9));
    assert_eq!(cpu.registers.program_counter.read(), 8);
    cpu.execute(Instruction::JUMP(0x1E));
    assert_eq!(cpu.registers.program_counter.read(), 0xE);
    cpu.execute(Instruction::LDI(1));
    assert_eq!(cpu.registers.program_counter.read(), 0);
    cpu.execute(Instruction::HALT);
    assert_eq!(cpu.registers.program_counter.read(), 0);
    assert!(cpu.halted);
}

#[test]
fn conditional_jumps_skip_their_operand_when_not_taken() {
    let mut cpu = SimpleCPU::new();
    cpu.execute(Instruction::LDI(0));
    assert!(cpu.registers.zero_flag);
    assert_eq!(cpu.registers.program_counter.read(), 2);
    cpu.execute(Instruction::JNZ(9));
    assert_eq!(cpu.registers.program_counter.read(), 4);
    cpu.execute(Instruction::JZ(9));
    assert_eq!(cpu.registers.program_counter.read(), 9);
    cpu.execute(Instruction::LDI(3));
    assert!(!cpu.registers.zero_flag);
    cpu.execute(Instruction::JZ(1));
    assert_eq!(cpu.registers.program_counter.read(), 13);
    cpu.execute(Instruction::JNZ(1));
    assert_eq!(cpu.registers.program_counter.read(), 1);
}

#[test]
fn flags_follow_the_instructions() {
    let mut cpu = SimpleCPU::new();
    cpu.memory.write(8, 1);
    cpu.execute(Instruction::LDI(15));
    cpu.execute(Instruction::ADD(8));
    assert_eq!(cpu.registers.accumulator.read(), 0);
    assert!(cpu.registers.zero_flag);
    assert!(cpu.registers.carry_flag);
    // LOAD sets the zero flag from the value and keeps the carry flag.
    cpu.execute(Instruction::LOAD(8));
    assert_eq!(cpu.registers.accumulator.read(), 1);
    assert!(!cpu.registers.zero_flag);
    assert!(cpu.registers.carry_flag);
    // STORE touches no flag.
    cpu.execute(Instruction::STORE(9));
    assert_eq!(cpu.memory.read(9), 1);
    assert!(cpu.registers.carry_flag);
    // CMP keeps the accumulator.
    cpu.execute(Instruction::CMP(8));
    assert_eq!(cpu.registers.accumulator.read(), 1);
    assert!(cpu.registers.zero_flag);
    assert!(cpu.registers.carry_flag);
    cpu.execute(Instruction::DEC);
    assert_eq!(cpu.registers.accumulator.read(), 0);
    assert!(cpu.registers.zero_flag);
    cpu.execute(Instruction::DEC);
    assert_eq!(cpu.registers.accumulator.read(), 15);
    assert!(!cpu.registers.carry_flag);
    cpu.execute(Instruction::INC);
    assert_eq!(cpu.registers.accumulator.read(), 0);
    assert!(cpu.registers.carry_flag);
    cpu.execute(Instruction::LDI(5));
    assert!(!cpu.registers.carry_flag);
    cpu.execute(Instruction::XOR(8));
    assert_eq!(cpu.registers.accumulator.read(), 4);
    cpu.execute(Instruction::OR(8));
    assert_eq!(cpu.registers.accumulator.read(), 5);
    cpu.execute(Instruction::AND(8));
    assert_eq!(cpu.registers.accumulator.read(), 1);
    cpu.execute(Instruction::SUB(8));
    assert_eq!(cpu.registers.accumulator.read(), 0);
    assert!(cpu.registers.zero_flag);
}

//! The processor: a fetch-decode-execute cycle over the memory, the registers
//! and the ALU.
//!
//! An instruction is one cell of memory holding its opcode, followed, for the
//! instructions that take one, by a second cell holding the operand.

use vstd::prelude::*;
use crate::alu::{alu_compute, ALUOperation, AluWiring, ALU};
use crate::memory::{memory_read, memory_write, Memory};
use crate::nibble::low_nibble;
use crate::registers::{wrapping_increment, CPURegisters, RegisterState};

verus! {

/// The instructions of the processor, in the order of their opcodes from 0x0
/// to 0xF.
#[derive(Debug, Clone, Copy, PartialEq, Eq, Structural)]
pub enum Instruction {
    /// Does nothing.
    NOP,
    /// Loads the cell at the address into the accumulator.
    LOAD(u8),
    /// Stores the accumulator in the cell at the address.
    STORE(u8),
    /// Adds the cell at the address to the accumulator.
    ADD(u8),
    /// Subtracts the cell at the address from the accumulator.
    SUB(u8),
    /// Combines the accumulator with the cell at the address by AND.
    AND(u8),
    /// Combines the accumulator with the cell at the address by OR.
    OR(u8),
    /// Combines the accumulator with the cell at the address by XOR.
    XOR(u8),
    /// Continues at the address.
    JUMP(u8),
    /// Continues at the address if the zero flag is up.
    JZ(u8),
    /// Loads the operand itself into the accumulator.
    LDI(u8),
    /// Adds one to the accumulator.
    INC,
    /// Subtracts one from the accumulator.
    DEC,
    /// Compares the accumulator with the cell at the address: sets the flags
    /// as a subtraction would, and keeps the accumulator.
    CMP(u8),
    /// Continues at the address if the zero flag is down.
    JNZ(u8),
    /// Stops the processor.
    HALT,
}

/// The instruction that an opcode stands for, given the cell that follows it.
/// A value that is no opcode stands for `NOP`.
pub open spec fn decode_instruction(opcode: u8, operand: u8) -> Instruction {
    if opcode == 0x1 {
        Instruction::LOAD(operand)
    } else if opcode == 0x2 {
        Instruction::STORE(operand)
    } else if opcode == 0x3 {
        Instruction::ADD(operand)
    } else if opcode == 0x4 {
        Instruction::SUB(operand)
    } else if opcode == 0x5 {
        Instruction::AND(operand)
    } else if opcode == 0x6 {
        Instruction::OR(operand)
    } else if opcode == 0x7 {
        Instruction::XOR(operand)
    } else if opcode == 0x8 {
        Instruction::JUMP(operand)
    } else if opcode == 0x9 {
        Instruction::JZ(operand)
    } else if opcode == 0xA {
        Instruction::LDI(operand)
    } else if opcode == 0xB {
        Instruction::INC
    } else if opcode == 0xC {
        Instruction::DEC
    } else if opcode == 0xD {
        Instruction::CMP(operand)
    } else if opcode == 0xE {
        Instruction::JNZ(operand)
    } else if opcode == 0xF {
        Instruction::HALT
    } else {
        Instruction::NOP
    }
}

/// The whole state of a processor.
pub struct CpuState {
    pub registers: RegisterState,
    pub memory: Seq<u8>,
    pub halted: bool,
    pub cycle_count: nat,
}

impl CpuState {
    /// A processor after a reset: registers and memory at 0, running, with no
    /// cycle counted.
    pub open spec fn initial() -> CpuState {
        CpuState {
            registers: RegisterState::initial(),
            memory: Seq::new(16, |i: int| 0u8),
            halted: false,
            cycle_count: 0,
        }
    }

    /// Whether the state is one that a processor can be in: sixteen cells,
    /// and a nibble in every cell and register.
    pub open spec fn well_formed(self) -> bool {
        &&& self.memory.len() == 16
        &&& forall|i: int| 0 <= i < 16 ==> self.memory[i] <= 15
        &&& self.registers.accumulator <= 15
        &&& self.registers.program_counter <= 15
        &&& self.registers.instruction_register <= 15
    }

    /// The cell at the program counter.
    pub open spec fn fetched(self) -> u8 {
        memory_read(self.memory, self.registers.program_counter)
    }

    /// The state after a fetch: the instruction register holds the cell at the
    /// program counter.
    pub open spec fn fetch(self) -> CpuState {
        CpuState {
            registers: RegisterState {
                instruction_register: low_nibble(self.fetched()),
                ..self.registers
            },
            ..self
        }
    }

    /// The cell after the one at the program counter, where an instruction
    /// keeps its operand. After cell 15 comes cell 0.
    pub open spec fn operand(self) -> u8 {
        memory_read(self.memory, low_nibble((self.registers.program_counter + 1) as u8))
    }

    /// The instruction that `opcode` stands for at the program counter.
    pub open spec fn decode(self, opcode: u8) -> Instruction {
        decode_instruction(opcode, self.operand())
    }

    /// The state with the program counter moved on by `cells`, wrapping
    /// around after cell 15.
    pub open spec fn advance(self, cells: nat) -> CpuState
        recommends
            cells <= 2,
    {
        let pc = self.registers.program_counter;
        let next = if cells == 0 {
            pc
        } else if cells == 1 {
            wrapping_increment(pc)
        } else {
            wrapping_increment(wrapping_increment(pc))
        };
        CpuState { registers: RegisterState { program_counter: next, ..self.registers }, ..self }
    }

    /// The state with the program counter at `address`.
    pub open spec fn jump(self, address: u8) -> CpuState {
        CpuState {
            registers: RegisterState { program_counter: low_nibble(address), ..self.registers },
            ..self
        }
    }

    /// The state after the accumulator and the cell at `address` went through
    /// the ALU: the accumulator holds the result, and both flags are set from
    /// it.
    pub open spec fn arithmetic(self, address: u8, operation: ALUOperation) -> CpuState {
        self.accumulate(memory_read(self.memory, address), operation)
    }

    /// The state after the accumulator and `operand` went through the ALU.
    pub open spec fn accumulate(self, operand: u8, operation: ALUOperation) -> CpuState {
        let out = alu_compute(self.registers.accumulator, operand, operation);
        CpuState {
            registers: RegisterState {
                accumulator: low_nibble(out.result),
                ..self.registers.with_flags(out.result, out.carry)
            },
            ..self
        }
    }

    /// The state after `instruction` is executed.
    ///
    /// `LOAD`, `LDI` and the instructions that go through the ALU set the
    /// flags; `LOAD` sets the zero flag alone and keeps the carry flag. A jump
    /// that is taken puts the address into the program counter. `HALT` stops
    /// the processor where it is. Every other instruction moves the program
    /// counter past itself: by one cell, or by two if it has an operand.
    pub open spec fn execute(self, instruction: Instruction) -> CpuState {
        match instruction {
            Instruction::NOP => self.advance(1),
            Instruction::LOAD(address) => {
                let value = memory_read(self.memory, address);
                CpuState {
                    registers: RegisterState {
                        accumulator: low_nibble(value),
                        ..self.registers.with_flags(value, self.registers.carry_flag)
                    },
                    ..self
                }.advance(2)
            },
            Instruction::STORE(address) => CpuState {
                memory: memory_write(self.memory, address, self.registers.accumulator),
                ..self
            }.advance(2),
            Instruction::ADD(address) => self.arithmetic(address, ALUOperation::Add).advance(2),
            Instruction::SUB(address) => self.arithmetic(address, ALUOperation::Subtract).advance(
                2,
            ),
            Instruction::AND(address) => self.arithmetic(address, ALUOperation::And).advance(2),
            Instruction::OR(address) => self.arithmetic(address, ALUOperation::Or).advance(2),
            Instruction::XOR(address) => self.arithmetic(address, ALUOperation::Xor).advance(2),
            Instruction::JUMP(address) => self.jump(address),
            Instruction::JZ(address) => if self.registers.zero_flag {
                self.jump(address)
            } else {
                self.advance(2)
            },
            Instruction::JNZ(address) => if !self.registers.zero_flag {
                self.jump(address)
            } else {
                self.advance(2)
            },
            Instruction::LDI(value) => CpuState {
                registers: RegisterState {
                    accumulator: low_nibble(value),
                    ..self.registers.with_flags(value, false)
                },
                ..self
            }.advance(2),
            Instruction::INC => self.accumulate(1, ALUOperation::Add).advance(1),
            Instruction::DEC => self.accumulate(1, ALUOperation::Subtract).advance(1),
            Instruction::CMP(address) => {
                let out = alu_compute(
                    self.registers.accumulator,
                    memory_read(self.memory, address),
                    ALUOperation::Subtract,
                );
                CpuState { registers: self.registers.with_flags(out.result, out.carry), ..self }
                    .advance(2)
            },
            Instruction::HALT => CpuState { halted: true, ..self },
        }
    }

    /// The state after one cycle: a halted processor stays as it is; a
    /// running one fetches, decodes and executes one instruction, and counts
    /// the cycle.
    pub open spec fn step(self) -> CpuState {
        if self.halted {
            self
        } else {
            let fetched = self.fetch();
            let after = fetched.execute(fetched.decode(self.fetched()));
            CpuState { cycle_count: self.cycle_count + 1, ..after }
        }
    }

    /// The state after running until the processor halts or its cycle count
    /// reaches `max_cycles`.
    pub open spec fn run(self, max_cycles: nat) -> CpuState
        decreases max_cycles - self.cycle_count,
    {
        if self.halted || self.cycle_count >= max_cycles {
            self
        } else {
            self.step().run(max_cycles)
        }
    }
}

/// A run never counts past its budget: it ends halted or with the cycle count
/// at `max_cycles`, unless the count was there or beyond at the start, in
/// which case nothing is executed at all.
pub proof fn lemma_run_is_bounded(state: CpuState, max_cycles: nat)
    ensures
        state.cycle_count >= max_cycles ==> state.run(max_cycles) == state,
        state.cycle_count <= max_cycles ==> state.run(max_cycles).cycle_count <= max_cycles,
        state.cycle_count <= state.run(max_cycles).cycle_count,
        state.run(max_cycles).cycle_count - state.cycle_count <= max_cycles,
        state.run(max_cycles).halted || state.run(max_cycles).cycle_count >= max_cycles,
    decreases max_cycles - state.cycle_count,
{
    if state.halted || state.cycle_count >= max_cycles {
    } else {
        lemma_run_is_bounded(state.step(), max_cycles);
    }
}

/// A halted processor does nothing: no cycle and no run changes its state.
pub proof fn lemma_halted_is_final(state: CpuState, max_cycles: nat)
    requires
        state.halted,
    ensures
        state.step() == state,
        state.run(max_cycles) == state,
{
}

/// Only `HALT` stops the processor: a running processor is halted after a
/// cycle exactly when the cell at its program counter holds the opcode 0xF.
pub proof fn lemma_only_halt_halts(state: CpuState)
    requires
        !state.halted,
    ensures
        state.step().halted <==> state.fetched() == 0xF,
{
}

/// No value ever exceeds four bits: a cycle takes a state with a nibble in
/// every cell and register to another such state, and so does a run. The
/// initial state is such a state.
pub proof fn lemma_nibbles_stay_nibbles(state: CpuState, max_cycles: nat)
    requires
        state.well_formed(),
    ensures
        CpuState::initial().well_formed(),
        state.step().well_formed(),
        state.run(max_cycles).well_formed(),
    decreases max_cycles - state.cycle_count,
{
    assert(forall|value: u8| #[trigger] low_nibble(value) <= 15) by {
        assert(forall|value: u8| #[trigger] (value & 0x0F) <= 15) by (bit_vector);
    }
    assert(forall|a: u8, b: u8| a <= 15 && b <= 15 ==> #[trigger] (a & b) <= 15) by (bit_vector);
    assert(forall|a: u8, b: u8| a <= 15 && b <= 15 ==> #[trigger] (a | b) <= 15) by (bit_vector);
    assert(forall|a: u8, b: u8| a <= 15 && b <= 15 ==> #[trigger] (a ^ b) <= 15) by (bit_vector);
    if !state.halted {
        let fetched = state.fetch();
        let instruction = fetched.decode(state.fetched());
        assert(fetched.well_formed());
        assert(fetched.execute(instruction).well_formed());
    }
    if !(state.halted || state.cycle_count >= max_cycles) {
        lemma_nibbles_stay_nibbles(state.step(), max_cycles);
    }
}

/// A four-bit processor.
pub struct SimpleCPU {
    pub registers: CPURegisters,
    pub memory: Memory,
    pub alu: ALU,
    pub halted: bool,
    pub cycle_count: usize,
}

impl View for SimpleCPU {
    type V = CpuState;

    open spec fn view(&self) -> CpuState {
        CpuState {
            registers: self.registers@,
            memory: self.memory@,
            halted: self.halted,
            cycle_count: self.cycle_count as nat,
        }
    }
}

impl SimpleCPU {
    /// Creates a processor in its initial state, with an ALU of its own.
    pub fn new() -> (cpu: Self)
        ensures
            cpu@ == CpuState::initial(),
            cpu.alu@ == AluWiring::standard(),
    {
        SimpleCPU {
            registers: CPURegisters::new(),
            memory: Memory::new(),
            alu: ALU::new(),
            halted: false,
            cycle_count: 0,
        }
    }

    /// Puts the processor back into its initial state: registers, memory,
    /// the halted flag and the cycle count together.
    pub fn reset(&mut self)
        ensures
            final(self)@ == CpuState::initial(),
    {
        self.registers.reset();
        self.memory.clear();
        self.halted = false;
        self.cycle_count = 0;
    }

    /// Copies a program to the start of memory.
    pub fn load_program(&mut self, program: &[u8])
        ensures
            final(self)@ == (CpuState {
                memory: crate::memory::memory_load(old(self)@.memory, program@),
                ..old(self)@
            }),
    {
        self.memory.load_program(program);
    }

    /// Reads the cell at the program counter into the instruction register,
    /// and returns it.
    pub fn fetch(&mut self) -> (opcode: u8)
        ensures
            opcode == old(self)@.fetched(),
            opcode <= 15,
            final(self)@ == old(self)@.fetch(),
    {
        let pc = self.registers.program_counter.read();
        let instruction = self.memory.read(pc);
        self.registers.instruction_register.write(instruction);
        instruction
    }

    /// Turns an opcode into an instruction. For the instructions that have an
    /// operand, it is read from the cell after the program counter.
    pub fn decode(&self, opcode: u8) -> (instruction: Instruction)
        ensures
            instruction == self@.decode(opcode),
    {
        let pc = self.registers.program_counter.read();
        match opcode {
            0x0 => Instruction::NOP,
            0x1 => Instruction::LOAD(self.memory.read((pc + 1) & 0x0F)),
            0x2 => Instruction::STORE(self.memory.read((pc + 1) & 0x0F)),
            0x3 => Instruction::ADD(self.memory.read((pc + 1) & 0x0F)),
            0x4 => Instruction::SUB(self.memory.read((pc + 1) & 0x0F)),
            0x5 => Instruction::AND(self.memory.read((pc + 1) & 0x0F)),
            0x6 => Instruction::OR(self.memory.read((pc + 1) & 0x0F)),
            0x7 => Instruction::XOR(self.memory.read((pc + 1) & 0x0F)),
            0x8 => Instruction::JUMP(self.memory.read((pc + 1) & 0x0F)),
            0x9 => Instruction::JZ(self.memory.read((pc + 1) & 0x0F)),
            0xA => Instruction::LDI(self.memory.read((pc + 1) & 0x0F)),
            0xB => Instruction::INC,
            0xC => Instruction::DEC,
            0xD => Instruction::CMP(self.memory.read((pc + 1) & 0x0F)),
            0xE => Instruction::JNZ(self.memory.read((pc + 1) & 0x0F)),
            0xF => Instruction::HALT,
            _ => Instruction::NOP,
        }
    }

    /// Sends the accumulator and `operand` through the ALU, and sets the
    /// accumulator and both flags from what comes out.
    fn accumulate(&mut self, operand: u8, operation: ALUOperation)
        ensures
            final(self)@ == old(self)@.accumulate(operand, operation),
    {
        let a = self.registers.accumulator.read();
        let result = self.alu.compute(a, operand, operation);
        self.registers.accumulator.write(result.result);
        self.registers.update_flags(result.result, result.carry);
    }

    /// Moves the program counter on by one cell.
    fn advance(&mut self)
        ensures
            final(self)@ == old(self)@.advance(1),
    {
        self.registers.program_counter.increment();
    }

    /// Executes one instruction.
    pub fn execute(&mut self, instruction: Instruction)
        ensures
            final(self)@ == old(self)@.execute(instruction),
    {
        match instruction {
            Instruction::NOP => {},
            Instruction::LOAD(addr) => {
                let value = self.memory.read(addr);
                let carry = self.registers.carry_flag;
                self.registers.accumulator.write(value);
                self.registers.update_flags(value, carry);
            },
            Instruction::STORE(addr) => {
                let value = self.registers.accumulator.read();
                self.memory.write(addr, value);
            },
            Instruction::ADD(addr) => {
                let b = self.memory.read(addr);
                self.accumulate(b, ALUOperation::Add);
            },
            Instruction::SUB(addr) => {
                let b = self.memory.read(addr);
                self.accumulate(b, ALUOperation::Subtract);
            },
            Instruction::AND(addr) => {
                let b = self.memory.read(addr);
                self.accumulate(b, ALUOperation::And);
            },
            Instruction::OR(addr) => {
                let b = self.memory.read(addr);
                self.accumulate(b, ALUOperation::Or);
            },
            Instruction::XOR(addr) => {
                let b = self.memory.read(addr);
                self.accumulate(b, ALUOperation::Xor);
            },
            Instruction::JUMP(addr) => {
                self.registers.program_counter.write(addr);
                return ;
            },
            Instruction::JZ(addr) => {
                if self.registers.zero_flag {
                    self.registers.program_counter.write(addr);
                    return ;
                } else {
                    self.advance();
                }
            },
            Instruction::JNZ(addr) => {
                if !self.registers.zero_flag {
                    self.registers.program_counter.write(addr);
                    return ;
                } else {
                    self.advance();
                }
            },
            Instruction::LDI(value) => {
                self.registers.accumulator.write(value);
                self.registers.update_flags(value, false);
            },
            Instruction::INC => {
                self.accumulate(1, ALUOperation::Add);
            },
            Instruction::DEC => {
                self.accumulate(1, ALUOperation::Subtract);
            },
            Instruction::CMP(addr) => {
                let a = self.registers.accumulator.read();
                let b = self.memory.read(addr);
                let result = self.alu.compute(a, b, ALUOperation::Subtract);
                self.registers.update_flags(result.result, result.carry);
            },
            Instruction::HALT => {
                self.halted = true;
                return ;
            },
        }
        let needs_extra_increment = match instruction {
            Instruction::LOAD(_)
            | Instruction::STORE(_)
            | Instruction::ADD(_)
            | Instruction::SUB(_)
            | Instruction::AND(_)
            | Instruction::OR(_)
            | Instruction::XOR(_)
            | Instruction::LDI(_)
            | Instruction::CMP(_) => true,
            _ => false,
        };
        self.advance();
        if needs_extra_increment {
            self.advance();
        }
    }

    /// Runs one cycle: fetch, decode, execute. A halted processor does
    /// nothing.
    pub fn cycle(&mut self)
        requires
            old(self).halted || old(self).cycle_count < usize::MAX,
        ensures
            final(self)@ == old(self)@.step(),
    {
        if self.halted {
            return ;
        }
        let instruction_byte = self.fetch();
        let instruction = self.decode(instruction_byte);
        self.execute(instruction);
        self.cycle_count += 1;
    }

    /// Runs cycles until the processor halts or its cycle count reaches
    /// `max_cycles`. The count is the one since the last reset, so this call
    /// executes at most `max_cycles` cycles, and none if the count is already
    /// there.
    pub fn run(&mut self, max_cycles: usize)
        ensures
            final(self)@ == old(self)@.run(max_cycles as nat),
            final(self).halted || final(self).cycle_count >= max_cycles,
            old(self).cycle_count <= final(self).cycle_count,
            final(self).cycle_count <= max_cycles || final(self).cycle_count == old(
                self,
            ).cycle_count,
            final(self).cycle_count - old(self).cycle_count <= max_cycles,
    {
        while !self.halted && self.cycle_count < max_cycles
            invariant
                self@.run(max_cycles as nat) == old(self)@.run(max_cycles as nat),
                old(self).cycle_count <= self.cycle_count,
                self.cycle_count <= max_cycles || self.cycle_count == old(self).cycle_count,
            decreases max_cycles - self.cycle_count,
        {
            self.cycle();
        }
    }
}

impl Default for SimpleCPU {
    fn default() -> (cpu: Self)
        ensures
            cpu@ == CpuState::initial(),
            cpu.alu@ == AluWiring::standard(),
    {
        Self::new()
    }
}

} // verus!

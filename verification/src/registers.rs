//! The registers of the processor: three four-bit registers and two flags.

use vstd::prelude::*;
use crate::nibble::{lemma_low_nibble_is_remainder, low_nibble};

verus! {

/// A register that holds a nibble.
#[derive(Debug, Clone, Copy)]
pub struct Register4Bit {
    value: u8,
}

impl View for Register4Bit {
    type V = u8;

    /// The nibble the register holds.
    closed spec fn view(&self) -> u8 {
        self.value
    }
}

/// The successor of a nibble, wrapping from 15 to 0.
pub open spec fn wrapping_increment(value: u8) -> u8 {
    ((value + 1) % 16) as u8
}

/// The predecessor of a nibble, wrapping from 0 to 15.
pub open spec fn wrapping_decrement(value: u8) -> u8 {
    if value == 0 {
        15
    } else {
        (value - 1) as u8
    }
}

impl Register4Bit {
    /// A register never holds more than four bits.
    #[verifier::type_invariant]
    spec fn holds_nibble(&self) -> bool {
        self.value <= 15
    }

    /// Creates a register that holds 0.
    pub fn new() -> (register: Self)
        ensures
            register@ == 0,
    {
        Register4Bit { value: 0 }
    }

    /// Creates a register that holds the four low bits of `value`.
    pub fn with_value(value: u8) -> (register: Self)
        ensures
            register@ == low_nibble(value),
    {
        proof {
            lemma_low_nibble_is_remainder(value);
        }
        Register4Bit { value: value & 0x0F }
    }

    /// Reads the register.
    pub fn read(&self) -> (value: u8)
        ensures
            value == self@,
            value <= 15,
    {
        proof {
            use_type_invariant(self);
        }
        self.value
    }

    /// Stores the four low bits of `value` in the register.
    pub fn write(&mut self, value: u8)
        ensures
            final(self)@ == low_nibble(value),
    {
        proof {
            lemma_low_nibble_is_remainder(value);
        }
        self.value = value & 0x0F;
    }

    /// Adds one, wrapping from 15 to 0.
    pub fn increment(&mut self)
        ensures
            final(self)@ == wrapping_increment(old(self)@),
    {
        proof {
            use_type_invariant(&*self);
            lemma_low_nibble_is_remainder((self.value + 1) as u8);
        }
        self.value = (self.value + 1) & 0x0F;
    }

    /// Subtracts one, wrapping from 0 to 15.
    pub fn decrement(&mut self)
        ensures
            final(self)@ == wrapping_decrement(old(self)@),
    {
        proof {
            use_type_invariant(&*self);
        }
        if self.value == 0 {
            self.value = 0xF;
        } else {
            self.value -= 1;
        }
    }

    /// Sets the register to 0.
    pub fn clear(&mut self)
        ensures
            final(self)@ == 0,
    {
        self.value = 0;
    }

    /// Whether the register holds 0.
    pub fn is_zero(&self) -> (zero: bool)
        ensures
            zero == (self@ == 0),
    {
        self.value == 0
    }
}

impl Default for Register4Bit {
    fn default() -> (register: Self)
        ensures
            register@ == 0,
    {
        Self::new()
    }
}

/// What a set of registers holds.
pub struct RegisterState {
    pub accumulator: u8,
    pub program_counter: u8,
    pub instruction_register: u8,
    pub zero_flag: bool,
    pub carry_flag: bool,
}

impl RegisterState {
    /// The registers after a reset: all at 0, both flags down.
    pub open spec fn initial() -> RegisterState {
        RegisterState {
            accumulator: 0,
            program_counter: 0,
            instruction_register: 0,
            zero_flag: false,
            carry_flag: false,
        }
    }

    /// The registers after the flags are set from a result and its carry.
    /// Both flags are overwritten: the zero flag tells whether the four low
    /// bits of `value` are all 0.
    pub open spec fn with_flags(self, value: u8, carry: bool) -> RegisterState {
        RegisterState { zero_flag: low_nibble(value) == 0, carry_flag: carry, ..self }
    }
}

/// The registers of the processor.
#[derive(Debug)]
pub struct CPURegisters {
    /// The working register of every arithmetic and logic instruction.
    pub accumulator: Register4Bit,
    /// The address of the next instruction.
    pub program_counter: Register4Bit,
    /// The instruction that was fetched last.
    pub instruction_register: Register4Bit,
    /// Whether the last result was 0.
    pub zero_flag: bool,
    /// Whether the last operation carried.
    pub carry_flag: bool,
}

impl View for CPURegisters {
    type V = RegisterState;

    open spec fn view(&self) -> RegisterState {
        RegisterState {
            accumulator: self.accumulator@,
            program_counter: self.program_counter@,
            instruction_register: self.instruction_register@,
            zero_flag: self.zero_flag,
            carry_flag: self.carry_flag,
        }
    }
}

impl CPURegisters {
    /// Creates a set of registers, all at 0 and both flags down.
    pub fn new() -> (registers: Self)
        ensures
            registers@ == RegisterState::initial(),
    {
        CPURegisters {
            accumulator: Register4Bit::new(),
            program_counter: Register4Bit::new(),
            instruction_register: Register4Bit::new(),
            zero_flag: false,
            carry_flag: false,
        }
    }

    /// Sets every register to 0 and lowers both flags.
    pub fn reset(&mut self)
        ensures
            final(self)@ == RegisterState::initial(),
    {
        self.accumulator.clear();
        self.program_counter.clear();
        self.instruction_register.clear();
        self.zero_flag = false;
        self.carry_flag = false;
    }

    /// Sets both flags from a result and its carry.
    pub fn update_flags(&mut self, value: u8, carry: bool)
        ensures
            final(self)@ == old(self)@.with_flags(value, carry),
    {
        self.zero_flag = (value & 0x0F) == 0;
        self.carry_flag = carry;
    }
}

impl Default for CPURegisters {
    fn default() -> (registers: Self)
        ensures
            registers@ == RegisterState::initial(),
    {
        Self::new()
    }
}

} // verus!

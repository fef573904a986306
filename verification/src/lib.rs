//! A simulated four-bit computer, built up in layers: boolean gates, half and
//! full adders, an arithmetic logic unit, sixteen cells of memory, a register
//! file and a fetch-decode-execute processor, together with an assembler for
//! its instruction set and a small expression language compiled onto it.
//!
//! Every function is verified against a contract stated over a plain
//! mathematical model of the machine. Three functions of the standard
//! library are taken on trust, each where it is used: `String::push`,
//! `str::to_uppercase` and `char::is_alphanumeric`.

pub mod nibble;
pub mod gates;
pub mod half_adder;
pub mod full_adder;
pub mod alu;
pub mod memory;
pub mod registers;
pub mod cpu;
pub mod text;
pub mod assembler;
pub mod parser;
pub mod interpreter;

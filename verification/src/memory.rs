//! Sixteen cells of four bits each. Addresses and values are reduced to four
//! bits on every access: an address never fails, it wraps around.

use vstd::prelude::*;
use crate::nibble::{lemma_low_nibble_is_remainder, low_nibble};

verus! {

/// One cell of memory: it holds a nibble.
#[derive(Debug, Clone, Copy)]
pub struct MemoryCell {
    data: u8,
}

impl View for MemoryCell {
    type V = u8;

    /// The nibble the cell holds.
    closed spec fn view(&self) -> u8 {
        self.data
    }
}

impl MemoryCell {
    /// A cell never holds more than four bits.
    #[verifier::type_invariant]
    spec fn holds_nibble(&self) -> bool {
        self.data <= 15
    }

    /// Creates a cell that holds 0.
    pub fn new() -> (cell: Self)
        ensures
            cell@ == 0,
    {
        MemoryCell { data: 0 }
    }

    /// Creates a cell that holds the four low bits of `value`.
    pub fn with_value(value: u8) -> (cell: Self)
        ensures
            cell@ == low_nibble(value),
    {
        proof {
            lemma_low_nibble_is_remainder(value);
        }
        MemoryCell { data: value & 0x0F }
    }

    /// Reads the cell.
    pub fn read(&self) -> (value: u8)
        ensures
            value == self@,
            value <= 15,
    {
        proof {
            use_type_invariant(self);
        }
        self.data
    }

    /// Stores the four low bits of `value` in the cell.
    pub fn write(&mut self, value: u8)
        ensures
            final(self)@ == low_nibble(value),
    {
        proof {
            lemma_low_nibble_is_remainder(value);
        }
        self.data = value & 0x0F;
    }
}

impl Default for MemoryCell {
    fn default() -> (cell: Self)
        ensures
            cell@ == 0,
    {
        Self::new()
    }
}

/// The cells after storing `value` at `address`: both are reduced to four
/// bits first.
pub open spec fn memory_write(cells: Seq<u8>, address: u8, value: u8) -> Seq<u8> {
    cells.update(low_nibble(address) as int, low_nibble(value))
}

/// The cell that `address` selects, after reduction to four bits.
pub open spec fn memory_read(cells: Seq<u8>, address: u8) -> u8 {
    cells[low_nibble(address) as int]
}

/// The cells after copying `program` to the start of memory: byte `i` of the
/// program, reduced to four bits, goes to cell `i`; bytes from the
/// seventeenth on are dropped, and cells beyond the program keep their value.
pub open spec fn memory_load(cells: Seq<u8>, program: Seq<u8>) -> Seq<u8> {
    Seq::new(
        cells.len(),
        |i: int|
            if i < program.len() {
                low_nibble(program[i])
            } else {
                cells[i]
            },
    )
}

/// The cells that `init_test_data` sets: a short program that adds two
/// numbers, followed by its data.
pub open spec fn test_data() -> Seq<u8> {
    seq![0x1u8, 0x5, 0x3, 0x6, 0x2, 0x7, 0xF, 0x0, 0x3, 0x5, 0x0]
}

/// A write through any address lands where the write through its four low
/// bits lands: addresses wrap around at 16.
pub proof fn lemma_write_address_wraps(cells: Seq<u8>, address: u8, value: u8)
    ensures
        memory_write(cells, address, value) == memory_write(cells, low_nibble(address), value),
        memory_write(cells, address, value) == memory_write(cells, (address % 16) as u8, value),
{
    crate::nibble::lemma_mask_idempotent(address);
    lemma_low_nibble_is_remainder(address);
}

/// A bank of sixteen cells.
#[derive(Debug)]
pub struct Memory {
    cells: [MemoryCell; 16],
}

impl View for Memory {
    type V = Seq<u8>;

    /// The contents of the sixteen cells, by address.
    closed spec fn view(&self) -> Seq<u8> {
        Seq::new(16, |i: int| self.cells[i]@)
    }
}

impl Memory {
    /// A memory bank always has sixteen cells.
    pub broadcast proof fn lemma_size(&self)
        ensures
            #[trigger] self@.len() == 16,
    {
    }

    /// Creates a memory bank with every cell at 0.
    pub fn new() -> (memory: Self)
        ensures
            memory@ == Seq::new(16, |i: int| 0u8),
    {
        let memory = Memory { cells: [MemoryCell::new();16] };
        assert(memory@ =~= Seq::new(16, |i: int| 0u8));
        memory
    }

    /// Reads the cell at `address`.
    pub fn read(&self, address: u8) -> (value: u8)
        ensures
            value == memory_read(self@, address),
            value <= 15,
    {
        proof {
            lemma_low_nibble_is_remainder(address);
        }
        let addr = (address & 0x0F) as usize;
        self.cells[addr].read()
    }

    /// Stores the four low bits of `value` at `address`.
    pub fn write(&mut self, address: u8, value: u8)
        ensures
            final(self)@ == memory_write(old(self)@, address, value),
    {
        proof {
            lemma_low_nibble_is_remainder(address);
        }
        let addr = (address & 0x0F) as usize;
        self.cells[addr].write(value);
        assert(self@ =~= memory_write(old(self)@, address, value));
    }

    /// Copies `program` to the start of memory, cell by cell from address 0.
    /// A program longer than the memory is cut off after sixteen bytes.
    pub fn load_program(&mut self, program: &[u8])
        ensures
            final(self)@ == memory_load(old(self)@, program@),
    {
        let mut i: usize = 0;
        while i < program.len() && i < 16
            invariant
                i <= 16,
                i <= program.len(),
                self@.len() == 16,
                forall|j: int| 0 <= j < i ==> self@[j] == low_nibble(program[j]),
                forall|j: int| i <= j < 16 ==> self@[j] == old(self)@[j],
            decreases 16 - i,
        {
            proof {
                lemma_low_nibble_is_remainder(i as u8);
                crate::nibble::lemma_low_nibble_of_nibble(i as u8);
            }
            self.write(i as u8, program[i]);
            i += 1;
        }
        assert(self@ =~= memory_load(old(self)@, program@));
    }

    /// A copy of the sixteen cells, by address.
    pub fn dump(&self) -> (cells: [u8; 16])
        ensures
            cells@ == self@,
    {
        let mut dump = [0u8;16];
        for i in 0..16usize
            invariant
                forall|j: int| 0 <= j < i ==> dump[j] == self@[j],
        {
            dump[i] = self.cells[i].read();
        }
        assert(dump@ =~= self@);
        dump
    }

    /// Sets every cell to 0.
    pub fn clear(&mut self)
        ensures
            final(self)@ == Seq::new(16, |i: int| 0u8),
    {
        for i in 0..16usize
            invariant
                self@.len() == 16,
                forall|j: int| 0 <= j < i ==> self@[j] == 0,
        {
            proof {
                crate::nibble::lemma_low_nibble_of_nibble(i as u8);
                crate::nibble::lemma_low_nibble_of_nibble(0);
            }
            self.write(i as u8, 0);
        }
        assert(self@ =~= Seq::new(16, |i: int| 0u8));
    }

    /// Fills the first eleven cells with a sample program and its data; the
    /// last five cells keep their value.
    pub fn init_test_data(&mut self)
        ensures
            final(self)@ == test_data() + old(self)@.subrange(11, 16),
    {
        proof {
            assert(forall|v: u8| v <= 15 ==> #[trigger] (v & 0x0F) == v) by (bit_vector);
        }
        self.write(0x0, 0x1);
        self.write(0x1, 0x5);
        self.write(0x2, 0x3);
        self.write(0x3, 0x6);
        self.write(0x4, 0x2);
        self.write(0x5, 0x7);
        self.write(0x6, 0xF);
        self.write(0x7, 0x0);
        self.write(0x8, 0x3);
        self.write(0x9, 0x5);
        self.write(0xA, 0x0);
        assert(self@ =~= test_data() + old(self)@.subrange(11, 16));
    }
}

impl Default for Memory {
    fn default() -> (memory: Self)
        ensures
            memory@ == Seq::new(16, |i: int| 0u8),
    {
        Self::new()
    }
}

} // verus!

//! The assembler and the disassembler for the processor's instruction set.
//!
//! Assembly works in two phases. The first reads the source line by line: it
//! drops comments and blank lines, records each label with the address it
//! stands at, and reads each instruction as a mnemonic with an optional
//! operand. The second turns the instructions into bytes.

use vstd::prelude::*;
use crate::text::{
    agrees, byte_from_digits, chars_of, copy_range, decimal, find_char, find_non_space, find_space, hex,
    hex_two, parse_byte, position_of, position_of_non_space, position_of_space, push_all,
    push_decimal, push_hex, push_hex_two, push_str, same_chars, starts_with, string_of, trim,
    trimmed,
};

verus! {

/// The upper-case form of a text, as `str::to_uppercase` gives it: each
/// character replaced by its upper-case equivalent under the Unicode
/// property `Uppercase`, which may be more than one character.
pub uninterp spec fn uppercase(text: Seq<char>) -> Seq<char>;

/// Calls `str::to_uppercase` on the text made of `chars`. Nothing is claimed
/// of the result but that it is the upper-case form of the text.
#[verifier::external_body]
fn to_uppercase(chars: &[char]) -> (upper: Vec<char>)
    ensures
        upper@ == uppercase(chars@),
{
    let text: String = chars.iter().collect();
    text.to_uppercase().chars().collect()
}

/// Whether `chars` spell `word`.
fn is_word(chars: &[char], word: &str) -> (same: bool)
    ensures
        same == (chars@ == word@),
{
    let word_chars = chars_of(word);
    same_chars(chars, word_chars.as_slice())
}

/// The opcode of a mnemonic. `LD`, `ST`, `JMP` and `HLT` are other names for
/// `LOAD`, `STORE`, `JUMP` and `HALT`.
pub open spec fn opcode_of(mnemonic: Seq<char>) -> Option<u8> {
    if mnemonic == "NOP"@ {
        Some(0x0u8)
    } else if mnemonic == "LOAD"@ || mnemonic == "LD"@ {
        Some(0x1u8)
    } else if mnemonic == "STORE"@ || mnemonic == "ST"@ {
        Some(0x2u8)
    } else if mnemonic == "ADD"@ {
        Some(0x3u8)
    } else if mnemonic == "SUB"@ {
        Some(0x4u8)
    } else if mnemonic == "AND"@ {
        Some(0x5u8)
    } else if mnemonic == "OR"@ {
        Some(0x6u8)
    } else if mnemonic == "XOR"@ {
        Some(0x7u8)
    } else if mnemonic == "JUMP"@ || mnemonic == "JMP"@ {
        Some(0x8u8)
    } else if mnemonic == "JZ"@ {
        Some(0x9u8)
    } else if mnemonic == "LDI"@ {
        Some(0xAu8)
    } else if mnemonic == "INC"@ {
        Some(0xBu8)
    } else if mnemonic == "DEC"@ {
        Some(0xCu8)
    } else if mnemonic == "CMP"@ {
        Some(0xDu8)
    } else if mnemonic == "JNZ"@ {
        Some(0xEu8)
    } else if mnemonic == "HALT"@ || mnemonic == "HLT"@ {
        Some(0xFu8)
    } else {
        None
    }
}

/// The number of bytes an instruction takes: one for `NOP`, `INC`, `DEC`,
/// `HALT` and `HLT`, which have no operand, and two for every other
/// mnemonic.
pub open spec fn size_of(mnemonic: Seq<char>) -> nat {
    if mnemonic == "NOP"@ || mnemonic == "INC"@ || mnemonic == "DEC"@ || mnemonic == "HALT"@
        || mnemonic == "HLT"@ {
        1
    } else {
        2
    }
}

/// The message for a mnemonic that names no instruction.
pub open spec fn unknown_instruction(mnemonic: Seq<char>) -> Seq<char> {
    "Unknown instruction: "@ + mnemonic
}

/// The message for an instruction that lacks the operand it needs.
pub open spec fn operand_required(mnemonic: Seq<char>) -> Seq<char> {
    "Instruction "@ + mnemonic + " requires operand"@
}

/// A message with the number of the source line it is about.
pub open spec fn at_line(message: Seq<char>, line: nat) -> Seq<char> {
    message + " at line "@ + decimal(line)
}

/// The message for an operand that begins like a hexadecimal number and is
/// none that fits in a byte.
pub open spec fn invalid_hex(operand: Seq<char>, line: nat) -> Seq<char> {
    "Invalid hex number at line "@ + decimal(line) + ": '"@ + operand + "' (hex part: '"@
        + operand.skip(2) + "')"@
}

/// The message for an operand made of decimal digits that fits in no byte.
pub open spec fn invalid_number(operand: Seq<char>, line: nat) -> Seq<char> {
    "Invalid number at line "@ + decimal(line) + ": '"@ + operand + "'"@
}

/// The message for an operand that is no number.
pub open spec fn invalid_operand(operand: Seq<char>, line: nat) -> Seq<char> {
    "Invalid operand at line "@ + decimal(line) + ": '"@ + operand
        + "' (not a number or valid label)"@
}

/// The message for an operand that is a number above 15.
pub open spec fn out_of_range(value: u8, line: nat) -> Seq<char> {
    "Value "@ + decimal(value as nat) + " exceeds 4-bit range (0-15) at line "@ + decimal(line)
}

/// Whether every character of `text` is one of `0` to `9`.
pub open spec fn is_decimal(text: Seq<char>) -> bool {
    forall|i: int| 0 <= i < text.len() ==> '0' <= #[trigger] text[i] <= '9'
}

/// The value of an operand on source line `line`, or the message that
/// rejects it.
///
/// An operand that begins with `0x` or `0X` is read as hexadecimal, one made
/// of the digits `0` to `9` alone as decimal. The value must be a nibble: a
/// larger one is rejected, not reduced. Anything else, a label's name too, is
/// no operand.
pub open spec fn operand_value(operand: Seq<char>, line: nat) -> Result<u8, Seq<char>> {
    if starts_with(operand, "0x"@) || starts_with(operand, "0X"@) {
        match parse_byte(operand.skip(2), 16) {
            None => Err(invalid_hex(operand, line)),
            Some(value) => if value > 15 {
                Err(out_of_range(value, line))
            } else {
                Ok(value)
            },
        }
    } else if is_decimal(operand) {
        match parse_byte(operand, 10) {
            None => Err(invalid_number(operand, line)),
            Some(value) => if value > 15 {
                Err(out_of_range(value, line))
            } else {
                Ok(value)
            },
        }
    } else {
        Err(invalid_operand(operand, line))
    }
}

/// Tells whether every character of `chars` is one of `0` to `9`.
fn all_decimal(chars: &[char]) -> (decimal: bool)
    ensures
        decimal == is_decimal(chars@),
{
    let mut i: usize = 0;
    while i < chars.len()
        invariant
            i <= chars.len(),
            forall|j: int| 0 <= j < i ==> '0' <= #[trigger] chars@[j] <= '9',
        decreases chars.len() - i,
    {
        if !(chars[i] >= '0' && chars[i] <= '9') {
            return false;
        }
        i += 1;
    }
    true
}

/// The message for a value above 15.
fn range_error(value: u8, line: usize) -> (message: String)
    ensures
        message@ == out_of_range(value, line as nat),
{
    let mut out: Vec<char> = Vec::new();
    push_str(&mut out, "Value ");
    push_decimal(&mut out, value as usize);
    push_str(&mut out, " exceeds 4-bit range (0-15) at line ");
    push_decimal(&mut out, line);
    assert(out@ =~= out_of_range(value, line as nat));
    string_of(out.as_slice())
}

/// Reads an operand on source line `line`.
fn read_operand(operand: &[char], line: usize) -> (result: Result<u8, String>)
    ensures
        agrees(result, operand_value(operand@, line as nat)),
{
    let lower = chars_of("0x");
    let upper = chars_of("0X");
    proof {
        reveal_strlit("0x");
        reveal_strlit("0X");
    }
    if crate::text::holds_at(operand, lower.as_slice(), 0) || crate::text::holds_at(
        operand,
        upper.as_slice(),
        0,
    ) {
        let hex_part = copy_range(operand, 2, operand.len());
        assert(hex_part@ =~= operand@.skip(2));
        match byte_from_digits(hex_part.as_slice(), 16) {
            None => {
                let mut out: Vec<char> = Vec::new();
                push_str(&mut out, "Invalid hex number at line ");
                push_decimal(&mut out, line);
                push_str(&mut out, ": '");
                push_all(&mut out, operand);
                push_str(&mut out, "' (hex part: '");
                push_all(&mut out, hex_part.as_slice());
                push_str(&mut out, "')");
                assert(out@ =~= invalid_hex(operand@, line as nat));
                Err(string_of(out.as_slice()))
            },
            Some(value) => {
                if value > 15 {
                    Err(range_error(value, line))
                } else {
                    Ok(value)
                }
            },
        }
    } else if all_decimal(operand) {
        match byte_from_digits(operand, 10) {
            None => {
                let mut out: Vec<char> = Vec::new();
                push_str(&mut out, "Invalid number at line ");
                push_decimal(&mut out, line);
                push_str(&mut out, ": '");
                push_all(&mut out, operand);
                push_str(&mut out, "'");
                assert(out@ =~= invalid_number(operand@, line as nat));
                Err(string_of(out.as_slice()))
            },
            Some(value) => {
                if value > 15 {
                    Err(range_error(value, line))
                } else {
                    Ok(value)
                }
            },
        }
    } else {
        let mut out: Vec<char> = Vec::new();
        push_str(&mut out, "Invalid operand at line ");
        push_decimal(&mut out, line);
        push_str(&mut out, ": '");
        push_all(&mut out, operand);
        push_str(&mut out, "' (not a number or valid label)");
        assert(out@ =~= invalid_operand(operand@, line as nat));
        Err(string_of(out.as_slice()))
    }
}

/// Finds the opcode of a mnemonic.
fn find_opcode(mnemonic: &[char]) -> (opcode: Option<u8>)
    ensures
        opcode == opcode_of(mnemonic@),
{
    if is_word(mnemonic, "NOP") {
        Some(0x0)
    } else if is_word(mnemonic, "LOAD") || is_word(mnemonic, "LD") {
        Some(0x1)
    } else if is_word(mnemonic, "STORE") || is_word(mnemonic, "ST") {
        Some(0x2)
    } else if is_word(mnemonic, "ADD") {
        Some(0x3)
    } else if is_word(mnemonic, "SUB") {
        Some(0x4)
    } else if is_word(mnemonic, "AND") {
        Some(0x5)
    } else if is_word(mnemonic, "OR") {
        Some(0x6)
    } else if is_word(mnemonic, "XOR") {
        Some(0x7)
    } else if is_word(mnemonic, "JUMP") || is_word(mnemonic, "JMP") {
        Some(0x8)
    } else if is_word(mnemonic, "JZ") {
        Some(0x9)
    } else if is_word(mnemonic, "LDI") {
        Some(0xA)
    } else if is_word(mnemonic, "INC") {
        Some(0xB)
    } else if is_word(mnemonic, "DEC") {
        Some(0xC)
    } else if is_word(mnemonic, "CMP") {
        Some(0xD)
    } else if is_word(mnemonic, "JNZ") {
        Some(0xE)
    } else if is_word(mnemonic, "HALT") || is_word(mnemonic, "HLT") {
        Some(0xF)
    } else {
        None
    }
}

/// Tells how many bytes an instruction takes.
fn find_size(mnemonic: &[char]) -> (size: usize)
    ensures
        size == size_of(mnemonic@),
{
    if is_word(mnemonic, "NOP") || is_word(mnemonic, "INC") || is_word(mnemonic, "DEC") || is_word(
        mnemonic,
        "HALT",
    ) || is_word(mnemonic, "HLT") {
        1
    } else {
        2
    }
}

/// One instruction as the first phase reads it.
pub struct AsmLine {
    /// The mnemonic, in upper case.
    pub opcode: Seq<char>,
    /// The operand, if the line has one.
    pub operand: Option<u8>,
    /// The number of the source line, counted from 1.
    pub line: nat,
}

/// One instruction as the first phase reads it: a mnemonic in upper case, the
/// operand if the line has one, and the number of the source line.
#[derive(Debug, Clone)]
pub struct AsmInstruction {
    pub opcode: String,
    pub operand: Option<u8>,
    pub line: usize,
}

impl View for AsmInstruction {
    type V = AsmLine;

    open spec fn view(&self) -> AsmLine {
        AsmLine { opcode: self.opcode@, operand: self.operand, line: self.line as nat }
    }
}

/// What one line of source says.
pub enum SourceLine {
    /// Nothing: the line is empty or a comment.
    Blank,
    /// The definition of a label.
    Label(Seq<char>),
    /// An instruction.
    Code(AsmLine),
    /// Something that cannot be read, with the message that says why.
    Bad(Seq<char>),
}

/// `s` without the colons at its end.
pub open spec fn strip_colons(s: Seq<char>) -> Seq<char>
    decreases s.len(),
{
    if s.len() > 0 && s.last() == ':' {
        strip_colons(s.drop_last())
    } else {
        s
    }
}

/// The instruction with the upper-case mnemonic `mnemonic` and the operand
/// text `operand` on source line `line`. An empty text means that there is no
/// operand.
pub open spec fn instruction_line(mnemonic: Seq<char>, operand: Seq<char>, line: nat) -> SourceLine {
    if operand.len() == 0 {
        SourceLine::Code(AsmLine { opcode: mnemonic, operand: None, line })
    } else {
        match operand_value(operand, line) {
            Ok(value) => SourceLine::Code(AsmLine { opcode: mnemonic, operand: Some(value), line }),
            Err(message) => SourceLine::Bad(message),
        }
    }
}

/// The first word of a line that is trimmed: its mnemonic as written.
pub open spec fn mnemonic_text(text: Seq<char>) -> Seq<char> {
    text.take(find_space(text, 0))
}

/// The operand text of a line that is trimmed: its second word, up to the
/// first `;` in it. It is empty if the line has one word only.
pub open spec fn operand_text(text: Seq<char>) -> Seq<char> {
    let start = find_non_space(text, find_space(text, 0));
    let word = text.subrange(start, find_space(text, start));
    word.take(find_char(word, ';', 0))
}

/// What the line `line`, the `number`-th of the source, says.
///
/// White space at either end does not count. A line that is empty or begins
/// with `;` says nothing. A line that ends in `:` defines the label before
/// the colons. Any other line is an instruction: its first word, in upper
/// case, is the mnemonic, and its second word, if there is one, the operand;
/// a `;` ends the operand, and further words are not read.
pub open spec fn read_line(line: Seq<char>, number: nat) -> SourceLine {
    let text = trim(line);
    if text.len() == 0 || text[0] == ';' {
        SourceLine::Blank
    } else if text.last() == ':' {
        SourceLine::Label(strip_colons(text))
    } else {
        instruction_line(uppercase(mnemonic_text(text)), operand_text(text), number)
    }
}

/// What the first phase has gathered.
pub struct Listing {
    /// The instructions, in source order.
    pub instructions: Seq<AsmLine>,
    /// The labels with their addresses, in source order.
    pub labels: Seq<(Seq<char>, nat)>,
    /// The address of the next instruction.
    pub address: nat,
}

impl Listing {
    /// A listing with nothing in it, at address 0.
    pub open spec fn empty() -> Listing {
        Listing { instructions: Seq::empty(), labels: Seq::empty(), address: 0 }
    }

    /// The listing after one more line. A label is bound to the address of
    /// the next instruction; an instruction moves that address on by its
    /// size.
    pub open spec fn add(self, line: SourceLine) -> Listing {
        match line {
            SourceLine::Label(name) => Listing {
                labels: self.labels.push((name, self.address)),
                ..self
            },
            SourceLine::Code(instruction) => Listing {
                instructions: self.instructions.push(instruction),
                address: self.address + size_of(instruction.opcode),
                ..self
            },
            _ => self,
        }
    }
}

/// What the source says from position `from` on, where line `number` begins,
/// added to `so_far`; or the message of the first line that cannot be read.
/// Lines end at a line feed.
pub open spec fn read_source(source: Seq<char>, from: int, number: nat, so_far: Listing) -> Result<
    Listing,
    Seq<char>,
>
    decreases source.len() - from,
{
    let end = find_char(source, '\n', from);
    match read_line(source.subrange(from, end), number) {
        SourceLine::Bad(message) => Err(message),
        line => if 0 <= from <= end < source.len() {
            read_source(source, end + 1, number + 1, so_far.add(line))
        } else {
            Ok(so_far.add(line))
        },
    }
}

/// The address that `name` is bound to: that of its last definition.
pub open spec fn label_address(labels: Seq<(Seq<char>, nat)>, name: Seq<char>) -> Option<nat>
    decreases labels.len(),
{
    if labels.len() == 0 {
        None
    } else if labels.last().0 == name {
        Some(labels.last().1)
    } else {
        label_address(labels.drop_last(), name)
    }
}

/// What the exec form of a source line holds.
pub enum ParsedLine {
    Blank,
    Label(String),
    Code(AsmInstruction),
}

impl View for ParsedLine {
    type V = SourceLine;

    open spec fn view(&self) -> SourceLine {
        match self {
            ParsedLine::Blank => SourceLine::Blank,
            ParsedLine::Label(name) => SourceLine::Label(name@),
            ParsedLine::Code(instruction) => SourceLine::Code(instruction@),
        }
    }
}

/// Whether `result` is what `expected` says: the same line, or the message.
pub open spec fn line_agrees(result: Result<ParsedLine, String>, expected: SourceLine) -> bool {
    match expected {
        SourceLine::Bad(message) => result is Err && result->Err_0@ == message,
        line => result is Ok && result->Ok_0@ == line,
    }
}

/// Builds the instruction with the upper-case mnemonic `mnemonic` and the
/// operand text `operand` on source line `line`.
pub fn instruction_from(mnemonic: &[char], operand: &[char], line: usize) -> (result: Result<
    ParsedLine,
    String,
>)
    ensures
        line_agrees(result, instruction_line(mnemonic@, operand@, line as nat)),
{
    if operand.len() == 0 {
        Ok(ParsedLine::Code(AsmInstruction { opcode: string_of(mnemonic), operand: None, line }))
    } else {
        match read_operand(operand, line) {
            Ok(value) => Ok(
                ParsedLine::Code(
                    AsmInstruction { opcode: string_of(mnemonic), operand: Some(value), line },
                ),
            ),
            Err(message) => Err(message),
        }
    }
}

/// Reads the line `line`, the `number`-th of the source.
pub fn parse_line(line: &[char], number: usize) -> (result: Result<ParsedLine, String>)
    ensures
        line_agrees(result, read_line(line@, number as nat)),
{
    let text = trimmed(line);
    if text.len() == 0 || text[0] == ';' {
        return Ok(ParsedLine::Blank);
    }
    if text[text.len() - 1] == ':' {
        let mut end: usize = text.len();
        assert(text@.take(end as int) =~= text@);
        while end > 0 && text[end - 1] == ':'
            invariant
                end <= text.len(),
                strip_colons(text@) == strip_colons(text@.take(end as int)),
            decreases end,
        {
            assert(text@.take(end as int).drop_last() =~= text@.take(end - 1));
            end -= 1;
        }
        let name = copy_range(text.as_slice(), 0, end);
        assert(name@ =~= text@.take(end as int));
        return Ok(ParsedLine::Label(string_of(name.as_slice())));
    }
    let word_end = position_of_space(text.as_slice(), 0);
    let word = copy_range(text.as_slice(), 0, word_end);
    assert(word@ =~= mnemonic_text(text@));
    let operand_start = position_of_non_space(text.as_slice(), word_end);
    let operand_end = position_of_space(text.as_slice(), operand_start);
    let token = copy_range(text.as_slice(), operand_start, operand_end);
    let comment = position_of(token.as_slice(), ';', 0);
    let operand = copy_range(token.as_slice(), 0, comment);
    assert(operand@ =~= operand_text(text@));
    let mnemonic = to_uppercase(word.as_slice());
    instruction_from(mnemonic.as_slice(), operand.as_slice(), number)
}

/// The bytes of one instruction: its opcode, then its operand if it has
/// the size of two bytes. A mnemonic that names no instruction, and a missing
/// operand, are rejected with the number of the source line.
pub open spec fn encode_line(line: AsmLine) -> Result<Seq<u8>, Seq<char>> {
    match opcode_of(line.opcode) {
        None => Err(at_line(unknown_instruction(line.opcode), line.line)),
        Some(opcode) => if size_of(line.opcode) == 2 {
            match line.operand {
                None => Err(at_line(operand_required(line.opcode), line.line)),
                Some(operand) => Ok(seq![opcode, operand]),
            }
        } else {
            Ok(seq![opcode])
        },
    }
}

/// The bytes of a program: those of its instructions, one after the other;
/// or the message about the first instruction that has none.
pub open spec fn encode(program: Seq<AsmLine>) -> Result<Seq<u8>, Seq<char>>
    decreases program.len(),
{
    if program.len() == 0 {
        Ok(Seq::empty())
    } else {
        match encode(program.drop_last()) {
            Err(message) => Err(message),
            Ok(bytes) => match encode_line(program.last()) {
                Err(message) => Err(message),
                Ok(more) => Ok(bytes + more),
            },
        }
    }
}

/// The name under which the disassembler shows an opcode; a byte that is no
/// opcode is shown as `???`.
pub open spec fn mnemonic_of(opcode: u8) -> Seq<char> {
    if opcode == 0x0 {
        "NOP"@
    } else if opcode == 0x1 {
        "LOAD"@
    } else if opcode == 0x2 {
        "STORE"@
    } else if opcode == 0x3 {
        "ADD"@
    } else if opcode == 0x4 {
        "SUB"@
    } else if opcode == 0x5 {
        "AND"@
    } else if opcode == 0x6 {
        "OR"@
    } else if opcode == 0x7 {
        "XOR"@
    } else if opcode == 0x8 {
        "JUMP"@
    } else if opcode == 0x9 {
        "JZ"@
    } else if opcode == 0xA {
        "LDI"@
    } else if opcode == 0xB {
        "INC"@
    } else if opcode == 0xC {
        "DEC"@
    } else if opcode == 0xD {
        "CMP"@
    } else if opcode == 0xE {
        "JNZ"@
    } else if opcode == 0xF {
        "HALT"@
    } else {
        "???"@
    }
}

/// Whether the instruction with this opcode is followed by an operand.
pub open spec fn has_operand(opcode: u8) -> bool {
    1 <= opcode <= 10 || opcode == 13 || opcode == 14
}

/// One instruction as the disassembler finds it.
pub struct Decoded {
    /// The position of the opcode in the machine code.
    pub address: nat,
    /// The name of the instruction.
    pub mnemonic: Seq<char>,
    /// The operand, if the instruction has one and the code goes on.
    pub operand: Option<u8>,
}

/// The instructions in `code` from position `from` on. An instruction that
/// takes an operand is followed by it, unless the code ends at the opcode.
pub open spec fn decode_from(code: Seq<u8>, from: int) -> Seq<Decoded>
    decreases code.len() - from,
{
    if from < 0 || from >= code.len() {
        Seq::empty()
    } else if has_operand(code[from]) && from + 1 < code.len() {
        seq![
            Decoded {
                address: from as nat,
                mnemonic: mnemonic_of(code[from]),
                operand: Some(code[from + 1]),
            },
        ] + decode_from(code, from + 2)
    } else {
        seq![Decoded { address: from as nat, mnemonic: mnemonic_of(code[from]), operand: None }]
            + decode_from(code, from + 1)
    }
}

/// The line of a listing for one instruction: the address in two hexadecimal
/// digits at least, a colon, the name, the operand in hexadecimal after `0x`
/// if there is one, and a line feed.
pub open spec fn listing_line(decoded: Decoded) -> Seq<char> {
    match decoded.operand {
        Some(operand) => hex_two(decoded.address) + ": "@ + decoded.mnemonic + " 0x"@ + hex(
            operand as nat,
        ) + "\n"@,
        None => hex_two(decoded.address) + ": "@ + decoded.mnemonic + "\n"@,
    }
}

/// The listing of a sequence of instructions: their lines, one after the
/// other.
pub open spec fn listing_of(decoded: Seq<Decoded>) -> Seq<char>
    decreases decoded.len(),
{
    if decoded.len() == 0 {
        Seq::empty()
    } else {
        listing_line(decoded[0]) + listing_of(decoded.skip(1))
    }
}

/// The listing of machine code.
pub open spec fn disassembly(code: Seq<u8>) -> Seq<char> {
    listing_of(decode_from(code, 0))
}

/// The models of a list of instructions.
pub open spec fn lines_of(instructions: Seq<AsmInstruction>) -> Seq<AsmLine> {
    instructions.map_values(|instruction: AsmInstruction| instruction@)
}

/// The models of a list of labels.
pub open spec fn labels_of(labels: Seq<(String, usize)>) -> Seq<(Seq<char>, nat)> {
    labels.map_values(|label: (String, usize)| (label.0@, label.1 as nat))
}

/// What an assembler holds.
pub struct AssemblerState {
    /// The instructions read so far, in source order.
    pub instructions: Seq<AsmLine>,
    /// The labels defined so far with their addresses, in source order.
    pub labels: Seq<(Seq<char>, nat)>,
    /// The bytes of the last successful assembly.
    pub machine_code: Seq<u8>,
}

/// A two-phase assembler.
pub struct Assembler {
    instructions: Vec<AsmInstruction>,
    labels: Vec<(String, usize)>,
    machine_code: Vec<u8>,
}

impl View for Assembler {
    type V = AssemblerState;

    closed spec fn view(&self) -> AssemblerState {
        AssemblerState {
            instructions: lines_of(self.instructions@),
            labels: labels_of(self.labels@),
            machine_code: self.machine_code@,
        }
    }
}

impl Assembler {
    /// Creates an assembler that holds nothing.
    pub fn new() -> (assembler: Self)
        ensures
            assembler@ == (AssemblerState {
                instructions: Seq::empty(),
                labels: Seq::empty(),
                machine_code: Seq::empty(),
            }),
    {
        let assembler = Assembler {
            instructions: Vec::new(),
            labels: Vec::new(),
            machine_code: Vec::new(),
        };
        assert(assembler@.instructions =~= Seq::empty());
        assert(assembler@.labels =~= Seq::empty());
        assembler
    }

    /// Runs the first phase on `source`: reads its lines, and adds the
    /// instructions and labels they hold to those of the assembler. Label
    /// addresses count from 0 at the start of `source`.
    ///
    /// If a line cannot be read, the message about the first such line comes
    /// back and the assembler is left as it was.
    pub fn parse(&mut self, source: &str) -> (result: Result<(), String>)
        requires
            source@.len() < usize::MAX,
        ensures
            match read_source(source@, 0, 1, Listing::empty()) {
                Ok(listing) => {
                    &&& result is Ok
                    &&& final(self)@ == (AssemblerState {
                        instructions: old(self)@.instructions + listing.instructions,
                        labels: old(self)@.labels + listing.labels,
                        machine_code: old(self)@.machine_code,
                    })
                },
                Err(message) => {
                    &&& result is Err
                    &&& result->Err_0@ == message
                    &&& final(self)@ == old(self)@
                },
            },
    {
        let chars = chars_of(source);
        let mut found: Vec<AsmInstruction> = Vec::new();
        let mut bound: Vec<(String, usize)> = Vec::new();
        let mut current_address: usize = 0;
        let mut from: usize = 0;
        let mut number: usize = 1;
        assert(lines_of(found@) =~= Seq::empty());
        assert(labels_of(bound@) =~= Seq::empty());
        loop
            invariant_except_break
                chars@ == source@,
                chars@.len() < usize::MAX,
                from <= chars.len(),
                1 <= number <= from + 1,
                current_address <= from,
                read_source(source@, 0, 1, Listing::empty()) == read_source(
                    source@,
                    from as int,
                    number as nat,
                    Listing {
                        instructions: lines_of(found@),
                        labels: labels_of(bound@),
                        address: current_address as nat,
                    },
                ),
            ensures
                read_source(source@, 0, 1, Listing::empty()) == Ok::<Listing, Seq<char>>(
                    Listing {
                        instructions: lines_of(found@),
                        labels: labels_of(bound@),
                        address: current_address as nat,
                    },
                ),
            decreases chars.len() - from,
        {
            let end = position_of(chars.as_slice(), '\n', from);
            let line = copy_range(chars.as_slice(), from, end);
            let ghost so_far = Listing {
                instructions: lines_of(found@),
                labels: labels_of(bound@),
                address: current_address as nat,
            };
            match parse_line(line.as_slice(), number) {
                Err(message) => {
                    return Err(message);
                },
                Ok(ParsedLine::Blank) => {},
                Ok(ParsedLine::Label(name)) => {
                    proof {
                        assert(labels_of(bound@.push((name, current_address))) =~= labels_of(
                            bound@,
                        ).push((name@, current_address as nat)));
                    }
                    bound.push((name, current_address));
                },
                Ok(ParsedLine::Code(instruction)) => {
                    let mnemonic = chars_of(instruction.opcode.as_str());
                    let size = find_size(mnemonic.as_slice());
                    proof {
                        assert(line@.len() > 0) by {
                            if line@.len() == 0 {
                                assert(trim(line@).len() == 0);
                            }
                        }
                        assert(lines_of(found@.push(instruction)) =~= lines_of(found@).push(
                            instruction@,
                        ));
                    }
                    current_address += size;
                    found.push(instruction);
                },
            }
            if end >= chars.len() {
                break ;
            }
            from = end + 1;
            number += 1;
        }
        proof {
            assert(lines_of(self.instructions@ + found@) =~= lines_of(self.instructions@)
                + lines_of(found@));
            assert(labels_of(self.labels@ + bound@) =~= labels_of(self.labels@) + labels_of(
                bound@,
            ));
        }
        self.instructions.append(&mut found);
        self.labels.append(&mut bound);
        Ok(())
    }

    /// Reads an operand on the source line after line `line_num`: lines are
    /// counted from 0 here, and from 1 in messages.
    pub fn parse_operand(&self, operand: &str, line_num: usize) -> (result: Result<u8, String>)
        requires
            line_num < usize::MAX,
        ensures
            agrees(result, operand_value(operand@, (line_num + 1) as nat)),
    {
        let chars = chars_of(operand);
        read_operand(chars.as_slice(), line_num + 1)
    }

    /// The number of bytes that the instruction with the mnemonic `opcode`
    /// takes.
    pub fn instruction_size(&self, opcode: &str) -> (size: usize)
        ensures
            size == size_of(opcode@),
    {
        let chars = chars_of(opcode);
        find_size(chars.as_slice())
    }

    /// The opcode of a mnemonic, or a message that names the mnemonic if it
    /// stands for no instruction.
    pub fn encode_opcode(&self, mnemonic: &str) -> (result: Result<u8, String>)
        ensures
            agrees(
                result,
                match opcode_of(mnemonic@) {
                    Some(opcode) => Ok(opcode),
                    None => Err(unknown_instruction(mnemonic@)),
                },
            ),
    {
        let chars = chars_of(mnemonic);
        match find_opcode(chars.as_slice()) {
            Some(opcode) => Ok(opcode),
            None => {
                let mut out: Vec<char> = Vec::new();
                push_str(&mut out, "Unknown instruction: ");
                push_all(&mut out, chars.as_slice());
                assert(out@ =~= unknown_instruction(mnemonic@));
                Err(string_of(out.as_slice()))
            },
        }
    }

    /// Runs the second phase: turns the instructions read so far into machine
    /// code, which is kept and returned. If an instruction has no encoding,
    /// the message about the first such instruction comes back, and no code
    /// is kept.
    pub fn assemble(&mut self) -> (result: Result<Vec<u8>, String>)
        ensures
            final(self)@.instructions == old(self)@.instructions,
            final(self)@.labels == old(self)@.labels,
            match encode(old(self)@.instructions) {
                Ok(bytes) => {
                    &&& result is Ok
                    &&& result->Ok_0@ == bytes
                    &&& final(self)@.machine_code == bytes
                },
                Err(message) => {
                    &&& result is Err
                    &&& result->Err_0@ == message
                    &&& final(self)@.machine_code == Seq::<u8>::empty()
                },
            },
    {
        self.machine_code.clear();
        let mut code: Vec<u8> = Vec::new();
        let mut i: usize = 0;
        assert(self@.instructions.take(0) =~= Seq::empty());
        while i < self.instructions.len()
            invariant
                i <= self.instructions.len(),
                self@.instructions == old(self)@.instructions,
                self@.labels == old(self)@.labels,
                self.machine_code@ == Seq::<u8>::empty(),
                encode(self@.instructions.take(i as int)) == Ok::<Seq<u8>, Seq<char>>(code@),
            decreases self.instructions.len() - i,
        {
            let ghost program = self@.instructions;
            let ghost line = program[i as int];
            proof {
                assert(program.take(i + 1).drop_last() =~= program.take(i as int));
                assert(program.take(i + 1).last() == line);
                assert(line == self.instructions@[i as int]@);
                lemma_encode_error_stays(program, i + 1);
            }
            let instruction = &self.instructions[i];
            let mnemonic = chars_of(instruction.opcode.as_str());
            match find_opcode(mnemonic.as_slice()) {
                None => {
                    let mut out: Vec<char> = Vec::new();
                    push_str(&mut out, "Unknown instruction: ");
                    push_all(&mut out, mnemonic.as_slice());
                    push_str(&mut out, " at line ");
                    push_decimal(&mut out, instruction.line);
                    assert(out@ =~= at_line(unknown_instruction(line.opcode), line.line));
                    return Err(string_of(out.as_slice()));
                },
                Some(opcode) => {
                    if find_size(mnemonic.as_slice()) == 2 {
                        match instruction.operand {
                            None => {
                                let mut out: Vec<char> = Vec::new();
                                push_str(&mut out, "Instruction ");
                                push_all(&mut out, mnemonic.as_slice());
                                push_str(&mut out, " requires operand");
                                push_str(&mut out, " at line ");
                                push_decimal(&mut out, instruction.line);
                                assert(out@ =~= at_line(
                                    operand_required(line.opcode),
                                    line.line,
                                ));
                                return Err(string_of(out.as_slice()));
                            },
                            Some(operand) => {
                                code.push(opcode);
                                code.push(operand);
                                assert(code@ =~= encode(program.take(i as int))->Ok_0
                                    + seq![opcode, operand]);
                            },
                        }
                    } else {
                        code.push(opcode);
                        assert(code@ =~= encode(program.take(i as int))->Ok_0 + seq![opcode]);
                    }
                },
            }
            i += 1;
        }
        assert(self@.instructions.take(i as int) =~= self@.instructions);
        self.machine_code = code.clone();
        Ok(code)
    }

    /// Lists machine code: one line for each instruction, with its address,
    /// its name and its operand.
    pub fn disassemble(machine_code: &[u8]) -> (listing: String)
        ensures
            listing@ == disassembly(machine_code@),
    {
        let mut out: Vec<char> = Vec::new();
        let mut i: usize = 0;
        assert(out@ + disassembly(machine_code@) =~= disassembly(machine_code@));
        while i < machine_code.len()
            invariant
                i <= machine_code.len(),
                disassembly(machine_code@) == out@ + listing_of(decode_from(machine_code@, i as int)),
            decreases machine_code.len() - i,
        {
            let opcode = machine_code[i];
            let address = i;
            let ghost before = out@;
            let ghost rest = decode_from(machine_code@, i as int);
            let operand_follows = opcode_has_operand(opcode) && machine_code.len() - i > 1;
            push_hex_two(&mut out, address);
            push_str(&mut out, ": ");
            push_mnemonic(&mut out, opcode);
            if operand_follows {
                let operand = machine_code[i + 1];
                push_str(&mut out, " 0x");
                push_hex(&mut out, operand as usize);
                push_str(&mut out, "\n");
                i += 2;
            } else {
                push_str(&mut out, "\n");
                i += 1;
            }
            proof {
                assert(rest.skip(1) =~= decode_from(machine_code@, i as int));
                assert(out@ =~= before + listing_line(rest[0]));
                assert(out@ + listing_of(rest.skip(1)) =~= before + listing_of(rest));
            }
        }
        assert(out@ + Seq::<char>::empty() =~= out@);
        string_of(out.as_slice())
    }

    /// The address that the label `name` is bound to, if it is defined. Of
    /// two definitions the later one counts.
    pub fn label_address(&self, name: &str) -> (address: Option<usize>)
        ensures
            address is Some == label_address(self@.labels, name@) is Some,
            address is Some ==> address->0 == label_address(self@.labels, name@)->0,
    {
        let wanted = chars_of(name);
        let mut i: usize = self.labels.len();
        assert(self.labels@.take(i as int) =~= self.labels@);
        while i > 0
            invariant
                i <= self.labels.len(),
                wanted@ == name@,
                label_address(self@.labels, name@) == label_address(
                    labels_of(self.labels@.take(i as int)),
                    name@,
                ),
            decreases i,
        {
            let ghost shorter = labels_of(self.labels@.take(i as int));
            assert(shorter.drop_last() =~= labels_of(self.labels@.take(i - 1)));
            let label = chars_of(self.labels[i - 1].0.as_str());
            if same_chars(label.as_slice(), wanted.as_slice()) {
                return Some(self.labels[i - 1].1);
            }
            i -= 1;
        }
        None
    }

    /// The bytes of the last successful assembly; none after one that failed.
    pub fn machine_code(&self) -> (code: &Vec<u8>)
        ensures
            code@ == self@.machine_code,
    {
        &self.machine_code
    }

    /// The instructions read so far, in source order.
    pub fn instructions(&self) -> (instructions: &Vec<AsmInstruction>)
        ensures
            lines_of(instructions@) == self@.instructions,
    {
        &self.instructions
    }
}

impl Default for Assembler {
    fn default() -> (assembler: Self)
        ensures
            assembler@ == (AssemblerState {
                instructions: Seq::empty(),
                labels: Seq::empty(),
                machine_code: Seq::empty(),
            }),
    {
        Self::new()
    }
}

/// Once a prefix of a program has no encoding, the program has none, and the
/// message stays the same.
proof fn lemma_encode_error_stays(program: Seq<AsmLine>, prefix: int)
    requires
        0 <= prefix <= program.len(),
    ensures
        encode(program.take(prefix)) is Err ==> encode(program) == encode(program.take(prefix)),
    decreases program.len(),
{
    if prefix < program.len() {
        assert(program.drop_last().take(prefix) =~= program.take(prefix));
        lemma_encode_error_stays(program.drop_last(), prefix);
    } else {
        assert(program.take(prefix) =~= program);
    }
}

/// Tells whether the instruction with this opcode is followed by an operand.
fn opcode_has_operand(opcode: u8) -> (follows: bool)
    ensures
        follows == has_operand(opcode),
{
    (1 <= opcode && opcode <= 10) || opcode == 13 || opcode == 14
}

/// Appends the name of an opcode to `out`.
fn push_mnemonic(out: &mut Vec<char>, opcode: u8)
    ensures
        final(out)@ == old(out)@ + mnemonic_of(opcode),
{
    let name = match opcode {
        0x0 => "NOP",
        0x1 => "LOAD",
        0x2 => "STORE",
        0x3 => "ADD",
        0x4 => "SUB",
        0x5 => "AND",
        0x6 => "OR",
        0x7 => "XOR",
        0x8 => "JUMP",
        0x9 => "JZ",
        0xA => "LDI",
        0xB => "INC",
        0xC => "DEC",
        0xD => "CMP",
        0xE => "JNZ",
        0xF => "HALT",
        _ => "???",
    };
    push_str(out, name);
}

/// Assembles `source` in one go: reads it, and encodes what was read.
pub fn assemble(source: &str) -> (result: Result<Vec<u8>, String>)
    requires
        source@.len() < usize::MAX,
    ensures
        agrees_bytes(
            result,
            match read_source(source@, 0, 1, Listing::empty()) {
                Ok(listing) => encode(listing.instructions),
                Err(message) => Err(message),
            },
        ),
{
    let mut assembler = Assembler::new();
    match assembler.parse(source) {
        Err(message) => Err(message),
        Ok(()) => {
            assert(assembler@.instructions =~= read_source(
                source@,
                0,
                1,
                Listing::empty(),
            )->Ok_0.instructions);
            assembler.assemble()
        },
    }
}

/// Whether a result holds the bytes, or the message, that `expected` gives.
pub open spec fn agrees_bytes(result: Result<Vec<u8>, String>, expected: Result<Seq<u8>, Seq<char>>) -> bool {
    match expected {
        Ok(bytes) => result is Ok && result->Ok_0@ == bytes,
        Err(message) => result is Err && result->Err_0@ == message,
    }
}

/// An instruction as a listing of its machine code shows it, at `address`:
/// under the first name of its opcode, and with its operand only if it is
/// encoded with one.
pub open spec fn shown_line(line: AsmLine, address: nat) -> Decoded {
    Decoded {
        address,
        mnemonic: mnemonic_of(opcode_of(line.opcode)->0),
        operand: if size_of(line.opcode) == 2 {
            line.operand
        } else {
            None
        },
    }
}

/// A program as a listing of its machine code shows it, from `address` on.
pub open spec fn shown(program: Seq<AsmLine>, address: nat) -> Seq<Decoded>
    decreases program.len(),
{
    if program.len() == 0 {
        Seq::empty()
    } else {
        seq![shown_line(program[0], address)] + shown(
            program.skip(1),
            address + size_of(program[0].opcode),
        )
    }
}

/// The instructions that are encoded without an operand are those whose
/// opcode the disassembler reads without one.
proof fn lemma_size_matches_opcode(mnemonic: Seq<char>)
    requires
        opcode_of(mnemonic) is Some,
    ensures
        (size_of(mnemonic) == 2) == has_operand(opcode_of(mnemonic)->0),
        opcode_of(mnemonic)->0 <= 15,
{
    reveal_strlit("NOP");
    reveal_strlit("LOAD");
    reveal_strlit("LD");
    reveal_strlit("STORE");
    reveal_strlit("ST");
    reveal_strlit("ADD");
    reveal_strlit("SUB");
    reveal_strlit("AND");
    reveal_strlit("OR");
    reveal_strlit("XOR");
    reveal_strlit("JUMP");
    reveal_strlit("JMP");
    reveal_strlit("JZ");
    reveal_strlit("LDI");
    reveal_strlit("INC");
    reveal_strlit("DEC");
    reveal_strlit("CMP");
    reveal_strlit("JNZ");
    reveal_strlit("HALT");
    reveal_strlit("HLT");
    assert("NOP"@.len() == 3 && "NOP"@[0] == 'N');
    assert("LOAD"@.len() == 4 && "LOAD"@[0] == 'L');
    assert("LD"@.len() == 2 && "LD"@[0] == 'L');
    assert("STORE"@.len() == 5 && "STORE"@[0] == 'S');
    assert("ST"@.len() == 2 && "ST"@[0] == 'S');
    assert("ADD"@.len() == 3 && "ADD"@[0] == 'A');
    assert("SUB"@.len() == 3 && "SUB"@[0] == 'S');
    assert("AND"@.len() == 3 && "AND"@[0] == 'A');
    assert("OR"@.len() == 2 && "OR"@[0] == 'O');
    assert("XOR"@.len() == 3 && "XOR"@[0] == 'X');
    assert("JUMP"@.len() == 4 && "JUMP"@[0] == 'J');
    assert("JMP"@.len() == 3 && "JMP"@[0] == 'J');
    assert("JZ"@.len() == 2 && "JZ"@[0] == 'J');
    assert("LDI"@.len() == 3 && "LDI"@[0] == 'L');
    assert("INC"@.len() == 3 && "INC"@[0] == 'I');
    assert("DEC"@.len() == 3 && "DEC"@[0] == 'D');
    assert("CMP"@.len() == 3 && "CMP"@[0] == 'C');
    assert("JNZ"@.len() == 3 && "JNZ"@[0] == 'J');
    assert("HALT"@.len() == 4 && "HALT"@[0] == 'H');
    assert("HLT"@.len() == 3 && "HLT"@[0] == 'H');
}

/// The bytes of a program begin with those of its first instruction.
proof fn lemma_encode_from_front(program: Seq<AsmLine>)
    requires
        program.len() > 0,
        encode(program) is Ok,
    ensures
        encode_line(program[0]) is Ok,
        encode(program.skip(1)) is Ok,
        encode(program)->Ok_0 == encode_line(program[0])->Ok_0 + encode(program.skip(1))->Ok_0,
    decreases program.len(),
{
    if program.len() == 1 {
        assert(program.drop_last() =~= Seq::empty());
        assert(program.skip(1) =~= Seq::empty());
        assert(program.last() == program[0]);
        assert(Seq::<u8>::empty() + encode_line(program[0])->Ok_0 =~= encode_line(program[0])->Ok_0
            + Seq::<u8>::empty());
    } else {
        let shorter = program.drop_last();
        lemma_encode_from_front(shorter);
        assert(shorter[0] == program[0]);
        assert(shorter.skip(1) =~= program.skip(1).drop_last());
        assert(program.skip(1).last() == program.last());
        let first = encode_line(program[0])->Ok_0;
        let middle = encode(shorter.skip(1))->Ok_0;
        let last = encode_line(program.last())->Ok_0;
        assert((first + middle) + last =~= first + (middle + last));
    }
}

/// Disassembly inverts assembly, after any bytes that come before.
proof fn lemma_decode_after(before: Seq<u8>, program: Seq<AsmLine>)
    requires
        encode(program) is Ok,
    ensures
        decode_from(before + encode(program)->Ok_0, before.len() as int) == shown(
            program,
            before.len(),
        ),
    decreases program.len(),
{
    let code = before + encode(program)->Ok_0;
    let from = before.len() as int;
    if program.len() == 0 {
        assert(code =~= before);
    } else {
        lemma_encode_from_front(program);
        let first = program[0];
        lemma_size_matches_opcode(first.opcode);
        let bytes = encode_line(first)->Ok_0;
        let rest = encode(program.skip(1))->Ok_0;
        lemma_decode_after(before + bytes, program.skip(1));
        assert(code =~= (before + bytes) + rest);
        assert(code[from] == opcode_of(first.opcode)->0);
        if size_of(first.opcode) == 2 {
            assert(code[from + 1] == first.operand->0);
        }
    }
}

/// The name under which the disassembler shows an opcode is a mnemonic of
/// that opcode, and of the same size.
pub proof fn lemma_names_name_their_opcodes(opcode: u8)
    requires
        opcode <= 15,
    ensures
        opcode_of(mnemonic_of(opcode)) == Some(opcode),
        (size_of(mnemonic_of(opcode)) == 2) == has_operand(opcode),
{
    reveal_strlit("NOP");
    reveal_strlit("LOAD");
    reveal_strlit("LD");
    reveal_strlit("STORE");
    reveal_strlit("ST");
    reveal_strlit("ADD");
    reveal_strlit("SUB");
    reveal_strlit("AND");
    reveal_strlit("OR");
    reveal_strlit("XOR");
    reveal_strlit("JUMP");
    reveal_strlit("JMP");
    reveal_strlit("JZ");
    reveal_strlit("LDI");
    reveal_strlit("INC");
    reveal_strlit("DEC");
    reveal_strlit("CMP");
    reveal_strlit("JNZ");
    reveal_strlit("HALT");
    reveal_strlit("HLT");
    assert("NOP"@.len() == 3 && "NOP"@[0] == 'N' && "NOP"@[1] == 'O');
    assert("LOAD"@.len() == 4 && "LOAD"@[0] == 'L' && "LOAD"@[1] == 'O');
    assert("LD"@.len() == 2 && "LD"@[0] == 'L' && "LD"@[1] == 'D');
    assert("STORE"@.len() == 5 && "STORE"@[0] == 'S' && "STORE"@[1] == 'T');
    assert("ST"@.len() == 2 && "ST"@[0] == 'S' && "ST"@[1] == 'T');
    assert("ADD"@.len() == 3 && "ADD"@[0] == 'A' && "ADD"@[1] == 'D');
    assert("SUB"@.len() == 3 && "SUB"@[0] == 'S' && "SUB"@[1] == 'U');
    assert("AND"@.len() == 3 && "AND"@[0] == 'A' && "AND"@[1] == 'N');
    assert("OR"@.len() == 2 && "OR"@[0] == 'O' && "OR"@[1] == 'R');
    assert("XOR"@.len() == 3 && "XOR"@[0] == 'X' && "XOR"@[1] == 'O');
    assert("JUMP"@.len() == 4 && "JUMP"@[0] == 'J' && "JUMP"@[1] == 'U');
    assert("JMP"@.len() == 3 && "JMP"@[0] == 'J' && "JMP"@[1] == 'M');
    assert("JZ"@.len() == 2 && "JZ"@[0] == 'J' && "JZ"@[1] == 'Z');
    assert("LDI"@.len() == 3 && "LDI"@[0] == 'L' && "LDI"@[1] == 'D');
    assert("INC"@.len() == 3 && "INC"@[0] == 'I' && "INC"@[1] == 'N');
    assert("DEC"@.len() == 3 && "DEC"@[0] == 'D' && "DEC"@[1] == 'E');
    assert("CMP"@.len() == 3 && "CMP"@[0] == 'C' && "CMP"@[1] == 'M');
    assert("JNZ"@.len() == 3 && "JNZ"@[0] == 'J' && "JNZ"@[1] == 'N');
    assert("HALT"@.len() == 4 && "HALT"@[0] == 'H' && "HALT"@[1] == 'A');
    assert("HLT"@.len() == 3 && "HLT"@[0] == 'H' && "HLT"@[1] == 'L');
}

/// An instruction of a listing, written as a line of source.
pub open spec fn as_source(decoded: Decoded, line: nat) -> AsmLine {
    AsmLine { opcode: decoded.mnemonic, operand: decoded.operand, line }
}

/// What the disassembler shows of an instruction assembles to the bytes of
/// that instruction.
pub proof fn lemma_shown_line_assembles_alike(line: AsmLine, address: nat)
    requires
        encode_line(line) is Ok,
    ensures
        encode_line(as_source(shown_line(line, address), line.line)) == encode_line(line),
{
    lemma_size_matches_opcode(line.opcode);
    lemma_names_name_their_opcodes(opcode_of(line.opcode)->0);
}

/// A round trip: the disassembler finds in the machine code of a program
/// the instructions of that program, in order and at their addresses, each
/// under the first name of its opcode and with the operand it was encoded
/// with. The listing it prints is the listing of those instructions.
pub proof fn lemma_disassemble_inverts_assemble(program: Seq<AsmLine>)
    requires
        encode(program) is Ok,
    ensures
        decode_from(encode(program)->Ok_0, 0) == shown(program, 0),
        disassembly(encode(program)->Ok_0) == listing_of(shown(program, 0)),
{
    lemma_decode_after(Seq::empty(), program);
    assert(Seq::<u8>::empty() + encode(program)->Ok_0 =~= encode(program)->Ok_0);
}

/// The number of bytes that a program takes: the sizes of its instructions
/// together.
pub open spec fn code_size(program: Seq<AsmLine>) -> nat
    decreases program.len(),
{
    if program.len() == 0 {
        0
    } else {
        code_size(program.drop_last()) + size_of(program.last().opcode)
    }
}

/// Whether an instruction of the program begins at `address`, or the program
/// ends there.
pub open spec fn is_boundary(program: Seq<AsmLine>, address: nat) -> bool {
    exists|count: int| 0 <= count <= program.len() && #[trigger] code_size(program.take(count)) == address
}

/// Whether the addresses of a listing are in step with its instructions: the
/// next address is the size of the program, and every label stands where an
/// instruction begins or the program ends.
pub open spec fn in_step(listing: Listing) -> bool {
    &&& listing.address == code_size(listing.instructions)
    &&& forall|i: int|
        0 <= i < listing.labels.len() ==> is_boundary(
            listing.instructions,
            (#[trigger] listing.labels[i]).1,
        )
}

/// One more line keeps a listing in step.
proof fn lemma_add_keeps_step(listing: Listing, line: SourceLine)
    requires
        in_step(listing),
    ensures
        in_step(listing.add(line)),
{
    let next = listing.add(line);
    let program = listing.instructions;
    match line {
        SourceLine::Label(name) => {
            assert(program.take(program.len() as int) =~= program);
            assert forall|i: int| 0 <= i < next.labels.len() implies is_boundary(
                next.instructions,
                (#[trigger] next.labels[i]).1,
            ) by {
                if i < listing.labels.len() {
                    assert(next.labels[i] == listing.labels[i]);
                } else {
                    assert(code_size(program.take(program.len() as int)) == listing.address);
                }
            }
        },
        SourceLine::Code(instruction) => {
            let longer = program.push(instruction);
            assert(longer.drop_last() =~= program);
            assert forall|i: int| 0 <= i < next.labels.len() implies is_boundary(
                next.instructions,
                (#[trigger] next.labels[i]).1,
            ) by {
                assert(next.labels[i] == listing.labels[i]);
                let count = choose|count: int|
                    0 <= count <= program.len() && #[trigger] code_size(program.take(count))
                        == listing.labels[i].1;
                assert(longer.take(count) =~= program.take(count));
            }
        },
        _ => {},
    }
}

/// Reading a source keeps a listing in step.
proof fn lemma_read_keeps_step(source: Seq<char>, from: int, number: nat, so_far: Listing)
    requires
        in_step(so_far),
    ensures
        read_source(source, from, number, so_far) is Ok ==> in_step(
            read_source(source, from, number, so_far)->Ok_0,
        ),
    decreases source.len() - from,
{
    let end = find_char(source, '\n', from);
    let line = read_line(source.subrange(from, end), number);
    if !(line is Bad) {
        lemma_add_keeps_step(so_far, line);
        if 0 <= from <= end < source.len() {
            lemma_read_keeps_step(source, end + 1, number + 1, so_far.add(line));
        }
    }
}

/// A prefix of a program is not larger than the program.
proof fn lemma_prefix_is_smaller(program: Seq<AsmLine>, count: int)
    requires
        0 <= count <= program.len(),
    ensures
        code_size(program.take(count)) <= code_size(program),
    decreases program.len(),
{
    if count < program.len() {
        lemma_prefix_is_smaller(program.drop_last(), count);
        assert(program.drop_last().take(count) =~= program.take(count));
    } else {
        assert(program.take(count) =~= program);
    }
}

/// The machine code of a program has the size of the program, and begins
/// with the machine code of each of its prefixes.
proof fn lemma_encode_prefix(program: Seq<AsmLine>, count: int)
    requires
        encode(program) is Ok,
        0 <= count <= program.len(),
    ensures
        encode(program)->Ok_0.len() == code_size(program),
        encode(program.take(count)) is Ok,
        encode(program.take(count))->Ok_0 == encode(program)->Ok_0.take(
            code_size(program.take(count)) as int,
        ),
    decreases program.len(),
{
    let bytes = encode(program)->Ok_0;
    if program.len() == 0 {
        assert(program.take(count) =~= program);
        assert(bytes.take(0) =~= bytes);
    } else {
        let shorter = program.drop_last();
        let last = encode_line(program.last())->Ok_0;
        lemma_size_matches_opcode(program.last().opcode);
        if count == program.len() {
            lemma_encode_prefix(shorter, shorter.len() as int);
            assert(program.take(count) =~= program);
            assert(bytes.take(bytes.len() as int) =~= bytes);
        } else {
            lemma_encode_prefix(shorter, count);
            lemma_prefix_is_smaller(shorter, count);
            assert(shorter.take(count) =~= program.take(count));
            let size = code_size(program.take(count)) as int;
            assert(encode(shorter)->Ok_0.take(size) =~= bytes.take(size));
        }
    }
}

/// The two phases agree on addresses. When a source assembles, the address
/// that the first phase has reached at its end is the length of the machine
/// code; and every label is bound to a place where, in the machine code, an
/// instruction begins or the code ends: the code up to the label's address
/// is the code of the instructions before it.
pub proof fn lemma_labels_match_code(source: Seq<char>)
    requires
        read_source(source, 0, 1, Listing::empty()) is Ok,
        encode(read_source(source, 0, 1, Listing::empty())->Ok_0.instructions) is Ok,
    ensures
        ({
            let listing = read_source(source, 0, 1, Listing::empty())->Ok_0;
            let code = encode(listing.instructions)->Ok_0;
            &&& listing.address == code.len()
            &&& forall|i: int|
                0 <= i < listing.labels.len() ==> (#[trigger] listing.labels[i]).1 <= code.len()
                    && exists|count: int|
                    0 <= count <= listing.instructions.len() && #[trigger] encode(
                        listing.instructions.take(count),
                    ) == Ok::<Seq<u8>, Seq<char>>(code.take(listing.labels[i].1 as int))
        }),
{
    let listing = read_source(source, 0, 1, Listing::empty())->Ok_0;
    let program = listing.instructions;
    let code = encode(program)->Ok_0;
    assert(Listing::empty().instructions.take(0) =~= Listing::empty().instructions);
    lemma_read_keeps_step(source, 0, 1, Listing::empty());
    lemma_encode_prefix(program, 0);
    assert forall|i: int| 0 <= i < listing.labels.len() implies (#[trigger] listing.labels[i]).1
        <= code.len() && exists|count: int|
        0 <= count <= program.len() && #[trigger] encode(program.take(count)) == Ok::<
            Seq<u8>,
            Seq<char>,
        >(code.take(listing.labels[i].1 as int)) by {
        let address = listing.labels[i].1;
        let count = choose|count: int|
            0 <= count <= program.len() && #[trigger] code_size(program.take(count)) == address;
        lemma_encode_prefix(program, count);
        lemma_prefix_is_smaller(program, count);
        assert(encode(program.take(count)) == Ok::<Seq<u8>, Seq<char>>(code.take(address as int)));
    }
}

} // verus!

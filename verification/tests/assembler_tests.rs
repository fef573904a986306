use aspirina::assembler::{assemble, Assembler};
use aspirina::cpu::SimpleCPU;

const ADDITION: &str = "
    ; Self-contained addition program (5 + 3)
    LDI 5      ; Load 5 into accumulator
    STORE 0xE  ; Store 5 at address E
    LDI 3      ; Load 3 into accumulator
    STORE 0xD  ; Store 3 at address D
    LOAD 0xE   ; Load back the 5
    ADD 0xD    ; Add the 3 from address D
    STORE 0xF  ; Store result at F
    HALT       ; Stop execution
";

#[test]
fn assembles_the_addition_program() {
    let code = assemble(ADDITION).unwrap();
    assert_eq!(
        code,
        vec![0xA, 0x5, 0x2, 0xE, 0xA, 0x3, 0x2, 0xD, 0x1, 0xE, 0x3, 0xD, 0x2, 0xF, 0xF]
    );
}

#[test]
fn addition_program_overwrites_its_own_tail() {
    // The program fills cells 0 to 14, so its stores to 0xE and 0xD replace
    // its HALT and the operand of its last STORE before they are reached:
    // the sum lands in cell 3, and the processor does not halt.
    let code = assemble(ADDITION).unwrap();
    let mut cpu = SimpleCPU::new();
    cpu.load_program(&code);
    cpu.run(7);
    assert_eq!(cpu.registers.accumulator.read(), 8);
    assert_eq!(cpu.memory.dump(), [10, 5, 2, 8, 10, 3, 2, 13, 1, 14, 3, 13, 2, 3, 5, 0]);
    assert_eq!(cpu.memory.read(0xF), 0);
    assert!(!cpu.halted);
    assert_eq!(cpu.cycle_count, 7);
}

#[test]
fn short_addition_program_stores_the_sum() {
    let code = assemble("LDI 5\nADD 0xE\nSTORE 0xF\nHALT").unwrap();
    assert_eq!(code, vec![0xA, 0x5, 0x3, 0xE, 0x2, 0xF, 0xF]);
    let mut cpu = SimpleCPU::new();
    cpu.memory.write(0xE, 3);
    cpu.load_program(&code);
    cpu.run(20);
    assert!(cpu.halted);
    assert_eq!(cpu.memory.read(0xF), 8);
}

#[test]
fn assembled_countdown_halts_with_zero() {
    let code = assemble("LDI 3\nSTORE 0xE\nDEC\nJNZ 4\nHALT").unwrap();
    assert_eq!(code, vec![0xA, 0x3, 0x2, 0xE, 0xC, 0xE, 0x4, 0xF]);
    let mut cpu = SimpleCPU::new();
    cpu.load_program(&code);
    cpu.run(100);
    assert!(cpu.halted);
    assert_eq!(cpu.registers.accumulator.read(), 0);
}

#[test]
fn disassembles_with_addresses_and_operands() {
    let code = [0xA, 0x5, 0x2, 0xE, 0xC, 0xE, 0x4, 0xF];
    assert_eq!(
        Assembler::disassemble(&code),
        "00: LDI 0x5\n02: STORE 0xE\n04: DEC\n05: JNZ 0x4\n07: HALT\n"
    );
    assert_eq!(Assembler::disassemble(&[]), "");
}

#[test]
fn disassembles_every_opcode() {
    let code = [
        0x0, 0x1, 0x0, 0x2, 0x1, 0x3, 0x2, 0x4, 0x3, 0x5, 0x4, 0x6, 0x5, 0x7, 0x6, 0x8, 0x7, 0x9,
        0x8, 0xA, 0x9, 0xB, 0xC, 0xD, 0xA, 0xE, 0xB, 0xF,
    ];
    assert_eq!(
        Assembler::disassemble(&code),
        "00: NOP\n01: LOAD 0x0\n03: STORE 0x1\n05: ADD 0x2\n07: SUB 0x3\n09: AND 0x4\n\
         0B: OR 0x5\n0D: XOR 0x6\n0F: JUMP 0x7\n11: JZ 0x8\n13: LDI 0x9\n15: INC\n16: DEC\n\
         17: CMP 0xA\n19: JNZ 0xB\n1B: HALT\n"
    );
}

#[test]
fn disassembles_unknown_bytes_and_a_cut_off_operand() {
    assert_eq!(Assembler::disassemble(&[0x10, 0xFF]), "00: ???\n01: ???\n");
    assert_eq!(Assembler::disassemble(&[0xF, 0xA]), "00: HALT\n01: LDI\n");
    assert_eq!(Assembler::disassemble(&[0xA, 0xFF]), "00: LDI 0xFF\n");
}

#[test]
fn disassembly_of_assembled_code_shows_the_same_instructions() {
    let source = "ld 1\nst 0x2\njmp 3\nnop\ninc\ndec\nadd 4\nsub 5\nand 6\nor 7\nxor 8\n\
                  jz 9\nldi 10\ncmp 11\njnz 12\nhlt";
    let code = assemble(source).unwrap();
    assert_eq!(
        Assembler::disassemble(&code),
        "00: LOAD 0x1\n02: STORE 0x2\n04: JUMP 0x3\n06: NOP\n07: INC\n08: DEC\n09: ADD 0x4\n\
         0B: SUB 0x5\n0D: AND 0x6\n0F: OR 0x7\n11: XOR 0x8\n13: JZ 0x9\n15: LDI 0xA\n\
         17: CMP 0xB\n19: JNZ 0xC\n1B: HALT\n"
    );
}

#[test]
fn mnemonics_are_read_in_any_case_and_by_either_name() {
    assert_eq!(assemble("ldi 5").unwrap(), vec![0xA, 5]);
    assert_eq!(assemble("Load 1\nLD 1").unwrap(), vec![1, 1, 1, 1]);
    assert_eq!(assemble("STORE 2\nst 2").unwrap(), vec![2, 2, 2, 2]);
    assert_eq!(assemble("JUMP 3\nJMP 3").unwrap(), vec![8, 3, 8, 3]);
    assert_eq!(assemble("HALT\nHLT\nhalt").unwrap(), vec![0xF, 0xF, 0xF]);
}

#[test]
fn comments_blank_lines_and_spacing_do_not_count() {
    let source = "\n; a comment\n\n   LDI   7   ; trailing\n\t\r\nADD 0x3;tight\r\n  HALT\n\n";
    assert_eq!(assemble(source).unwrap(), vec![0xA, 7, 3, 3, 0xF]);
    assert_eq!(assemble("").unwrap(), Vec::<u8>::new());
    assert_eq!(assemble("; only a comment").unwrap(), Vec::<u8>::new());
}

#[test]
fn operand_of_an_instruction_without_one_is_dropped() {
    assert_eq!(assemble("NOP 5\nINC 1\nHALT 2").unwrap(), vec![0x0, 0xB, 0xF]);
}

#[test]
fn operands_in_decimal_and_hexadecimal() {
    assert_eq!(assemble("LDI 0\nLDI 15\nLDI 0x0\nLDI 0XF\nLDI 0xa\nLDI 007").unwrap(), vec![
        0xA, 0, 0xA, 15, 0xA, 0, 0xA, 15, 0xA, 10, 0xA, 7
    ]);
    let assembler = Assembler::new();
    assert_eq!(assembler.parse_operand("0xF", 0), Ok(15));
    assert_eq!(assembler.parse_operand("0x+F", 0), Ok(15));
    assert_eq!(assembler.parse_operand("12", 4), Ok(12));
}

#[test]
fn rejects_an_invalid_hexadecimal_operand() {
    assert_eq!(
        assemble("LDI 0xZZ"),
        Err("Invalid hex number at line 1: '0xZZ' (hex part: 'ZZ')".to_string())
    );
    assert_eq!(
        assemble("NOP\nLDI 0x100"),
        Err("Invalid hex number at line 2: '0x100' (hex part: '100')".to_string())
    );
    assert_eq!(
        assemble("LDI 0x"),
        Err("Invalid hex number at line 1: '0x' (hex part: '')".to_string())
    );
}

#[test]
fn rejects_an_operand_above_fifteen() {
    assert_eq!(
        assemble("LDI 16"),
        Err("Value 16 exceeds 4-bit range (0-15) at line 1".to_string())
    );
    assert_eq!(
        assemble("\n\nLDI 0x1F"),
        Err("Value 31 exceeds 4-bit range (0-15) at line 3".to_string())
    );
    assert_eq!(
        assemble("LDI 255"),
        Err("Value 255 exceeds 4-bit range (0-15) at line 1".to_string())
    );
}

#[test]
fn rejects_a_decimal_operand_that_fits_no_byte() {
    assert_eq!(assemble("LDI 256"), Err("Invalid number at line 1: '256'".to_string()));
}

#[test]
fn rejects_a_label_as_operand() {
    assert_eq!(
        assemble("loop:\nDEC\nJNZ loop"),
        Err("Invalid operand at line 3: 'loop' (not a number or valid label)".to_string())
    );
    assert_eq!(
        assemble("LDI -1"),
        Err("Invalid operand at line 1: '-1' (not a number or valid label)".to_string())
    );
}

#[test]
fn rejects_an_unknown_mnemonic() {
    assert_eq!(assemble("NOP\nfoo 1"), Err("Unknown instruction: FOO at line 2".to_string()));
    assert_eq!(assemble("HALT;x"), Err("Unknown instruction: HALT;X at line 1".to_string()));
    let assembler = Assembler::new();
    assert_eq!(assembler.encode_opcode("XOR"), Ok(0x7));
    assert_eq!(assembler.encode_opcode("HLT"), Ok(0xF));
    assert_eq!(assembler.encode_opcode("nop"), Err("Unknown instruction: nop".to_string()));
}

#[test]
fn rejects_a_missing_operand() {
    assert_eq!(
        assemble("; first\nLDI"),
        Err("Instruction LDI requires operand at line 2".to_string())
    );
    assert_eq!(
        assemble("ADD ;3"),
        Err("Instruction ADD requires operand at line 1".to_string())
    );
}

#[test]
fn first_error_wins() {
    assert_eq!(
        assemble("FOO\nLDI 99"),
        Err("Value 99 exceeds 4-bit range (0-15) at line 2".to_string())
    );
    assert_eq!(assemble("FOO\nBAR"), Err("Unknown instruction: FOO at line 1".to_string()));
}

#[test]
fn labels_are_bound_to_byte_addresses() {
    let mut assembler = Assembler::new();
    let source = "start:\n  LDI 3\nloop:\n  DEC\n  JNZ 2\nend::\n  HALT\nstart:";
    assert_eq!(assembler.parse(source), Ok(()));
    assert_eq!(assembler.label_address("start"), Some(6));
    assert_eq!(assembler.label_address("loop"), Some(2));
    assert_eq!(assembler.label_address("end"), Some(5));
    assert_eq!(assembler.label_address("nowhere"), None);
    assert_eq!(assembler.assemble(), Ok(vec![0xA, 3, 0xC, 0xE, 2, 0xF]));
}

#[test]
fn instruction_sizes() {
    let assembler = Assembler::new();
    for one in ["NOP", "INC", "DEC", "HALT", "HLT"] {
        assert_eq!(assembler.instruction_size(one), 1);
    }
    for two in ["LOAD", "LD", "STORE", "ADD", "JNZ", "LDI", "CMP", "FOO", "nop", ""] {
        assert_eq!(assembler.instruction_size(two), 2);
    }
}

#[test]
fn parse_keeps_instructions_with_their_lines() {
    let mut assembler = Assembler::new();
    assert_eq!(assembler.parse("; c\nldi 5\n\nhalt"), Ok(()));
    let instructions = assembler.instructions();
    assert_eq!(instructions.len(), 2);
    assert_eq!(instructions[0].opcode, "LDI");
    assert_eq!(instructions[0].operand, Some(5));
    assert_eq!(instructions[0].line, 2);
    assert_eq!(instructions[1].opcode, "HALT");
    assert_eq!(instructions[1].operand, None);
    assert_eq!(instructions[1].line, 4);
}

#[test]
fn failed_parse_leaves_the_assembler_as_it_was() {
    let mut assembler = Assembler::new();
    assert_eq!(assembler.parse("LDI 1"), Ok(()));
    assert!(assembler.parse("here:\nLDI 2\nLDI 99").is_err());
    assert_eq!(assembler.instructions().len(), 1);
    assert_eq!(assembler.label_address("here"), None);
    assert_eq!(assembler.parse("HALT"), Ok(()));
    assert_eq!(assembler.assemble(), Ok(vec![0xA, 1, 0xF]));
}

#[test]
fn upper_case_and_white_space_are_those_of_unicode() {
    // The long s has S as its upper-case form, and the dotless i has I.
    assert_eq!(assemble("\u{017F}t 1").unwrap(), vec![0x2, 1]);
    assert_eq!(assemble("ld\u{0131} 4").unwrap(), vec![0xA, 4]);
    assert_eq!(assemble("LDI\u{00A0}5\u{2003}\nHALT\u{3000}").unwrap(), vec![0xA, 5, 0xF]);
    assert_eq!(
        assemble("stra\u{00DF}e 1"),
        Err("Unknown instruction: STRASSE at line 1".to_string())
    );
}

#[test]
fn machine_code_is_kept_after_assembly() {
    let mut assembler = Assembler::new();
    assert!(assembler.machine_code().is_empty());
    assert_eq!(assembler.parse("LDI 1\nHALT"), Ok(()));
    assert_eq!(assembler.assemble(), Ok(vec![0xA, 1, 0xF]));
    assert_eq!(assembler.machine_code(), &vec![0xA, 1, 0xF]);
    assert_eq!(assembler.parse("BAD"), Ok(()));
    assert!(assembler.assemble().is_err());
    assert!(assembler.machine_code().is_empty());
}

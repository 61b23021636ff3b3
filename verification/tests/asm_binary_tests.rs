use script_go::assembler::{parse_asm, AsmError};
use script_go::binary::{deserialize_sgb, serialize_sgb};
use script_go::instruction::{Instruction, OpCode};

#[test]
fn test_valid_parse() {
    let source = "LOADIMM 1 5\nADD 2 1 1\nPRINTREG 2\nHALT";
    let result = parse_asm(source);
    assert!(result.is_ok());
    let code = result.unwrap();
    assert_eq!(code.len(), 4);
    assert_eq!(code[0].opcode(), OpCode::LoadImm as u8);
    assert_eq!(code[2].opcode(), OpCode::PrintReg as u8);
}

#[test]
fn test_invalid_parse() {
    let source = "LOADIMM 1 5\nINVALID_OP 2 1 1\nHALT";
    let result = parse_asm(source);
    assert_eq!(result, Err(AsmError::InvalidMnemonic { line: 2 }));
}

#[test]
fn test_sgb_serialization_roundtrip() {
    let code = [
        Instruction::new(OpCode::LoadImm as u8, 1, 10, 0),
        Instruction::new(OpCode::Halt as u8, 0, 0, 0),
    ];
    let data = b"Hello, ScriptGo!";
    let binary = serialize_sgb(&code, 500, data);
    let (parsed_code, max_fuel, parsed_data) = deserialize_sgb(&binary).unwrap();
    assert_eq!(parsed_code, code.to_vec());
    assert_eq!(max_fuel, 500);
    assert_eq!(parsed_data, data.to_vec());
}

#[test]
fn asm_layouts_comments_and_operands() {
    let source = "  # a comment\r\n\nloadimm16 3 +4660 junk\nJmp 513\ncall 2\nret 9\njmpifzero 1 300\nadd 1 2\nprintreg 7 8\n";
    let code = parse_asm(source).unwrap();
    assert_eq!(
        code,
        vec![
            Instruction::new(OpCode::LoadImm16 as u8, 3, 0x34, 0x12),
            Instruction::new(OpCode::Jmp as u8, 0, 1, 2),
            Instruction::new(OpCode::Call as u8, 0, 2, 0),
            Instruction::new(OpCode::Ret as u8, 0, 0, 0),
            Instruction::new(OpCode::JmpIfZero as u8, 1, 44, 1),
            Instruction::new(OpCode::Add as u8, 1, 2, 0),
            Instruction::new(OpCode::PrintReg as u8, 7, 0, 0),
        ]
    );
    assert_eq!(code[0].imm16(), 4660);
    // An operand that is no number, or too large, counts as 0.
    assert_eq!(parse_asm("LOADIMM 1 x").unwrap(), vec![Instruction::new(OpCode::LoadImm as u8, 1, 0, 0)]);
    assert_eq!(parse_asm("LOADIMM 1 65536").unwrap(), vec![Instruction::new(OpCode::LoadImm as u8, 1, 0, 0)]);
    assert_eq!(parse_asm("LOADIMM 1 -1").unwrap(), vec![Instruction::new(OpCode::LoadImm as u8, 1, 0, 0)]);
    assert_eq!(parse_asm("LOADIMM 257 258").unwrap(), vec![Instruction::new(OpCode::LoadImm as u8, 1, 2, 0)]);
    assert_eq!(parse_asm("").unwrap(), vec![]);
    assert_eq!(parse_asm("\n\nNOPE").unwrap_err(), AsmError::InvalidMnemonic { line: 3 });
}

#[test]
fn sgb_rejects_bad_input() {
    assert!(deserialize_sgb(b"SG").is_err());
    let mut binary = serialize_sgb(&[Instruction::new(OpCode::Halt as u8, 0, 0, 0)], 7, &[1, 2, 3]);
    let (code, fuel, data) = deserialize_sgb(&binary).unwrap();
    assert_eq!(code, vec![Instruction::new(OpCode::Halt as u8, 0, 0, 0)]);
    assert_eq!(fuel, 7);
    assert_eq!(data, vec![1, 2, 3]);
    binary[0] = b'X';
    assert!(deserialize_sgb(&binary).is_err());
}

#[test]
fn readme_usage_adds_two_immediates() {
    let script = r#"
    LOADIMM 1 5
    LOADIMM 2 10
    ADD 3 1 2
    HALT
"#;
    let code = script_go::assembler::parse_asm(script).unwrap();
    let mut vm = script_go::vm::ScriptVm::new();
    vm.run(&code).unwrap();
    assert_eq!(vm.registers[3], 15);
}

#[test]
fn fibonacci_demo_reaches_55() {
    let source = "
        LOADIMM 1 0
        LOADIMM 2 1
        LOADIMM 4 10
        LOADIMM 5 1
        ADD 3 1 2
        ADD 1 2 0
        ADD 2 3 0
        SUB 4 4 5
        JMPIFZERO 4 11
        JMP 4
        HALT
    ";
    let code = parse_asm(source).unwrap();
    let mut vm = script_go::vm::ScriptVm::new();
    vm.run(&code).unwrap();
    assert_eq!(vm.registers[1], 55);
    assert_eq!(vm.registers[2], 89);
}

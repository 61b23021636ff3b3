use script_go::compiler::ast::{BinaryOperator, Expr, Program, Statement};
use script_go::compiler::codegen::CodeGen;
use script_go::compiler::lexer::Lexer;
use script_go::compiler::parser::Parser;
use script_go::instruction::{Instruction, OpCode};
use script_go::vm::{HostKind, HostReply, ScriptVm, VmResult};

fn parse(input: &str) -> Program {
    let mut lexer = Lexer::new(input);
    let tokens = lexer.tokenize().expect("Lexing failed");
    let mut parser = Parser::new(tokens);
    parser.parse().expect("Parsing failed")
}

fn compile(input: &str) -> Vec<Instruction> {
    let program = parse(input);
    let mut codegen = CodeGen::new();
    codegen.compile(&program).expect("CodeGen failed")
}

/// Runs code whose only host requests are UI calls, collecting their operands.
fn run_with_ui(vm: &mut ScriptVm, code: &[Instruction]) -> (Result<VmResult, script_go::vm::VmError>, Vec<(usize, usize, usize)>) {
    vm.services.ui = true;
    let mut calls = Vec::new();
    let mut r = vm.run(code);
    loop {
        match r {
            Ok(VmResult::HostCall(steps, req)) => {
                match req.kind {
                    HostKind::UiCall { a, b, c } => calls.push((a, b, c)),
                    other => panic!("unexpected request {:?}", other),
                }
                vm.complete_host_call(req, HostReply::Done, false).unwrap();
                r = vm.resume_fast(code, steps);
            }
            other => return (other, calls),
        }
    }
}

#[test]
fn test_precedence_multiplication_over_addition() {
    let program = parse("let res: Int = 1 + 2 * 3;");
    assert_eq!(program.statements.len(), 1);
    if let Statement::LetDecl(name, _ty, expr) = &program.statements[0] {
        assert_eq!(name, "res");
        let expected_ast = Expr::BinaryOp(
            Box::new(Expr::IntLiteral(1)),
            BinaryOperator::Add,
            Box::new(Expr::BinaryOp(Box::new(Expr::IntLiteral(2)), BinaryOperator::Mul, Box::new(Expr::IntLiteral(3)))),
        );
        assert_eq!(*expr, expected_ast);
    } else {
        panic!("Expected LetDecl statement");
    }
    let bytecode = compile("let x = 1 + 2 * 3;");
    let mut vm = ScriptVm::new();
    vm.run(&bytecode).unwrap();
    assert_eq!(vm.registers[6], 7, "1 + 2 * 3 must evaluate to 7 in VM");
    let bytecode = compile("let res = (1 + 2 * 3) == 7;");
    let mut vm = ScriptVm::new();
    vm.run(&bytecode).unwrap();
    assert_eq!(vm.registers[8], 1, "1 + 2 * 3 == 7 must evaluate to 1 (true)");
}

#[test]
fn test_precedence_left_associativity_subtraction() {
    let program = parse("let res: Int = 10 - 2 - 3;");
    assert_eq!(program.statements.len(), 1);
    if let Statement::LetDecl(_, _, expr) = &program.statements[0] {
        let expected_ast = Expr::BinaryOp(
            Box::new(Expr::BinaryOp(Box::new(Expr::IntLiteral(10)), BinaryOperator::Sub, Box::new(Expr::IntLiteral(2)))),
            BinaryOperator::Sub,
            Box::new(Expr::IntLiteral(3)),
        );
        assert_eq!(*expr, expected_ast);
    } else {
        panic!("Expected LetDecl statement");
    }
    let bytecode = compile("let x = 10 - 2 - 3;");
    let mut vm = ScriptVm::new();
    vm.run(&bytecode).unwrap();
    assert_eq!(vm.registers[6], 5, "10 - 2 - 3 must evaluate to 5 in VM");
    let bytecode = compile("let res = (10 - 2 - 3) == 5;");
    let mut vm = ScriptVm::new();
    vm.run(&bytecode).unwrap();
    assert_eq!(vm.registers[8], 1, "10 - 2 - 3 == 5 must evaluate to 1 (true)");
}

#[test]
fn test_precedence_complex_expressions() {
    let bytecode = compile("let a = 2 + 3 * 4; let b = 100 / 10 / 2;");
    let mut vm = ScriptVm::new();
    vm.run(&bytecode).unwrap();
    assert_eq!(vm.registers[6], 14, "2 + 3 * 4 must evaluate to 14");
    assert_eq!(vm.registers[12], 5, "100 / 10 / 2 must evaluate to 5");
}

#[test]
fn test_all_compound_and_logical_operators_execution() {
    let input = r#"
        let mod_val = 10 % 3;
        let le_val = 5 <= 5;
        let ge_val = 6 >= 2;
        let ne_val = 7 != 8;
        let and_val = 1 && 1;
        let or_val = 0 || 1;
        let mut_val = 10;
        mut_val += 5;
        mut_val -= 3;
    "#;
    let bytecode = compile(input);
    let mut vm = ScriptVm::new();
    vm.run(&bytecode).expect("VM execution failed");
    assert_eq!(vm.registers[4], 1, "10 % 3 must be 1");
    assert_eq!(vm.registers[10], 1, "5 <= 5 must be 1");
    assert_eq!(vm.registers[16], 1, "6 >= 2 must be 1");
    assert_eq!(vm.registers[22], 1, "7 != 8 must be 1");
    assert_eq!(vm.registers[26], 1, "1 && 1 must be 1");
    assert_eq!(vm.registers[30], 1, "0 || 1 must be 1");
    assert_eq!(vm.registers[32], 12, "10 + 5 - 3 must be 12");
}

#[test]
fn test_logical_and_or_false_cases() {
    let input = r#"
        let and_false = 1 && 0;
        let or_false = 0 || 0;
        let ne_false = 5 != 5;
        let le_false = 6 <= 5;
        let ge_false = 2 >= 6;
    "#;
    let bytecode = compile(input);
    let mut vm = ScriptVm::new();
    vm.run(&bytecode).unwrap();
    assert_eq!(vm.registers[4], 0, "1 && 0 must be 0");
    assert_eq!(vm.registers[8], 0, "0 || 0 must be 0");
    assert_eq!(vm.registers[14], 0, "5 != 5 must be 0");
    assert_eq!(vm.registers[20], 0, "6 <= 5 must be 0");
    assert_eq!(vm.registers[26], 0, "2 >= 6 must be 0");
}

#[test]
fn test_ui_call_opcode_emission_and_verification() {
    let bytecode = compile("ui_call(1, 2, 3);");
    assert_eq!(OpCode::UiCall as u8, 36, "OpCode::UiCall numeric value must be 36");
    let ui_call_inst = bytecode.iter().find(|inst| inst.opcode() == 36);
    assert!(ui_call_inst.is_some(), "Bytecode must contain OpCode 36 (UiCall)");
    let invalid_inst = bytecode.iter().find(|inst| inst.opcode() == 254);
    assert!(invalid_inst.is_none(), "Opcode 254 must not be present in compiled bytecode");
}

#[test]
fn test_ui_call_execution_in_vm() {
    let bytecode = compile("ui_call(100, 200, 300);");
    let mut vm = ScriptVm::new();
    let (res, calls) = run_with_ui(&mut vm, &bytecode);
    res.unwrap();
    assert_eq!(calls.len(), 1, "ui_handler must be invoked by OpCode 36");
    let (reg_a, reg_b, reg_c) = calls[0];
    assert_eq!(vm.registers[reg_a], 100, "Value in reg_a must be 100");
    assert_eq!(vm.registers[reg_b], 200, "Value in reg_b must be 200");
    assert_eq!(vm.registers[reg_c], 300, "Value in reg_c must be 300");
}

#[test]
fn test_all_operators_codegen_lowering() {
    let input = r#"
        let a = 10 % 3;
        let b = 1 <= 2;
        let c = 3 >= 2;
        let d = 4 != 5;
        let e = 1 && 1;
        let f = 0 || 1;
    "#;
    let program = parse(input);
    let mut codegen = CodeGen::new();
    let result = codegen.compile(&program);
    assert!(result.is_ok(), "CodeGen lowering failed: {:?}", result.err());
    let bytecode = result.unwrap();
    assert!(!bytecode.is_empty());
}

#[test]
fn test_ui_call_opcode_emission() {
    let bytecode = compile("ui_call(1, 2, 3);");
    let ui_call_inst = bytecode.iter().find(|inst| inst.opcode() == OpCode::UiCall as u8);
    assert!(ui_call_inst.is_some(), "Expected UiCall opcode 36 in bytecode");
    let invalid_inst = bytecode.iter().find(|inst| inst.opcode() == 254);
    assert!(invalid_inst.is_none(), "Opcode 254 must not be emitted");
}

#[test]
fn test_compiler_vm_execution_and_ui_call() {
    let input = r#"
        ui_call(10, 20, 30);
        let rem = 10 % 3;
        let is_le = 5 <= 5;
        let is_ge = 6 >= 2;
        let is_ne = 7 != 8;
    "#;
    let bytecode = compile(input);
    let mut vm = ScriptVm::new();
    let (run_res, calls) = run_with_ui(&mut vm, &bytecode);
    assert!(run_res.is_ok(), "VM execution failed: {:?}", run_res.err());
    assert!(!calls.is_empty(), "ui_handler was not called by ui_call instruction");
}

#[test]
fn codegen_exact_bytecode_and_control_flow() {
    let bytecode = compile("let x = 300;");
    assert_eq!(
        bytecode,
        vec![
            Instruction::new(OpCode::LoadImm16 as u8, 1, 44, 1),
            Instruction::new(OpCode::Add as u8, 2, 1, 0),
            Instruction::new(OpCode::Halt as u8, 0, 0, 0),
        ]
    );
    let bytecode = compile("let i = 3; let s = 0; while i { s += i; i -= 1; } if s == 6 { s = 100; } else { s = 1; }");
    assert_eq!(bytecode.last(), Some(&Instruction::new(OpCode::Halt as u8, 0, 0, 0)));
    let mut vm = ScriptVm::new();
    assert!(matches!(vm.run(&bytecode), Ok(VmResult::Halted(_))));
    // i and s get the registers 2 and 4.
    assert_eq!(vm.registers[2], 0);
    assert_eq!(vm.registers[4], 100);
}

#[test]
fn codegen_errors() {
    let mut codegen = CodeGen::new();
    assert_eq!(
        codegen.compile(&parse("return 1;")),
        Err("Statement not supported yet: Return(Some(IntLiteral(1)))".to_string())
    );
    assert_eq!(codegen.compile(&parse("let s = \"x\";")), Err("Expression not supported in Phase 3".to_string()));
    assert_eq!(
        codegen.compile(&parse("spawn!(x);")),
        Err("spawn! requires an integer literal for target PC".to_string())
    );
    assert_eq!(CodeGen::new().compile_checked(&parse("set_color(1);")), None);
    assert_eq!(CodeGen::new().compile_checked(&parse("await!();")), None);
    let ok = CodeGen::new().compile_checked(&parse("spawn!(258); yield!(); let t = await!(1);")).unwrap().unwrap();
    assert_eq!(ok[0], Instruction::new(OpCode::Spawn as u8, 0, 2, 1));
    assert_eq!(ok[1], Instruction::new(OpCode::Yield as u8, 0, 0, 0));
}

#[test]
fn register_counter_must_stay_below_256() {
    let mut many = String::new();
    for i in 0..128 {
        many.push_str(&format!("let v{} = {};", i, i));
    }
    assert_eq!(CodeGen::new().compile_checked(&parse(&many)), None);
    let mut fewer = String::new();
    for i in 0..100 {
        fewer.push_str(&format!("let v{} = {};", i, i));
    }
    let code = CodeGen::new().compile_checked(&parse(&fewer)).unwrap().unwrap();
    let mut vm = ScriptVm::new();
    vm.run(&code).unwrap();
    assert!(code.len() > 100);
}

#[test]
fn compiled_code_ends_in_halt_with_jumps_inside() {
    let code = compile("let x = 0; while x < 5 { x = x + 1; if x == 3 { x = x + 2; } else { x = x + 0; } }");
    assert_eq!(code.last().unwrap().opcode(), OpCode::Halt as u8);
    let mut jumps = 0;
    for inst in &code {
        if inst.opcode() == OpCode::Jmp as u8 || inst.opcode() == OpCode::JmpIfZero as u8 {
            jumps += 1;
            assert!((inst.imm16() as usize) < code.len());
        }
    }
    assert!(jumps >= 4);
}

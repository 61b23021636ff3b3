use script_go::cli::{compile_source, compile_source_checked, needs_file_check_exec, CliConfig, SubCommand};
use script_go::instruction::{Instruction, OpCode};
use script_go::naming::{to_pascal_case, to_snake_case};

fn args(v: &[&str]) -> Vec<String> {
    v.iter().map(|s| s.to_string()).collect()
}

#[test]
fn cli_parses_subcommands() {
    let p = |v: &[&str]| CliConfig::parse_args(&args(v), false);
    assert_eq!(p(&["sgo"]).unwrap().subcommand, SubCommand::Help);
    assert_eq!(p(&["sgo", "run", "a.sgo"]).unwrap().subcommand, SubCommand::Run { file: "a.sgo".into() });
    assert_eq!(p(&["sgo", "run"]).unwrap_err(), "Usage: sgo run <file.sgo>");
    assert_eq!(p(&["sgo", "check", "b"]).unwrap().subcommand, SubCommand::Check { file: "b".into() });
    assert_eq!(
        p(&["sgo", "compile", "-o", "out.sgb", "in.sgo", "extra"]).unwrap().subcommand,
        SubCommand::Compile { file: "in.sgo".into(), output: Some("out.sgb".into()) }
    );
    assert_eq!(p(&["sgo", "compile", "in.sgo", "--output"]).unwrap_err(), "Missing argument for -o / --output");
    assert_eq!(p(&["sgo", "compile", "-o", "x"]).unwrap_err(), "Usage: sgo compile <file.sgo> [-o output.sgb]");
    assert_eq!(
        p(&["sgo", "watch", "w.sgo", "--once"]).unwrap().subcommand,
        SubCommand::Watch { file: "w.sgo".into(), max_iterations: Some(1) }
    );
    assert_eq!(
        p(&["sgo", "watch", "w.sgo"]).unwrap().subcommand,
        SubCommand::Watch { file: "w.sgo".into(), max_iterations: None }
    );
    assert_eq!(p(&["sgo", "--replay", "t.json"]).unwrap().subcommand, SubCommand::Replay { file: "t.json".into() });
    assert_eq!(p(&["sgo", "--build", "a"]).unwrap_err(), "Usage: sgo --build <input> <output>");
    assert_eq!(
        p(&["sgo", "--build", "a", "b"]).unwrap().subcommand,
        SubCommand::Build { input: "a".into(), output: "b".into() }
    );
    assert_eq!(p(&["sgo", "-h"]).unwrap().subcommand, SubCommand::Help);
    assert_eq!(p(&["sgo", "prog.sgb"]).unwrap().subcommand, SubCommand::Run { file: "prog.sgb".into() });
    assert_eq!(p(&["sgo", "nothing"]).unwrap_err(), "Unknown subcommand or file not found: nothing");
    assert_eq!(
        CliConfig::parse_args(&args(&["sgo", "nothing"]), true).unwrap().subcommand,
        SubCommand::Run { file: "nothing".into() }
    );
    assert!(needs_file_check_exec(&args(&["sgo", "nothing"])));
    assert!(!needs_file_check_exec(&args(&["sgo", "run", "x"])));
    assert!(!needs_file_check_exec(&args(&["sgo"])));
}

#[test]
fn compile_source_falls_back_to_assembly() {
    assert_eq!(compile_source("let x = 1;").unwrap().len(), 3);
    assert_eq!(
        compile_source("LOADIMM 1 5\nHALT").unwrap(),
        vec![Instruction::new(OpCode::LoadImm as u8, 1, 5, 0), Instruction::new(OpCode::Halt as u8, 0, 0, 0)]
    );
    assert_eq!(
        compile_source("let x = @;").unwrap_err(),
        "Lexer error: Syntax error at line 1, column 9: Unrecognized character '@'"
    );
    assert_eq!(
        compile_source("let x = 1").unwrap_err(),
        "Parser error: Syntax error at line 1, column 10: Expected ';' after let declaration"
    );
    assert_eq!(
        compile_source("return 1;").unwrap_err(),
        "CodeGen compilation error: Statement not supported yet: Return(Some(IntLiteral(1)))"
    );
    assert_eq!(compile_source_checked("set_color(1);"), None);
}

#[test]
fn naming_cases() {
    assert_eq!(to_pascal_case("read_file-now"), "ReadFileNow");
    assert_eq!(to_pascal_case("__a"), "A");
    assert_eq!(to_pascal_case(""), "");
    assert_eq!(to_snake_case("ReadFile"), "read_file");
    assert_eq!(to_snake_case("http-get"), "http_get");
    assert_eq!(to_snake_case("aB"), "a_b");
}

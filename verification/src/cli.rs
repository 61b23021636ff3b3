use vstd::prelude::*;
use crate::text::{str_eq, str_chars, string_from_chars, concat_chars};
use crate::instruction::Instruction;
use crate::assembler::{assemble, parse_asm};
use crate::compiler::lexer::{Lexer, spec_tokenize, fail_text};
use crate::compiler::parser::{Parser, parse_program, parse_error_text};
use crate::compiler::codegen::{CodeGen, LowerState, compile_spec};
use crate::binary::{SGB_MAGIC, magic_bytes, sgb_parse, fault_message, deserialize_sgb};
use crate::vm::utf8_to_string;
use vstd::utf8::{valid_utf8, decode_utf8};

verus! {

/// The subcommands of the command line tool.
#[derive(Debug, Clone, PartialEq, Eq)]
pub enum SubCommand {
    Run { file: String },
    Check { file: String },
    Compile { file: String, output: Option<String> },
    Watch { file: String, max_iterations: Option<usize> },
    Replay { file: String },
    Build { input: String, output: String },
    Help,
}

/// The mathematical value of a subcommand.
pub enum SubCommandV {
    Run { file: Seq<char> },
    Check { file: Seq<char> },
    Compile { file: Seq<char>, output: Option<Seq<char>> },
    Watch { file: Seq<char>, max_iterations: Option<usize> },
    Replay { file: Seq<char> },
    Build { input: Seq<char>, output: Seq<char> },
    Help,
}

impl View for SubCommand {
    type V = SubCommandV;

    open spec fn view(&self) -> SubCommandV {
        match self {
            SubCommand::Run { file } => SubCommandV::Run { file: file@ },
            SubCommand::Check { file } => SubCommandV::Check { file: file@ },
            SubCommand::Compile { file, output } => SubCommandV::Compile {
                file: file@,
                output: match output {
                    Some(o) => Some(o@),
                    None => None,
                },
            },
            SubCommand::Watch { file, max_iterations } => SubCommandV::Watch {
                file: file@,
                max_iterations: *max_iterations,
            },
            SubCommand::Replay { file } => SubCommandV::Replay { file: file@ },
            SubCommand::Build { input, output } => SubCommandV::Build { input: input@, output: output@ },
            SubCommand::Help => SubCommandV::Help,
        }
    }
}

/// The parsed command line.
#[derive(Debug, Clone, PartialEq, Eq)]
pub struct CliConfig {
    pub subcommand: SubCommand,
}

pub open spec fn args_view(args: Seq<String>) -> Seq<Seq<char>> {
    args.map_values(|a: String| a@)
}

pub open spec fn ends_with(s: Seq<char>, suffix: Seq<char>) -> bool {
    s.len() >= suffix.len() && s.subrange(s.len() - suffix.len(), s.len() as int) == suffix
}

pub open spec fn compile_usage() -> Seq<char> {
    "Usage: sgo compile <file.sgo> [-o output.sgb]"@
}

/// The options of `compile` from argument `idx` on: `-o` or `--output`
/// takes the next argument as the output (a later one wins), the first
/// other argument is the file and the rest are ignored.
pub open spec fn compile_options(
    a: Seq<Seq<char>>,
    idx: int,
    file: Option<Seq<char>>,
    output: Option<Seq<char>>,
) -> Result<SubCommandV, Seq<char>>
    decreases a.len() - idx,
{
    if idx < 0 || idx >= a.len() {
        match file {
            None => Err(compile_usage()),
            Some(f) => Ok(SubCommandV::Compile { file: f, output }),
        }
    } else if a[idx] == "-o"@ || a[idx] == "--output"@ {
        if idx + 1 < a.len() {
            compile_options(a, idx + 2, file, Some(a[idx + 1]))
        } else {
            Err("Missing argument for -o / --output"@)
        }
    } else if file is None {
        compile_options(a, idx + 1, Some(a[idx]), output)
    } else {
        compile_options(a, idx + 1, file, output)
    }
}

/// The subcommand that the arguments (the program name first) ask for;
/// `file_exists` says whether a file of the name of the first argument exists,
/// which decides only when that argument is no subcommand.
pub open spec fn parse_command(a: Seq<Seq<char>>, file_exists: bool) -> Result<SubCommandV, Seq<char>> {
    if a.len() <= 1 {
        Ok(SubCommandV::Help)
    } else {
        let s = a[1];
        if s == "run"@ {
            if a.len() < 3 { Err("Usage: sgo run <file.sgo>"@) } else { Ok(SubCommandV::Run { file: a[2] }) }
        } else if s == "check"@ {
            if a.len() < 3 { Err("Usage: sgo check <file.sgo>"@) } else { Ok(SubCommandV::Check { file: a[2] }) }
        } else if s == "compile"@ {
            if a.len() < 3 { Err(compile_usage()) } else { compile_options(a, 2, None, None) }
        } else if s == "watch"@ {
            if a.len() < 3 {
                Err("Usage: sgo watch <file.sgo> [--once]"@)
            } else {
                Ok(
                    SubCommandV::Watch {
                        file: a[2],
                        max_iterations: if exists|i: int| 0 <= i < a.len() && a[i] == "--once"@ {
                            Some(1)
                        } else {
                            None
                        },
                    },
                )
            }
        } else if s == "--replay"@ {
            if a.len() < 3 {
                Err("Usage: sgo --replay <trace.json>"@)
            } else {
                Ok(SubCommandV::Replay { file: a[2] })
            }
        } else if s == "--build"@ {
            if a.len() < 4 {
                Err("Usage: sgo --build <input> <output>"@)
            } else {
                Ok(SubCommandV::Build { input: a[2], output: a[3] })
            }
        } else if s == "--help"@ || s == "-h"@ || s == "help"@ {
            Ok(SubCommandV::Help)
        } else if file_exists || ends_with(s, ".sgo"@) || ends_with(s, ".sgb"@) {
            Ok(SubCommandV::Run { file: s })
        } else {
            Err("Unknown subcommand or file not found: "@ + s)
        }
    }
}

/// Whether the first argument is no subcommand, so that whether a file of
/// its name exists decides the outcome.
pub open spec fn needs_file_check(a: Seq<Seq<char>>) -> bool {
    a.len() > 1 && !(a[1] == "run"@ || a[1] == "check"@ || a[1] == "compile"@ || a[1] == "watch"@
        || a[1] == "--replay"@ || a[1] == "--build"@ || a[1] == "--help"@ || a[1] == "-h"@
        || a[1] == "help"@)
}

fn err_text(msg: &str) -> (r: String)
    ensures
        r@ == msg@,
{
    string_from_chars(&str_chars(msg))
}

fn str_ends_with(s: &str, suffix: &str) -> (r: bool)
    ensures
        r == ends_with(s@, suffix@),
{
    let sc = str_chars(s);
    let tc = str_chars(suffix);
    if sc.len() < tc.len() {
        return false;
    }
    let off = sc.len() - tc.len();
    let mut i: usize = 0;
    assert(off + tc@.len() == sc@.len());
    while i < tc.len()
        invariant
            i <= tc@.len(),
            off + tc@.len() == sc@.len(),
            sc@ == s@,
            tc@ == suffix@,
            off + tc.len() == sc.len(),
            forall|k: int| 0 <= k < i ==> sc@[off + k] == tc@[k],
        decreases tc@.len() - i,
    {
        if sc[off + i] != tc[i] {
            proof {
                assert(sc@.subrange(off as int, sc@.len() as int)[i as int] != tc@[i as int]);
            }
            return false;
        }
        i = i + 1;
    }
    proof {
        assert(sc@.subrange(off as int, sc@.len() as int) =~= tc@);
    }
    true
}

/// Whether the first argument is no subcommand, so that the caller has to
/// say whether a file of its name exists.
pub fn needs_file_check_exec(args: &[String]) -> (r: bool)
    ensures
        r == needs_file_check(args_view(args@)),
{
    if args.len() <= 1 {
        return false;
    }
    let s = args[1].as_str();
    !(str_eq(s, "run") || str_eq(s, "check") || str_eq(s, "compile") || str_eq(s, "watch") || str_eq(
        s,
        "--replay",
    ) || str_eq(s, "--build") || str_eq(s, "--help") || str_eq(s, "-h") || str_eq(s, "help"))
}

fn compile_options_exec(args: &[String]) -> (r: Result<SubCommand, String>)
    requires
        args@.len() >= 3,
    ensures
        match compile_options(args_view(args@), 2, None, None) {
            Ok(c) => r is Ok && r->Ok_0@ == c,
            Err(m) => r is Err && r->Err_0@ == m,
        },
{
    let ghost a = args_view(args@);
    let mut file: Option<String> = None;
    let mut output: Option<String> = None;
    let mut idx: usize = 2;
    while idx < args.len()
        invariant
            a == args_view(args@),
            2 <= idx <= args@.len() + 1,
            compile_options(a, 2, None, None) == compile_options(
                a,
                idx as int,
                match file {
                    Some(f) => Some(f@),
                    None => None,
                },
                match output {
                    Some(o) => Some(o@),
                    None => None,
                },
            ),
        decreases args@.len() + 1 - idx,
    {
        proof {
            assert(a[idx as int] == args@[idx as int]@);
        }
        let arg = args[idx].as_str();
        if str_eq(arg, "-o") || str_eq(arg, "--output") {
            if idx + 1 < args.len() {
                proof {
                    assert(a[idx + 1] == args@[idx + 1]@);
                }
                output = Some(args[idx + 1].clone());
                idx = idx + 2;
            } else {
                return Err(err_text("Missing argument for -o / --output"));
            }
        } else if file.is_none() {
            file = Some(args[idx].clone());
            idx = idx + 1;
        } else {
            idx = idx + 1;
        }
    }
    match file {
        None => Err(err_text("Usage: sgo compile <file.sgo> [-o output.sgb]")),
        Some(f) => Ok(SubCommand::Compile { file: f, output }),
    }
}

impl CliConfig {
    /// Parses the command line (the program name first). `file_exists` says
    /// whether a file of the name of the first argument exists; it decides
    /// only when that argument names no subcommand (see
    /// `needs_file_check_exec`).
    pub fn parse_args(args: &[String], file_exists: bool) -> (r: Result<Self, String>)
        ensures
            match parse_command(args_view(args@), file_exists) {
                Ok(c) => r is Ok && r->Ok_0.subcommand@ == c,
                Err(m) => r is Err && r->Err_0@ == m,
            },
    {
        let ghost a = args_view(args@);
        if args.len() <= 1 {
            return Ok(CliConfig { subcommand: SubCommand::Help });
        }
        proof {
            assert(a[1] == args@[1]@);
            if a.len() > 2 {
                assert(a[2] == args@[2]@);
            }
            if a.len() > 3 {
                assert(a[3] == args@[3]@);
            }
        }
        let s = args[1].as_str();
        proof {
            assert(s@ == a[1]);
            assert(a.len() == args@.len());
        }
        if str_eq(s, "run") {
            if args.len() < 3 {
                return Err(err_text("Usage: sgo run <file.sgo>"));
            }
            return Ok(CliConfig { subcommand: SubCommand::Run { file: args[2].clone() } });
        }
        if str_eq(s, "check") {
            if args.len() < 3 {
                return Err(err_text("Usage: sgo check <file.sgo>"));
            }
            return Ok(CliConfig { subcommand: SubCommand::Check { file: args[2].clone() } });
        }
        if str_eq(s, "compile") {
            if args.len() < 3 {
                return Err(err_text("Usage: sgo compile <file.sgo> [-o output.sgb]"));
            }
            let sub = compile_options_exec(args)?;
            return Ok(CliConfig { subcommand: sub });
        }
        if str_eq(s, "watch") {
            if args.len() < 3 {
                return Err(err_text("Usage: sgo watch <file.sgo> [--once]"));
            }
            let mut once = false;
            let mut i: usize = 0;
            while i < args.len()
                invariant
                    i <= args@.len(),
                    a == args_view(args@),
                    once == exists|k: int| 0 <= k < i && a[k] == "--once"@,
                decreases args@.len() - i,
            {
                proof {
                    assert(a[i as int] == args@[i as int]@);
                }
                if str_eq(args[i].as_str(), "--once") {
                    once = true;
                }
                i = i + 1;
            }
            return Ok(
                CliConfig {
                    subcommand: SubCommand::Watch {
                        file: args[2].clone(),
                        max_iterations: if once { Some(1) } else { None },
                    },
                },
            );
        }
        if str_eq(s, "--replay") {
            if args.len() < 3 {
                return Err(err_text("Usage: sgo --replay <trace.json>"));
            }
            return Ok(CliConfig { subcommand: SubCommand::Replay { file: args[2].clone() } });
        }
        if str_eq(s, "--build") {
            if args.len() < 4 {
                return Err(err_text("Usage: sgo --build <input> <output>"));
            }
            return Ok(
                CliConfig { subcommand: SubCommand::Build { input: args[2].clone(), output: args[3].clone() } },
            );
        }
        if str_eq(s, "--help") || str_eq(s, "-h") || str_eq(s, "help") {
            return Ok(CliConfig { subcommand: SubCommand::Help });
        }
        if file_exists || str_ends_with(s, ".sgo") || str_ends_with(s, ".sgb") {
            return Ok(CliConfig { subcommand: SubCommand::Run { file: args[1].clone() } });
        }
        let msg = concat_chars(&str_chars("Unknown subcommand or file not found: "), &str_chars(s));
        Err(string_from_chars(&msg))
    }
}

/// The register state of a new code generator.
pub open spec fn fresh_codegen() -> LowerState {
    LowerState {
        counter: 1,
        overflowed: false,
        regs: Seq::empty(),
        vars: Seq::empty(),
        code: Seq::empty(),
        patches: Seq::empty(),
    }
}

/// `prefix` followed by `msg`, unless the source assembles, in which case
/// the assembled program.
pub open spec fn or_assembly(src: Seq<char>, prefix: Seq<char>, msg: Seq<char>) -> Result<Seq<Instruction>, Seq<char>> {
    match assemble(src) {
        Ok(code) => Ok(code),
        Err(_) => Err(prefix + msg),
    }
}

/// What compiling a source text gives: the script compiled by the lexer,
/// parser and code generator, or, where one of them fails, the text
/// assembled as assembly, or else the first failure. `None` where code
/// generation would index an argument that a call lacks.
pub open spec fn compile_source_spec(src: Seq<char>) -> Option<Result<Seq<Instruction>, Seq<char>>> {
    match spec_tokenize(src, 0) {
        Err(f) => Some(or_assembly(src, "Lexer error: "@, fail_text(src, f))),
        Ok(ts) => match parse_program(ts, 0) {
            Err(pf) => Some(or_assembly(src, "Parser error: "@, parse_error_text(ts, pf))),
            Ok(prog) => match compile_spec(fresh_codegen(), prog) {
                None => None,
                Some((_, Ok(code))) => Some(Ok(code)),
                Some((_, Err(m))) => Some(or_assembly(src, "CodeGen compilation error: "@, m)),
            },
        },
    }
}

/// `prefix` followed by `msg`, unless `source` assembles.
fn fall_back_to_assembly(source: &str, prefix: &str, msg: &String) -> (r: Result<Vec<Instruction>, String>)
    ensures
        match or_assembly(source@, prefix@, msg@) {
            Ok(c) => r is Ok && r->Ok_0@ == c,
            Err(m) => r is Err && r->Err_0@ == m,
        },
{
    match parse_asm(source) {
        Ok(code) => Ok(code),
        Err(_) => Err(string_from_chars(&concat_chars(&str_chars(prefix), &str_chars(msg.as_str())))),
    }
}

/// Compiles a source text, a script or else assembly; `None` where code
/// generation would index an argument that a call lacks.
pub fn compile_source_checked(source: &str) -> (r: Option<Result<Vec<Instruction>, String>>)
    ensures
        match compile_source_spec(source@) {
            Some(Ok(c)) => r is Some && r->Some_0 is Ok && r->Some_0->Ok_0@ == c,
            Some(Err(m)) => r is Some && r->Some_0 is Err && r->Some_0->Err_0@ == m,
            None => r is None,
        },
{
    let mut lexer = Lexer::new(source);
    let tokens = match lexer.tokenize() {
        Ok(t) => t,
        Err(e) => {
            return Some(fall_back_to_assembly(source, "Lexer error: ", &e));
        },
    };
    let mut parser = Parser::new(tokens);
    let program = match parser.parse() {
        Ok(p) => p,
        Err(e) => {
            return Some(fall_back_to_assembly(source, "Parser error: ", &e));
        },
    };
    let mut codegen = CodeGen::new();
    match codegen.compile_checked(&program) {
        None => None,
        Some(Ok(code)) => Some(Ok(code)),
        Some(Err(e)) => Some(fall_back_to_assembly(source, "CodeGen compilation error: ", &e)),
    }
}

/// Compiles source text (a script, or else assembly) into machine code.
pub fn compile_source(source: &str) -> (r: Result<Vec<Instruction>, String>)
    requires
        compile_source_spec(source@) is Some,
    ensures
        match compile_source_spec(source@) {
            Some(Ok(c)) => r is Ok && r->Ok_0@ == c,
            Some(Err(m)) => r is Err && r->Err_0@ == m,
            None => true,
        },
{
    match compile_source_checked(source) {
        Some(r) => r,
        None => {
            proof {
                assert(false);
            }
            Err(String::new())
        },
    }
}

/// Why a program file cannot be loaded.
#[derive(Debug, Clone, PartialEq, Eq)]
pub enum LoadError {
    /// An SGB image that `deserialize_sgb` refuses, with its message.
    Sgb(String),
    /// Text that is not UTF-8.
    NotUtf8,
    /// Source text that does not compile, with the message.
    Compile(String),
}

pub enum LoadErrorV {
    Sgb(Seq<char>),
    NotUtf8,
    Compile(Seq<char>),
}

impl View for LoadError {
    type V = LoadErrorV;

    open spec fn view(&self) -> LoadErrorV {
        match self {
            LoadError::Sgb(m) => LoadErrorV::Sgb(m@),
            LoadError::NotUtf8 => LoadErrorV::NotUtf8,
            LoadError::Compile(m) => LoadErrorV::Compile(m@),
        }
    }
}

/// What the bytes of a program file give: an SGB image (the file starts with
/// the SGB magic) decoded, or else UTF-8 source text compiled. `None` where
/// code generation would index an argument that a call lacks.
pub open spec fn load_spec(b: Seq<u8>) -> Option<Result<Seq<Instruction>, LoadErrorV>> {
    if b.len() >= 4 && b.take(4) == magic_bytes() {
        match sgb_parse(b) {
            Ok((code, _, _)) => Some(Ok(code)),
            Err(f) => Some(Err(LoadErrorV::Sgb(fault_message(f)))),
        }
    } else if !valid_utf8(b) {
        Some(Err(LoadErrorV::NotUtf8))
    } else {
        match compile_source_spec(decode_utf8(b)) {
            Some(Ok(code)) => Some(Ok(code)),
            Some(Err(m)) => Some(Err(LoadErrorV::Compile(m))),
            None => None,
        }
    }
}

/// Loads a program from the bytes of a file: an SGB image, or source text
/// to compile.
pub fn load_program(bytes: Vec<u8>) -> (r: Option<Result<Vec<Instruction>, LoadError>>)
    ensures
        match load_spec(bytes@) {
            Some(Ok(c)) => r is Some && r->Some_0 is Ok && r->Some_0->Ok_0@ == c,
            Some(Err(e)) => r is Some && r->Some_0 is Err && r->Some_0->Err_0@ == e,
            None => r is None,
        },
{
    if bytes.len() >= 4 && bytes[0] == SGB_MAGIC[0] && bytes[1] == SGB_MAGIC[1] && bytes[2] == SGB_MAGIC[2]
        && bytes[3] == SGB_MAGIC[3] {
        proof {
            assert(bytes@.take(4) =~= magic_bytes());
        }
        return match deserialize_sgb(bytes.as_slice()) {
            Ok((code, _, _)) => Some(Ok(code)),
            Err(e) => Some(Err(LoadError::Sgb(String::from_str(e)))),
        };
    }
    proof {
        if bytes@.len() >= 4 && bytes@.take(4) == magic_bytes() {
            assert(bytes@.take(4)[0] == bytes@[0]);
            assert(bytes@.take(4)[1] == bytes@[1]);
            assert(bytes@.take(4)[2] == bytes@[2]);
            assert(bytes@.take(4)[3] == bytes@[3]);
        }
    }
    match utf8_to_string(bytes) {
        None => Some(Err(LoadError::NotUtf8)),
        Some(source) => match compile_source_checked(source.as_str()) {
            Some(Ok(code)) => Some(Ok(code)),
            Some(Err(m)) => Some(Err(LoadError::Compile(m))),
            None => None,
        },
    }
}

} // verus!

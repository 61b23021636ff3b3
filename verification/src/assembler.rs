use vstd::prelude::*;
use crate::instruction::{Instruction, OpCode, encode, lemma_decode_encode};
use crate::text::{
    is_white_space, is_ascii_digit, digits_value, lemma_digits_value_prefix, unicode_to_upper,
    str_chars, char_is_whitespace, str_to_uppercase, chars_eq,
};

verus! {

/// Why a source text does not assemble.
#[derive(Debug, Clone, Copy, PartialEq, Eq, Structural)]
pub enum AsmError {
    /// The first word of line `line` (counted from 1) names no instruction.
    InvalidMnemonic { line: usize },
}

/// The lines of a text from index `i` on, the current line holding `cur`:
/// the pieces between newline characters.
pub open spec fn lines_from(s: Seq<char>, i: int, cur: Seq<char>) -> Seq<Seq<char>>
    decreases s.len() - i,
{
    if i < 0 || i >= s.len() {
        seq![cur]
    } else if s[i] == '\n' {
        seq![cur] + lines_from(s, i + 1, Seq::empty())
    } else {
        lines_from(s, i + 1, cur.push(s[i]))
    }
}

/// The lines of a source text. A carriage return before a newline stays in
/// its line, where it is white space like any other.
pub open spec fn source_lines(s: Seq<char>) -> Seq<Seq<char>> {
    lines_from(s, 0, Seq::empty())
}

/// The words of a text from index `i` on, the current word holding `cur`:
/// the maximal runs of characters that are not white space.
pub open spec fn words_from(t: Seq<char>, i: int, cur: Seq<char>) -> Seq<Seq<char>>
    decreases t.len() - i,
{
    let done: Seq<Seq<char>> = if cur.len() > 0 { seq![cur] } else { Seq::empty() };
    if i < 0 || i >= t.len() {
        done
    } else if is_white_space(t[i]) {
        done + words_from(t, i + 1, Seq::empty())
    } else {
        words_from(t, i + 1, cur.push(t[i]))
    }
}

pub open spec fn words(t: Seq<char>) -> Seq<Seq<char>> {
    words_from(t, 0, Seq::empty())
}

/// The value of an unsigned 16-bit literal: an optional `+`, then one or more
/// decimal digits whose value fits.
pub open spec fn u16_literal(t: Seq<char>) -> Option<u16> {
    let d = unsigned_digits(t);
    if d.len() > 0 && all_ascii_digits(d) && digits_value(d) <= u16::MAX {
        Some(digits_value(d) as u16)
    } else {
        None
    }
}

/// A literal without the `+` that may start it.
pub open spec fn unsigned_digits(t: Seq<char>) -> Seq<char> {
    if t.len() > 0 && t[0] == '+' { t.subrange(1, t.len() as int) } else { t }
}

pub open spec fn all_ascii_digits(d: Seq<char>) -> bool {
    forall|k: int| 0 <= k < d.len() ==> is_ascii_digit(#[trigger] d[k])
}

/// Operand `k` of a line: the value of its `k`-th word, or 0 when the word is
/// missing or is no literal.
pub open spec fn operand(ws: Seq<Seq<char>>, k: int) -> u16 {
    if k < ws.len() {
        match u16_literal(ws[k]) {
            Some(v) => v,
            None => 0,
        }
    } else {
        0
    }
}

/// Where an instruction takes its operands from.
#[derive(Debug, Clone, Copy, PartialEq, Eq, Structural)]
pub enum Layout {
    /// No operands.
    Bare,
    /// A from the first operand, B from the second.
    AB,
    /// A, B and C from the three operands.
    ABC,
    /// A from the first operand, a 16-bit immediate in B and C from the second.
    AImm,
    /// A 16-bit immediate in B and C from the first operand.
    Imm,
    /// A from the first operand.
    A,
}

/// The instruction that a mnemonic (in upper case) names, and its layout.
pub open spec fn mnemonic(m: Seq<char>) -> Option<(OpCode, Layout)> {
    if m == "HALT"@ {
        Some((OpCode::Halt, Layout::Bare))
    } else if m == "LOADIMM"@ {
        Some((OpCode::LoadImm, Layout::AB))
    } else if m == "LOADIMM16"@ {
        Some((OpCode::LoadImm16, Layout::AImm))
    } else if m == "ADD"@ {
        Some((OpCode::Add, Layout::ABC))
    } else if m == "SUB"@ {
        Some((OpCode::Sub, Layout::ABC))
    } else if m == "MUL"@ {
        Some((OpCode::Mul, Layout::ABC))
    } else if m == "DIV"@ {
        Some((OpCode::Div, Layout::ABC))
    } else if m == "MOD"@ {
        Some((OpCode::Mod, Layout::ABC))
    } else if m == "FADD"@ {
        Some((OpCode::FAdd, Layout::ABC))
    } else if m == "FSUB"@ {
        Some((OpCode::FSub, Layout::ABC))
    } else if m == "FMUL"@ {
        Some((OpCode::FMul, Layout::ABC))
    } else if m == "FDIV"@ {
        Some((OpCode::FDiv, Layout::ABC))
    } else if m == "AND"@ {
        Some((OpCode::And, Layout::ABC))
    } else if m == "OR"@ {
        Some((OpCode::Or, Layout::ABC))
    } else if m == "XOR"@ {
        Some((OpCode::Xor, Layout::ABC))
    } else if m == "SHL"@ {
        Some((OpCode::Shl, Layout::ABC))
    } else if m == "SHR"@ {
        Some((OpCode::Shr, Layout::ABC))
    } else if m == "JMP"@ {
        Some((OpCode::Jmp, Layout::Imm))
    } else if m == "JMPIFZERO"@ {
        Some((OpCode::JmpIfZero, Layout::AImm))
    } else if m == "JMPIFEQ"@ {
        Some((OpCode::JmpIfEq, Layout::ABC))
    } else if m == "JMPIFLT"@ {
        Some((OpCode::JmpIfLt, Layout::ABC))
    } else if m == "JMPIFGT"@ {
        Some((OpCode::JmpIfGt, Layout::ABC))
    } else if m == "JMPIFFLT"@ {
        Some((OpCode::JmpIfFLt, Layout::ABC))
    } else if m == "JMPIFFGT"@ {
        Some((OpCode::JmpIfFGt, Layout::ABC))
    } else if m == "CALL"@ {
        Some((OpCode::Call, Layout::Imm))
    } else if m == "RET"@ {
        Some((OpCode::Ret, Layout::Bare))
    } else if m == "PRINTREG"@ {
        Some((OpCode::PrintReg, Layout::A))
    } else if m == "LOAD"@ {
        Some((OpCode::Load, Layout::ABC))
    } else if m == "STORE"@ {
        Some((OpCode::Store, Layout::ABC))
    } else if m == "EXP"@ {
        Some((OpCode::Exp, Layout::AB))
    } else if m == "RSQRT"@ {
        Some((OpCode::Rsqrt, Layout::AB))
    } else if m == "SILU"@ {
        Some((OpCode::Silu, Layout::AB))
    } else if m == "UICALL"@ {
        Some((OpCode::UiCall, Layout::ABC))
    } else if m == "NEURALCALL"@ {
        Some((OpCode::NeuralCall, Layout::ABC))
    } else {
        None
    }
}

/// The name of an operation in upper case, as assembly text writes it;
/// the operations that assembly text cannot write have no name.
pub open spec fn opcode_name(op: OpCode) -> Option<Seq<char>> {
    match op {
        OpCode::Halt => Some("HALT"@),
        OpCode::LoadImm => Some("LOADIMM"@),
        OpCode::LoadImm16 => Some("LOADIMM16"@),
        OpCode::Add => Some("ADD"@),
        OpCode::Sub => Some("SUB"@),
        OpCode::Mul => Some("MUL"@),
        OpCode::Div => Some("DIV"@),
        OpCode::Mod => Some("MOD"@),
        OpCode::FAdd => Some("FADD"@),
        OpCode::FSub => Some("FSUB"@),
        OpCode::FMul => Some("FMUL"@),
        OpCode::FDiv => Some("FDIV"@),
        OpCode::And => Some("AND"@),
        OpCode::Or => Some("OR"@),
        OpCode::Xor => Some("XOR"@),
        OpCode::Shl => Some("SHL"@),
        OpCode::Shr => Some("SHR"@),
        OpCode::Jmp => Some("JMP"@),
        OpCode::JmpIfZero => Some("JMPIFZERO"@),
        OpCode::JmpIfEq => Some("JMPIFEQ"@),
        OpCode::JmpIfLt => Some("JMPIFLT"@),
        OpCode::JmpIfGt => Some("JMPIFGT"@),
        OpCode::JmpIfFLt => Some("JMPIFFLT"@),
        OpCode::JmpIfFGt => Some("JMPIFFGT"@),
        OpCode::Call => Some("CALL"@),
        OpCode::Ret => Some("RET"@),
        OpCode::PrintReg => Some("PRINTREG"@),
        OpCode::Load => Some("LOAD"@),
        OpCode::Store => Some("STORE"@),
        OpCode::Exp => Some("EXP"@),
        OpCode::Rsqrt => Some("RSQRT"@),
        OpCode::Silu => Some("SILU"@),
        OpCode::UiCall => Some("UICALL"@),
        OpCode::NeuralCall => Some("NEURALCALL"@),
        _ => None,
    }
}

/// Each mnemonic names the operation of the same name: when a word is a
/// mnemonic, it is the name of the operation it assembles to.
pub proof fn lemma_mnemonic_names_its_operation(m: Seq<char>)
    ensures
        mnemonic(m) matches Some((op, _)) ==> opcode_name(op) == Some(m),
{
}

/// Every operation that assembly text can write is written by its own name:
/// its name is a mnemonic, for that operation.
pub proof fn lemma_operation_name_is_mnemonic(op: OpCode)
    ensures
        opcode_name(op) matches Some(n) ==> mnemonic(n) matches Some((o, _)) && o == op,
{
    match op {
        OpCode::Halt => {
            reveal_strlit("HALT");
        },
        OpCode::LoadImm => {
            reveal_strlit("LOADIMM");
            reveal_strlit("HALT");
            assert("LOADIMM"@.len() != "HALT"@.len());
        },
        OpCode::LoadImm16 => {
            reveal_strlit("LOADIMM16");
            reveal_strlit("HALT");
            assert("LOADIMM16"@.len() != "HALT"@.len());
            reveal_strlit("LOADIMM");
            assert("LOADIMM16"@.len() != "LOADIMM"@.len());
        },
        OpCode::Add => {
            reveal_strlit("ADD");
            reveal_strlit("HALT");
            assert("ADD"@.len() != "HALT"@.len());
            reveal_strlit("LOADIMM");
            assert("ADD"@.len() != "LOADIMM"@.len());
            reveal_strlit("LOADIMM16");
            assert("ADD"@.len() != "LOADIMM16"@.len());
        },
        OpCode::Sub => {
            reveal_strlit("SUB");
            reveal_strlit("HALT");
            assert("SUB"@.len() != "HALT"@.len());
            reveal_strlit("LOADIMM");
            assert("SUB"@.len() != "LOADIMM"@.len());
            reveal_strlit("LOADIMM16");
            assert("SUB"@.len() != "LOADIMM16"@.len());
            reveal_strlit("ADD");
            assert("SUB"@[0] != "ADD"@[0]);
        },
        OpCode::Mul => {
            reveal_strlit("MUL");
            reveal_strlit("HALT");
            assert("MUL"@.len() != "HALT"@.len());
            reveal_strlit("LOADIMM");
            assert("MUL"@.len() != "LOADIMM"@.len());
            reveal_strlit("LOADIMM16");
            assert("MUL"@.len() != "LOADIMM16"@.len());
            reveal_strlit("ADD");
            assert("MUL"@[0] != "ADD"@[0]);
            reveal_strlit("SUB");
            assert("MUL"@[0] != "SUB"@[0]);
        },
        OpCode::Div => {
            reveal_strlit("DIV");
            reveal_strlit("HALT");
            assert("DIV"@.len() != "HALT"@.len());
            reveal_strlit("LOADIMM");
            assert("DIV"@.len() != "LOADIMM"@.len());
            reveal_strlit("LOADIMM16");
            assert("DIV"@.len() != "LOADIMM16"@.len());
            reveal_strlit("ADD");
            assert("DIV"@[0] != "ADD"@[0]);
            reveal_strlit("SUB");
            assert("DIV"@[0] != "SUB"@[0]);
            reveal_strlit("MUL");
            assert("DIV"@[0] != "MUL"@[0]);
        },
        OpCode::Mod => {
            reveal_strlit("MOD");
            reveal_strlit("HALT");
            assert("MOD"@.len() != "HALT"@.len());
            reveal_strlit("LOADIMM");
            assert("MOD"@.len() != "LOADIMM"@.len());
            reveal_strlit("LOADIMM16");
            assert("MOD"@.len() != "LOADIMM16"@.len());
            reveal_strlit("ADD");
            assert("MOD"@[0] != "ADD"@[0]);
            reveal_strlit("SUB");
            assert("MOD"@[0] != "SUB"@[0]);
            reveal_strlit("MUL");
            assert("MOD"@[1] != "MUL"@[1]);
            reveal_strlit("DIV");
            assert("MOD"@[0] != "DIV"@[0]);
        },
        OpCode::FAdd => {
            reveal_strlit("FADD");
            reveal_strlit("HALT");
            assert("FADD"@[0] != "HALT"@[0]);
            reveal_strlit("LOADIMM");
            assert("FADD"@.len() != "LOADIMM"@.len());
            reveal_strlit("LOADIMM16");
            assert("FADD"@.len() != "LOADIMM16"@.len());
            reveal_strlit("ADD");
            assert("FADD"@.len() != "ADD"@.len());
            reveal_strlit("SUB");
            assert("FADD"@.len() != "SUB"@.len());
            reveal_strlit("MUL");
            assert("FADD"@.len() != "MUL"@.len());
            reveal_strlit("DIV");
            assert("FADD"@.len() != "DIV"@.len());
            reveal_strlit("MOD");
            assert("FADD"@.len() != "MOD"@.len());
        },
        OpCode::FSub => {
            reveal_strlit("FSUB");
            reveal_strlit("HALT");
            assert("FSUB"@[0] != "HALT"@[0]);
            reveal_strlit("LOADIMM");
            assert("FSUB"@.len() != "LOADIMM"@.len());
            reveal_strlit("LOADIMM16");
            assert("FSUB"@.len() != "LOADIMM16"@.len());
            reveal_strlit("ADD");
            assert("FSUB"@.len() != "ADD"@.len());
            reveal_strlit("SUB");
            assert("FSUB"@.len() != "SUB"@.len());
            reveal_strlit("MUL");
            assert("FSUB"@.len() != "MUL"@.len());
            reveal_strlit("DIV");
            assert("FSUB"@.len() != "DIV"@.len());
            reveal_strlit("MOD");
            assert("FSUB"@.len() != "MOD"@.len());
            reveal_strlit("FADD");
            assert("FSUB"@[1] != "FADD"@[1]);
        },
        OpCode::FMul => {
            reveal_strlit("FMUL");
            reveal_strlit("HALT");
            assert("FMUL"@[0] != "HALT"@[0]);
            reveal_strlit("LOADIMM");
            assert("FMUL"@.len() != "LOADIMM"@.len());
            reveal_strlit("LOADIMM16");
            assert("FMUL"@.len() != "LOADIMM16"@.len());
            reveal_strlit("ADD");
            assert("FMUL"@.len() != "ADD"@.len());
            reveal_strlit("SUB");
            assert("FMUL"@.len() != "SUB"@.len());
            reveal_strlit("MUL");
            assert("FMUL"@.len() != "MUL"@.len());
            reveal_strlit("DIV");
            assert("FMUL"@.len() != "DIV"@.len());
            reveal_strlit("MOD");
            assert("FMUL"@.len() != "MOD"@.len());
            reveal_strlit("FADD");
            assert("FMUL"@[1] != "FADD"@[1]);
            reveal_strlit("FSUB");
            assert("FMUL"@[1] != "FSUB"@[1]);
        },
        OpCode::FDiv => {
            reveal_strlit("FDIV");
            reveal_strlit("HALT");
            assert("FDIV"@[0] != "HALT"@[0]);
            reveal_strlit("LOADIMM");
            assert("FDIV"@.len() != "LOADIMM"@.len());
            reveal_strlit("LOADIMM16");
            assert("FDIV"@.len() != "LOADIMM16"@.len());
            reveal_strlit("ADD");
            assert("FDIV"@.len() != "ADD"@.len());
            reveal_strlit("SUB");
            assert("FDIV"@.len() != "SUB"@.len());
            reveal_strlit("MUL");
            assert("FDIV"@.len() != "MUL"@.len());
            reveal_strlit("DIV");
            assert("FDIV"@.len() != "DIV"@.len());
            reveal_strlit("MOD");
            assert("FDIV"@.len() != "MOD"@.len());
            reveal_strlit("FADD");
            assert("FDIV"@[1] != "FADD"@[1]);
            reveal_strlit("FSUB");
            assert("FDIV"@[1] != "FSUB"@[1]);
            reveal_strlit("FMUL");
            assert("FDIV"@[1] != "FMUL"@[1]);
        },
        OpCode::And => {
            reveal_strlit("AND");
            reveal_strlit("HALT");
            assert("AND"@.len() != "HALT"@.len());
            reveal_strlit("LOADIMM");
            assert("AND"@.len() != "LOADIMM"@.len());
            reveal_strlit("LOADIMM16");
            assert("AND"@.len() != "LOADIMM16"@.len());
            reveal_strlit("ADD");
            assert("AND"@[1] != "ADD"@[1]);
            reveal_strlit("SUB");
            assert("AND"@[0] != "SUB"@[0]);
            reveal_strlit("MUL");
            assert("AND"@[0] != "MUL"@[0]);
            reveal_strlit("DIV");
            assert("AND"@[0] != "DIV"@[0]);
            reveal_strlit("MOD");
            assert("AND"@[0] != "MOD"@[0]);
            reveal_strlit("FADD");
            assert("AND"@.len() != "FADD"@.len());
            reveal_strlit("FSUB");
            assert("AND"@.len() != "FSUB"@.len());
            reveal_strlit("FMUL");
            assert("AND"@.len() != "FMUL"@.len());
            reveal_strlit("FDIV");
            assert("AND"@.len() != "FDIV"@.len());
        },
        OpCode::Or => {
            reveal_strlit("OR");
            reveal_strlit("HALT");
            assert("OR"@.len() != "HALT"@.len());
            reveal_strlit("LOADIMM");
            assert("OR"@.len() != "LOADIMM"@.len());
            reveal_strlit("LOADIMM16");
            assert("OR"@.len() != "LOADIMM16"@.len());
            reveal_strlit("ADD");
            assert("OR"@.len() != "ADD"@.len());
            reveal_strlit("SUB");
            assert("OR"@.len() != "SUB"@.len());
            reveal_strlit("MUL");
            assert("OR"@.len() != "MUL"@.len());
            reveal_strlit("DIV");
            assert("OR"@.len() != "DIV"@.len());
            reveal_strlit("MOD");
            assert("OR"@.len() != "MOD"@.len());
            reveal_strlit("FADD");
            assert("OR"@.len() != "FADD"@.len());
            reveal_strlit("FSUB");
            assert("OR"@.len() != "FSUB"@.len());
            reveal_strlit("FMUL");
            assert("OR"@.len() != "FMUL"@.len());
            reveal_strlit("FDIV");
            assert("OR"@.len() != "FDIV"@.len());
            reveal_strlit("AND");
            assert("OR"@.len() != "AND"@.len());
        },
        OpCode::Xor => {
            reveal_strlit("XOR");
            reveal_strlit("HALT");
            assert("XOR"@.len() != "HALT"@.len());
            reveal_strlit("LOADIMM");
            assert("XOR"@.len() != "LOADIMM"@.len());
            reveal_strlit("LOADIMM16");
            assert("XOR"@.len() != "LOADIMM16"@.len());
            reveal_strlit("ADD");
            assert("XOR"@[0] != "ADD"@[0]);
            reveal_strlit("SUB");
            assert("XOR"@[0] != "SUB"@[0]);
            reveal_strlit("MUL");
            assert("XOR"@[0] != "MUL"@[0]);
            reveal_strlit("DIV");
            assert("XOR"@[0] != "DIV"@[0]);
            reveal_strlit("MOD");
            assert("XOR"@[0] != "MOD"@[0]);
            reveal_strlit("FADD");
            assert("XOR"@.len() != "FADD"@.len());
            reveal_strlit("FSUB");
            assert("XOR"@.len() != "FSUB"@.len());
            reveal_strlit("FMUL");
            assert("XOR"@.len() != "FMUL"@.len());
            reveal_strlit("FDIV");
            assert("XOR"@.len() != "FDIV"@.len());
            reveal_strlit("AND");
            assert("XOR"@[0] != "AND"@[0]);
            reveal_strlit("OR");
            assert("XOR"@.len() != "OR"@.len());
        },
        OpCode::Shl => {
            reveal_strlit("SHL");
            reveal_strlit("HALT");
            assert("SHL"@.len() != "HALT"@.len());
            reveal_strlit("LOADIMM");
            assert("SHL"@.len() != "LOADIMM"@.len());
            reveal_strlit("LOADIMM16");
            assert("SHL"@.len() != "LOADIMM16"@.len());
            reveal_strlit("ADD");
            assert("SHL"@[0] != "ADD"@[0]);
            reveal_strlit("SUB");
            assert("SHL"@[1] != "SUB"@[1]);
            reveal_strlit("MUL");
            assert("SHL"@[0] != "MUL"@[0]);
            reveal_strlit("DIV");
            assert("SHL"@[0] != "DIV"@[0]);
            reveal_strlit("MOD");
            assert("SHL"@[0] != "MOD"@[0]);
            reveal_strlit("FADD");
            assert("SHL"@.len() != "FADD"@.len());
            reveal_strlit("FSUB");
            assert("SHL"@.len() != "FSUB"@.len());
            reveal_strlit("FMUL");
            assert("SHL"@.len() != "FMUL"@.len());
            reveal_strlit("FDIV");
            assert("SHL"@.len() != "FDIV"@.len());
            reveal_strlit("AND");
            assert("SHL"@[0] != "AND"@[0]);
            reveal_strlit("OR");
            assert("SHL"@.len() != "OR"@.len());
            reveal_strlit("XOR");
            assert("SHL"@[0] != "XOR"@[0]);
        },
        OpCode::Shr => {
            reveal_strlit("SHR");
            reveal_strlit("HALT");
            assert("SHR"@.len() != "HALT"@.len());
            reveal_strlit("LOADIMM");
            assert("SHR"@.len() != "LOADIMM"@.len());
            reveal_strlit("LOADIMM16");
            assert("SHR"@.len() != "LOADIMM16"@.len());
            reveal_strlit("ADD");
            assert("SHR"@[0] != "ADD"@[0]);
            reveal_strlit("SUB");
            assert("SHR"@[1] != "SUB"@[1]);
            reveal_strlit("MUL");
            assert("SHR"@[0] != "MUL"@[0]);
            reveal_strlit("DIV");
            assert("SHR"@[0] != "DIV"@[0]);
            reveal_strlit("MOD");
            assert("SHR"@[0] != "MOD"@[0]);
            reveal_strlit("FADD");
            assert("SHR"@.len() != "FADD"@.len());
            reveal_strlit("FSUB");
            assert("SHR"@.len() != "FSUB"@.len());
            reveal_strlit("FMUL");
            assert("SHR"@.len() != "FMUL"@.len());
            reveal_strlit("FDIV");
            assert("SHR"@.len() != "FDIV"@.len());
            reveal_strlit("AND");
            assert("SHR"@[0] != "AND"@[0]);
            reveal_strlit("OR");
            assert("SHR"@.len() != "OR"@.len());
            reveal_strlit("XOR");
            assert("SHR"@[0] != "XOR"@[0]);
            reveal_strlit("SHL");
            assert("SHR"@[2] != "SHL"@[2]);
        },
        OpCode::Jmp => {
            reveal_strlit("JMP");
            reveal_strlit("HALT");
            assert("JMP"@.len() != "HALT"@.len());
            reveal_strlit("LOADIMM");
            assert("JMP"@.len() != "LOADIMM"@.len());
            reveal_strlit("LOADIMM16");
            assert("JMP"@.len() != "LOADIMM16"@.len());
            reveal_strlit("ADD");
            assert("JMP"@[0] != "ADD"@[0]);
            reveal_strlit("SUB");
            assert("JMP"@[0] != "SUB"@[0]);
            reveal_strlit("MUL");
            assert("JMP"@[0] != "MUL"@[0]);
            reveal_strlit("DIV");
            assert("JMP"@[0] != "DIV"@[0]);
            reveal_strlit("MOD");
            assert("JMP"@[0] != "MOD"@[0]);
            reveal_strlit("FADD");
            assert("JMP"@.len() != "FADD"@.len());
            reveal_strlit("FSUB");
            assert("JMP"@.len() != "FSUB"@.len());
            reveal_strlit("FMUL");
            assert("JMP"@.len() != "FMUL"@.len());
            reveal_strlit("FDIV");
            assert("JMP"@.len() != "FDIV"@.len());
            reveal_strlit("AND");
            assert("JMP"@[0] != "AND"@[0]);
            reveal_strlit("OR");
            assert("JMP"@.len() != "OR"@.len());
            reveal_strlit("XOR");
            assert("JMP"@[0] != "XOR"@[0]);
            reveal_strlit("SHL");
            assert("JMP"@[0] != "SHL"@[0]);
            reveal_strlit("SHR");
            assert("JMP"@[0] != "SHR"@[0]);
        },
        OpCode::JmpIfZero => {
            reveal_strlit("JMPIFZERO");
            reveal_strlit("HALT");
            assert("JMPIFZERO"@.len() != "HALT"@.len());
            reveal_strlit("LOADIMM");
            assert("JMPIFZERO"@.len() != "LOADIMM"@.len());
            reveal_strlit("LOADIMM16");
            assert("JMPIFZERO"@[0] != "LOADIMM16"@[0]);
            reveal_strlit("ADD");
            assert("JMPIFZERO"@.len() != "ADD"@.len());
            reveal_strlit("SUB");
            assert("JMPIFZERO"@.len() != "SUB"@.len());
            reveal_strlit("MUL");
            assert("JMPIFZERO"@.len() != "MUL"@.len());
            reveal_strlit("DIV");
            assert("JMPIFZERO"@.len() != "DIV"@.len());
            reveal_strlit("MOD");
            assert("JMPIFZERO"@.len() != "MOD"@.len());
            reveal_strlit("FADD");
            assert("JMPIFZERO"@.len() != "FADD"@.len());
            reveal_strlit("FSUB");
            assert("JMPIFZERO"@.len() != "FSUB"@.len());
            reveal_strlit("FMUL");
            assert("JMPIFZERO"@.len() != "FMUL"@.len());
            reveal_strlit("FDIV");
            assert("JMPIFZERO"@.len() != "FDIV"@.len());
            reveal_strlit("AND");
            assert("JMPIFZERO"@.len() != "AND"@.len());
            reveal_strlit("OR");
            assert("JMPIFZERO"@.len() != "OR"@.len());
            reveal_strlit("XOR");
            assert("JMPIFZERO"@.len() != "XOR"@.len());
            reveal_strlit("SHL");
            assert("JMPIFZERO"@.len() != "SHL"@.len());
            reveal_strlit("SHR");
            assert("JMPIFZERO"@.len() != "SHR"@.len());
            reveal_strlit("JMP");
            assert("JMPIFZERO"@.len() != "JMP"@.len());
        },
        OpCode::JmpIfEq => {
            reveal_strlit("JMPIFEQ");
            reveal_strlit("HALT");
            assert("JMPIFEQ"@.len() != "HALT"@.len());
            reveal_strlit("LOADIMM");
            assert("JMPIFEQ"@[0] != "LOADIMM"@[0]);
            reveal_strlit("LOADIMM16");
            assert("JMPIFEQ"@.len() != "LOADIMM16"@.len());
            reveal_strlit("ADD");
            assert("JMPIFEQ"@.len() != "ADD"@.len());
            reveal_strlit("SUB");
            assert("JMPIFEQ"@.len() != "SUB"@.len());
            reveal_strlit("MUL");
            assert("JMPIFEQ"@.len() != "MUL"@.len());
            reveal_strlit("DIV");
            assert("JMPIFEQ"@.len() != "DIV"@.len());
            reveal_strlit("MOD");
            assert("JMPIFEQ"@.len() != "MOD"@.len());
            reveal_strlit("FADD");
            assert("JMPIFEQ"@.len() != "FADD"@.len());
            reveal_strlit("FSUB");
            assert("JMPIFEQ"@.len() != "FSUB"@.len());
            reveal_strlit("FMUL");
            assert("JMPIFEQ"@.len() != "FMUL"@.len());
            reveal_strlit("FDIV");
            assert("JMPIFEQ"@.len() != "FDIV"@.len());
            reveal_strlit("AND");
            assert("JMPIFEQ"@.len() != "AND"@.len());
            reveal_strlit("OR");
            assert("JMPIFEQ"@.len() != "OR"@.len());
            reveal_strlit("XOR");
            assert("JMPIFEQ"@.len() != "XOR"@.len());
            reveal_strlit("SHL");
            assert("JMPIFEQ"@.len() != "SHL"@.len());
            reveal_strlit("SHR");
            assert("JMPIFEQ"@.len() != "SHR"@.len());
            reveal_strlit("JMP");
            assert("JMPIFEQ"@.len() != "JMP"@.len());
            reveal_strlit("JMPIFZERO");
            assert("JMPIFEQ"@.len() != "JMPIFZERO"@.len());
        },
        OpCode::JmpIfLt => {
            reveal_strlit("JMPIFLT");
            reveal_strlit("HALT");
            assert("JMPIFLT"@.len() != "HALT"@.len());
            reveal_strlit("LOADIMM");
            assert("JMPIFLT"@[0] != "LOADIMM"@[0]);
            reveal_strlit("LOADIMM16");
            assert("JMPIFLT"@.len() != "LOADIMM16"@.len());
            reveal_strlit("ADD");
            assert("JMPIFLT"@.len() != "ADD"@.len());
            reveal_strlit("SUB");
            assert("JMPIFLT"@.len() != "SUB"@.len());
            reveal_strlit("MUL");
            assert("JMPIFLT"@.len() != "MUL"@.len());
            reveal_strlit("DIV");
            assert("JMPIFLT"@.len() != "DIV"@.len());
            reveal_strlit("MOD");
            assert("JMPIFLT"@.len() != "MOD"@.len());
            reveal_strlit("FADD");
            assert("JMPIFLT"@.len() != "FADD"@.len());
            reveal_strlit("FSUB");
            assert("JMPIFLT"@.len() != "FSUB"@.len());
            reveal_strlit("FMUL");
            assert("JMPIFLT"@.len() != "FMUL"@.len());
            reveal_strlit("FDIV");
            assert("JMPIFLT"@.len() != "FDIV"@.len());
            reveal_strlit("AND");
            assert("JMPIFLT"@.len() != "AND"@.len());
            reveal_strlit("OR");
            assert("JMPIFLT"@.len() != "OR"@.len());
            reveal_strlit("XOR");
            assert("JMPIFLT"@.len() != "XOR"@.len());
            reveal_strlit("SHL");
            assert("JMPIFLT"@.len() != "SHL"@.len());
            reveal_strlit("SHR");
            assert("JMPIFLT"@.len() != "SHR"@.len());
            reveal_strlit("JMP");
            assert("JMPIFLT"@.len() != "JMP"@.len());
            reveal_strlit("JMPIFZERO");
            assert("JMPIFLT"@.len() != "JMPIFZERO"@.len());
            reveal_strlit("JMPIFEQ");
            assert("JMPIFLT"@[5] != "JMPIFEQ"@[5]);
        },
        OpCode::JmpIfGt => {
            reveal_strlit("JMPIFGT");
            reveal_strlit("HALT");
            assert("JMPIFGT"@.len() != "HALT"@.len());
            reveal_strlit("LOADIMM");
            assert("JMPIFGT"@[0] != "LOADIMM"@[0]);
            reveal_strlit("LOADIMM16");
            assert("JMPIFGT"@.len() != "LOADIMM16"@.len());
            reveal_strlit("ADD");
            assert("JMPIFGT"@.len() != "ADD"@.len());
            reveal_strlit("SUB");
            assert("JMPIFGT"@.len() != "SUB"@.len());
            reveal_strlit("MUL");
            assert("JMPIFGT"@.len() != "MUL"@.len());
            reveal_strlit("DIV");
            assert("JMPIFGT"@.len() != "DIV"@.len());
            reveal_strlit("MOD");
            assert("JMPIFGT"@.len() != "MOD"@.len());
            reveal_strlit("FADD");
            assert("JMPIFGT"@.len() != "FADD"@.len());
            reveal_strlit("FSUB");
            assert("JMPIFGT"@.len() != "FSUB"@.len());
            reveal_strlit("FMUL");
            assert("JMPIFGT"@.len() != "FMUL"@.len());
            reveal_strlit("FDIV");
            assert("JMPIFGT"@.len() != "FDIV"@.len());
            reveal_strlit("AND");
            assert("JMPIFGT"@.len() != "AND"@.len());
            reveal_strlit("OR");
            assert("JMPIFGT"@.len() != "OR"@.len());
            reveal_strlit("XOR");
            assert("JMPIFGT"@.len() != "XOR"@.len());
            reveal_strlit("SHL");
            assert("JMPIFGT"@.len() != "SHL"@.len());
            reveal_strlit("SHR");
            assert("JMPIFGT"@.len() != "SHR"@.len());
            reveal_strlit("JMP");
            assert("JMPIFGT"@.len() != "JMP"@.len());
            reveal_strlit("JMPIFZERO");
            assert("JMPIFGT"@.len() != "JMPIFZERO"@.len());
            reveal_strlit("JMPIFEQ");
            assert("JMPIFGT"@[5] != "JMPIFEQ"@[5]);
            reveal_strlit("JMPIFLT");
            assert("JMPIFGT"@[5] != "JMPIFLT"@[5]);
        },
        OpCode::JmpIfFLt => {
            reveal_strlit("JMPIFFLT");
            reveal_strlit("HALT");
            assert("JMPIFFLT"@.len() != "HALT"@.len());
            reveal_strlit("LOADIMM");
            assert("JMPIFFLT"@.len() != "LOADIMM"@.len());
            reveal_strlit("LOADIMM16");
            assert("JMPIFFLT"@.len() != "LOADIMM16"@.len());
            reveal_strlit("ADD");
            assert("JMPIFFLT"@.len() != "ADD"@.len());
            reveal_strlit("SUB");
            assert("JMPIFFLT"@.len() != "SUB"@.len());
            reveal_strlit("MUL");
            assert("JMPIFFLT"@.len() != "MUL"@.len());
            reveal_strlit("DIV");
            assert("JMPIFFLT"@.len() != "DIV"@.len());
            reveal_strlit("MOD");
            assert("JMPIFFLT"@.len() != "MOD"@.len());
            reveal_strlit("FADD");
            assert("JMPIFFLT"@.len() != "FADD"@.len());
            reveal_strlit("FSUB");
            assert("JMPIFFLT"@.len() != "FSUB"@.len());
            reveal_strlit("FMUL");
            assert("JMPIFFLT"@.len() != "FMUL"@.len());
            reveal_strlit("FDIV");
            assert("JMPIFFLT"@.len() != "FDIV"@.len());
            reveal_strlit("AND");
            assert("JMPIFFLT"@.len() != "AND"@.len());
            reveal_strlit("OR");
            assert("JMPIFFLT"@.len() != "OR"@.len());
            reveal_strlit("XOR");
            assert("JMPIFFLT"@.len() != "XOR"@.len());
            reveal_strlit("SHL");
            assert("JMPIFFLT"@.len() != "SHL"@.len());
            reveal_strlit("SHR");
            assert("JMPIFFLT"@.len() != "SHR"@.len());
            reveal_strlit("JMP");
            assert("JMPIFFLT"@.len() != "JMP"@.len());
            reveal_strlit("JMPIFZERO");
            assert("JMPIFFLT"@.len() != "JMPIFZERO"@.len());
            reveal_strlit("JMPIFEQ");
            assert("JMPIFFLT"@.len() != "JMPIFEQ"@.len());
            reveal_strlit("JMPIFLT");
            assert("JMPIFFLT"@.len() != "JMPIFLT"@.len());
            reveal_strlit("JMPIFGT");
            assert("JMPIFFLT"@.len() != "JMPIFGT"@.len());
        },
        OpCode::JmpIfFGt => {
            reveal_strlit("JMPIFFGT");
            reveal_strlit("HALT");
            assert("JMPIFFGT"@.len() != "HALT"@.len());
            reveal_strlit("LOADIMM");
            assert("JMPIFFGT"@.len() != "LOADIMM"@.len());
            reveal_strlit("LOADIMM16");
            assert("JMPIFFGT"@.len() != "LOADIMM16"@.len());
            reveal_strlit("ADD");
            assert("JMPIFFGT"@.len() != "ADD"@.len());
            reveal_strlit("SUB");
            assert("JMPIFFGT"@.len() != "SUB"@.len());
            reveal_strlit("MUL");
            assert("JMPIFFGT"@.len() != "MUL"@.len());
            reveal_strlit("DIV");
            assert("JMPIFFGT"@.len() != "DIV"@.len());
            reveal_strlit("MOD");
            assert("JMPIFFGT"@.len() != "MOD"@.len());
            reveal_strlit("FADD");
            assert("JMPIFFGT"@.len() != "FADD"@.len());
            reveal_strlit("FSUB");
            assert("JMPIFFGT"@.len() != "FSUB"@.len());
            reveal_strlit("FMUL");
            assert("JMPIFFGT"@.len() != "FMUL"@.len());
            reveal_strlit("FDIV");
            assert("JMPIFFGT"@.len() != "FDIV"@.len());
            reveal_strlit("AND");
            assert("JMPIFFGT"@.len() != "AND"@.len());
            reveal_strlit("OR");
            assert("JMPIFFGT"@.len() != "OR"@.len());
            reveal_strlit("XOR");
            assert("JMPIFFGT"@.len() != "XOR"@.len());
            reveal_strlit("SHL");
            assert("JMPIFFGT"@.len() != "SHL"@.len());
            reveal_strlit("SHR");
            assert("JMPIFFGT"@.len() != "SHR"@.len());
            reveal_strlit("JMP");
            assert("JMPIFFGT"@.len() != "JMP"@.len());
            reveal_strlit("JMPIFZERO");
            assert("JMPIFFGT"@.len() != "JMPIFZERO"@.len());
            reveal_strlit("JMPIFEQ");
            assert("JMPIFFGT"@.len() != "JMPIFEQ"@.len());
            reveal_strlit("JMPIFLT");
            assert("JMPIFFGT"@.len() != "JMPIFLT"@.len());
            reveal_strlit("JMPIFGT");
            assert("JMPIFFGT"@.len() != "JMPIFGT"@.len());
            reveal_strlit("JMPIFFLT");
            assert("JMPIFFGT"@[6] != "JMPIFFLT"@[6]);
        },
        OpCode::Call => {
            reveal_strlit("CALL");
            reveal_strlit("HALT");
            assert("CALL"@[0] != "HALT"@[0]);
            reveal_strlit("LOADIMM");
            assert("CALL"@.len() != "LOADIMM"@.len());
            reveal_strlit("LOADIMM16");
            assert("CALL"@.len() != "LOADIMM16"@.len());
            reveal_strlit("ADD");
            assert("CALL"@.len() != "ADD"@.len());
            reveal_strlit("SUB");
            assert("CALL"@.len() != "SUB"@.len());
            reveal_strlit("MUL");
            assert("CALL"@.len() != "MUL"@.len());
            reveal_strlit("DIV");
            assert("CALL"@.len() != "DIV"@.len());
            reveal_strlit("MOD");
            assert("CALL"@.len() != "MOD"@.len());
            reveal_strlit("FADD");
            assert("CALL"@[0] != "FADD"@[0]);
            reveal_strlit("FSUB");
            assert("CALL"@[0] != "FSUB"@[0]);
            reveal_strlit("FMUL");
            assert("CALL"@[0] != "FMUL"@[0]);
            reveal_strlit("FDIV");
            assert("CALL"@[0] != "FDIV"@[0]);
            reveal_strlit("AND");
            assert("CALL"@.len() != "AND"@.len());
            reveal_strlit("OR");
            assert("CALL"@.len() != "OR"@.len());
            reveal_strlit("XOR");
            assert("CALL"@.len() != "XOR"@.len());
            reveal_strlit("SHL");
            assert("CALL"@.len() != "SHL"@.len());
            reveal_strlit("SHR");
            assert("CALL"@.len() != "SHR"@.len());
            reveal_strlit("JMP");
            assert("CALL"@.len() != "JMP"@.len());
            reveal_strlit("JMPIFZERO");
            assert("CALL"@.len() != "JMPIFZERO"@.len());
            reveal_strlit("JMPIFEQ");
            assert("CALL"@.len() != "JMPIFEQ"@.len());
            reveal_strlit("JMPIFLT");
            assert("CALL"@.len() != "JMPIFLT"@.len());
            reveal_strlit("JMPIFGT");
            assert("CALL"@.len() != "JMPIFGT"@.len());
            reveal_strlit("JMPIFFLT");
            assert("CALL"@.len() != "JMPIFFLT"@.len());
            reveal_strlit("JMPIFFGT");
            assert("CALL"@.len() != "JMPIFFGT"@.len());
        },
        OpCode::Ret => {
            reveal_strlit("RET");
            reveal_strlit("HALT");
            assert("RET"@.len() != "HALT"@.len());
            reveal_strlit("LOADIMM");
            assert("RET"@.len() != "LOADIMM"@.len());
            reveal_strlit("LOADIMM16");
            assert("RET"@.len() != "LOADIMM16"@.len());
            reveal_strlit("ADD");
            assert("RET"@[0] != "ADD"@[0]);
            reveal_strlit("SUB");
            assert("RET"@[0] != "SUB"@[0]);
            reveal_strlit("MUL");
            assert("RET"@[0] != "MUL"@[0]);
            reveal_strlit("DIV");
            assert("RET"@[0] != "DIV"@[0]);
            reveal_strlit("MOD");
            assert("RET"@[0] != "MOD"@[0]);
            reveal_strlit("FADD");
            assert("RET"@.len() != "FADD"@.len());
            reveal_strlit("FSUB");
            assert("RET"@.len() != "FSUB"@.len());
            reveal_strlit("FMUL");
            assert("RET"@.len() != "FMUL"@.len());
            reveal_strlit("FDIV");
            assert("RET"@.len() != "FDIV"@.len());
            reveal_strlit("AND");
            assert("RET"@[0] != "AND"@[0]);
            reveal_strlit("OR");
            assert("RET"@.len() != "OR"@.len());
            reveal_strlit("XOR");
            assert("RET"@[0] != "XOR"@[0]);
            reveal_strlit("SHL");
            assert("RET"@[0] != "SHL"@[0]);
            reveal_strlit("SHR");
            assert("RET"@[0] != "SHR"@[0]);
            reveal_strlit("JMP");
            assert("RET"@[0] != "JMP"@[0]);
            reveal_strlit("JMPIFZERO");
            assert("RET"@.len() != "JMPIFZERO"@.len());
            reveal_strlit("JMPIFEQ");
            assert("RET"@.len() != "JMPIFEQ"@.len());
            reveal_strlit("JMPIFLT");
            assert("RET"@.len() != "JMPIFLT"@.len());
            reveal_strlit("JMPIFGT");
            assert("RET"@.len() != "JMPIFGT"@.len());
            reveal_strlit("JMPIFFLT");
            assert("RET"@.len() != "JMPIFFLT"@.len());
            reveal_strlit("JMPIFFGT");
            assert("RET"@.len() != "JMPIFFGT"@.len());
            reveal_strlit("CALL");
            assert("RET"@.len() != "CALL"@.len());
        },
        OpCode::PrintReg => {
            reveal_strlit("PRINTREG");
            reveal_strlit("HALT");
            assert("PRINTREG"@.len() != "HALT"@.len());
            reveal_strlit("LOADIMM");
            assert("PRINTREG"@.len() != "LOADIMM"@.len());
            reveal_strlit("LOADIMM16");
            assert("PRINTREG"@.len() != "LOADIMM16"@.len());
            reveal_strlit("ADD");
            assert("PRINTREG"@.len() != "ADD"@.len());
            reveal_strlit("SUB");
            assert("PRINTREG"@.len() != "SUB"@.len());
            reveal_strlit("MUL");
            assert("PRINTREG"@.len() != "MUL"@.len());
            reveal_strlit("DIV");
            assert("PRINTREG"@.len() != "DIV"@.len());
            reveal_strlit("MOD");
            assert("PRINTREG"@.len() != "MOD"@.len());
            reveal_strlit("FADD");
            assert("PRINTREG"@.len() != "FADD"@.len());
            reveal_strlit("FSUB");
            assert("PRINTREG"@.len() != "FSUB"@.len());
            reveal_strlit("FMUL");
            assert("PRINTREG"@.len() != "FMUL"@.len());
            reveal_strlit("FDIV");
            assert("PRINTREG"@.len() != "FDIV"@.len());
            reveal_strlit("AND");
            assert("PRINTREG"@.len() != "AND"@.len());
            reveal_strlit("OR");
            assert("PRINTREG"@.len() != "OR"@.len());
            reveal_strlit("XOR");
            assert("PRINTREG"@.len() != "XOR"@.len());
            reveal_strlit("SHL");
            assert("PRINTREG"@.len() != "SHL"@.len());
            reveal_strlit("SHR");
            assert("PRINTREG"@.len() != "SHR"@.len());
            reveal_strlit("JMP");
            assert("PRINTREG"@.len() != "JMP"@.len());
            reveal_strlit("JMPIFZERO");
            assert("PRINTREG"@.len() != "JMPIFZERO"@.len());
            reveal_strlit("JMPIFEQ");
            assert("PRINTREG"@.len() != "JMPIFEQ"@.len());
            reveal_strlit("JMPIFLT");
            assert("PRINTREG"@.len() != "JMPIFLT"@.len());
            reveal_strlit("JMPIFGT");
            assert("PRINTREG"@.len() != "JMPIFGT"@.len());
            reveal_strlit("JMPIFFLT");
            assert("PRINTREG"@[0] != "JMPIFFLT"@[0]);
            reveal_strlit("JMPIFFGT");
            assert("PRINTREG"@[0] != "JMPIFFGT"@[0]);
            reveal_strlit("CALL");
            assert("PRINTREG"@.len() != "CALL"@.len());
            reveal_strlit("RET");
            assert("PRINTREG"@.len() != "RET"@.len());
        },
        OpCode::Load => {
            reveal_strlit("LOAD");
            reveal_strlit("HALT");
            assert("LOAD"@[0] != "HALT"@[0]);
            reveal_strlit("LOADIMM");
            assert("LOAD"@.len() != "LOADIMM"@.len());
            reveal_strlit("LOADIMM16");
            assert("LOAD"@.len() != "LOADIMM16"@.len());
            reveal_strlit("ADD");
            assert("LOAD"@.len() != "ADD"@.len());
            reveal_strlit("SUB");
            assert("LOAD"@.len() != "SUB"@.len());
            reveal_strlit("MUL");
            assert("LOAD"@.len() != "MUL"@.len());
            reveal_strlit("DIV");
            assert("LOAD"@.len() != "DIV"@.len());
            reveal_strlit("MOD");
            assert("LOAD"@.len() != "MOD"@.len());
            reveal_strlit("FADD");
            assert("LOAD"@[0] != "FADD"@[0]);
            reveal_strlit("FSUB");
            assert("LOAD"@[0] != "FSUB"@[0]);
            reveal_strlit("FMUL");
            assert("LOAD"@[0] != "FMUL"@[0]);
            reveal_strlit("FDIV");
            assert("LOAD"@[0] != "FDIV"@[0]);
            reveal_strlit("AND");
            assert("LOAD"@.len() != "AND"@.len());
            reveal_strlit("OR");
            assert("LOAD"@.len() != "OR"@.len());
            reveal_strlit("XOR");
            assert("LOAD"@.len() != "XOR"@.len());
            reveal_strlit("SHL");
            assert("LOAD"@.len() != "SHL"@.len());
            reveal_strlit("SHR");
            assert("LOAD"@.len() != "SHR"@.len());
            reveal_strlit("JMP");
            assert("LOAD"@.len() != "JMP"@.len());
            reveal_strlit("JMPIFZERO");
            assert("LOAD"@.len() != "JMPIFZERO"@.len());
            reveal_strlit("JMPIFEQ");
            assert("LOAD"@.len() != "JMPIFEQ"@.len());
            reveal_strlit("JMPIFLT");
            assert("LOAD"@.len() != "JMPIFLT"@.len());
            reveal_strlit("JMPIFGT");
            assert("LOAD"@.len() != "JMPIFGT"@.len());
            reveal_strlit("JMPIFFLT");
            assert("LOAD"@.len() != "JMPIFFLT"@.len());
            reveal_strlit("JMPIFFGT");
            assert("LOAD"@.len() != "JMPIFFGT"@.len());
            reveal_strlit("CALL");
            assert("LOAD"@[0] != "CALL"@[0]);
            reveal_strlit("RET");
            assert("LOAD"@.len() != "RET"@.len());
            reveal_strlit("PRINTREG");
            assert("LOAD"@.len() != "PRINTREG"@.len());
        },
        OpCode::Store => {
            reveal_strlit("STORE");
            reveal_strlit("HALT");
            assert("STORE"@.len() != "HALT"@.len());
            reveal_strlit("LOADIMM");
            assert("STORE"@.len() != "LOADIMM"@.len());
            reveal_strlit("LOADIMM16");
            assert("STORE"@.len() != "LOADIMM16"@.len());
            reveal_strlit("ADD");
            assert("STORE"@.len() != "ADD"@.len());
            reveal_strlit("SUB");
            assert("STORE"@.len() != "SUB"@.len());
            reveal_strlit("MUL");
            assert("STORE"@.len() != "MUL"@.len());
            reveal_strlit("DIV");
            assert("STORE"@.len() != "DIV"@.len());
            reveal_strlit("MOD");
            assert("STORE"@.len() != "MOD"@.len());
            reveal_strlit("FADD");
            assert("STORE"@.len() != "FADD"@.len());
            reveal_strlit("FSUB");
            assert("STORE"@.len() != "FSUB"@.len());
            reveal_strlit("FMUL");
            assert("STORE"@.len() != "FMUL"@.len());
            reveal_strlit("FDIV");
            assert("STORE"@.len() != "FDIV"@.len());
            reveal_strlit("AND");
            assert("STORE"@.len() != "AND"@.len());
            reveal_strlit("OR");
            assert("STORE"@.len() != "OR"@.len());
            reveal_strlit("XOR");
            assert("STORE"@.len() != "XOR"@.len());
            reveal_strlit("SHL");
            assert("STORE"@.len() != "SHL"@.len());
            reveal_strlit("SHR");
            assert("STORE"@.len() != "SHR"@.len());
            reveal_strlit("JMP");
            assert("STORE"@.len() != "JMP"@.len());
            reveal_strlit("JMPIFZERO");
            assert("STORE"@.len() != "JMPIFZERO"@.len());
            reveal_strlit("JMPIFEQ");
            assert("STORE"@.len() != "JMPIFEQ"@.len());
            reveal_strlit("JMPIFLT");
            assert("STORE"@.len() != "JMPIFLT"@.len());
            reveal_strlit("JMPIFGT");
            assert("STORE"@.len() != "JMPIFGT"@.len());
            reveal_strlit("JMPIFFLT");
            assert("STORE"@.len() != "JMPIFFLT"@.len());
            reveal_strlit("JMPIFFGT");
            assert("STORE"@.len() != "JMPIFFGT"@.len());
            reveal_strlit("CALL");
            assert("STORE"@.len() != "CALL"@.len());
            reveal_strlit("RET");
            assert("STORE"@.len() != "RET"@.len());
            reveal_strlit("PRINTREG");
            assert("STORE"@.len() != "PRINTREG"@.len());
            reveal_strlit("LOAD");
            assert("STORE"@.len() != "LOAD"@.len());
        },
        OpCode::Exp => {
            reveal_strlit("EXP");
            reveal_strlit("HALT");
            assert("EXP"@.len() != "HALT"@.len());
            reveal_strlit("LOADIMM");
            assert("EXP"@.len() != "LOADIMM"@.len());
            reveal_strlit("LOADIMM16");
            assert("EXP"@.len() != "LOADIMM16"@.len());
            reveal_strlit("ADD");
            assert("EXP"@[0] != "ADD"@[0]);
            reveal_strlit("SUB");
            assert("EXP"@[0] != "SUB"@[0]);
            reveal_strlit("MUL");
            assert("EXP"@[0] != "MUL"@[0]);
            reveal_strlit("DIV");
            assert("EXP"@[0] != "DIV"@[0]);
            reveal_strlit("MOD");
            assert("EXP"@[0] != "MOD"@[0]);
            reveal_strlit("FADD");
            assert("EXP"@.len() != "FADD"@.len());
            reveal_strlit("FSUB");
            assert("EXP"@.len() != "FSUB"@.len());
            reveal_strlit("FMUL");
            assert("EXP"@.len() != "FMUL"@.len());
            reveal_strlit("FDIV");
            assert("EXP"@.len() != "FDIV"@.len());
            reveal_strlit("AND");
            assert("EXP"@[0] != "AND"@[0]);
            reveal_strlit("OR");
            assert("EXP"@.len() != "OR"@.len());
            reveal_strlit("XOR");
            assert("EXP"@[0] != "XOR"@[0]);
            reveal_strlit("SHL");
            assert("EXP"@[0] != "SHL"@[0]);
            reveal_strlit("SHR");
            assert("EXP"@[0] != "SHR"@[0]);
            reveal_strlit("JMP");
            assert("EXP"@[0] != "JMP"@[0]);
            reveal_strlit("JMPIFZERO");
            assert("EXP"@.len() != "JMPIFZERO"@.len());
            reveal_strlit("JMPIFEQ");
            assert("EXP"@.len() != "JMPIFEQ"@.len());
            reveal_strlit("JMPIFLT");
            assert("EXP"@.len() != "JMPIFLT"@.len());
            reveal_strlit("JMPIFGT");
            assert("EXP"@.len() != "JMPIFGT"@.len());
            reveal_strlit("JMPIFFLT");
            assert("EXP"@.len() != "JMPIFFLT"@.len());
            reveal_strlit("JMPIFFGT");
            assert("EXP"@.len() != "JMPIFFGT"@.len());
            reveal_strlit("CALL");
            assert("EXP"@.len() != "CALL"@.len());
            reveal_strlit("RET");
            assert("EXP"@[0] != "RET"@[0]);
            reveal_strlit("PRINTREG");
            assert("EXP"@.len() != "PRINTREG"@.len());
            reveal_strlit("LOAD");
            assert("EXP"@.len() != "LOAD"@.len());
            reveal_strlit("STORE");
            assert("EXP"@.len() != "STORE"@.len());
        },
        OpCode::Rsqrt => {
            reveal_strlit("RSQRT");
            reveal_strlit("HALT");
            assert("RSQRT"@.len() != "HALT"@.len());
            reveal_strlit("LOADIMM");
            assert("RSQRT"@.len() != "LOADIMM"@.len());
            reveal_strlit("LOADIMM16");
            assert("RSQRT"@.len() != "LOADIMM16"@.len());
            reveal_strlit("ADD");
            assert("RSQRT"@.len() != "ADD"@.len());
            reveal_strlit("SUB");
            assert("RSQRT"@.len() != "SUB"@.len());
            reveal_strlit("MUL");
            assert("RSQRT"@.len() != "MUL"@.len());
            reveal_strlit("DIV");
            assert("RSQRT"@.len() != "DIV"@.len());
            reveal_strlit("MOD");
            assert("RSQRT"@.len() != "MOD"@.len());
            reveal_strlit("FADD");
            assert("RSQRT"@.len() != "FADD"@.len());
            reveal_strlit("FSUB");
            assert("RSQRT"@.len() != "FSUB"@.len());
            reveal_strlit("FMUL");
            assert("RSQRT"@.len() != "FMUL"@.len());
            reveal_strlit("FDIV");
            assert("RSQRT"@.len() != "FDIV"@.len());
            reveal_strlit("AND");
            assert("RSQRT"@.len() != "AND"@.len());
            reveal_strlit("OR");
            assert("RSQRT"@.len() != "OR"@.len());
            reveal_strlit("XOR");
            assert("RSQRT"@.len() != "XOR"@.len());
            reveal_strlit("SHL");
            assert("RSQRT"@.len() != "SHL"@.len());
            reveal_strlit("SHR");
            assert("RSQRT"@.len() != "SHR"@.len());
            reveal_strlit("JMP");
            assert("RSQRT"@.len() != "JMP"@.len());
            reveal_strlit("JMPIFZERO");
            assert("RSQRT"@.len() != "JMPIFZERO"@.len());
            reveal_strlit("JMPIFEQ");
            assert("RSQRT"@.len() != "JMPIFEQ"@.len());
            reveal_strlit("JMPIFLT");
            assert("RSQRT"@.len() != "JMPIFLT"@.len());
            reveal_strlit("JMPIFGT");
            assert("RSQRT"@.len() != "JMPIFGT"@.len());
            reveal_strlit("JMPIFFLT");
            assert("RSQRT"@.len() != "JMPIFFLT"@.len());
            reveal_strlit("JMPIFFGT");
            assert("RSQRT"@.len() != "JMPIFFGT"@.len());
            reveal_strlit("CALL");
            assert("RSQRT"@.len() != "CALL"@.len());
            reveal_strlit("RET");
            assert("RSQRT"@.len() != "RET"@.len());
            reveal_strlit("PRINTREG");
            assert("RSQRT"@.len() != "PRINTREG"@.len());
            reveal_strlit("LOAD");
            assert("RSQRT"@.len() != "LOAD"@.len());
            reveal_strlit("STORE");
            assert("RSQRT"@[0] != "STORE"@[0]);
            reveal_strlit("EXP");
            assert("RSQRT"@.len() != "EXP"@.len());
        },
        OpCode::Silu => {
            reveal_strlit("SILU");
            reveal_strlit("HALT");
            assert("SILU"@[0] != "HALT"@[0]);
            reveal_strlit("LOADIMM");
            assert("SILU"@.len() != "LOADIMM"@.len());
            reveal_strlit("LOADIMM16");
            assert("SILU"@.len() != "LOADIMM16"@.len());
            reveal_strlit("ADD");
            assert("SILU"@.len() != "ADD"@.len());
            reveal_strlit("SUB");
            assert("SILU"@.len() != "SUB"@.len());
            reveal_strlit("MUL");
            assert("SILU"@.len() != "MUL"@.len());
            reveal_strlit("DIV");
            assert("SILU"@.len() != "DIV"@.len());
            reveal_strlit("MOD");
            assert("SILU"@.len() != "MOD"@.len());
            reveal_strlit("FADD");
            assert("SILU"@[0] != "FADD"@[0]);
            reveal_strlit("FSUB");
            assert("SILU"@[0] != "FSUB"@[0]);
            reveal_strlit("FMUL");
            assert("SILU"@[0] != "FMUL"@[0]);
            reveal_strlit("FDIV");
            assert("SILU"@[0] != "FDIV"@[0]);
            reveal_strlit("AND");
            assert("SILU"@.len() != "AND"@.len());
            reveal_strlit("OR");
            assert("SILU"@.len() != "OR"@.len());
            reveal_strlit("XOR");
            assert("SILU"@.len() != "XOR"@.len());
            reveal_strlit("SHL");
            assert("SILU"@.len() != "SHL"@.len());
            reveal_strlit("SHR");
            assert("SILU"@.len() != "SHR"@.len());
            reveal_strlit("JMP");
            assert("SILU"@.len() != "JMP"@.len());
            reveal_strlit("JMPIFZERO");
            assert("SILU"@.len() != "JMPIFZERO"@.len());
            reveal_strlit("JMPIFEQ");
            assert("SILU"@.len() != "JMPIFEQ"@.len());
            reveal_strlit("JMPIFLT");
            assert("SILU"@.len() != "JMPIFLT"@.len());
            reveal_strlit("JMPIFGT");
            assert("SILU"@.len() != "JMPIFGT"@.len());
            reveal_strlit("JMPIFFLT");
            assert("SILU"@.len() != "JMPIFFLT"@.len());
            reveal_strlit("JMPIFFGT");
            assert("SILU"@.len() != "JMPIFFGT"@.len());
            reveal_strlit("CALL");
            assert("SILU"@[0] != "CALL"@[0]);
            reveal_strlit("RET");
            assert("SILU"@.len() != "RET"@.len());
            reveal_strlit("PRINTREG");
            assert("SILU"@.len() != "PRINTREG"@.len());
            reveal_strlit("LOAD");
            assert("SILU"@[0] != "LOAD"@[0]);
            reveal_strlit("STORE");
            assert("SILU"@.len() != "STORE"@.len());
            reveal_strlit("EXP");
            assert("SILU"@.len() != "EXP"@.len());
            reveal_strlit("RSQRT");
            assert("SILU"@.len() != "RSQRT"@.len());
        },
        OpCode::UiCall => {
            reveal_strlit("UICALL");
            reveal_strlit("HALT");
            assert("UICALL"@.len() != "HALT"@.len());
            reveal_strlit("LOADIMM");
            assert("UICALL"@.len() != "LOADIMM"@.len());
            reveal_strlit("LOADIMM16");
            assert("UICALL"@.len() != "LOADIMM16"@.len());
            reveal_strlit("ADD");
            assert("UICALL"@.len() != "ADD"@.len());
            reveal_strlit("SUB");
            assert("UICALL"@.len() != "SUB"@.len());
            reveal_strlit("MUL");
            assert("UICALL"@.len() != "MUL"@.len());
            reveal_strlit("DIV");
            assert("UICALL"@.len() != "DIV"@.len());
            reveal_strlit("MOD");
            assert("UICALL"@.len() != "MOD"@.len());
            reveal_strlit("FADD");
            assert("UICALL"@.len() != "FADD"@.len());
            reveal_strlit("FSUB");
            assert("UICALL"@.len() != "FSUB"@.len());
            reveal_strlit("FMUL");
            assert("UICALL"@.len() != "FMUL"@.len());
            reveal_strlit("FDIV");
            assert("UICALL"@.len() != "FDIV"@.len());
            reveal_strlit("AND");
            assert("UICALL"@.len() != "AND"@.len());
            reveal_strlit("OR");
            assert("UICALL"@.len() != "OR"@.len());
            reveal_strlit("XOR");
            assert("UICALL"@.len() != "XOR"@.len());
            reveal_strlit("SHL");
            assert("UICALL"@.len() != "SHL"@.len());
            reveal_strlit("SHR");
            assert("UICALL"@.len() != "SHR"@.len());
            reveal_strlit("JMP");
            assert("UICALL"@.len() != "JMP"@.len());
            reveal_strlit("JMPIFZERO");
            assert("UICALL"@.len() != "JMPIFZERO"@.len());
            reveal_strlit("JMPIFEQ");
            assert("UICALL"@.len() != "JMPIFEQ"@.len());
            reveal_strlit("JMPIFLT");
            assert("UICALL"@.len() != "JMPIFLT"@.len());
            reveal_strlit("JMPIFGT");
            assert("UICALL"@.len() != "JMPIFGT"@.len());
            reveal_strlit("JMPIFFLT");
            assert("UICALL"@.len() != "JMPIFFLT"@.len());
            reveal_strlit("JMPIFFGT");
            assert("UICALL"@.len() != "JMPIFFGT"@.len());
            reveal_strlit("CALL");
            assert("UICALL"@.len() != "CALL"@.len());
            reveal_strlit("RET");
            assert("UICALL"@.len() != "RET"@.len());
            reveal_strlit("PRINTREG");
            assert("UICALL"@.len() != "PRINTREG"@.len());
            reveal_strlit("LOAD");
            assert("UICALL"@.len() != "LOAD"@.len());
            reveal_strlit("STORE");
            assert("UICALL"@.len() != "STORE"@.len());
            reveal_strlit("EXP");
            assert("UICALL"@.len() != "EXP"@.len());
            reveal_strlit("RSQRT");
            assert("UICALL"@.len() != "RSQRT"@.len());
            reveal_strlit("SILU");
            assert("UICALL"@.len() != "SILU"@.len());
        },
        OpCode::NeuralCall => {
            reveal_strlit("NEURALCALL");
            reveal_strlit("HALT");
            assert("NEURALCALL"@.len() != "HALT"@.len());
            reveal_strlit("LOADIMM");
            assert("NEURALCALL"@.len() != "LOADIMM"@.len());
            reveal_strlit("LOADIMM16");
            assert("NEURALCALL"@.len() != "LOADIMM16"@.len());
            reveal_strlit("ADD");
            assert("NEURALCALL"@.len() != "ADD"@.len());
            reveal_strlit("SUB");
            assert("NEURALCALL"@.len() != "SUB"@.len());
            reveal_strlit("MUL");
            assert("NEURALCALL"@.len() != "MUL"@.len());
            reveal_strlit("DIV");
            assert("NEURALCALL"@.len() != "DIV"@.len());
            reveal_strlit("MOD");
            assert("NEURALCALL"@.len() != "MOD"@.len());
            reveal_strlit("FADD");
            assert("NEURALCALL"@.len() != "FADD"@.len());
            reveal_strlit("FSUB");
            assert("NEURALCALL"@.len() != "FSUB"@.len());
            reveal_strlit("FMUL");
            assert("NEURALCALL"@.len() != "FMUL"@.len());
            reveal_strlit("FDIV");
            assert("NEURALCALL"@.len() != "FDIV"@.len());
            reveal_strlit("AND");
            assert("NEURALCALL"@.len() != "AND"@.len());
            reveal_strlit("OR");
            assert("NEURALCALL"@.len() != "OR"@.len());
            reveal_strlit("XOR");
            assert("NEURALCALL"@.len() != "XOR"@.len());
            reveal_strlit("SHL");
            assert("NEURALCALL"@.len() != "SHL"@.len());
            reveal_strlit("SHR");
            assert("NEURALCALL"@.len() != "SHR"@.len());
            reveal_strlit("JMP");
            assert("NEURALCALL"@.len() != "JMP"@.len());
            reveal_strlit("JMPIFZERO");
            assert("NEURALCALL"@.len() != "JMPIFZERO"@.len());
            reveal_strlit("JMPIFEQ");
            assert("NEURALCALL"@.len() != "JMPIFEQ"@.len());
            reveal_strlit("JMPIFLT");
            assert("NEURALCALL"@.len() != "JMPIFLT"@.len());
            reveal_strlit("JMPIFGT");
            assert("NEURALCALL"@.len() != "JMPIFGT"@.len());
            reveal_strlit("JMPIFFLT");
            assert("NEURALCALL"@.len() != "JMPIFFLT"@.len());
            reveal_strlit("JMPIFFGT");
            assert("NEURALCALL"@.len() != "JMPIFFGT"@.len());
            reveal_strlit("CALL");
            assert("NEURALCALL"@.len() != "CALL"@.len());
            reveal_strlit("RET");
            assert("NEURALCALL"@.len() != "RET"@.len());
            reveal_strlit("PRINTREG");
            assert("NEURALCALL"@.len() != "PRINTREG"@.len());
            reveal_strlit("LOAD");
            assert("NEURALCALL"@.len() != "LOAD"@.len());
            reveal_strlit("STORE");
            assert("NEURALCALL"@.len() != "STORE"@.len());
            reveal_strlit("EXP");
            assert("NEURALCALL"@.len() != "EXP"@.len());
            reveal_strlit("RSQRT");
            assert("NEURALCALL"@.len() != "RSQRT"@.len());
            reveal_strlit("SILU");
            assert("NEURALCALL"@.len() != "SILU"@.len());
            reveal_strlit("UICALL");
            assert("NEURALCALL"@.len() != "UICALL"@.len());
        },
        _ => {},
    }
}

/// A line that assembles to an instruction gives it the operation that its
/// first word, in upper case, names.
pub proof fn lemma_line_operation(line: Seq<char>)
    ensures
        line_inst(line) matches Ok(Some(i)) ==> exists|op: OpCode|
            #![trigger op.spec_code()]
            opcode_name(op) == Some(unicode_to_upper(words(line)[0])) && i.spec_opcode() == op.spec_code(),
{
    let ws = words(line);
    if ws.len() > 0 && ws[0][0] != '#' {
        let u = unicode_to_upper(ws[0]);
        if let Some((op, l)) = mnemonic(u) {
            lemma_mnemonic_names_its_operation(u);
            lemma_layout_fields(op, l, operand(ws, 1), operand(ws, 2), operand(ws, 3));
            assert(op.spec_code() == op.spec_code());
        }
    }
}

/// The low byte of an operand.
pub open spec fn low(x: u16) -> u8 {
    (x % 256) as u8
}

/// The high byte of an operand.
pub open spec fn high(x: u16) -> u8 {
    (x / 256) as u8
}

/// The instruction that an opcode with a layout builds from three operands.
pub open spec fn layout_inst(op: OpCode, l: Layout, p1: u16, p2: u16, p3: u16) -> Instruction {
    let code = op.spec_code();
    Instruction(
        match l {
            Layout::Bare => encode(code, 0, 0, 0),
            Layout::AB => encode(code, low(p1), low(p2), 0),
            Layout::ABC => encode(code, low(p1), low(p2), low(p3)),
            Layout::AImm => encode(code, low(p1), low(p2), high(p2)),
            Layout::Imm => encode(code, 0, low(p1), high(p1)),
            Layout::A => encode(code, low(p1), 0, 0),
        },
    )
}

/// What one line assembles to: nothing for a blank line or a comment (a
/// first word that starts with `#`), an instruction, or `Err` for a first
/// word that, in upper case, names no instruction.
pub open spec fn line_inst(line: Seq<char>) -> Result<Option<Instruction>, ()> {
    let ws = words(line);
    if ws.len() == 0 || ws[0][0] == '#' {
        Ok(None)
    } else {
        match mnemonic(unicode_to_upper(ws[0])) {
            Some((op, l)) => Ok(
                Some(layout_inst(op, l, operand(ws, 1), operand(ws, 2), operand(ws, 3))),
            ),
            None => Err(()),
        }
    }
}

/// The program of the lines from index `k` on; the error names the first
/// failing line, counted from 1.
pub open spec fn assemble_from(ls: Seq<Seq<char>>, k: int) -> Result<Seq<Instruction>, AsmError>
    decreases ls.len() - k,
{
    if k < 0 || k >= ls.len() {
        Ok(Seq::empty())
    } else {
        match line_inst(ls[k]) {
            Err(_) => Err(AsmError::InvalidMnemonic { line: (k + 1) as usize }),
            Ok(None) => assemble_from(ls, k + 1),
            Ok(Some(i)) => match assemble_from(ls, k + 1) {
                Ok(rest) => Ok(seq![i] + rest),
                Err(e) => Err(e),
            },
        }
    }
}

/// The program that a source text assembles to.
pub open spec fn assemble(src: Seq<char>) -> Result<Seq<Instruction>, AsmError> {
    assemble_from(source_lines(src), 0)
}

/// An immediate operand comes back unchanged from the instruction it was
/// assembled into, and so do the register operands.
pub proof fn lemma_layout_fields(op: OpCode, l: Layout, p1: u16, p2: u16, p3: u16)
    ensures
        layout_inst(op, l, p1, p2, p3).spec_opcode() == op.spec_code(),
        l is AImm ==> layout_inst(op, l, p1, p2, p3).spec_imm16() == p2,
        l is Imm ==> layout_inst(op, l, p1, p2, p3).spec_imm16() == p1,
        (l is AB || l is ABC || l is AImm || l is A) ==> layout_inst(op, l, p1, p2, p3).spec_a()
            == p1 % 256,
        (l is AB || l is ABC) ==> layout_inst(op, l, p1, p2, p3).spec_b() == p2 % 256,
        l is ABC ==> layout_inst(op, l, p1, p2, p3).spec_c() == p3 % 256,
{
    let code = op.spec_code();
    lemma_decode_encode(code, 0, 0, 0);
    lemma_decode_encode(code, low(p1), low(p2), 0);
    lemma_decode_encode(code, low(p1), low(p2), low(p3));
    lemma_decode_encode(code, low(p1), low(p2), high(p2));
    lemma_decode_encode(code, 0, low(p1), high(p1));
    lemma_decode_encode(code, low(p1), 0, 0);
}

/// The lines of a text, each as its characters.
fn split_lines(s: &Vec<char>) -> (r: Vec<Vec<char>>)
    ensures
        r@.map_values(|l: Vec<char>| l@) =~= source_lines(s@),
{
    let mut out: Vec<Vec<char>> = Vec::new();
    let mut cur: Vec<char> = Vec::new();
    let mut i: usize = 0;
    while i < s.len()
        invariant
            i <= s@.len(),
            source_lines(s@) == out@.map_values(|l: Vec<char>| l@) + lines_from(s@, i as int, cur@),
        decreases s@.len() - i,
    {
        let c = s[i];
        if c == '\n' {
            let ghost before = out@.map_values(|l: Vec<char>| l@);
            let ghost line = cur@;
            out.push(cur);
            cur = Vec::new();
            proof {
                assert(out@.map_values(|l: Vec<char>| l@) =~= before.push(line));
                assert(before + (seq![line] + lines_from(s@, i + 1, Seq::empty())) =~= before.push(
                    line,
                ) + lines_from(s@, i + 1, Seq::empty()));
            }
        } else {
            cur.push(c);
        }
        i = i + 1;
    }
    let ghost before = out@.map_values(|l: Vec<char>| l@);
    let ghost line = cur@;
    out.push(cur);
    proof {
        assert(out@.map_values(|l: Vec<char>| l@) =~= before.push(line));
    }
    out
}

/// The words of a line, each as its characters.
fn split_words(t: &Vec<char>) -> (r: Vec<Vec<char>>)
    ensures
        r@.map_values(|w: Vec<char>| w@) =~= words(t@),
        forall|k: int| 0 <= k < r@.len() ==> #[trigger] r@[k]@.len() > 0,
{
    let mut out: Vec<Vec<char>> = Vec::new();
    let mut cur: Vec<char> = Vec::new();
    let mut i: usize = 0;
    while i < t.len()
        invariant
            i <= t@.len(),
            words(t@) == out@.map_values(|w: Vec<char>| w@) + words_from(t@, i as int, cur@),
            forall|k: int| 0 <= k < out@.len() ==> #[trigger] out@[k]@.len() > 0,
        decreases t@.len() - i,
    {
        let c = t[i];
        if char_is_whitespace(c) {
            if cur.len() > 0 {
                let ghost before = out@.map_values(|w: Vec<char>| w@);
                let ghost word = cur@;
                out.push(cur);
                cur = Vec::new();
                proof {
                    assert(out@.map_values(|w: Vec<char>| w@) =~= before.push(word));
                    assert(before + (seq![word] + words_from(t@, i + 1, Seq::empty())) =~= before.push(
                        word,
                    ) + words_from(t@, i + 1, Seq::empty()));
                }
            } else {
                proof {
                    assert(cur@ =~= Seq::<char>::empty());
                    assert(Seq::<Seq<char>>::empty() + words_from(t@, i + 1, Seq::empty()) =~= words_from(
                        t@,
                        i + 1,
                        Seq::empty(),
                    ));
                }
            }
        } else {
            cur.push(c);
        }
        i = i + 1;
    }
    if cur.len() > 0 {
        let ghost before = out@.map_values(|w: Vec<char>| w@);
        let ghost word = cur@;
        out.push(cur);
        proof {
            assert(out@.map_values(|w: Vec<char>| w@) =~= before.push(word));
        }
    } else {
        proof {
            assert(out@.map_values(|w: Vec<char>| w@) + Seq::<Seq<char>>::empty() =~= out@.map_values(
                |w: Vec<char>| w@,
            ));
        }
    }
    out
}

/// The value of an unsigned 16-bit literal (`str::parse::<u16>`).
fn parse_u16(t: &[char]) -> (r: Option<u16>)
    ensures
        r == u16_literal(t@),
{
    let start: usize = if t.len() > 0 && t[0] == '+' { 1 } else { 0 };
    let ghost d = unsigned_digits(t@);
    proof {
        assert(d =~= t@.subrange(start as int, t@.len() as int));
    }
    if start >= t.len() {
        return None;
    }
    let mut val: u32 = 0;
    let mut k: usize = start;
    while k < t.len()
        invariant
            start <= k <= t@.len(),
            d =~= t@.subrange(start as int, t@.len() as int),
            d == unsigned_digits(t@),
            val as int == digits_value(t@.subrange(start as int, k as int)),
            val <= 65535,
            forall|m: int| start <= m < k ==> is_ascii_digit(#[trigger] t@[m]),
        decreases t@.len() - k,
    {
        let c = t[k];
        if !('0' <= c && c <= '9') {
            proof {
                assert(!is_ascii_digit(d[k - start]));
            }
            return None;
        }
        proof {
            assert(t@.subrange(start as int, k + 1).drop_last() =~= t@.subrange(start as int, k as int));
        }
        val = val * 10 + (c as u32 - '0' as u32);
        k = k + 1;
        if val > 65535 {
            proof {
                if all_ascii_digits(d) {
                    lemma_digits_value_prefix(d, k - start);
                    assert(d.take(k - start) =~= t@.subrange(start as int, k as int));
                }
            }
            return None;
        }
    }
    proof {
        assert(t@.subrange(start as int, k as int) =~= d);
        assert forall|m: int| 0 <= m < d.len() implies is_ascii_digit(#[trigger] d[m]) by {
            assert(d[m] == t@[start + m]);
        }
    }
    Some(val as u16)
}

/// The instruction and layout that an upper-case mnemonic names.
fn lookup_mnemonic(m: &[char]) -> (r: Option<(OpCode, Layout)>)
    ensures
        r == mnemonic(m@),
{
    if chars_eq(m, "HALT") {
        Some((OpCode::Halt, Layout::Bare))
    } else if chars_eq(m, "LOADIMM") {
        Some((OpCode::LoadImm, Layout::AB))
    } else if chars_eq(m, "LOADIMM16") {
        Some((OpCode::LoadImm16, Layout::AImm))
    } else if chars_eq(m, "ADD") {
        Some((OpCode::Add, Layout::ABC))
    } else if chars_eq(m, "SUB") {
        Some((OpCode::Sub, Layout::ABC))
    } else if chars_eq(m, "MUL") {
        Some((OpCode::Mul, Layout::ABC))
    } else if chars_eq(m, "DIV") {
        Some((OpCode::Div, Layout::ABC))
    } else if chars_eq(m, "MOD") {
        Some((OpCode::Mod, Layout::ABC))
    } else if chars_eq(m, "FADD") {
        Some((OpCode::FAdd, Layout::ABC))
    } else if chars_eq(m, "FSUB") {
        Some((OpCode::FSub, Layout::ABC))
    } else if chars_eq(m, "FMUL") {
        Some((OpCode::FMul, Layout::ABC))
    } else if chars_eq(m, "FDIV") {
        Some((OpCode::FDiv, Layout::ABC))
    } else if chars_eq(m, "AND") {
        Some((OpCode::And, Layout::ABC))
    } else if chars_eq(m, "OR") {
        Some((OpCode::Or, Layout::ABC))
    } else if chars_eq(m, "XOR") {
        Some((OpCode::Xor, Layout::ABC))
    } else if chars_eq(m, "SHL") {
        Some((OpCode::Shl, Layout::ABC))
    } else if chars_eq(m, "SHR") {
        Some((OpCode::Shr, Layout::ABC))
    } else if chars_eq(m, "JMP") {
        Some((OpCode::Jmp, Layout::Imm))
    } else if chars_eq(m, "JMPIFZERO") {
        Some((OpCode::JmpIfZero, Layout::AImm))
    } else if chars_eq(m, "JMPIFEQ") {
        Some((OpCode::JmpIfEq, Layout::ABC))
    } else if chars_eq(m, "JMPIFLT") {
        Some((OpCode::JmpIfLt, Layout::ABC))
    } else if chars_eq(m, "JMPIFGT") {
        Some((OpCode::JmpIfGt, Layout::ABC))
    } else if chars_eq(m, "JMPIFFLT") {
        Some((OpCode::JmpIfFLt, Layout::ABC))
    } else if chars_eq(m, "JMPIFFGT") {
        Some((OpCode::JmpIfFGt, Layout::ABC))
    } else if chars_eq(m, "CALL") {
        Some((OpCode::Call, Layout::Imm))
    } else if chars_eq(m, "RET") {
        Some((OpCode::Ret, Layout::Bare))
    } else if chars_eq(m, "PRINTREG") {
        Some((OpCode::PrintReg, Layout::A))
    } else if chars_eq(m, "LOAD") {
        Some((OpCode::Load, Layout::ABC))
    } else if chars_eq(m, "STORE") {
        Some((OpCode::Store, Layout::ABC))
    } else if chars_eq(m, "EXP") {
        Some((OpCode::Exp, Layout::AB))
    } else if chars_eq(m, "RSQRT") {
        Some((OpCode::Rsqrt, Layout::AB))
    } else if chars_eq(m, "SILU") {
        Some((OpCode::Silu, Layout::AB))
    } else if chars_eq(m, "UICALL") {
        Some((OpCode::UiCall, Layout::ABC))
    } else if chars_eq(m, "NEURALCALL") {
        Some((OpCode::NeuralCall, Layout::ABC))
    } else {
        None
    }
}

/// Operand `k` of a line's words.
fn operand_at(ws: &Vec<Vec<char>>, k: usize) -> (r: u16)
    ensures
        r == operand(ws@.map_values(|w: Vec<char>| w@), k as int),
{
    if k < ws.len() {
        match parse_u16(&ws[k]) {
            Some(v) => v,
            None => 0,
        }
    } else {
        0
    }
}

/// Builds the instruction of an opcode with a layout from three operands.
fn build(op: OpCode, l: Layout, p1: u16, p2: u16, p3: u16) -> (r: Instruction)
    ensures
        r == layout_inst(op, l, p1, p2, p3),
{
    let code = op.code();
    let a = (p1 & 0xFF) as u8;
    let b = (p2 & 0xFF) as u8;
    let c = (p3 & 0xFF) as u8;
    let lo1 = (p1 & 0xFF) as u8;
    let hi1 = ((p1 >> 8) & 0xFF) as u8;
    let hi2 = ((p2 >> 8) & 0xFF) as u8;
    proof {
        assert((p1 & 0xff) as u8 == low(p1)) by (bit_vector);
        assert((p2 & 0xff) as u8 == low(p2)) by (bit_vector);
        assert((p3 & 0xff) as u8 == low(p3)) by (bit_vector);
        assert(((p1 >> 8u16) & 0xff) as u8 == high(p1)) by (bit_vector);
        assert(((p2 >> 8u16) & 0xff) as u8 == high(p2)) by (bit_vector);
    }
    match l {
        Layout::Bare => Instruction::new(code, 0, 0, 0),
        Layout::AB => Instruction::new(code, a, b, 0),
        Layout::ABC => Instruction::new(code, a, b, c),
        Layout::AImm => Instruction::new(code, a, b, hi2),
        Layout::Imm => Instruction::new(code, 0, lo1, hi1),
        Layout::A => Instruction::new(code, a, 0, 0),
    }
}

/// Assembles one line: `Ok(None)` for a blank or comment line.
fn assemble_line(line: &Vec<char>) -> (r: Result<Option<Instruction>, ()>)
    ensures
        r == line_inst(line@),
{
    let ws = split_words(line);
    let ghost wv = ws@.map_values(|w: Vec<char>| w@);
    if ws.len() == 0 {
        return Ok(None);
    }
    proof {
        assert(ws@[0]@.len() > 0);
        assert(wv[0] == ws@[0]@);
    }
    if ws[0][0] == '#' {
        return Ok(None);
    }
    let upper = str_to_uppercase(&ws[0]);
    match lookup_mnemonic(&upper) {
        Some((op, l)) => {
            let p1 = operand_at(&ws, 1);
            let p2 = operand_at(&ws, 2);
            let p3 = operand_at(&ws, 3);
            Ok(Some(build(op, l, p1, p2, p3)))
        },
        None => Err(()),
    }
}

/// Assembles a program, one instruction per line. Blank lines and lines whose
/// first word starts with `#` are skipped; the first word names the
/// instruction in any case, the next three are its operands (a missing or
/// unreadable operand counts as 0).
pub fn parse_asm(source: &str) -> (r: Result<Vec<Instruction>, AsmError>)
    ensures
        match assemble(source@) {
            Ok(is) => r is Ok && r->Ok_0@ == is,
            Err(e) => r is Err && r->Err_0 == e,
        },
{
    let chars = str_chars(source);
    let lines = split_lines(&chars);
    let ghost lv = lines@.map_values(|l: Vec<char>| l@);
    let mut code: Vec<Instruction> = Vec::new();
    let mut k: usize = 0;
    while k < lines.len()
        invariant
            k <= lines@.len(),
            lv == lines@.map_values(|l: Vec<char>| l@),
            lv =~= source_lines(source@),
            assemble(source@) == match assemble_from(lv, k as int) {
                Ok(rest) => Ok(code@ + rest),
                Err(e) => Err::<Seq<Instruction>, AsmError>(e),
            },
        decreases lines@.len() - k,
    {
        proof {
            assert(lv[k as int] == lines@[k as int]@);
        }
        match assemble_line(&lines[k]) {
            Err(_) => {
                return Err(AsmError::InvalidMnemonic { line: k + 1 });
            },
            Ok(None) => {},
            Ok(Some(inst)) => {
                let ghost before = code@;
                code.push(inst);
                proof {
                    match assemble_from(lv, k + 1) {
                        Ok(rest) => {
                            assert(before + (seq![inst] + rest) =~= code@ + rest);
                        },
                        Err(_) => {},
                    }
                }
            },
        }
        k = k + 1;
    }
    proof {
        assert(code@ + Seq::<Instruction>::empty() =~= code@);
    }
    Ok(code)
}

} // verus!

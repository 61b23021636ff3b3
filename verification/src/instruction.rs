use vstd::prelude::*;

verus! {

/// The operation codes of the ScriptGo instruction set, numbered from 0 in
/// declaration order.
#[derive(Debug, Clone, Copy, PartialEq, Eq, Structural)]
pub enum OpCode {
    Halt,
    LoadImm,
    LoadImm16,
    Add,
    Sub,
    Mul,
    Div,
    Mod,
    FAdd,
    FSub,
    FMul,
    FDiv,
    And,
    Or,
    Xor,
    Shl,
    Shr,
    CmpEq,
    CmpLt,
    Jmp,
    JmpIfZero,
    JmpIfEq,
    JmpIfLt,
    JmpIfGt,
    JmpIfFLt,
    JmpIfFGt,
    Call,
    Ret,
    PrintReg,
    SysCall,
    Load,
    Store,
    Exp,
    Rsqrt,
    Silu,
    HardwareCall,
    UiCall,
    NeuralCall,
    Yield,
    VecAdd,
    VecMul,
    VecDot,
    Spawn,
    Await,
    Mmap,
    DeltaEncode,
    DeltaDecode,
}

/// Number of defined operation codes; every byte below it names one.
pub const OPCODE_COUNT: u8 = 47;

impl OpCode {
    /// The numeric code of an operation.
    pub open spec fn spec_code(self) -> u8 {
        match self {
            OpCode::Halt => 0,
            OpCode::LoadImm => 1,
            OpCode::LoadImm16 => 2,
            OpCode::Add => 3,
            OpCode::Sub => 4,
            OpCode::Mul => 5,
            OpCode::Div => 6,
            OpCode::Mod => 7,
            OpCode::FAdd => 8,
            OpCode::FSub => 9,
            OpCode::FMul => 10,
            OpCode::FDiv => 11,
            OpCode::And => 12,
            OpCode::Or => 13,
            OpCode::Xor => 14,
            OpCode::Shl => 15,
            OpCode::Shr => 16,
            OpCode::CmpEq => 17,
            OpCode::CmpLt => 18,
            OpCode::Jmp => 19,
            OpCode::JmpIfZero => 20,
            OpCode::JmpIfEq => 21,
            OpCode::JmpIfLt => 22,
            OpCode::JmpIfGt => 23,
            OpCode::JmpIfFLt => 24,
            OpCode::JmpIfFGt => 25,
            OpCode::Call => 26,
            OpCode::Ret => 27,
            OpCode::PrintReg => 28,
            OpCode::SysCall => 29,
            OpCode::Load => 30,
            OpCode::Store => 31,
            OpCode::Exp => 32,
            OpCode::Rsqrt => 33,
            OpCode::Silu => 34,
            OpCode::HardwareCall => 35,
            OpCode::UiCall => 36,
            OpCode::NeuralCall => 37,
            OpCode::Yield => 38,
            OpCode::VecAdd => 39,
            OpCode::VecMul => 40,
            OpCode::VecDot => 41,
            OpCode::Spawn => 42,
            OpCode::Await => 43,
            OpCode::Mmap => 44,
            OpCode::DeltaEncode => 45,
            OpCode::DeltaDecode => 46,
        }
    }

    /// The numeric code of an operation, as it is stored in an instruction.
    #[verifier::when_used_as_spec(spec_code)]
    pub fn code(self) -> (r: u8)
        ensures
            r == self.spec_code(),
            r < OPCODE_COUNT,
    {
        match self {
            OpCode::Halt => 0,
            OpCode::LoadImm => 1,
            OpCode::LoadImm16 => 2,
            OpCode::Add => 3,
            OpCode::Sub => 4,
            OpCode::Mul => 5,
            OpCode::Div => 6,
            OpCode::Mod => 7,
            OpCode::FAdd => 8,
            OpCode::FSub => 9,
            OpCode::FMul => 10,
            OpCode::FDiv => 11,
            OpCode::And => 12,
            OpCode::Or => 13,
            OpCode::Xor => 14,
            OpCode::Shl => 15,
            OpCode::Shr => 16,
            OpCode::CmpEq => 17,
            OpCode::CmpLt => 18,
            OpCode::Jmp => 19,
            OpCode::JmpIfZero => 20,
            OpCode::JmpIfEq => 21,
            OpCode::JmpIfLt => 22,
            OpCode::JmpIfGt => 23,
            OpCode::JmpIfFLt => 24,
            OpCode::JmpIfFGt => 25,
            OpCode::Call => 26,
            OpCode::Ret => 27,
            OpCode::PrintReg => 28,
            OpCode::SysCall => 29,
            OpCode::Load => 30,
            OpCode::Store => 31,
            OpCode::Exp => 32,
            OpCode::Rsqrt => 33,
            OpCode::Silu => 34,
            OpCode::HardwareCall => 35,
            OpCode::UiCall => 36,
            OpCode::NeuralCall => 37,
            OpCode::Yield => 38,
            OpCode::VecAdd => 39,
            OpCode::VecMul => 40,
            OpCode::VecDot => 41,
            OpCode::Spawn => 42,
            OpCode::Await => 43,
            OpCode::Mmap => 44,
            OpCode::DeltaEncode => 45,
            OpCode::DeltaDecode => 46,
        }
    }
}

/// A 32-bit instruction word laid out as `[opcode, A, B, C]`, opcode in the
/// least significant byte.
#[derive(Clone, Copy, Debug, PartialEq, Eq, Structural)]
pub struct Instruction(pub u32);

/// The word that packs an opcode and three operand bytes.
pub open spec fn encode(opcode: u8, a: u8, b: u8, c: u8) -> u32 {
    (opcode as u32) | ((a as u32) << 8u32) | ((b as u32) << 16u32) | ((c as u32) << 24u32)
}

impl Instruction {
    pub open spec fn spec_opcode(&self) -> u8 {
        (self.0 & 0xff) as u8
    }

    pub open spec fn spec_a(&self) -> usize {
        ((self.0 >> 8u32) & 0xff) as usize
    }

    pub open spec fn spec_b(&self) -> usize {
        ((self.0 >> 16u32) & 0xff) as usize
    }

    pub open spec fn spec_c(&self) -> usize {
        ((self.0 >> 24u32) & 0xff) as usize
    }

    pub open spec fn spec_imm16(&self) -> u16 {
        ((self.0 >> 16u32) & 0xffff) as u16
    }

    /// Packs an opcode and three operand bytes into an instruction word.
    pub fn new(opcode: u8, a: u8, b: u8, c: u8) -> (r: Self)
        ensures
            r.0 == encode(opcode, a, b, c),
            r.spec_opcode() == opcode,
            r.spec_a() == a as usize,
            r.spec_b() == b as usize,
            r.spec_c() == c as usize,
            r.spec_imm16() == (b as u16) | ((c as u16) << 8u16),
    {
        proof {
            lemma_decode_encode(opcode, a, b, c);
        }
        Instruction((opcode as u32) | ((a as u32) << 8) | ((b as u32) << 16) | ((c as u32) << 24))
    }

    /// The opcode byte.
    #[verifier::when_used_as_spec(spec_opcode)]
    pub fn opcode(&self) -> (r: u8)
        ensures
            r == self.spec_opcode(),
    {
        (self.0 & 0xFF) as u8
    }

    /// Operand A, the second byte.
    #[verifier::when_used_as_spec(spec_a)]
    pub fn a(&self) -> (r: usize)
        ensures
            r == self.spec_a(),
            r < 256,
    {
        let r = ((self.0 >> 8) & 0xFF) as usize;
        proof {
            let x = self.0;
            assert((x >> 8u32) & 0xff < 256) by (bit_vector);
        }
        r
    }

    /// Operand B, the third byte.
    #[verifier::when_used_as_spec(spec_b)]
    pub fn b(&self) -> (r: usize)
        ensures
            r == self.spec_b(),
            r < 256,
    {
        let r = ((self.0 >> 16) & 0xFF) as usize;
        proof {
            let x = self.0;
            assert((x >> 16u32) & 0xff < 256) by (bit_vector);
        }
        r
    }

    /// Operand C, the most significant byte.
    #[verifier::when_used_as_spec(spec_c)]
    pub fn c(&self) -> (r: usize)
        ensures
            r == self.spec_c(),
            r < 256,
    {
        let r = ((self.0 >> 24) & 0xFF) as usize;
        proof {
            let x = self.0;
            assert((x >> 24u32) & 0xff < 256) by (bit_vector);
        }
        r
    }

    /// The 16-bit immediate formed by operands B (low byte) and C (high byte).
    #[verifier::when_used_as_spec(spec_imm16)]
    pub fn imm16(&self) -> (r: u16)
        ensures
            r == self.spec_imm16(),
            r as usize == self.spec_b() + 256 * self.spec_c(),
    {
        proof {
            lemma_imm16_fields(*self);
        }
        ((self.0 >> 16) & 0xFFFF) as u16
    }
}

/// Decoding a packed instruction gives back the opcode and the three operands
/// it was built from, and the immediate is `B | C << 8`.
pub proof fn lemma_decode_encode(opcode: u8, a: u8, b: u8, c: u8)
    ensures
        Instruction(encode(opcode, a, b, c)).spec_opcode() == opcode,
        Instruction(encode(opcode, a, b, c)).spec_a() == a as usize,
        Instruction(encode(opcode, a, b, c)).spec_b() == b as usize,
        Instruction(encode(opcode, a, b, c)).spec_c() == c as usize,
        Instruction(encode(opcode, a, b, c)).spec_imm16() == (b as u16) | ((c as u16) << 8u16),
        Instruction(encode(opcode, a, b, c)).spec_imm16() as int == b as int + 256 * (c as int),
{
    let w = encode(opcode, a, b, c);
    assert(((opcode as u32) | ((a as u32) << 8u32) | ((b as u32) << 16u32) | ((c as u32) << 24u32)) & 0xff == opcode as u32) by (bit_vector);
    assert((((opcode as u32) | ((a as u32) << 8u32) | ((b as u32) << 16u32) | ((c as u32) << 24u32)) >> 8u32) & 0xff == a as u32) by (bit_vector);
    assert((((opcode as u32) | ((a as u32) << 8u32) | ((b as u32) << 16u32) | ((c as u32) << 24u32)) >> 16u32) & 0xff == b as u32) by (bit_vector);
    assert((((opcode as u32) | ((a as u32) << 8u32) | ((b as u32) << 16u32) | ((c as u32) << 24u32)) >> 24u32) & 0xff == c as u32) by (bit_vector);
    assert((((opcode as u32) | ((a as u32) << 8u32) | ((b as u32) << 16u32) | ((c as u32) << 24u32)) >> 16u32) & 0xffff == ((b as u16) | ((c as u16) << 8u16)) as u32) by (bit_vector);
    assert((b as u16) | ((c as u16) << 8u16) == (b as u16) + 256 * (c as u16)) by (bit_vector);
}

/// An instruction word is determined by its four fields: re-encoding the
/// decoded opcode and operands gives back the same word.
pub proof fn lemma_encode_decode(inst: Instruction)
    ensures
        encode(inst.spec_opcode(), inst.spec_a() as u8, inst.spec_b() as u8, inst.spec_c() as u8) == inst.0,
{
    let x = inst.0;
    assert(((x & 0xff) as u8 as u32) | ((((x >> 8u32) & 0xff) as u8 as u32) << 8u32) | ((((x >> 16u32) & 0xff) as u8 as u32) << 16u32) | ((((x >> 24u32) & 0xff) as u8 as u32) << 24u32) == x) by (bit_vector);
}

/// The immediate of any instruction word is operand B plus 256 times operand C.
pub proof fn lemma_imm16_fields(inst: Instruction)
    ensures
        inst.spec_imm16() as int == inst.spec_b() as int + 256 * inst.spec_c() as int,
        inst.spec_b() < 256,
        inst.spec_c() < 256,
        inst.spec_a() < 256,
{
    let x = inst.0;
    assert(((x >> 16u32) & 0xffff) == ((x >> 16u32) & 0xff) + 256 * ((x >> 24u32) & 0xff)) by (bit_vector);
    assert((x >> 8u32) & 0xff < 256) by (bit_vector);
    assert((x >> 16u32) & 0xff < 256) by (bit_vector);
    assert((x >> 24u32) & 0xff < 256) by (bit_vector);
}

} // verus!

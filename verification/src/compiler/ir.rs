use vstd::prelude::*;

verus! {

/// The name of a value that an IR instruction defines.
#[derive(Debug, Clone, Copy, PartialEq, Eq, Structural)]
pub struct ValueId(pub usize);

/// An IR operation.
#[derive(Debug, PartialEq)]
pub enum Op {
    LoadImm(i64),
    Add(ValueId, ValueId),
    Sub(ValueId, ValueId),
    Mul(ValueId, ValueId),
    Div(ValueId, ValueId),
    Mod(ValueId, ValueId),
    Eq(ValueId, ValueId),
    Ne(ValueId, ValueId),
    Lt(ValueId, ValueId),
    Gt(ValueId, ValueId),
    Le(ValueId, ValueId),
    Ge(ValueId, ValueId),
    And(ValueId, ValueId),
    Or(ValueId, ValueId),
    ShiftLeft(ValueId, ValueId),
    ShiftRight(ValueId, ValueId),
    /// Reads a variable.
    VarLoad(String),
    /// Writes a value to a variable.
    VarStore(String, ValueId),
    /// Jumps to a block.
    Jmp(usize),
    /// Jumps to the first block when the value is not zero, else to the
    /// second.
    JmpIf(ValueId, usize, usize),
    /// A call of a built-in function.
    Call(String, Vec<ValueId>),
    /// A call of a built-in macro.
    MacroCall(String, Vec<ValueId>),
    /// Starts a task at a code address.
    Spawn(u16),
    /// Waits for a task.
    Await(ValueId),
    /// Gives control back to the host.
    Yield,
    /// Returns from the function.
    Return(Option<ValueId>),
}

/// The mathematical value of an operation.
pub enum OpV {
    LoadImm(i64),
    Add(ValueId, ValueId),
    Sub(ValueId, ValueId),
    Mul(ValueId, ValueId),
    Div(ValueId, ValueId),
    Mod(ValueId, ValueId),
    Eq(ValueId, ValueId),
    Ne(ValueId, ValueId),
    Lt(ValueId, ValueId),
    Gt(ValueId, ValueId),
    Le(ValueId, ValueId),
    Ge(ValueId, ValueId),
    And(ValueId, ValueId),
    Or(ValueId, ValueId),
    ShiftLeft(ValueId, ValueId),
    ShiftRight(ValueId, ValueId),
    VarLoad(Seq<char>),
    VarStore(Seq<char>, ValueId),
    Jmp(usize),
    JmpIf(ValueId, usize, usize),
    Call(Seq<char>, Seq<ValueId>),
    MacroCall(Seq<char>, Seq<ValueId>),
    Spawn(u16),
    Await(ValueId),
    Yield,
    Return(Option<ValueId>),
}

impl View for Op {
    type V = OpV;

    open spec fn view(&self) -> OpV {
        match self {
            Op::LoadImm(v) => OpV::LoadImm(*v),
            Op::Add(a, b) => OpV::Add(*a, *b),
            Op::Sub(a, b) => OpV::Sub(*a, *b),
            Op::Mul(a, b) => OpV::Mul(*a, *b),
            Op::Div(a, b) => OpV::Div(*a, *b),
            Op::Mod(a, b) => OpV::Mod(*a, *b),
            Op::Eq(a, b) => OpV::Eq(*a, *b),
            Op::Ne(a, b) => OpV::Ne(*a, *b),
            Op::Lt(a, b) => OpV::Lt(*a, *b),
            Op::Gt(a, b) => OpV::Gt(*a, *b),
            Op::Le(a, b) => OpV::Le(*a, *b),
            Op::Ge(a, b) => OpV::Ge(*a, *b),
            Op::And(a, b) => OpV::And(*a, *b),
            Op::Or(a, b) => OpV::Or(*a, *b),
            Op::ShiftLeft(a, b) => OpV::ShiftLeft(*a, *b),
            Op::ShiftRight(a, b) => OpV::ShiftRight(*a, *b),
            Op::VarLoad(n) => OpV::VarLoad(n@),
            Op::VarStore(n, v) => OpV::VarStore(n@, *v),
            Op::Jmp(b) => OpV::Jmp(*b),
            Op::JmpIf(c, t, f) => OpV::JmpIf(*c, *t, *f),
            Op::Call(n, args) => OpV::Call(n@, args@),
            Op::MacroCall(n, args) => OpV::MacroCall(n@, args@),
            Op::Spawn(pc) => OpV::Spawn(*pc),
            Op::Await(t) => OpV::Await(*t),
            Op::Yield => OpV::Yield,
            Op::Return(v) => OpV::Return(*v),
        }
    }
}

/// An IR instruction: the value it defines and its operation.
#[derive(Debug)]
pub struct Instruction {
    pub id: ValueId,
    pub op: Op,
}

#[verifier::ext_equal]
pub struct InstV {
    pub id: ValueId,
    pub op: OpV,
}

impl View for Instruction {
    type V = InstV;

    open spec fn view(&self) -> InstV {
        InstV { id: self.id, op: self.op@ }
    }
}

/// A basic block: its index and its instructions.
#[derive(Debug)]
pub struct BasicBlock {
    pub id: usize,
    pub insts: Vec<Instruction>,
    pub successors: Vec<usize>,
}

/// A function in IR: its blocks, block `i` at index `i`, and the next value
/// to allocate.
#[derive(Debug)]
pub struct FunctionIR {
    pub name: String,
    pub blocks: Vec<BasicBlock>,
    pub next_value_id: usize,
}

/// The mathematical value of a function: the instructions of each block and
/// the next value.
#[verifier::ext_equal]
pub struct FuncV {
    pub blocks: Seq<Seq<InstV>>,
    pub next: int,
}

pub open spec fn insts_view(is: Seq<Instruction>) -> Seq<InstV> {
    is.map_values(|i: Instruction| i@)
}

impl View for FunctionIR {
    type V = FuncV;

    open spec fn view(&self) -> FuncV {
        FuncV {
            blocks: self.blocks@.map_values(|b: BasicBlock| insts_view(b.insts@)),
            next: self.next_value_id as int,
        }
    }
}

impl FunctionIR {
    /// Every block sits at the index it names and has no recorded successors.
    pub open spec fn wf(&self) -> bool {
        forall|i: int|
            0 <= i < self.blocks@.len() ==> (#[trigger] self.blocks@[i]).id == i
                && self.blocks@[i].successors@.len() == 0
    }

    /// A function without blocks, allocating from value 0.
    pub fn new(name: String) -> (r: Self)
        ensures
            r.name == name,
            r.blocks@.len() == 0,
            r.next_value_id == 0,
            r.wf(),
    {
        Self { name, blocks: Vec::new(), next_value_id: 0 }
    }

    /// A fresh value.
    pub fn alloc_val(&mut self) -> (r: ValueId)
        requires
            old(self).next_value_id < usize::MAX,
        ensures
            r == ValueId(old(self).next_value_id),
            final(self).next_value_id == old(self).next_value_id + 1,
            final(self).name == old(self).name,
            final(self).blocks == old(self).blocks,
    {
        let id = self.next_value_id;
        self.next_value_id = self.next_value_id + 1;
        ValueId(id)
    }
}

} // verus!

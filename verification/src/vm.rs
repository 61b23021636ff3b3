use vstd::prelude::*;
use crate::instruction::{Instruction, lemma_imm16_fields};
use vstd::utf8::{valid_utf8, decode_utf8, encode_utf8, encode_scalar, is_scalar};

verus! {

/// Number of general purpose registers.
pub const REGISTER_COUNT: usize = 256;
/// Number of bytes of VM-owned RAM; addresses below it address RAM.
pub const MEMORY_SIZE: usize = 1024;
/// Depth of the call stack.
pub const CALL_STACK_DEPTH: usize = 64;
/// Capacity of the circular trace buffer.
pub const TRACE_CAPACITY: usize = 1024;
/// First address of the host-mapped region.
pub const MMAP_BASE: usize = 0x8000_0000;
/// Step budget of a freshly created VM.
pub const DEFAULT_MAX_STEPS: u32 = 10000;

/// One entry of the execution trace: where the instruction was, its word, and
/// the register or memory word it changed.
#[derive(Debug, Clone, Copy, PartialEq, Eq)]
pub struct TraceStep {
    pub pc: u32,
    pub inst: u32,
    pub reg_change: Option<(u8, u32)>,
    pub mem_change: Option<(u16, u32)>,
}

impl TraceStep {
    pub open spec fn spec_empty() -> TraceStep {
        TraceStep { pc: 0, inst: 0, reg_change: None, mem_change: None }
    }
}

impl Default for TraceStep {
    fn default() -> (r: Self)
        ensures
            r == TraceStep::spec_empty(),
    {
        TraceStep { pc: 0, inst: 0, reg_change: None, mem_change: None }
    }
}

/// Runtime errors of the VM; `pc` is the address of the failing instruction.
#[derive(Debug, Clone, Copy, PartialEq, Eq, Structural)]
pub enum VmError {
    DivideByZero { pc: usize },
    StackOverflow { pc: usize },
    StackUnderflow { pc: usize },
    InvalidOpcode { pc: usize, opcode: u8 },
    MemoryAccessOutOfBounds { pc: usize, addr: usize },
    MathError { pc: usize },
    OutOfFuel { pc: usize },
}

/// Situations in which execution cannot go on inside the machine at all.
#[derive(Debug, Clone, Copy, PartialEq, Eq, Structural)]
pub enum FaultKind {
    /// A shift by 32 or more bits.
    ShiftOverflow,
    /// The step counter would pass `u32::MAX`.
    StepCounterOverflow,
}

/// Work that the machine hands to its host; the operands are read out of the
/// registers already.
#[derive(Debug, Clone, Copy, PartialEq, Eq, Structural)]
pub enum HostKind {
    /// `PrintReg`: the value of the register to print.
    Print { value: u32 },
    /// `SysCall` with its three operand bytes.
    SysCall { a: usize, b: usize, c: usize },
    /// `HardwareCall` with its three operand bytes.
    HardwareCall { a: usize, b: usize, c: usize },
    /// `UiCall` with its three operand bytes.
    UiCall { a: usize, b: usize, c: usize },
    /// `NeuralCall` with its three operand bytes.
    NeuralCall { a: usize, b: usize, c: usize },
    /// `FAdd`/`FSub`/`FMul`/`FDiv` on the bit patterns of two `f32`.
    FloatArith { op: u8, dest: usize, lhs: u32, rhs: u32 },
    /// `JmpIfFLt`/`JmpIfFGt` on the bit patterns of two `f32`.
    FloatBranch { op: u8, lhs: u32, rhs: u32, target: usize },
    /// `Exp`/`Rsqrt`/`Silu` fixed-point approximations.
    Math { op: u8, dest: usize, operand: u32 },
    /// `VecAdd`/`VecMul` (dest is an address) and `VecDot` (dest is a
    /// register); the three regions were checked to lie in memory.
    Vector { op: u8, len: usize, dest: usize, src1: usize, src2: usize },
    /// Zig-zag delta coding against the state register: the host applies the
    /// zig-zag codec to `input` (encoding for `DeltaEncode`, where `input` is
    /// `src - last` wrapping; decoding for `DeltaDecode`, where it is `src`)
    /// and answers with `Value` of the codec's output.
    Delta { op: u8, dest: usize, src: u32, state: usize, last: u32, input: u32 },
    /// Before an instruction of the slow path: ask the abort flag.
    AbortCheck,
    /// Before an instruction of the slow path: call the debug hook.
    DebugHook,
    /// The machine stops; a host panics here.
    Fault(FaultKind),
}

/// A request for the host, with the address and word of the instruction.
#[derive(Debug, Clone, Copy, PartialEq, Eq, Structural)]
pub struct HostRequest {
    pub pc: usize,
    pub inst: Instruction,
    pub kind: HostKind,
}

/// The host's answer to a request.
#[derive(Debug, Clone, Copy, PartialEq, Eq, Structural)]
pub enum HostReply {
    /// The work is done; any changes were made through the VM's methods.
    Done,
    /// The value to store in the destination register.
    Value(u32),
    /// The operation failed (division by zero, approximation out of range).
    Failed,
    /// Whether a float branch is taken.
    Branch(bool),
}

/// How a run of the machine ended.
#[derive(Debug, Clone, Copy, PartialEq, Eq, Structural)]
pub enum VmResult {
    Halted(u32),
    Yielded(u32),
    Spawn(u32, u16, u8),
    Awaiting(u32, u32, u8),
    MmapRequest(u32, u32),
    /// The run paused after this many steps and waits for the host.
    HostCall(u32, HostRequest),
}

/// Which host services are attached; the machine asks the host only for
/// attached services and treats the others as doing nothing.
#[derive(Debug, Clone, Copy, PartialEq, Eq, Structural)]
pub struct HostServices {
    pub print: bool,
    pub syscall: bool,
    pub hardware: bool,
    pub ui: bool,
    pub neural: bool,
    pub abort_check: bool,
    pub debug_hook: bool,
}

impl HostServices {
    pub open spec fn spec_none() -> HostServices {
        HostServices {
            print: false,
            syscall: false,
            hardware: false,
            ui: false,
            neural: false,
            abort_check: false,
            debug_hook: false,
        }
    }

    pub fn none() -> (r: Self)
        ensures
            r == HostServices::spec_none(),
    {
        HostServices {
            print: false,
            syscall: false,
            hardware: false,
            ui: false,
            neural: false,
            abort_check: false,
            debug_hook: false,
        }
    }
}

/// Where a paused slow-path step resumes.
#[derive(Debug, Clone, Copy, PartialEq, Eq, Structural)]
pub enum SlowPhase {
    /// At the start of a step.
    Start,
    /// The abort flag was asked and said to go on.
    AbortChecked,
    /// The debug hook was called; the instruction runs next.
    HookCalled,
}

/// The register machine.
pub struct ScriptVm {
    pub registers: [u32; 256],
    pub pc: usize,
    pub call_stack: [usize; 64],
    pub sp: usize,
    pub memory: [u8; 1024],
    /// The host-mapped region, addressed from `MMAP_BASE`.
    pub mmap: Vec<u8>,
    pub max_steps: Option<u32>,
    pub tracing_enabled: bool,
    pub trace_buffer: [TraceStep; 1024],
    pub trace_head: usize,
    pub trace_count: usize,
    pub services: HostServices,
}

/// The mathematical state of the machine.
#[verifier::ext_equal]
pub struct VmState {
    pub registers: Seq<u32>,
    pub pc: usize,
    pub call_stack: Seq<usize>,
    pub sp: usize,
    pub memory: Seq<u8>,
    pub mmap: Seq<u8>,
    pub trace_buffer: Seq<TraceStep>,
    pub trace_head: usize,
    pub trace_count: usize,
}

/// The settings that a run reads and never changes.
pub struct VmConfig {
    pub max_steps: Option<u32>,
    pub tracing_enabled: bool,
    pub services: HostServices,
}

/// The state after one instruction, whether the run goes on (`flow` is
/// `None`) or ends with a result, and the register or memory word that the
/// trace records.
pub struct StepSpec {
    pub state: VmState,
    pub flow: Option<Result<VmResult, VmError>>,
    pub rc: Option<(u8, u32)>,
    pub mc: Option<(u16, u32)>,
}

impl View for ScriptVm {
    type V = VmState;

    open spec fn view(&self) -> VmState {
        VmState {
            registers: self.registers@,
            pc: self.pc,
            call_stack: self.call_stack@,
            sp: self.sp,
            memory: self.memory@,
            mmap: self.mmap@,
            trace_buffer: self.trace_buffer@,
            trace_head: self.trace_head,
            trace_count: self.trace_count,
        }
    }
}

impl VmState {
    /// The invariant that every run keeps: the fixed sizes, a call stack
    /// pointer within the stack, a trace head within the buffer and a mapped
    /// region that fits the address space.
    pub open spec fn wf(self) -> bool {
        &&& self.registers.len() == REGISTER_COUNT
        &&& self.call_stack.len() == CALL_STACK_DEPTH
        &&& self.memory.len() == MEMORY_SIZE
        &&& self.trace_buffer.len() == TRACE_CAPACITY
        &&& self.sp <= CALL_STACK_DEPTH
        &&& self.trace_head < TRACE_CAPACITY
        &&& self.mmap.len() + MMAP_BASE <= usize::MAX
    }

    pub open spec fn reg(self, i: usize) -> u32 {
        self.registers[i as int]
    }

    pub open spec fn with_reg(self, i: usize, v: u32) -> VmState {
        VmState { registers: self.registers.update(i as int, v), ..self }
    }

    pub open spec fn with_pc(self, pc: usize) -> VmState {
        VmState { pc, ..self }
    }

    /// `len` bytes from `addr` lie in RAM or in the mapped region.
    pub open spec fn region_valid(self, addr: int, len: int) -> bool {
        if addr < MEMORY_SIZE {
            addr + len <= MEMORY_SIZE
        } else if addr >= MMAP_BASE {
            (addr - MMAP_BASE) + len <= self.mmap.len()
        } else {
            false
        }
    }

    pub open spec fn byte_at(self, addr: int) -> u8 {
        if addr < MEMORY_SIZE {
            self.memory[addr]
        } else {
            self.mmap[addr - MMAP_BASE]
        }
    }

    pub open spec fn with_byte(self, addr: int, v: u8) -> VmState {
        if addr < MEMORY_SIZE {
            VmState { memory: self.memory.update(addr, v), ..self }
        } else {
            VmState { mmap: self.mmap.update(addr - MMAP_BASE, v), ..self }
        }
    }

    /// The little-endian word at `addr`.
    pub open spec fn word_at(self, addr: int) -> u32 {
        (self.byte_at(addr) as u32) | ((self.byte_at(addr + 1) as u32) << 8u32) | ((
        self.byte_at(addr + 2) as u32) << 16u32) | ((self.byte_at(addr + 3) as u32) << 24u32)
    }

    /// The state after storing `v` little-endian at `addr`.
    pub open spec fn with_word(self, addr: int, v: u32) -> VmState {
        self.with_byte(addr, (v & 0xff) as u8).with_byte(addr + 1, ((v >> 8u32) & 0xff) as u8).with_byte(
            addr + 2,
            ((v >> 16u32) & 0xff) as u8,
        ).with_byte(addr + 3, ((v >> 24u32) & 0xff) as u8)
    }

    /// The state after writing `data` from `addr` on, within RAM or within the
    /// mapped region.
    pub open spec fn with_bytes(self, addr: int, data: Seq<u8>) -> VmState {
        if addr < MEMORY_SIZE {
            VmState { memory: splice(self.memory, addr, data), ..self }
        } else {
            VmState { mmap: splice(self.mmap, addr - MMAP_BASE, data), ..self }
        }
    }

    /// The `len` bytes from `addr` on.
    pub open spec fn bytes_at(self, addr: int, len: int) -> Seq<u8> {
        Seq::new(len as nat, |i: int| self.byte_at(addr + i))
    }

    /// The bytes from `addr` up to (not including) the first zero byte, or the
    /// first address outside RAM and the mapped region when it comes first.
    pub open spec fn bytes_until_null(self, addr: int) -> Result<Seq<u8>, int>
        decreases MMAP_BASE + self.mmap.len() + MEMORY_SIZE - addr,
    {
        if addr < 0 || !self.region_valid(addr, 1) {
            Err(addr)
        } else if self.byte_at(addr) == 0 {
            Ok(Seq::empty())
        } else {
            match self.bytes_until_null(addr + 1) {
                Ok(rest) => Ok(seq![self.byte_at(addr)] + rest),
                Err(e) => Err(e),
            }
        }
    }

    /// The bytes that a string read takes from `addr`: at most `limit` of
    /// them, up to the first zero byte or the first address outside RAM and
    /// the mapped region.
    pub open spec fn string_bytes(self, addr: int, limit: int) -> Seq<u8>
        decreases limit,
    {
        if limit <= 0 || addr < 0 || !self.region_valid(addr, 1) || self.byte_at(addr) == 0 {
            Seq::empty()
        } else {
            seq![self.byte_at(addr)] + self.string_bytes(addr + 1, limit - 1)
        }
    }

    /// The trace after recording one step in the circular buffer.
    pub open spec fn logged(self, pc: u32, inst: u32, rc: Option<(u8, u32)>, mc: Option<(u16, u32)>) -> VmState {
        VmState {
            trace_buffer: self.trace_buffer.update(
                self.trace_head as int,
                TraceStep { pc, inst, reg_change: rc, mem_change: mc },
            ),
            trace_head: ((self.trace_head + 1) % (TRACE_CAPACITY as int)) as usize,
            trace_count: if self.trace_count < TRACE_CAPACITY {
                (self.trace_count + 1) as usize
            } else {
                self.trace_count
            },
            ..self
        }
    }
}

/// `data` written over `base` from `start` on.
pub open spec fn splice(base: Seq<u8>, start: int, data: Seq<u8>) -> Seq<u8> {
    Seq::new(
        base.len(),
        |j: int| if start <= j < start + data.len() { data[j - start] } else { base[j] },
    )
}

/// The error of an access to `addr` by the instruction at `pc`.
pub open spec fn oob(pc: usize, addr: usize) -> VmError {
    VmError::MemoryAccessOutOfBounds { pc, addr }
}

pub open spec fn fuel_limit(cfg: VmConfig) -> u32 {
    match cfg.max_steps {
        Some(m) => m,
        None => u32::MAX,
    }
}

pub open spec fn go_on(s: VmState, rc: Option<(u8, u32)>, mc: Option<(u16, u32)>) -> StepSpec {
    StepSpec { state: s, flow: None, rc, mc }
}

pub open spec fn set_reg(s: VmState, a: usize, v: u32) -> StepSpec {
    go_on(s.with_reg(a, v), Some((a as u8, v)), None)
}

pub open spec fn finish(s: VmState, r: Result<VmResult, VmError>) -> StepSpec {
    StepSpec { state: s, flow: Some(r), rc: None, mc: None }
}

pub open spec fn ask_host(s: VmState, steps: u32, pc: usize, inst: Instruction, kind: HostKind) -> StepSpec {
    finish(s, Ok(VmResult::HostCall(steps, HostRequest { pc, inst, kind })))
}

/// Checks of a vector instruction: length times four must fit, then the
/// destination (for `VecAdd`/`VecMul`) and both sources must be valid.
pub open spec fn vector_step(
    s: VmState,
    steps: u32,
    pc: usize,
    inst: Instruction,
    op: u8,
) -> StepSpec {
    let len = s.reg(0) as usize;
    let dest = if op == 41 { inst.spec_a() } else { s.reg(inst.spec_a()) as usize };
    let src1 = s.reg(inst.spec_b()) as usize;
    let src2 = s.reg(inst.spec_c()) as usize;
    let first = if op == 41 { src1 } else { dest };
    if len * 4 > usize::MAX {
        finish(s, Err(oob(pc, first)))
    } else if op != 41 && !s.region_valid(dest as int, len * 4) {
        finish(s, Err(oob(pc, dest)))
    } else if !s.region_valid(src1 as int, len * 4) {
        finish(s, Err(oob(pc, src1)))
    } else if !s.region_valid(src2 as int, len * 4) {
        finish(s, Err(oob(pc, src2)))
    } else {
        ask_host(s, steps, pc, inst, HostKind::Vector { op, len, dest, src1, src2 })
    }
}

/// The effect of the instruction `inst`, fetched from `pc`, on a state whose
/// program counter already points past it; `steps` counts it, `slow` selects
/// the slow path's variant of the instruction set.
pub open spec fn exec_core(
    s: VmState,
    cfg: VmConfig,
    inst: Instruction,
    pc: usize,
    steps: u32,
    slow: bool,
) -> StepSpec {
    let a = inst.spec_a();
    let b = inst.spec_b();
    let c = inst.spec_c();
    let imm = inst.spec_imm16() as usize;
    let op = inst.spec_opcode();
    match op {
        0 => finish(s, Ok(VmResult::Halted(steps))),
        1 => set_reg(s, a, b as u32),
        2 => set_reg(s, a, imm as u32),
        3 => set_reg(s, a, vstd::wrapping::u32_specs::wrapping_add(s.reg(b), s.reg(c))),
        4 => set_reg(s, a, vstd::wrapping::u32_specs::wrapping_sub(s.reg(b), s.reg(c))),
        5 => set_reg(s, a, vstd::wrapping::u32_specs::wrapping_mul(s.reg(b), s.reg(c))),
        6 => if s.reg(c) == 0 {
            finish(s, Err(VmError::DivideByZero { pc }))
        } else {
            set_reg(s, a, (s.reg(b) / s.reg(c)) as u32)
        },
        7 => if s.reg(c) == 0 {
            finish(s, Err(VmError::DivideByZero { pc }))
        } else {
            set_reg(s, a, (s.reg(b) % s.reg(c)) as u32)
        },
        8 | 9 | 10 | 11 => ask_host(
            s,
            steps,
            pc,
            inst,
            HostKind::FloatArith { op, dest: a, lhs: s.reg(b), rhs: s.reg(c) },
        ),
        12 => set_reg(s, a, s.reg(b) & s.reg(c)),
        13 => set_reg(s, a, s.reg(b) | s.reg(c)),
        14 => set_reg(s, a, s.reg(b) ^ s.reg(c)),
        15 => if s.reg(c) >= 32 {
            ask_host(s, steps, pc, inst, HostKind::Fault(FaultKind::ShiftOverflow))
        } else {
            set_reg(s, a, s.reg(b) << s.reg(c))
        },
        16 => if s.reg(c) >= 32 {
            ask_host(s, steps, pc, inst, HostKind::Fault(FaultKind::ShiftOverflow))
        } else {
            set_reg(s, a, s.reg(b) >> s.reg(c))
        },
        17 => if slow {
            finish(s, Err(VmError::InvalidOpcode { pc, opcode: op }))
        } else {
            go_on(s.with_reg(a, if s.reg(b) == s.reg(c) { 1 } else { 0 }), None, None)
        },
        18 => if slow {
            finish(s, Err(VmError::InvalidOpcode { pc, opcode: op }))
        } else {
            go_on(s.with_reg(a, if s.reg(b) < s.reg(c) { 1 } else { 0 }), None, None)
        },
        19 => go_on(s.with_pc(imm), None, None),
        20 => if s.reg(a) == 0 {
            go_on(s.with_pc(if slow { imm } else { b }), None, None)
        } else {
            go_on(s, None, None)
        },
        21 => if s.reg(a) == s.reg(b) {
            go_on(s.with_pc(c), None, None)
        } else {
            go_on(s, None, None)
        },
        22 => if s.reg(a) < s.reg(b) {
            go_on(s.with_pc(c), None, None)
        } else {
            go_on(s, None, None)
        },
        23 => if s.reg(a) > s.reg(b) {
            go_on(s.with_pc(c), None, None)
        } else {
            go_on(s, None, None)
        },
        24 | 25 => ask_host(
            s,
            steps,
            pc,
            inst,
            HostKind::FloatBranch { op, lhs: s.reg(a), rhs: s.reg(b), target: c },
        ),
        26 => if s.sp < CALL_STACK_DEPTH {
            go_on(
                VmState {
                    call_stack: s.call_stack.update(s.sp as int, s.pc),
                    sp: (s.sp + 1) as usize,
                    pc: imm,
                    ..s
                },
                None,
                None,
            )
        } else {
            finish(s, Err(VmError::StackOverflow { pc }))
        },
        27 => if s.sp > 0 {
            go_on(
                VmState {
                    sp: (s.sp - 1) as usize,
                    pc: s.call_stack[s.sp - 1],
                    ..s
                },
                None,
                None,
            )
        } else {
            finish(s, Err(VmError::StackUnderflow { pc }))
        },
        28 => if cfg.services.print {
            ask_host(s, steps, pc, inst, HostKind::Print { value: s.reg(a) })
        } else {
            go_on(s, None, None)
        },
        29 => if cfg.services.syscall {
            ask_host(s, steps, pc, inst, HostKind::SysCall { a, b, c })
        } else {
            go_on(s, Some((a as u8, s.reg(a))), None)
        },
        30 => {
            let addr = vstd::wrapping::u32_specs::wrapping_add(s.reg(b), s.reg(c)) as usize;
            if s.region_valid(addr as int, 4) {
                set_reg(s, a, s.word_at(addr as int))
            } else {
                finish(s, Err(oob(pc, addr)))
            }
        },
        31 => {
            let addr = vstd::wrapping::u32_specs::wrapping_add(s.reg(b), s.reg(c)) as usize;
            if s.region_valid(addr as int, 4) {
                go_on(s.with_word(addr as int, s.reg(a)), None, Some((addr as u16, s.reg(a))))
            } else {
                finish(s, Err(oob(pc, addr)))
            }
        },
        32 | 33 | 34 => ask_host(
            s,
            steps,
            pc,
            inst,
            HostKind::Math { op, dest: a, operand: s.reg(b) },
        ),
        35 => if cfg.services.hardware {
            ask_host(s, steps, pc, inst, HostKind::HardwareCall { a, b, c })
        } else {
            go_on(s, Some((a as u8, s.reg(a))), None)
        },
        36 => if cfg.services.ui {
            ask_host(s, steps, pc, inst, HostKind::UiCall { a, b, c })
        } else {
            go_on(s, None, None)
        },
        37 => if cfg.services.neural {
            ask_host(s, steps, pc, inst, HostKind::NeuralCall { a, b, c })
        } else {
            go_on(s, None, None)
        },
        38 => finish(s, Ok(VmResult::Yielded(steps))),
        39 | 40 | 41 => vector_step(s, steps, pc, inst, op),
        42 => finish(s, Ok(VmResult::Spawn(steps, inst.spec_imm16(), a as u8))),
        43 => finish(s, Ok(VmResult::Awaiting(steps, s.reg(b), a as u8))),
        44 => finish(s, Ok(VmResult::MmapRequest(steps, s.reg(b)))),
        45 | 46 => ask_host(
            s,
            steps,
            pc,
            inst,
            HostKind::Delta {
                op,
                dest: a,
                src: s.reg(b),
                state: c,
                last: s.reg(c),
                input: delta_input(op, s.reg(b), s.reg(c)),
            },
        ),
        _ => finish(s, Err(VmError::InvalidOpcode { pc, opcode: op })),
    }
}

/// One instruction, with the slow path's trace entry: a step that goes on,
/// and a `Yield`, are recorded when tracing is on.
pub open spec fn step_spec(
    s: VmState,
    cfg: VmConfig,
    inst: Instruction,
    pc: usize,
    steps: u32,
    slow: bool,
) -> (VmState, Option<Result<VmResult, VmError>>) {
    let r = exec_core(s, cfg, inst, pc, steps, slow);
    if slow && cfg.tracing_enabled && (r.flow is None || inst.spec_opcode() == 38) {
        (r.state.logged(pc as u32, inst.0, r.rc, r.mc), r.flow)
    } else {
        (r.state, r.flow)
    }
}

/// A run of the fast path from `steps` steps on: the step budget is checked
/// every 256 steps, the run halts when the program counter leaves the code.
pub open spec fn fast_run(s: VmState, cfg: VmConfig, code: Seq<Instruction>, steps: u32) -> (
    VmState,
    Result<VmResult, VmError>,
)
    decreases u32::MAX - steps,
{
    if steps % 256 == 0 && steps >= fuel_limit(cfg) {
        (s, Err(VmError::OutOfFuel { pc: s.pc }))
    } else if s.pc >= code.len() {
        (s, Ok(VmResult::Halted(steps)))
    } else if steps == u32::MAX {
        let req = HostRequest {
            pc: s.pc,
            inst: code[s.pc as int],
            kind: HostKind::Fault(FaultKind::StepCounterOverflow),
        };
        (s, Ok(VmResult::HostCall(steps, req)))
    } else {
        let next = step_spec(
            s.with_pc((s.pc + 1) as usize),
            cfg,
            code[s.pc as int],
            s.pc,
            (steps + 1) as u32,
            false,
        );
        match next.1 {
            None => fast_run(next.0, cfg, code, (steps + 1) as u32),
            Some(r) => (next.0, r),
        }
    }
}

/// A run of the slow path from `steps` steps on, resuming at `phase`: at each
/// step the abort flag is asked (when attached), the budget is checked, the
/// debug hook is called (when attached), then the instruction runs and is
/// traced.
pub open spec fn slow_run(
    s: VmState,
    cfg: VmConfig,
    code: Seq<Instruction>,
    steps: u32,
    phase: SlowPhase,
) -> (VmState, Result<VmResult, VmError>)
    decreases u32::MAX - steps, if phase is Start { 2int } else if phase is AbortChecked { 1int } else { 0int },
{
    if s.pc >= code.len() {
        (s, Ok(VmResult::Halted(steps)))
    } else if phase is Start && cfg.services.abort_check {
        let req = HostRequest { pc: s.pc, inst: code[s.pc as int], kind: HostKind::AbortCheck };
        (s, Ok(VmResult::HostCall(steps, req)))
    } else if !(phase is HookCalled) && cfg.max_steps is Some && steps >= fuel_limit(cfg) {
        (s, Err(VmError::OutOfFuel { pc: s.pc }))
    } else if !(phase is HookCalled) && cfg.services.debug_hook {
        let req = HostRequest { pc: s.pc, inst: code[s.pc as int], kind: HostKind::DebugHook };
        (s, Ok(VmResult::HostCall(steps, req)))
    } else if steps == u32::MAX {
        let req = HostRequest {
            pc: s.pc,
            inst: code[s.pc as int],
            kind: HostKind::Fault(FaultKind::StepCounterOverflow),
        };
        (s, Ok(VmResult::HostCall(steps, req)))
    } else {
        let next = step_spec(
            s.with_pc((s.pc + 1) as usize),
            cfg,
            code[s.pc as int],
            s.pc,
            (steps + 1) as u32,
            true,
        );
        match next.1 {
            None => slow_run(next.0, cfg, code, (steps + 1) as u32, SlowPhase::Start),
            Some(r) => (next.0, r),
        }
    }
}

/// What the zig-zag codec is applied to: the difference from the last value
/// (wrapping) for `DeltaEncode`, the coded value itself for `DeltaDecode`.
pub open spec fn delta_input(op: u8, src: u32, last: u32) -> u32 {
    if op == 45 { vstd::wrapping::u32_specs::wrapping_sub(src, last) } else { src }
}

/// The new state and destination registers from the codec's output `v`:
/// `DeltaEncode` keeps `src` as the last value and stores the code;
/// `DeltaDecode` adds the decoded difference to the last value (wrapping)
/// and stores the sum in both.
pub open spec fn delta_registers(op: u8, src: u32, last: u32, v: u32) -> (u32, u32) {
    if op == 45 {
        (src, v)
    } else {
        let cur = vstd::wrapping::u32_specs::wrapping_add(last, v);
        (cur, cur)
    }
}

/// What the host's reply does to the state: it stores values, takes branches,
/// reports failures, and records the slow path's trace entry.
pub open spec fn complete_spec(
    s: VmState,
    cfg: VmConfig,
    req: HostRequest,
    reply: HostReply,
    slow: bool,
) -> (VmState, Result<(), VmError>) {
    let r: Option<(VmState, Option<(u8, u32)>, Option<(u16, u32)>, bool)> = match req.kind {
        HostKind::Print { .. } => match reply {
            HostReply::Done => Some((s, None, None, true)),
            _ => None,
        },
        HostKind::SysCall { a, .. } => match reply {
            HostReply::Done => Some((s, Some((a as u8, s.reg(a))), None, true)),
            _ => None,
        },
        HostKind::HardwareCall { a, .. } => match reply {
            HostReply::Done => Some((s, Some((a as u8, s.reg(a))), None, true)),
            _ => None,
        },
        HostKind::UiCall { .. } => match reply {
            HostReply::Done => Some((s, None, None, true)),
            _ => None,
        },
        HostKind::NeuralCall { .. } => match reply {
            HostReply::Done => Some((s, None, None, true)),
            _ => None,
        },
        HostKind::FloatArith { dest, .. } => match reply {
            HostReply::Value(v) => Some((s.with_reg(dest, v), Some((dest as u8, v)), None, true)),
            _ => None,
        },
        HostKind::FloatBranch { target, .. } => match reply {
            HostReply::Branch(taken) => Some(
                (if taken { s.with_pc(target) } else { s }, None, None, true),
            ),
            _ => None,
        },
        HostKind::Math { op, dest, .. } => match reply {
            HostReply::Value(v) => {
                let w = if op == 34 { v & 0xff } else { v };
                Some((s.with_reg(dest, w), Some((dest as u8, w)), None, true))
            },
            _ => None,
        },
        HostKind::Vector { op, len, dest, .. } => if op == 41 {
            match reply {
                HostReply::Value(v) => Some((s.with_reg(dest, v), Some((dest as u8, v)), None, true)),
                _ => None,
            }
        } else {
            match reply {
                HostReply::Done => Some((s, None, Some((dest as u16, len as u32)), true)),
                _ => None,
            }
        },
        HostKind::Delta { op, dest, state, src, last, .. } => match reply {
            HostReply::Value(v) => {
                let (sv, dv) = delta_registers(op, src, last, v);
                Some((s.with_reg(state, sv).with_reg(dest, dv), None, None, true))
            },
            _ => None,
        },
        _ => None,
    };
    match r {
        Some((s1, rc, mc, _)) => if slow && cfg.tracing_enabled {
            (s1.logged(req.pc as u32, req.inst.0, rc, mc), Ok(()))
        } else {
            (s1, Ok(()))
        },
        None => match (req.kind, reply) {
            (HostKind::FloatArith { op, .. }, HostReply::Failed) => if op == 11 {
                (s, Err(VmError::DivideByZero { pc: req.pc }))
            } else {
                (s, Ok(()))
            },
            (HostKind::Math { .. }, HostReply::Failed) => (s, Err(VmError::MathError { pc: req.pc })),
            _ => (s, Ok(())),
        },
    }
}

impl ScriptVm {
    pub open spec fn wf(&self) -> bool {
        self@.wf()
    }

    pub open spec fn config(&self) -> VmConfig {
        VmConfig {
            max_steps: self.max_steps,
            tracing_enabled: self.tracing_enabled,
            services: self.services,
        }
    }
}


/// The program counter of the instruction being executed, as the machine
/// reports it in memory errors (the counter minus one, wrapping).
pub open spec fn prev_pc(pc: usize) -> usize {
    if pc == 0 { usize::MAX } else { (pc - 1) as usize }
}

impl ScriptVm {
    /// A machine with all registers, memory and the trace cleared, the step
    /// budget at its default and no host services attached.
    pub fn new() -> (r: Self)
        ensures
            r.wf(),
            r@.registers =~= Seq::new(256, |i: int| 0u32),
            r@.call_stack =~= Seq::new(64, |i: int| 0usize),
            r@.memory =~= Seq::new(1024, |i: int| 0u8),
            r@.mmap.len() == 0,
            r@.trace_buffer =~= Seq::new(1024, |i: int| TraceStep::spec_empty()),
            r.pc == 0,
            r.sp == 0,
            r.trace_head == 0,
            r.trace_count == 0,
            r.max_steps == Some(DEFAULT_MAX_STEPS),
            !r.tracing_enabled,
            r.services == HostServices::spec_none(),
    {
        let empty = TraceStep { pc: 0, inst: 0, reg_change: None, mem_change: None };
        let r = ScriptVm {
            registers: [0u32; 256],
            pc: 0,
            call_stack: [0usize; 64],
            sp: 0,
            memory: [0u8; 1024],
            mmap: Vec::new(),
            max_steps: Some(DEFAULT_MAX_STEPS),
            tracing_enabled: false,
            trace_buffer: [empty; 1024],
            trace_head: 0,
            trace_count: 0,
            services: HostServices::none(),
        };
        r
    }

    /// A new machine with the given step budget.
    pub fn new_with_max_steps(max_steps: u32) -> (r: Self)
        ensures
            r.wf(),
            r@ == ScriptVm::new_state(),
            r.max_steps == Some(max_steps),
            !r.tracing_enabled,
            r.services == HostServices::spec_none(),
    {
        let mut vm = Self::new();
        vm.max_steps = Some(max_steps);
        proof {
            assert(vm@ =~= ScriptVm::new_state());
        }
        vm
    }

    /// A new machine on the heap, with the default step budget.
    pub fn new_boxed() -> (r: Box<Self>)
        ensures
            r.wf(),
            r@ == ScriptVm::new_state(),
            r.max_steps == Some(DEFAULT_MAX_STEPS),
            !r.tracing_enabled,
            r.services == HostServices::spec_none(),
    {
        let vm = Self::new();
        proof {
            assert(vm@ =~= ScriptVm::new_state());
        }
        Box::new(vm)
    }

    /// A new machine on the heap with the given step budget.
    pub fn new_boxed_with_max_steps(max_steps: u32) -> (r: Box<Self>)
        ensures
            r.wf(),
            r@ == ScriptVm::new_state(),
            r.max_steps == Some(max_steps),
            !r.tracing_enabled,
            r.services == HostServices::spec_none(),
    {
        Box::new(Self::new_with_max_steps(max_steps))
    }

    /// The state of a freshly created machine.
    pub open spec fn new_state() -> VmState {
        VmState {
            registers: Seq::new(256, |i: int| 0u32),
            pc: 0,
            call_stack: Seq::new(64, |i: int| 0usize),
            sp: 0,
            memory: Seq::new(1024, |i: int| 0u8),
            mmap: Seq::empty(),
            trace_buffer: Seq::new(1024, |i: int| TraceStep::spec_empty()),
            trace_head: 0,
            trace_count: 0,
        }
    }

    /// Resets the execution context (program counter, call stack pointer, call
    /// stack and registers 0 to 15) and keeps memory and registers 16 to 255.
    pub fn hot_reload(&mut self)
        requires
            old(self).wf(),
        ensures
            final(self).wf(),
            final(self).config() == old(self).config(),
            final(self).pc == 0,
            final(self).sp == 0,
            final(self)@.call_stack =~= Seq::new(64, |i: int| 0usize),
            final(self)@.registers =~= Seq::new(
                256,
                |i: int| if i < 16 { 0u32 } else { old(self)@.registers[i] },
            ),
            final(self)@.memory == old(self)@.memory,
            final(self)@.mmap == old(self)@.mmap,
            final(self)@.trace_buffer == old(self)@.trace_buffer,
            final(self).trace_head == old(self).trace_head,
            final(self).trace_count == old(self).trace_count,
    {
        self.pc = 0;
        self.sp = 0;
        self.call_stack = [0usize; 64];
        let mut i: usize = 0;
        while i < 16
            invariant
                i <= 16,
                self.wf(),
                self.config() == old(self).config(),
                self.pc == 0,
                self.sp == 0,
                self@.call_stack =~= Seq::new(64, |k: int| 0usize),
                forall|k: int| 0 <= k < 256 ==> self@.registers[k] == (if k < i { 0u32 } else { old(self)@.registers[k] }),
                self@.memory == old(self)@.memory,
                self@.mmap == old(self)@.mmap,
                self@.trace_buffer == old(self)@.trace_buffer,
                self.trace_head == old(self).trace_head,
                self.trace_count == old(self).trace_count,
            decreases 16 - i,
        {
            self.registers[i] = 0;
            i = i + 1;
        }
    }

    /// `Err(OutOfFuel)` when a step budget is set and `steps` has reached it.
    pub fn check_watchdog_timeout(&self, steps: u32) -> (r: Result<(), VmError>)
        ensures
            r == (if self.max_steps is Some && steps >= fuel_limit(self.config()) {
                Err(VmError::OutOfFuel { pc: self.pc })
            } else {
                Ok(())
            }),
    {
        if let Some(limit) = self.max_steps {
            if steps >= limit {
                return Err(VmError::OutOfFuel { pc: self.pc });
            }
        }
        Ok(())
    }

    /// Whether `len` bytes from `addr` lie in RAM or in the mapped region.
    pub fn region_ok(&self, addr: usize, len: usize) -> (r: bool)
        ensures
            r == self@.region_valid(addr as int, len as int),
    {
        if addr < MEMORY_SIZE {
            len <= MEMORY_SIZE - addr
        } else if addr >= MMAP_BASE {
            let off = addr - MMAP_BASE;
            let n = self.mmap.len();
            off <= n && len <= n - off
        } else {
            false
        }
    }

    fn read_byte(&self, addr: usize) -> (r: u8)
        requires
            self.wf(),
            self@.region_valid(addr as int, 1),
        ensures
            r == self@.byte_at(addr as int),
    {
        if addr < MEMORY_SIZE {
            self.memory[addr]
        } else {
            self.mmap[addr - MMAP_BASE]
        }
    }

    fn write_byte(&mut self, addr: usize, v: u8)
        requires
            old(self).wf(),
            old(self)@.region_valid(addr as int, 1),
        ensures
            final(self).wf(),
            final(self).config() == old(self).config(),
            final(self)@ =~= old(self)@.with_byte(addr as int, v),
    {
        if addr < MEMORY_SIZE {
            self.memory[addr] = v;
        } else {
            self.mmap.set(addr - MMAP_BASE, v);
        }
    }

    fn read_word(&self, addr: usize) -> (r: u32)
        requires
            self.wf(),
            self@.region_valid(addr as int, 4),
        ensures
            r == self@.word_at(addr as int),
    {
        let b0 = self.read_byte(addr);
        let b1 = self.read_byte(addr + 1);
        let b2 = self.read_byte(addr + 2);
        let b3 = self.read_byte(addr + 3);
        (b0 as u32) | ((b1 as u32) << 8) | ((b2 as u32) << 16) | ((b3 as u32) << 24)
    }

    fn write_word(&mut self, addr: usize, v: u32)
        requires
            old(self).wf(),
            old(self)@.region_valid(addr as int, 4),
        ensures
            final(self).wf(),
            final(self).config() == old(self).config(),
            final(self)@ =~= old(self)@.with_word(addr as int, v),
    {
        self.write_byte(addr, (v & 0xff) as u8);
        self.write_byte(addr + 1, ((v >> 8) & 0xff) as u8);
        self.write_byte(addr + 2, ((v >> 16) & 0xff) as u8);
        self.write_byte(addr + 3, ((v >> 24) & 0xff) as u8);
    }
}


/// What one executed instruction reports: whether the run ends, and the
/// register or memory word that the trace records.
pub struct StepOut {
    pub flow: Option<Result<VmResult, VmError>>,
    pub rc: Option<(u8, u32)>,
    pub mc: Option<(u16, u32)>,
}

impl ScriptVm {
    /// Copies `len` bytes from `addr`, or, with `until_null`, the bytes from
    /// `addr` up to the first zero byte.
    pub fn read_bytes(&self, addr: usize, len: usize, until_null: bool) -> (r: Result<Vec<u8>, VmError>)
        requires
            self.wf(),
        ensures
            until_null ==> match self@.bytes_until_null(addr as int) {
                Ok(bs) => r == Ok::<Vec<u8>, VmError>(r->Ok_0) && r->Ok_0@ == bs,
                Err(bad) => r == Err::<Vec<u8>, VmError>(oob(prev_pc(self.pc), bad as usize)),
            },
            !until_null ==> if self@.region_valid(addr as int, len as int) {
                r is Ok && r->Ok_0@ == self@.bytes_at(addr as int, len as int)
            } else {
                r == Err::<Vec<u8>, VmError>(oob(prev_pc(self.pc), addr))
            },
    {
        let err_pc = self.pc.wrapping_sub(1);
        if until_null {
            let mut result: Vec<u8> = Vec::new();
            let mut cur = addr;
            loop
                invariant
                    until_null,
                    self.wf(),
                    err_pc == prev_pc(self.pc),
                    addr <= cur,
                    self@.bytes_until_null(addr as int) == match self@.bytes_until_null(cur as int) {
                        Ok(rest) => Ok(result@ + rest),
                        Err(e) => Err::<Seq<u8>, int>(e),
                    },
                decreases MMAP_BASE + self@.mmap.len() + MEMORY_SIZE - cur,
            {
                if !self.region_ok(cur, 1) {
                    return Err(VmError::MemoryAccessOutOfBounds { pc: err_pc, addr: cur });
                }
                let byte = self.read_byte(cur);
                if byte == 0 {
                    proof {
                        assert(result@ + Seq::<u8>::empty() =~= result@);
                    }
                    return Ok(result);
                }
                proof {
                    let rest = self@.bytes_until_null(cur + 1);
                    if rest is Ok {
                        assert(result@.push(byte) + rest->Ok_0 =~= result@ + (seq![byte] + rest->Ok_0));
                    }
                }
                result.push(byte);
                cur = cur + 1;
            }
        } else {
            if !self.region_ok(addr, len) {
                return Err(VmError::MemoryAccessOutOfBounds { pc: err_pc, addr });
            }
            let mut result: Vec<u8> = Vec::new();
            let mut i: usize = 0;
            while i < len
                invariant
                    self.wf(),
                    self@.region_valid(addr as int, len as int),
                    i <= len,
                    result@ =~= self@.bytes_at(addr as int, i as int),
                decreases len - i,
            {
                let byte = self.read_byte(addr + i);
                result.push(byte);
                i = i + 1;
            }
            Ok(result)
        }
    }

    /// Copies `data` into memory from `addr` on, when the whole range lies in
    /// RAM or in the mapped region.
    pub fn write_bytes(&mut self, addr: usize, data: &[u8]) -> (r: Result<(), VmError>)
        requires
            old(self).wf(),
        ensures
            final(self).wf(),
            final(self).config() == old(self).config(),
            if old(self)@.region_valid(addr as int, data@.len() as int) {
                r is Ok && final(self)@ =~= old(self)@.with_bytes(addr as int, data@)
            } else {
                r == Err::<(), VmError>(oob(prev_pc(old(self).pc), addr)) && final(self)@ == old(self)@
            },
    {
        if !self.region_ok(addr, data.len()) {
            return Err(VmError::MemoryAccessOutOfBounds { pc: self.pc.wrapping_sub(1), addr });
        }
        let mut i: usize = 0;
        while i < data.len()
            invariant
                self.wf(),
                self.config() == old(self).config(),
                old(self)@.region_valid(addr as int, data@.len() as int),
                i <= data@.len(),
                self@ =~= old(self)@.with_bytes(addr as int, data@.take(i as int)),
            decreases data@.len() - i,
        {
            self.write_byte(addr + i, data[i]);
            i = i + 1;
            proof {
                assert(data@.take(i as int) =~= data@.take(i - 1).push(data@[i - 1]));
            }
        }
        proof {
            assert(data@.take(data@.len() as int) =~= data@);
        }
        Ok(())
    }

    /// Reads a string from `addr`: at most `max_len` bytes (1024 without a
    /// limit), up to the first zero byte or the end of valid memory. The first
    /// address must be valid; the bytes must be UTF-8.
    pub fn read_string(&self, addr: usize, max_len: Option<usize>) -> (r: Result<String, VmError>)
        requires
            self.wf(),
        ensures
            ({
                let limit: int = match max_len {
                    Some(m) => m as int,
                    None => 1024,
                };
                let n = if limit <= usize::MAX - addr { limit } else { usize::MAX - addr };
                let bs = self@.string_bytes(addr as int, n);
                if !self@.region_valid(addr as int, 1) {
                    r == Err::<String, VmError>(oob(prev_pc(self.pc), addr))
                } else if valid_utf8(bs) {
                    r is Ok && r->Ok_0@ == decode_utf8(bs)
                } else {
                    r == Err::<String, VmError>(VmError::MemoryAccessOutOfBounds { pc: self.pc, addr })
                }
            }),
    {
        let limit: usize = match max_len {
            Some(m) => m,
            None => 1024,
        };
        if !self.region_ok(addr, 1) {
            return Err(VmError::MemoryAccessOutOfBounds { pc: self.pc.wrapping_sub(1), addr });
        }
        let end: usize = if limit <= usize::MAX - addr { addr + limit } else { usize::MAX };
        let ghost n = end - addr;
        let mut bytes: Vec<u8> = Vec::new();
        let mut cur = addr;
        while cur < end
            invariant
                self.wf(),
                addr <= cur <= end,
                n == end - addr,
                self@.string_bytes(addr as int, n) == bytes@ + self@.string_bytes(cur as int, n - (cur - addr)),
            ensures
                self@.string_bytes(addr as int, n) == bytes@ + self@.string_bytes(cur as int, n - (cur - addr)),
                self@.string_bytes(cur as int, n - (cur - addr)) =~= Seq::<u8>::empty(),
            decreases end - cur,
        {
            if !self.region_ok(cur, 1) {
                break;
            }
            let byte = self.read_byte(cur);
            if byte == 0 {
                break;
            }
            let ghost before = bytes@;
            bytes.push(byte);
            proof {
                assert(before + (seq![byte] + self@.string_bytes(cur + 1, n - (cur - addr) - 1)) =~= bytes@
                    + self@.string_bytes(cur + 1, n - (cur + 1 - addr)));
            }
            cur = cur + 1;
        }
        proof {
            assert(bytes@ + Seq::<u8>::empty() =~= bytes@);
        }
        match utf8_to_string(bytes) {
            Some(s) => Ok(s),
            None => Err(VmError::MemoryAccessOutOfBounds { pc: self.pc, addr }),
        }
    }

    /// Writes the UTF-8 bytes of `text`, then a zero byte when
    /// `null_terminate`, from `addr` on; returns how many bytes it wrote.
    pub fn write_string(&mut self, addr: usize, text: &str, null_terminate: bool) -> (r: Result<usize, VmError>)
        requires
            old(self).wf(),
        ensures
            final(self).wf(),
            final(self).config() == old(self).config(),
            ({
                let bs = encode_utf8(text@) + if null_terminate { seq![0u8] } else { Seq::<u8>::empty() };
                if old(self)@.region_valid(addr as int, bs.len() as int) {
                    r == Ok::<usize, VmError>(bs.len() as usize) && final(self)@ =~= old(self)@.with_bytes(
                        addr as int,
                        bs,
                    )
                } else {
                    r == Err::<usize, VmError>(oob(prev_pc(old(self).pc), addr)) && final(self)@ == old(self)@
                }
            }),
    {
        let b = text.as_bytes();
        let mut data: Vec<u8> = Vec::new();
        let mut i: usize = 0;
        while i < b.len()
            invariant
                i <= b@.len(),
                data@ == b@.take(i as int),
            decreases b@.len() - i,
        {
            data.push(b[i]);
            i = i + 1;
            proof {
                assert(data@ =~= b@.take(i as int));
            }
        }
        proof {
            assert(b@.take(b@.len() as int) =~= b@);
        }
        if null_terminate {
            data.push(0);
        }
        proof {
            assert(data@ =~= encode_utf8(text@) + if null_terminate { seq![0u8] } else { Seq::<u8>::empty() });
        }
        let total = data.len();
        self.write_bytes(addr, &data)?;
        Ok(total)
    }

    /// Records a step in the circular trace buffer when tracing is on.
    pub fn log_trace(&mut self, pc: u32, inst: u32, reg_change: Option<(u8, u32)>, mem_change: Option<(u16, u32)>)
        requires
            old(self).wf(),
        ensures
            final(self).wf(),
            final(self).config() == old(self).config(),
            final(self)@ == (if old(self).tracing_enabled {
                old(self)@.logged(pc, inst, reg_change, mem_change)
            } else {
                old(self)@
            }),
    {
        if self.tracing_enabled {
            let step = TraceStep { pc, inst, reg_change, mem_change };
            self.trace_buffer[self.trace_head] = step;
            self.trace_head = (self.trace_head + 1) % TRACE_CAPACITY;
            if self.trace_count < TRACE_CAPACITY {
                self.trace_count = self.trace_count + 1;
            }
            proof {
                assert(self@ =~= old(self)@.logged(pc, inst, reg_change, mem_change));
            }
        }
    }
}

impl ScriptVm {
    /// Stores `v` in register `i` (a host writing a result).
    pub fn put_register(&mut self, i: usize, v: u32)
        requires
            old(self).wf(),
            i < REGISTER_COUNT,
        ensures
            final(self).wf(),
            final(self).config() == old(self).config(),
            final(self)@ == old(self)@.with_reg(i, v),
            final(self).pc == old(self).pc,
    {
        self.registers[i] = v;
        proof {
            assert(self@ =~= old(self)@.with_reg(i, v));
        }
    }

    fn set_register(&mut self, a: usize, v: u32) -> (r: StepOut)
        requires
            old(self).wf(),
            a < 256,
        ensures
            final(self).wf(),
            final(self).config() == old(self).config(),
            final(self)@ =~= old(self)@.with_reg(a, v),
            r.flow is None,
            r.rc == Some((a as u8, v)),
            r.mc is None,
    {
        self.registers[a] = v;
        StepOut { flow: None, rc: Some((a as u8, v)), mc: None }
    }

    fn host_step(steps: u32, pc: usize, inst: Instruction, kind: HostKind) -> (r: StepOut)
        ensures
            r.flow == Some(Ok::<VmResult, VmError>(VmResult::HostCall(steps, HostRequest { pc, inst, kind }))),
            r.rc is None,
            r.mc is None,
    {
        StepOut { flow: Some(Ok(VmResult::HostCall(steps, HostRequest { pc, inst, kind }))), rc: None, mc: None }
    }

    fn vector_exec(&mut self, steps: u32, pc: usize, inst: Instruction, op: u8) -> (r: StepOut)
        requires
            old(self).wf(),
        ensures
            final(self)@ == old(self)@,
            final(self).config() == old(self).config(),
            ({
                let sp = vector_step(old(self)@, steps, pc, inst, op);
                &&& r.flow == sp.flow
                &&& r.rc == sp.rc
                &&& r.mc == sp.mc
            }),
    {
        let len = self.registers[0] as usize;
        let dest = if op == 41 { inst.a() } else { self.registers[inst.a()] as usize };
        let src1 = self.registers[inst.b()] as usize;
        let src2 = self.registers[inst.c()] as usize;
        let first = if op == 41 { src1 } else { dest };
        let byte_len = match len.checked_mul(4) {
            Some(n) => n,
            None => {
                return StepOut {
                    flow: Some(Err(VmError::MemoryAccessOutOfBounds { pc, addr: first })),
                    rc: None,
                    mc: None,
                };
            },
        };
        if op != 41 && !self.region_ok(dest, byte_len) {
            return StepOut { flow: Some(Err(VmError::MemoryAccessOutOfBounds { pc, addr: dest })), rc: None, mc: None };
        }
        if !self.region_ok(src1, byte_len) {
            return StepOut { flow: Some(Err(VmError::MemoryAccessOutOfBounds { pc, addr: src1 })), rc: None, mc: None };
        }
        if !self.region_ok(src2, byte_len) {
            return StepOut { flow: Some(Err(VmError::MemoryAccessOutOfBounds { pc, addr: src2 })), rc: None, mc: None };
        }
        Self::host_step(steps, pc, inst, HostKind::Vector { op, len, dest, src1, src2 })
    }

    /// Executes one instruction on a machine whose program counter already
    /// points past it.
    #[verifier::rlimit(40)]
    #[verifier::spinoff_prover]
    fn exec_one(&mut self, inst: Instruction, pc: usize, steps: u32, slow: bool) -> (r: StepOut)
        requires
            old(self).wf(),
        ensures
            final(self).wf(),
            final(self).config() == old(self).config(),
            ({
                let sp = exec_core(old(self)@, old(self).config(), inst, pc, steps, slow);
                &&& final(self)@ =~= sp.state
                &&& r.flow == sp.flow
                &&& r.rc == sp.rc
                &&& r.mc == sp.mc
            }),
    {
        let a = inst.a();
        let b = inst.b();
        let c = inst.c();
        let op = inst.opcode();
        proof {
            lemma_imm16_fields(inst);
        }
        let none = StepOut { flow: None, rc: None, mc: None };
        match op {
            0 => StepOut { flow: Some(Ok(VmResult::Halted(steps))), rc: None, mc: None },
            1 => self.set_register(a, b as u32),
            2 => self.set_register(a, inst.imm16() as u32),
            3 => {
                let v = self.registers[b].wrapping_add(self.registers[c]);
                self.set_register(a, v)
            },
            4 => {
                let v = self.registers[b].wrapping_sub(self.registers[c]);
                self.set_register(a, v)
            },
            5 => {
                let v = self.registers[b].wrapping_mul(self.registers[c]);
                self.set_register(a, v)
            },
            6 => {
                let divisor = self.registers[c];
                if divisor == 0 {
                    StepOut { flow: Some(Err(VmError::DivideByZero { pc })), rc: None, mc: None }
                } else {
                    let v = self.registers[b] / divisor;
                    self.set_register(a, v)
                }
            },
            7 => {
                let divisor = self.registers[c];
                if divisor == 0 {
                    StepOut { flow: Some(Err(VmError::DivideByZero { pc })), rc: None, mc: None }
                } else {
                    let v = self.registers[b] % divisor;
                    self.set_register(a, v)
                }
            },
            8 | 9 | 10 | 11 => Self::host_step(
                steps,
                pc,
                inst,
                HostKind::FloatArith { op, dest: a, lhs: self.registers[b], rhs: self.registers[c] },
            ),
            12 => {
                let v = self.registers[b] & self.registers[c];
                self.set_register(a, v)
            },
            13 => {
                let v = self.registers[b] | self.registers[c];
                self.set_register(a, v)
            },
            14 => {
                let v = self.registers[b] ^ self.registers[c];
                self.set_register(a, v)
            },
            15 => {
                let sh = self.registers[c];
                if sh >= 32 {
                    Self::host_step(steps, pc, inst, HostKind::Fault(FaultKind::ShiftOverflow))
                } else {
                    let v = self.registers[b] << sh;
                    self.set_register(a, v)
                }
            },
            16 => {
                let sh = self.registers[c];
                if sh >= 32 {
                    Self::host_step(steps, pc, inst, HostKind::Fault(FaultKind::ShiftOverflow))
                } else {
                    let v = self.registers[b] >> sh;
                    self.set_register(a, v)
                }
            },
            17 => {
                if slow {
                    StepOut { flow: Some(Err(VmError::InvalidOpcode { pc, opcode: op })), rc: None, mc: None }
                } else {
                    self.registers[a] = if self.registers[b] == self.registers[c] { 1 } else { 0 };
                    none
                }
            },
            18 => {
                if slow {
                    StepOut { flow: Some(Err(VmError::InvalidOpcode { pc, opcode: op })), rc: None, mc: None }
                } else {
                    self.registers[a] = if self.registers[b] < self.registers[c] { 1 } else { 0 };
                    none
                }
            },
            19 => {
                self.pc = inst.imm16() as usize;
                none
            },
            20 => {
                if self.registers[a] == 0 {
                    self.pc = if slow { inst.imm16() as usize } else { b };
                }
                none
            },
            21 => {
                if self.registers[a] == self.registers[b] {
                    self.pc = c;
                }
                none
            },
            22 => {
                if self.registers[a] < self.registers[b] {
                    self.pc = c;
                }
                none
            },
            23 => {
                if self.registers[a] > self.registers[b] {
                    self.pc = c;
                }
                none
            },
            24 | 25 => Self::host_step(
                steps,
                pc,
                inst,
                HostKind::FloatBranch { op, lhs: self.registers[a], rhs: self.registers[b], target: c },
            ),
            26 => {
                if self.sp < CALL_STACK_DEPTH {
                    self.call_stack[self.sp] = self.pc;
                    self.sp = self.sp + 1;
                    self.pc = inst.imm16() as usize;
                    none
                } else {
                    StepOut { flow: Some(Err(VmError::StackOverflow { pc })), rc: None, mc: None }
                }
            },
            27 => {
                if self.sp > 0 {
                    self.sp = self.sp - 1;
                    self.pc = self.call_stack[self.sp];
                    none
                } else {
                    StepOut { flow: Some(Err(VmError::StackUnderflow { pc })), rc: None, mc: None }
                }
            },
            28 => {
                if self.services.print {
                    Self::host_step(steps, pc, inst, HostKind::Print { value: self.registers[a] })
                } else {
                    none
                }
            },
            29 => {
                if self.services.syscall {
                    Self::host_step(steps, pc, inst, HostKind::SysCall { a, b, c })
                } else {
                    StepOut { flow: None, rc: Some((a as u8, self.registers[a])), mc: None }
                }
            },
            30 => {
                let addr = self.registers[b].wrapping_add(self.registers[c]) as usize;
                if self.region_ok(addr, 4) {
                    let v = self.read_word(addr);
                    self.set_register(a, v)
                } else {
                    StepOut { flow: Some(Err(VmError::MemoryAccessOutOfBounds { pc, addr })), rc: None, mc: None }
                }
            },
            31 => {
                let addr = self.registers[b].wrapping_add(self.registers[c]) as usize;
                if self.region_ok(addr, 4) {
                    let v = self.registers[a];
                    self.write_word(addr, v);
                    StepOut { flow: None, rc: None, mc: Some((addr as u16, v)) }
                } else {
                    StepOut { flow: Some(Err(VmError::MemoryAccessOutOfBounds { pc, addr })), rc: None, mc: None }
                }
            },
            32 | 33 | 34 => Self::host_step(
                steps,
                pc,
                inst,
                HostKind::Math { op, dest: a, operand: self.registers[b] },
            ),
            35 => {
                if self.services.hardware {
                    Self::host_step(steps, pc, inst, HostKind::HardwareCall { a, b, c })
                } else {
                    StepOut { flow: None, rc: Some((a as u8, self.registers[a])), mc: None }
                }
            },
            36 => {
                if self.services.ui {
                    Self::host_step(steps, pc, inst, HostKind::UiCall { a, b, c })
                } else {
                    none
                }
            },
            37 => {
                if self.services.neural {
                    Self::host_step(steps, pc, inst, HostKind::NeuralCall { a, b, c })
                } else {
                    none
                }
            },
            38 => StepOut { flow: Some(Ok(VmResult::Yielded(steps))), rc: None, mc: None },
            39 | 40 | 41 => self.vector_exec(steps, pc, inst, op),
            42 => StepOut { flow: Some(Ok(VmResult::Spawn(steps, inst.imm16(), a as u8))), rc: None, mc: None },
            43 => StepOut {
                flow: Some(Ok(VmResult::Awaiting(steps, self.registers[b], a as u8))),
                rc: None,
                mc: None,
            },
            44 => StepOut { flow: Some(Ok(VmResult::MmapRequest(steps, self.registers[b]))), rc: None, mc: None },
            45 | 46 => Self::host_step(
                steps,
                pc,
                inst,
                HostKind::Delta {
                    op,
                    dest: a,
                    src: self.registers[b],
                    state: c,
                    last: self.registers[c],
                    input: if op == 45 { self.registers[b].wrapping_sub(self.registers[c]) } else { self.registers[b] },
                },
            ),
            _ => StepOut { flow: Some(Err(VmError::InvalidOpcode { pc, opcode: op })), rc: None, mc: None },
        }
    }
}

impl ScriptVm {
    /// Executes one instruction and, on the slow path, traces it.
    fn step(&mut self, inst: Instruction, pc: usize, steps: u32, slow: bool) -> (r: Option<Result<VmResult, VmError>>)
        requires
            old(self).wf(),
        ensures
            final(self).wf(),
            final(self).config() == old(self).config(),
            ({
                let sp = step_spec(old(self)@, old(self).config(), inst, pc, steps, slow);
                &&& final(self)@ =~= sp.0
                &&& r == sp.1
            }),
    {
        let out = self.exec_one(inst, pc, steps, slow);
        if slow && self.tracing_enabled && (out.flow.is_none() || inst.opcode() == 38) {
            self.log_trace(pc as u32, inst.0, out.rc, out.mc);
        }
        out.flow
    }

    /// Continues a fast-path run that has taken `steps` steps.
    pub fn resume_fast(&mut self, code: &[Instruction], start_steps: u32) -> (r: Result<VmResult, VmError>)
        requires
            old(self).wf(),
        ensures
            final(self).wf(),
            final(self).config() == old(self).config(),
            ({
                let sr = fast_run(old(self)@, old(self).config(), code@, start_steps);
                &&& final(self)@ =~= sr.0
                &&& r == sr.1
            }),
    {
        let mut steps = start_steps;
        let max_steps: u32 = match self.max_steps {
            Some(m) => m,
            None => u32::MAX,
        };
        loop
            invariant
                self.wf(),
                self.config() == old(self).config(),
                max_steps == fuel_limit(self.config()),
                fast_run(self@, self.config(), code@, steps) == fast_run(
                    old(self)@,
                    old(self).config(),
                    code@,
                    start_steps,
                ),
            decreases u32::MAX - steps,
        {
            proof {
                assert((steps & 255u32 == 0) == (steps % 256 == 0)) by (bit_vector);
            }
            if steps & 255 == 0 {
                if steps >= max_steps {
                    return Err(VmError::OutOfFuel { pc: self.pc });
                }
                if self.check_watchdog_timeout(steps).is_err() {
                    return Err(VmError::OutOfFuel { pc: self.pc });
                }
            }
            if self.pc >= code.len() {
                return Ok(VmResult::Halted(steps));
            }
            let pc = self.pc;
            let inst = code[pc];
            if steps == u32::MAX {
                return Ok(
                    VmResult::HostCall(
                        steps,
                        HostRequest { pc, inst, kind: HostKind::Fault(FaultKind::StepCounterOverflow) },
                    ),
                );
            }
            self.pc = pc + 1;
            steps = steps + 1;
            match self.step(inst, pc, steps, false) {
                None => {},
                Some(r) => {
                    return r;
                },
            }
        }
    }

    /// Answers the abort flag's question, asked before an instruction of the
    /// slow path after `steps` steps: to stop, the run ends `Halted` with
    /// those steps and nothing changes; else the run goes on with the step.
    pub fn answer_abort_check(&mut self, code: &[Instruction], steps: u32, stop: bool) -> (r: Result<
        VmResult,
        VmError,
    >)
        requires
            old(self).wf(),
        ensures
            final(self).wf(),
            final(self).config() == old(self).config(),
            stop ==> final(self)@ == old(self)@ && r == Ok::<VmResult, VmError>(VmResult::Halted(steps)),
            !stop ==> ({
                let sr = slow_run(old(self)@, old(self).config(), code@, steps, SlowPhase::AbortChecked);
                &&& final(self)@ =~= sr.0
                &&& r == sr.1
            }),
    {
        if stop {
            Ok(VmResult::Halted(steps))
        } else {
            self.resume_slow(code, steps, SlowPhase::AbortChecked)
        }
    }

    /// Continues a slow-path run that has taken `steps` steps, at `phase` of
    /// the current step.
    pub fn resume_slow(&mut self, code: &[Instruction], start_steps: u32, start_phase: SlowPhase) -> (r: Result<VmResult, VmError>)
        requires
            old(self).wf(),
        ensures
            final(self).wf(),
            final(self).config() == old(self).config(),
            ({
                let sr = slow_run(old(self)@, old(self).config(), code@, start_steps, start_phase);
                &&& final(self)@ =~= sr.0
                &&& r == sr.1
            }),
    {
        let mut steps = start_steps;
        let mut phase = start_phase;
        loop
            invariant
                self.wf(),
                self.config() == old(self).config(),
                slow_run(self@, self.config(), code@, steps, phase) == slow_run(
                    old(self)@,
                    old(self).config(),
                    code@,
                    start_steps,
                    start_phase,
                ),
            decreases u32::MAX - steps, if phase is Start { 2int } else if phase is AbortChecked { 1int } else { 0int },
        {
            if self.pc >= code.len() {
                return Ok(VmResult::Halted(steps));
            }
            let pc = self.pc;
            let inst = code[pc];
            if phase == SlowPhase::Start && self.services.abort_check {
                return Ok(VmResult::HostCall(steps, HostRequest { pc, inst, kind: HostKind::AbortCheck }));
            }
            if phase != SlowPhase::HookCalled {
                if self.max_steps.is_some() && steps >= self.max_steps.unwrap_or(u32::MAX) {
                    return Err(VmError::OutOfFuel { pc });
                }
                if self.check_watchdog_timeout(steps).is_err() {
                    return Err(VmError::OutOfFuel { pc });
                }
                if self.services.debug_hook {
                    return Ok(VmResult::HostCall(steps, HostRequest { pc, inst, kind: HostKind::DebugHook }));
                }
            }
            if steps == u32::MAX {
                return Ok(
                    VmResult::HostCall(
                        steps,
                        HostRequest { pc, inst, kind: HostKind::Fault(FaultKind::StepCounterOverflow) },
                    ),
                );
            }
            self.pc = pc + 1;
            steps = steps + 1;
            phase = SlowPhase::Start;
            match self.step(inst, pc, steps, true) {
                None => {},
                Some(r) => {
                    return r;
                },
            }
        }
    }

    /// Runs `code` on the fast path: a run that starts at address 0 empties the
    /// call stack first; a run that resumes after a yield keeps it.
    pub fn run_fast(&mut self, code: &[Instruction]) -> (r: Result<VmResult, VmError>)
        requires
            old(self).wf(),
        ensures
            final(self).wf(),
            final(self).config() == old(self).config(),
            ({
                let sr = fast_run(start_state(old(self)@), old(self).config(), code@, 0);
                &&& final(self)@ =~= sr.0
                &&& r == sr.1
            }),
    {
        if self.pc == 0 {
            self.sp = 0;
        }
        proof {
            assert(self@ =~= start_state(old(self)@));
        }
        self.resume_fast(code, 0)
    }

    /// Runs `code` on the slow path, which traces and asks the attached abort
    /// flag and debug hook at every step.
    pub fn run_slow(&mut self, code: &[Instruction]) -> (r: Result<VmResult, VmError>)
        requires
            old(self).wf(),
        ensures
            final(self).wf(),
            final(self).config() == old(self).config(),
            ({
                let sr = slow_run(start_state(old(self)@), old(self).config(), code@, 0, SlowPhase::Start);
                &&& final(self)@ =~= sr.0
                &&& r == sr.1
            }),
    {
        if self.pc == 0 {
            self.sp = 0;
        }
        proof {
            assert(self@ =~= start_state(old(self)@));
        }
        self.resume_slow(code, 0, SlowPhase::Start)
    }

    /// Runs `code`: on the fast path unless tracing is on or an abort flag or
    /// debug hook is attached.
    pub fn run(&mut self, code: &[Instruction]) -> (r: Result<VmResult, VmError>)
        requires
            old(self).wf(),
        ensures
            final(self).wf(),
            final(self).config() == old(self).config(),
            ({
                let sr = run_spec(old(self)@, old(self).config(), code@);
                &&& final(self)@ =~= sr.0
                &&& r == sr.1
            }),
    {
        if !self.services.debug_hook && !self.services.abort_check && !self.tracing_enabled {
            self.run_fast(code)
        } else {
            self.run_slow(code)
        }
    }

    /// Applies the host's reply to a request that a run returned, and records
    /// the slow path's trace entry for the instruction.
    pub fn complete_host_call(&mut self, req: HostRequest, reply: HostReply, slow: bool) -> (r: Result<(), VmError>)
        requires
            old(self).wf(),
            req.kind is FloatArith ==> req.kind->FloatArith_dest < 256,
            req.kind is SysCall ==> req.kind->SysCall_a < 256,
            req.kind is HardwareCall ==> req.kind->HardwareCall_a < 256,
            req.kind is Math ==> req.kind->Math_dest < 256,
            req.kind is Vector && req.kind->Vector_op == 41 ==> req.kind->Vector_dest < 256,
            req.kind is Delta ==> req.kind->Delta_dest < 256 && req.kind->Delta_state < 256,
        ensures
            final(self).wf(),
            final(self).config() == old(self).config(),
            ({
                let cr = complete_spec(old(self)@, old(self).config(), req, reply, slow);
                &&& final(self)@ =~= cr.0
                &&& r == cr.1
            }),
    {
        let mut rc: Option<(u8, u32)> = None;
        let mut mc: Option<(u16, u32)> = None;
        let accepted: bool;
        match req.kind {
            HostKind::Print { .. } | HostKind::UiCall { .. } | HostKind::NeuralCall { .. } => {
                accepted = reply == HostReply::Done;
            },
            HostKind::SysCall { a, .. } => {
                accepted = reply == HostReply::Done;
                rc = Some((a as u8, self.registers[a]));
            },
            HostKind::HardwareCall { a, .. } => {
                accepted = reply == HostReply::Done;
                rc = Some((a as u8, self.registers[a]));
            },
            HostKind::FloatArith { op, dest, .. } => {
                match reply {
                    HostReply::Value(v) => {
                        self.registers[dest] = v;
                        rc = Some((dest as u8, v));
                        accepted = true;
                    },
                    HostReply::Failed => {
                        if op == 11 {
                            return Err(VmError::DivideByZero { pc: req.pc });
                        }
                        return Ok(());
                    },
                    _ => {
                        return Ok(());
                    },
                }
            },
            HostKind::FloatBranch { target, .. } => {
                match reply {
                    HostReply::Branch(taken) => {
                        if taken {
                            self.pc = target;
                        }
                        accepted = true;
                    },
                    _ => {
                        return Ok(());
                    },
                }
            },
            HostKind::Math { op, dest, .. } => {
                match reply {
                    HostReply::Value(v) => {
                        let w = if op == 34 { v & 0xff } else { v };
                        self.registers[dest] = w;
                        rc = Some((dest as u8, w));
                        accepted = true;
                    },
                    HostReply::Failed => {
                        return Err(VmError::MathError { pc: req.pc });
                    },
                    _ => {
                        return Ok(());
                    },
                }
            },
            HostKind::Vector { op, len, dest, .. } => {
                if op == 41 {
                    match reply {
                        HostReply::Value(v) => {
                            self.registers[dest] = v;
                            rc = Some((dest as u8, v));
                            accepted = true;
                        },
                        _ => {
                            return Ok(());
                        },
                    }
                } else {
                    accepted = reply == HostReply::Done;
                    mc = Some((dest as u16, len as u32));
                }
            },
            HostKind::Delta { op, dest, state, src, last, .. } => {
                match reply {
                    HostReply::Value(v) => {
                        let sv = if op == 45 { src } else { last.wrapping_add(v) };
                        let dv = if op == 45 { v } else { sv };
                        self.registers[state] = sv;
                        self.registers[dest] = dv;
                        accepted = true;
                    },
                    _ => {
                        return Ok(());
                    },
                }
            },
            _ => {
                return Ok(());
            },
        }
        if !accepted {
            return Ok(());
        }
        if slow {
            self.log_trace(req.pc as u32, req.inst.0, rc, mc);
        }
        Ok(())
    }
}

/// The state at the start of a run: a run from address 0 empties the call
/// stack.
pub open spec fn start_state(s: VmState) -> VmState {
    if s.pc == 0 { VmState { sp: 0, ..s } } else { s }
}

/// The outcome of `run`: the fast path unless tracing, an abort flag or a
/// debug hook asks for the slow one.
pub open spec fn run_spec(s: VmState, cfg: VmConfig, code: Seq<Instruction>) -> (VmState, Result<VmResult, VmError>) {
    if !cfg.services.debug_hook && !cfg.services.abort_check && !cfg.tracing_enabled {
        fast_run(start_state(s), cfg, code, 0)
    } else {
        slow_run(start_state(s), cfg, code, 0, SlowPhase::Start)
    }
}

/// `String::from_utf8`: the text of the bytes when they are valid UTF-8,
/// decoded as UTF-8; nothing otherwise.
#[verifier::external_body]
pub(crate) fn utf8_to_string(bytes: Vec<u8>) -> (r: Option<String>)
    ensures
        r is Some <==> valid_utf8(bytes@),
        r matches Some(s) ==> s@ == decode_utf8(bytes@),
{
    String::from_utf8(bytes).ok()
}

/// The step count that a result of a run carries, if any.
pub open spec fn result_steps(r: Result<VmResult, VmError>) -> Option<u32> {
    match r {
        Ok(VmResult::Halted(n)) => Some(n),
        Ok(VmResult::Yielded(n)) => Some(n),
        Ok(VmResult::Spawn(n, _, _)) => Some(n),
        Ok(VmResult::Awaiting(n, _, _)) => Some(n),
        Ok(VmResult::MmapRequest(n, _)) => Some(n),
        Ok(VmResult::HostCall(n, _)) => Some(n),
        Err(_) => None,
    }
}

/// A load from an address gives back the word that a store to it wrote.
pub proof fn lemma_load_after_store(s: VmState, addr: int, v: u32)
    requires
        s.wf(),
        0 <= addr,
        s.region_valid(addr, 4),
    ensures
        s.with_word(addr, v).word_at(addr) == v,
{
    let t = s.with_word(addr, v);
    let b0 = (v & 0xff) as u8;
    let b1 = ((v >> 8u32) & 0xff) as u8;
    let b2 = ((v >> 16u32) & 0xff) as u8;
    let b3 = ((v >> 24u32) & 0xff) as u8;
    assert(t.byte_at(addr) == b0);
    assert(t.byte_at(addr + 1) == b1);
    assert(t.byte_at(addr + 2) == b2);
    assert(t.byte_at(addr + 3) == b3);
    assert(((b0 as u32) | ((b1 as u32) << 8u32) | ((b2 as u32) << 16u32) | ((b3 as u32) << 24u32))
        == v) by (bit_vector)
        requires
            b0 == (v & 0xff) as u8,
            b1 == ((v >> 8u32) & 0xff) as u8,
            b2 == ((v >> 16u32) & 0xff) as u8,
            b3 == ((v >> 24u32) & 0xff) as u8,
    ;
}

/// A store changes the four bytes it writes and no other byte.
pub proof fn lemma_store_frame(s: VmState, addr: int, v: u32, other: int)
    requires
        s.wf(),
        0 <= addr,
        s.region_valid(addr, 4),
        0 <= other,
        s.region_valid(other, 1),
        other < addr || addr + 4 <= other,
    ensures
        s.with_word(addr, v).byte_at(other) == s.byte_at(other),
{
    let s1 = s.with_byte(addr, (v & 0xff) as u8);
    let s2 = s1.with_byte(addr + 1, ((v >> 8u32) & 0xff) as u8);
    let s3 = s2.with_byte(addr + 2, ((v >> 16u32) & 0xff) as u8);
    assert(s1.byte_at(other) == s.byte_at(other));
    assert(s2.byte_at(other) == s1.byte_at(other));
    assert(s3.byte_at(other) == s2.byte_at(other));
}

/// A `Call` pushes the address after it and jumps to its target; a `Ret` that
/// finds that address on top of the stack comes back to it, with the stack
/// pointer where it was before the call.
pub proof fn lemma_call_then_ret(
    s: VmState,
    t: VmState,
    cfg: VmConfig,
    call: Instruction,
    ret: Instruction,
    pc1: usize,
    pc2: usize,
    steps1: u32,
    steps2: u32,
    slow: bool,
)
    requires
        s.wf(),
        s.sp < CALL_STACK_DEPTH,
        call.spec_opcode() == 26,
        ret.spec_opcode() == 27,
        t.wf(),
        t.sp == s.sp + 1,
        t.call_stack[s.sp as int] == s.pc,
    ensures
        ({
            let c = exec_core(s, cfg, call, pc1, steps1, slow);
            &&& c.flow is None
            &&& c.state.pc == call.spec_imm16() as usize
            &&& c.state.sp == s.sp + 1
            &&& c.state.call_stack[s.sp as int] == s.pc
        }),
        ({
            let r = exec_core(t, cfg, ret, pc2, steps2, slow);
            &&& r.flow is None
            &&& r.state.pc == s.pc
            &&& r.state.sp == s.sp
        }),
{
}

/// Recording a step keeps the head inside the buffer and the count at most
/// the capacity; the count grows by one until the buffer is full.
pub proof fn lemma_trace_bounded(s: VmState, pc: u32, inst: u32, rc: Option<(u8, u32)>, mc: Option<(u16, u32)>)
    requires
        s.wf(),
        s.trace_count <= TRACE_CAPACITY,
    ensures
        s.logged(pc, inst, rc, mc).wf(),
        s.logged(pc, inst, rc, mc).trace_count <= TRACE_CAPACITY,
        s.logged(pc, inst, rc, mc).trace_count == (if s.trace_count < TRACE_CAPACITY {
            s.trace_count + 1
        } else {
            TRACE_CAPACITY as int
        }),
        s.logged(pc, inst, rc, mc).trace_buffer[s.trace_head as int] == (TraceStep {
            pc,
            inst,
            reg_change: rc,
            mem_change: mc,
        }),
{
}

/// An instruction that ends the run reports the step count it was given.
pub proof fn lemma_exec_core_steps(s: VmState, cfg: VmConfig, inst: Instruction, pc: usize, steps: u32, slow: bool)
    ensures
        exec_core(s, cfg, inst, pc, steps, slow).flow matches Some(r) ==> (result_steps(r) is None
            || result_steps(r) == Some(steps)),
{
}

/// With a step budget of `m`, a slow-path run never takes more than `m`
/// steps: every result that carries a step count carries at most `m`.
pub proof fn lemma_slow_run_within_budget(
    s: VmState,
    cfg: VmConfig,
    code: Seq<Instruction>,
    steps: u32,
    phase: SlowPhase,
    m: u32,
)
    requires
        cfg.max_steps == Some(m),
        steps <= m,
        phase is HookCalled ==> steps < m,
    ensures
        result_steps(slow_run(s, cfg, code, steps, phase).1) matches Some(n) ==> n <= m,
    decreases u32::MAX - steps, if phase is Start { 2int } else if phase is AbortChecked { 1int } else { 0int },
{
    if s.pc < code.len() && !(phase is Start && cfg.services.abort_check) && !(!(phase is HookCalled)
        && steps >= m) && !(!(phase is HookCalled) && cfg.services.debug_hook) && steps != u32::MAX {
        let next = step_spec(
            s.with_pc((s.pc + 1) as usize),
            cfg,
            code[s.pc as int],
            s.pc,
            (steps + 1) as u32,
            true,
        );
        lemma_exec_core_steps(
            s.with_pc((s.pc + 1) as usize),
            cfg,
            code[s.pc as int],
            s.pc,
            (steps + 1) as u32,
            true,
        );
        if next.1 is None {
            lemma_slow_run_within_budget(next.0, cfg, code, (steps + 1) as u32, SlowPhase::Start, m);
        }
    }
}

/// The least multiple of 256 that is at least `m`: the fast path checks its
/// budget only at multiples of 256.
pub open spec fn fuel_checkpoint(m: u32) -> int {
    if m % 256 == 0 { m as int } else { m + (256 - m % 256) }
}

/// With a step budget of `m`, a fast-path run never takes more steps than the
/// first multiple of 256 at or after `m`, at most `m + 255`.
pub proof fn lemma_fast_run_within_budget(
    s: VmState,
    cfg: VmConfig,
    code: Seq<Instruction>,
    steps: u32,
    m: u32,
)
    requires
        cfg.max_steps == Some(m),
        steps <= fuel_checkpoint(m),
    ensures
        result_steps(fast_run(s, cfg, code, steps).1) matches Some(n) ==> n <= fuel_checkpoint(m),
        fuel_checkpoint(m) <= m + 255,
    decreases u32::MAX - steps,
{
    if !(steps % 256 == 0 && steps >= m) && s.pc < code.len() && steps != u32::MAX {
        let next = step_spec(
            s.with_pc((s.pc + 1) as usize),
            cfg,
            code[s.pc as int],
            s.pc,
            (steps + 1) as u32,
            false,
        );
        lemma_exec_core_steps(
            s.with_pc((s.pc + 1) as usize),
            cfg,
            code[s.pc as int],
            s.pc,
            (steps + 1) as u32,
            false,
        );
        if next.1 is None {
            lemma_fast_run_within_budget(next.0, cfg, code, (steps + 1) as u32, m);
        }
    }
}
/// Bytes written from `addr` on read back as the bytes written.
pub proof fn lemma_read_after_write_bytes(s: VmState, addr: int, data: Seq<u8>)
    requires
        s.wf(),
        0 <= addr,
        s.region_valid(addr, data.len() as int),
    ensures
        s.with_bytes(addr, data).bytes_at(addr, data.len() as int) == data,
{
    let t = s.with_bytes(addr, data);
    assert forall|i: int| 0 <= i < data.len() implies t.byte_at(addr + i) == data[i] by {}
    assert(t.bytes_at(addr, data.len() as int) =~= data);
}

/// Writing bytes from `addr` on leaves every byte outside the written range
/// as it was.
pub proof fn lemma_write_bytes_frame(s: VmState, addr: int, data: Seq<u8>, other: int)
    requires
        s.wf(),
        0 <= addr,
        s.region_valid(addr, data.len() as int),
        0 <= other,
        s.region_valid(other, 1),
        other < addr || addr + data.len() <= other,
    ensures
        s.with_bytes(addr, data).byte_at(other) == s.byte_at(other),
{
}

/// No byte of the UTF-8 encoding of a scalar other than zero is zero.
proof fn lemma_encode_scalar_nonzero(c: u32)
    requires
        is_scalar(c),
        c != 0,
    ensures
        forall|i: int| 0 <= i < encode_scalar(c).len() ==> encode_scalar(c)[i] != 0,
{
    assert(c == 0 || c > 0x7F || (c & 0x7F) as u8 != 0) by (bit_vector);
    assert(0xC0 | ((c >> 6) & 0x1F) as u8 != 0) by (bit_vector);
    assert(0xE0 | ((c >> 12) & 0x0F) as u8 != 0) by (bit_vector);
    assert(0xF0 | ((c >> 18) & 0x7) as u8 != 0) by (bit_vector);
    assert(0x80 | (c & 0x3F) as u8 != 0) by (bit_vector);
    assert(0x80 | ((c >> 6) & 0x3F) as u8 != 0) by (bit_vector);
    assert(0x80 | ((c >> 12) & 0x3F) as u8 != 0) by (bit_vector);
}

/// The UTF-8 encoding of a text without NUL characters holds no zero byte.
pub(crate) proof fn lemma_encode_utf8_nonzero(text: Seq<char>)
    requires
        forall|i: int| 0 <= i < text.len() ==> text[i] != '\0',
    ensures
        forall|i: int| 0 <= i < encode_utf8(text).len() ==> encode_utf8(text)[i] != 0,
    decreases text.len(),
{
    if text.len() > 0 {
        let c = text[0];
        vstd::utf8::char_is_scalar(c);
        assert(c as u32 != 0) by {
            vstd::utf8::char_u32_cast(c, c as u32);
            vstd::utf8::char_u32_cast('\0', '\0' as u32);
            assert('\0' as u32 == 0u32);
        }
        lemma_encode_scalar_nonzero(c as u32);
        let rest = text.drop_first();
        assert forall|i: int| 0 <= i < rest.len() implies rest[i] != '\0' by {
            assert(rest[i] == text[i + 1]);
        }
        lemma_encode_utf8_nonzero(rest);
        let head = encode_scalar(c as u32);
        let tail = encode_utf8(rest);
        assert(encode_utf8(text) == head + tail);
        assert forall|i: int| 0 <= i < encode_utf8(text).len() implies encode_utf8(text)[i] != 0 by {
            if i >= head.len() {
                assert(encode_utf8(text)[i] == tail[i - head.len()]);
            }
        }
    }
}

/// A string read from `addr + k` on, over bytes `data` that end in a zero
/// byte, takes the bytes of `data` from `k` on.
pub(crate) proof fn lemma_string_bytes_suffix(t: VmState, addr: int, data: Seq<u8>, limit: int, k: int)
    requires
        0 <= addr,
        0 <= k <= data.len(),
        data.len() <= limit,
        t.region_valid(addr, data.len() + 1int),
        forall|i: int| 0 <= i < data.len() ==> t.byte_at(addr + i) == data[i] && data[i] != 0,
        t.byte_at(addr + data.len()) == 0,
    ensures
        t.string_bytes(addr + k, limit - k) == data.subrange(k, data.len() as int),
    decreases data.len() - k,
{
    if k < data.len() {
        lemma_string_bytes_suffix(t, addr, data, limit, k + 1);
        assert(addr + k + 1 == addr + (k + 1));
        assert(data.subrange(k, data.len() as int) =~= seq![data[k]] + data.subrange(
            k + 1,
            data.len() as int,
        ));
    } else {
        assert(data.subrange(k, data.len() as int) =~= Seq::<u8>::empty());
    }
}

/// A text written with its terminating zero byte reads back unchanged: when
/// the text holds no NUL character and its UTF-8 encoding is no longer than
/// the limit of the read, the bytes that a string read takes from the same
/// address are that encoding, which is valid UTF-8 and decodes to the text.
pub proof fn lemma_read_string_after_write_string(s: VmState, addr: int, text: Seq<char>, limit: int)
    requires
        s.wf(),
        0 <= addr,
        s.region_valid(addr, encode_utf8(text).len() + 1int),
        forall|i: int| 0 <= i < text.len() ==> text[i] != '\0',
        encode_utf8(text).len() <= limit,
    ensures
        ({
            let bs = s.with_bytes(addr, encode_utf8(text) + seq![0u8]).string_bytes(addr, limit);
            &&& bs == encode_utf8(text)
            &&& valid_utf8(bs)
            &&& decode_utf8(bs) == text
        }),
{
    let data = encode_utf8(text);
    let written = data + seq![0u8];
    let t = s.with_bytes(addr, written);
    lemma_encode_utf8_nonzero(text);
    assert forall|i: int| 0 <= i <= data.len() implies t.byte_at(addr + i) == written[i] by {}
    assert forall|i: int| 0 <= i < data.len() implies t.byte_at(addr + i) == data[i] && data[i] != 0 by {
        assert(written[i] == data[i]);
    }
    assert(t.byte_at(addr + data.len()) == written[data.len() as int]);
    assert(t.region_valid(addr, data.len() + 1int));
    lemma_string_bytes_suffix(t, addr, data, limit, 0);
    assert(data.subrange(0, data.len() as int) =~= data);
    vstd::utf8::encode_utf8_valid_utf8(text);
    vstd::utf8::encode_utf8_decode_utf8(text);
}
/// The machine's state without its trace.
pub open spec fn untraced(s: VmState) -> VmState {
    VmState { trace_buffer: Seq::empty(), trace_head: 0, trace_count: 0, ..s }
}

/// Whether the code holds none of the instructions that the two paths treat
/// differently: `CmpEq` and `CmpLt`, which only the fast path knows, and
/// `JmpIfZero`, which jumps to operand B on the fast path and to the 16-bit
/// immediate on the slow one.
pub open spec fn same_on_both_paths(code: Seq<Instruction>) -> bool {
    forall|i: int|
        0 <= i < code.len() ==> #[trigger] code[i].spec_opcode() != 17 && code[i].spec_opcode() != 18
            && code[i].spec_opcode() != 20
}

/// One instruction other than those three does the same on both paths, on
/// states that differ at most in their traces.
proof fn lemma_exec_core_paths(
    a: VmState,
    b: VmState,
    cf: VmConfig,
    cs: VmConfig,
    inst: Instruction,
    pc: usize,
    steps: u32,
)
    requires
        untraced(a) == untraced(b),
        cf.services == cs.services,
        inst.spec_opcode() != 17 && inst.spec_opcode() != 18 && inst.spec_opcode() != 20,
    ensures
        exec_core(a, cf, inst, pc, steps, false).flow == exec_core(b, cs, inst, pc, steps, true).flow,
        untraced(exec_core(a, cf, inst, pc, steps, false).state) == untraced(
            exec_core(b, cs, inst, pc, steps, true).state,
        ),
{
    assert(a.registers == b.registers && a.memory == b.memory && a.mmap == b.mmap && a.pc == b.pc
        && a.sp == b.sp && a.call_stack == b.call_stack) by {
        assert(untraced(a).registers == untraced(b).registers);
        assert(untraced(a).memory == untraced(b).memory);
        assert(untraced(a).mmap == untraced(b).mmap);
        assert(untraced(a).call_stack == untraced(b).call_stack);
    }
    assert(untraced(exec_core(a, cf, inst, pc, steps, false).state) =~= untraced(
        exec_core(b, cs, inst, pc, steps, true).state,
    ));
}

/// The fast path and the slow path agree, apart from the trace: without a
/// step budget, an abort flag or a debug hook, and on code without `CmpEq`,
/// `CmpLt` and `JmpIfZero` (which the original's two paths treat
/// differently), a fast run and a slow run from states that differ at most in
/// their traces end with the same result and the same machine state but for
/// the trace, whether tracing is on or not.
pub proof fn lemma_fast_slow_agree(
    a: VmState,
    b: VmState,
    cf: VmConfig,
    cs: VmConfig,
    code: Seq<Instruction>,
    steps: u32,
)
    requires
        untraced(a) == untraced(b),
        cf.max_steps is None,
        cs.max_steps is None,
        cf.services == cs.services,
        !cs.services.abort_check,
        !cs.services.debug_hook,
        same_on_both_paths(code),
    ensures
        fast_run(a, cf, code, steps).1 == slow_run(b, cs, code, steps, SlowPhase::Start).1,
        untraced(fast_run(a, cf, code, steps).0) == untraced(slow_run(b, cs, code, steps, SlowPhase::Start).0),
    decreases u32::MAX - steps,
{
    assert(a.pc == b.pc) by {
        assert(untraced(a).pc == untraced(b).pc);
    }
    assert(steps % 256 == 0 ==> steps < u32::MAX);
    if a.pc < code.len() && steps != u32::MAX {
        let inst = code[a.pc as int];
        let a1 = a.with_pc((a.pc + 1) as usize);
        let b1 = b.with_pc((b.pc + 1) as usize);
        assert(untraced(a1) =~= untraced(b1)) by {
            assert(untraced(a1) =~= untraced(a).with_pc((a.pc + 1) as usize));
            assert(untraced(b1) =~= untraced(b).with_pc((b.pc + 1) as usize));
        }
        lemma_exec_core_paths(a1, b1, cf, cs, inst, a.pc, (steps + 1) as u32);
        let ra = exec_core(a1, cf, inst, a.pc, (steps + 1) as u32, false);
        let rb = exec_core(b1, cs, inst, b.pc, (steps + 1) as u32, true);
        let nb = step_spec(b1, cs, inst, b.pc, (steps + 1) as u32, true);
        assert(untraced(nb.0) =~= untraced(rb.state));
        if ra.flow is None {
            lemma_fast_slow_agree(ra.state, nb.0, cf, cs, code, (steps + 1) as u32);
        }
    }
}

/// What the arithmetic and logic instructions compute, on either path: the
/// destination register A gets the value below (sums, differences and
/// products taken modulo 2^32, quotients and remainders of the unsigned
/// values, with a zero divisor an error), every other part of the machine
/// stays, and the run goes on.
pub proof fn lemma_arithmetic_semantics(
    s: VmState,
    cfg: VmConfig,
    inst: Instruction,
    pc: usize,
    steps: u32,
    slow: bool,
)
    requires
        s.wf(),
    ensures
        ({
            let r = exec_core(s, cfg, inst, pc, steps, slow);
            let op = inst.spec_opcode();
            let a = inst.spec_a() as int;
            let x = s.registers[inst.spec_b() as int] as int;
            let y = s.registers[inst.spec_c() as int] as int;
            let gives = |v: int|
                r.flow is None && r.state == (VmState { registers: s.registers.update(a, v as u32), ..s })
                    && 0 <= v < 0x1_0000_0000;
            &&& op == 1 ==> gives(inst.spec_b() as int)
            &&& op == 2 ==> gives(inst.spec_b() + 256 * inst.spec_c())
            &&& op == 3 ==> gives((x + y) % 0x1_0000_0000)
            &&& op == 4 ==> gives((x - y + 0x1_0000_0000) % 0x1_0000_0000)
            &&& op == 5 ==> gives((x * y) % 0x1_0000_0000)
            &&& (op == 6 || op == 7) && y == 0 ==> r.flow == Some(
                Err::<VmResult, VmError>(VmError::DivideByZero { pc }),
            ) && r.state == s
            &&& op == 6 && y != 0 ==> gives(x / y)
            &&& op == 7 && y != 0 ==> gives(x % y)
            &&& op == 0 ==> r.flow == Some(Ok::<VmResult, VmError>(VmResult::Halted(steps))) && r.state == s
            &&& op == 16 && y < 32 ==> gives(x / vstd::arithmetic::power2::pow2(y as nat) as int)
            &&& op == 15 && y < 32 && x * vstd::arithmetic::power2::pow2(y as nat) < 0x1_0000_0000 ==> gives(
                x * vstd::arithmetic::power2::pow2(y as nat),
            )
            &&& (op == 15 || op == 16) && y >= 32 ==> r.flow is Some && r.state == s
            &&& op == 12 ==> gives((x as u32 & y as u32) as int)
            &&& op == 13 ==> gives((x as u32 | y as u32) as int)
            &&& op == 14 ==> gives((x as u32 ^ y as u32) as int)
        }),
{
    lemma_imm16_fields(inst);
    let x = s.registers[inst.spec_b() as int];
    let y = s.registers[inst.spec_c() as int];
    assert((x as nat * y as nat) % 0x1_0000_0000nat == (x * y) % 0x1_0000_0000);
    if y < 32 {
        vstd::bits::lemma_u32_shr_is_div(x, y);
        vstd::arithmetic::power2::lemma_pow2_pos(y as nat);
        assert(0 <= (x as int) / (vstd::arithmetic::power2::pow2(y as nat) as int) <= x) by {
            vstd::arithmetic::div_mod::lemma_div_is_ordered_by_denominator(x as int, 1, vstd::arithmetic::power2::pow2(y as nat) as int);
            vstd::arithmetic::div_mod::lemma_div_pos_is_pos(x as int, vstd::arithmetic::power2::pow2(y as nat) as int);
        }
        if x * vstd::arithmetic::power2::pow2(y as nat) < 0x1_0000_0000 {
            vstd::bits::lemma_u32_shl_is_mul(x, y);
            assert(0 <= x * vstd::arithmetic::power2::pow2(y as nat)) by (nonlinear_arith);
        }
    }
    if inst.spec_opcode() == 6 && y != 0 {
        assert(0 <= x / y <= x) by (nonlinear_arith)
            requires
                y > 0,
        ;
    }
    if inst.spec_opcode() == 7 && y != 0 {
        assert(0 <= x % y < y) by (nonlinear_arith)
            requires
                y > 0,
        ;
    }
}

/// What the comparisons (fast path) and the jumps do: `CmpEq`/`CmpLt` put 1
/// in register A when B equals / is below C (unsigned) and 0 otherwise;
/// `Jmp` goes to its 16-bit immediate; `JmpIfEq`, `JmpIfLt` and `JmpIfGt`
/// go to address C exactly when register A equals / is below / is above
/// register B (unsigned) and else to the next instruction. Nothing else
/// changes and the run goes on.
pub proof fn lemma_compare_and_jump_semantics(
    s: VmState,
    cfg: VmConfig,
    inst: Instruction,
    pc: usize,
    steps: u32,
    slow: bool,
)
    requires
        s.wf(),
    ensures
        ({
            let r = exec_core(s, cfg, inst, pc, steps, slow);
            let op = inst.spec_opcode();
            let a = inst.spec_a() as int;
            let ra = s.registers[inst.spec_a() as int];
            let rb = s.registers[inst.spec_b() as int];
            let rc = s.registers[inst.spec_c() as int];
            let jumps_if = |cond: bool|
                r.flow is None && r.state == (VmState {
                    pc: if cond { inst.spec_c() } else { s.pc },
                    ..s
                });
            &&& !slow && op == 17 ==> r.flow is None && r.state == (VmState {
                registers: s.registers.update(a, if rb == rc { 1u32 } else { 0u32 }),
                ..s
            })
            &&& !slow && op == 18 ==> r.flow is None && r.state == (VmState {
                registers: s.registers.update(a, if rb < rc { 1u32 } else { 0u32 }),
                ..s
            })
            &&& op == 19 ==> r.flow is None && r.state == (VmState {
                pc: (inst.spec_b() + 256 * inst.spec_c()) as usize,
                ..s
            })
            &&& op == 20 ==> r.flow is None && r.state == (VmState {
                pc: if ra == 0 {
                    if slow { (inst.spec_b() + 256 * inst.spec_c()) as usize } else { inst.spec_b() }
                } else {
                    s.pc
                },
                ..s
            })
            &&& op == 21 ==> jumps_if(ra == rb)
            &&& op == 22 ==> jumps_if(ra < rb)
            &&& op == 23 ==> jumps_if(ra > rb)
        }),
{
    lemma_imm16_fields(inst);
}

/// With an abort flag attached, a slow-path run asks it before every
/// instruction, before anything else happens: at the start of a step inside
/// the code the run pauses with an `AbortCheck` request and the state as it
/// was, so that a stop answer ends the run with no further instruction run.
pub proof fn lemma_abort_asked_first(s: VmState, cfg: VmConfig, code: Seq<Instruction>, steps: u32)
    requires
        cfg.services.abort_check,
        s.pc < code.len(),
    ensures
        slow_run(s, cfg, code, steps, SlowPhase::Start) == (
            s,
            Ok::<VmResult, VmError>(
                VmResult::HostCall(
                    steps,
                    HostRequest { pc: s.pc, inst: code[s.pc as int], kind: HostKind::AbortCheck },
                ),
            ),
        ),
{
}

} // verus!

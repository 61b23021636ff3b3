use script_go::instruction::{Instruction, OpCode};
use script_go::vm::{HostKind, HostReply, HostRequest, ScriptVm, SlowPhase, VmError, VmResult};

/// What the tests' host does with a request.
enum Answer {
    Reply(HostReply),
    Abort,
}

/// Runs `code`, serving host requests with `host` until the run ends.
fn drive(
    vm: &mut ScriptVm,
    code: &[Instruction],
    mut host: impl FnMut(&mut ScriptVm, &HostRequest) -> Answer,
) -> Result<VmResult, VmError> {
    let slow = vm.tracing_enabled || vm.services.abort_check || vm.services.debug_hook;
    let mut r = vm.run(code);
    loop {
        let (steps, req) = match r {
            Ok(VmResult::HostCall(steps, req)) => (steps, req),
            other => return other,
        };
        match host(vm, &req) {
            Answer::Abort => r = vm.answer_abort_check(code, steps, true),
            Answer::Reply(reply) => match req.kind {
                HostKind::AbortCheck => r = vm.answer_abort_check(code, steps, false),
                HostKind::DebugHook => r = vm.resume_slow(code, steps, SlowPhase::HookCalled),
                _ => {
                    vm.complete_host_call(req, reply, slow)?;
                    r = if slow { vm.resume_slow(code, steps, SlowPhase::Start) } else { vm.resume_fast(code, steps) };
                }
            },
        }
    }
}

fn no_host(_vm: &mut ScriptVm, _req: &HostRequest) -> Answer {
    panic!("no host service expected");
}

fn div_by_zero() {
    let mut vm = ScriptVm::new();
    let code = [
        Instruction::new(OpCode::LoadImm as u8, 1, 10, 0),
        Instruction::new(OpCode::LoadImm as u8, 2, 0, 0),
        Instruction::new(OpCode::Div as u8, 3, 1, 2),
        Instruction::new(OpCode::Halt as u8, 0, 0, 0),
    ];
    let result = vm.run(&code);
    assert_eq!(result, Err(VmError::DivideByZero { pc: 2 }));
}

fn stack_overflow() {
    let mut vm = ScriptVm::new();
    let code = [Instruction::new(OpCode::Call as u8, 0, 0, 0)];
    assert_eq!(vm.run(&code), Err(VmError::StackOverflow { pc: 0 }));
}

fn stack_underflow() {
    let mut vm = ScriptVm::new();
    let code = [Instruction::new(OpCode::Ret as u8, 0, 0, 0)];
    assert_eq!(vm.run(&code), Err(VmError::StackUnderflow { pc: 0 }));
}

fn invalid_opcode() {
    let mut vm = ScriptVm::new();
    let code = [Instruction::new(153, 0, 0, 0)];
    assert_eq!(vm.run(&code), Err(VmError::InvalidOpcode { pc: 0, opcode: 0x99 }));
}

fn memory_load_store() {
    let mut vm = ScriptVm::new();
    vm.registers[1] = 42;
    vm.registers[2] = 10;
    vm.registers[3] = 4;
    let code = [
        Instruction::new(OpCode::Store as u8, 1, 2, 3),
        Instruction::new(OpCode::Load as u8, 4, 2, 3),
        Instruction::new(OpCode::Halt as u8, 0, 0, 0),
    ];
    vm.run(&code).unwrap();
    assert_eq!(vm.registers[4], 42);
    assert_eq!(vm.memory[14], 42);
    assert_eq!(vm.memory[15], 0);
    assert_eq!(vm.memory[16], 0);
    assert_eq!(vm.memory[17], 0);
}

fn abort_flag() {
    let mut vm = ScriptVm::new();
    vm.max_steps = None;
    vm.services.abort_check = true;
    let code = [Instruction::new(OpCode::Jmp as u8, 0, 0, 0)];
    let result = drive(&mut vm, &code, |_vm, req| {
        assert_eq!(req.kind, HostKind::AbortCheck);
        Answer::Abort
    });
    assert!(result.is_ok());
    assert_eq!(result.unwrap(), VmResult::Halted(0));
}

fn out_of_fuel() {
    let mut vm = ScriptVm::new();
    vm.max_steps = Some(50);
    let code = [Instruction::new(OpCode::Jmp as u8, 0, 0, 0)];
    assert_eq!(vm.run(&code), Err(VmError::OutOfFuel { pc: 0 }));
}

fn trace_logging() {
    let mut vm = ScriptVm::new();
    vm.tracing_enabled = true;
    let code = [
        Instruction::new(OpCode::LoadImm as u8, 1, 42, 0),
        Instruction::new(OpCode::Store as u8, 1, 0, 0),
        Instruction::new(OpCode::Halt as u8, 0, 0, 0),
    ];
    vm.run(&code).unwrap();
    assert_eq!(vm.trace_count, 2);
    let trace1 = vm.trace_buffer[0];
    assert_eq!(trace1.pc, 0);
    assert_eq!(trace1.reg_change, Some((1, 42)));
    assert_eq!(trace1.mem_change, None);
    let trace2 = vm.trace_buffer[1];
    assert_eq!(trace2.pc, 1);
    assert_eq!(trace2.reg_change, None);
    assert_eq!(trace2.mem_change, Some((0, 42)));
}

fn debug_hook() {
    let mut vm = ScriptVm::new();
    vm.services.debug_hook = true;
    let mut exec_count = 0;
    let code = [
        Instruction::new(OpCode::LoadImm as u8, 1, 10, 0),
        Instruction::new(OpCode::Halt as u8, 0, 0, 0),
    ];
    drive(&mut vm, &code, |_vm, req| {
        assert_eq!(req.kind, HostKind::DebugHook);
        exec_count += 1;
        if req.inst.opcode() == OpCode::LoadImm as u8 {
            assert_eq!(req.inst.a(), 1);
        }
        Answer::Reply(HostReply::Done)
    })
    .unwrap();
    assert_eq!(exec_count, 2);
}

fn hot_reload_state_preservation() {
    let mut vm = ScriptVm::new();
    vm.pc = 42;
    vm.sp = 5;
    vm.call_stack[0] = 99;
    vm.registers[3] = 77;
    vm.registers[20] = 88;
    vm.memory[10] = 55;
    vm.hot_reload();
    assert_eq!(vm.pc, 0);
    assert_eq!(vm.sp, 0);
    assert_eq!(vm.call_stack[0], 0);
    assert_eq!(vm.registers[3], 0);
    assert_eq!(vm.registers[20], 88);
    assert_eq!(vm.memory[10], 55);
}

#[test]
fn vm_test_div_by_zero() {
    div_by_zero();
}

#[test]
fn vm_tests_test_div_by_zero() {
    div_by_zero();
}

#[test]
fn vm_test_stack_overflow() {
    stack_overflow();
}

#[test]
fn vm_tests_test_stack_overflow() {
    stack_overflow();
}

#[test]
fn vm_test_stack_underflow() {
    stack_underflow();
}

#[test]
fn vm_tests_test_stack_underflow() {
    stack_underflow();
}

#[test]
fn vm_test_invalid_opcode() {
    invalid_opcode();
}

#[test]
fn vm_tests_test_invalid_opcode() {
    invalid_opcode();
}

#[test]
fn vm_test_memory_load_store() {
    memory_load_store();
}

#[test]
fn vm_tests_test_memory_load_store() {
    memory_load_store();
}

#[test]
fn vm_test_abort_flag() {
    abort_flag();
}

#[test]
fn vm_tests_test_abort_flag() {
    abort_flag();
}

#[test]
fn vm_test_out_of_fuel() {
    out_of_fuel();
}

#[test]
fn vm_tests_test_out_of_fuel() {
    out_of_fuel();
}

#[test]
fn vm_test_trace_logging() {
    trace_logging();
}

#[test]
fn vm_tests_test_trace_logging() {
    trace_logging();
}

#[test]
fn vm_test_debug_hook() {
    debug_hook();
}

#[test]
fn vm_tests_test_debug_hook() {
    debug_hook();
}

#[test]
fn vm_test_hot_reload_state_preservation() {
    hot_reload_state_preservation();
}

#[test]
fn vm_tests_test_hot_reload_state_preservation() {
    hot_reload_state_preservation();
}

#[test]
fn test_run_slow_syscall_and_hardware_handlers() {
    let mut vm = ScriptVm::new();
    vm.tracing_enabled = true;
    vm.services.syscall = true;
    vm.services.hardware = true;
    let code = [
        Instruction::new(OpCode::SysCall as u8, 1, 0, 0),
        Instruction::new(OpCode::HardwareCall as u8, 2, 0, 0),
        Instruction::new(OpCode::Halt as u8, 0, 0, 0),
    ];
    let res = drive(&mut vm, &code, |vm, req| {
        match req.kind {
            HostKind::SysCall { a, .. } => vm.registers[a] = 100,
            HostKind::HardwareCall { a, .. } => vm.registers[a] = 200,
            _ => panic!("unexpected request"),
        }
        Answer::Reply(HostReply::Done)
    });
    assert!(res.is_ok());
    assert_eq!(vm.registers[1], 100);
    assert_eq!(vm.registers[2], 200);
}

#[test]
fn test_yield_inside_subroutine() {
    let mut vm = ScriptVm::new();
    let code = [
        Instruction::new(OpCode::Call as u8, 0, 3, 0),
        Instruction::new(OpCode::LoadImm as u8, 1, 99, 0),
        Instruction::new(OpCode::Halt as u8, 0, 0, 0),
        Instruction::new(OpCode::Yield as u8, 0, 0, 0),
        Instruction::new(OpCode::Ret as u8, 0, 0, 0),
    ];
    let res1 = vm.run(&code);
    assert_eq!(res1, Ok(VmResult::Yielded(2)));
    assert_eq!(vm.pc, 4);
    assert_eq!(vm.sp, 1);
    let res2 = vm.run(&code);
    assert!(matches!(res2, Ok(VmResult::Halted(_))));
    assert_eq!(vm.registers[1], 99);
    assert_eq!(vm.sp, 0);
}

#[test]
fn vm_store_then_load_in_mapped_region() {
    let mut vm = ScriptVm::new();
    vm.mmap = vec![0; 8];
    vm.registers[1] = 0xDEAD_BEEF;
    vm.registers[2] = 0x8000_0000;
    vm.registers[3] = 4;
    let code = [
        Instruction::new(OpCode::Store as u8, 1, 2, 3),
        Instruction::new(OpCode::Load as u8, 5, 2, 3),
        Instruction::new(OpCode::Halt as u8, 0, 0, 0),
    ];
    assert_eq!(vm.run(&code), Ok(VmResult::Halted(3)));
    assert_eq!(vm.registers[5], 0xDEAD_BEEF);
    assert_eq!(vm.mmap, vec![0, 0, 0, 0, 0xEF, 0xBE, 0xAD, 0xDE]);
    vm.registers[3] = 5;
    vm.pc = 0;
    assert_eq!(vm.run(&code), Err(VmError::MemoryAccessOutOfBounds { pc: 0, addr: 0x8000_0005 }));
}

#[test]
fn vm_call_then_ret_restores_pc_and_stack() {
    let mut vm = ScriptVm::new();
    let code = [
        Instruction::new(OpCode::Call as u8, 0, 3, 0),
        Instruction::new(OpCode::LoadImm as u8, 2, 7, 0),
        Instruction::new(OpCode::Halt as u8, 0, 0, 0),
        Instruction::new(OpCode::LoadImm as u8, 1, 5, 0),
        Instruction::new(OpCode::Ret as u8, 0, 0, 0),
    ];
    assert_eq!(vm.run(&code), Ok(VmResult::Halted(5)));
    assert_eq!(vm.registers[1], 5);
    assert_eq!(vm.registers[2], 7);
    assert_eq!(vm.sp, 0);
    assert_eq!(vm.call_stack[0], 1);
}

#[test]
fn vm_fast_run_budget_is_checked_every_256_steps() {
    let mut vm = ScriptVm::new();
    vm.max_steps = Some(300);
    let code = [Instruction::new(OpCode::Jmp as u8, 0, 0, 0)];
    assert_eq!(vm.run(&code), Err(VmError::OutOfFuel { pc: 0 }));
    let mut steps = 0;
    vm.max_steps = Some(300);
    vm.tracing_enabled = true;
    vm.pc = 0;
    let r = drive(&mut vm, &code, |_vm, _req| {
        steps += 1;
        Answer::Reply(HostReply::Done)
    });
    assert_eq!(r, Err(VmError::OutOfFuel { pc: 0 }));
    assert_eq!(steps, 0);
    assert_eq!(vm.trace_count, 300);
}

#[test]
fn vm_host_requests_and_faults() {
    let mut vm = ScriptVm::new();
    vm.registers[1] = 1;
    vm.registers[2] = 40;
    let code = [Instruction::new(OpCode::Shl as u8, 3, 1, 2)];
    match vm.run(&code) {
        Ok(VmResult::HostCall(1, req)) => {
            assert_eq!(req.pc, 0);
            assert_eq!(req.kind, HostKind::Fault(script_go::vm::FaultKind::ShiftOverflow));
        }
        other => panic!("unexpected {:?}", other),
    }
    let mut vm = ScriptVm::new();
    vm.registers[1] = 7;
    let code = [Instruction::new(OpCode::FDiv as u8, 3, 1, 2), Instruction::new(OpCode::Halt as u8, 0, 0, 0)];
    let r = drive(&mut vm, &code, |_vm, req| {
        match req.kind {
            HostKind::FloatArith { op: 11, dest: 3, lhs: 7, rhs: 0 } => Answer::Reply(HostReply::Failed),
            _ => panic!("unexpected request"),
        }
    });
    assert_eq!(r, Err(VmError::DivideByZero { pc: 0 }));
    let _ = no_host;
}

#[test]
fn vm_new_machine_state() {
    let vm = ScriptVm::new();
    assert_eq!(vm.max_steps, Some(10000));
    assert_eq!(vm.pc, 0);
    assert!(vm.registers.iter().all(|r| *r == 0));
    let vm2 = ScriptVm::new_with_max_steps(7);
    assert_eq!(vm2.max_steps, Some(7));
    assert_eq!(vm2.check_watchdog_timeout(7), Err(VmError::OutOfFuel { pc: 0 }));
    assert_eq!(vm2.check_watchdog_timeout(6), Ok(()));
}

#[test]
fn string_written_with_terminator_reads_back() {
    let mut vm = ScriptVm::new();
    assert_eq!(vm.write_string(100, "héllo wörld", true), Ok(14));
    assert_eq!(vm.read_string(100, None).unwrap(), "héllo wörld");
    // A limit shorter than the text cuts the read at the limit.
    assert_eq!(vm.read_string(100, Some(5)).unwrap(), "héll");
}

#[test]
fn bytes_written_read_back_and_neighbours_stay() {
    let mut vm = ScriptVm::new();
    vm.write_bytes(200, &[7, 7, 7, 7, 7, 7]).unwrap();
    vm.write_bytes(201, &[1, 2, 3]).unwrap();
    assert_eq!(vm.read_bytes(201, 3, false).unwrap(), vec![1, 2, 3]);
    assert_eq!(vm.read_bytes(200, 6, false).unwrap(), vec![7, 1, 2, 3, 7, 7]);
}

#[test]
fn abort_after_some_steps_halts_with_those_steps() {
    let mut vm = ScriptVm::new();
    vm.max_steps = None;
    vm.services.abort_check = true;
    let code = [
        Instruction::new(OpCode::LoadImm as u8, 1, 7, 0),
        Instruction::new(OpCode::Jmp as u8, 0, 1, 0),
    ];
    let mut asked = 0;
    let result = drive(&mut vm, &code, |_vm, req| {
        assert_eq!(req.kind, HostKind::AbortCheck);
        asked += 1;
        if asked == 4 { Answer::Abort } else { Answer::Reply(HostReply::Done) }
    });
    assert_eq!(result, Ok(VmResult::Halted(3)));
    assert_eq!(vm.registers[1], 7);
    assert_eq!(vm.pc, 1);
}

/// The usual zig-zag codec, standing in for the host's.
fn zigzag(op: u8, input: u32) -> u32 {
    if op == 45 {
        let n = input as i32;
        ((n << 1) ^ (n >> 31)) as u32
    } else {
        ((input >> 1) as i32 ^ -((input & 1) as i32)) as u32
    }
}

#[test]
fn delta_coding_keeps_the_state_register() {
    let mut vm = ScriptVm::new();
    let code = [
        Instruction::new(OpCode::LoadImm as u8, 1, 10, 0),
        Instruction::new(OpCode::LoadImm as u8, 2, 13, 0),
        // r3 = code(r1 - r5) with r5 = 0, then r5 = r1
        Instruction::new(OpCode::DeltaEncode as u8, 3, 1, 5),
        // r4 = code(r2 - r5) = code(3), r5 = r2
        Instruction::new(OpCode::DeltaEncode as u8, 4, 2, 5),
        // decoding from r6 = 0: r7 = r6 = 0 + decode(r3) = 10
        Instruction::new(OpCode::DeltaDecode as u8, 7, 3, 6),
        // r8 = r6 = 10 + decode(r4) = 13
        Instruction::new(OpCode::DeltaDecode as u8, 8, 4, 6),
        Instruction::new(OpCode::Halt as u8, 0, 0, 0),
    ];
    let result = drive(&mut vm, &code, |_vm, req| match req.kind {
        HostKind::Delta { op, input, .. } => Answer::Reply(HostReply::Value(zigzag(op, input))),
        _ => panic!("unexpected request"),
    });
    assert_eq!(result, Ok(VmResult::Halted(7)));
    assert_eq!(vm.registers[3], 20);
    assert_eq!(vm.registers[4], 6);
    assert_eq!(vm.registers[5], 13);
    assert_eq!(vm.registers[7], 10);
    assert_eq!(vm.registers[8], 13);
    assert_eq!(vm.registers[6], 13);
}

#[test]
fn fast_and_traced_runs_agree_but_for_the_trace() {
    let code = [
        Instruction::new(OpCode::LoadImm as u8, 1, 5, 0),
        Instruction::new(OpCode::LoadImm as u8, 2, 1, 0),
        Instruction::new(OpCode::LoadImm as u8, 3, 0, 0),
        Instruction::new(OpCode::Add as u8, 3, 3, 1),
        Instruction::new(OpCode::Sub as u8, 1, 1, 2),
        Instruction::new(OpCode::JmpIfEq as u8, 1, 4, 7),
        Instruction::new(OpCode::Jmp as u8, 0, 3, 0),
        Instruction::new(OpCode::Store as u8, 3, 4, 0),
        Instruction::new(OpCode::Halt as u8, 0, 0, 0),
    ];
    let mut fast = ScriptVm::new();
    fast.max_steps = None;
    let mut slow = ScriptVm::new();
    slow.max_steps = None;
    slow.tracing_enabled = true;
    let rf = fast.run(&code);
    let rs = slow.run(&code);
    assert_eq!(rf, rs);
    assert_eq!(fast.registers, slow.registers);
    assert_eq!(fast.memory, slow.memory);
    assert_eq!(fast.pc, slow.pc);
    assert_eq!(fast.sp, slow.sp);
    assert_eq!(fast.call_stack, slow.call_stack);
    assert_eq!(fast.trace_count, 0);
    assert!(slow.trace_count > 0);
}

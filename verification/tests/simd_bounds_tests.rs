use script_go::instruction::{Instruction, OpCode};
use script_go::vm::{HostKind, HostReply, ScriptVm, VmError, VmResult};

#[test]
fn test_simd_integer_overflow_length_usize_max() {
    let mut vm = ScriptVm::new();
    vm.registers[0] = u32::MAX;
    vm.registers[1] = 100;
    vm.registers[2] = 200;
    vm.registers[3] = 300;

    let code_add = [Instruction::new(OpCode::VecAdd as u8, 1, 2, 3)];
    let res_add = vm.run(&code_add);
    assert!(
        matches!(res_add, Err(VmError::MemoryAccessOutOfBounds { .. })),
        "VecAdd with overflow length (u32::MAX) must return MemoryAccessOutOfBounds, got: {:?}",
        res_add
    );

    vm.pc = 0;
    let code_mul = [Instruction::new(OpCode::VecMul as u8, 1, 2, 3)];
    let res_mul = vm.run(&code_mul);
    assert!(
        matches!(res_mul, Err(VmError::MemoryAccessOutOfBounds { .. })),
        "VecMul with overflow length (u32::MAX) must return MemoryAccessOutOfBounds, got: {:?}",
        res_mul
    );

    vm.pc = 0;
    let code_dot = [Instruction::new(OpCode::VecDot as u8, 1, 2, 3)];
    let res_dot = vm.run(&code_dot);
    assert!(
        matches!(res_dot, Err(VmError::MemoryAccessOutOfBounds { .. })),
        "VecDot with overflow length (u32::MAX) must return MemoryAccessOutOfBounds, got: {:?}",
        res_dot
    );
}

#[test]
fn test_simd_integer_overflow_length_boundary_values() {
    let mut vm = ScriptVm::new();
    let overflow_lengths = [1073741824u32, 2147483648, 1073741823, u32::MAX / 2];
    for &len in &overflow_lengths {
        vm.pc = 0;
        vm.registers[0] = len;
        vm.registers[1] = 0;
        vm.registers[2] = 0;
        vm.registers[3] = 0;
        let code_add = [Instruction::new(OpCode::VecAdd as u8, 1, 2, 3)];
        let res = vm.run(&code_add);
        assert!(
            matches!(res, Err(VmError::MemoryAccessOutOfBounds { .. })),
            "VecAdd with boundary length {} must return MemoryAccessOutOfBounds, got: {:?}",
            len,
            res
        );
    }
}

#[test]
fn test_simd_invalid_vm_addresses_0xdeadbeef() {
    let mut vm = ScriptVm::new();
    vm.registers[0] = 4;

    vm.registers[1] = 3735928559;
    vm.registers[2] = 0;
    vm.registers[3] = 16;
    let code1 = [Instruction::new(OpCode::VecAdd as u8, 1, 2, 3)];
    let res1 = vm.run(&code1);
    assert!(
        matches!(res1, Err(VmError::MemoryAccessOutOfBounds { addr: 0xDEADBEEF, .. })),
        "VecAdd with dest=0xDEADBEEF must return MemoryAccessOutOfBounds"
    );

    vm.pc = 0;
    vm.registers[1] = 0;
    vm.registers[2] = 3735928559;
    vm.registers[3] = 16;
    let code2 = [Instruction::new(OpCode::VecMul as u8, 1, 2, 3)];
    let res2 = vm.run(&code2);
    assert!(
        matches!(res2, Err(VmError::MemoryAccessOutOfBounds { addr: 0xDEADBEEF, .. })),
        "VecMul with src1=0xDEADBEEF must return MemoryAccessOutOfBounds"
    );

    vm.pc = 0;
    vm.registers[1] = 0;
    vm.registers[2] = 16;
    vm.registers[3] = 3735928559;
    let code3 = [Instruction::new(OpCode::VecDot as u8, 1, 2, 3)];
    let res3 = vm.run(&code3);
    assert!(
        matches!(res3, Err(VmError::MemoryAccessOutOfBounds { addr: 0xDEADBEEF, .. })),
        "VecDot with src2=0xDEADBEEF must return MemoryAccessOutOfBounds"
    );
}

#[test]
fn test_simd_out_of_bounds_ram_address() {
    let mut vm = ScriptVm::new();
    vm.registers[0] = 10;
    vm.registers[1] = 1000;
    vm.registers[2] = 0;
    vm.registers[3] = 0;
    let code = [Instruction::new(OpCode::VecAdd as u8, 1, 2, 3)];
    let res = vm.run(&code);
    assert!(
        matches!(res, Err(VmError::MemoryAccessOutOfBounds { addr: 1000, .. })),
        "VecAdd crossing RAM boundary 1024 must return MemoryAccessOutOfBounds"
    );
}

/// Runs `code`, answering float requests the way an `f32` host does.
fn run_with_floats(vm: &mut ScriptVm, code: &[Instruction]) -> Result<VmResult, VmError> {
    let mut r = vm.run(code);
    loop {
        let (steps, req) = match r {
            Ok(VmResult::HostCall(steps, req)) => (steps, req),
            other => return other,
        };
        let reply = match req.kind {
            HostKind::FloatArith { op, lhs, rhs, .. } => {
                let (x, y) = (f32::from_bits(lhs), f32::from_bits(rhs));
                match op {
                    8 => HostReply::Value((x + y).to_bits()),
                    9 => HostReply::Value((x - y).to_bits()),
                    10 => HostReply::Value((x * y).to_bits()),
                    _ => {
                        if y == 0.0 {
                            HostReply::Failed
                        } else {
                            HostReply::Value((x / y).to_bits())
                        }
                    }
                }
            }
            HostKind::FloatBranch { op, lhs, rhs, .. } => {
                let (x, y) = (f32::from_bits(lhs), f32::from_bits(rhs));
                HostReply::Branch(if op == 24 { x < y } else { x > y })
            }
            HostKind::Vector { op, len, dest, src1, src2 } => {
                let a = vm.read_bytes(src1, len * 4, false).unwrap();
                let b = vm.read_bytes(src2, len * 4, false).unwrap();
                let fa: Vec<f32> = a.chunks(4).map(|c| f32::from_le_bytes([c[0], c[1], c[2], c[3]])).collect();
                let fb: Vec<f32> = b.chunks(4).map(|c| f32::from_le_bytes([c[0], c[1], c[2], c[3]])).collect();
                if op == 41 {
                    let mut sum = 0.0f32;
                    for i in 0..len {
                        sum += fa[i] * fb[i];
                    }
                    HostReply::Value(sum.to_bits())
                } else {
                    let mut out = Vec::new();
                    for i in 0..len {
                        let v = if op == 39 { fa[i] + fb[i] } else { fa[i] * fb[i] };
                        out.extend_from_slice(&v.to_le_bytes());
                    }
                    vm.write_bytes(dest, &out).unwrap();
                    HostReply::Done
                }
            }
            _ => panic!("unexpected request {:?}", req),
        };
        vm.complete_host_call(req, reply, false)?;
        r = vm.resume_fast(code, steps);
    }
}

#[test]
fn vm_test_floats() {
    let mut vm = ScriptVm::new();
    let val1 = 3.5f32.to_bits();
    let val2 = 1.5f32.to_bits();
    vm.registers[1] = val1;
    vm.registers[2] = val2;
    let code = [
        Instruction::new(OpCode::FAdd as u8, 3, 1, 2),
        Instruction::new(OpCode::FSub as u8, 4, 1, 2),
        Instruction::new(OpCode::FMul as u8, 5, 1, 2),
        Instruction::new(OpCode::FDiv as u8, 6, 1, 2),
        Instruction::new(OpCode::Halt as u8, 0, 0, 0),
    ];
    run_with_floats(&mut vm, &code).unwrap();
    assert_eq!(f32::from_bits(vm.registers[3]), 5.0f32);
    assert_eq!(f32::from_bits(vm.registers[4]), 2.0f32);
    assert_eq!(f32::from_bits(vm.registers[5]), 5.25f32);
    assert_eq!(f32::from_bits(vm.registers[6]), 3.5 / 1.5);
}

#[test]
fn float_division_by_zero_and_vectors() {
    let mut vm = ScriptVm::new();
    vm.registers[1] = 1.0f32.to_bits();
    vm.registers[2] = 0.0f32.to_bits();
    let code = [Instruction::new(OpCode::FDiv as u8, 3, 1, 2)];
    assert_eq!(run_with_floats(&mut vm, &code), Err(VmError::DivideByZero { pc: 0 }));

    let mut vm = ScriptVm::new();
    for (i, v) in [1.0f32, 2.0, 3.0, 4.0, 5.0, 6.0].iter().enumerate() {
        vm.write_bytes(100 + 4 * i, &v.to_le_bytes()).unwrap();
    }
    vm.registers[0] = 3;
    vm.registers[1] = 200;
    vm.registers[2] = 100;
    vm.registers[3] = 112;
    let code = [
        Instruction::new(OpCode::VecAdd as u8, 1, 2, 3),
        Instruction::new(OpCode::VecDot as u8, 7, 2, 3),
        Instruction::new(OpCode::Halt as u8, 0, 0, 0),
    ];
    run_with_floats(&mut vm, &code).unwrap();
    let sums = vm.read_bytes(200, 12, false).unwrap();
    assert_eq!(f32::from_le_bytes([sums[0], sums[1], sums[2], sums[3]]), 5.0);
    assert_eq!(f32::from_le_bytes([sums[8], sums[9], sums[10], sums[11]]), 9.0);
    assert_eq!(f32::from_bits(vm.registers[7]), 32.0);
}

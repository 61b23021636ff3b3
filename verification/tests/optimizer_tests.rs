use script_go::compiler::ir::{BasicBlock, FunctionIR, Instruction, Op, ValueId};
use script_go::compiler::optimizer::Optimizer;

fn inst(id: usize, op: Op) -> Instruction {
    Instruction { id: ValueId(id), op }
}

fn one_block(insts: Vec<Instruction>) -> FunctionIR {
    let mut f = FunctionIR::new(String::from("main"));
    f.blocks.push(BasicBlock { id: 0, insts, successors: Vec::new() });
    f
}

#[test]
fn folds_constants_and_drops_dead_values() {
    let mut f = one_block(vec![
        inst(0, Op::LoadImm(2)),
        inst(1, Op::LoadImm(3)),
        inst(2, Op::Add(ValueId(0), ValueId(1))),
        inst(3, Op::Return(Some(ValueId(2)))),
    ]);
    Optimizer::optimize(&mut f);
    let insts = &f.blocks[0].insts;
    assert_eq!(insts.len(), 2);
    assert_eq!(insts[0].id, ValueId(2));
    assert_eq!(insts[0].op, Op::LoadImm(5));
    assert_eq!(insts[1].op, Op::Return(Some(ValueId(2))));
    assert_eq!(f.name, "main");
}

#[test]
fn division_truncates_and_zero_divisor_stays() {
    let mut f = one_block(vec![
        inst(0, Op::LoadImm(-7)),
        inst(1, Op::LoadImm(2)),
        inst(2, Op::Div(ValueId(0), ValueId(1))),
        inst(3, Op::LoadImm(0)),
        inst(4, Op::Div(ValueId(0), ValueId(3))),
        inst(5, Op::Call(String::from("print"), vec![ValueId(2), ValueId(4)])),
    ]);
    Optimizer::optimize(&mut f);
    let insts = &f.blocks[0].insts;
    assert_eq!(insts.len(), 5);
    assert_eq!(insts[1].op, Op::LoadImm(-3));
    assert_eq!(insts[3].op, Op::Div(ValueId(0), ValueId(3)));
}

#[test]
fn constants_carry_across_blocks() {
    let mut f = one_block(vec![
        inst(0, Op::LoadImm(100)),
        inst(1, Op::LoadImm(7)),
    ]);
    f.blocks.push(BasicBlock {
        id: 1,
        insts: vec![
            inst(2, Op::Add(ValueId(0), ValueId(1))),
            inst(3, Op::Mul(ValueId(2), ValueId(1))),
            inst(4, Op::Sub(ValueId(3), ValueId(1))),
            inst(5, Op::Return(Some(ValueId(4)))),
        ],
        successors: Vec::new(),
    });
    Optimizer::optimize(&mut f);
    assert!(f.blocks[0].insts.is_empty());
    let insts = &f.blocks[1].insts;
    assert_eq!(insts.len(), 2);
    assert_eq!(insts[0].op, Op::LoadImm(742));
    assert_eq!(insts[1].op, Op::Return(Some(ValueId(4))));
    assert_eq!(f.blocks[1].id, 1);
}

#[test]
fn unknown_operands_are_left_alone() {
    let mut f = one_block(vec![
        inst(0, Op::VarLoad(String::from("x"))),
        inst(1, Op::LoadImm(1)),
        inst(2, Op::Add(ValueId(0), ValueId(1))),
        inst(3, Op::Return(Some(ValueId(2)))),
        inst(4, Op::Yield),
    ]);
    Optimizer::optimize(&mut f);
    let insts = &f.blocks[0].insts;
    assert_eq!(insts.len(), 4);
    assert_eq!(insts[2].op, Op::Add(ValueId(0), ValueId(1)));
}

#[test]
fn try_optimize_refuses_overflowing_folds() {
    let mut f = one_block(vec![
        inst(0, Op::LoadImm(i64::MAX)),
        inst(1, Op::LoadImm(1)),
        inst(2, Op::Add(ValueId(0), ValueId(1))),
        inst(3, Op::Return(Some(ValueId(2)))),
    ]);
    assert!(!Optimizer::try_optimize(&mut f));
    assert_eq!(f.blocks[0].insts.len(), 4);
    assert_eq!(f.blocks[0].insts[2].op, Op::Add(ValueId(0), ValueId(1)));
    let mut g = one_block(vec![
        inst(0, Op::LoadImm(i64::MIN)),
        inst(1, Op::LoadImm(-1)),
        inst(2, Op::Div(ValueId(0), ValueId(1))),
        inst(3, Op::Return(Some(ValueId(2)))),
    ]);
    assert!(!Optimizer::try_optimize(&mut g));
    let mut h = one_block(vec![
        inst(0, Op::LoadImm(6)),
        inst(1, Op::LoadImm(7)),
        inst(2, Op::Mul(ValueId(0), ValueId(1))),
        inst(3, Op::Return(Some(ValueId(2)))),
    ]);
    assert!(Optimizer::try_optimize(&mut h));
    assert_eq!(h.blocks[0].insts[0].op, Op::LoadImm(42));
}

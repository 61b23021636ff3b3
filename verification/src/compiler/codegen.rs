use vstd::prelude::*;
use crate::compiler::ast::{BinaryOperator, Expr, ExprV, Statement, StmtV, Program, exprs_view, stmts_view};
use crate::compiler::ir::{ValueId, Op, OpV, Instruction, InstV, BasicBlock, FunctionIR, FuncV, insts_view};
use crate::instruction::{Instruction as VmInst, OpCode, encode, lemma_decode_encode};
use crate::text::{str_eq, push_str, string_from_chars};
use crate::vm::{VmState, VmConfig, exec_core, lemma_arithmetic_semantics, lemma_compare_and_jump_semantics};

verus! {

/// Why code generation stops: `Some` with the message it reports, or `None`
/// where it indexes an argument that a call does not have or runs out of
/// value or block numbers (a panic in an unchecked build).
pub type GenFail = Option<Seq<char>>;

/// The debug text (`{:?}`) of a statement.
pub uninterp spec fn statement_debug(s: StmtV) -> Seq<char>;

/// The derived `Debug` text of a statement, formatted with `format!`.
#[verifier::external_body]
fn statement_debug_text(s: &Statement) -> (r: String)
    ensures
        r@ == statement_debug(s@),
{
    format!("{:?}", s)
}

/// The message for a statement that code generation does not support.
fn unsupported_statement(s: &Statement) -> (r: String)
    ensures
        r@ == "Statement not supported yet: "@ + statement_debug(s@),
{
    let mut out: Vec<char> = Vec::new();
    push_str(&mut out, "Statement not supported yet: ");
    let d = statement_debug_text(s);
    push_str(&mut out, d.as_str());
    string_from_chars(&out)
}

/// The value that the next allocation gets.
pub open spec fn fresh(f: FuncV) -> ValueId {
    ValueId(f.next as usize)
}

/// Allocates a value and appends an instruction defining it to block `b`.
pub open spec fn push_inst(f: FuncV, b: int, op: OpV) -> Result<(FuncV, ValueId), GenFail> {
    if f.next >= usize::MAX {
        Err(None)
    } else {
        Ok(
            (
                FuncV {
                    blocks: f.blocks.update(b, f.blocks[b].push(InstV { id: fresh(f), op })),
                    next: f.next + 1,
                },
                fresh(f),
            ),
        )
    }
}

/// Appends an empty block; its index is the old number of blocks.
pub open spec fn new_block(f: FuncV) -> Result<FuncV, GenFail> {
    if f.blocks.len() >= usize::MAX {
        Err(None)
    } else {
        Ok(FuncV { blocks: f.blocks.push(Seq::empty()), next: f.next })
    }
}

/// The operation of a binary operator on two values.
pub open spec fn bin_op(op: BinaryOperator, l: ValueId, r: ValueId) -> OpV {
    match op {
        BinaryOperator::Add => OpV::Add(l, r),
        BinaryOperator::Sub => OpV::Sub(l, r),
        BinaryOperator::Mul => OpV::Mul(l, r),
        BinaryOperator::Div => OpV::Div(l, r),
        BinaryOperator::Mod => OpV::Mod(l, r),
        BinaryOperator::Eq => OpV::Eq(l, r),
        BinaryOperator::Ne => OpV::Ne(l, r),
        BinaryOperator::Lt => OpV::Lt(l, r),
        BinaryOperator::Gt => OpV::Gt(l, r),
        BinaryOperator::Le => OpV::Le(l, r),
        BinaryOperator::Ge => OpV::Ge(l, r),
        BinaryOperator::And => OpV::And(l, r),
        BinaryOperator::Or => OpV::Or(l, r),
    }
}

/// The IR of an expression appended to block `b`, and the value holding its
/// result. Literals, names, operators, calls and the macros `spawn!` (of an
/// integer literal), `await!` and `yield!` are supported.
pub open spec fn expr_ir(e: ExprV, f: FuncV, b: int) -> Result<(FuncV, ValueId), GenFail>
    decreases e,
{
    match e {
        ExprV::IntLiteral(v) => push_inst(f, b, OpV::LoadImm(v)),
        ExprV::Identifier(n) => push_inst(f, b, OpV::VarLoad(n)),
        ExprV::BinaryOp(l, op, r) => match expr_ir(*l, f, b) {
            Err(m) => Err(m),
            Ok((f1, lv)) => match expr_ir(*r, f1, b) {
                Err(m) => Err(m),
                Ok((f2, rv)) => push_inst(f2, b, bin_op(op, lv, rv)),
            },
        },
        ExprV::Call(n, args) => match args_ir(args, f, b) {
            Err(m) => Err(m),
            Ok((f1, ids)) => push_inst(f1, b, OpV::Call(n, ids)),
        },
        ExprV::MacroCall(n, args) => if n == "spawn"@ {
            if args.len() > 0 && args[0] is IntLiteral {
                push_inst(f, b, OpV::Spawn(args[0]->IntLiteral_0 as u16))
            } else {
                Err(Some("spawn! requires an integer literal for target PC"@))
            }
        } else if n == "await"@ {
            if args.len() == 0 {
                Err(None)
            } else {
                match expr_ir(args[0], f, b) {
                    Err(m) => Err(m),
                    Ok((f1, t)) => push_inst(f1, b, OpV::Await(t)),
                }
            }
        } else if n == "yield"@ {
            push_inst(f, b, OpV::Yield)
        } else {
            match args_ir(args, f, b) {
                Err(m) => Err(m),
                Ok((f1, ids)) => push_inst(f1, b, OpV::MacroCall(n, ids)),
            }
        },
        _ => Err(Some("Expression not supported in Phase 3"@)),
    }
}

/// The IR of call arguments, left to right, and their values.
pub open spec fn args_ir(args: Seq<ExprV>, f: FuncV, b: int) -> Result<(FuncV, Seq<ValueId>), GenFail>
    decreases args,
{
    if args.len() == 0 {
        Ok((f, Seq::empty()))
    } else {
        match args_ir(args.subrange(0, args.len() - 1), f, b) {
            Err(m) => Err(m),
            Ok((f1, ids)) => match expr_ir(args[args.len() - 1], f1, b) {
                Err(m) => Err(m),
                Ok((f2, v)) => Ok((f2, ids.push(v))),
            },
        }
    }
}

/// The IR of a statement whose code starts in block `cur`, and the block
/// where the code after it goes. Declarations, assignments, expression
/// statements, `while` and `if` are supported.
pub open spec fn stmt_ir(s: StmtV, f: FuncV, cur: int) -> Result<(FuncV, int), GenFail>
    decreases s,
{
    match s {
        StmtV::LetDecl(name, _, e) => match expr_ir(e, f, cur) {
            Err(m) => Err(m),
            Ok((f1, v)) => match push_inst(f1, cur, OpV::VarStore(name, v)) {
                Err(m) => Err(m),
                Ok((f2, _)) => Ok((f2, cur)),
            },
        },
        StmtV::Assign(name, e) => match expr_ir(e, f, cur) {
            Err(m) => Err(m),
            Ok((f1, v)) => match push_inst(f1, cur, OpV::VarStore(name, v)) {
                Err(m) => Err(m),
                Ok((f2, _)) => Ok((f2, cur)),
            },
        },
        StmtV::ExprStmt(e) => match expr_ir(e, f, cur) {
            Err(m) => Err(m),
            Ok((f1, _)) => Ok((f1, cur)),
        },
        StmtV::While(c, body) => {
            let cb = f.blocks.len() as int;
            match new_block(f) {
                Err(m) => Err(m),
                Ok(f1) => match new_block(f1) {
                    Err(m) => Err(m),
                    Ok(f2) => match new_block(f2) {
                        Err(m) => Err(m),
                        Ok(f3) => match push_inst(f3, cur, OpV::Jmp(cb as usize)) {
                            Err(m) => Err(m),
                            Ok((f4, _)) => match expr_ir(c, f4, cb) {
                                Err(m) => Err(m),
                                Ok((f5, cv)) => match push_inst(
                                    f5,
                                    cb,
                                    OpV::JmpIf(cv, (cb + 1) as usize, (cb + 2) as usize),
                                ) {
                                    Err(m) => Err(m),
                                    Ok((f6, _)) => match stmts_ir(body, f6, cb + 1) {
                                        Err(m) => Err(m),
                                        Ok((f7, bc)) => match push_inst(f7, bc, OpV::Jmp(cb as usize)) {
                                            Err(m) => Err(m),
                                            Ok((f8, _)) => Ok((f8, cb + 2)),
                                        },
                                    },
                                },
                            },
                        },
                    },
                },
            }
        },
        StmtV::If(c, then_b, else_b) => match expr_ir(c, f, cur) {
            Err(m) => Err(m),
            Ok((f1, cv)) => {
                let tb = f1.blocks.len() as int;
                match new_block(f1) {
                    Err(m) => Err(m),
                    Ok(f2) => match new_block(f2) {
                        Err(m) => Err(m),
                        Ok(f3) => match new_block(f3) {
                            Err(m) => Err(m),
                            Ok(f4) => match push_inst(
                                f4,
                                cur,
                                OpV::JmpIf(cv, tb as usize, (tb + 1) as usize),
                            ) {
                                Err(m) => Err(m),
                                Ok((f5, _)) => match stmts_ir(then_b, f5, tb) {
                                    Err(m) => Err(m),
                                    Ok((f6, tc)) => match push_inst(f6, tc, OpV::Jmp((tb + 2) as usize)) {
                                        Err(m) => Err(m),
                                        Ok((f7, _)) => match stmts_ir(else_b, f7, tb + 1) {
                                            Err(m) => Err(m),
                                            Ok((f8, ec)) => match push_inst(
                                                f8,
                                                ec,
                                                OpV::Jmp((tb + 2) as usize),
                                            ) {
                                                Err(m) => Err(m),
                                                Ok((f9, _)) => Ok((f9, tb + 2)),
                                            },
                                        },
                                    },
                                },
                            },
                        },
                    },
                }
            },
        },
        _ => Err(Some("Statement not supported yet: "@ + statement_debug(s))),
    }
}

/// The IR of statements in order from block `cur` on.
pub open spec fn stmts_ir(ss: Seq<StmtV>, f: FuncV, cur: int) -> Result<(FuncV, int), GenFail>
    decreases ss,
{
    if ss.len() == 0 {
        Ok((f, cur))
    } else {
        match stmts_ir(ss.subrange(0, ss.len() - 1), f, cur) {
            Err(m) => Err(m),
            Ok((f1, c1)) => stmt_ir(ss[ss.len() - 1], f1, c1),
        }
    }
}

/// The IR of a program: a function with one block to start from.
pub open spec fn program_ir(ss: Seq<StmtV>) -> Result<FuncV, GenFail> {
    match stmts_ir(ss, FuncV { blocks: seq![Seq::empty()], next: 0 }, 0) {
        Err(m) => Err(m),
        Ok((f, _)) => Ok(f),
    }
}

/// The mathematical value of a failure of code generation.
pub open spec fn fail_view(e: Option<String>) -> GenFail {
    match e {
        Some(m) => Some(m@),
        None => None,
    }
}

/// Allocates a value and appends an instruction defining it to block `b`.
fn append(func: &mut FunctionIR, b: usize, op: Op) -> (r: Result<ValueId, Option<String>>)
    requires
        old(func).wf(),
        b < old(func).blocks@.len(),
    ensures
        final(func).wf(),
        match push_inst(old(func)@, b as int, op@) {
            Ok((f2, v)) => r == Ok::<ValueId, Option<String>>(v) && final(func)@ =~~= f2
                && final(func).blocks@.len() == old(func).blocks@.len(),
            Err(m) => r is Err && fail_view(r->Err_0) == m,
        },
{
    if func.next_value_id == usize::MAX {
        return Err(None);
    }
    let id = func.alloc_val();
    let mut blk = BasicBlock { id: 0, insts: Vec::new(), successors: Vec::new() };
    func.blocks.set_and_swap(b, &mut blk);
    let ghost opv = op@;
    blk.insts.push(Instruction { id, op });
    func.blocks.set_and_swap(b, &mut blk);
    proof {
        assert(insts_view(func.blocks@[b as int].insts@) =~~= insts_view(old(func).blocks@[b as int].insts@).push(
            InstV { id, op: opv },
        ));
    }
    Ok(id)
}

/// Appends an empty block and returns its index.
fn add_block(func: &mut FunctionIR) -> (r: Result<usize, Option<String>>)
    requires
        old(func).wf(),
    ensures
        final(func).wf(),
        match new_block(old(func)@) {
            Ok(f2) => r == Ok::<usize, Option<String>>(old(func).blocks@.len() as usize) && final(func)@ =~~= f2
                && final(func).blocks@.len() == old(func).blocks@.len() + 1,
            Err(m) => r is Err && fail_view(r->Err_0) == m,
        },
{
    let id = func.blocks.len();
    if id == usize::MAX {
        return Err(None);
    }
    func.blocks.push(BasicBlock { id, insts: Vec::new(), successors: Vec::new() });
    proof {
        assert(insts_view(func.blocks@[id as int].insts@) =~~= Seq::<InstV>::empty());
    }
    Ok(id)
}

fn bin_ir(op: BinaryOperator, l: ValueId, r: ValueId) -> (o: Op)
    ensures
        o@ == bin_op(op, l, r),
{
    match op {
        BinaryOperator::Add => Op::Add(l, r),
        BinaryOperator::Sub => Op::Sub(l, r),
        BinaryOperator::Mul => Op::Mul(l, r),
        BinaryOperator::Div => Op::Div(l, r),
        BinaryOperator::Mod => Op::Mod(l, r),
        BinaryOperator::Eq => Op::Eq(l, r),
        BinaryOperator::Ne => Op::Ne(l, r),
        BinaryOperator::Lt => Op::Lt(l, r),
        BinaryOperator::Gt => Op::Gt(l, r),
        BinaryOperator::Le => Op::Le(l, r),
        BinaryOperator::Ge => Op::Ge(l, r),
        BinaryOperator::And => Op::And(l, r),
        BinaryOperator::Or => Op::Or(l, r),
    }
}

/// Lowers an expression into block `b` and returns the value of its result.
fn expr_to_ir(expr: &Expr, func: &mut FunctionIR, b: usize) -> (r: Result<ValueId, Option<String>>)
    requires
        old(func).wf(),
        b < old(func).blocks@.len(),
    ensures
        final(func).wf(),
        match expr_ir(expr@, old(func)@, b as int) {
            Ok((f2, v)) => r == Ok::<ValueId, Option<String>>(v) && final(func)@ =~~= f2
                && final(func).blocks@.len() == old(func).blocks@.len(),
            Err(m) => r is Err && fail_view(r->Err_0) == m,
        },
    decreases expr@, 1int,
{
    match expr {
        Expr::IntLiteral(v) => append(func, b, Op::LoadImm(*v)),
        Expr::Identifier(n) => append(func, b, Op::VarLoad(n.clone())),
        Expr::BinaryOp(l, op, r) => {
            let lv = expr_to_ir(l, func, b)?;
            let rv = expr_to_ir(r, func, b)?;
            append(func, b, bin_ir(*op, lv, rv))
        },
        Expr::Call(n, args) => {
            let ids = args_to_ir(expr, args, func, b)?;
            append(func, b, Op::Call(n.clone(), ids))
        },
        Expr::MacroCall(n, args) => {
            if args.len() > 0 {
                proof {
                    assert(exprs_view(args@)[0] == args@[0]@);
                }
            }
            if str_eq(n.as_str(), "spawn") {
                if args.len() > 0 {
                    if let Expr::IntLiteral(pc) = &args[0] {
                        return append(func, b, Op::Spawn(*pc as u16));
                    }
                }
                return Err(Some(String::from_str("spawn! requires an integer literal for target PC")));
            } else if str_eq(n.as_str(), "await") {
                if args.len() == 0 {
                    return Err(None);
                }
                proof {
                    assert(exprs_view(args@)[0] == args@[0]@);
                }
                let t = expr_to_ir(&args[0], func, b)?;
                return append(func, b, Op::Await(t));
            } else if str_eq(n.as_str(), "yield") {
                return append(func, b, Op::Yield);
            }
            let ids = args_to_ir(expr, args, func, b)?;
            append(func, b, Op::MacroCall(n.clone(), ids))
        },
        _ => Err(Some(String::from_str("Expression not supported in Phase 3"))),
    }
}

/// Lowers the arguments of the call `call` left to right.
fn args_to_ir(call: &Expr, args: &Vec<Expr>, func: &mut FunctionIR, b: usize) -> (r: Result<Vec<ValueId>, Option<String>>)
    requires
        old(func).wf(),
        b < old(func).blocks@.len(),
        call is Call || call is MacroCall,
        call is Call ==> call->Call_1 == args,
        call is MacroCall ==> call->MacroCall_1 == args,
    ensures
        final(func).wf(),
        match args_ir(exprs_view(args@), old(func)@, b as int) {
            Ok((f2, ids)) => r is Ok && r->Ok_0@ == ids && final(func)@ =~~= f2
                && final(func).blocks@.len() == old(func).blocks@.len(),
            Err(m) => r is Err && fail_view(r->Err_0) == m,
        },
    decreases call@, 0int,
{
    let ghost av = exprs_view(args@);
    let mut ids: Vec<ValueId> = Vec::new();
    let mut i: usize = 0;
    proof {
        assert(av.subrange(0, 0) =~= Seq::<ExprV>::empty());
        let cv = call@;
        if call is Call {
            assert(cv == ExprV::Call(call->Call_0@, av));
            assert(decreases_to!(cv => cv->Call_1));
        } else {
            assert(cv == ExprV::MacroCall(call->MacroCall_0@, av));
            assert(decreases_to!(cv => cv->MacroCall_1));
        }
    }
    while i < args.len()
        invariant
            func.wf(),
            b < func.blocks@.len(),
            func.blocks@.len() == old(func).blocks@.len(),
            i <= args@.len(),
            av == exprs_view(args@),
            av.len() == args@.len(),
            decreases_to!(call@ => av),
            args_ir(av.subrange(0, i as int), old(func)@, b as int) matches Ok((fx, idsx)) && func@
                =~~= fx && ids@ == idsx,
        decreases args@.len() - i,
    {
        proof {
            assert(av[i as int] == args@[i as int]@);
            assert(av.subrange(0, i + 1).subrange(0, i as int) =~= av.subrange(0, i as int));
            assert(decreases_to!(av => av[i as int]));
        }
        let v = match expr_to_ir(&args[i], func, b) {
            Ok(v) => v,
            Err(e) => {
                proof {
                    lemma_args_ir_prefix_fail(av, old(func)@, b as int, i + 1);
                }
                return Err(e);
            },
        };
        ids.push(v);
        i = i + 1;
    }
    proof {
        assert(av.subrange(0, args@.len() as int) =~= av);
    }
    Ok(ids)
}

/// When the arguments up to `k` fail, all of them fail the same way.
pub proof fn lemma_args_ir_prefix_fail(args: Seq<ExprV>, f: FuncV, b: int, k: int)
    requires
        0 <= k <= args.len(),
        args_ir(args.subrange(0, k), f, b) is Err,
    ensures
        args_ir(args, f, b) == args_ir(args.subrange(0, k), f, b),
    decreases args.len() - k,
{
    if k < args.len() {
        let longer = args.subrange(0, k + 1);
        assert(longer.subrange(0, longer.len() - 1) =~= args.subrange(0, k));
        lemma_args_ir_prefix_fail(args, f, b, k + 1);
    } else {
        assert(args.subrange(0, k) =~= args);
    }
}

/// When the statements up to `k` fail, all of them fail the same way.
pub proof fn lemma_stmts_ir_prefix_fail(ss: Seq<StmtV>, f: FuncV, cur: int, k: int)
    requires
        0 <= k <= ss.len(),
        stmts_ir(ss.subrange(0, k), f, cur) is Err,
    ensures
        stmts_ir(ss, f, cur) == stmts_ir(ss.subrange(0, k), f, cur),
    decreases ss.len() - k,
{
    if k < ss.len() {
        let longer = ss.subrange(0, k + 1);
        assert(longer.subrange(0, longer.len() - 1) =~= ss.subrange(0, k));
        lemma_stmts_ir_prefix_fail(ss, f, cur, k + 1);
    } else {
        assert(ss.subrange(0, k) =~= ss);
    }
}

/// Lowers a statement whose code starts in block `cur`; returns the block
/// where the code after it goes.
fn stmt_to_ir(stmt: &Statement, func: &mut FunctionIR, cur: usize) -> (r: Result<usize, Option<String>>)
    requires
        old(func).wf(),
        cur < old(func).blocks@.len(),
    ensures
        final(func).wf(),
        match stmt_ir(stmt@, old(func)@, cur as int) {
            Ok((f2, c2)) => r == Ok::<usize, Option<String>>(c2 as usize) && final(func)@ =~~= f2
                && 0 <= c2 < final(func).blocks@.len() && old(func).blocks@.len() <= final(func).blocks@.len(),
            Err(m) => r is Err && fail_view(r->Err_0) == m,
        },
    decreases stmt@, 1int,
{
    match stmt {
        Statement::LetDecl(name, _, e) => {
            let v = expr_to_ir(e, func, cur)?;
            append(func, cur, Op::VarStore(name.clone(), v))?;
            Ok(cur)
        },
        Statement::Assign(name, e) => {
            let v = expr_to_ir(e, func, cur)?;
            append(func, cur, Op::VarStore(name.clone(), v))?;
            Ok(cur)
        },
        Statement::ExprStmt(e) => {
            expr_to_ir(e, func, cur)?;
            Ok(cur)
        },
        Statement::While(c, body) => {
            let cb = add_block(func)?;
            let bb = add_block(func)?;
            let eb = add_block(func)?;
            append(func, cur, Op::Jmp(cb))?;
            let cv = expr_to_ir(c, func, cb)?;
            append(func, cb, Op::JmpIf(cv, bb, eb))?;
            proof {
                let sv = stmt@;
                assert(sv == StmtV::While(c@, stmts_view(body@)));
                assert(decreases_to!(sv => sv->While_1));
            }
            let bc = stmts_to_ir(stmt, body, func, bb)?;
            append(func, bc, Op::Jmp(cb))?;
            Ok(eb)
        },
        Statement::If(c, then_b, else_b) => {
            let cv = expr_to_ir(c, func, cur)?;
            let tb = add_block(func)?;
            let elb = add_block(func)?;
            let endb = add_block(func)?;
            append(func, cur, Op::JmpIf(cv, tb, elb))?;
            proof {
                let sv = stmt@;
                assert(sv == StmtV::If(c@, stmts_view(then_b@), stmts_view(else_b@)));
                assert(decreases_to!(sv => sv->If_1));
                assert(decreases_to!(sv => sv->If_2));
            }
            let tc = stmts_to_ir(stmt, then_b, func, tb)?;
            append(func, tc, Op::Jmp(endb))?;
            let ec = stmts_to_ir(stmt, else_b, func, elb)?;
            append(func, ec, Op::Jmp(endb))?;
            Ok(endb)
        },
        _ => Err(Some(unsupported_statement(stmt))),
    }
}

/// Lowers the statements of a block of `owner` in order from block `cur` on.
fn stmts_to_ir(owner: &Statement, ss: &Vec<Statement>, func: &mut FunctionIR, cur: usize) -> (r: Result<usize, Option<String>>)
    requires
        old(func).wf(),
        cur < old(func).blocks@.len(),
        decreases_to!(owner@ => stmts_view(ss@)),
    ensures
        final(func).wf(),
        match stmts_ir(stmts_view(ss@), old(func)@, cur as int) {
            Ok((f2, c2)) => r == Ok::<usize, Option<String>>(c2 as usize) && final(func)@ =~~= f2
                && 0 <= c2 < final(func).blocks@.len() && old(func).blocks@.len() <= final(func).blocks@.len(),
            Err(m) => r is Err && fail_view(r->Err_0) == m,
        },
    decreases owner@, 0int,
{
    let ghost sv = stmts_view(ss@);
    let mut c = cur;
    let mut i: usize = 0;
    proof {
        assert(sv.subrange(0, 0) =~= Seq::<StmtV>::empty());
    }
    while i < ss.len()
        invariant
            func.wf(),
            c < func.blocks@.len(),
            old(func).blocks@.len() <= func.blocks@.len(),
            i <= ss@.len(),
            sv == stmts_view(ss@),
            sv.len() == ss@.len(),
            decreases_to!(owner@ => sv),
            stmts_ir(sv.subrange(0, i as int), old(func)@, cur as int) matches Ok((fx, cx)) && func@
                =~~= fx && c == cx,
        decreases ss@.len() - i,
    {
        proof {
            assert(sv[i as int] == ss@[i as int]@);
            assert(sv.subrange(0, i + 1).subrange(0, i as int) =~= sv.subrange(0, i as int));
            assert(decreases_to!(sv => sv[i as int]));
        }
        c = match stmt_to_ir(&ss[i], func, c) {
            Ok(c2) => c2,
            Err(e) => {
                proof {
                    lemma_stmts_ir_prefix_fail(sv, old(func)@, cur as int, i + 1);
                }
                return Err(e);
            },
        };
        i = i + 1;
    }
    proof {
        assert(sv.subrange(0, ss@.len() as int) =~= sv);
    }
    Ok(c)
}

/// The state of lowering IR to machine code: the next register (counting
/// up), whether the counter has run past 255 (where code generation
/// cannot go on), the register of each value (0 for a value without
/// one), the register of each variable in the order they got one, the code
/// so far and the jumps to patch once the blocks' addresses are known (the
/// index of the jump, its target block and whether it is conditional).
#[verifier::ext_equal]
pub struct LowerState {
    pub counter: u8,
    pub overflowed: bool,
    pub regs: Seq<u8>,
    pub vars: Seq<(Seq<char>, u8)>,
    pub code: Seq<VmInst>,
    pub patches: Seq<(usize, usize, bool)>,
}

/// The machine instruction with an opcode and three operand bytes.
pub open spec fn vm_inst(op: OpCode, a: u8, b: u8, c: u8) -> VmInst {
    VmInst(encode(op.spec_code(), a, b, c))
}

/// The register of a value: 0 for a value without one.
pub open spec fn reg_of(st: LowerState, v: ValueId) -> u8 {
    if v.0 < st.regs.len() { st.regs[v.0 as int] } else { 0 }
}

/// `regs` with register `r` recorded for value `i`; values between get 0.
pub open spec fn set_reg(regs: Seq<u8>, i: usize, r: u8) -> Seq<u8> {
    if i < regs.len() {
        regs.update(i as int, r)
    } else {
        regs + Seq::new((i - regs.len()) as nat, |k: int| 0u8) + seq![r]
    }
}

/// The counter after handing out a register (past 255 it starts over, but
/// the compilation fails then).
pub open spec fn next_counter(c: u8) -> u8 {
    vstd::wrapping::u8_specs::wrapping_add(c, 1)
}

/// A fresh register.
pub open spec fn temp_reg(st: LowerState) -> (LowerState, u8) {
    (LowerState { counter: next_counter(st.counter), overflowed: st.overflowed || st.counter == 255, ..st }, st.counter)
}

/// A fresh register for value `v`.
pub open spec fn alloc_reg(st: LowerState, v: ValueId) -> (LowerState, u8) {
    (
        LowerState {
            counter: next_counter(st.counter),
            overflowed: st.overflowed || st.counter == 255,
            regs: set_reg(st.regs, v.0, st.counter),
            ..st
        },
        st.counter,
    )
}

/// The register of the first variable of that name.
pub open spec fn find_var(vars: Seq<(Seq<char>, u8)>, name: Seq<char>) -> Option<u8>
    decreases vars.len(),
{
    if vars.len() == 0 {
        None
    } else if vars[0].0 == name {
        Some(vars[0].1)
    } else {
        find_var(vars.subrange(1, vars.len() as int), name)
    }
}

/// The register of a variable, given a fresh one the first time.
pub open spec fn var_reg(st: LowerState, name: Seq<char>) -> (LowerState, u8) {
    match find_var(st.vars, name) {
        Some(r) => (st, r),
        None => (
            LowerState {
                counter: next_counter(st.counter),
                overflowed: st.overflowed || st.counter == 255,
                vars: st.vars.push((name, st.counter)),
                ..st
            },
            st.counter,
        ),
    }
}

pub open spec fn emit(st: LowerState, i: VmInst) -> LowerState {
    LowerState { code: st.code.push(i), ..st }
}

/// A value-defining operation on two values into a fresh register.
pub open spec fn lower_simple(st: LowerState, id: ValueId, op: OpCode, a: ValueId, b: ValueId) -> LowerState {
    let (st1, r) = alloc_reg(st, id);
    emit(st1, vm_inst(op, r, reg_of(st1, a), reg_of(st1, b)))
}

/// `1 - cmp(x, y)` into a fresh register, with the comparison `op` on the
/// registers `x` and `y` (swapped when `swap`).
pub open spec fn lower_negated(st: LowerState, id: ValueId, op: OpCode, a: ValueId, b: ValueId, swap: bool) -> LowerState {
    let (st1, r) = alloc_reg(st, id);
    let r1 = reg_of(st1, a);
    let r2 = reg_of(st1, b);
    let (st2, r_cmp) = temp_reg(st1);
    let (st3, r_one) = temp_reg(st2);
    let st4 = emit(st3, vm_inst(OpCode::LoadImm, r_one, 1, 0));
    let st5 = emit(st4, if swap { vm_inst(op, r_cmp, r2, r1) } else { vm_inst(op, r_cmp, r1, r2) });
    emit(st5, vm_inst(OpCode::Sub, r, r_one, r_cmp))
}

/// The machine code of a built-in call; `None` where it needs more arguments
/// than it has.
pub open spec fn lower_call(st: LowerState, id: ValueId, name: Seq<char>, args: Seq<ValueId>) -> Option<LowerState> {
    if name == "set_color"@ || name == "ui_call"@ {
        if args.len() < 3 {
            None
        } else {
            let op = if name == "set_color"@ { OpCode::SysCall } else { OpCode::UiCall };
            Some(emit(st, vm_inst(op, reg_of(st, args[0]), reg_of(st, args[1]), reg_of(st, args[2]))))
        }
    } else if name == "forward_pass"@ || name == "db_get_balance"@ || name == "db_get_status"@
        || name == "vector_add"@ {
        if args.len() < 1 {
            None
        } else {
            let op = if name == "forward_pass"@ { OpCode::NeuralCall } else { OpCode::HardwareCall };
            let c: u8 = if name == "db_get_status"@ {
                1
            } else if name == "vector_add"@ {
                2
            } else {
                0
            };
            Some(emit(st, vm_inst(op, reg_of(st, id), reg_of(st, args[0]), c)))
        }
    } else {
        Some(st)
    }
}

/// The machine code of a built-in macro call; `None` where it needs more
/// arguments than it has. Macros without a meaning of their own become a
/// system call with the number 153.
pub open spec fn lower_macro(st: LowerState, name: Seq<char>, args: Seq<ValueId>) -> Option<LowerState> {
    if name == "server.start"@ {
        if args.len() < 1 {
            None
        } else {
            let r_port = reg_of(st, args[0]);
            let (st1, r_id) = temp_reg(st);
            Some(emit(emit(st1, vm_inst(OpCode::LoadImm, r_id, 2, 0)), vm_inst(OpCode::SysCall, r_id, r_port, 0)))
        }
    } else if name == "db.filter"@ {
        if args.len() < 2 {
            None
        } else {
            Some(emit(st, vm_inst(OpCode::HardwareCall, 3, reg_of(st, args[0]), reg_of(st, args[1]))))
        }
    } else if name == "ui.render"@ {
        if args.len() < 1 {
            None
        } else {
            Some(emit(st, vm_inst(OpCode::UiCall, reg_of(st, args[0]), 0, 0)))
        }
    } else {
        let r_arg0 = if args.len() > 0 { reg_of(st, args[0]) } else { 0 };
        let (st1, r_id) = temp_reg(st);
        Some(emit(emit(st1, vm_inst(OpCode::LoadImm, r_id, 153, 0)), vm_inst(OpCode::SysCall, r_id, r_arg0, 0)))
    }
}

/// The machine code of one IR instruction; `None` where a call lacks an
/// argument that its lowering reads.
pub open spec fn lower_inst(st: LowerState, i: InstV) -> Option<LowerState> {
    let id = i.id;
    match i.op {
        OpV::LoadImm(v) => {
            let (st1, r) = alloc_reg(st, id);
            Some(
                emit(
                    st1,
                    if 0 <= v < 256 {
                        vm_inst(OpCode::LoadImm, r, v as u8, 0)
                    } else {
                        vm_inst(OpCode::LoadImm16, r, (v & 255) as u8, ((v >> 8u64) & 255) as u8)
                    },
                ),
            )
        },
        OpV::Add(a, b) => Some(lower_simple(st, id, OpCode::Add, a, b)),
        OpV::Sub(a, b) => Some(lower_simple(st, id, OpCode::Sub, a, b)),
        OpV::Mul(a, b) => Some(lower_simple(st, id, OpCode::Mul, a, b)),
        OpV::Div(a, b) => Some(lower_simple(st, id, OpCode::Div, a, b)),
        OpV::Mod(a, b) => Some(lower_simple(st, id, OpCode::Mod, a, b)),
        OpV::Eq(a, b) => Some(lower_simple(st, id, OpCode::CmpEq, a, b)),
        OpV::Lt(a, b) => Some(lower_simple(st, id, OpCode::CmpLt, a, b)),
        OpV::Gt(a, b) => Some(lower_simple(st, id, OpCode::CmpLt, b, a)),
        OpV::And(a, b) => Some(lower_simple(st, id, OpCode::And, a, b)),
        OpV::Or(a, b) => Some(lower_simple(st, id, OpCode::Or, a, b)),
        OpV::ShiftLeft(a, b) => Some(lower_simple(st, id, OpCode::Shl, a, b)),
        OpV::ShiftRight(a, b) => Some(lower_simple(st, id, OpCode::Shr, a, b)),
        OpV::Ne(a, b) => Some(lower_negated(st, id, OpCode::CmpEq, a, b, false)),
        OpV::Le(a, b) => Some(lower_negated(st, id, OpCode::CmpLt, a, b, true)),
        OpV::Ge(a, b) => Some(lower_negated(st, id, OpCode::CmpLt, a, b, false)),
        OpV::VarLoad(name) => {
            let (st1, r_dest) = alloc_reg(st, id);
            let (st2, r_src) = var_reg(st1, name);
            Some(emit(st2, vm_inst(OpCode::Add, r_dest, r_src, 0)))
        },
        OpV::VarStore(name, v) => {
            let (st1, r_dest) = var_reg(st, name);
            Some(emit(st1, vm_inst(OpCode::Add, r_dest, reg_of(st1, v), 0)))
        },
        OpV::Jmp(t) => Some(
            emit(
                LowerState { patches: st.patches.push((st.code.len() as usize, t, false)), ..st },
                vm_inst(OpCode::Jmp, 0, 0, 0),
            ),
        ),
        OpV::JmpIf(c, tb, fb) => {
            let r_cond = reg_of(st, c);
            let n = st.code.len();
            let st1 = LowerState {
                patches: st.patches.push((n as usize, fb, true)).push(((n + 1) as usize, tb, false)),
                ..st
            };
            Some(emit(emit(st1, vm_inst(OpCode::JmpIfZero, r_cond, 0, 0)), vm_inst(OpCode::Jmp, 0, 0, 0)))
        },
        OpV::Call(name, args) => lower_call(st, id, name, args),
        OpV::MacroCall(name, args) => lower_macro(st, name, args),
        OpV::Spawn(pc) => Some(
            emit(st, vm_inst(OpCode::Spawn, reg_of(st, id), (pc & 255) as u8, ((pc >> 8u16) & 255) as u8)),
        ),
        OpV::Await(t) => Some(emit(st, vm_inst(OpCode::Await, reg_of(st, id), reg_of(st, t), 0))),
        OpV::Yield => Some(emit(st, vm_inst(OpCode::Yield, 0, 0, 0))),
        OpV::Return(_) => Some(st),
    }
}

/// The machine code of a block's instructions in order.
pub open spec fn lower_insts(st: LowerState, is: Seq<InstV>) -> Option<LowerState>
    decreases is.len(),
{
    if is.len() == 0 {
        Some(st)
    } else {
        match lower_insts(st, is.subrange(0, is.len() - 1)) {
            None => None,
            Some(st1) => lower_inst(st1, is[is.len() - 1]),
        }
    }
}

/// The machine code of the blocks in order, and the address where each
/// block starts.
pub open spec fn lower_blocks(st: LowerState, bs: Seq<Seq<InstV>>) -> Option<(LowerState, Seq<usize>)>
    decreases bs.len(),
{
    if bs.len() == 0 {
        Some((st, Seq::empty()))
    } else {
        match lower_blocks(st, bs.subrange(0, bs.len() - 1)) {
            None => None,
            Some((st1, starts)) => match lower_insts(st1, bs[bs.len() - 1]) {
                None => None,
                Some(st2) => Some((st2, starts.push(st1.code.len() as usize))),
            },
        }
    }
}

/// The code with the jumps pointed at their blocks' addresses, in the order
/// they were recorded; a target that names no block fails.
pub open spec fn apply_patches(code: Seq<VmInst>, starts: Seq<usize>, ps: Seq<(usize, usize, bool)>) -> Result<Seq<VmInst>, Seq<char>>
    decreases ps.len(),
{
    if ps.len() == 0 {
        Ok(code)
    } else {
        match apply_patches(code, starts, ps.subrange(0, ps.len() - 1)) {
            Err(m) => Err(m),
            Ok(c1) => {
                let (idx, target, is_cond) = ps[ps.len() - 1];
                if target < starts.len() {
                    let pc = starts[target as int];
                    let low = (pc & 255) as u8;
                    let high = ((pc >> 8usize) & 255) as u8;
                    Ok(
                        c1.update(
                            idx as int,
                            if is_cond {
                                vm_inst(OpCode::JmpIfZero, c1[idx as int].spec_a() as u8, low, high)
                            } else {
                                vm_inst(OpCode::Jmp, 0, low, high)
                            },
                        ),
                    )
                } else {
                    Err("Failed to resolve jump target"@)
                }
            },
        }
    }
}

/// Lowering a function: its blocks in order, a `Halt`, then the jumps
/// patched. `None` where a call lacks an argument that its lowering reads.
pub open spec fn lower_function(st: LowerState, f: FuncV) -> Option<(LowerState, Result<Seq<VmInst>, Seq<char>>)> {
    match lower_blocks(st, f.blocks) {
        None => None,
        Some((st1, starts)) => {
            let code = st1.code.push(vm_inst(OpCode::Halt, 0, 0, 0));
            Some((st1, apply_patches(code, starts, st1.patches)))
        },
    }
}

/// The code generator: lowers a program to IR and the IR to machine code,
/// keeping the register of each value and variable across compilations.
pub struct CodeGen {
    vars_reg: Vec<(String, u8)>,
    vm_regs: Vec<u8>,
    reg_counter: u8,
    register_overflow: bool,
}

pub open spec fn vars_view(vs: Seq<(String, u8)>) -> Seq<(Seq<char>, u8)> {
    vs.map_values(|p: (String, u8)| (p.0@, p.1))
}

/// Every recorded jump points into the code.
pub open spec fn patches_in(code: Seq<VmInst>, ps: Seq<(usize, usize, bool)>) -> bool {
    forall|k: int| 0 <= k < ps.len() ==> (#[trigger] ps[k]).0 < code.len()
}

fn mk(op: OpCode, a: u8, b: u8, c: u8) -> (r: VmInst)
    ensures
        r == vm_inst(op, a, b, c),
{
    VmInst::new(op.code(), a, b, c)
}

impl CodeGen {
    /// The register state: the next register, the registers of values and of
    /// variables (with no code yet).
    pub closed spec fn state(&self) -> LowerState {
        LowerState {
            counter: self.reg_counter,
            overflowed: self.register_overflow,
            regs: self.vm_regs@,
            vars: vars_view(self.vars_reg@),
            code: Seq::empty(),
            patches: Seq::empty(),
        }
    }

    pub closed spec fn with_code(&self, code: Seq<VmInst>, ps: Seq<(usize, usize, bool)>) -> LowerState {
        LowerState { code: code, patches: ps, ..self.state() }
    }

    /// A generator with no registers handed out; register 0 stays free.
    pub fn new() -> (r: Self)
        ensures
            r.state() == (LowerState {
                counter: 1,
                overflowed: false,
                regs: Seq::empty(),
                vars: Seq::empty(),
                code: Seq::empty(),
                patches: Seq::empty(),
            }),
    {
        let r = Self { vars_reg: Vec::new(), vm_regs: Vec::new(), reg_counter: 1, register_overflow: false };
        proof {
            assert(vars_view(r.vars_reg@) =~= Seq::<(Seq<char>, u8)>::empty());
        }
        r
    }

    fn reg_of(&self, v: ValueId) -> (r: u8)
        ensures
            r == reg_of(self.state(), v),
    {
        if v.0 < self.vm_regs.len() {
            self.vm_regs[v.0]
        } else {
            0
        }
    }

    fn bump(&mut self) -> (r: u8)
        ensures
            r == old(self).reg_counter,
            final(self).reg_counter == next_counter(old(self).reg_counter),
            final(self).register_overflow == (old(self).register_overflow || old(self).reg_counter == 255),
            final(self).vm_regs == old(self).vm_regs,
            final(self).vars_reg == old(self).vars_reg,
    {
        let r = self.reg_counter;
        if self.reg_counter == 255 {
            self.register_overflow = true;
        }
        self.reg_counter = self.reg_counter.wrapping_add(1);
        r
    }

    fn alloc_reg(&mut self, v: ValueId) -> (r: u8)
        ensures
            (final(self).state(), r) == alloc_reg(old(self).state(), v),
    {
        let r = self.bump();
        let i = v.0;
        if i < self.vm_regs.len() {
            self.vm_regs.set(i, r);
        } else {
            let ghost base = self.vm_regs@;
            while self.vm_regs.len() < i
                invariant
                    base == old(self).vm_regs@,
                    base.len() <= self.vm_regs@.len() <= i,
                    self.vm_regs@ =~= base + Seq::new((self.vm_regs@.len() - base.len()) as nat, |k: int| 0u8),
                    self.reg_counter == next_counter(old(self).reg_counter),
                    self.register_overflow == (old(self).register_overflow || old(self).reg_counter == 255),
                    self.vars_reg == old(self).vars_reg,
                    r == old(self).reg_counter,
                decreases i - self.vm_regs@.len(),
            {
                self.vm_regs.push(0);
            }
            self.vm_regs.push(r);
        }
        proof {
            assert(self.state() =~~= alloc_reg(old(self).state(), v).0);
        }
        r
    }

    fn temp_reg(&mut self) -> (r: u8)
        ensures
            (final(self).state(), r) == temp_reg(old(self).state()),
    {
        let r = self.bump();
        proof {
            assert(self.state() =~~= temp_reg(old(self).state()).0);
        }
        r
    }

    fn var_reg(&mut self, name: &String) -> (r: u8)
        ensures
            (final(self).state(), r) == var_reg(old(self).state(), name@),
    {
        let ghost vs = vars_view(self.vars_reg@);
        let mut i: usize = 0;
        proof {
            assert(vs.subrange(0, vs.len() as int) =~= vs);
        }
        while i < self.vars_reg.len()
            invariant
                i <= self.vars_reg@.len(),
                vs == vars_view(self.vars_reg@),
                self == old(self),
                find_var(vs, name@) == find_var(vs.subrange(i as int, vs.len() as int), name@),
            decreases self.vars_reg@.len() - i,
        {
            let ghost rest = vs.subrange(i as int, vs.len() as int);
            proof {
                assert(rest[0] == vs[i as int]);
                assert(rest.subrange(1, rest.len() as int) =~= vs.subrange(i + 1, vs.len() as int));
            }
            if str_eq(self.vars_reg[i].0.as_str(), name.as_str()) {
                return self.vars_reg[i].1;
            }
            i = i + 1;
        }
        proof {
            assert(vs.subrange(i as int, vs.len() as int) =~= Seq::<(Seq<char>, u8)>::empty());
        }
        let r = self.bump();
        self.vars_reg.push((name.clone(), r));
        proof {
            assert(self.state() =~~= var_reg(old(self).state(), name@).0);
        }
        r
    }
}

impl CodeGen {
    fn lower_simple(&mut self, id: ValueId, op: OpCode, a: ValueId, b: ValueId, code: &mut Vec<VmInst>)
        ensures
            final(self).with_code(final(code)@, Seq::empty()) =~~= lower_simple(
                old(self).with_code(old(code)@, Seq::empty()),
                id,
                op,
                a,
                b,
            ),
    {
        let r = self.alloc_reg(id);
        let r1 = self.reg_of(a);
        let r2 = self.reg_of(b);
        code.push(mk(op, r, r1, r2));
    }

    fn lower_negated(&mut self, id: ValueId, op: OpCode, a: ValueId, b: ValueId, swap: bool, code: &mut Vec<VmInst>)
        ensures
            final(self).with_code(final(code)@, Seq::empty()) =~~= lower_negated(
                old(self).with_code(old(code)@, Seq::empty()),
                id,
                op,
                a,
                b,
                swap,
            ),
    {
        let r = self.alloc_reg(id);
        let r1 = self.reg_of(a);
        let r2 = self.reg_of(b);
        let r_cmp = self.temp_reg();
        let r_one = self.temp_reg();
        code.push(mk(OpCode::LoadImm, r_one, 1, 0));
        if swap {
            code.push(mk(op, r_cmp, r2, r1));
        } else {
            code.push(mk(op, r_cmp, r1, r2));
        }
        code.push(mk(OpCode::Sub, r, r_one, r_cmp));
    }

    fn lower_call(&mut self, id: ValueId, name: &String, args: &Vec<ValueId>, code: &mut Vec<VmInst>) -> (ok: bool)
        ensures
            match lower_call(old(self).with_code(old(code)@, Seq::empty()), id, name@, args@) {
                Some(st) => ok && final(self).with_code(final(code)@, Seq::empty()) =~~= st,
                None => !ok,
            },
    {
        let n = name.as_str();
        let set_color = str_eq(n, "set_color");
        if set_color || str_eq(n, "ui_call") {
            if args.len() < 3 {
                return false;
            }
            let op = if set_color { OpCode::SysCall } else { OpCode::UiCall };
            let r0 = self.reg_of(args[0]);
            let r1 = self.reg_of(args[1]);
            let r2 = self.reg_of(args[2]);
            code.push(mk(op, r0, r1, r2));
            return true;
        }
        let forward = str_eq(n, "forward_pass");
        let status = str_eq(n, "db_get_status");
        let vector = str_eq(n, "vector_add");
        if forward || str_eq(n, "db_get_balance") || status || vector {
            if args.len() < 1 {
                return false;
            }
            let op = if forward { OpCode::NeuralCall } else { OpCode::HardwareCall };
            let c: u8 = if status {
                1
            } else if vector {
                2
            } else {
                0
            };
            let rd = self.reg_of(id);
            let r0 = self.reg_of(args[0]);
            code.push(mk(op, rd, r0, c));
            return true;
        }
        true
    }

    fn lower_macro(&mut self, name: &String, args: &Vec<ValueId>, code: &mut Vec<VmInst>) -> (ok: bool)
        ensures
            match lower_macro(old(self).with_code(old(code)@, Seq::empty()), name@, args@) {
                Some(st) => ok && final(self).with_code(final(code)@, Seq::empty()) =~~= st,
                None => !ok,
            },
    {
        let n = name.as_str();
        if str_eq(n, "server.start") {
            if args.len() < 1 {
                return false;
            }
            let r_port = self.reg_of(args[0]);
            let r_id = self.temp_reg();
            code.push(mk(OpCode::LoadImm, r_id, 2, 0));
            code.push(mk(OpCode::SysCall, r_id, r_port, 0));
            true
        } else if str_eq(n, "db.filter") {
            if args.len() < 2 {
                return false;
            }
            let r0 = self.reg_of(args[0]);
            let r1 = self.reg_of(args[1]);
            code.push(mk(OpCode::HardwareCall, 3, r0, r1));
            true
        } else if str_eq(n, "ui.render") {
            if args.len() < 1 {
                return false;
            }
            let r0 = self.reg_of(args[0]);
            code.push(mk(OpCode::UiCall, r0, 0, 0));
            true
        } else {
            let r_arg0 = if args.len() > 0 { self.reg_of(args[0]) } else { 0 };
            let r_id = self.temp_reg();
            code.push(mk(OpCode::LoadImm, r_id, 153, 0));
            code.push(mk(OpCode::SysCall, r_id, r_arg0, 0));
            true
        }
    }

    /// Lowers one IR instruction; `false` where a call lacks an argument
    /// that its lowering reads.
    fn lower_inst(&mut self, inst: &Instruction, code: &mut Vec<VmInst>, patches: &mut Vec<(usize, usize, bool)>) -> (ok: bool)
        requires
            patches_in(old(code)@, old(patches)@),
        ensures
            ok ==> patches_in(final(code)@, final(patches)@),
            match lower_inst(old(self).with_code(old(code)@, old(patches)@), inst@) {
                Some(st) => ok && final(self).with_code(final(code)@, final(patches)@) =~~= st,
                None => !ok,
            },
    {
        proof {
            lemma_lower_inst_patches(old(self).with_code(old(code)@, old(patches)@), inst@);
        }
        let id = inst.id;
        match &inst.op {
            Op::LoadImm(v) => {
                let v = *v;
                let r = self.alloc_reg(id);
                if 0 <= v && v < 256 {
                    code.push(mk(OpCode::LoadImm, r, v as u8, 0));
                } else {
                    code.push(mk(OpCode::LoadImm16, r, (v & 255) as u8, ((v >> 8u64) & 255) as u8));
                }
                true
            },
            Op::Add(a, b) => {
                self.lower_simple(id, OpCode::Add, *a, *b, code);
                true
            },
            Op::Sub(a, b) => {
                self.lower_simple(id, OpCode::Sub, *a, *b, code);
                true
            },
            Op::Mul(a, b) => {
                self.lower_simple(id, OpCode::Mul, *a, *b, code);
                true
            },
            Op::Div(a, b) => {
                self.lower_simple(id, OpCode::Div, *a, *b, code);
                true
            },
            Op::Mod(a, b) => {
                self.lower_simple(id, OpCode::Mod, *a, *b, code);
                true
            },
            Op::Eq(a, b) => {
                self.lower_simple(id, OpCode::CmpEq, *a, *b, code);
                true
            },
            Op::Lt(a, b) => {
                self.lower_simple(id, OpCode::CmpLt, *a, *b, code);
                true
            },
            Op::Gt(a, b) => {
                self.lower_simple(id, OpCode::CmpLt, *b, *a, code);
                true
            },
            Op::And(a, b) => {
                self.lower_simple(id, OpCode::And, *a, *b, code);
                true
            },
            Op::Or(a, b) => {
                self.lower_simple(id, OpCode::Or, *a, *b, code);
                true
            },
            Op::ShiftLeft(a, b) => {
                self.lower_simple(id, OpCode::Shl, *a, *b, code);
                true
            },
            Op::ShiftRight(a, b) => {
                self.lower_simple(id, OpCode::Shr, *a, *b, code);
                true
            },
            Op::Ne(a, b) => {
                self.lower_negated(id, OpCode::CmpEq, *a, *b, false, code);
                true
            },
            Op::Le(a, b) => {
                self.lower_negated(id, OpCode::CmpLt, *a, *b, true, code);
                true
            },
            Op::Ge(a, b) => {
                self.lower_negated(id, OpCode::CmpLt, *a, *b, false, code);
                true
            },
            Op::VarLoad(name) => {
                let r_dest = self.alloc_reg(id);
                let r_src = self.var_reg(name);
                code.push(mk(OpCode::Add, r_dest, r_src, 0));
                true
            },
            Op::VarStore(name, v) => {
                let r_dest = self.var_reg(name);
                let r_src = self.reg_of(*v);
                code.push(mk(OpCode::Add, r_dest, r_src, 0));
                true
            },
            Op::Jmp(t) => {
                patches.push((code.len(), *t, false));
                code.push(mk(OpCode::Jmp, 0, 0, 0));
                true
            },
            Op::JmpIf(c, tb, fb) => {
                let r_cond = self.reg_of(*c);
                patches.push((code.len(), *fb, true));
                code.push(mk(OpCode::JmpIfZero, r_cond, 0, 0));
                patches.push((code.len(), *tb, false));
                code.push(mk(OpCode::Jmp, 0, 0, 0));
                true
            },
            Op::Call(name, args) => self.lower_call(id, name, args, code),
            Op::MacroCall(name, args) => self.lower_macro(name, args, code),
            Op::Spawn(pc) => {
                let pc = *pc;
                let rd = self.reg_of(id);
                code.push(mk(OpCode::Spawn, rd, (pc & 255) as u8, ((pc >> 8u16) & 255) as u8));
                true
            },
            Op::Await(t) => {
                let rd = self.reg_of(id);
                let rt = self.reg_of(*t);
                code.push(mk(OpCode::Await, rd, rt, 0));
                true
            },
            Op::Yield => {
                code.push(mk(OpCode::Yield, 0, 0, 0));
                true
            },
            Op::Return(_) => true,
        }
    }
}

/// Lowering an instruction only appends code, and every jump it records
/// points into the code.
pub proof fn lemma_lower_inst_patches(st: LowerState, i: InstV)
    requires
        patches_in(st.code, st.patches),
    ensures
        lower_inst(st, i) matches Some(st2) ==> patches_in(st2.code, st2.patches) && st.code.len()
            <= st2.code.len() && st2.code.subrange(0, st.code.len() as int) == st.code,
{
    if let Some(st2) = lower_inst(st, i) {
        assert(st.code.len() <= st2.code.len());
        assert(st2.code.subrange(0, st.code.len() as int) =~= st.code);
        assert forall|k: int| 0 <= k < st2.patches.len() implies (#[trigger] st2.patches[k]).0
            < st2.code.len() by {
            if k < st.patches.len() {
                assert(st2.patches[k] == st.patches[k]);
            }
        }
    }
}


/// Whether an instruction is a jump (`Jmp` or `JmpIfZero`).
pub open spec fn is_jump(i: VmInst) -> bool {
    i.spec_opcode() == 19 || i.spec_opcode() == 20
}

/// Every jump in the code targets an address below `n`.
pub open spec fn jumps_below(code: Seq<VmInst>, n: int) -> bool {
    forall|k: int| 0 <= k < code.len() && is_jump(#[trigger] code[k]) ==> code[k].spec_imm16() < n
}

/// The opcode and the immediate of a built instruction.
proof fn lemma_vm_inst_fields(op: OpCode, a: u8, b: u8, c: u8)
    ensures
        vm_inst(op, a, b, c).spec_opcode() == op.spec_code(),
        vm_inst(op, a, b, c).spec_imm16() as int == b as int + 256 * (c as int),
{
    lemma_decode_encode(op.spec_code(), a, b, c);
}

/// Lowering an instruction emits no jump but the placeholders, which target
/// address 0.
proof fn lemma_lower_inst_jumps(st: LowerState, i: InstV)
    requires
        jumps_below(st.code, 1),
        patches_in(st.code, st.patches),
    ensures
        lower_inst(st, i) matches Some(st2) ==> jumps_below(st2.code, 1),
{
    assert forall|op: OpCode, a: u8, b: u8, c: u8| #![trigger vm_inst(op, a, b, c)]
        vm_inst(op, a, b, c).spec_opcode() == op.spec_code() && vm_inst(op, a, b, c).spec_imm16() as int
            == b as int + 256 * (c as int) by {
        lemma_vm_inst_fields(op, a, b, c);
    }
    if let Some(st2) = lower_inst(st, i) {
        lemma_lower_inst_patches(st, i);
        assert forall|k: int| 0 <= k < st2.code.len() && is_jump(#[trigger] st2.code[k]) implies st2.code[k].spec_imm16()
            < 1 by {
            if k < st.code.len() {
                assert(st2.code[k] == st2.code.subrange(0, st.code.len() as int)[k]);
            }
        }
    }
}

/// Lowering a block's instructions only appends code, keeps every recorded
/// jump inside it and emits no jump but the placeholders.
proof fn lemma_lower_insts_shape(st: LowerState, is: Seq<InstV>)
    requires
        jumps_below(st.code, 1),
        patches_in(st.code, st.patches),
    ensures
        lower_insts(st, is) matches Some(st2) ==> jumps_below(st2.code, 1) && patches_in(st2.code, st2.patches)
            && st.code.len() <= st2.code.len(),
    decreases is.len(),
{
    if is.len() > 0 {
        let init = is.subrange(0, is.len() - 1);
        lemma_lower_insts_shape(st, init);
        if let Some(st1) = lower_insts(st, init) {
            lemma_lower_inst_patches(st1, is[is.len() - 1]);
            lemma_lower_inst_jumps(st1, is[is.len() - 1]);
        }
    }
}

/// Lowering blocks does the same, and every block starts at an address no
/// later than the end of the code.
proof fn lemma_lower_blocks_shape(st: LowerState, bs: Seq<Seq<InstV>>)
    requires
        jumps_below(st.code, 1),
        patches_in(st.code, st.patches),
    ensures
        lower_blocks(st, bs) matches Some((st2, starts)) ==> jumps_below(st2.code, 1) && patches_in(
            st2.code,
            st2.patches,
        ) && st.code.len() <= st2.code.len() && forall|t: int| 0 <= t < starts.len() ==> #[trigger] starts[t]
            <= st2.code.len(),
    decreases bs.len(),
{
    if bs.len() > 0 {
        let init = bs.subrange(0, bs.len() - 1);
        lemma_lower_blocks_shape(st, init);
        if let Some((st1, starts)) = lower_blocks(st, init) {
            lemma_lower_insts_shape(st1, bs[bs.len() - 1]);
        }
    }
}

/// Patching jumps keeps the code's length and its last instruction when no
/// patch touches it, and points every jump into the code when every block
/// starts inside it.
proof fn lemma_apply_patches_shape(code: Seq<VmInst>, starts: Seq<usize>, ps: Seq<(usize, usize, bool)>)
    requires
        code.len() >= 1,
        jumps_below(code, code.len() as int),
        forall|t: int| 0 <= t < starts.len() ==> #[trigger] starts[t] < code.len(),
        forall|k: int| 0 <= k < ps.len() ==> (#[trigger] ps[k]).0 < code.len() - 1,
    ensures
        apply_patches(code, starts, ps) matches Ok(c) ==> c.len() == code.len() && c.last() == code.last()
            && jumps_below(c, c.len() as int),
    decreases ps.len(),
{
    if ps.len() > 0 {
        let init = ps.subrange(0, ps.len() - 1);
        assert forall|k: int| 0 <= k < init.len() implies (#[trigger] init[k]).0 < code.len() - 1 by {
            assert(init[k] == ps[k]);
        }
        lemma_apply_patches_shape(code, starts, init);
        if let Ok(c1) = apply_patches(code, starts, init) {
            let (idx, target, is_cond) = ps[ps.len() - 1];
            if target < starts.len() {
                let pc = starts[target as int];
                let low = (pc & 255) as u8;
                let high = ((pc >> 8usize) & 255) as u8;
                assert((pc & 255) < 256 && ((pc >> 8usize) & 255) < 256 && (pc & 255) + 256 * ((pc >> 8usize)
                    & 255) <= pc) by (bit_vector);
                let x = if is_cond {
                    vm_inst(OpCode::JmpIfZero, c1[idx as int].spec_a() as u8, low, high)
                } else {
                    vm_inst(OpCode::Jmp, 0, low, high)
                };
                if is_cond {
                    lemma_vm_inst_fields(OpCode::JmpIfZero, c1[idx as int].spec_a() as u8, low, high);
                } else {
                    lemma_vm_inst_fields(OpCode::Jmp, 0, low, high);
                }
                assert(x.spec_imm16() <= pc);
                let c = c1.update(idx as int, x);
                assert(apply_patches(code, starts, ps) == Ok::<Seq<VmInst>, Seq<char>>(c));
                assert forall|k: int| 0 <= k < c.len() && is_jump(#[trigger] c[k]) implies c[k].spec_imm16()
                    < c.len() by {
                    if k != idx {
                        assert(c[k] == c1[k]);
                    }
                }
            }
        }
    }
}

/// Compiled code ends in `Halt`, and every jump in it (`Jmp`, `JmpIfZero`)
/// targets an address inside the code: a program that compiles runs off no
/// jump into nowhere and stops at its end.
pub proof fn lemma_compiled_code_shape(st: LowerState, ss: Seq<StmtV>)
    requires
        st.code.len() == 0,
        st.patches.len() == 0,
    ensures
        compile_spec(st, ss) matches Some((_, Ok(c))) ==> c.len() >= 1 && c.last() == vm_inst(OpCode::Halt, 0, 0, 0)
            && jumps_below(c, c.len() as int),
{
    if let Ok(f) = program_ir(ss) {
        lemma_lower_blocks_shape(st, f.blocks);
        if let Some((st1, starts)) = lower_blocks(st, f.blocks) {
            let halt = vm_inst(OpCode::Halt, 0, 0, 0);
            lemma_vm_inst_fields(OpCode::Halt, 0, 0, 0);
            let code = st1.code.push(halt);
            assert forall|k: int| 0 <= k < code.len() && is_jump(#[trigger] code[k]) implies code[k].spec_imm16()
                < code.len() by {
                if k < st1.code.len() {
                    assert(code[k] == st1.code[k]);
                }
            }
            assert forall|k: int| 0 <= k < st1.patches.len() implies (#[trigger] st1.patches[k]).0 < code.len()
                - 1 by {
            }
            lemma_apply_patches_shape(code, starts, st1.patches);
        }
    }
}

/// A value recorded for index `i` reads back.
proof fn lemma_set_reg_reads(regs: Seq<u8>, i: usize, r: u8)
    ensures
        set_reg(regs, i, r).len() > i,
        set_reg(regs, i, r)[i as int] == r,
{
}

/// The machine code lowered for a comparison or an arithmetic operation
/// computes it: run on the fast path from any machine state, the single
/// instruction emitted for `a > b`, `a < b` or `a == b` puts 1 in the
/// register of the result exactly when the comparison holds of the values in
/// the registers of `a` and `b` (unsigned), else 0; for `a + b`, `a - b` and
/// `a * b` it puts the sum, difference or product modulo 2^32 there.
pub proof fn lemma_lowered_operation_computes(
    st: LowerState,
    i: InstV,
    s: VmState,
    cfg: VmConfig,
    pc: usize,
    steps: u32,
)
    requires
        lower_inst(st, i) is Some,
        s.wf(),
        i.op is Gt || i.op is Lt || i.op is Eq || i.op is Add || i.op is Sub || i.op is Mul || i.op is Div
            || i.op is Mod || i.op is And || i.op is Or,
    ensures
        ({
            let st2 = lower_inst(st, i)->Some_0;
            let (x, y) = match i.op {
                OpV::Gt(a, b) => (a, b),
                OpV::Lt(a, b) => (a, b),
                OpV::Eq(a, b) => (a, b),
                OpV::Add(a, b) => (a, b),
                OpV::Sub(a, b) => (a, b),
                OpV::Mul(a, b) => (a, b),
                OpV::Div(a, b) => (a, b),
                OpV::Mod(a, b) => (a, b),
                OpV::And(a, b) => (a, b),
                OpV::Or(a, b) => (a, b),
                _ => (i.id, i.id),
            };
            let vx = s.registers[reg_of(st2, x) as int] as int;
            let vy = s.registers[reg_of(st2, y) as int] as int;
            let r = exec_core(s, cfg, st2.code.last(), pc, steps, false);
            let got = r.state.registers[reg_of(st2, i.id) as int] as int;
            &&& st2.code.len() == st.code.len() + 1
            &&& st2.code.subrange(0, st.code.len() as int) == st.code
            &&& (i.op is Div || i.op is Mod) && vy == 0 ==> r.flow is Some && r.flow->Some_0 is Err
            &&& !((i.op is Div || i.op is Mod) && vy == 0) ==> r.flow is None
            &&& i.op is Div && vy != 0 ==> got == vx / vy
            &&& i.op is Mod && vy != 0 ==> got == vx % vy
            &&& i.op is And ==> got == (vx as u32 & vy as u32) as int
            &&& i.op is Or ==> got == (vx as u32 | vy as u32) as int
            &&& i.op is Gt ==> got == (if vx > vy { 1int } else { 0int })
            &&& i.op is Lt ==> got == (if vx < vy { 1int } else { 0int })
            &&& i.op is Eq ==> got == (if vx == vy { 1int } else { 0int })
            &&& i.op is Add ==> got == (vx + vy) % 0x1_0000_0000
            &&& i.op is Sub ==> got == (vx - vy + 0x1_0000_0000) % 0x1_0000_0000
            &&& i.op is Mul ==> got == (vx * vy) % 0x1_0000_0000
        }),
{
    let (st1, rd) = alloc_reg(st, i.id);
    lemma_set_reg_reads(st.regs, i.id.0, st.counter);
    let (x, y) = match i.op {
        OpV::Gt(a, b) => (a, b),
        OpV::Lt(a, b) => (a, b),
        OpV::Eq(a, b) => (a, b),
        OpV::Add(a, b) => (a, b),
        OpV::Sub(a, b) => (a, b),
        OpV::Mul(a, b) => (a, b),
        OpV::Div(a, b) => (a, b),
        OpV::Mod(a, b) => (a, b),
        OpV::And(a, b) => (a, b),
        OpV::Or(a, b) => (a, b),
        _ => (i.id, i.id),
    };
    let (op, p, q) = match i.op {
        OpV::Gt(a, b) => (OpCode::CmpLt, b, a),
        OpV::Lt(a, b) => (OpCode::CmpLt, a, b),
        OpV::Eq(a, b) => (OpCode::CmpEq, a, b),
        OpV::Add(a, b) => (OpCode::Add, a, b),
        OpV::Sub(a, b) => (OpCode::Sub, a, b),
        OpV::Div(a, b) => (OpCode::Div, a, b),
        OpV::Mod(a, b) => (OpCode::Mod, a, b),
        OpV::And(a, b) => (OpCode::And, a, b),
        OpV::Or(a, b) => (OpCode::Or, a, b),
        _ => (OpCode::Mul, x, y),
    };
    let inst = vm_inst(op, rd, reg_of(st1, p), reg_of(st1, q));
    let st2 = emit(st1, inst);
    assert(lower_inst(st, i) == Some(st2));
    lemma_vm_inst_fields(op, rd, reg_of(st1, p), reg_of(st1, q));
    lemma_decode_encode(op.spec_code(), rd, reg_of(st1, p), reg_of(st1, q));
    assert(st2.code.last() == inst);
    assert(st2.code.subrange(0, st.code.len() as int) =~= st.code);
    assert(reg_of(st2, i.id) == rd);
    lemma_arithmetic_semantics(s, cfg, inst, pc, steps, false);
    lemma_compare_and_jump_semantics(s, cfg, inst, pc, steps, false);
}

/// The machine code lowered for `a != b`, `a <= b` and `a >= b` computes it:
/// run on the fast path, its three instructions (a constant 1 into a fresh
/// register, a comparison into another, and their difference) leave 1 in the
/// register of the result exactly when the comparison holds of the values in
/// the registers of `a` and `b` (unsigned), else 0, provided the operands'
/// registers are not the fresh register that holds the constant.
pub proof fn lemma_lowered_negation_computes(
    st: LowerState,
    i: InstV,
    s: VmState,
    cfg: VmConfig,
    pc: usize,
    steps: u32,
)
    requires
        lower_inst(st, i) is Some,
        s.wf(),
        i.op is Ne || i.op is Le || i.op is Ge,
        ({
            let st2 = lower_inst(st, i)->Some_0;
            let one = next_counter(next_counter(st.counter));
            let (x, y) = match i.op {
                OpV::Ne(a, b) => (a, b),
                OpV::Le(a, b) => (a, b),
                OpV::Ge(a, b) => (a, b),
                _ => (i.id, i.id),
            };
            reg_of(st2, x) != one && reg_of(st2, y) != one
        }),
    ensures
        ({
            let st2 = lower_inst(st, i)->Some_0;
            let n = st.code.len() as int;
            let (x, y) = match i.op {
                OpV::Ne(a, b) => (a, b),
                OpV::Le(a, b) => (a, b),
                OpV::Ge(a, b) => (a, b),
                _ => (i.id, i.id),
            };
            let vx = s.registers[reg_of(st2, x) as int] as int;
            let vy = s.registers[reg_of(st2, y) as int] as int;
            let r1 = exec_core(s, cfg, st2.code[n], pc, steps, false);
            let r2 = exec_core(r1.state, cfg, st2.code[n + 1], pc, steps, false);
            let r3 = exec_core(r2.state, cfg, st2.code[n + 2], pc, steps, false);
            let got = r3.state.registers[reg_of(st2, i.id) as int] as int;
            &&& st2.code.len() == n + 3
            &&& st2.code.subrange(0, n) == st.code
            &&& r1.flow is None && r2.flow is None && r3.flow is None
            &&& i.op is Ne ==> got == (if vx != vy { 1int } else { 0int })
            &&& i.op is Le ==> got == (if vx <= vy { 1int } else { 0int })
            &&& i.op is Ge ==> got == (if vx >= vy { 1int } else { 0int })
        }),
{
    let (st1, rd) = alloc_reg(st, i.id);
    lemma_set_reg_reads(st.regs, i.id.0, st.counter);
    let (x, y) = match i.op {
        OpV::Ne(a, b) => (a, b),
        OpV::Le(a, b) => (a, b),
        OpV::Ge(a, b) => (a, b),
        _ => (i.id, i.id),
    };
    let (op, swap) = match i.op {
        OpV::Ne(a, b) => (OpCode::CmpEq, false),
        OpV::Le(a, b) => (OpCode::CmpLt, true),
        _ => (OpCode::CmpLt, false),
    };
    let r1 = reg_of(st1, x);
    let r2 = reg_of(st1, y);
    let (st2, r_test) = temp_reg(st1);
    let (st3, r_one) = temp_reg(st2);
    let i0 = vm_inst(OpCode::LoadImm, r_one, 1, 0);
    let i1 = if swap { vm_inst(op, r_test, r2, r1) } else { vm_inst(op, r_test, r1, r2) };
    let i2 = vm_inst(OpCode::Sub, rd, r_one, r_test);
    let fin = emit(emit(emit(st3, i0), i1), i2);
    assert(lower_inst(st, i) == Some(fin));
    let n = st.code.len() as int;
    assert(fin.code[n] == i0 && fin.code[n + 1] == i1 && fin.code[n + 2] == i2);
    assert(fin.code.subrange(0, n) =~= st.code);
    assert(reg_of(fin, i.id) == rd);
    assert(reg_of(fin, x) == r1 && reg_of(fin, y) == r2);
    assert(r_test != r_one && rd != r_one && rd != r_test) by {
        let c = st.counter;
        assert(vstd::wrapping::u8_specs::wrapping_add(c, 1) != vstd::wrapping::u8_specs::wrapping_add(
            vstd::wrapping::u8_specs::wrapping_add(c, 1),
            1,
        ));
    }
    lemma_vm_inst_fields(OpCode::LoadImm, r_one, 1, 0);
    lemma_decode_encode(OpCode::LoadImm.spec_code(), r_one, 1, 0);
    lemma_vm_inst_fields(op, r_test, r2, r1);
    lemma_decode_encode(op.spec_code(), r_test, r2, r1);
    lemma_vm_inst_fields(op, r_test, r1, r2);
    lemma_decode_encode(op.spec_code(), r_test, r1, r2);
    lemma_vm_inst_fields(OpCode::Sub, rd, r_one, r_test);
    lemma_decode_encode(OpCode::Sub.spec_code(), rd, r_one, r_test);
    lemma_arithmetic_semantics(s, cfg, i0, pc, steps, false);
    let s1 = exec_core(s, cfg, i0, pc, steps, false).state;
    assert(s1.wf());
    lemma_compare_and_jump_semantics(s1, cfg, i1, pc, steps, false);
    let s2 = exec_core(s1, cfg, i1, pc, steps, false).state;
    assert(s2.wf());
    assert(s1.registers[r1 as int] == s.registers[r1 as int]);
    assert(s1.registers[r2 as int] == s.registers[r2 as int]);
    assert(s2.registers[r_one as int] == 1);
    lemma_arithmetic_semantics(s2, cfg, i2, pc, steps, false);
}

/// When the instructions up to `k` cannot be lowered, neither can all.
pub proof fn lemma_lower_insts_prefix(st: LowerState, is: Seq<InstV>, k: int)
    requires
        0 <= k <= is.len(),
        lower_insts(st, is.subrange(0, k)) is None,
    ensures
        lower_insts(st, is) is None,
    decreases is.len() - k,
{
    if k < is.len() {
        let longer = is.subrange(0, k + 1);
        assert(longer.subrange(0, longer.len() - 1) =~= is.subrange(0, k));
        lemma_lower_insts_prefix(st, is, k + 1);
    } else {
        assert(is.subrange(0, k) =~= is);
    }
}

/// When the blocks up to `k` cannot be lowered, neither can all.
pub proof fn lemma_lower_blocks_prefix(st: LowerState, bs: Seq<Seq<InstV>>, k: int)
    requires
        0 <= k <= bs.len(),
        lower_blocks(st, bs.subrange(0, k)) is None,
    ensures
        lower_blocks(st, bs) is None,
    decreases bs.len() - k,
{
    if k < bs.len() {
        let longer = bs.subrange(0, k + 1);
        assert(longer.subrange(0, longer.len() - 1) =~= bs.subrange(0, k));
        lemma_lower_blocks_prefix(st, bs, k + 1);
    } else {
        assert(bs.subrange(0, k) =~= bs);
    }
}

/// When the patches up to `k` fail, all of them fail the same way.
pub proof fn lemma_patches_prefix(code: Seq<VmInst>, starts: Seq<usize>, ps: Seq<(usize, usize, bool)>, k: int)
    requires
        0 <= k <= ps.len(),
        apply_patches(code, starts, ps.subrange(0, k)) is Err,
    ensures
        apply_patches(code, starts, ps) == apply_patches(code, starts, ps.subrange(0, k)),
    decreases ps.len() - k,
{
    if k < ps.len() {
        let longer = ps.subrange(0, k + 1);
        assert(longer.subrange(0, longer.len() - 1) =~= ps.subrange(0, k));
        lemma_patches_prefix(code, starts, ps, k + 1);
    } else {
        assert(ps.subrange(0, k) =~= ps);
    }
}

impl CodeGen {
    /// Lowers the instructions of one block in order.
    fn lower_insts(&mut self, is: &Vec<Instruction>, code: &mut Vec<VmInst>, patches: &mut Vec<(usize, usize, bool)>) -> (ok: bool)
        requires
            patches_in(old(code)@, old(patches)@),
        ensures
            ok ==> patches_in(final(code)@, final(patches)@),
            match lower_insts(old(self).with_code(old(code)@, old(patches)@), insts_view(is@)) {
                Some(st) => ok && final(self).with_code(final(code)@, final(patches)@) =~~= st,
                None => !ok,
            },
    {
        let ghost iv = insts_view(is@);
        let ghost st0 = self.with_code(code@, patches@);
        let mut k: usize = 0;
        proof {
            assert(iv.subrange(0, 0) =~= Seq::<InstV>::empty());
        }
        while k < is.len()
            invariant
                k <= is@.len(),
                iv == insts_view(is@),
                iv.len() == is@.len(),
                st0 == old(self).with_code(old(code)@, old(patches)@),
                patches_in(code@, patches@),
                lower_insts(st0, iv.subrange(0, k as int)) == Some(self.with_code(code@, patches@)),
            decreases is@.len() - k,
        {
            proof {
                assert(iv.subrange(0, k + 1).subrange(0, k as int) =~= iv.subrange(0, k as int));
                assert(iv[k as int] == is@[k as int]@);
            }
            let ghost before = self.with_code(code@, patches@);
            let ok = self.lower_inst(&is[k], code, patches);
            if !ok {
                proof {
                    lemma_lower_insts_prefix(st0, iv, k + 1);
                }
                return false;
            }
            proof {
                assert(self.with_code(code@, patches@) =~~= lower_inst(before, iv[k as int]).unwrap());
            }
            k = k + 1;
        }
        proof {
            assert(iv.subrange(0, is@.len() as int) =~= iv);
        }
        true
    }

    /// Lowers a function: its blocks in order, a `Halt`, then the jumps
    /// patched; `None` where a call lacks an argument its lowering reads.
    fn lower_function(&mut self, func: &FunctionIR) -> (r: Option<Result<Vec<VmInst>, String>>)
        ensures
            match lower_function(old(self).state(), func@) {
                Some((st, res)) => r is Some && final(self).state() =~~= (LowerState {
                    code: Seq::empty(),
                    patches: Seq::empty(),
                    ..st
                }) && match res {
                    Ok(c) => r->Some_0 is Ok && r->Some_0->Ok_0@ == c,
                    Err(m) => r->Some_0 is Err && r->Some_0->Err_0@ == m,
                },
                None => r is None,
            },
    {
        let ghost bv = func@.blocks;
        let ghost st0 = self.state();
        let mut code: Vec<VmInst> = Vec::new();
        let mut patches: Vec<(usize, usize, bool)> = Vec::new();
        let mut starts: Vec<usize> = Vec::new();
        let mut k: usize = 0;
        proof {
            assert(bv.subrange(0, 0) =~= Seq::<Seq<InstV>>::empty());
            assert(self.with_code(code@, patches@) =~~= st0);
        }
        while k < func.blocks.len()
            invariant
                k <= func.blocks@.len(),
                bv == func@.blocks,
                bv.len() == func.blocks@.len(),
                st0 == old(self).state(),
                patches_in(code@, patches@),
                lower_blocks(st0, bv.subrange(0, k as int)) == Some((self.with_code(code@, patches@), starts@)),
            decreases func.blocks@.len() - k,
        {
            proof {
                assert(bv.subrange(0, k + 1).subrange(0, k as int) =~= bv.subrange(0, k as int));
                assert(bv[k as int] == insts_view(func.blocks@[k as int].insts@));
            }
            let ghost before = self.with_code(code@, patches@);
            starts.push(code.len());
            let ok = self.lower_insts(&func.blocks[k].insts, &mut code, &mut patches);
            if !ok {
                proof {
                    lemma_lower_blocks_prefix(st0, bv, k + 1);
                }
                return None;
            }
            k = k + 1;
        }
        proof {
            assert(bv.subrange(0, func.blocks@.len() as int) =~= bv);
        }
        let ghost st1 = self.with_code(code@, patches@);
        proof {
            assert(self.state() =~~= (LowerState { code: Seq::empty(), patches: Seq::empty(), ..st1 }));
        }
        code.push(mk(OpCode::Halt, 0, 0, 0));
        let ghost code_h = code@;
        let mut j: usize = 0;
        proof {
            assert(patches@.subrange(0, 0) =~= Seq::<(usize, usize, bool)>::empty());
        }
        while j < patches.len()
            invariant
                j <= patches@.len(),
                patches_in(st1.code, patches@),
                code_h == st1.code.push(vm_inst(OpCode::Halt, 0, 0, 0)),
                apply_patches(code_h, starts@, patches@.subrange(0, j as int)) == Ok::<Seq<VmInst>, Seq<char>>(code@),
                code@.len() == code_h.len(),
                self.state() =~~= (LowerState { code: Seq::empty(), patches: Seq::empty(), ..st1 }),
                lower_blocks(st0, bv) == Some((st1, starts@)),
                st0 == old(self).state(),
                bv == func@.blocks,
                st1.patches == patches@,
            decreases patches@.len() - j,
        {
            proof {
                assert(patches@.subrange(0, j + 1).subrange(0, j as int) =~= patches@.subrange(0, j as int));
                assert(patches@[j as int].0 < st1.code.len());
            }
            let (idx, target, is_cond) = patches[j];
            if target >= starts.len() {
                proof {
                    lemma_patches_prefix(code_h, starts@, patches@, j + 1);
                }
                return Some(Err(String::from_str("Failed to resolve jump target")));
            }
            let pc = starts[target];
            let low = (pc & 255) as u8;
            let high = ((pc >> 8usize) & 255) as u8;
            if is_cond {
                let r_cond = code[idx].a() as u8;
                code.set(idx, mk(OpCode::JmpIfZero, r_cond, low, high));
            } else {
                code.set(idx, mk(OpCode::Jmp, 0, low, high));
            }
            j = j + 1;
        }
        proof {
            assert(patches@.subrange(0, patches@.len() as int) =~= patches@);
            assert(self.state() =~~= (LowerState { code: Seq::empty(), patches: Seq::empty(), ..st1 }));
        }
        Some(Ok(code))
    }
}

/// What compiling a program does: `None` where code generation would index
/// an argument that a call lacks or run out of value or block numbers; else
/// the register state afterwards and the machine code or the message.
pub open spec fn compile_spec(st: LowerState, ss: Seq<StmtV>) -> Option<(LowerState, Result<Seq<VmInst>, Seq<char>>)> {
    match program_ir(ss) {
        Err(None) => None,
        Err(Some(m)) => Some((st, Err(m))),
        Ok(f) => match lower_function(st, f) {
            Some((st2, res)) => if st2.overflowed {
                None
            } else {
                Some((st2, res))
            },
            None => None,
        },
    }
}

/// The IR of a whole program, in a function named `main`.
fn program_to_ir(prog: &Program) -> (r: Result<FunctionIR, Option<String>>)
    ensures
        match program_ir(prog@) {
            Ok(f) => r is Ok && r->Ok_0@ =~~= f,
            Err(m) => r is Err && fail_view(r->Err_0) == m,
        },
{
    let mut func = FunctionIR::new(String::from_str("main"));
    func.blocks.push(BasicBlock { id: 0, insts: Vec::new(), successors: Vec::new() });
    let ghost f0 = func@;
    let ghost sv = stmts_view(prog.statements@);
    proof {
        assert(f0 =~~= (FuncV { blocks: seq![Seq::<InstV>::empty()], next: 0 }));
        assert(sv.subrange(0, 0) =~= Seq::<StmtV>::empty());
    }
    let mut c: usize = 0;
    let mut i: usize = 0;
    while i < prog.statements.len()
        invariant
            func.wf(),
            c < func.blocks@.len(),
            i <= prog.statements@.len(),
            sv == stmts_view(prog.statements@),
            sv.len() == prog.statements@.len(),
            f0 =~~= (FuncV { blocks: seq![Seq::<InstV>::empty()], next: 0 }),
            stmts_ir(sv.subrange(0, i as int), f0, 0) matches Ok((fx, cx)) && func@ =~~= fx && c == cx,
        decreases prog.statements@.len() - i,
    {
        proof {
            assert(sv[i as int] == prog.statements@[i as int]@);
            assert(sv.subrange(0, i + 1).subrange(0, i as int) =~= sv.subrange(0, i as int));
        }
        c = match stmt_to_ir(&prog.statements[i], &mut func, c) {
            Ok(c2) => c2,
            Err(e) => {
                proof {
                    lemma_stmts_ir_prefix_fail(sv, f0, 0, i + 1);
                }
                return Err(e);
            },
        };
        i = i + 1;
    }
    proof {
        assert(sv.subrange(0, prog.statements@.len() as int) =~= sv);
    }
    Ok(func)
}

impl CodeGen {
    /// Compiles a program to machine code, or `None` where code generation
    /// would index an argument that a call lacks (a built-in call or macro
    /// with too few arguments, `await!` without one) or run out of value or
    /// block numbers.
    pub fn compile_checked(&mut self, prog: &Program) -> (r: Option<Result<Vec<VmInst>, String>>)
        ensures
            match compile_spec(old(self).state(), prog@) {
                Some((st, res)) => r is Some && final(self).state() =~~= (LowerState {
                    code: Seq::empty(),
                    patches: Seq::empty(),
                    ..st
                }) && match res {
                    Ok(c) => r->Some_0 is Ok && r->Some_0->Ok_0@ == c,
                    Err(m) => r->Some_0 is Err && r->Some_0->Err_0@ == m,
                },
                None => r is None,
            },
    {
        let func = match program_to_ir(prog) {
            Ok(f) => f,
            Err(None) => {
                return None;
            },
            Err(Some(m)) => {
                proof {
                    assert(self.state() =~~= (LowerState {
                        code: Seq::empty(),
                        patches: Seq::empty(),
                        ..old(self).state()
                    }));
                }
                return Some(Err(m));
            },
        };
        let r = self.lower_function(&func);
        if self.register_overflow {
            return None;
        }
        r
    }

    /// Compiles a program: lowers its statements to IR (declarations,
    /// assignments, expression statements, `while` and `if`), then the IR to
    /// machine code ending in `Halt`. Registers of values and variables come
    /// from a counter that starts at 1 and must stay below 256.
    pub fn compile(&mut self, prog: &Program) -> (r: Result<Vec<VmInst>, String>)
        requires
            compile_spec(old(self).state(), prog@) is Some,
        ensures
            match compile_spec(old(self).state(), prog@) {
                Some((st, res)) => final(self).state() =~~= (LowerState {
                    code: Seq::empty(),
                    patches: Seq::empty(),
                    ..st
                }) && match res {
                    Ok(c) => r is Ok && r->Ok_0@ == c,
                    Err(m) => r is Err && r->Err_0@ == m,
                },
                None => true,
            },
            r matches Ok(c) ==> c@.len() >= 1 && c@.last() == vm_inst(OpCode::Halt, 0, 0, 0) && jumps_below(
                c@,
                c@.len() as int,
            ),
    {
        proof {
            lemma_compiled_code_shape(self.state(), prog@);
        }
        match self.compile_checked(prog) {
            Some(r) => r,
            None => {
                proof {
                    assert(false);
                }
                Err(String::new())
            },
        }
    }
}

impl Default for CodeGen {
    fn default() -> (r: Self)
        ensures
            r.state() == (LowerState {
                counter: 1,
                overflowed: false,
                regs: Seq::empty(),
                vars: Seq::empty(),
                code: Seq::empty(),
                patches: Seq::empty(),
            }),
    {
        Self::new()
    }
}

} // verus!

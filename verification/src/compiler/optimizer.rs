use vstd::prelude::*;
use std::collections::{BTreeMap, BTreeSet};
use crate::compiler::ir::{BasicBlock, FunctionIR, InstV, Instruction, Op, OpV, ValueId, insts_view};

verus! {

/// The IR optimizer: constant folding, then dead code elimination.
pub struct Optimizer;

/// One instruction of constant folding: a constant records its value, and
/// an `Add`, `Sub`, `Mul` or `Div` of two known constants becomes a constant
/// (a division by zero stays). Nothing when the arithmetic overflows, where
/// the fold would panic.
pub open spec fn fold_inst(c: Map<usize, i64>, inst: InstV) -> Option<(Map<usize, i64>, InstV)> {
    let id = inst.id.0;
    let both = |a: ValueId, b: ValueId| c.contains_key(a.0) && c.contains_key(b.0);
    let folded = |r: Option<i64>| match r {
        Some(v) => Some((c.insert(id, v), InstV { id: inst.id, op: OpV::LoadImm(v) })),
        None => None,
    };
    match inst.op {
        OpV::LoadImm(v) => Some((c.insert(id, v), inst)),
        OpV::Add(a, b) => if both(a, b) {
            folded(c[a.0].checked_add(c[b.0]))
        } else {
            Some((c, inst))
        },
        OpV::Sub(a, b) => if both(a, b) {
            folded(c[a.0].checked_sub(c[b.0]))
        } else {
            Some((c, inst))
        },
        OpV::Mul(a, b) => if both(a, b) {
            folded(c[a.0].checked_mul(c[b.0]))
        } else {
            Some((c, inst))
        },
        OpV::Div(a, b) => if both(a, b) && c[b.0] != 0 {
            folded(c[a.0].checked_div(c[b.0]))
        } else {
            Some((c, inst))
        },
        _ => Some((c, inst)),
    }
}

/// Constant folding over the instructions of a block, in order.
pub open spec fn fold_insts(c: Map<usize, i64>, insts: Seq<InstV>) -> Option<(Map<usize, i64>, Seq<InstV>)>
    decreases insts.len(),
{
    if insts.len() == 0 {
        Some((c, Seq::empty()))
    } else {
        match fold_inst(c, insts[0]) {
            Some((c1, i1)) => match fold_insts(c1, insts.drop_first()) {
                Some((c2, rest)) => Some((c2, seq![i1] + rest)),
                None => None,
            },
            None => None,
        }
    }
}

/// Constant folding over the blocks, in order, with the known constants
/// carried from block to block.
pub open spec fn fold_blocks(c: Map<usize, i64>, blocks: Seq<Seq<InstV>>) -> Option<(Map<usize, i64>, Seq<Seq<InstV>>)>
    decreases blocks.len(),
{
    if blocks.len() == 0 {
        Some((c, Seq::empty()))
    } else {
        match fold_insts(c, blocks[0]) {
            Some((c1, b1)) => match fold_blocks(c1, blocks.drop_first()) {
                Some((c2, rest)) => Some((c2, seq![b1] + rest)),
                None => None,
            },
            None => None,
        }
    }
}

/// The values in a list.
pub open spec fn args_set(args: Seq<ValueId>) -> Set<usize>
    decreases args.len(),
{
    if args.len() == 0 {
        Set::empty()
    } else {
        args_set(args.drop_last()).insert(args.last().0)
    }
}

/// The values whose uses keep them alive: the operands of arithmetic, the
/// arguments of calls and the returned value.
pub open spec fn op_uses(op: OpV) -> Set<usize> {
    match op {
        OpV::Add(a, b) => set![a.0, b.0],
        OpV::Sub(a, b) => set![a.0, b.0],
        OpV::Mul(a, b) => set![a.0, b.0],
        OpV::Div(a, b) => set![a.0, b.0],
        OpV::Call(_, args) => args_set(args),
        OpV::MacroCall(_, args) => args_set(args),
        OpV::Return(Some(v)) => set![v.0],
        _ => Set::empty(),
    }
}

pub open spec fn insts_uses(insts: Seq<InstV>) -> Set<usize>
    decreases insts.len(),
{
    if insts.len() == 0 {
        Set::empty()
    } else {
        insts_uses(insts.drop_last()).union(op_uses(insts.last().op))
    }
}

/// The values used anywhere in the function.
pub open spec fn blocks_uses(blocks: Seq<Seq<InstV>>) -> Set<usize>
    decreases blocks.len(),
{
    if blocks.len() == 0 {
        Set::empty()
    } else {
        blocks_uses(blocks.drop_last()).union(insts_uses(blocks.last()))
    }
}

/// Whether dead code elimination keeps an instruction: calls and returns
/// always, anything else when its value is used.
pub open spec fn keeps(inst: InstV, used: Set<usize>) -> bool {
    match inst.op {
        OpV::Call(..) | OpV::MacroCall(..) | OpV::Return(_) => true,
        _ => used.contains(inst.id.0),
    }
}

/// The instructions that dead code elimination keeps, in order.
pub open spec fn kept(insts: Seq<InstV>, used: Set<usize>) -> Seq<InstV>
    decreases insts.len(),
{
    if insts.len() == 0 {
        Seq::empty()
    } else if keeps(insts.last(), used) {
        kept(insts.drop_last(), used).push(insts.last())
    } else {
        kept(insts.drop_last(), used)
    }
}

/// Dead code elimination over all blocks.
pub open spec fn eliminate(blocks: Seq<Seq<InstV>>) -> Seq<Seq<InstV>> {
    let used = blocks_uses(blocks);
    Seq::new(blocks.len(), |i: int| kept(blocks[i], used))
}

/// Whether constant folding runs without arithmetic that overflows.
pub open spec fn folds(blocks: Seq<Seq<InstV>>) -> bool {
    fold_blocks(Map::empty(), blocks) is Some
}

/// The blocks after constant folding, then dead code elimination.
pub open spec fn optimized(blocks: Seq<Seq<InstV>>) -> Seq<Seq<InstV>> {
    eliminate(fold_blocks(Map::empty(), blocks)->Some_0.1)
}

/// The parts of a function that optimization leaves alone: its name, the
/// next value, and each block's index and successors.
pub open spec fn same_frame(a: &FunctionIR, b: &FunctionIR) -> bool {
    &&& a.name == b.name
    &&& a.next_value_id == b.next_value_id
    &&& a.blocks@.len() == b.blocks@.len()
    &&& forall|i: int|
        0 <= i < a.blocks@.len() ==> (#[trigger] a.blocks@[i]).id == b.blocks@[i].id
            && a.blocks@[i].successors@ == b.blocks@[i].successors@
}

/// The function's blocks, with each block's instructions.
pub open spec fn blocks_view(bs: Seq<BasicBlock>) -> Seq<Seq<InstV>> {
    bs.map_values(|b: BasicBlock| insts_view(b.insts@))
}


/// Constant folding over one block's instructions.
fn fold_block_insts(insts: Vec<Instruction>, consts: &mut BTreeMap<usize, i64>) -> (r: Vec<Instruction>)
    requires
        fold_insts(old(consts)@, insts_view(insts@)) is Some,
    ensures
        fold_insts(old(consts)@, insts_view(insts@)) == Some((final(consts)@, insts_view(r@))),
{
    let ghost all = insts_view(insts@);
    let ghost c0 = consts@;
    let mut rest = insts;
    let mut out: Vec<Instruction> = Vec::new();
    proof {
        assert(insts_view(out@) + insts_view(rest@) =~= insts_view(rest@));
    }
    while rest.len() > 0
        invariant
            fold_insts(c0, all) is Some,
            fold_insts(c0, all) == match fold_insts(consts@, insts_view(rest@)) {
                Some((c2, tail)) => Some((c2, insts_view(out@) + tail)),
                None => None::<(Map<usize, i64>, Seq<InstV>)>,
            },
        decreases rest@.len(),
    {
        let ghost rv = insts_view(rest@);
        let ghost cbefore = consts@;
        let ghost ov = insts_view(out@);
        let inst = rest.remove(0);
        proof {
            assert(rv[0] == inst@);
            assert(rv.drop_first() =~= insts_view(rest@));
        }
        let mut record: Option<i64> = None;
        let mut result: Option<i64> = None;
        match &inst.op {
            Op::LoadImm(v) => {
                record = Some(*v);
            },
            Op::Add(a, b) => {
                match (consts.get(&a.0), consts.get(&b.0)) {
                    (Some(x), Some(y)) => {
                        result = x.checked_add(*y);
                    },
                    _ => {},
                }
            },
            Op::Sub(a, b) => {
                match (consts.get(&a.0), consts.get(&b.0)) {
                    (Some(x), Some(y)) => {
                        result = x.checked_sub(*y);
                    },
                    _ => {},
                }
            },
            Op::Mul(a, b) => {
                match (consts.get(&a.0), consts.get(&b.0)) {
                    (Some(x), Some(y)) => {
                        result = x.checked_mul(*y);
                    },
                    _ => {},
                }
            },
            Op::Div(a, b) => {
                match (consts.get(&a.0), consts.get(&b.0)) {
                    (Some(x), Some(y)) => {
                        if *y != 0 {
                            result = x.checked_div(*y);
                        }
                    },
                    _ => {},
                }
            },
            _ => {},
        }
        let id = inst.id;
        match record {
            Some(v) => {
                consts.insert(id.0, v);
                out.push(inst);
            },
            None => match result {
                Some(v) => {
                    consts.insert(id.0, v);
                    out.push(Instruction { id, op: Op::LoadImm(v) });
                },
                None => {
                    out.push(inst);
                },
            },
        }
        proof {
            let step = fold_inst(cbefore, rv[0]);
            assert(step is Some);
            assert(step->Some_0.0 =~= consts@);
            assert(insts_view(out@) =~= ov.push(step->Some_0.1));
            match fold_insts(consts@, insts_view(rest@)) {
                Some((c2, tail)) => {
                    assert(insts_view(out@) + tail =~= ov + (seq![step->Some_0.1] + tail));
                },
                None => {},
            }
        }
    }
    proof {
        assert(insts_view(rest@) =~= Seq::<InstV>::empty());
        assert(insts_view(out@) + Seq::<InstV>::empty() =~= insts_view(out@));
    }
    out
}


/// What constant folding makes of one instruction with the known constants
/// `consts`: `None` where its arithmetic overflows; else the value it comes
/// to be known to hold, if any.
fn fold_value(consts: &BTreeMap<usize, i64>, inst: &Instruction) -> (r: Option<Option<i64>>)
    ensures
        r is None <==> fold_inst(consts@, inst@) is None,
        r matches Some(o) ==> fold_inst(consts@, inst@)->Some_0.0 == match o {
            Some(v) => consts@.insert(inst.id.0, v),
            None => consts@,
        },
{
    let (a, b, kind): (usize, usize, u8) = match &inst.op {
        Op::LoadImm(v) => {
            return Some(Some(*v));
        },
        Op::Add(a, b) => (a.0, b.0, 0),
        Op::Sub(a, b) => (a.0, b.0, 1),
        Op::Mul(a, b) => (a.0, b.0, 2),
        Op::Div(a, b) => (a.0, b.0, 3),
        _ => {
            return Some(None);
        },
    };
    match (consts.get(&a), consts.get(&b)) {
        (Some(x), Some(y)) => {
            let r = if kind == 0 {
                x.checked_add(*y)
            } else if kind == 1 {
                x.checked_sub(*y)
            } else if kind == 2 {
                x.checked_mul(*y)
            } else if *y != 0 {
                x.checked_div(*y)
            } else {
                return Some(None);
            };
            match r {
                Some(v) => Some(Some(v)),
                None => None,
            }
        },
        _ => Some(None),
    }
}

/// Whether constant folding of the blocks runs without arithmetic that
/// overflows.
fn folds_check(blocks: &Vec<BasicBlock>) -> (r: bool)
    ensures
        r == folds(blocks_view(blocks@)),
{
    let ghost all = blocks_view(blocks@);
    let mut consts: BTreeMap<usize, i64> = BTreeMap::new();
    let mut bi: usize = 0;
    proof {
        assert(all.skip(0) =~= all);
    }
    while bi < blocks.len()
        invariant
            all == blocks_view(blocks@),
            bi <= blocks@.len(),
            folds(all) == fold_blocks(consts@, all.skip(bi as int)) is Some,
        decreases blocks@.len() - bi,
    {
        let insts = &blocks[bi].insts;
        let ghost blk = insts_view(insts@);
        proof {
            assert(all.skip(bi as int)[0] == blk);
            assert(all.skip(bi as int).drop_first() =~= all.skip(bi + 1));
            assert(blk.skip(0) =~= blk);
        }
        let mut ii: usize = 0;
        while ii < insts.len()
            invariant
                all == blocks_view(blocks@),
                bi < blocks@.len(),
                insts == &blocks@[bi as int].insts,
                blk == insts_view(insts@),
                ii <= insts@.len(),
                folds(all) == match fold_insts(consts@, blk.skip(ii as int)) {
                    Some((c1, _)) => fold_blocks(c1, all.skip(bi + 1)) is Some,
                    None => false,
                },
            decreases insts@.len() - ii,
        {
            let inst = &insts[ii];
            let ghost c0 = consts@;
            proof {
                assert(blk.skip(ii as int)[0] == inst@);
                assert(blk.skip(ii as int).drop_first() =~= blk.skip(ii + 1));
            }
            match fold_value(&consts, inst) {
                None => {
                    return false;
                },
                Some(Some(v)) => {
                    consts.insert(inst.id.0, v);
                },
                Some(None) => {},
            }
            proof {
                assert(fold_inst(c0, inst@)->Some_0.0 =~= consts@);
            }
            ii = ii + 1;
        }
        proof {
            assert(blk.skip(ii as int) =~= Seq::<InstV>::empty());
        }
        bi = bi + 1;
    }
    proof {
        assert(all.skip(bi as int) =~= Seq::<Seq<InstV>>::empty());
    }
    true
}

/// Adds the values that `op` uses to `set`.
fn insert_uses(set: &mut BTreeSet<usize>, op: &Op)
    ensures
        final(set)@ =~= old(set)@.union(op_uses(op@)),
{
    match op {
        Op::Add(a, b) | Op::Sub(a, b) | Op::Mul(a, b) | Op::Div(a, b) => {
            set.insert(a.0);
            set.insert(b.0);
        },
        Op::Call(_, args) | Op::MacroCall(_, args) => {
            let ghost base = set@;
            let mut k: usize = 0;
            while k < args.len()
                invariant
                    k <= args@.len(),
                    set@ =~= base.union(args_set(args@.take(k as int))),
                decreases args@.len() - k,
            {
                set.insert(args[k].0);
                proof {
                    assert(args@.take(k + 1).drop_last() =~= args@.take(k as int));
                }
                k = k + 1;
            }
            proof {
                assert(args@.take(args@.len() as int) =~= args@);
            }
        },
        Op::Return(Some(v)) => {
            set.insert(v.0);
        },
        _ => {},
    }
}

/// The values used anywhere in the blocks.
fn collect_uses(blocks: &Vec<BasicBlock>) -> (r: BTreeSet<usize>)
    ensures
        r@ =~= blocks_uses(blocks_view(blocks@)),
{
    let ghost bv = blocks_view(blocks@);
    let mut used: BTreeSet<usize> = BTreeSet::new();
    let mut b: usize = 0;
    while b < blocks.len()
        invariant
            b <= blocks@.len(),
            bv == blocks_view(blocks@),
            used@ =~= blocks_uses(bv.take(b as int)),
        decreases blocks@.len() - b,
    {
        let insts = &blocks[b].insts;
        let ghost iv = insts_view(insts@);
        let ghost base = used@;
        let mut i: usize = 0;
        while i < insts.len()
            invariant
                i <= insts@.len(),
                iv == insts_view(insts@),
                used@ =~= base.union(insts_uses(iv.take(i as int))),
            decreases insts@.len() - i,
        {
            insert_uses(&mut used, &insts[i].op);
            proof {
                assert(iv.take(i + 1).drop_last() =~= iv.take(i as int));
                assert(iv.take(i + 1).last() == insts@[i as int]@);
            }
            i = i + 1;
        }
        proof {
            assert(iv.take(insts@.len() as int) =~= iv);
            assert(bv.take(b + 1).drop_last() =~= bv.take(b as int));
            assert(bv.take(b + 1).last() == iv);
        }
        b = b + 1;
    }
    proof {
        assert(bv.take(blocks@.len() as int) =~= bv);
    }
    used
}

/// The instructions of a block that dead code elimination keeps.
fn keep_insts(insts: Vec<Instruction>, used: &BTreeSet<usize>) -> (r: Vec<Instruction>)
    ensures
        insts_view(r@) == kept(insts_view(insts@), used@),
{
    let ghost all = insts_view(insts@);
    let mut rest = insts;
    let mut out: Vec<Instruction> = Vec::new();
    let ghost mut k: int = 0;
    proof {
        assert(all.skip(0) =~= all);
    }
    while rest.len() > 0
        invariant
            0 <= k <= all.len(),
            insts_view(rest@) == all.skip(k),
            insts_view(out@) == kept(all.take(k), used@),
        decreases rest@.len(),
    {
        let inst = rest.remove(0);
        proof {
            assert(all.skip(k)[0] == inst@);
            assert(all.skip(k).drop_first() =~= all.skip(k + 1));
            assert(insts_view(rest@) =~= all.skip(k + 1));
            assert(all.take(k + 1).drop_last() =~= all.take(k));
            assert(all.take(k + 1).last() == inst@);
        }
        let keep = match &inst.op {
            Op::Call(..) | Op::MacroCall(..) | Op::Return(_) => true,
            _ => used.contains(&inst.id.0),
        };
        let ghost ov = insts_view(out@);
        if keep {
            out.push(inst);
            proof {
                assert(insts_view(out@) =~= ov.push(all[k]));
            }
        }
        proof {
            k = k + 1;
        }
    }
    proof {
        assert(all.take(k) =~= all);
    }
    out
}

impl Optimizer {
    /// Constant folding, then dead code elimination; the name, the next value
    /// and each block's index and successors stay.
    pub fn optimize(func: &mut FunctionIR)
        requires
            folds(old(func)@.blocks),
        ensures
            same_frame(final(func), old(func)),
            final(func)@.blocks == optimized(old(func)@.blocks),
    {
        proof {
            assert(old(func)@.blocks =~= blocks_view(old(func).blocks@));
        }
        Self::constant_folding(func);
        Self::dead_code_elimination(func);
        proof {
            assert(func@.blocks =~= blocks_view(func.blocks@));
        }
    }

    /// Optimizes the function when constant folding runs without arithmetic
    /// that overflows, which `optimize` requires, and says whether it did;
    /// else the function stays as it was.
    pub fn try_optimize(func: &mut FunctionIR) -> (r: bool)
        ensures
            r == folds(old(func)@.blocks),
            r ==> same_frame(final(func), old(func)) && final(func)@.blocks == optimized(old(func)@.blocks),
            !r ==> *final(func) == *old(func),
    {
        proof {
            assert(old(func)@.blocks =~= blocks_view(old(func).blocks@));
        }
        if folds_check(&func.blocks) {
            Self::optimize(func);
            true
        } else {
            false
        }
    }

    fn constant_folding(func: &mut FunctionIR)
        requires
            folds(blocks_view(old(func).blocks@)),
        ensures
            same_frame(final(func), old(func)),
            blocks_view(final(func).blocks@) == fold_blocks(Map::empty(), blocks_view(old(func).blocks@))->Some_0.1,
    {
        let ghost orig = func.blocks@;
        let ghost all = blocks_view(orig);
        let mut old_blocks: Vec<BasicBlock> = Vec::new();
        std::mem::swap(&mut old_blocks, &mut func.blocks);
        let mut consts: BTreeMap<usize, i64> = BTreeMap::new();
        let mut new_blocks: Vec<BasicBlock> = Vec::new();
        proof {
            assert(blocks_view(new_blocks@) + blocks_view(old_blocks@) =~= all);
        }
        while old_blocks.len() > 0
            invariant
                fold_blocks(Map::empty(), all) is Some,
                fold_blocks(Map::empty(), all) == match fold_blocks(consts@, blocks_view(old_blocks@)) {
                    Some((c2, tail)) => Some((c2, blocks_view(new_blocks@) + tail)),
                    None => None::<(Map<usize, i64>, Seq<Seq<InstV>>)>,
                },
                new_blocks@.len() + old_blocks@.len() == orig.len(),
                forall|i: int|
                    0 <= i < new_blocks@.len() ==> (#[trigger] new_blocks@[i]).id == orig[i].id
                        && new_blocks@[i].successors@ == orig[i].successors@,
                forall|j: int|
                    0 <= j < old_blocks@.len() ==> #[trigger] old_blocks@[j] == orig[new_blocks@.len() + j],
            decreases old_blocks@.len(),
        {
            let ghost bv = blocks_view(old_blocks@);
            let ghost nv = blocks_view(new_blocks@);
            let ghost n0 = new_blocks@.len();
            let ghost cb = consts@;
            let mut blk = old_blocks.remove(0);
            proof {
                assert(bv[0] == insts_view(blk.insts@));
                assert(bv.drop_first() =~= blocks_view(old_blocks@));
                assert(blk == orig[n0 as int]);
                assert forall|j: int| 0 <= j < old_blocks@.len() implies #[trigger] old_blocks@[j] == orig[n0 + 1 + j] by {}
            }
            let mut insts: Vec<Instruction> = Vec::new();
            std::mem::swap(&mut insts, &mut blk.insts);
            blk.insts = fold_block_insts(insts, &mut consts);
            let ghost b1 = insts_view(blk.insts@);
            new_blocks.push(blk);
            proof {
                assert(fold_insts(cb, bv[0]) == Some((consts@, b1)));
                assert(blocks_view(new_blocks@) =~= nv.push(b1));
                match fold_blocks(consts@, blocks_view(old_blocks@)) {
                    Some((c2, tail)) => {
                        assert(nv.push(b1) + tail =~= nv + (seq![b1] + tail));
                    },
                    None => {},
                }
            }
        }
        func.blocks = new_blocks;
        proof {
            assert(blocks_view(old_blocks@) =~= Seq::<Seq<InstV>>::empty());
            assert(blocks_view(func.blocks@) + Seq::<Seq<InstV>>::empty() =~= blocks_view(func.blocks@));
        }
    }

    fn dead_code_elimination(func: &mut FunctionIR)
        ensures
            same_frame(final(func), old(func)),
            blocks_view(final(func).blocks@) == eliminate(blocks_view(old(func).blocks@)),
    {
        let ghost orig = func.blocks@;
        let ghost all = blocks_view(orig);
        let used = collect_uses(&func.blocks);
        let mut old_blocks: Vec<BasicBlock> = Vec::new();
        std::mem::swap(&mut old_blocks, &mut func.blocks);
        let mut new_blocks: Vec<BasicBlock> = Vec::new();
        while old_blocks.len() > 0
            invariant
                all == blocks_view(orig),
                used@ == blocks_uses(all),
                new_blocks@.len() + old_blocks@.len() == orig.len(),
                forall|i: int|
                    0 <= i < new_blocks@.len() ==> (#[trigger] new_blocks@[i]).id == orig[i].id
                        && new_blocks@[i].successors@ == orig[i].successors@
                        && insts_view(new_blocks@[i].insts@) == kept(all[i], used@),
                forall|j: int|
                    0 <= j < old_blocks@.len() ==> #[trigger] old_blocks@[j] == orig[new_blocks@.len() + j],
            decreases old_blocks@.len(),
        {
            let ghost n0 = new_blocks@.len();
            let mut blk = old_blocks.remove(0);
            proof {
                assert(blk == orig[n0 as int]);
                assert forall|j: int| 0 <= j < old_blocks@.len() implies #[trigger] old_blocks@[j] == orig[n0 + 1 + j] by {}
            }
            let mut insts: Vec<Instruction> = Vec::new();
            std::mem::swap(&mut insts, &mut blk.insts);
            proof {
                assert(insts_view(insts@) == all[n0 as int]);
            }
            blk.insts = keep_insts(insts, &used);
            new_blocks.push(blk);
            proof {
                assert(new_blocks@[n0 as int] == blk);
            }
        }
        func.blocks = new_blocks;
        proof {
            assert(blocks_view(func.blocks@) =~= eliminate(all));
        }
    }
}


/// Dead code elimination keeps exactly the instructions that `keeps`
/// accepts, calls and returns among them, and invents none.
pub proof fn lemma_kept_members(insts: Seq<InstV>, used: Set<usize>)
    ensures
        forall|i: int| 0 <= i < insts.len() && keeps(insts[i], used) ==> kept(insts, used).contains(#[trigger] insts[i]),
        forall|x: InstV| #[trigger] kept(insts, used).contains(x) ==> insts.contains(x) && keeps(x, used),
    decreases insts.len(),
{
    if insts.len() > 0 {
        let init = insts.drop_last();
        lemma_kept_members(init, used);
        let k0 = kept(init, used);
        let k = kept(insts, used);
        assert forall|i: int| 0 <= i < insts.len() && keeps(insts[i], used) implies k.contains(#[trigger] insts[i]) by {
            if i < insts.len() - 1 {
                assert(init[i] == insts[i]);
                assert(k0.contains(init[i]));
                let j = choose|j: int| 0 <= j < k0.len() && k0[j] == init[i];
                assert(k[j] == insts[i]);
            } else {
                assert(k[k.len() - 1] == insts[i]);
            }
        }
        assert forall|x: InstV| #[trigger] k.contains(x) implies insts.contains(x) && keeps(x, used) by {
            let j = choose|j: int| 0 <= j < k.len() && k[j] == x;
            if j < k0.len() {
                assert(k0[j] == x);
                assert(k0.contains(x));
                let m = choose|m: int| 0 <= m < init.len() && init[m] == x;
                assert(insts[m] == x);
            } else {
                assert(x == insts.last());
                assert(insts[insts.len() - 1] == x);
            }
        }
    }
}

} // verus!

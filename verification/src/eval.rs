use vstd::prelude::*;

use crate::codegen::{plan_instr, plan_ops, plan_push, plan_spec, WasmOp};
use crate::hir::{HirExprView, HirLiteralView, HirUnaryOp, hir_op_count};
use crate::lir::{lir_binop_of, lir_lower_instr, lir_lower_instrs, lir_operand_of, LirInstruction,
    LirInstructionKind, LirOperand};
use crate::mir::{mir_binop_of, mir_lower_expr_spec, MirOperandView};

verus! {

/// The arithmetic expression a program computes, over the constants' bit
/// patterns: the symbolic meaning shared by the LIR register machine and
/// the emitted stack machine.
pub enum ArithExp {
    Const(u64),
    Apply(LirInstructionKind, Box<ArithExp>, Box<ArithExp>),
}

/// The expression a register holds; an unwritten register reads as the zero
/// constant, exactly as a zero-initialized local slot does.
pub open spec fn reg_exp(regs: Map<int, ArithExp>, i: int) -> ArithExp {
    if regs.contains_key(i) {
        regs[i]
    } else {
        ArithExp::Const(0)
    }
}

/// The expression an operand denotes under a register assignment.
pub open spec fn operand_exp(regs: Map<int, ArithExp>, o: LirOperand) -> ArithExp {
    match o {
        LirOperand::Constant(b) => ArithExp::Const(b),
        LirOperand::Register(r) => reg_exp(regs, r as int),
    }
}

/// One LIR instruction executed symbolically: the destination register
/// receives the moved operand or the applied operation. Shapes the planner
/// rejects leave the registers unchanged.
pub open spec fn lir_sym_step(regs: Map<int, ArithExp>, i: LirInstruction) -> Map<int, ArithExp> {
    match i.dest {
        LirOperand::Constant(_) => regs,
        LirOperand::Register(d) => match i.kind {
            LirInstructionKind::Mov => regs.insert(d as int, operand_exp(regs, i.src1)),
            _ => match i.src2 {
                None => regs,
                Some(s2) => regs.insert(
                    d as int,
                    ArithExp::Apply(
                        i.kind,
                        Box::new(operand_exp(regs, i.src1)),
                        Box::new(operand_exp(regs, s2)),
                    ),
                ),
            },
        },
    }
}

/// A LIR program executed symbolically, in order.
pub open spec fn lir_sym_run(instrs: Seq<LirInstruction>, regs: Map<int, ArithExp>) -> Map<
    int,
    ArithExp,
>
    decreases instrs.len(),
{
    if instrs.len() == 0 {
        regs
    } else {
        lir_sym_step(lir_sym_run(instrs.drop_last(), regs), instrs.last())
    }
}

/// The expression a LIR program computes: what its last instruction's
/// destination register holds after the run.
pub open spec fn lir_computes(instrs: Seq<LirInstruction>) -> ArithExp {
    reg_exp(
        lir_sym_run(instrs, Map::empty()),
        crate::codegen::op_reg(instrs.last().dest),
    )
}

/// The arithmetic opcode of a stack operation; moves never reach here.
pub open spec fn kind_of_op(op: WasmOp) -> LirInstructionKind {
    match op {
        WasmOp::Add => LirInstructionKind::Add,
        WasmOp::Sub => LirInstructionKind::Sub,
        WasmOp::Mul => LirInstructionKind::Mul,
        WasmOp::Div => LirInstructionKind::Div,
        _ => LirInstructionKind::Mov,
    }
}

/// One stack operation executed symbolically over the operand stack and the
/// local slots (zero-initialized, as a wasm engine leaves them). `None`
/// marks a stack underflow, which a well-planned body never exhibits.
pub open spec fn plan_sym_step(
    stack: Seq<ArithExp>,
    slots: Map<int, ArithExp>,
    op: WasmOp,
) -> Option<(Seq<ArithExp>, Map<int, ArithExp>)> {
    match op {
        WasmOp::LocalGet(i) => Some((stack.push(reg_exp(slots, i as int)), slots)),
        WasmOp::LocalSet(i) => {
            if stack.len() > 0 {
                Some((stack.drop_last(), slots.insert(i as int, stack.last())))
            } else {
                None
            }
        },
        WasmOp::Const(b) => Some((stack.push(ArithExp::Const(b)), slots)),
        WasmOp::End => Some((stack, slots)),
        _ => {
            if stack.len() >= 2 {
                Some(
                    (
                        stack.drop_last().drop_last().push(
                            ArithExp::Apply(
                                kind_of_op(op),
                                Box::new(stack[stack.len() - 2]),
                                Box::new(stack.last()),
                            ),
                        ),
                        slots,
                    ),
                )
            } else {
                None
            }
        },
    }
}

/// A stack program executed symbolically, in order.
pub open spec fn plan_sym_run(
    ops: Seq<WasmOp>,
    stack: Seq<ArithExp>,
    slots: Map<int, ArithExp>,
) -> Option<(Seq<ArithExp>, Map<int, ArithExp>)>
    decreases ops.len(),
{
    if ops.len() == 0 {
        Some((stack, slots))
    } else {
        match plan_sym_run(ops.drop_last(), stack, slots) {
            None => None,
            Some((st, sl)) => plan_sym_step(st, sl, ops.last()),
        }
    }
}

/// The expression the emitted function body returns: the single value left
/// on the stack after running from empty state.
pub open spec fn module_sym_result(ops: Seq<WasmOp>) -> Option<ArithExp> {
    match plan_sym_run(ops, Seq::empty(), Map::empty()) {
        None => None,
        Some((stack, slots)) => {
            if stack.len() == 1 {
                Some(stack[0])
            } else {
                None
            }
        },
    }
}

proof fn lemma_run_concat(a: Seq<WasmOp>, b: Seq<WasmOp>, stack: Seq<ArithExp>, slots: Map<
    int,
    ArithExp,
>)
    ensures
        plan_sym_run(a + b, stack, slots) == match plan_sym_run(a, stack, slots) {
            None => None,
            Some((st, sl)) => plan_sym_run(b, st, sl),
        },
    decreases b.len(),
{
    if b.len() == 0 {
        assert(a + b =~= a);
    } else {
        assert((a + b).drop_last() =~= a + b.drop_last());
        assert((a + b).last() == b.last());
        lemma_run_concat(a, b.drop_last(), stack, slots);
    }
}

proof fn lemma_push_step(o: LirOperand, stack: Seq<ArithExp>, slots: Map<int, ArithExp>)
    requires
        plan_push(o) is Ok,
    ensures
        plan_sym_step(stack, slots, plan_push(o)->Ok_0) == Some(
            (stack.push(operand_exp(slots, o)), slots),
        ),
{
}

proof fn lemma_plan_instr_steps(i: LirInstruction, stack: Seq<ArithExp>, slots: Map<int, ArithExp>)
    requires
        plan_instr(i) is Ok,
    ensures
        plan_sym_run(plan_instr(i)->Ok_0, stack, slots) == Some((stack, lir_sym_step(slots, i))),
{
    let ops = plan_instr(i)->Ok_0;
    match i.dest {
        LirOperand::Constant(_) => {},
        LirOperand::Register(d) => {
            match i.kind {
                LirInstructionKind::Mov => {
                    let a = plan_push(i.src1)->Ok_0;
                    let va = operand_exp(slots, i.src1);
                    assert(ops == seq![a, WasmOp::LocalSet(d as u32)]);
                    assert(ops.drop_last() =~= seq![a]);
                    assert(seq![a].drop_last() =~= Seq::<WasmOp>::empty());
                    assert(plan_sym_run(Seq::empty(), stack, slots) == Some::<
                        (Seq<ArithExp>, Map<int, ArithExp>),
                    >((stack, slots)));
                    lemma_push_step(i.src1, stack, slots);
                    assert(plan_sym_run(seq![a], stack, slots) == Some::<
                        (Seq<ArithExp>, Map<int, ArithExp>),
                    >((stack.push(va), slots)));
                    assert(stack.push(va).drop_last() =~= stack);
                    assert(stack.push(va).last() == va);
                },
                _ => {
                    let s2 = i.src2->0;
                    let a = plan_push(i.src1)->Ok_0;
                    let b = plan_push(s2)->Ok_0;
                    let va = operand_exp(slots, i.src1);
                    let vb = operand_exp(slots, s2);
                    let applied = ArithExp::Apply(i.kind, Box::new(va), Box::new(vb));
                    assert(ops == seq![a, b, crate::codegen::arith_op(i.kind), WasmOp::LocalSet(d as u32)]);
                    assert(ops.drop_last() =~= seq![a, b, crate::codegen::arith_op(i.kind)]);
                    assert(seq![a, b, crate::codegen::arith_op(i.kind)].drop_last() =~= seq![a, b]);
                    assert(seq![a, b].drop_last() =~= seq![a]);
                    assert(seq![a].drop_last() =~= Seq::<WasmOp>::empty());
                    assert(plan_sym_run(Seq::empty(), stack, slots) == Some::<
                        (Seq<ArithExp>, Map<int, ArithExp>),
                    >((stack, slots)));
                    lemma_push_step(i.src1, stack, slots);
                    assert(plan_sym_run(seq![a], stack, slots) == Some::<
                        (Seq<ArithExp>, Map<int, ArithExp>),
                    >((stack.push(va), slots)));
                    lemma_push_step(s2, stack.push(va), slots);
                    assert(plan_sym_run(seq![a, b], stack, slots) == Some::<
                        (Seq<ArithExp>, Map<int, ArithExp>),
                    >((stack.push(va).push(vb), slots)));
                    let st2 = stack.push(va).push(vb);
                    assert(st2.len() >= 2);
                    assert(st2[st2.len() - 2] == va);
                    assert(st2.last() == vb);
                    assert(st2.drop_last().drop_last() =~= stack);
                    assert(kind_of_op(crate::codegen::arith_op(i.kind)) == i.kind);
                    assert(plan_sym_run(seq![a, b, crate::codegen::arith_op(i.kind)], stack, slots)
                        == Some::<(Seq<ArithExp>, Map<int, ArithExp>)>(
                        (stack.push(applied), slots),
                    ));
                    assert(stack.push(applied).drop_last() =~= stack);
                    assert(stack.push(applied).last() == applied);
                },
            }
        },
    }
}

proof fn lemma_plan_ops_run(instrs: Seq<LirInstruction>, stack: Seq<ArithExp>, slots: Map<
    int,
    ArithExp,
>)
    requires
        plan_ops(instrs) is Ok,
    ensures
        plan_sym_run(plan_ops(instrs)->Ok_0, stack, slots) == Some(
            (stack, lir_sym_run(instrs, slots)),
        ),
    decreases instrs.len(),
{
    if instrs.len() == 0 {
        assert(plan_ops(instrs)->Ok_0 =~= Seq::<WasmOp>::empty());
    } else {
        let front = plan_ops(instrs.drop_last())->Ok_0;
        let one = plan_instr(instrs.last())->Ok_0;
        lemma_plan_ops_run(instrs.drop_last(), stack, slots);
        lemma_run_concat(front, one, stack, slots);
        lemma_plan_instr_steps(instrs.last(), stack, lir_sym_run(instrs.drop_last(), slots));
    }
}

/// Code generation correctness: the emitted function body, run as a stack
/// machine with zero-initialized local slots, computes exactly the
/// arithmetic expression the LIR register program computes — the store/load
/// discipline binds every register to the local slot of the same index, so
/// every later read sees the stored value.
pub proof fn lemma_codegen_computes_lir(instrs: Seq<LirInstruction>)
    requires
        plan_spec(instrs) is Ok,
    ensures
        module_sym_result(plan_spec(instrs)->Ok_0.1) == Some(lir_computes(instrs)),
{
    let body = plan_ops(instrs)->Ok_0;
    let d = plan_spec(instrs)->Ok_0.1.last();
    let regs = lir_sym_run(instrs, Map::empty());
    match instrs.last().dest {
        LirOperand::Constant(_) => {},
        LirOperand::Register(r) => {
            let tail = seq![WasmOp::LocalGet(r as u32), WasmOp::End];
            assert(plan_spec(instrs)->Ok_0.1 == body + tail);
            lemma_plan_ops_run(instrs, Seq::empty(), Map::empty());
            lemma_run_concat(body, tail, Seq::empty(), Map::empty());
            let got = Seq::<ArithExp>::empty().push(reg_exp(regs, r as int));
            assert(tail.drop_last() =~= seq![WasmOp::LocalGet(r as u32)]);
            assert(seq![WasmOp::LocalGet(r as u32)].drop_last() =~= Seq::<WasmOp>::empty());
            assert(plan_sym_run(Seq::empty(), Seq::empty(), regs) == Some::<
                (Seq<ArithExp>, Map<int, ArithExp>),
            >((Seq::empty(), regs)));
            assert(plan_sym_run(seq![WasmOp::LocalGet(r as u32)], Seq::empty(), regs) == Some::<
                (Seq<ArithExp>, Map<int, ArithExp>),
            >((got, regs)));
            assert(plan_sym_run(tail, Seq::empty(), regs) == Some::<
                (Seq<ArithExp>, Map<int, ArithExp>),
            >((got, regs)));
            assert(got.len() == 1);
            assert(got[0] == reg_exp(regs, r as int));
        },
    }
}

/// The arithmetic expression a type-checked HIR tree denotes, over the
/// literals' bit patterns: negation reads as subtraction from the zero
/// constant, exactly as the LIR renders it. `None` for trees that reach
/// beyond this target's numeric fragment.
pub open spec fn hir_arith(e: HirExprView) -> Option<ArithExp>
    decreases e,
{
    match e {
        HirExprView::Literal { value, .. } => match value {
            HirLiteralView::Number(b) => Some(ArithExp::Const(b)),
            _ => None,
        },
        HirExprView::Binary { op, left, right, .. } => match lir_binop_of(mir_binop_of(op)) {
            None => None,
            Some(k) => match hir_arith(*left) {
                None => None,
                Some(a) => match hir_arith(*right) {
                    None => None,
                    Some(b) => Some(ArithExp::Apply(k, Box::new(a), Box::new(b))),
                },
            },
        },
        HirExprView::Unary { op, expr, .. } => match op {
            HirUnaryOp::Negate => match hir_arith(*expr) {
                None => None,
                Some(v) => Some(
                    ArithExp::Apply(
                        LirInstructionKind::Sub,
                        Box::new(ArithExp::Const(0)),
                        Box::new(v),
                    ),
                ),
            },
            HirUnaryOp::Not => None,
        },
    }
}

proof fn lemma_lir_run_concat(a: Seq<LirInstruction>, b: Seq<LirInstruction>, regs: Map<
    int,
    ArithExp,
>)
    ensures
        lir_sym_run(a + b, regs) == lir_sym_run(b, lir_sym_run(a, regs)),
    decreases b.len(),
{
    if b.len() == 0 {
        assert(a + b =~= a);
    } else {
        assert((a + b).drop_last() =~= a + b.drop_last());
        assert((a + b).last() == b.last());
        lemma_lir_run_concat(a, b.drop_last(), regs);
    }
}

proof fn lemma_lir_instrs_concat(a: Seq<crate::mir::MirInstructionView>, b: Seq<
    crate::mir::MirInstructionView,
>)
    ensures
        lir_lower_instrs(a + b) == match lir_lower_instrs(a) {
            Err(e) => Err(e),
            Ok(fa) => match lir_lower_instrs(b) {
                Err(e) => Err(e),
                Ok(fb) => Ok(fa + fb),
            },
        },
    decreases b.len(),
{
    if b.len() == 0 {
        assert(a + b =~= a);
        if lir_lower_instrs(a) is Ok {
            assert(lir_lower_instrs(a)->Ok_0 + Seq::<LirInstruction>::empty() =~= lir_lower_instrs(
                a,
            )->Ok_0);
        }
    } else {
        assert((a + b).drop_last() =~= a + b.drop_last());
        assert((a + b).last() == b.last());
        lemma_lir_instrs_concat(a, b.drop_last());
        if lir_lower_instrs(a) is Ok && lir_lower_instrs(b.drop_last()) is Ok && lir_lower_instr(
            b.last(),
        ) is Ok {
            assert((lir_lower_instrs(a)->Ok_0 + lir_lower_instrs(b.drop_last())->Ok_0).push(
                lir_lower_instr(b.last())->Ok_0,
            ) =~= lir_lower_instrs(a)->Ok_0 + (lir_lower_instrs(b.drop_last())->Ok_0).push(
                lir_lower_instr(b.last())->Ok_0,
            ));
        }
    }
}

/// Lowering correctness for one subtree: running the flat instructions of
/// its MIR lowering writes only the registers the subtree claims, and
/// leaves the subtree's value — its arithmetic expression — readable
/// through the operand the lowering hands back.
proof fn lemma_subtree_computes(e: HirExprView, next: int, regs: Map<int, ArithExp>)
    requires
        0 <= next,
        next + hir_op_count(e) <= usize::MAX,
        lir_lower_instrs(mir_lower_expr_spec(e, next).0) is Ok,
        lir_operand_of(mir_lower_expr_spec(e, next).1) is Ok,
    ensures
        ({
            let (ins, op, n) = mir_lower_expr_spec(e, next);
            let lins = lir_lower_instrs(ins)->Ok_0;
            let regs2 = lir_sym_run(lins, regs);
            &&& hir_arith(e) is Some
            &&& operand_exp(regs2, lir_operand_of(op)->Ok_0) == hir_arith(e)->0
            &&& forall|j: int| !(next <= j < n) ==> reg_exp(regs2, j) == reg_exp(regs, j)
        }),
    decreases e,
{
    crate::mir::lemma_mir_registers(e, next);
    crate::hir::lemma_hir_op_count_nonneg(e);
    match e {
        HirExprView::Literal { value, expr_type } => {
            assert(mir_lower_expr_spec(e, next).0 =~= Seq::<crate::mir::MirInstructionView>::empty());
            assert(lir_lower_instrs(mir_lower_expr_spec(e, next).0)->Ok_0 =~= Seq::<
                LirInstruction,
            >::empty());
        },
        HirExprView::Binary { op, left, right, expr_type } => {
            let (li, lo, n1) = mir_lower_expr_spec(*left, next);
            let (ri, ro, n2) = mir_lower_expr_spec(*right, n1);
            let (ins, o, n) = mir_lower_expr_spec(e, next);
            crate::mir::lemma_mir_registers(*left, next);
            crate::mir::lemma_mir_registers(*right, n1);
            crate::hir::lemma_hir_op_count_nonneg(*left);
            crate::hir::lemma_hir_op_count_nonneg(*right);
            let inst = crate::mir::MirInstructionView {
                kind: crate::mir::MirInstructionKindView::BinaryOp(mir_binop_of(op), lo, ro),
                dest: MirOperandView::Register(n2),
                ty: expr_type,
            };
            assert(ins == li + ri + seq![inst]);
            lemma_lir_instrs_concat(li + ri, seq![inst]);
            lemma_lir_instrs_concat(li, ri);
            assert(lir_lower_instrs(li) is Ok);
            assert(lir_lower_instrs(ri) is Ok);
            assert(seq![inst].drop_last() =~= Seq::<crate::mir::MirInstructionView>::empty());
            assert(lir_lower_instr(inst) is Ok);
            assert(lir_operand_of(lo) is Ok);
            assert(lir_operand_of(ro) is Ok);
            let lli = lir_lower_instrs(li)->Ok_0;
            let lri = lir_lower_instrs(ri)->Ok_0;
            let flat = lir_lower_instr(inst)->Ok_0;
            assert(lir_lower_instrs(Seq::<crate::mir::MirInstructionView>::empty()) == Ok::<
                Seq<LirInstruction>,
                crate::hir::LowerErrorView,
            >(Seq::empty()));
            assert(lir_lower_instrs(ins)->Ok_0 =~= lli + lri + seq![flat]) by {
                assert(lir_lower_instrs(seq![inst])->Ok_0 =~= Seq::<LirInstruction>::empty().push(
                    flat,
                ));
            }
            lemma_subtree_computes(*left, next, regs);
            let regs_l = lir_sym_run(lli, regs);
            lemma_subtree_computes(*right, n1, regs_l);
            let regs_r = lir_sym_run(lri, regs_l);
            lemma_lir_run_concat(lli + lri, seq![flat], regs);
            lemma_lir_run_concat(lli, lri, regs);
            assert(seq![flat].drop_last() =~= Seq::<LirInstruction>::empty());
            assert(lir_sym_run(lli + lri, regs) == regs_r);
            assert(lir_sym_run(Seq::<LirInstruction>::empty(), regs_r) == regs_r);
            let regs2 = lir_sym_run(lir_lower_instrs(ins)->Ok_0, regs);
            assert(regs2 == lir_sym_step(regs_r, flat));
            // the left operand's value survives the right subtree's writes:
            // it is a constant or a register below the right subtree's range
            assert(operand_exp(regs_r, lir_operand_of(lo)->Ok_0) == hir_arith(*left)->0) by {
                match lo {
                    MirOperandView::Literal(_) => {},
                    MirOperandView::Register(rr) => {
                        assert(rr == n1 - 1);
                        assert(reg_exp(regs_r, rr) == reg_exp(regs_l, rr));
                    },
                }
            }
            assert(regs2 == regs_r.insert(
                n2 as usize as int,
                ArithExp::Apply(
                    lir_binop_of(mir_binop_of(op))->0,
                    Box::new(operand_exp(regs_r, lir_operand_of(lo)->Ok_0)),
                    Box::new(operand_exp(regs_r, lir_operand_of(ro)->Ok_0)),
                ),
            ));
            assert(n2 as usize as int == n2);
        },
        HirExprView::Unary { op, expr, expr_type } => {
            let (ei, eo, n1) = mir_lower_expr_spec(*expr, next);
            let (ins, o, n) = mir_lower_expr_spec(e, next);
            crate::mir::lemma_mir_registers(*expr, next);
            crate::hir::lemma_hir_op_count_nonneg(*expr);
            let inst = crate::mir::MirInstructionView {
                kind: crate::mir::MirInstructionKindView::UnaryOp(crate::mir::mir_unop_of(op), eo),
                dest: MirOperandView::Register(n1),
                ty: expr_type,
            };
            assert(ins == ei + seq![inst]);
            lemma_lir_instrs_concat(ei, seq![inst]);
            assert(lir_lower_instrs(ei) is Ok);
            assert(seq![inst].drop_last() =~= Seq::<crate::mir::MirInstructionView>::empty());
            assert(lir_lower_instr(inst) is Ok);
            assert(op == HirUnaryOp::Negate);
            assert(lir_operand_of(eo) is Ok);
            let lei = lir_lower_instrs(ei)->Ok_0;
            let flat = lir_lower_instr(inst)->Ok_0;
            assert(lir_lower_instrs(Seq::<crate::mir::MirInstructionView>::empty()) == Ok::<
                Seq<LirInstruction>,
                crate::hir::LowerErrorView,
            >(Seq::empty()));
            assert(lir_lower_instrs(ins)->Ok_0 =~= lei + seq![flat]) by {
                assert(lir_lower_instrs(seq![inst])->Ok_0 =~= Seq::<LirInstruction>::empty().push(
                    flat,
                ));
            }
            lemma_subtree_computes(*expr, next, regs);
            let regs_e = lir_sym_run(lei, regs);
            lemma_lir_run_concat(lei, seq![flat], regs);
            assert(seq![flat].drop_last() =~= Seq::<LirInstruction>::empty());
            assert(lir_sym_run(Seq::<LirInstruction>::empty(), regs_e) == regs_e);
            let regs2 = lir_sym_run(lir_lower_instrs(ins)->Ok_0, regs);
            assert(regs2 == lir_sym_step(regs_e, flat));
            assert(regs2 == regs_e.insert(
                n1 as usize as int,
                ArithExp::Apply(
                    LirInstructionKind::Sub,
                    Box::new(ArithExp::Const(0)),
                    Box::new(operand_exp(regs_e, lir_operand_of(eo)->Ok_0)),
                ),
            ));
            assert(n1 as usize as int == n1);
        },
    }
}

/// Lowering correctness for a whole tree: when the MIR program of a HIR
/// tree lowers flat, the flat register program computes exactly the tree's
/// arithmetic expression; in particular the tree lies in the numeric
/// fragment.
pub proof fn lemma_lowering_computes_hir(h: HirExprView)
    requires
        hir_op_count(h) < usize::MAX,
        crate::lir::lir_lower_spec(crate::mir::mir_lower_spec(h)) is Ok,
    ensures
        hir_arith(h) is Some,
        crate::lir::lir_lower_spec(crate::mir::mir_lower_spec(h))->Ok_0.len() > 0,
        lir_computes(crate::lir::lir_lower_spec(crate::mir::mir_lower_spec(h))->Ok_0)
            == hir_arith(h)->0,
{
    crate::hir::lemma_hir_op_count_nonneg(h);
    crate::mir::lemma_mir_registers(h, 0);
    let blocks = crate::mir::mir_lower_spec(h);
    let (ins, op, n) = mir_lower_expr_spec(h, 0);
    let empty_blocks = Seq::<crate::mir::MirBasicBlockView>::empty();
    assert(blocks.drop_last() =~= empty_blocks);
    assert(crate::lir::lir_lower_spec(empty_blocks) == Ok::<
        Seq<LirInstruction>,
        crate::hir::LowerErrorView,
    >(Seq::empty()));
    assert(crate::lir::mir_count(empty_blocks) == 0);
    assert(crate::lir::lir_lower_block(blocks.last(), 0) is Ok);
    assert(lir_lower_instrs(ins) is Ok);
    assert(lir_operand_of(op) is Ok);
    let lins = lir_lower_instrs(ins)->Ok_0;
    let src = lir_operand_of(op)->Ok_0;
    let mov = LirInstruction {
        kind: LirInstructionKind::Mov,
        dest: LirOperand::Register((0 + ins.len()) as usize),
        src1: src,
        src2: None,
    };
    let full = crate::lir::lir_lower_spec(blocks)->Ok_0;
    assert(full =~= lins.push(mov));
    lemma_subtree_computes(h, 0, Map::empty());
    let regs2 = lir_sym_run(lins, Map::empty());
    assert(full.drop_last() =~= lins);
    assert(full.last() == mov);
    let regs3 = lir_sym_run(full, Map::empty());
    assert(regs3 == lir_sym_step(regs2, mov));
    assert(ins.len() == hir_op_count(h));
    let k = hir_op_count(h);
    assert(regs3 == regs2.insert(k as usize as int, operand_exp(regs2, src)));
    assert(k as usize as int == k);
    assert(lir_computes(full) == reg_exp(regs3, k));
}

} // verus!

use vstd::prelude::*;

use crate::hir::{dup_hir_literal, HirLiteral, HirLiteralView, LowerError, LowerErrorView};
use crate::mir::{MirBasicBlock, MirBasicBlockView, MirBinaryOp, MirInstructionKindView,
    MirInstructionView, MirOperand, MirOperandView, MirTerminator, MirTerminatorView, MirUnaryOp};

verus! {

/// The flat opcodes of the LIR.
#[derive(Debug, Clone, Copy, PartialEq, Eq, Structural)]
pub enum LirInstructionKind {
    Add,
    Sub,
    Mul,
    Div,
    Mov,
}

/// A LIR operand: a register (same index as in the MIR) or a numeric
/// constant, carried as the IEEE-754 binary64 bit pattern of its value.
/// Only numeric values survive to this representation.
#[derive(Debug, Clone, Copy, PartialEq, Eq)]
pub enum LirOperand {
    Register(usize),
    Constant(u64),
}

/// One flat instruction: an opcode, a destination and one or two sources.
#[derive(Debug, Clone, Copy, PartialEq, Eq)]
pub struct LirInstruction {
    pub kind: LirInstructionKind,
    pub dest: LirOperand,
    pub src1: LirOperand,
    pub src2: Option<LirOperand>,
}

/// The flat opcode a MIR binary operator maps to; comparisons have no flat
/// representation.
pub open spec fn lir_binop_of(op: MirBinaryOp) -> Option<LirInstructionKind> {
    match op {
        MirBinaryOp::Add => Some(LirInstructionKind::Add),
        MirBinaryOp::Subtract => Some(LirInstructionKind::Sub),
        MirBinaryOp::Multiply => Some(LirInstructionKind::Mul),
        MirBinaryOp::Divide => Some(LirInstructionKind::Div),
        _ => None,
    }
}

/// A MIR operand resolved for the LIR: a register keeps its index, a
/// numeric literal becomes a constant, and any other literal has no
/// representation on this target.
pub open spec fn lir_operand_of(o: MirOperandView) -> Result<LirOperand, LowerErrorView> {
    match o {
        MirOperandView::Literal(l) => match l {
            HirLiteralView::Number(b) => Ok(LirOperand::Constant(b)),
            _ => Err(LowerErrorView::NonNumericOperand(l)),
        },
        MirOperandView::Register(r) => Ok(LirOperand::Register(r as usize)),
    }
}

/// One MIR instruction rewritten flat: arithmetic keeps both sources,
/// negation becomes a subtraction from the zero constant, logical not is
/// unsupported (its operand is boolean), and a load becomes a move.
pub open spec fn lir_lower_instr(inst: MirInstructionView) -> Result<
    LirInstruction,
    LowerErrorView,
> {
    match inst.kind {
        MirInstructionKindView::BinaryOp(op, s1, s2) => match lir_binop_of(op) {
            None => Err(LowerErrorView::UnsupportedBinaryOp(op)),
            Some(k) => match lir_operand_of(inst.dest) {
                Err(e) => Err(e),
                Ok(d) => match lir_operand_of(s1) {
                    Err(e) => Err(e),
                    Ok(a) => match lir_operand_of(s2) {
                        Err(e) => Err(e),
                        Ok(b) => Ok(
                            LirInstruction { kind: k, dest: d, src1: a, src2: Some(b) },
                        ),
                    },
                },
            },
        },
        MirInstructionKindView::UnaryOp(op, s) => match op {
            MirUnaryOp::Negate => match lir_operand_of(inst.dest) {
                Err(e) => Err(e),
                Ok(d) => match lir_operand_of(s) {
                    Err(e) => Err(e),
                    Ok(a) => Ok(
                        LirInstruction {
                            kind: LirInstructionKind::Sub,
                            dest: d,
                            src1: LirOperand::Constant(0),
                            src2: Some(a),
                        },
                    ),
                },
            },
            MirUnaryOp::Not => Err(LowerErrorView::UnsupportedUnaryOp(op)),
        },
        MirInstructionKindView::Load(s) => match lir_operand_of(inst.dest) {
            Err(e) => Err(e),
            Ok(d) => match lir_operand_of(s) {
                Err(e) => Err(e),
                Ok(a) => Ok(
                    LirInstruction {
                        kind: LirInstructionKind::Mov,
                        dest: d,
                        src1: a,
                        src2: None,
                    },
                ),
            },
        },
    }
}

/// The instructions of one block rewritten in order; the first error wins.
pub open spec fn lir_lower_instrs(instrs: Seq<MirInstructionView>) -> Result<
    Seq<LirInstruction>,
    LowerErrorView,
>
    decreases instrs.len(),
{
    if instrs.len() == 0 {
        Ok(Seq::empty())
    } else {
        match lir_lower_instrs(instrs.drop_last()) {
            Err(e) => Err(e),
            Ok(front) => match lir_lower_instr(instrs.last()) {
                Err(e) => Err(e),
                Ok(one) => Ok(front.push(one)),
            },
        }
    }
}

/// One block rewritten flat: its instructions in order, then its `Return`
/// terminator materialized as a move of the returned operand into the next
/// register index (`seen` counts the MIR instructions of earlier blocks, and
/// each MIR instruction claims one register, so that index is fresh). The
/// other terminators are not produced today and are rejected.
pub open spec fn lir_lower_block(b: MirBasicBlockView, seen: int) -> Result<
    Seq<LirInstruction>,
    LowerErrorView,
> {
    match lir_lower_instrs(b.instructions) {
        Err(e) => Err(e),
        Ok(body) => match b.terminator {
            MirTerminatorView::Return(o) => match lir_operand_of(o) {
                Err(e) => Err(e),
                Ok(src) => Ok(
                    body.push(
                        LirInstruction {
                            kind: LirInstructionKind::Mov,
                            dest: LirOperand::Register((seen + b.instructions.len()) as usize),
                            src1: src,
                            src2: None,
                        },
                    ),
                ),
            },
            _ => Err(LowerErrorView::UnsupportedTerminator),
        },
    }
}

/// The number of MIR instructions across a block sequence.
pub open spec fn mir_count(blocks: Seq<MirBasicBlockView>) -> int
    decreases blocks.len(),
{
    if blocks.len() == 0 {
        0
    } else {
        mir_count(blocks.drop_last()) + blocks.last().instructions.len()
    }
}

/// A whole MIR program rewritten flat, block by block.
pub open spec fn lir_lower_spec(blocks: Seq<MirBasicBlockView>) -> Result<
    Seq<LirInstruction>,
    LowerErrorView,
>
    decreases blocks.len(),
{
    if blocks.len() == 0 {
        Ok(Seq::empty())
    } else {
        match lir_lower_spec(blocks.drop_last()) {
            Err(e) => Err(e),
            Ok(front) => match lir_lower_block(blocks.last(), mir_count(blocks.drop_last())) {
                Err(e) => Err(e),
                Ok(one) => Ok(front + one),
            },
        }
    }
}

/// The views of a block vector.
pub open spec fn bviews(blocks: Seq<MirBasicBlock>) -> Seq<MirBasicBlockView> {
    blocks.map_values(|b: MirBasicBlock| b@)
}

proof fn lemma_mir_count_nonneg(blocks: Seq<MirBasicBlockView>)
    ensures
        0 <= mir_count(blocks),
    decreases blocks.len(),
{
    if blocks.len() > 0 {
        lemma_mir_count_nonneg(blocks.drop_last());
    }
}

proof fn lemma_mir_count_step(blocks: Seq<MirBasicBlockView>, j: int)
    requires
        0 <= j < blocks.len(),
    ensures
        mir_count(blocks.take(j + 1)) == mir_count(blocks.take(j)) + blocks[j].instructions.len(),
{
    assert(blocks.take(j + 1).drop_last() =~= blocks.take(j));
}

proof fn lemma_mir_count_mono(blocks: Seq<MirBasicBlockView>, j: int)
    requires
        0 <= j <= blocks.len(),
    ensures
        mir_count(blocks.take(j)) <= mir_count(blocks),
    decreases blocks.len() - j,
{
    if j < blocks.len() {
        lemma_mir_count_step(blocks, j);
        let b = blocks[j];
        assert(b.instructions.len() >= 0);
        lemma_mir_count_mono(blocks, j + 1);
    } else {
        assert(blocks.take(j) =~= blocks);
    }
}

proof fn lemma_lir_instrs_err(instrs: Seq<MirInstructionView>, j: int)
    requires
        0 <= j <= instrs.len(),
        lir_lower_instrs(instrs.take(j)) is Err,
    ensures
        lir_lower_instrs(instrs) == lir_lower_instrs(instrs.take(j)),
    decreases instrs.len() - j,
{
    if j < instrs.len() {
        assert(instrs.take(j + 1).drop_last() =~= instrs.take(j));
        lemma_lir_instrs_err(instrs, j + 1);
    } else {
        assert(instrs.take(j) =~= instrs);
    }
}

proof fn lemma_lir_blocks_err(blocks: Seq<MirBasicBlockView>, j: int)
    requires
        0 <= j <= blocks.len(),
        lir_lower_spec(blocks.take(j)) is Err,
    ensures
        lir_lower_spec(blocks) == lir_lower_spec(blocks.take(j)),
    decreases blocks.len() - j,
{
    if j < blocks.len() {
        assert(blocks.take(j + 1).drop_last() =~= blocks.take(j));
        lemma_lir_blocks_err(blocks, j + 1);
    } else {
        assert(blocks.take(j) =~= blocks);
    }
}

fn lower_operand_x(o: &MirOperand) -> (r: Result<LirOperand, LowerError>)
    ensures
        r matches Ok(x) ==> lir_operand_of(o@) == Ok::<LirOperand, LowerErrorView>(x),
        r matches Err(e) ==> lir_operand_of(o@) == Err::<LirOperand, LowerErrorView>(e@),
{
    match o {
        MirOperand::Literal(HirLiteral::Number(b)) => Ok(LirOperand::Constant(*b)),
        MirOperand::Literal(l) => Err(LowerError::NonNumericOperand(dup_hir_literal(l))),
        MirOperand::Register(r) => Ok(LirOperand::Register(*r)),
    }
}

fn lower_instr_x(inst: &crate::mir::MirInstruction) -> (r: Result<LirInstruction, LowerError>)
    ensures
        r matches Ok(x) ==> lir_lower_instr(inst@) == Ok::<LirInstruction, LowerErrorView>(x),
        r matches Err(e) ==> lir_lower_instr(inst@) == Err::<LirInstruction, LowerErrorView>(e@),
{
    match &inst.kind {
        crate::mir::MirInstructionKind::BinaryOp(op, s1, s2) => {
            let k = match op {
                MirBinaryOp::Add => LirInstructionKind::Add,
                MirBinaryOp::Subtract => LirInstructionKind::Sub,
                MirBinaryOp::Multiply => LirInstructionKind::Mul,
                MirBinaryOp::Divide => LirInstructionKind::Div,
                _ => {
                    return Err(LowerError::UnsupportedBinaryOp(*op));
                },
            };
            let d = match lower_operand_x(&inst.dest) {
                Ok(x) => x,
                Err(e) => {
                    return Err(e);
                },
            };
            let a = match lower_operand_x(s1) {
                Ok(x) => x,
                Err(e) => {
                    return Err(e);
                },
            };
            let b = match lower_operand_x(s2) {
                Ok(x) => x,
                Err(e) => {
                    return Err(e);
                },
            };
            Ok(LirInstruction { kind: k, dest: d, src1: a, src2: Some(b) })
        },
        crate::mir::MirInstructionKind::UnaryOp(op, s) => match op {
            MirUnaryOp::Negate => {
                let d = match lower_operand_x(&inst.dest) {
                    Ok(x) => x,
                    Err(e) => {
                        return Err(e);
                    },
                };
                let a = match lower_operand_x(s) {
                    Ok(x) => x,
                    Err(e) => {
                        return Err(e);
                    },
                };
                Ok(
                    LirInstruction {
                        kind: LirInstructionKind::Sub,
                        dest: d,
                        src1: LirOperand::Constant(0),
                        src2: Some(a),
                    },
                )
            },
            MirUnaryOp::Not => Err(LowerError::UnsupportedUnaryOp(*op)),
        },
        crate::mir::MirInstructionKind::Load(s) => {
            let d = match lower_operand_x(&inst.dest) {
                Ok(x) => x,
                Err(e) => {
                    return Err(e);
                },
            };
            let a = match lower_operand_x(s) {
                Ok(x) => x,
                Err(e) => {
                    return Err(e);
                },
            };
            Ok(LirInstruction { kind: LirInstructionKind::Mov, dest: d, src1: a, src2: None })
        },
    }
}

/// The MIR to LIR lowering pass.
pub struct LirLowerer;

impl LirLowerer {
    pub fn new() -> (r: Self) {
        LirLowerer
    }

    /// Rewrites the blocks' instructions into the flat list, exactly as
    /// `lir_lower_spec` does.
    pub fn lower(&self, blocks: Vec<MirBasicBlock>) -> (r: Result<Vec<LirInstruction>, LowerError>)
        requires
            mir_count(bviews(blocks@)) <= usize::MAX,
        ensures
            r matches Ok(v) ==> lir_lower_spec(bviews(blocks@)) == Ok::<
                Seq<LirInstruction>,
                LowerErrorView,
            >(v@),
            r matches Err(e) ==> lir_lower_spec(bviews(blocks@)) == Err::<
                Seq<LirInstruction>,
                LowerErrorView,
            >(e@),
    {
        let ghost bv = bviews(blocks@);
        let mut out: Vec<LirInstruction> = Vec::new();
        let mut seen: usize = 0;
        let nb = blocks.len();
        let mut bi: usize = 0;
        proof {
            assert(bv.take(0) =~= Seq::<MirBasicBlockView>::empty());
        }
        while bi < nb
            invariant
                bv == bviews(blocks@),
                nb == blocks@.len(),
                bi <= nb,
                mir_count(bv) <= usize::MAX,
                seen as int == mir_count(bv.take(bi as int)),
                lir_lower_spec(bv.take(bi as int)) == Ok::<Seq<LirInstruction>, LowerErrorView>(
                    out@,
                ),
            decreases nb - bi,
        {
            let ghost prefix = bv.take(bi as int);
            proof {
                assert(bv[bi as int] == blocks@[bi as int]@);
                lemma_mir_count_step(bv, bi as int);
                lemma_mir_count_mono(bv, bi as int + 1);
                lemma_mir_count_nonneg(prefix);
            }
            let block = &blocks[bi];
            let ni = block.instructions.len();
            let mut body: Vec<LirInstruction> = Vec::new();
            let mut j: usize = 0;
            proof {
                assert(block@.instructions.take(0) =~= Seq::<MirInstructionView>::empty());
            }
            while j < ni
                invariant
                    bv == bviews(blocks@),
                    nb == blocks@.len(),
                    bi < nb,
                    bv[bi as int] == blocks@[bi as int]@,
                    ni == blocks@[bi as int].instructions@.len(),
                    j <= ni,
                    prefix == bv.take(bi as int),
                    lir_lower_spec(prefix) == Ok::<Seq<LirInstruction>, LowerErrorView>(out@),
                    lir_lower_instrs(blocks@[bi as int]@.instructions.take(j as int)) == Ok::<
                        Seq<LirInstruction>,
                        LowerErrorView,
                    >(body@),
                decreases ni - j,
            {
                let ghost iv = blocks@[bi as int]@.instructions;
                proof {
                    assert(iv[j as int] == blocks@[bi as int].instructions@[j as int]@);
                    assert(iv.take(j as int + 1).drop_last() =~= iv.take(j as int));
                    assert(iv.take(j as int + 1).last() == iv[j as int]);
                }
                match lower_instr_x(&blocks[bi].instructions[j]) {
                    Ok(one) => {
                        body.push(one);
                    },
                    Err(e) => {
                        proof {
                            let ghost bvi = bv[bi as int];
                            assert(lir_lower_instrs(iv.take(j as int + 1)) == Err::<
                                Seq<LirInstruction>,
                                LowerErrorView,
                            >(e@));
                            lemma_lir_instrs_err(iv, j as int + 1);
                            assert(lir_lower_block(bvi, mir_count(prefix)) == Err::<
                                Seq<LirInstruction>,
                                LowerErrorView,
                            >(e@));
                            assert(bv.take(bi as int + 1).drop_last() =~= prefix);
                            assert(bv.take(bi as int + 1).last() == bvi);
                            assert(lir_lower_spec(bv.take(bi as int + 1)) == Err::<
                                Seq<LirInstruction>,
                                LowerErrorView,
                            >(e@));
                            lemma_lir_blocks_err(bv, bi as int + 1);
                        }
                        return Err(e);
                    },
                }
                j += 1;
            }
            let ghost bvi = bv[bi as int];
            proof {
                assert(bvi.instructions.take(ni as int) =~= bvi.instructions);
            }
            let src = match &block.terminator {
                MirTerminator::Return(o) => match lower_operand_x(o) {
                    Ok(x) => x,
                    Err(e) => {
                        proof {
                            assert(lir_lower_block(bvi, mir_count(prefix)) == Err::<
                                Seq<LirInstruction>,
                                LowerErrorView,
                            >(e@));
                            assert(bv.take(bi as int + 1).drop_last() =~= prefix);
                            assert(bv.take(bi as int + 1).last() == bvi);
                            lemma_lir_blocks_err(bv, bi as int + 1);
                        }
                        return Err(e);
                    },
                },
                _ => {
                    let e = LowerError::UnsupportedTerminator;
                    proof {
                        assert(lir_lower_block(bvi, mir_count(prefix)) == Err::<
                            Seq<LirInstruction>,
                            LowerErrorView,
                        >(e@));
                        assert(bv.take(bi as int + 1).drop_last() =~= prefix);
                        assert(bv.take(bi as int + 1).last() == bvi);
                        lemma_lir_blocks_err(bv, bi as int + 1);
                    }
                    return Err(e);
                },
            };
            let mov = LirInstruction {
                kind: LirInstructionKind::Mov,
                dest: LirOperand::Register(seen + ni),
                src1: src,
                src2: None,
            };
            body.push(mov);
            let ghost bodyv = body@;
            let ghost out0 = out@;
            out.append(&mut body);
            proof {
                assert(ni as int == bvi.instructions.len());
                assert(lir_lower_block(bvi, mir_count(prefix)) == Ok::<
                    Seq<LirInstruction>,
                    LowerErrorView,
                >(bodyv));
                assert(bv.take(bi as int + 1).drop_last() =~= prefix);
                assert(bv.take(bi as int + 1).last() == bvi);
                assert(out@ == out0 + bodyv);
                assert(lir_lower_spec(bv.take(bi as int + 1)) == Ok::<
                    Seq<LirInstruction>,
                    LowerErrorView,
                >(out@));
            }
            seen = seen + ni;
            bi += 1;
        }
        proof {
            assert(bv.take(nb as int) =~= bv);
        }
        Ok(out)
    }
}

} // verus!

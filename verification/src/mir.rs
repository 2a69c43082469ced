use vstd::prelude::*;

use crate::hir::{HirBinaryOp, HirExpr, HirExprView, HirLiteral, HirLiteralView, HirUnaryOp,
    LowerError, hir_op_count, hir_view};
use crate::semantic::Type;

verus! {

/// A MIR operand: a literal value or a virtual register.
#[derive(Debug, Clone, PartialEq)]
pub enum MirOperand {
    Literal(HirLiteral),
    Register(usize),
}

/// The mathematical image of a `MirOperand`.
pub enum MirOperandView {
    Literal(HirLiteralView),
    Register(int),
}

impl View for MirOperand {
    type V = MirOperandView;

    open spec fn view(&self) -> MirOperandView {
        match self {
            MirOperand::Literal(l) => MirOperandView::Literal(l@),
            MirOperand::Register(r) => MirOperandView::Register(*r as int),
        }
    }
}

/// The closed binary operator set of the MIR.
#[derive(Debug, Clone, Copy, PartialEq, Eq, Structural)]
pub enum MirBinaryOp {
    Add,
    Subtract,
    Multiply,
    Divide,
    Equal,
    NotEqual,
    GreaterThan,
    LessThan,
    GreaterThanOrEqual,
    LessThanOrEqual,
}

/// The closed unary operator set of the MIR.
#[derive(Debug, Clone, Copy, PartialEq, Eq, Structural)]
pub enum MirUnaryOp {
    Negate,
    Not,
}

/// One three-address operation over operands.
#[derive(Debug, Clone, PartialEq)]
pub enum MirInstructionKind {
    BinaryOp(MirBinaryOp, MirOperand, MirOperand),
    UnaryOp(MirUnaryOp, MirOperand),
    Load(MirOperand),
}

/// The mathematical image of a `MirInstructionKind`.
pub enum MirInstructionKindView {
    BinaryOp(MirBinaryOp, MirOperandView, MirOperandView),
    UnaryOp(MirUnaryOp, MirOperandView),
    Load(MirOperandView),
}

impl View for MirInstructionKind {
    type V = MirInstructionKindView;

    open spec fn view(&self) -> MirInstructionKindView {
        match self {
            MirInstructionKind::BinaryOp(op, a, b) => MirInstructionKindView::BinaryOp(
                *op,
                a@,
                b@,
            ),
            MirInstructionKind::UnaryOp(op, a) => MirInstructionKindView::UnaryOp(*op, a@),
            MirInstructionKind::Load(a) => MirInstructionKindView::Load(a@),
        }
    }
}

/// One register-based instruction: an operation, its destination register
/// and its result type.
#[derive(Debug, Clone, PartialEq)]
pub struct MirInstruction {
    pub kind: MirInstructionKind,
    pub dest: MirOperand,
    pub ty: Type,
}

/// The mathematical image of a `MirInstruction`.
pub struct MirInstructionView {
    pub kind: MirInstructionKindView,
    pub dest: MirOperandView,
    pub ty: Type,
}

impl View for MirInstruction {
    type V = MirInstructionView;

    open spec fn view(&self) -> MirInstructionView {
        MirInstructionView { kind: self.kind@, dest: self.dest@, ty: self.ty }
    }
}

/// The instruction ending a basic block. Only `Return` is produced today;
/// `Goto` and `Branch` are representational headroom for future control
/// flow and must not be emitted by this lowering.
#[derive(Debug, Clone, PartialEq)]
pub enum MirTerminator {
    Return(MirOperand),
    Goto(usize),
    Branch(MirOperand, usize, usize),
}

/// The mathematical image of a `MirTerminator`.
pub enum MirTerminatorView {
    Return(MirOperandView),
    Goto(int),
    Branch(MirOperandView, int, int),
}

impl View for MirTerminator {
    type V = MirTerminatorView;

    open spec fn view(&self) -> MirTerminatorView {
        match self {
            MirTerminator::Return(o) => MirTerminatorView::Return(o@),
            MirTerminator::Goto(b) => MirTerminatorView::Goto(*b as int),
            MirTerminator::Branch(o, t, f) => MirTerminatorView::Branch(o@, *t as int, *f as int),
        }
    }
}

/// A straight-line instruction sequence ending in exactly one terminator.
#[derive(Debug, Clone, PartialEq)]
pub struct MirBasicBlock {
    pub instructions: Vec<MirInstruction>,
    pub terminator: MirTerminator,
}

/// The mathematical image of a `MirBasicBlock`.
pub struct MirBasicBlockView {
    pub instructions: Seq<MirInstructionView>,
    pub terminator: MirTerminatorView,
}

impl View for MirBasicBlock {
    type V = MirBasicBlockView;

    open spec fn view(&self) -> MirBasicBlockView {
        MirBasicBlockView {
            instructions: self.instructions@.map_values(|i: MirInstruction| i@),
            terminator: self.terminator@,
        }
    }
}

/// The MIR operator a HIR binary operator lowers to.
pub open spec fn mir_binop_of(op: HirBinaryOp) -> MirBinaryOp {
    match op {
        HirBinaryOp::Add => MirBinaryOp::Add,
        HirBinaryOp::Subtract => MirBinaryOp::Subtract,
        HirBinaryOp::Multiply => MirBinaryOp::Multiply,
        HirBinaryOp::Divide => MirBinaryOp::Divide,
        HirBinaryOp::Equal => MirBinaryOp::Equal,
        HirBinaryOp::NotEqual => MirBinaryOp::NotEqual,
        HirBinaryOp::GreaterThan => MirBinaryOp::GreaterThan,
        HirBinaryOp::LessThan => MirBinaryOp::LessThan,
        HirBinaryOp::GreaterThanOrEqual => MirBinaryOp::GreaterThanOrEqual,
        HirBinaryOp::LessThanOrEqual => MirBinaryOp::LessThanOrEqual,
    }
}

/// The MIR operator a HIR unary operator lowers to.
pub open spec fn mir_unop_of(op: HirUnaryOp) -> MirUnaryOp {
    match op {
        HirUnaryOp::Negate => MirUnaryOp::Negate,
        HirUnaryOp::Not => MirUnaryOp::Not,
    }
}

/// Post-order lowering of one HIR node with `next` as the next fresh
/// register: the instructions emitted, the operand that carries the node's
/// value, and the register counter afterwards. A literal emits nothing and
/// consumes no register; a composite node evaluates its operands first,
/// then claims one fresh register.
pub open spec fn mir_lower_expr_spec(e: HirExprView, next: int) -> (
    Seq<MirInstructionView>,
    MirOperandView,
    int,
)
    decreases e,
{
    match e {
        HirExprView::Literal { value, expr_type } => (
            Seq::empty(),
            MirOperandView::Literal(value),
            next,
        ),
        HirExprView::Binary { op, left, right, expr_type } => {
            let (li, lo, n1) = mir_lower_expr_spec(*left, next);
            let (ri, ro, n2) = mir_lower_expr_spec(*right, n1);
            let inst = MirInstructionView {
                kind: MirInstructionKindView::BinaryOp(mir_binop_of(op), lo, ro),
                dest: MirOperandView::Register(n2),
                ty: expr_type,
            };
            (li + ri + seq![inst], MirOperandView::Register(n2), n2 + 1)
        },
        HirExprView::Unary { op, expr, expr_type } => {
            let (ei, eo, n1) = mir_lower_expr_spec(*expr, next);
            let inst = MirInstructionView {
                kind: MirInstructionKindView::UnaryOp(mir_unop_of(op), eo),
                dest: MirOperandView::Register(n1),
                ty: expr_type,
            };
            (ei + seq![inst], MirOperandView::Register(n1), n1 + 1)
        },
    }
}

/// The single basic block a whole HIR tree lowers to: its instructions and
/// a `Return` of the tree's value.
pub open spec fn mir_lower_spec(e: HirExprView) -> Seq<MirBasicBlockView> {
    let (instrs, operand, n) = mir_lower_expr_spec(e, 0);
    seq![
        MirBasicBlockView {
            instructions: instrs,
            terminator: MirTerminatorView::Return(operand),
        },
    ]
}

/// Register allocation law: lowering from counter `next` emits exactly one
/// instruction per operator application, the i-th instruction's destination
/// is register `next + i` (so registers are consecutive, never reused), its
/// register sources are all below its destination, and the resulting value
/// is the last register (or the literal itself when nothing was emitted).
pub proof fn lemma_mir_registers(e: HirExprView, next: int)
    ensures
        ({
            let (instrs, operand, n) = mir_lower_expr_spec(e, next);
            &&& instrs.len() == hir_op_count(e)
            &&& n == next + instrs.len()
            &&& forall|i: int|
                0 <= i < instrs.len() ==> (#[trigger] instrs[i]).dest == MirOperandView::Register(
                    next + i,
                )
            &&& if instrs.len() == 0 {
                operand is Literal
            } else {
                operand == MirOperandView::Register(n - 1)
            }
        }),
    decreases e,
{
    match e {
        HirExprView::Literal { .. } => {},
        HirExprView::Binary { op, left, right, expr_type } => {
            lemma_mir_registers(*left, next);
            let (li, lo, n1) = mir_lower_expr_spec(*left, next);
            lemma_mir_registers(*right, n1);
            let (ri, ro, n2) = mir_lower_expr_spec(*right, n1);
            let instrs = mir_lower_expr_spec(e, next).0;
            assert forall|i: int| 0 <= i < instrs.len() implies (#[trigger] instrs[i]).dest
                == MirOperandView::Register(next + i) by {
                if i < li.len() {
                    assert(instrs[i] == li[i]);
                } else if i < li.len() + ri.len() {
                    assert(instrs[i] == ri[i - li.len()]);
                }
            }
        },
        HirExprView::Unary { op, expr, expr_type } => {
            lemma_mir_registers(*expr, next);
            let (ei, eo, n1) = mir_lower_expr_spec(*expr, next);
            let instrs = mir_lower_expr_spec(e, next).0;
            assert forall|i: int| 0 <= i < instrs.len() implies (#[trigger] instrs[i]).dest
                == MirOperandView::Register(next + i) by {
                if i < ei.len() {
                    assert(instrs[i] == ei[i]);
                }
            }
        },
    }
}

/// The MIR lowering pass: a monotonically increasing register counter and
/// an accumulating instruction list, scoped to one compilation.
pub struct MirLowerer {
    instructions: Vec<MirInstruction>,
    registers: usize,
}

impl MirLowerer {
    /// The instructions accumulated so far.
    pub closed spec fn instrs(&self) -> Seq<MirInstructionView> {
        self.instructions@.map_values(|i: MirInstruction| i@)
    }

    /// The next fresh register.
    pub closed spec fn regs(&self) -> int {
        self.registers as int
    }

    pub fn new() -> (r: Self)
        ensures
            r.instrs() == Seq::<MirInstructionView>::empty(),
            r.regs() == 0,
    {
        let r = MirLowerer { instructions: Vec::new(), registers: 0 };
        proof {
            assert(r.instrs() =~= Seq::<MirInstructionView>::empty());
        }
        r
    }

    fn new_register(&mut self) -> (r: usize)
        requires
            old(self).regs() < usize::MAX,
        ensures
            r as int == old(self).regs(),
            final(self).regs() == old(self).regs() + 1,
            final(self).instrs() == old(self).instrs(),
    {
        let register = self.registers;
        self.registers = self.registers + 1;
        register
    }

    fn lower_expr(&mut self, expr: HirExpr) -> (r: MirOperand)
        requires
            old(self).regs() + hir_op_count(expr@) <= usize::MAX,
        ensures
            ({
                let (ins, op, n) = mir_lower_expr_spec(expr@, old(self).regs());
                &&& final(self).instrs() == old(self).instrs() + ins
                &&& final(self).regs() == n
                &&& r@ == op
            }),
        decreases expr,
    {
        proof {
            lemma_mir_registers(expr@, old(self).regs());
        }
        match expr {
            HirExpr::Literal { value, expr_type } => {
                proof {
                    assert(final(self).instrs() =~= old(self).instrs() + Seq::<
                        MirInstructionView,
                    >::empty());
                }
                MirOperand::Literal(value)
            },
            HirExpr::Binary { op, left, right, expr_type } => {
                let ghost lv = hir_view(*left);
                let ghost rv = hir_view(*right);
                let ghost r0 = old(self).regs();
                proof {
                    lemma_mir_registers(lv, r0);
                    lemma_mir_registers(rv, mir_lower_expr_spec(lv, r0).2);
                }
                let lo = self.lower_expr(*left);
                let ro = self.lower_expr(*right);
                let kind = match op {
                    HirBinaryOp::Add => MirBinaryOp::Add,
                    HirBinaryOp::Subtract => MirBinaryOp::Subtract,
                    HirBinaryOp::Multiply => MirBinaryOp::Multiply,
                    HirBinaryOp::Divide => MirBinaryOp::Divide,
                    HirBinaryOp::Equal => MirBinaryOp::Equal,
                    HirBinaryOp::NotEqual => MirBinaryOp::NotEqual,
                    HirBinaryOp::GreaterThan => MirBinaryOp::GreaterThan,
                    HirBinaryOp::LessThan => MirBinaryOp::LessThan,
                    HirBinaryOp::GreaterThanOrEqual => MirBinaryOp::GreaterThanOrEqual,
                    HirBinaryOp::LessThanOrEqual => MirBinaryOp::LessThanOrEqual,
                };
                let dest = self.new_register();
                let ghost pre = self.instructions@;
                self.instructions.push(
                    MirInstruction {
                        kind: MirInstructionKind::BinaryOp(kind, lo, ro),
                        dest: MirOperand::Register(dest),
                        ty: expr_type,
                    },
                );
                proof {
                    let lspec = mir_lower_expr_spec(lv, r0);
                    let rspec = mir_lower_expr_spec(rv, lspec.2);
                    let inst = MirInstructionView {
                        kind: MirInstructionKindView::BinaryOp(mir_binop_of(op), lspec.1, rspec.1),
                        dest: MirOperandView::Register(rspec.2),
                        ty: expr_type,
                    };
                    assert(self.instructions@.drop_last() =~= pre);
                    assert(self.instrs() =~= old(self).instrs() + lspec.0 + rspec.0 + seq![inst]);
                    assert(expr@ == HirExprView::Binary {
                        op,
                        left: Box::new(lv),
                        right: Box::new(rv),
                        expr_type,
                    });
                    assert(mir_lower_expr_spec(expr@, r0).0 =~= lspec.0 + rspec.0 + seq![inst]);
                    assert(self.instrs() =~= old(self).instrs() + mir_lower_expr_spec(
                        expr@,
                        r0,
                    ).0);
                }
                MirOperand::Register(dest)
            },
            HirExpr::Unary { op, expr: inner, expr_type } => {
                let ghost ev = hir_view(*inner);
                let ghost r0 = old(self).regs();
                let eo = self.lower_expr(*inner);
                let kind = match op {
                    HirUnaryOp::Negate => MirUnaryOp::Negate,
                    HirUnaryOp::Not => MirUnaryOp::Not,
                };
                let dest = self.new_register();
                let ghost pre = self.instructions@;
                self.instructions.push(
                    MirInstruction {
                        kind: MirInstructionKind::UnaryOp(kind, eo),
                        dest: MirOperand::Register(dest),
                        ty: expr_type,
                    },
                );
                proof {
                    let espec = mir_lower_expr_spec(ev, r0);
                    let inst = MirInstructionView {
                        kind: MirInstructionKindView::UnaryOp(mir_unop_of(op), espec.1),
                        dest: MirOperandView::Register(espec.2),
                        ty: expr_type,
                    };
                    assert(self.instructions@.drop_last() =~= pre);
                    assert(self.instrs() =~= old(self).instrs() + espec.0 + seq![inst]);
                    assert(mir_lower_expr_spec(expr@, r0).0 =~= espec.0 + seq![inst]);
                    assert(self.instrs() =~= old(self).instrs() + mir_lower_expr_spec(
                        expr@,
                        r0,
                    ).0);
                }
                MirOperand::Register(dest)
            },
        }
    }

    /// Lowers a whole HIR tree into one basic block whose instructions are
    /// the accumulated list plus those the tree emits, terminated by a
    /// `Return` of the tree's value. Never fails; the `Result` shape leaves
    /// room for constructs later extensions may reject.
    pub fn lower(&mut self, expr: HirExpr) -> (r: Result<Vec<MirBasicBlock>, LowerError>)
        requires
            old(self).regs() + hir_op_count(expr@) <= usize::MAX,
        ensures
            ({
                let (ins, op, n) = mir_lower_expr_spec(expr@, old(self).regs());
                &&& r matches Ok(blocks) && blocks@.map_values(|b: MirBasicBlock| b@) == seq![
                    MirBasicBlockView {
                        instructions: old(self).instrs() + ins,
                        terminator: MirTerminatorView::Return(op),
                    },
                ]
                &&& final(self).instrs() == Seq::<MirInstructionView>::empty()
                &&& final(self).regs() == n
            }),
    {
        let result = self.lower_expr(expr);
        let terminator = MirTerminator::Return(result);
        let mut taken: Vec<MirInstruction> = Vec::new();
        core::mem::swap(&mut taken, &mut self.instructions);
        let block = MirBasicBlock { instructions: taken, terminator };
        let mut blocks: Vec<MirBasicBlock> = Vec::new();
        blocks.push(block);
        proof {
            assert(final(self).instrs() =~= Seq::<MirInstructionView>::empty());
            let (ins, op, n) = mir_lower_expr_spec(expr@, old(self).regs());
            assert(blocks@.map_values(|b: MirBasicBlock| b@) =~= seq![
                MirBasicBlockView {
                    instructions: old(self).instrs() + ins,
                    terminator: MirTerminatorView::Return(op),
                },
            ]);
        }
        Ok(blocks)
    }
}

} // verus!

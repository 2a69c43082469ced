use vstd::prelude::*;

use crate::ast::{ast_ops, Expr, ExprView};
use crate::semantic::{analyze_spec, literal_type, Type, TypeErrorView};
use crate::token::{dup_token, Operation, Reserved, Token, TokenView};

verus! {

/// The closed binary operator set of the HIR: the four arithmetic operators
/// and the six comparisons.
#[derive(Debug, Clone, Copy, PartialEq, Eq, Structural)]
pub enum HirBinaryOp {
    Add,
    Subtract,
    Multiply,
    Divide,
    Equal,
    NotEqual,
    GreaterThan,
    LessThan,
    GreaterThanOrEqual,
    LessThanOrEqual,
}

/// The closed unary operator set of the HIR.
#[derive(Debug, Clone, Copy, PartialEq, Eq, Structural)]
pub enum HirUnaryOp {
    Negate,
    Not,
}

/// A literal value, decoupled from raw tokens. A number is the IEEE-754
/// binary64 bit pattern of its value.
#[derive(Debug, Clone, PartialEq)]
pub enum HirLiteral {
    Number(u64),
    String(String),
    Boolean(bool),
    Null,
}

/// The mathematical image of a `HirLiteral`.
pub enum HirLiteralView {
    Number(u64),
    StrLit(Seq<char>),
    Boolean(bool),
    Null,
}

impl View for HirLiteral {
    type V = HirLiteralView;

    open spec fn view(&self) -> HirLiteralView {
        match self {
            HirLiteral::Number(b) => HirLiteralView::Number(*b),
            HirLiteral::String(s) => HirLiteralView::StrLit(s@),
            HirLiteral::Boolean(b) => HirLiteralView::Boolean(*b),
            HirLiteral::Null => HirLiteralView::Null,
        }
    }
}

/// A structural copy of a literal, equal to the original in view.
pub fn dup_hir_literal(l: &HirLiteral) -> (r: HirLiteral)
    ensures
        r@ == l@,
{
    match l {
        HirLiteral::Number(b) => HirLiteral::Number(*b),
        HirLiteral::String(s) => HirLiteral::String(s.clone()),
        HirLiteral::Boolean(b) => HirLiteral::Boolean(*b),
        HirLiteral::Null => HirLiteral::Null,
    }
}

/// The explicitly-typed high-level expression tree: the AST re-expressed
/// over the closed operator and literal sets, every node carrying its
/// resolved type.
#[derive(Debug, PartialEq)]
pub enum HirExpr {
    Binary { op: HirBinaryOp, left: Box<HirExpr>, right: Box<HirExpr>, expr_type: Type },
    Literal { value: HirLiteral, expr_type: Type },
    Unary { op: HirUnaryOp, expr: Box<HirExpr>, expr_type: Type },
}

/// The mathematical image of a `HirExpr`.
pub enum HirExprView {
    Binary { op: HirBinaryOp, left: Box<HirExprView>, right: Box<HirExprView>, expr_type: Type },
    Literal { value: HirLiteralView, expr_type: Type },
    Unary { op: HirUnaryOp, expr: Box<HirExprView>, expr_type: Type },
}

/// The image of a HIR tree, structurally.
pub open spec fn hir_view(e: HirExpr) -> HirExprView
    decreases e,
{
    match e {
        HirExpr::Binary { op, left, right, expr_type } => HirExprView::Binary {
            op,
            left: Box::new(hir_view(*left)),
            right: Box::new(hir_view(*right)),
            expr_type,
        },
        HirExpr::Literal { value, expr_type } => HirExprView::Literal {
            value: value@,
            expr_type,
        },
        HirExpr::Unary { op, expr, expr_type } => HirExprView::Unary {
            op,
            expr: Box::new(hir_view(*expr)),
            expr_type,
        },
    }
}

impl View for HirExpr {
    type V = HirExprView;

    open spec fn view(&self) -> HirExprView {
        hir_view(*self)
    }
}

/// The resolved type a HIR node carries.
pub open spec fn hir_ty(e: HirExprView) -> Type {
    match e {
        HirExprView::Binary { expr_type, .. } => expr_type,
        HirExprView::Literal { expr_type, .. } => expr_type,
        HirExprView::Unary { expr_type, .. } => expr_type,
    }
}

/// The number of operator applications in a HIR tree: one per binary or
/// unary node.
pub open spec fn hir_op_count(e: HirExprView) -> int
    decreases e,
{
    match e {
        HirExprView::Binary { left, right, .. } => 1 + hir_op_count(*left) + hir_op_count(*right),
        HirExprView::Literal { .. } => 0,
        HirExprView::Unary { expr, .. } => 1 + hir_op_count(*expr),
    }
}

/// An operator count is never negative.
pub proof fn lemma_hir_op_count_nonneg(e: HirExprView)
    ensures
        0 <= hir_op_count(e),
    decreases e,
{
    match e {
        HirExprView::Binary { left, right, .. } => {
            lemma_hir_op_count_nonneg(*left);
            lemma_hir_op_count_nonneg(*right);
        },
        HirExprView::Literal { .. } => {},
        HirExprView::Unary { expr, .. } => {
            lemma_hir_op_count_nonneg(*expr);
        },
    }
}

/// Lowering failure: an operator token outside the closed HIR sets, an
/// invalid literal kind, a type error discovered while resolving node
/// types, or a construct a later lowering stage cannot represent.
#[derive(Debug, Clone, PartialEq)]
pub enum LowerError {
    InvalidBinaryOperator(Token),
    InvalidUnaryOperator(Token),
    InvalidLiteral(Token),
    BinaryTypeMismatch { operator: Token, left: Type, right: Type },
    UnaryTypeMismatch { operator: Token, operand: Type },
    UnsupportedBinaryOp(crate::mir::MirBinaryOp),
    UnsupportedUnaryOp(crate::mir::MirUnaryOp),
    NonNumericOperand(HirLiteral),
    UnsupportedTerminator,
}

/// The mathematical image of a `LowerError`.
pub enum LowerErrorView {
    InvalidBinaryOperator(TokenView),
    InvalidUnaryOperator(TokenView),
    InvalidLiteral(TokenView),
    BinaryTypeMismatch { operator: TokenView, left: Type, right: Type },
    UnaryTypeMismatch { operator: TokenView, operand: Type },
    UnsupportedBinaryOp(crate::mir::MirBinaryOp),
    UnsupportedUnaryOp(crate::mir::MirUnaryOp),
    NonNumericOperand(HirLiteralView),
    UnsupportedTerminator,
}

impl View for LowerError {
    type V = LowerErrorView;

    open spec fn view(&self) -> LowerErrorView {
        match self {
            LowerError::InvalidBinaryOperator(t) => LowerErrorView::InvalidBinaryOperator(t@),
            LowerError::InvalidUnaryOperator(t) => LowerErrorView::InvalidUnaryOperator(t@),
            LowerError::InvalidLiteral(t) => LowerErrorView::InvalidLiteral(t@),
            LowerError::BinaryTypeMismatch { operator, left, right } => {
                LowerErrorView::BinaryTypeMismatch { operator: operator@, left: *left, right: *right }
            },
            LowerError::UnaryTypeMismatch { operator, operand } => {
                LowerErrorView::UnaryTypeMismatch { operator: operator@, operand: *operand }
            },
            LowerError::UnsupportedBinaryOp(op) => LowerErrorView::UnsupportedBinaryOp(*op),
            LowerError::UnsupportedUnaryOp(op) => LowerErrorView::UnsupportedUnaryOp(*op),
            LowerError::NonNumericOperand(l) => LowerErrorView::NonNumericOperand(l@),
            LowerError::UnsupportedTerminator => LowerErrorView::UnsupportedTerminator,
        }
    }
}

/// The HIR binary operator an operator token maps to, if any.
pub open spec fn binop_of(t: TokenView) -> Option<HirBinaryOp> {
    match t {
        TokenView::Operation(op) => match op {
            Operation::Add => Some(HirBinaryOp::Add),
            Operation::Subtract => Some(HirBinaryOp::Subtract),
            Operation::Multiply => Some(HirBinaryOp::Multiply),
            Operation::Divide => Some(HirBinaryOp::Divide),
            Operation::IfEqual => Some(HirBinaryOp::Equal),
            Operation::NotEqual => Some(HirBinaryOp::NotEqual),
            Operation::Greater => Some(HirBinaryOp::GreaterThan),
            Operation::Less => Some(HirBinaryOp::LessThan),
            Operation::GreaterEqual => Some(HirBinaryOp::GreaterThanOrEqual),
            Operation::LessEqual => Some(HirBinaryOp::LessThanOrEqual),
            _ => None,
        },
        _ => None,
    }
}

/// The HIR unary operator an operator token maps to, if any.
pub open spec fn unop_of(t: TokenView) -> Option<HirUnaryOp> {
    match t {
        TokenView::Operation(op) => {
            if op == Operation::Subtract {
                Some(HirUnaryOp::Negate)
            } else if op == Operation::Not {
                Some(HirUnaryOp::Not)
            } else {
                None
            }
        },
        _ => None,
    }
}

/// The literal payload and type a literal token lowers to, if any.
pub open spec fn hir_literal_of(t: TokenView) -> Option<(HirLiteralView, Type)> {
    match t {
        TokenView::Number(b) => Some((HirLiteralView::Number(b), Type::Float)),
        TokenView::StrLit(s) => Some((HirLiteralView::StrLit(s), Type::String)),
        TokenView::Reserved(r) => {
            if r == Reserved::True {
                Some((HirLiteralView::Boolean(true), Type::Boolean))
            } else if r == Reserved::False {
                Some((HirLiteralView::Boolean(false), Type::Boolean))
            } else if r == Reserved::Null {
                Some((HirLiteralView::Null, Type::Null))
            } else {
                None
            }
        },
        _ => None,
    }
}

/// AST to HIR lowering: operands first, then the operator mapping, then the
/// node's type, resolved by the same rules the semantic analyzer applies so
/// that every node carries the analyzer's type.
pub open spec fn hir_lower_spec(e: ExprView) -> Result<HirExprView, LowerErrorView>
    decreases e,
{
    match e {
        ExprView::Binary { left, operator, right } => match hir_lower_spec(*left) {
            Err(er) => Err(er),
            Ok(l) => match hir_lower_spec(*right) {
                Err(er) => Err(er),
                Ok(r) => match binop_of(operator) {
                    None => Err(LowerErrorView::InvalidBinaryOperator(operator)),
                    Some(op) => {
                        if hir_ty(l) != hir_ty(r) {
                            Err(
                                LowerErrorView::BinaryTypeMismatch {
                                    operator,
                                    left: hir_ty(l),
                                    right: hir_ty(r),
                                },
                            )
                        } else {
                            Ok(
                                HirExprView::Binary {
                                    op,
                                    left: Box::new(l),
                                    right: Box::new(r),
                                    expr_type: hir_ty(l),
                                },
                            )
                        }
                    },
                },
            },
        },
        ExprView::Grouping { expression } => hir_lower_spec(*expression),
        ExprView::Literal { value } => match hir_literal_of(value) {
            None => Err(LowerErrorView::InvalidLiteral(value)),
            Some((lit, ty)) => Ok(HirExprView::Literal { value: lit, expr_type: ty }),
        },
        ExprView::Unary { operator, right } => match hir_lower_spec(*right) {
            Err(er) => Err(er),
            Ok(r) => match unop_of(operator) {
                None => Err(LowerErrorView::InvalidUnaryOperator(operator)),
                Some(op) => {
                    if op == HirUnaryOp::Negate {
                        if hir_ty(r) != Type::Float && hir_ty(r) != Type::Integer {
                            Err(
                                LowerErrorView::UnaryTypeMismatch {
                                    operator,
                                    operand: hir_ty(r),
                                },
                            )
                        } else {
                            Ok(
                                HirExprView::Unary {
                                    op,
                                    expr: Box::new(r),
                                    expr_type: hir_ty(r),
                                },
                            )
                        }
                    } else {
                        if hir_ty(r) != Type::Boolean {
                            Err(
                                LowerErrorView::UnaryTypeMismatch {
                                    operator,
                                    operand: hir_ty(r),
                                },
                            )
                        } else {
                            Ok(
                                HirExprView::Unary {
                                    op,
                                    expr: Box::new(r),
                                    expr_type: Type::Boolean,
                                },
                            )
                        }
                    }
                },
            },
        },
    }
}

/// Type propagation law: a HIR node produced by lowering carries exactly
/// the type the semantic analyzer computes for the corresponding AST node;
/// in particular, lowering succeeds only on trees the analyzer accepts.
pub proof fn lemma_hir_types_match_analyzer(e: ExprView)
    ensures
        hir_lower_spec(e) matches Ok(h) ==> analyze_spec(e) == Ok::<Type, TypeErrorView>(
            hir_ty(h),
        ),
    decreases e,
{
    match e {
        ExprView::Binary { left, operator, right } => {
            lemma_hir_types_match_analyzer(*left);
            lemma_hir_types_match_analyzer(*right);
        },
        ExprView::Grouping { expression } => {
            lemma_hir_types_match_analyzer(*expression);
        },
        ExprView::Literal { value } => {},
        ExprView::Unary { operator, right } => {
            lemma_hir_types_match_analyzer(*right);
        },
    }
}

/// Lowering preserves the operator count: grouping nodes vanish and every
/// binary or unary node maps to exactly one HIR node.
pub proof fn lemma_hir_ops(e: ExprView)
    ensures
        hir_lower_spec(e) matches Ok(h) ==> hir_op_count(h) == ast_ops(e),
    decreases e,
{
    match e {
        ExprView::Binary { left, operator, right } => {
            lemma_hir_ops(*left);
            lemma_hir_ops(*right);
        },
        ExprView::Grouping { expression } => {
            lemma_hir_ops(*expression);
        },
        ExprView::Literal { value } => {},
        ExprView::Unary { operator, right } => {
            lemma_hir_ops(*right);
        },
    }
}

fn hir_type_of(e: &HirExpr) -> (t: Type)
    ensures
        t == hir_ty(e@),
{
    match e {
        HirExpr::Binary { expr_type, .. } => *expr_type,
        HirExpr::Literal { expr_type, .. } => *expr_type,
        HirExpr::Unary { expr_type, .. } => *expr_type,
    }
}

/// The AST to HIR lowering pass.
pub struct HirLowerer;

impl HirLowerer {
    pub fn new() -> (r: Self) {
        HirLowerer
    }

    /// Lowers an AST into the HIR exactly as `hir_lower_spec` does.
    pub fn lower(&self, expr: &Expr) -> (r: Result<HirExpr, LowerError>)
        ensures
            r matches Ok(h) ==> hir_lower_spec(expr@) == Ok::<HirExprView, LowerErrorView>(h@),
            r matches Err(e) ==> hir_lower_spec(expr@) == Err::<HirExprView, LowerErrorView>(e@),
        decreases *expr,
    {
        match expr {
            Expr::Binary { left, operator, right } => {
                let l = match self.lower(left) {
                    Ok(x) => x,
                    Err(e) => {
                        return Err(e);
                    },
                };
                let r = match self.lower(right) {
                    Ok(x) => x,
                    Err(e) => {
                        return Err(e);
                    },
                };
                let op = match operator {
                    Token::Operation(Operation::Add) => HirBinaryOp::Add,
                    Token::Operation(Operation::Subtract) => HirBinaryOp::Subtract,
                    Token::Operation(Operation::Multiply) => HirBinaryOp::Multiply,
                    Token::Operation(Operation::Divide) => HirBinaryOp::Divide,
                    Token::Operation(Operation::IfEqual) => HirBinaryOp::Equal,
                    Token::Operation(Operation::NotEqual) => HirBinaryOp::NotEqual,
                    Token::Operation(Operation::Greater) => HirBinaryOp::GreaterThan,
                    Token::Operation(Operation::Less) => HirBinaryOp::LessThan,
                    Token::Operation(Operation::GreaterEqual) => HirBinaryOp::GreaterThanOrEqual,
                    Token::Operation(Operation::LessEqual) => HirBinaryOp::LessThanOrEqual,
                    _ => {
                        return Err(LowerError::InvalidBinaryOperator(dup_token(operator)));
                    },
                };
                let lt = hir_type_of(&l);
                let rt = hir_type_of(&r);
                if lt != rt {
                    Err(
                        LowerError::BinaryTypeMismatch {
                            operator: dup_token(operator),
                            left: lt,
                            right: rt,
                        },
                    )
                } else {
                    Ok(
                        HirExpr::Binary {
                            op,
                            left: Box::new(l),
                            right: Box::new(r),
                            expr_type: lt,
                        },
                    )
                }
            },
            Expr::Grouping { expression } => self.lower(expression),
            Expr::Literal { value } => {
                let (lit, ty): (HirLiteral, Type) = match value {
                    Token::Number(b) => (HirLiteral::Number(*b), Type::Float),
                    Token::String(s) => (HirLiteral::String(s.clone()), Type::String),
                    Token::Reserved(Reserved::True) => (HirLiteral::Boolean(true), Type::Boolean),
                    Token::Reserved(Reserved::False) => (
                        HirLiteral::Boolean(false),
                        Type::Boolean,
                    ),
                    Token::Reserved(Reserved::Null) => (HirLiteral::Null, Type::Null),
                    _ => {
                        return Err(LowerError::InvalidLiteral(dup_token(value)));
                    },
                };
                Ok(HirExpr::Literal { value: lit, expr_type: ty })
            },
            Expr::Unary { operator, right } => {
                let r = match self.lower(right) {
                    Ok(x) => x,
                    Err(e) => {
                        return Err(e);
                    },
                };
                let rt = hir_type_of(&r);
                match operator {
                    Token::Operation(Operation::Subtract) => {
                        if rt != Type::Float && rt != Type::Integer {
                            Err(
                                LowerError::UnaryTypeMismatch {
                                    operator: dup_token(operator),
                                    operand: rt,
                                },
                            )
                        } else {
                            Ok(
                                HirExpr::Unary {
                                    op: HirUnaryOp::Negate,
                                    expr: Box::new(r),
                                    expr_type: rt,
                                },
                            )
                        }
                    },
                    Token::Operation(Operation::Not) => {
                        if rt != Type::Boolean {
                            Err(
                                LowerError::UnaryTypeMismatch {
                                    operator: dup_token(operator),
                                    operand: rt,
                                },
                            )
                        } else {
                            Ok(
                                HirExpr::Unary {
                                    op: HirUnaryOp::Not,
                                    expr: Box::new(r),
                                    expr_type: Type::Boolean,
                                },
                            )
                        }
                    },
                    _ => Err(LowerError::InvalidUnaryOperator(dup_token(operator))),
                }
            },
        }
    }
}

} // verus!

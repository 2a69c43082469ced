use vstd::prelude::*;

use crate::token::{Token, TokenView};

verus! {

/// The parsed expression tree. Every node owns its subtrees exclusively;
/// operators and literal payloads are carried as the originating tokens.
#[derive(Debug, PartialEq)]
pub enum Expr {
    Binary { left: Box<Expr>, operator: Token, right: Box<Expr> },
    Unary { operator: Token, right: Box<Expr> },
    Literal { value: Token },
    Grouping { expression: Box<Expr> },
}

/// The mathematical image of an `Expr`.
pub enum ExprView {
    Binary { left: Box<ExprView>, operator: TokenView, right: Box<ExprView> },
    Unary { operator: TokenView, right: Box<ExprView> },
    Literal { value: TokenView },
    Grouping { expression: Box<ExprView> },
}

/// The image of an expression tree, structurally.
pub open spec fn expr_view(e: Expr) -> ExprView
    decreases e,
{
    match e {
        Expr::Binary { left, operator, right } => ExprView::Binary {
            left: Box::new(expr_view(*left)),
            operator: operator@,
            right: Box::new(expr_view(*right)),
        },
        Expr::Unary { operator, right } => ExprView::Unary {
            operator: operator@,
            right: Box::new(expr_view(*right)),
        },
        Expr::Literal { value } => ExprView::Literal { value: value@ },
        Expr::Grouping { expression } => ExprView::Grouping {
            expression: Box::new(expr_view(*expression)),
        },
    }
}

impl View for Expr {
    type V = ExprView;

    open spec fn view(&self) -> ExprView {
        expr_view(*self)
    }
}

/// The number of operator applications in an expression tree: one per
/// binary or unary node; grouping is transparent.
pub open spec fn ast_ops(e: ExprView) -> int
    decreases e,
{
    match e {
        ExprView::Binary { left, right, .. } => 1 + ast_ops(*left) + ast_ops(*right),
        ExprView::Unary { right, .. } => 1 + ast_ops(*right),
        ExprView::Literal { .. } => 0,
        ExprView::Grouping { expression } => ast_ops(*expression),
    }
}

} // verus!

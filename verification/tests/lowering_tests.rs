use d_compiler::ast::Expr;
use d_compiler::hir::{HirBinaryOp, HirExpr, HirLiteral, HirLowerer, HirUnaryOp, LowerError};
use d_compiler::lexer::Lexer;
use d_compiler::lir::{LirInstruction, LirInstructionKind, LirLowerer, LirOperand};
use d_compiler::mir::{
    MirBasicBlock, MirBinaryOp, MirInstructionKind, MirLowerer, MirOperand, MirTerminator,
    MirUnaryOp,
};
use d_compiler::parser::{significant_tokens, PrattParser};
use d_compiler::semantic::Type;
use d_compiler::token::{Operation, Token};

fn to_hir(source: &str) -> Result<HirExpr, LowerError> {
    let tokens = Lexer::new(source).tokenize();
    let mut parser = PrattParser::new(significant_tokens(&tokens));
    let ast = parser.parse().unwrap();
    HirLowerer::new().lower(&ast)
}

fn to_mir(source: &str) -> Vec<MirBasicBlock> {
    MirLowerer::new().lower(to_hir(source).unwrap()).unwrap()
}

fn to_lir(source: &str) -> Result<Vec<LirInstruction>, LowerError> {
    LirLowerer::new().lower(to_mir(source))
}

#[test]
fn hir_nodes_carry_resolved_types() {
    let expected = HirExpr::Binary {
        op: HirBinaryOp::Add,
        left: Box::new(HirExpr::Literal {
            value: HirLiteral::Number(1f64.to_bits()),
            expr_type: Type::Float,
        }),
        right: Box::new(HirExpr::Binary {
            op: HirBinaryOp::Multiply,
            left: Box::new(HirExpr::Literal {
                value: HirLiteral::Number(2f64.to_bits()),
                expr_type: Type::Float,
            }),
            right: Box::new(HirExpr::Literal {
                value: HirLiteral::Number(3f64.to_bits()),
                expr_type: Type::Float,
            }),
            expr_type: Type::Float,
        }),
        expr_type: Type::Float,
    };
    assert_eq!(to_hir("1 + 2 * 3").unwrap(), expected);
}

#[test]
fn hir_drops_grouping_nodes() {
    let hir = to_hir("(5)").unwrap();
    assert_eq!(
        hir,
        HirExpr::Literal { value: HirLiteral::Number(5f64.to_bits()), expr_type: Type::Float }
    );
}

#[test]
fn hir_rejects_operator_outside_closed_set() {
    // The analyzer accepts any operator between equal types, but HIR
    // lowering maps only the ten closed binary operators.
    let ast = Expr::Binary {
        left: Box::new(Expr::Literal { value: Token::Number(1f64.to_bits()) }),
        operator: Token::Operation(Operation::Assign),
        right: Box::new(Expr::Literal { value: Token::Number(2f64.to_bits()) }),
    };
    assert_eq!(
        d_compiler::semantic::SemanticAnalyzer::new().analyze(&ast),
        Ok(Type::Float)
    );
    assert_eq!(
        HirLowerer::new().lower(&ast),
        Err(LowerError::InvalidBinaryOperator(Token::Operation(Operation::Assign)))
    );
}

#[test]
fn mir_allocates_consecutive_registers() {
    // Two operator applications allocate exactly registers 0 and 1, in
    // instruction order, with no gaps and no reuse.
    let blocks = to_mir("1 + 2 * 3");
    assert_eq!(blocks.len(), 1);
    let block = &blocks[0];
    assert_eq!(block.instructions.len(), 2);
    assert_eq!(block.instructions[0].dest, MirOperand::Register(0));
    assert_eq!(block.instructions[1].dest, MirOperand::Register(1));
    assert_eq!(
        block.instructions[0].kind,
        MirInstructionKind::BinaryOp(
            MirBinaryOp::Multiply,
            MirOperand::Literal(HirLiteral::Number(2f64.to_bits())),
            MirOperand::Literal(HirLiteral::Number(3f64.to_bits())),
        )
    );
    assert_eq!(
        block.instructions[1].kind,
        MirInstructionKind::BinaryOp(
            MirBinaryOp::Add,
            MirOperand::Literal(HirLiteral::Number(1f64.to_bits())),
            MirOperand::Register(0),
        )
    );
    assert_eq!(block.terminator, MirTerminator::Return(MirOperand::Register(1)));
}

#[test]
fn mir_literal_program_emits_no_instructions() {
    let blocks = to_mir("42");
    assert_eq!(blocks.len(), 1);
    assert!(blocks[0].instructions.is_empty());
    assert_eq!(
        blocks[0].terminator,
        MirTerminator::Return(MirOperand::Literal(HirLiteral::Number(42f64.to_bits())))
    );
}

#[test]
fn lir_flattens_instructions_and_materializes_return() {
    let lir = to_lir("1 + 2 * 3").unwrap();
    assert_eq!(
        lir,
        vec![
            LirInstruction {
                kind: LirInstructionKind::Mul,
                dest: LirOperand::Register(0),
                src1: LirOperand::Constant(2f64.to_bits()),
                src2: Some(LirOperand::Constant(3f64.to_bits())),
            },
            LirInstruction {
                kind: LirInstructionKind::Add,
                dest: LirOperand::Register(1),
                src1: LirOperand::Constant(1f64.to_bits()),
                src2: Some(LirOperand::Register(0)),
            },
            LirInstruction {
                kind: LirInstructionKind::Mov,
                dest: LirOperand::Register(2),
                src1: LirOperand::Register(1),
                src2: None,
            },
        ]
    );
}

#[test]
fn lir_lowers_negation_as_subtraction_from_zero() {
    let lir = to_lir("-5").unwrap();
    assert_eq!(
        lir,
        vec![
            LirInstruction {
                kind: LirInstructionKind::Sub,
                dest: LirOperand::Register(0),
                src1: LirOperand::Constant(0),
                src2: Some(LirOperand::Constant(5f64.to_bits())),
            },
            LirInstruction {
                kind: LirInstructionKind::Mov,
                dest: LirOperand::Register(1),
                src1: LirOperand::Register(0),
                src2: None,
            },
        ]
    );
    assert_eq!(f64::from_bits(0), 0.0);
}

#[test]
fn lir_rejects_comparison_operators() {
    assert_eq!(
        to_lir("1 == 2"),
        Err(LowerError::UnsupportedBinaryOp(MirBinaryOp::Equal))
    );
}

#[test]
fn lir_rejects_boolean_not() {
    assert_eq!(
        to_lir("!true"),
        Err(LowerError::UnsupportedUnaryOp(MirUnaryOp::Not))
    );
}

#[test]
fn lir_rejects_non_numeric_literals() {
    assert_eq!(
        to_lir("\"hi\""),
        Err(LowerError::NonNumericOperand(HirLiteral::String("hi".to_string())))
    );
}

#[test]
fn hir_rejects_invalid_unary_operator() {
    let ast = Expr::Unary {
        operator: Token::Number(1f64.to_bits()),
        right: Box::new(Expr::Literal { value: Token::Number(2f64.to_bits()) }),
    };
    assert_eq!(
        HirLowerer::new().lower(&ast),
        Err(LowerError::InvalidUnaryOperator(Token::Number(1f64.to_bits())))
    );
    assert_eq!(
        d_compiler::semantic::SemanticAnalyzer::new().analyze(&ast),
        Err(d_compiler::semantic::TypeError::InvalidUnaryOperator(Token::Number(1f64.to_bits())))
    );
}

#[test]
fn hir_rejects_invalid_literal_kind() {
    let ast = Expr::Literal { value: Token::Reserved(d_compiler::token::Reserved::Fn) };
    assert_eq!(
        HirLowerer::new().lower(&ast),
        Err(LowerError::InvalidLiteral(Token::Reserved(d_compiler::token::Reserved::Fn)))
    );
}

#[test]
fn hir_reports_type_mismatches_itself() {
    assert_eq!(
        to_hir("1 + true"),
        Err(LowerError::BinaryTypeMismatch {
            operator: Token::Operation(Operation::Add),
            left: Type::Float,
            right: Type::Boolean,
        })
    );
    assert_eq!(
        to_hir("-null"),
        Err(LowerError::UnaryTypeMismatch {
            operator: Token::Operation(Operation::Subtract),
            operand: Type::Null,
        })
    );
}

#[test]
fn lir_rejects_branching_terminators() {
    let blocks = vec![MirBasicBlock { instructions: Vec::new(), terminator: MirTerminator::Goto(0) }];
    assert_eq!(
        LirLowerer::new().lower(blocks),
        Err(LowerError::UnsupportedTerminator)
    );
}

use d_compiler::ast::Expr;
use d_compiler::lexer::Lexer;
use d_compiler::parser::{significant_tokens, PrattParser};
use d_compiler::semantic::{SemanticAnalyzer, SymbolTable, Type, TypeError};
use d_compiler::token::{Operation, Reserved, Token};

fn analyze(source: &str) -> Result<Type, TypeError> {
    let tokens = Lexer::new(source).tokenize();
    let mut parser = PrattParser::new(significant_tokens(&tokens));
    let ast = parser.parse().unwrap();
    SemanticAnalyzer::new().analyze(&ast)
}

#[test]
fn numeric_expression_types_as_float() {
    assert_eq!(analyze("1 + 2 * 3"), Ok(Type::Float));
}

#[test]
fn mixed_literal_types_are_rejected() {
    // A binary operator between literals of differing inferred types fails
    // with a mismatch naming the operator and both types.
    assert_eq!(
        analyze("1 + true"),
        Err(TypeError::BinaryMismatch {
            operator: Token::Operation(Operation::Add),
            left: Type::Float,
            right: Type::Boolean,
        })
    );
    assert_eq!(
        analyze("\"a\" == null"),
        Err(TypeError::BinaryMismatch {
            operator: Token::Operation(Operation::IfEqual),
            left: Type::String,
            right: Type::Null,
        })
    );
}

#[test]
fn unary_not_requires_boolean() {
    assert_eq!(analyze("!true"), Ok(Type::Boolean));
    assert_eq!(
        analyze("!1"),
        Err(TypeError::UnaryMismatch {
            operator: Token::Operation(Operation::Not),
            operand: Type::Float,
        })
    );
}

#[test]
fn unary_minus_requires_numeric() {
    assert_eq!(analyze("-5"), Ok(Type::Float));
    assert_eq!(
        analyze("-true"),
        Err(TypeError::UnaryMismatch {
            operator: Token::Operation(Operation::Subtract),
            operand: Type::Boolean,
        })
    );
}

#[test]
fn invalid_literal_kind_is_an_internal_error() {
    let ast = Expr::Literal { value: Token::Reserved(Reserved::Let) };
    assert_eq!(
        SemanticAnalyzer::new().analyze(&ast),
        Err(TypeError::InvalidLiteral(Token::Reserved(Reserved::Let)))
    );
}

#[test]
fn scope_chain_shadows_and_restores() {
    // A binding in the enclosing scope is visible from a nested scope;
    // rebinding in the nested scope hides it only there.
    let mut outer = SymbolTable::new(None);
    outer.insert("x".to_string(), Type::Float);
    assert_eq!(outer.lookup("x").unwrap().symbol_type, Type::Float);

    let mut nested = SymbolTable::new(Some(Box::new(outer)));
    assert_eq!(nested.lookup("x").unwrap().symbol_type, Type::Float);
    assert!(nested.lookup("y").is_none());

    nested.insert("x".to_string(), Type::Boolean);
    assert_eq!(nested.lookup("x").unwrap().symbol_type, Type::Boolean);

    // A table built like the outer one alone still resolves the original
    // binding: the nested rebinding lives only in the nested scope.
    let mut outer_again = SymbolTable::new(None);
    outer_again.insert("x".to_string(), Type::Float);
    assert_eq!(outer_again.lookup("x").unwrap().symbol_type, Type::Float);
}

#[test]
fn innermost_binding_wins_within_one_scope() {
    let mut scope = SymbolTable::new(None);
    scope.insert("x".to_string(), Type::Float);
    scope.insert("x".to_string(), Type::String);
    let symbol = scope.lookup("x").unwrap();
    assert_eq!(symbol.symbol_type, Type::String);
    assert_eq!(symbol.name, "x");
}

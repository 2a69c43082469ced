use d_compiler::lexer::Lexer;
use d_compiler::token::{Operation, Punctuation, Reserved, Token};

#[test]
fn tokens_of_arithmetic_expression() {
    let tokens = Lexer::new("1 + 2 * 3").tokenize();
    let kinds: Vec<Token> = tokens.iter().map(|t| t.token.clone()).collect();
    assert_eq!(
        kinds,
        vec![
            Token::Number(1f64.to_bits()),
            Token::Whitespace,
            Token::Operation(Operation::Add),
            Token::Whitespace,
            Token::Number(2f64.to_bits()),
            Token::Whitespace,
            Token::Operation(Operation::Multiply),
            Token::Whitespace,
            Token::Number(3f64.to_bits()),
            Token::Eof,
        ]
    );
    assert_eq!(tokens[0].lexeme, "1");
    assert_eq!(tokens[2].lexeme, "+");
    assert_eq!(tokens[0].line, 1);
    assert_eq!(tokens[0].column, 1);
    assert_eq!(tokens[2].column, 3);
    assert_eq!(tokens[8].column, 9);
}

#[test]
fn keywords_and_identifiers() {
    let tokens = Lexer::new("let foo true false null").tokenize();
    let kinds: Vec<Token> = tokens
        .iter()
        .filter(|t| t.token != Token::Whitespace)
        .map(|t| t.token.clone())
        .collect();
    assert_eq!(
        kinds,
        vec![
            Token::Reserved(Reserved::Let),
            Token::Identifier("foo".to_string()),
            Token::Reserved(Reserved::True),
            Token::Reserved(Reserved::False),
            Token::Reserved(Reserved::Null),
            Token::Eof,
        ]
    );
}

#[test]
fn two_character_operators_before_one_character() {
    let tokens = Lexer::new("==!=>=<=%%=><%").tokenize();
    let kinds: Vec<Token> = tokens.iter().map(|t| t.token.clone()).collect();
    assert_eq!(
        kinds,
        vec![
            Token::Operation(Operation::IfEqual),
            Token::Operation(Operation::NotEqual),
            Token::Operation(Operation::GreaterEqual),
            Token::Operation(Operation::LessEqual),
            Token::Operation(Operation::Remainder),
            Token::Operation(Operation::Assign),
            Token::Operation(Operation::Greater),
            Token::Operation(Operation::Less),
            Token::Operation(Operation::Modulo),
            Token::Eof,
        ]
    );
}

#[test]
fn string_literal_keeps_quotes_in_lexeme() {
    let tokens = Lexer::new("\"hi\"").tokenize();
    assert_eq!(tokens[0].token, Token::String("hi".to_string()));
    assert_eq!(tokens[0].lexeme, "\"hi\"");
    assert_eq!(tokens[1].token, Token::Eof);
}

#[test]
fn unterminated_string_is_invalid_token() {
    let tokens = Lexer::new("\"abc").tokenize();
    assert_eq!(tokens[0].token, Token::Invalid("\"abc".to_string()));
    assert_eq!(tokens[1].token, Token::Eof);
}

#[test]
fn unrecognized_character_is_invalid_token() {
    let tokens = Lexer::new("$").tokenize();
    assert_eq!(tokens[0].token, Token::Invalid("$".to_string()));
    assert_eq!(tokens[1].token, Token::Eof);
}

#[test]
fn line_and_column_tracking_across_newline() {
    let tokens = Lexer::new("1\n23").tokenize();
    assert_eq!(tokens[0].token, Token::Number(1f64.to_bits()));
    assert_eq!((tokens[0].line, tokens[0].column), (1, 1));
    assert_eq!(tokens[1].token, Token::Newline);
    assert_eq!((tokens[1].line, tokens[1].column), (1, 2));
    assert_eq!(tokens[2].token, Token::Number(23f64.to_bits()));
    assert_eq!((tokens[2].line, tokens[2].column), (2, 1));
    assert_eq!(tokens[3].token, Token::Eof);
    assert_eq!((tokens[3].line, tokens[3].column), (2, 3));
}

#[test]
fn fractional_number_is_one_token() {
    let tokens = Lexer::new("1.5").tokenize();
    assert_eq!(tokens[0].token, Token::Number(1.5f64.to_bits()));
    assert_eq!(tokens[0].lexeme, "1.5");
    assert_eq!(tokens[1].token, Token::Eof);
}

#[test]
fn trailing_dot_is_punctuation() {
    let tokens = Lexer::new("1.").tokenize();
    assert_eq!(tokens[0].token, Token::Number(1f64.to_bits()));
    assert_eq!(tokens[1].token, Token::Punctuation(Punctuation::Dot));
    assert_eq!(tokens[2].token, Token::Eof);
}

#[test]
fn comment_markers_are_punctuation_tokens() {
    let tokens = Lexer::new("// /* */").tokenize();
    let kinds: Vec<Token> = tokens
        .iter()
        .filter(|t| t.token != Token::Whitespace)
        .map(|t| t.token.clone())
        .collect();
    assert_eq!(
        kinds,
        vec![
            Token::Punctuation(Punctuation::Comment),
            Token::Punctuation(Punctuation::CommentBlkStr),
            Token::Punctuation(Punctuation::CommentBlkEnd),
            Token::Eof,
        ]
    );
}

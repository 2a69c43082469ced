use vstd::prelude::*;

verus! {

/// Punctuation recognized by the lexer. Comment markers are lexed as
/// punctuation tokens; no consumer assigns them further meaning today.
#[derive(Debug, Clone, Copy, PartialEq, Eq, Structural)]
pub enum Punctuation {
    OpenParen,
    CloseParen,
    OpenBrace,
    CloseBrace,
    OpenBracket,
    CloseBracket,
    Comma,
    Semicolon,
    Dot,
    Colon,
    QuestionMark,
    Comment,
    Hashtag,
    CommentBlkStr,
    CommentBlkEnd,
    At,
}

/// Operator tokens. Two-character operators (`==`, `!=`, `>=`, `<=`, `%%`)
/// are recognized before their one-character prefixes.
#[derive(Debug, Clone, Copy, PartialEq, Eq, Structural)]
pub enum Operation {
    Add,
    Subtract,
    Multiply,
    Divide,
    Assign,
    IfEqual,
    NotEqual,
    Greater,
    Less,
    GreaterEqual,
    LessEqual,
    Not,
    Modulo,
    Remainder,
}

/// Reserved words. The lexer maps identifier-shaped lexemes onto these by a
/// keyword table; the last four variants have no source spelling yet.
#[derive(Debug, Clone, Copy, PartialEq, Eq, Structural)]
pub enum Reserved {
    Null,
    Void,
    Let,
    Fn,
    If,
    Else,
    While,
    For,
    Continue,
    Break,
    Return,
    Public,
    Private,
    Static,
    Print,
    True,
    False,
    Define,
    Macro,
    Struct,
    Enum,
    Union,
    Type,
    Trait,
    Impl,
    Module,
    Use,
    Import,
    Export,
    EnumVariant,
    StructField,
    TypeAlias,
    TypeDef,
}

/// One lexical token. A numeric literal carries the IEEE-754 binary64 bit
/// pattern of its value, so that every later stage moves it around as a
/// plain 64-bit word. Whitespace and newlines are preserved as tokens
/// because position-sensitive consumers need exact spans.
#[derive(Debug, Clone, PartialEq)]
pub enum Token {
    Identifier(String),
    Number(u64),
    String(String),
    Reserved(Reserved),
    Operation(Operation),
    Punctuation(Punctuation),
    Whitespace,
    Newline,
    Eof,
    Invalid(String),
}

/// The mathematical image of a `Token`: text fields become character
/// sequences.
pub enum TokenView {
    Identifier(Seq<char>),
    Number(u64),
    StrLit(Seq<char>),
    Reserved(Reserved),
    Operation(Operation),
    Punctuation(Punctuation),
    Whitespace,
    Newline,
    Eof,
    Invalid(Seq<char>),
}

impl View for Token {
    type V = TokenView;

    open spec fn view(&self) -> TokenView {
        match self {
            Token::Identifier(s) => TokenView::Identifier(s@),
            Token::Number(bits) => TokenView::Number(*bits),
            Token::String(s) => TokenView::StrLit(s@),
            Token::Reserved(r) => TokenView::Reserved(*r),
            Token::Operation(o) => TokenView::Operation(*o),
            Token::Punctuation(p) => TokenView::Punctuation(*p),
            Token::Whitespace => TokenView::Whitespace,
            Token::Newline => TokenView::Newline,
            Token::Eof => TokenView::Eof,
            Token::Invalid(s) => TokenView::Invalid(s@),
        }
    }
}

/// A token together with its originating lexeme and its 1-based source
/// position. Immutable once produced.
#[derive(Debug, Clone, PartialEq)]
pub struct TokenInfo {
    pub token: Token,
    pub lexeme: String,
    pub line: usize,
    pub column: usize,
}

/// The mathematical image of a `TokenInfo`.
pub struct TokenInfoView {
    pub token: TokenView,
    pub lexeme: Seq<char>,
    pub line: nat,
    pub column: nat,
}

impl View for TokenInfo {
    type V = TokenInfoView;

    open spec fn view(&self) -> TokenInfoView {
        TokenInfoView {
            token: self.token@,
            lexeme: self.lexeme@,
            line: self.line as nat,
            column: self.column as nat,
        }
    }
}

impl TokenInfo {
    pub fn new(token: Token, lexeme: String, line: usize, column: usize) -> (r: Self)
        ensures
            r.token == token,
            r.lexeme == lexeme,
            r.line == line,
            r.column == column,
    {
        Self { token, lexeme, line, column }
    }
}

/// A structural copy of a token, equal to the original in view.
pub fn dup_token(t: &Token) -> (r: Token)
    ensures
        r@ == t@,
{
    match t {
        Token::Identifier(s) => Token::Identifier(s.clone()),
        Token::Number(b) => Token::Number(*b),
        Token::String(s) => Token::String(s.clone()),
        Token::Reserved(x) => Token::Reserved(*x),
        Token::Operation(x) => Token::Operation(*x),
        Token::Punctuation(x) => Token::Punctuation(*x),
        Token::Whitespace => Token::Whitespace,
        Token::Newline => Token::Newline,
        Token::Eof => Token::Eof,
        Token::Invalid(s) => Token::Invalid(s.clone()),
    }
}

/// A structural copy of a token record, equal to the original in view.
pub fn dup_token_info(t: &TokenInfo) -> (r: TokenInfo)
    ensures
        r@ == t@,
{
    TokenInfo {
        token: dup_token(&t.token),
        lexeme: t.lexeme.clone(),
        line: t.line,
        column: t.column,
    }
}

/// Lexical error taxonomy. The scanner itself defers errors by emitting
/// `Token::Invalid`, so these arise only in consumers that choose to fail.
#[derive(Debug, Clone)]
pub enum TokenError {
    UnexpectedToken(Token),
    UnexpectedCharacter(char),
    UnexpectedEndOfFile,
}

} // verus!

use vstd::prelude::*;
use vstd::string::StrSliceExecFns;

use crate::token::{Operation, Punctuation, Reserved, Token, TokenInfo, TokenInfoView, TokenView};

verus! {

/// The IEEE-754 binary64 bit pattern that parsing a numeric lexeme as a
/// floating-point value yields. Named rather than defined: the conversion is
/// performed by the standard library and depends on the lexeme alone.
pub uninterp spec fn number_bits_of(lexeme: Seq<char>) -> u64;

/// Relies on `str::parse` to convert a numeric lexeme to a binary64
/// floating-point value, on `serde_json::Number::from_f64` / `as_f64` to
/// carry that value through unchanged (it returns `None` only for values
/// with no finite representation), and on `wasm_encoder::Ieee64`, which
/// stores exactly the carried value's raw bit pattern. The result is a
/// function of the lexeme alone; a lexeme with no finite parsed value
/// yields the all-zero pattern.
#[verifier::external_body]
fn number_bits(s: &str) -> (r: u64)
    ensures
        r == number_bits_of(s@),
{
    let parsed = s.parse().unwrap_or_default();
    match serde_json::Number::from_f64(parsed) {
        Some(n) => match n.as_f64() {
            Some(v) => wasm_encoder::Ieee64::from(v).bits(),
            None => 0,
        },
        None => 0,
    }
}

pub open spec fn is_digit(c: char) -> bool {
    48 <= c as u32 && c as u32 <= 57
}

pub open spec fn is_alpha(c: char) -> bool {
    (97 <= c as u32 && c as u32 <= 122) || (65 <= c as u32 && c as u32 <= 90) || c == '_'
}

pub open spec fn is_ident_char(c: char) -> bool {
    is_alpha(c) || is_digit(c)
}

fn digit(c: char) -> (r: bool)
    ensures
        r == is_digit(c),
{
    let u = c as u32;
    48 <= u && u <= 57
}

fn alpha(c: char) -> (r: bool)
    ensures
        r == is_alpha(c),
{
    let u = c as u32;
    (97 <= u && u <= 122) || (65 <= u && u <= 90) || c == '_'
}

fn ident_char(c: char) -> (r: bool)
    ensures
        r == is_ident_char(c),
{
    alpha(c) || digit(c)
}

/// First index at or after `i` that does not hold an identifier character.
pub open spec fn ident_end(s: Seq<char>, i: int) -> int
    decreases s.len() - i,
{
    if 0 <= i < s.len() && is_ident_char(s[i]) {
        ident_end(s, i + 1)
    } else {
        i
    }
}

/// First index at or after `i` that does not hold a decimal digit.
pub open spec fn digits_end(s: Seq<char>, i: int) -> int
    decreases s.len() - i,
{
    if 0 <= i < s.len() && is_digit(s[i]) {
        digits_end(s, i + 1)
    } else {
        i
    }
}

/// End of a numeric lexeme starting at `i`: a digit run, then a fractional
/// part only when a dot is followed by a further digit, so that a trailing
/// dot is left to be lexed as punctuation.
pub open spec fn number_end(s: Seq<char>, i: int) -> int {
    let d = digits_end(s, i);
    if d + 1 < s.len() && s[d] == '.' && is_digit(s[d + 1]) {
        digits_end(s, d + 2)
    } else {
        d
    }
}

/// First index at or after `i` that closes a string literal: a quote, a
/// newline (string literals do not span lines) or the end of the input.
pub open spec fn string_close(s: Seq<char>, i: int) -> int
    decreases s.len() - i,
{
    if 0 <= i < s.len() && s[i] != '"' && s[i] != '\n' {
        string_close(s, i + 1)
    } else {
        i
    }
}

proof fn lemma_ident_end_bounds(s: Seq<char>, i: int)
    requires
        0 <= i <= s.len(),
    ensures
        i <= ident_end(s, i) <= s.len(),
    decreases s.len() - i,
{
    if i < s.len() && is_ident_char(s[i]) {
        lemma_ident_end_bounds(s, i + 1);
    }
}

proof fn lemma_digits_end_bounds(s: Seq<char>, i: int)
    requires
        0 <= i <= s.len(),
    ensures
        i <= digits_end(s, i) <= s.len(),
    decreases s.len() - i,
{
    if i < s.len() && is_digit(s[i]) {
        lemma_digits_end_bounds(s, i + 1);
    }
}

proof fn lemma_string_close_bounds(s: Seq<char>, i: int)
    requires
        0 <= i <= s.len(),
    ensures
        i <= string_close(s, i) <= s.len(),
    decreases s.len() - i,
{
    if i < s.len() && s[i] != '"' && s[i] != '\n' {
        lemma_string_close_bounds(s, i + 1);
    }
}

/// The keyword table: identifier-shaped lexemes with a reserved meaning.
pub open spec fn keyword_of_spec(s: Seq<char>) -> Option<Reserved> {
    if s == "null"@ {
        Some(Reserved::Null)
    } else if s == "void"@ {
        Some(Reserved::Void)
    } else if s == "let"@ {
        Some(Reserved::Let)
    } else if s == "fn"@ {
        Some(Reserved::Fn)
    } else if s == "if"@ {
        Some(Reserved::If)
    } else if s == "else"@ {
        Some(Reserved::Else)
    } else if s == "while"@ {
        Some(Reserved::While)
    } else if s == "for"@ {
        Some(Reserved::For)
    } else if s == "continue"@ {
        Some(Reserved::Continue)
    } else if s == "break"@ {
        Some(Reserved::Break)
    } else if s == "return"@ {
        Some(Reserved::Return)
    } else if s == "public"@ {
        Some(Reserved::Public)
    } else if s == "private"@ {
        Some(Reserved::Private)
    } else if s == "static"@ {
        Some(Reserved::Static)
    } else if s == "print"@ {
        Some(Reserved::Print)
    } else if s == "true"@ {
        Some(Reserved::True)
    } else if s == "false"@ {
        Some(Reserved::False)
    } else if s == "define"@ {
        Some(Reserved::Define)
    } else if s == "macro"@ {
        Some(Reserved::Macro)
    } else if s == "struct"@ {
        Some(Reserved::Struct)
    } else if s == "enum"@ {
        Some(Reserved::Enum)
    } else if s == "union"@ {
        Some(Reserved::Union)
    } else if s == "type"@ {
        Some(Reserved::Type)
    } else if s == "trait"@ {
        Some(Reserved::Trait)
    } else if s == "impl"@ {
        Some(Reserved::Impl)
    } else if s == "module"@ {
        Some(Reserved::Module)
    } else if s == "use"@ {
        Some(Reserved::Use)
    } else if s == "import"@ {
        Some(Reserved::Import)
    } else if s == "export"@ {
        Some(Reserved::Export)
    } else {
        None
    }
}

/// Character-wise string equality, proved against the views.
pub fn str_eq(a: &str, b: &str) -> (r: bool)
    ensures
        r == (a@ == b@),
{
    let alen = a.unicode_len();
    let blen = b.unicode_len();
    if alen != blen {
        proof {
            assert(a@.len() != b@.len());
        }
        return false;
    }
    let mut i: usize = 0;
    while i < alen
        invariant
            i <= alen,
            alen == a@.len(),
            alen == b@.len(),
            forall|j: int| 0 <= j < i ==> a@[j] == b@[j],
        decreases alen - i,
    {
        if a.get_char(i) != b.get_char(i) {
            return false;
        }
        i += 1;
    }
    proof {
        assert(a@ =~= b@);
    }
    true
}

fn keyword_of(s: &str) -> (r: Option<Reserved>)
    ensures
        r == keyword_of_spec(s@),
{
    if str_eq(s, "null") {
        Some(Reserved::Null)
    } else if str_eq(s, "void") {
        Some(Reserved::Void)
    } else if str_eq(s, "let") {
        Some(Reserved::Let)
    } else if str_eq(s, "fn") {
        Some(Reserved::Fn)
    } else if str_eq(s, "if") {
        Some(Reserved::If)
    } else if str_eq(s, "else") {
        Some(Reserved::Else)
    } else if str_eq(s, "while") {
        Some(Reserved::While)
    } else if str_eq(s, "for") {
        Some(Reserved::For)
    } else if str_eq(s, "continue") {
        Some(Reserved::Continue)
    } else if str_eq(s, "break") {
        Some(Reserved::Break)
    } else if str_eq(s, "return") {
        Some(Reserved::Return)
    } else if str_eq(s, "public") {
        Some(Reserved::Public)
    } else if str_eq(s, "private") {
        Some(Reserved::Private)
    } else if str_eq(s, "static") {
        Some(Reserved::Static)
    } else if str_eq(s, "print") {
        Some(Reserved::Print)
    } else if str_eq(s, "true") {
        Some(Reserved::True)
    } else if str_eq(s, "false") {
        Some(Reserved::False)
    } else if str_eq(s, "define") {
        Some(Reserved::Define)
    } else if str_eq(s, "macro") {
        Some(Reserved::Macro)
    } else if str_eq(s, "struct") {
        Some(Reserved::Struct)
    } else if str_eq(s, "enum") {
        Some(Reserved::Enum)
    } else if str_eq(s, "union") {
        Some(Reserved::Union)
    } else if str_eq(s, "type") {
        Some(Reserved::Type)
    } else if str_eq(s, "trait") {
        Some(Reserved::Trait)
    } else if str_eq(s, "impl") {
        Some(Reserved::Impl)
    } else if str_eq(s, "module") {
        Some(Reserved::Module)
    } else if str_eq(s, "use") {
        Some(Reserved::Use)
    } else if str_eq(s, "import") {
        Some(Reserved::Import)
    } else if str_eq(s, "export") {
        Some(Reserved::Export)
    } else {
        None
    }
}

/// One scanning step at index `i`: the token recognized there and the index
/// just past its lexeme. Two-character operators are attempted before their
/// one-character prefixes; an unrecognized character becomes `Invalid`.
pub open spec fn scan_token(s: Seq<char>, i: int) -> (TokenView, int)
    recommends
        0 <= i < s.len(),
{
    let c = s[i];
    if c == '\n' {
        (TokenView::Newline, i + 1)
    } else if c == ' ' || c == '\t' || c == '\r' {
        (TokenView::Whitespace, i + 1)
    } else if is_digit(c) {
        let e = number_end(s, i);
        (TokenView::Number(number_bits_of(s.subrange(i, e))), e)
    } else if is_alpha(c) {
        let e = ident_end(s, i);
        let lexeme = s.subrange(i, e);
        match keyword_of_spec(lexeme) {
            Some(r) => (TokenView::Reserved(r), e),
            None => (TokenView::Identifier(lexeme), e),
        }
    } else if c == '"' {
        let close = string_close(s, i + 1);
        if close < s.len() && s[close] == '"' {
            (TokenView::StrLit(s.subrange(i + 1, close)), close + 1)
        } else {
            (TokenView::Invalid(s.subrange(i, close)), close)
        }
    } else {
        scan_operator(s, i)
    }
}

/// Operator and punctuation scanning, after literals have been ruled out.
pub open spec fn scan_operator(s: Seq<char>, i: int) -> (TokenView, int)
    recommends
        0 <= i < s.len(),
{
    let c = s[i];
    let two = i + 1 < s.len();
    if c == '=' {
        if two && s[i + 1] == '=' {
            (TokenView::Operation(Operation::IfEqual), i + 2)
        } else {
            (TokenView::Operation(Operation::Assign), i + 1)
        }
    } else if c == '!' {
        if two && s[i + 1] == '=' {
            (TokenView::Operation(Operation::NotEqual), i + 2)
        } else {
            (TokenView::Operation(Operation::Not), i + 1)
        }
    } else if c == '>' {
        if two && s[i + 1] == '=' {
            (TokenView::Operation(Operation::GreaterEqual), i + 2)
        } else {
            (TokenView::Operation(Operation::Greater), i + 1)
        }
    } else if c == '<' {
        if two && s[i + 1] == '=' {
            (TokenView::Operation(Operation::LessEqual), i + 2)
        } else {
            (TokenView::Operation(Operation::Less), i + 1)
        }
    } else if c == '%' {
        if two && s[i + 1] == '%' {
            (TokenView::Operation(Operation::Remainder), i + 2)
        } else {
            (TokenView::Operation(Operation::Modulo), i + 1)
        }
    } else if c == '+' {
        (TokenView::Operation(Operation::Add), i + 1)
    } else if c == '-' {
        (TokenView::Operation(Operation::Subtract), i + 1)
    } else if c == '*' {
        if two && s[i + 1] == '/' {
            (TokenView::Punctuation(Punctuation::CommentBlkEnd), i + 2)
        } else {
            (TokenView::Operation(Operation::Multiply), i + 1)
        }
    } else if c == '/' {
        if two && s[i + 1] == '/' {
            (TokenView::Punctuation(Punctuation::Comment), i + 2)
        } else if two && s[i + 1] == '*' {
            (TokenView::Punctuation(Punctuation::CommentBlkStr), i + 2)
        } else {
            (TokenView::Operation(Operation::Divide), i + 1)
        }
    } else if c == '(' {
        (TokenView::Punctuation(Punctuation::OpenParen), i + 1)
    } else if c == ')' {
        (TokenView::Punctuation(Punctuation::CloseParen), i + 1)
    } else if c == '{' {
        (TokenView::Punctuation(Punctuation::OpenBrace), i + 1)
    } else if c == '}' {
        (TokenView::Punctuation(Punctuation::CloseBrace), i + 1)
    } else if c == '[' {
        (TokenView::Punctuation(Punctuation::OpenBracket), i + 1)
    } else if c == ']' {
        (TokenView::Punctuation(Punctuation::CloseBracket), i + 1)
    } else if c == ',' {
        (TokenView::Punctuation(Punctuation::Comma), i + 1)
    } else if c == ';' {
        (TokenView::Punctuation(Punctuation::Semicolon), i + 1)
    } else if c == '.' {
        (TokenView::Punctuation(Punctuation::Dot), i + 1)
    } else if c == ':' {
        (TokenView::Punctuation(Punctuation::Colon), i + 1)
    } else if c == '?' {
        (TokenView::Punctuation(Punctuation::QuestionMark), i + 1)
    } else if c == '#' {
        (TokenView::Punctuation(Punctuation::Hashtag), i + 1)
    } else if c == '@' {
        (TokenView::Punctuation(Punctuation::At), i + 1)
    } else {
        (TokenView::Invalid(s.subrange(i, i + 1)), i + 1)
    }
}

pub proof fn lemma_scan_advances(s: Seq<char>, i: int)
    requires
        0 <= i < s.len(),
    ensures
        i < scan_token(s, i).1 <= s.len(),
{
    let c = s[i];
    if is_digit(c) {
        lemma_digits_end_bounds(s, i + 1);
        let d = digits_end(s, i);
        assert(digits_end(s, i) == digits_end(s, i + 1));
        if d + 1 < s.len() && s[d] == '.' && is_digit(s[d + 1]) {
            lemma_digits_end_bounds(s, d + 2);
        }
    } else if c == '\n' || c == ' ' || c == '\t' || c == '\r' {
    } else if is_alpha(c) {
        lemma_ident_end_bounds(s, i + 1);
        assert(ident_end(s, i) == ident_end(s, i + 1));
    } else if c == '"' {
        lemma_string_close_bounds(s, i + 1);
    } else {
    }
}

/// The Eof entry that terminates every token stream.
pub open spec fn eof_info(line: int, col: int) -> TokenInfoView {
    TokenInfoView { token: TokenView::Eof, lexeme: Seq::empty(), line: line as nat, column: col as nat }
}

/// The token stream produced from position `i` of the source, carrying the
/// current 1-based line and column. A newline token starts a new line; every
/// other token advances the column by its lexeme's length.
pub open spec fn lex_from(s: Seq<char>, i: int, line: int, col: int) -> Seq<TokenInfoView>
    decreases s.len() - i,
{
    if i < 0 || i >= s.len() {
        seq![eof_info(line, col)]
    } else {
        let (tok, e0) = scan_token(s, i);
        let e = if e0 <= i || e0 > s.len() {
            i + 1
        } else {
            e0
        };
        let info = TokenInfoView {
            token: tok,
            lexeme: s.subrange(i, e),
            line: line as nat,
            column: col as nat,
        };
        let rest = if tok is Newline {
            lex_from(s, e, line + 1, 1)
        } else {
            lex_from(s, e, line, col + (e - i))
        };
        seq![info] + rest
    }
}

/// The full token stream of a source text.
pub open spec fn lex_spec(s: Seq<char>) -> Seq<TokenInfoView> {
    lex_from(s, 0, 1, 1)
}

/// Every token stream the scanner produces is well-formed: nonempty and
/// terminated by exactly one `Eof`.
pub proof fn lemma_lex_from_wf(s: Seq<char>, i: int, line: int, col: int)
    ensures
        crate::parser::wf_tokens(lex_from(s, i, line, col)),
    decreases s.len() - i,
{
    let toks = lex_from(s, i, line, col);
    if i < 0 || i >= s.len() {
        assert(toks.len() == 1);
        assert(toks[0].token is Eof);
    } else {
        let (tok, e0) = scan_token(s, i);
        let e = if e0 <= i || e0 > s.len() {
            i + 1
        } else {
            e0
        };
        assert(!(tok is Eof));
        if tok is Newline {
            lemma_lex_from_wf(s, e, line + 1, 1);
        } else {
            lemma_lex_from_wf(s, e, line, col + (e - i));
        }
        let rest = if tok is Newline {
            lex_from(s, e, line + 1, 1)
        } else {
            lex_from(s, e, line, col + (e - i))
        };
        assert(toks.len() == 1 + rest.len());
        assert(toks[toks.len() - 1] == rest[rest.len() - 1]);
        assert forall|j: int| 0 <= j < toks.len() - 1 implies !((#[trigger] toks[j]).token
            is Eof) by {
            if j > 0 {
                assert(toks[j] == rest[j - 1]);
            }
        }
    }
}

/// The scanner emits at most one token per character, plus the final Eof.
pub proof fn lemma_lex_from_len(s: Seq<char>, i: int, line: int, col: int)
    requires
        0 <= i <= s.len(),
    ensures
        lex_from(s, i, line, col).len() <= s.len() - i + 1,
    decreases s.len() - i,
{
    if i < s.len() {
        let (tok, e0) = scan_token(s, i);
        let e = if e0 <= i || e0 > s.len() {
            i + 1
        } else {
            e0
        };
        if tok is Newline {
            lemma_lex_from_len(s, e, line + 1, 1);
        } else {
            lemma_lex_from_len(s, e, line, col + (e - i));
        }
    }
}

fn digits_end_x(s: &str, i: usize, n: usize) -> (r: usize)
    requires
        n == s@.len(),
        i <= n,
    ensures
        r == digits_end(s@, i as int),
        i <= r <= n,
{
    let mut j = i;
    while j < n && digit(s.get_char(j))
        invariant
            n == s@.len(),
            i <= j <= n,
            digits_end(s@, i as int) == digits_end(s@, j as int),
        decreases n - j,
    {
        j += 1;
    }
    j
}

fn ident_end_x(s: &str, i: usize, n: usize) -> (r: usize)
    requires
        n == s@.len(),
        i <= n,
    ensures
        r == ident_end(s@, i as int),
        i <= r <= n,
{
    let mut j = i;
    while j < n && ident_char(s.get_char(j))
        invariant
            n == s@.len(),
            i <= j <= n,
            ident_end(s@, i as int) == ident_end(s@, j as int),
        decreases n - j,
    {
        j += 1;
    }
    j
}

fn string_close_x(s: &str, i: usize, n: usize) -> (r: usize)
    requires
        n == s@.len(),
        i <= n,
    ensures
        r == string_close(s@, i as int),
        i <= r <= n,
{
    let mut j = i;
    while j < n && s.get_char(j) != '"' && s.get_char(j) != '\n'
        invariant
            n == s@.len(),
            i <= j <= n,
            string_close(s@, i as int) == string_close(s@, j as int),
        decreases n - j,
    {
        j += 1;
    }
    j
}

/// The lexical scanner. It never fails: unrecognized characters become
/// `Invalid` tokens for consumers to report.
pub struct Lexer {
    source: String,
}

impl View for Lexer {
    type V = Seq<char>;

    closed spec fn view(&self) -> Seq<char> {
        self.source@
    }
}

impl Lexer {
    pub fn new(source: &str) -> (r: Self)
        ensures
            r@ == source@,
    {
        Lexer { source: source.to_owned() }
    }

    /// Scans the whole source into tokens, terminated by an `Eof` token.
    /// The result is exactly the token stream `lex_spec` assigns to the
    /// source text.
    pub fn tokenize(&self) -> (r: Vec<TokenInfo>)
        requires
            self@.len() < usize::MAX,
        ensures
            r@.map_values(|t: TokenInfo| t@) == lex_spec(self@),
    {
        let s: &str = self.source.as_str();
        let n: usize = s.unicode_len();
        let mut out: Vec<TokenInfo> = Vec::new();
        let mut i: usize = 0;
        let mut line: usize = 1;
        let mut col: usize = 1;
        while i < n
            invariant
                n == s@.len(),
                s@ == self@,
                n < usize::MAX,
                i <= n,
                1 <= line <= i + 1,
                1 <= col <= i + 1,
                lex_spec(self@) == out@.map_values(|t: TokenInfo| t@) + lex_from(
                    s@,
                    i as int,
                    line as int,
                    col as int,
                ),
            decreases n - i,
        {
            let ghost prev = out@.map_values(|t: TokenInfo| t@);
            proof {
                lemma_scan_advances(s@, i as int);
            }
            let c = s.get_char(i);
            let (tok, e): (Token, usize) = if c == '\n' {
                (Token::Newline, i + 1)
            } else if c == ' ' || c == '\t' || c == '\r' {
                (Token::Whitespace, i + 1)
            } else if digit(c) {
                let d = digits_end_x(s, i, n);
                let e = if d + 1 < n && s.get_char(d) == '.' && digit(s.get_char(d + 1)) {
                    digits_end_x(s, d + 2, n)
                } else {
                    d
                };
                let bits = number_bits(s.substring_char(i, e));
                (Token::Number(bits), e)
            } else if alpha(c) {
                let e = ident_end_x(s, i, n);
                let lexeme = s.substring_char(i, e);
                match keyword_of(lexeme) {
                    Some(r) => (Token::Reserved(r), e),
                    None => (Token::Identifier(lexeme.to_owned()), e),
                }
            } else if c == '"' {
                let close = string_close_x(s, i + 1, n);
                if close < n && s.get_char(close) == '"' {
                    (Token::String(s.substring_char(i + 1, close).to_owned()), close + 1)
                } else {
                    (Token::Invalid(s.substring_char(i, close).to_owned()), close)
                }
            } else {
                let two = i + 1 < n;
                if c == '=' {
                    if two && s.get_char(i + 1) == '=' {
                        (Token::Operation(Operation::IfEqual), i + 2)
                    } else {
                        (Token::Operation(Operation::Assign), i + 1)
                    }
                } else if c == '!' {
                    if two && s.get_char(i + 1) == '=' {
                        (Token::Operation(Operation::NotEqual), i + 2)
                    } else {
                        (Token::Operation(Operation::Not), i + 1)
                    }
                } else if c == '>' {
                    if two && s.get_char(i + 1) == '=' {
                        (Token::Operation(Operation::GreaterEqual), i + 2)
                    } else {
                        (Token::Operation(Operation::Greater), i + 1)
                    }
                } else if c == '<' {
                    if two && s.get_char(i + 1) == '=' {
                        (Token::Operation(Operation::LessEqual), i + 2)
                    } else {
                        (Token::Operation(Operation::Less), i + 1)
                    }
                } else if c == '%' {
                    if two && s.get_char(i + 1) == '%' {
                        (Token::Operation(Operation::Remainder), i + 2)
                    } else {
                        (Token::Operation(Operation::Modulo), i + 1)
                    }
                } else if c == '+' {
                    (Token::Operation(Operation::Add), i + 1)
                } else if c == '-' {
                    (Token::Operation(Operation::Subtract), i + 1)
                } else if c == '*' {
                    if two && s.get_char(i + 1) == '/' {
                        (Token::Punctuation(Punctuation::CommentBlkEnd), i + 2)
                    } else {
                        (Token::Operation(Operation::Multiply), i + 1)
                    }
                } else if c == '/' {
                    if two && s.get_char(i + 1) == '/' {
                        (Token::Punctuation(Punctuation::Comment), i + 2)
                    } else if two && s.get_char(i + 1) == '*' {
                        (Token::Punctuation(Punctuation::CommentBlkStr), i + 2)
                    } else {
                        (Token::Operation(Operation::Divide), i + 1)
                    }
                } else if c == '(' {
                    (Token::Punctuation(Punctuation::OpenParen), i + 1)
                } else if c == ')' {
                    (Token::Punctuation(Punctuation::CloseParen), i + 1)
                } else if c == '{' {
                    (Token::Punctuation(Punctuation::OpenBrace), i + 1)
                } else if c == '}' {
                    (Token::Punctuation(Punctuation::CloseBrace), i + 1)
                } else if c == '[' {
                    (Token::Punctuation(Punctuation::OpenBracket), i + 1)
                } else if c == ']' {
                    (Token::Punctuation(Punctuation::CloseBracket), i + 1)
                } else if c == ',' {
                    (Token::Punctuation(Punctuation::Comma), i + 1)
                } else if c == ';' {
                    (Token::Punctuation(Punctuation::Semicolon), i + 1)
                } else if c == '.' {
                    (Token::Punctuation(Punctuation::Dot), i + 1)
                } else if c == ':' {
                    (Token::Punctuation(Punctuation::Colon), i + 1)
                } else if c == '?' {
                    (Token::Punctuation(Punctuation::QuestionMark), i + 1)
                } else if c == '#' {
                    (Token::Punctuation(Punctuation::Hashtag), i + 1)
                } else if c == '@' {
                    (Token::Punctuation(Punctuation::At), i + 1)
                } else {
                    (Token::Invalid(s.substring_char(i, i + 1).to_owned()), i + 1)
                }
            };
            assert(tok@ == scan_token(s@, i as int).0);
            assert(e as int == scan_token(s@, i as int).1);
            let lexeme = s.substring_char(i, e).to_owned();
            let is_newline = matches!(tok, Token::Newline);
            out.push(TokenInfo::new(tok, lexeme, line, col));
            proof {
                assert(out@.map_values(|t: TokenInfo| t@) =~= prev.push(out@[out@.len() - 1]@));
            }
            if is_newline {
                line += 1;
                col = 1;
            } else {
                col = col + (e - i);
            }
            i = e;
        }
        let ghost prev = out@.map_values(|t: TokenInfo| t@);
        out.push(TokenInfo::new(Token::Eof, String::new(), line, col));
        proof {
            assert(out@.map_values(|t: TokenInfo| t@) =~= prev.push(out@[out@.len() - 1]@));
            assert(out@.map_values(|t: TokenInfo| t@) =~= lex_spec(self@));
        }
        out
    }
}

} // verus!

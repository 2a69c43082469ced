use vstd::prelude::*;

use crate::ast::{ast_ops, Expr, ExprView};
use crate::token::{dup_token, dup_token_info, Operation, Punctuation, Token, TokenInfo,
    TokenInfoView, TokenView};

verus! {

/// The precedence ladder, lowest to highest. Only the ranks that tokens can
/// actually produce appear on the right-hand side of the table below; the
/// others exist so the ladder reads as a whole.
pub const PREC_NONE: u32 = 0;

pub const PREC_ASSIGNMENT: u32 = 1;

pub const PREC_OR: u32 = 2;

pub const PREC_AND: u32 = 3;

pub const PREC_EQUALITY: u32 = 4;

pub const PREC_COMPARISON: u32 = 5;

pub const PREC_TERM: u32 = 6;

pub const PREC_FACTOR: u32 = 7;

pub const PREC_UNARY: u32 = 8;

pub const PREC_CALL: u32 = 9;

pub const PREC_PRIMARY: u32 = 10;

/// The infix precedence of a token; `PREC_NONE` for anything that is not an
/// infix operator.
pub open spec fn precedence_of(t: TokenView) -> u32 {
    match t {
        TokenView::Operation(op) => match op {
            Operation::Add | Operation::Subtract => PREC_TERM,
            Operation::Multiply | Operation::Divide => PREC_FACTOR,
            Operation::IfEqual | Operation::NotEqual => PREC_EQUALITY,
            Operation::Greater
            | Operation::GreaterEqual
            | Operation::Less
            | Operation::LessEqual => PREC_COMPARISON,
            _ => PREC_NONE,
        },
        _ => PREC_NONE,
    }
}

fn get_precedence(t: &Token) -> (r: u32)
    ensures
        r == precedence_of(t@),
{
    match t {
        Token::Operation(op) => match op {
            Operation::Add | Operation::Subtract => PREC_TERM,
            Operation::Multiply | Operation::Divide => PREC_FACTOR,
            Operation::IfEqual | Operation::NotEqual => PREC_EQUALITY,
            Operation::Greater
            | Operation::GreaterEqual
            | Operation::Less
            | Operation::LessEqual => PREC_COMPARISON,
            _ => PREC_NONE,
        },
        _ => PREC_NONE,
    }
}

/// Parse failure: an unexpected token where an expression was required, or
/// a missing closing parenthesis, each naming the offending token.
#[derive(Debug, Clone, PartialEq)]
pub enum ParseError {
    ExpectedExpression(Token),
    MissingClosingParen(Token),
}

/// The mathematical image of a `ParseError`.
pub enum ParseErrorView {
    ExpectedExpression(TokenView),
    MissingClosingParen(TokenView),
}

impl View for ParseError {
    type V = ParseErrorView;

    open spec fn view(&self) -> ParseErrorView {
        match self {
            ParseError::ExpectedExpression(t) => ParseErrorView::ExpectedExpression(t@),
            ParseError::MissingClosingParen(t) => ParseErrorView::MissingClosingParen(t@),
        }
    }
}

/// A well-formed token stream: nonempty, terminated by exactly one `Eof`.
/// This is the shape the lexer produces.
pub open spec fn wf_tokens(toks: Seq<TokenInfoView>) -> bool {
    &&& toks.len() >= 1
    &&& toks[toks.len() - 1].token is Eof
    &&& forall|j: int| 0 <= j < toks.len() - 1 ==> !((#[trigger] toks[j]).token is Eof)
}

/// The views of a token vector.
pub open spec fn tviews(toks: Seq<TokenInfo>) -> Seq<TokenInfoView> {
    toks.map_values(|t: TokenInfo| t@)
}

/// Whether a token takes part in parsing. Whitespace and newline tokens are
/// position bookkeeping for hover-style consumers and carry no syntax.
pub open spec fn is_significant(t: TokenInfoView) -> bool {
    !(t.token is Whitespace) && !(t.token is Newline)
}

/// The parse-relevant subsequence of a token stream, in order.
pub open spec fn significant(toks: Seq<TokenInfoView>) -> Seq<TokenInfoView>
    decreases toks.len(),
{
    if toks.len() == 0 {
        Seq::empty()
    } else {
        let front = significant(toks.drop_last());
        if is_significant(toks.last()) {
            front.push(toks.last())
        } else {
            front
        }
    }
}

proof fn lemma_significant_no_eof(toks: Seq<TokenInfoView>)
    requires
        forall|j: int| 0 <= j < toks.len() ==> !((#[trigger] toks[j]).token is Eof),
    ensures
        forall|j: int|
            0 <= j < significant(toks).len() ==> !((#[trigger] significant(toks)[j]).token is Eof),
        significant(toks).len() <= toks.len(),
    decreases toks.len(),
{
    if toks.len() > 0 {
        lemma_significant_no_eof(toks.drop_last());
    }
}

/// Filtering a well-formed stream keeps it well-formed: the terminating
/// `Eof` is significant and stays last.
pub proof fn lemma_significant_wf(toks: Seq<TokenInfoView>)
    requires
        wf_tokens(toks),
    ensures
        wf_tokens(significant(toks)),
        significant(toks).len() <= toks.len(),
{
    let front = toks.drop_last();
    lemma_significant_no_eof(front);
    assert(significant(toks) == significant(front).push(toks.last()));
    assert forall|j: int| 0 <= j < significant(toks).len() - 1 implies !((#[trigger] significant(
        toks,
    )[j]).token is Eof) by {
        assert(significant(toks)[j] == significant(front)[j]);
    }
}

/// The parse-relevant tokens of a stream, each equal in view to its
/// original.
pub fn significant_tokens(toks: &Vec<TokenInfo>) -> (r: Vec<TokenInfo>)
    ensures
        tviews(r@) == significant(tviews(toks@)),
{
    let ghost v = tviews(toks@);
    let n = toks.len();
    let mut out: Vec<TokenInfo> = Vec::new();
    let mut i: usize = 0;
    proof {
        assert(v.take(0) =~= Seq::<TokenInfoView>::empty());
        assert(tviews(out@) =~= significant(v.take(0)));
    }
    while i < n
        invariant
            v == tviews(toks@),
            n == toks@.len(),
            i <= n,
            tviews(out@) == significant(v.take(i as int)),
        decreases n - i,
    {
        let ghost prev = tviews(out@);
        proof {
            assert(v[i as int] == toks@[i as int]@);
            assert(v.take(i as int + 1).drop_last() =~= v.take(i as int));
            assert(v.take(i as int + 1).last() == v[i as int]);
        }
        let keep = !matches!(&toks[i].token, Token::Whitespace | Token::Newline);
        if keep {
            out.push(dup_token_info(&toks[i]));
            proof {
                assert(tviews(out@) =~= prev.push(out@[out@.len() - 1]@));
            }
        }
        i += 1;
    }
    proof {
        assert(v.take(n as int) =~= v);
    }
    out
}

/// The prefix rule at `pos`: grouping after an open parenthesis, unary for
/// minus and logical not, a literal for number, string and reserved-word
/// tokens; anything else is a parse error naming the token.
pub open spec fn prefix_spec(toks: Seq<TokenInfoView>, pos: int) -> Result<
    (ExprView, int),
    ParseErrorView,
>
    recommends
        0 <= pos < toks.len(),
    decreases toks.len() - pos, 0int,
{
    if !(0 <= pos < toks.len()) {
        Err(ParseErrorView::ExpectedExpression(TokenView::Eof))
    } else {
    let t = toks[pos].token;
    match t {
        TokenView::Punctuation(p) => {
            if p == Punctuation::OpenParen {
                match parse_prec(toks, pos + 1, PREC_ASSIGNMENT) {
                    Err(e) => Err(e),
                    Ok((inner, p2)) => {
                        if 0 <= p2 < toks.len() && toks[p2].token == TokenView::Punctuation(
                            Punctuation::CloseParen,
                        ) {
                            Ok((ExprView::Grouping { expression: Box::new(inner) }, p2 + 1))
                        } else {
                            Err(
                                ParseErrorView::MissingClosingParen(
                                    if 0 <= p2 < toks.len() {
                                        toks[p2].token
                                    } else {
                                        TokenView::Eof
                                    },
                                ),
                            )
                        }
                    },
                }
            } else {
                Err(ParseErrorView::ExpectedExpression(t))
            }
        },
        TokenView::Operation(op) => {
            if op == Operation::Subtract || op == Operation::Not {
                match parse_prec(toks, pos + 1, PREC_UNARY) {
                    Err(e) => Err(e),
                    Ok((right, p2)) => Ok(
                        (ExprView::Unary { operator: t, right: Box::new(right) }, p2),
                    ),
                }
            } else {
                Err(ParseErrorView::ExpectedExpression(t))
            }
        },
        TokenView::Number(_) => Ok((ExprView::Literal { value: t }, pos + 1)),
        TokenView::StrLit(_) => Ok((ExprView::Literal { value: t }, pos + 1)),
        TokenView::Reserved(_) => Ok((ExprView::Literal { value: t }, pos + 1)),
        _ => Err(ParseErrorView::ExpectedExpression(t)),
    }
    }
}

/// The infix phase: as long as the next token's precedence is at least
/// `min_prec`, consume it as an operator and parse its right operand at that
/// same precedence, so that same-precedence operators nest to the right.
/// The returned position is clipped into range only to exhibit termination;
/// `lemma_parse_progress` shows the clip never fires.
pub open spec fn infix_chain(
    toks: Seq<TokenInfoView>,
    left: ExprView,
    pos: int,
    min_prec: u32,
) -> Result<(ExprView, int), ParseErrorView>
    decreases toks.len() - pos, 0int,
{
    if 0 <= pos < toks.len() && min_prec <= precedence_of(toks[pos].token) && 1 <= min_prec {
        let op = toks[pos].token;
        match parse_prec(toks, pos + 1, precedence_of(op)) {
            Err(e) => Err(e),
            Ok((right, p2)) => {
                let p3 = if p2 <= pos + 1 || p2 > toks.len() {
                    toks.len() as int
                } else {
                    p2
                };
                infix_chain(
                    toks,
                    ExprView::Binary { left: Box::new(left), operator: op, right: Box::new(right) },
                    p3,
                    min_prec,
                )
            },
        }
    } else {
        Ok((left, pos))
    }
}

/// Precedence climbing from `pos` with minimum precedence `min_prec`: one
/// prefix rule, then the infix chain.
pub open spec fn parse_prec(toks: Seq<TokenInfoView>, pos: int, min_prec: u32) -> Result<
    (ExprView, int),
    ParseErrorView,
>
    decreases toks.len() - pos, 1int,
{
    if 0 <= pos < toks.len() {
        match prefix_spec(toks, pos) {
            Err(e) => Err(e),
            Ok((left, p)) => {
                let p1 = if p <= pos || p > toks.len() {
                    toks.len() as int
                } else {
                    p
                };
                infix_chain(toks, left, p1, min_prec)
            },
        }
    } else {
        Err(ParseErrorView::ExpectedExpression(TokenView::Eof))
    }
}

/// The expression parsed from a whole token stream; trailing tokens after
/// the expression are not inspected.
pub open spec fn parse_spec(toks: Seq<TokenInfoView>) -> Result<ExprView, ParseErrorView> {
    match parse_prec(toks, 0, PREC_ASSIGNMENT) {
        Ok((e, _)) => Ok(e),
        Err(e) => Err(e),
    }
}

proof fn lemma_prefix_progress(toks: Seq<TokenInfoView>, pos: int)
    requires
        wf_tokens(toks),
        0 <= pos < toks.len(),
    ensures
        prefix_spec(toks, pos) matches Ok((e, p)) ==> pos < p < toks.len() && ast_ops(e) < p
            - pos,
    decreases toks.len() - pos, 0int,
{
    let t = toks[pos].token;
    if prefix_spec(toks, pos) is Ok {
        assert(!(t is Eof));
        assert(pos < toks.len() - 1);
        match t {
            TokenView::Punctuation(p) => {
                if p == Punctuation::OpenParen {
                    lemma_parse_progress(toks, pos + 1, PREC_ASSIGNMENT);
                    if let Ok((inner, p2)) = parse_prec(toks, pos + 1, PREC_ASSIGNMENT) {
                        if 0 <= p2 < toks.len() && toks[p2].token == TokenView::Punctuation(
                            Punctuation::CloseParen,
                        ) {
                            assert(p2 < toks.len() - 1);
                        }
                    }
                }
            },
            TokenView::Operation(op) => {
                if op == Operation::Subtract || op == Operation::Not {
                    lemma_parse_progress(toks, pos + 1, PREC_UNARY);
                }
            },
            _ => {},
        }
    }
}

proof fn lemma_infix_progress(toks: Seq<TokenInfoView>, left: ExprView, pos: int, min_prec: u32)
    requires
        wf_tokens(toks),
        0 <= pos < toks.len(),
        1 <= min_prec,
    ensures
        infix_chain(toks, left, pos, min_prec) matches Ok((e, p)) ==> pos <= p < toks.len()
            && ast_ops(e) <= ast_ops(left) + (p - pos),
    decreases toks.len() - pos, 0int,
{
    if min_prec <= precedence_of(toks[pos].token) {
        let op = toks[pos].token;
        assert(op is Operation);
        assert(pos < toks.len() - 1);
        lemma_parse_progress(toks, pos + 1, precedence_of(op));
        if let Ok((right, p2)) = parse_prec(toks, pos + 1, precedence_of(op)) {
            assert(pos + 1 < p2 < toks.len());
            lemma_infix_progress(
                toks,
                ExprView::Binary { left: Box::new(left), operator: op, right: Box::new(right) },
                p2,
                min_prec,
            );
        }
    }
}

/// Whether a token parses as a literal under the prefix rule.
pub open spec fn is_literal_token(t: TokenView) -> bool {
    t is Number || t is StrLit || t is Reserved
}

/// Associativity law: parsing `a (op1) b (op2) c` groups to the right
/// whenever the second operator's precedence is at least the first's,
/// because the right operand is parsed at the consumed operator's own
/// precedence rather than one level higher. In particular two operators of
/// the same precedence nest to the right: `1 - 2 - 3` parses as
/// `1 - (2 - 3)`.
pub proof fn lemma_right_associativity(toks: Seq<TokenInfoView>)
    requires
        toks.len() == 6,
        is_literal_token(toks[0].token),
        is_literal_token(toks[2].token),
        is_literal_token(toks[4].token),
        toks[5].token is Eof,
        1 <= precedence_of(toks[1].token),
        precedence_of(toks[1].token) <= precedence_of(toks[3].token),
    ensures
        parse_spec(toks) == Ok::<ExprView, ParseErrorView>(
            ExprView::Binary {
                left: Box::new(ExprView::Literal { value: toks[0].token }),
                operator: toks[1].token,
                right: Box::new(
                    ExprView::Binary {
                        left: Box::new(ExprView::Literal { value: toks[2].token }),
                        operator: toks[3].token,
                        right: Box::new(ExprView::Literal { value: toks[4].token }),
                    },
                ),
            },
        ),
{
    let p1 = precedence_of(toks[1].token);
    let p2 = precedence_of(toks[3].token);
    let lit0 = ExprView::Literal { value: toks[0].token };
    let lit2 = ExprView::Literal { value: toks[2].token };
    let lit4 = ExprView::Literal { value: toks[4].token };
    let inner = ExprView::Binary {
        left: Box::new(lit2),
        operator: toks[3].token,
        right: Box::new(lit4),
    };
    let full = ExprView::Binary {
        left: Box::new(lit0),
        operator: toks[1].token,
        right: Box::new(inner),
    };
    assert(precedence_of(toks[5].token) == PREC_NONE);
    assert(prefix_spec(toks, 4) == Ok::<(ExprView, int), ParseErrorView>((lit4, 5)));
    assert(infix_chain(toks, lit4, 5, p2) == Ok::<(ExprView, int), ParseErrorView>((lit4, 5)));
    assert(parse_prec(toks, 4, p2) == Ok::<(ExprView, int), ParseErrorView>((lit4, 5)));
    assert(prefix_spec(toks, 2) == Ok::<(ExprView, int), ParseErrorView>((lit2, 3)));
    assert(infix_chain(toks, inner, 5, p1) == Ok::<(ExprView, int), ParseErrorView>((inner, 5)));
    assert(infix_chain(toks, lit2, 3, p1) == Ok::<(ExprView, int), ParseErrorView>((inner, 5)));
    assert(parse_prec(toks, 2, p1) == Ok::<(ExprView, int), ParseErrorView>((inner, 5)));
    assert(prefix_spec(toks, 0) == Ok::<(ExprView, int), ParseErrorView>((lit0, 1)));
    assert(infix_chain(toks, full, 5, PREC_ASSIGNMENT) == Ok::<(ExprView, int), ParseErrorView>(
        (full, 5),
    ));
    assert(infix_chain(toks, lit0, 1, PREC_ASSIGNMENT) == Ok::<(ExprView, int), ParseErrorView>(
        (full, 5),
    ));
    assert(parse_prec(toks, 0, PREC_ASSIGNMENT) == Ok::<(ExprView, int), ParseErrorView>(
        (full, 5),
    ));
}

/// A successful parse from a well-formed stream always makes progress and
/// never consumes the terminating `Eof`.
pub proof fn lemma_parse_progress(toks: Seq<TokenInfoView>, pos: int, min_prec: u32)
    requires
        wf_tokens(toks),
        0 <= pos < toks.len(),
        1 <= min_prec,
    ensures
        parse_prec(toks, pos, min_prec) matches Ok((e, p)) ==> pos < p < toks.len() && ast_ops(e)
            < p - pos,
    decreases toks.len() - pos, 1int,
{
    lemma_prefix_progress(toks, pos);
    if let Ok((left, p)) = prefix_spec(toks, pos) {
        lemma_infix_progress(toks, left, p, min_prec);
    }
}

fn prefix_x(toks: &Vec<TokenInfo>, pos: usize) -> (r: Result<(Expr, usize), ParseError>)
    requires
        wf_tokens(tviews(toks@)),
        pos < toks@.len(),
    ensures
        r matches Ok((e, p)) ==> prefix_spec(tviews(toks@), pos as int) == Ok::<
            (ExprView, int),
            ParseErrorView,
        >((e@, p as int)) && pos < p < toks@.len(),
        r matches Err(e) ==> prefix_spec(tviews(toks@), pos as int) == Err::<
            (ExprView, int),
            ParseErrorView,
        >(e@),
    decreases toks@.len() - pos, 0int,
{
    let ghost v = tviews(toks@);
    let n = toks.len();
    assert(v[pos as int] == toks@[pos as int]@);
    let t = &toks[pos].token;
    match t {
        Token::Punctuation(Punctuation::OpenParen) => {
            proof {
                assert(v[v.len() - 1].token is Eof);
                assert(pos < toks@.len() - 1);
            }
            match parse_prec_x(toks, pos + 1, PREC_ASSIGNMENT) {
                Err(e) => Err(e),
                Ok((inner, p2)) => {
                    assert(v[p2 as int] == toks@[p2 as int]@);
                    let close = matches!(
                        &toks[p2].token,
                        Token::Punctuation(Punctuation::CloseParen)
                    );
                    if close {
                        proof {
                            assert(p2 < toks@.len() - 1);
                        }
                        Ok((Expr::Grouping { expression: Box::new(inner) }, p2 + 1))
                    } else {
                        Err(ParseError::MissingClosingParen(dup_token(&toks[p2].token)))
                    }
                },
            }
        },
        Token::Operation(Operation::Subtract) | Token::Operation(Operation::Not) => {
            proof {
                assert(v[v.len() - 1].token is Eof);
                assert(pos < toks@.len() - 1);
            }
            let op = dup_token(t);
            match parse_prec_x(toks, pos + 1, PREC_UNARY) {
                Err(e) => Err(e),
                Ok((right, p2)) => Ok((Expr::Unary { operator: op, right: Box::new(right) }, p2)),
            }
        },
        Token::Number(_) | Token::String(_) | Token::Reserved(_) => {
            proof {
                assert(v[v.len() - 1].token is Eof);
                assert(pos < toks@.len() - 1);
            }
            Ok((Expr::Literal { value: dup_token(t) }, pos + 1))
        },
        _ => Err(ParseError::ExpectedExpression(dup_token(t))),
    }
}

fn parse_prec_x(toks: &Vec<TokenInfo>, pos: usize, min_prec: u32) -> (r: Result<
    (Expr, usize),
    ParseError,
>)
    requires
        wf_tokens(tviews(toks@)),
        pos < toks@.len(),
        1 <= min_prec,
    ensures
        r matches Ok((e, p)) ==> parse_prec(tviews(toks@), pos as int, min_prec) == Ok::<
            (ExprView, int),
            ParseErrorView,
        >((e@, p as int)) && pos < p < toks@.len(),
        r matches Err(e) ==> parse_prec(tviews(toks@), pos as int, min_prec) == Err::<
            (ExprView, int),
            ParseErrorView,
        >(e@),
    decreases toks@.len() - pos, 1int,
{
    let ghost v = tviews(toks@);
    let n = toks.len();
    let ghost pos0 = pos as int;
    let (mut left, mut p) = match prefix_x(toks, pos) {
        Ok(x) => x,
        Err(e) => {
            return Err(e);
        },
    };
    loop
        invariant
            wf_tokens(v),
            v == tviews(toks@),
            v.len() == toks@.len(),
            toks@.len() <= usize::MAX,
            1 <= min_prec,
            pos0 == pos as int,
            0 <= pos0 < v.len(),
            pos0 < p < toks@.len(),
            parse_prec(v, pos0, min_prec) == infix_chain(v, left@, p as int, min_prec),
        decreases toks@.len() - p,
    {
        assert(v[p as int] == toks@[p as int]@);
        let prec = get_precedence(&toks[p].token);
        if prec < min_prec {
            return Ok((left, p));
        }
        proof {
            assert(v[p as int].token is Operation);
            assert(v[v.len() - 1].token is Eof);
            assert(p < toks@.len() - 1);
        }
        let op = dup_token(&toks[p].token);
        match parse_prec_x(toks, p + 1, prec) {
            Err(e) => {
                return Err(e);
            },
            Ok((right, p2)) => {
                left = Expr::Binary { left: Box::new(left), operator: op, right: Box::new(right) };
                p = p2;
            },
        }
    }
}

/// The precedence-climbing expression parser over a token stream, with a
/// single forward cursor and no backtracking.
pub struct PrattParser {
    tokens: Vec<TokenInfo>,
    current: usize,
}

impl PrattParser {
    /// The views of the tokens this parser was built over.
    pub closed spec fn toks(&self) -> Seq<TokenInfoView> {
        tviews(self.tokens@)
    }

    /// The cursor: the index of the next token to be consumed.
    pub closed spec fn cursor(&self) -> int {
        self.current as int
    }

    pub fn new(tokens: Vec<TokenInfo>) -> (r: Self)
        ensures
            r.toks() == tviews(tokens@),
            r.cursor() == 0,
    {
        Self { tokens, current: 0 }
    }

    /// Parses one expression from the cursor onward. The result is exactly
    /// what precedence climbing from the cursor assigns to the stream — for
    /// a fresh parser, `parse_spec` — and on success the cursor is left just
    /// past the consumed tokens, which never include the terminating `Eof`.
    pub fn parse(&mut self) -> (r: Result<Expr, ParseError>)
        requires
            wf_tokens(old(self).toks()),
            0 <= old(self).cursor() < old(self).toks().len(),
        ensures
            final(self).toks() == old(self).toks(),
            0 <= final(self).cursor() < final(self).toks().len(),
            r matches Ok(e) ==> parse_prec(old(self).toks(), old(self).cursor(), PREC_ASSIGNMENT)
                == Ok::<(ExprView, int), ParseErrorView>((e@, final(self).cursor())),
            r matches Err(e) ==> parse_prec(old(self).toks(), old(self).cursor(), PREC_ASSIGNMENT)
                == Err::<(ExprView, int), ParseErrorView>(e@) && final(self).cursor() == old(
                self,
            ).cursor(),
    {
        match parse_prec_x(&self.tokens, self.current, PREC_ASSIGNMENT) {
            Ok((e, p)) => {
                self.current = p;
                Ok(e)
            },
            Err(e) => Err(e),
        }
    }
}

} // verus!

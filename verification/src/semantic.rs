use vstd::prelude::*;

use crate::ast::{Expr, ExprView};
use crate::lexer::str_eq;
use crate::token::{dup_token, Operation, Reserved, Token, TokenView};

verus! {

/// The closed set of types the analyzer can infer.
#[derive(Debug, Clone, Copy, PartialEq, Eq, Structural)]
pub enum Type {
    Integer,
    Float,
    String,
    Boolean,
    Null,
    Void,
}

/// A named binding in a scope.
#[derive(Debug, Clone)]
pub struct Symbol {
    pub name: String,
    pub symbol_type: Type,
}

/// A scope of bindings with an exclusively owned link to its enclosing
/// scope. Lookup walks the chain outward; the innermost binding wins.
#[derive(Debug)]
pub struct SymbolTable {
    symbols: Vec<Symbol>,
    parent: Option<Box<SymbolTable>>,
}

/// The bindings of one symbol sequence, later entries shadowing earlier
/// ones.
pub closed spec fn bindings_of(syms: Seq<Symbol>) -> Map<Seq<char>, Type>
    decreases syms.len(),
{
    if syms.len() == 0 {
        Map::empty()
    } else {
        bindings_of(syms.drop_last()).insert(syms.last().name@, syms.last().symbol_type)
    }
}

proof fn lemma_bindings_at(syms: Seq<Symbol>, i: int, k: Seq<char>)
    requires
        0 <= i < syms.len(),
        syms[i].name@ == k,
        forall|j: int| i < j < syms.len() ==> (#[trigger] syms[j]).name@ != k,
    ensures
        bindings_of(syms).contains_key(k),
        bindings_of(syms)[k] == syms[i].symbol_type,
    decreases syms.len(),
{
    if i == syms.len() - 1 {
    } else {
        lemma_bindings_at(syms.drop_last(), i, k);
    }
}

proof fn lemma_bindings_absent(syms: Seq<Symbol>, k: Seq<char>)
    requires
        forall|j: int| 0 <= j < syms.len() ==> (#[trigger] syms[j]).name@ != k,
    ensures
        !bindings_of(syms).contains_key(k),
    decreases syms.len(),
{
    if syms.len() > 0 {
        lemma_bindings_absent(syms.drop_last(), k);
    }
}

impl SymbolTable {
    /// The bindings made directly in this scope.
    pub closed spec fn own_map(&self) -> Map<Seq<char>, Type> {
        bindings_of(self.symbols@)
    }

    /// The enclosing scope, if any.
    pub closed spec fn enclosing(&self) -> Option<SymbolTable> {
        match self.parent {
            Some(p) => Some(*p),
            None => None,
        }
    }

    /// Every name visible from this scope with the type of its innermost
    /// binding: the enclosing scope's view, overridden by this scope's own
    /// bindings.
    pub closed spec fn resolved(&self) -> Map<Seq<char>, Type>
        decreases *self,
    {
        match self.parent {
            Some(p) => p.resolved().union_prefer_right(self.own_map()),
            None => self.own_map(),
        }
    }

    pub fn new(parent: Option<Box<SymbolTable>>) -> (r: Self)
        ensures
            r.own_map() == Map::<Seq<char>, Type>::empty(),
            r.enclosing() == match parent {
                Some(p) => Some(*p),
                None => None::<SymbolTable>,
            },
            r.resolved() == match parent {
                Some(p) => p.resolved(),
                None => Map::<Seq<char>, Type>::empty(),
            },
    {
        let r = Self { symbols: Vec::new(), parent };
        proof {
            if r.parent is Some {
                assert(r.resolved() =~= r.parent->0.resolved());
            }
        }
        r
    }

    /// Binds `name` in this scope, replacing any binding this scope already
    /// made for it and shadowing any enclosing one.
    pub fn insert(&mut self, name: String, symbol_type: Type)
        ensures
            final(self).own_map() == old(self).own_map().insert(name@, symbol_type),
            final(self).resolved() == old(self).resolved().insert(name@, symbol_type),
            final(self).enclosing() == old(self).enclosing(),
    {
        let ghost pre = self.symbols@;
        let symbol = Symbol { name, symbol_type };
        self.symbols.push(symbol);
        proof {
            assert(self.symbols@.drop_last() =~= pre);
            assert(final(self).own_map() =~= old(self).own_map().insert(name@, symbol_type));
            if self.parent is Some {
                assert(final(self).resolved() =~= old(self).resolved().insert(
                    name@,
                    symbol_type,
                ));
            }
        }
    }

    /// Finds the innermost binding of `name`, walking the scope chain
    /// outward.
    pub fn lookup(&self, name: &str) -> (r: Option<&Symbol>)
        ensures
            match r {
                Some(sym) => self.resolved().contains_key(name@) && sym.symbol_type
                    == self.resolved()[name@] && sym.name@ == name@,
                None => !self.resolved().contains_key(name@),
            },
        decreases *self,
    {
        let n = self.symbols.len();
        let mut i: usize = n;
        while i > 0
            invariant
                i <= n,
                n == self.symbols@.len(),
                forall|j: int| i <= j < n ==> (#[trigger] self.symbols@[j]).name@ != name@,
            decreases i,
        {
            i -= 1;
            if str_eq(self.symbols[i].name.as_str(), name) {
                proof {
                    lemma_bindings_at(self.symbols@, i as int, name@);
                }
                return Some(&self.symbols[i]);
            }
        }
        proof {
            lemma_bindings_absent(self.symbols@, name@);
        }
        match &self.parent {
            Some(p) => p.lookup(name),
            None => None,
        }
    }
}

/// Scope chain law: a name bound in an enclosing scope is visible from a
/// fresh nested scope; rebinding the name in the nested scope hides the
/// outer binding within that scope only, and the enclosing table itself
/// keeps its binding, so discarding the nested scope restores the outer
/// view.
pub proof fn lemma_scope_shadowing(
    outer: SymbolTable,
    nested: SymbolTable,
    name: Seq<char>,
    t_outer: Type,
    t_inner: Type,
)
    requires
        nested.own_map() == Map::<Seq<char>, Type>::empty(),
        nested.enclosing() == Some(outer),
        outer.resolved().contains_key(name),
        outer.resolved()[name] == t_outer,
    ensures
        nested.resolved().contains_key(name),
        nested.resolved()[name] == t_outer,
        nested.resolved().insert(name, t_inner)[name] == t_inner,
        outer.resolved()[name] == t_outer,
{
    assert(nested.resolved() =~= outer.resolved());
}

/// Type error taxonomy: operand type mismatches, unsupported operators and
/// invalid literal kinds, each naming the tokens and types involved.
#[derive(Debug, Clone, PartialEq)]
pub enum TypeError {
    BinaryMismatch { operator: Token, left: Type, right: Type },
    UnaryMismatch { operator: Token, operand: Type },
    InvalidLiteral(Token),
    InvalidUnaryOperator(Token),
}

/// The mathematical image of a `TypeError`.
pub enum TypeErrorView {
    BinaryMismatch { operator: TokenView, left: Type, right: Type },
    UnaryMismatch { operator: TokenView, operand: Type },
    InvalidLiteral(TokenView),
    InvalidUnaryOperator(TokenView),
}

impl View for TypeError {
    type V = TypeErrorView;

    open spec fn view(&self) -> TypeErrorView {
        match self {
            TypeError::BinaryMismatch { operator, left, right } => TypeErrorView::BinaryMismatch {
                operator: operator@,
                left: *left,
                right: *right,
            },
            TypeError::UnaryMismatch { operator, operand } => TypeErrorView::UnaryMismatch {
                operator: operator@,
                operand: *operand,
            },
            TypeError::InvalidLiteral(t) => TypeErrorView::InvalidLiteral(t@),
            TypeError::InvalidUnaryOperator(t) => TypeErrorView::InvalidUnaryOperator(t@),
        }
    }
}

/// The type of a literal token: numbers are floats, quoted strings are
/// strings, `true`/`false` are booleans, `null` is null; every other token
/// is an invalid literal.
pub open spec fn literal_type(t: TokenView) -> Result<Type, TypeErrorView> {
    match t {
        TokenView::Number(_) => Ok(Type::Float),
        TokenView::StrLit(_) => Ok(Type::String),
        TokenView::Reserved(r) => {
            if r == Reserved::True || r == Reserved::False {
                Ok(Type::Boolean)
            } else if r == Reserved::Null {
                Ok(Type::Null)
            } else {
                Err(TypeErrorView::InvalidLiteral(t))
            }
        },
        _ => Err(TypeErrorView::InvalidLiteral(t)),
    }
}

/// The analyzer's typing rules. Binary operands must have identical types
/// (no implicit coercion); unary minus needs a numeric operand, unary not a
/// boolean one; grouping is transparent.
pub open spec fn analyze_spec(e: ExprView) -> Result<Type, TypeErrorView>
    decreases e,
{
    match e {
        ExprView::Binary { left, operator, right } => match analyze_spec(*left) {
            Err(er) => Err(er),
            Ok(lt) => match analyze_spec(*right) {
                Err(er) => Err(er),
                Ok(rt) => {
                    if lt != rt {
                        Err(TypeErrorView::BinaryMismatch { operator, left: lt, right: rt })
                    } else {
                        Ok(lt)
                    }
                },
            },
        },
        ExprView::Grouping { expression } => analyze_spec(*expression),
        ExprView::Literal { value } => literal_type(value),
        ExprView::Unary { operator, right } => match analyze_spec(*right) {
            Err(er) => Err(er),
            Ok(rt) => match operator {
                TokenView::Operation(op) => {
                    if op == Operation::Subtract {
                        if rt != Type::Float && rt != Type::Integer {
                            Err(TypeErrorView::UnaryMismatch { operator, operand: rt })
                        } else {
                            Ok(rt)
                        }
                    } else if op == Operation::Not {
                        if rt != Type::Boolean {
                            Err(TypeErrorView::UnaryMismatch { operator, operand: rt })
                        } else {
                            Ok(Type::Boolean)
                        }
                    } else {
                        Err(TypeErrorView::InvalidUnaryOperator(operator))
                    }
                },
                _ => Err(TypeErrorView::InvalidUnaryOperator(operator)),
            },
        },
    }
}

/// Literal kinds with differing inferred types never combine: any binary
/// operator applied between them fails with a type mismatch naming the
/// operator and both types.
pub proof fn lemma_binary_literal_mismatch(a: TokenView, op: TokenView, b: TokenView)
    requires
        literal_type(a) is Ok,
        literal_type(b) is Ok,
        literal_type(a) != literal_type(b),
    ensures
        analyze_spec(
            ExprView::Binary {
                left: Box::new(ExprView::Literal { value: a }),
                operator: op,
                right: Box::new(ExprView::Literal { value: b }),
            },
        ) == Err::<Type, TypeErrorView>(
            TypeErrorView::BinaryMismatch {
                operator: op,
                left: literal_type(a)->Ok_0,
                right: literal_type(b)->Ok_0,
            },
        ),
{
    assert(analyze_spec(ExprView::Literal { value: a }) == literal_type(a));
    assert(analyze_spec(ExprView::Literal { value: b }) == literal_type(b));
}

fn literal_type_x(t: &Token) -> (r: Result<Type, TypeError>)
    ensures
        r matches Ok(ty) ==> literal_type(t@) == Ok::<Type, TypeErrorView>(ty),
        r matches Err(e) ==> literal_type(t@) == Err::<Type, TypeErrorView>(e@),
{
    match t {
        Token::Number(_) => Ok(Type::Float),
        Token::String(_) => Ok(Type::String),
        Token::Reserved(Reserved::True) | Token::Reserved(Reserved::False) => Ok(Type::Boolean),
        Token::Reserved(Reserved::Null) => Ok(Type::Null),
        _ => Err(TypeError::InvalidLiteral(dup_token(t))),
    }
}

/// The recursive AST type checker. It holds the root scope for identifier
/// resolution; literal- and operator-only programs never consult it, but
/// the scoping mechanism itself is exercised by `SymbolTable`'s contracts.
pub struct SemanticAnalyzer {
    pub symbol_table: SymbolTable,
}

impl SemanticAnalyzer {
    pub fn new() -> (r: Self)
        ensures
            r.symbol_table.resolved() == Map::<Seq<char>, Type>::empty(),
    {
        Self { symbol_table: SymbolTable::new(None) }
    }

    /// Infers the type of `expr` exactly as `analyze_spec` does, failing on
    /// the first mismatch.
    pub fn analyze(&mut self, expr: &Expr) -> (r: Result<Type, TypeError>)
        ensures
            *final(self) == *old(self),
            r matches Ok(ty) ==> analyze_spec(expr@) == Ok::<Type, TypeErrorView>(ty),
            r matches Err(e) ==> analyze_spec(expr@) == Err::<Type, TypeErrorView>(e@),
        decreases *expr,
    {
        match expr {
            Expr::Binary { left, operator, right } => {
                let lt = match self.analyze(left) {
                    Ok(t) => t,
                    Err(e) => {
                        return Err(e);
                    },
                };
                let rt = match self.analyze(right) {
                    Ok(t) => t,
                    Err(e) => {
                        return Err(e);
                    },
                };
                if lt != rt {
                    Err(
                        TypeError::BinaryMismatch {
                            operator: dup_token(operator),
                            left: lt,
                            right: rt,
                        },
                    )
                } else {
                    Ok(lt)
                }
            },
            Expr::Grouping { expression } => self.analyze(expression),
            Expr::Literal { value } => literal_type_x(value),
            Expr::Unary { operator, right } => {
                let rt = match self.analyze(right) {
                    Ok(t) => t,
                    Err(e) => {
                        return Err(e);
                    },
                };
                match operator {
                    Token::Operation(Operation::Subtract) => {
                        if rt != Type::Float && rt != Type::Integer {
                            Err(
                                TypeError::UnaryMismatch {
                                    operator: dup_token(operator),
                                    operand: rt,
                                },
                            )
                        } else {
                            Ok(rt)
                        }
                    },
                    Token::Operation(Operation::Not) => {
                        if rt != Type::Boolean {
                            Err(
                                TypeError::UnaryMismatch {
                                    operator: dup_token(operator),
                                    operand: rt,
                                },
                            )
                        } else {
                            Ok(Type::Boolean)
                        }
                    },
                    _ => Err(TypeError::InvalidUnaryOperator(dup_token(operator))),
                }
            },
        }
    }
}

} // verus!

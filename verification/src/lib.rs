//! A small source-to-WebAssembly compiler for an expression language.
//!
//! The pipeline is strictly ordered: lexical scanning, precedence-climbing
//! parsing into an expression tree, a type-checking pass, three successive
//! lowering stages (HIR, MIR, LIR), and stack-machine code emission into a
//! binary module. Each stage is a pure transformation whose result is pinned
//! by a specification function; `compile` composes them all.

pub mod ast;
pub mod codegen;
pub mod eval;
pub mod hir;
pub mod lexer;
pub mod lir;
pub mod mir;
pub mod parser;
pub mod semantic;
pub mod token;

use vstd::prelude::*;

use crate::codegen::{wasm_module_bytes, CodeGenerator, CodegenError, WasmOp};
use crate::hir::{hir_lower_spec, hir_op_count, lemma_hir_ops, HirLowerer, LowerError,
    LowerErrorView};
use crate::lexer::{lemma_lex_from_wf, lex_spec, Lexer};
use crate::lir::{bviews, lir_lower_spec, mir_count, LirLowerer};
use crate::mir::{mir_lower_expr_spec, mir_lower_spec, MirBasicBlock, MirInstructionView,
    MirLowerer};
use crate::parser::{lemma_parse_progress, lemma_significant_wf, parse_spec,
    significant, significant_tokens, tviews, ParseError, ParseErrorView, PrattParser,
    PREC_ASSIGNMENT};
use crate::semantic::{analyze_spec, SemanticAnalyzer, TypeError, TypeErrorView};

verus! {

/// A compilation failure: the first error of whichever stage fails.
#[derive(Debug, Clone, PartialEq)]
pub enum CompileError {
    Parse(ParseError),
    Type(TypeError),
    Lower(LowerError),
    Codegen(CodegenError),
}

/// The mathematical image of a `CompileError`.
pub enum CompileErrorView {
    Parse(ParseErrorView),
    Type(TypeErrorView),
    Lower(LowerErrorView),
    Codegen(CodegenError),
}

impl View for CompileError {
    type V = CompileErrorView;

    open spec fn view(&self) -> CompileErrorView {
        match self {
            CompileError::Parse(e) => CompileErrorView::Parse(e@),
            CompileError::Type(e) => CompileErrorView::Type(e@),
            CompileError::Lower(e) => CompileErrorView::Lower(e@),
            CompileError::Codegen(e) => CompileErrorView::Codegen(*e),
        }
    }
}

/// The whole pipeline on a source text, down to the locals and operations
/// of the emitted function; stages run strictly downstream and the first
/// error is terminal.
pub open spec fn compile_spec(s: Seq<char>) -> Result<(u32, Seq<WasmOp>), CompileErrorView> {
    match parse_spec(significant(lex_spec(s))) {
        Err(e) => Err(CompileErrorView::Parse(e)),
        Ok(ast) => match analyze_spec(ast) {
            Err(e) => Err(CompileErrorView::Type(e)),
            Ok(_) => match hir_lower_spec(ast) {
                Err(e) => Err(CompileErrorView::Lower(e)),
                Ok(h) => match lir_lower_spec(mir_lower_spec(h)) {
                    Err(e) => Err(CompileErrorView::Lower(e)),
                    Ok(l) => match crate::codegen::plan_spec(l) {
                        Err(e) => Err(CompileErrorView::Codegen(e)),
                        Ok(p) => Ok(p),
                    },
                },
            },
        },
    }
}

/// Compiles a source text into a binary module holding one exported
/// function that computes the expression's value. The returned bytes encode
/// exactly the locals and operations `compile_spec` plans, and every stage
/// error surfaces unchanged. Each call allocates fresh state for every
/// stage, so repeated or concurrent compilations never interfere.
pub fn compile(source: &str) -> (r: Result<Vec<u8>, CompileError>)
    requires
        source@.len() < usize::MAX,
    ensures
        r matches Ok(bytes) ==> compile_spec(source@) matches Ok(p) && bytes@ == wasm_module_bytes(
            p.0,
            p.1,
        ),
        r matches Err(e) ==> compile_spec(source@) == Err::<(u32, Seq<WasmOp>), CompileErrorView>(
            e@,
        ),
{
    let ghost src = source@;
    let lexer = Lexer::new(source);
    let tokens = lexer.tokenize();
    let n_tokens = tokens.len();
    proof {
        lemma_lex_from_wf(src, 0, 1, 1);
        assert(tviews(tokens@) =~= lex_spec(src));
        lemma_significant_wf(lex_spec(src));
    }
    let parse_tokens = significant_tokens(&tokens);
    let mut parser = PrattParser::new(parse_tokens);
    let r = parser.parse();
    proof {
        if r is Ok {
            assert(parse_spec(significant(lex_spec(src))) == Ok::<
                crate::ast::ExprView,
                ParseErrorView,
            >(r->Ok_0@));
        }
        if r is Err {
            assert(parse_spec(significant(lex_spec(src))) == Err::<
                crate::ast::ExprView,
                ParseErrorView,
            >(r->Err_0@));
        }
    }
    let ast = match r {
        Ok(a) => a,
        Err(e) => {
            return Err(CompileError::Parse(e));
        },
    };
    proof {
        lemma_parse_progress(significant(lex_spec(src)), 0, PREC_ASSIGNMENT);
        assert(crate::ast::ast_ops(ast@) < n_tokens as int);
    }
    let mut analyzer = SemanticAnalyzer::new();
    match analyzer.analyze(&ast) {
        Ok(_) => (),
        Err(e) => {
            return Err(CompileError::Type(e));
        },
    };
    let hir_lowerer = HirLowerer::new();
    let hir = match hir_lowerer.lower(&ast) {
        Ok(h) => h,
        Err(e) => {
            return Err(CompileError::Lower(e));
        },
    };
    let ghost hv = hir@;
    proof {
        lemma_hir_ops(ast@);
        assert(hir_op_count(hv) < n_tokens as int);
    }
    let mut mir_lowerer = MirLowerer::new();
    let mir = match mir_lowerer.lower(hir) {
        Ok(m) => m,
        Err(e) => {
            return Err(CompileError::Lower(e));
        },
    };
    proof {
        let (ins, op, n) = mir_lower_expr_spec(hv, 0);
        crate::mir::lemma_mir_registers(hv, 0);
        assert(Seq::<MirInstructionView>::empty() + ins =~= ins);
        assert(bviews(mir@) =~= mir@.map_values(|b: MirBasicBlock| b@));
        assert(bviews(mir@) =~= mir_lower_spec(hv));
        assert(mir_lower_spec(hv).drop_last() =~= Seq::<crate::mir::MirBasicBlockView>::empty());
        assert(mir_count(bviews(mir@)) == ins.len());
    }
    let lir_lowerer = LirLowerer::new();
    let lir = match lir_lowerer.lower(mir) {
        Ok(l) => l,
        Err(e) => {
            return Err(CompileError::Lower(e));
        },
    };
    let mut generator = CodeGenerator::new();
    match generator.codegen(lir) {
        Ok(bytes) => Ok(bytes),
        Err(e) => Err(CompileError::Codegen(e)),
    }
}

/// End-to-end law: when compilation succeeds, the emitted function body —
/// run as a stack machine with zero-initialized local slots — returns
/// exactly the arithmetic expression of the type-checked source program,
/// with negation rendered as subtraction from zero.
pub proof fn lemma_compile_end_to_end(s: Seq<char>)
    requires
        s.len() < usize::MAX,
        compile_spec(s) is Ok,
    ensures
        ({
            let ast = parse_spec(significant(lex_spec(s)))->Ok_0;
            let h = hir_lower_spec(ast)->Ok_0;
            &&& crate::eval::hir_arith(h) is Some
            &&& crate::eval::module_sym_result(compile_spec(s)->Ok_0.1) == crate::eval::hir_arith(
                h,
            )
        }),
{
    let toks = lex_spec(s);
    let sig = significant(toks);
    crate::lexer::lemma_lex_from_wf(s, 0, 1, 1);
    crate::lexer::lemma_lex_from_len(s, 0, 1, 1);
    lemma_significant_wf(toks);
    lemma_parse_progress(sig, 0, PREC_ASSIGNMENT);
    let ast = parse_spec(sig)->Ok_0;
    lemma_hir_ops(ast);
    let h = hir_lower_spec(ast)->Ok_0;
    assert(hir_op_count(h) < usize::MAX);
    crate::eval::lemma_lowering_computes_hir(h);
    let lir = lir_lower_spec(mir_lower_spec(h))->Ok_0;
    crate::eval::lemma_codegen_computes_lir(lir);
}

/// Literal preservation law: a literal-only tree keeps its value unchanged
/// through every lowering. The HIR node carries exactly the literal's value
/// and type, and the MIR program is a single empty block returning that
/// value.
pub proof fn lemma_literal_preservation(t: crate::token::TokenView)
    requires
        crate::hir::hir_literal_of(t) is Some,
    ensures
        ({
            let (lit, ty) = crate::hir::hir_literal_of(t)->0;
            let ast = crate::ast::ExprView::Literal { value: t };
            &&& hir_lower_spec(ast) == Ok::<crate::hir::HirExprView, LowerErrorView>(
                crate::hir::HirExprView::Literal { value: lit, expr_type: ty },
            )
            &&& mir_lower_spec(hir_lower_spec(ast)->Ok_0) == seq![
                crate::mir::MirBasicBlockView {
                    instructions: Seq::<MirInstructionView>::empty(),
                    terminator: crate::mir::MirTerminatorView::Return(
                        crate::mir::MirOperandView::Literal(lit),
                    ),
                },
            ]
        }),
{
}

/// Numeric literal preservation law, continued to the binary module: the
/// bit pattern of a numeric literal flows unchanged into the LIR constant,
/// and the emitted function's body materializes it into the one local slot
/// and returns it.
pub proof fn lemma_numeric_literal_preservation(b: u64)
    ensures
        ({
            let ast = crate::ast::ExprView::Literal { value: crate::token::TokenView::Number(b) };
            let mir = mir_lower_spec(hir_lower_spec(ast)->Ok_0);
            &&& lir_lower_spec(mir) == Ok::<Seq<crate::lir::LirInstruction>, LowerErrorView>(
                seq![
                    crate::lir::LirInstruction {
                        kind: crate::lir::LirInstructionKind::Mov,
                        dest: crate::lir::LirOperand::Register(0),
                        src1: crate::lir::LirOperand::Constant(b),
                        src2: None,
                    },
                ],
            )
            &&& crate::codegen::plan_spec(lir_lower_spec(mir)->Ok_0) == Ok::<
                (u32, Seq<WasmOp>),
                CodegenError,
            >(
                (
                    1u32,
                    seq![
                        WasmOp::Const(b),
                        WasmOp::LocalSet(0),
                        WasmOp::LocalGet(0),
                        WasmOp::End,
                    ],
                ),
            )
        }),
{
    lemma_literal_preservation(crate::token::TokenView::Number(b));
    let ast = crate::ast::ExprView::Literal { value: crate::token::TokenView::Number(b) };
    let mir = mir_lower_spec(hir_lower_spec(ast)->Ok_0);
    let lit = crate::hir::HirLiteralView::Number(b);
    let mov = crate::lir::LirInstruction {
        kind: crate::lir::LirInstructionKind::Mov,
        dest: crate::lir::LirOperand::Register(0),
        src1: crate::lir::LirOperand::Constant(b),
        src2: None,
    };
    let empty_blocks = Seq::<crate::mir::MirBasicBlockView>::empty();
    assert(mir.drop_last() =~= empty_blocks);
    assert(lir_lower_spec(empty_blocks) == Ok::<Seq<crate::lir::LirInstruction>, LowerErrorView>(
        Seq::empty(),
    ));
    assert(mir_count(empty_blocks) == 0);
    let no_instrs = Seq::<MirInstructionView>::empty();
    assert(mir.last().instructions =~= no_instrs);
    assert(crate::lir::lir_lower_instrs(no_instrs) == Ok::<
        Seq<crate::lir::LirInstruction>,
        LowerErrorView,
    >(Seq::empty()));
    assert(crate::lir::lir_lower_block(mir.last(), 0) == Ok::<
        Seq<crate::lir::LirInstruction>,
        LowerErrorView,
    >(Seq::empty().push(mov)));
    assert(lir_lower_spec(mir) is Ok);
    assert(lir_lower_spec(mir)->Ok_0 =~= seq![mov]);
    let lir = lir_lower_spec(mir)->Ok_0;
    let empty_lir = Seq::<crate::lir::LirInstruction>::empty();
    assert(lir.drop_last() =~= empty_lir);
    assert(crate::codegen::plan_ops(empty_lir) == Ok::<Seq<WasmOp>, CodegenError>(Seq::empty()));
    assert(crate::codegen::plan_instr(mov) == Ok::<Seq<WasmOp>, CodegenError>(seq![
        WasmOp::Const(b),
        WasmOp::LocalSet(0),
    ]));
    assert(crate::codegen::plan_ops(lir) is Ok);
    assert(crate::codegen::plan_ops(lir)->Ok_0 =~= seq![WasmOp::Const(b), WasmOp::LocalSet(0)]);
    assert(crate::codegen::lir_max_reg(empty_lir) == -1);
    assert(crate::codegen::lir_max_reg(lir) == 0);
    assert(crate::codegen::plan_spec(lir) is Ok);
    assert(crate::codegen::plan_spec(lir)->Ok_0.0 == 1u32);
    assert(crate::codegen::plan_spec(lir)->Ok_0.1 =~= seq![
        WasmOp::Const(b),
        WasmOp::LocalSet(0),
        WasmOp::LocalGet(0),
        WasmOp::End,
    ]);
}

} // verus!

use d_compiler::codegen::{CodeGenerator, WasmOp};
use d_compiler::lexer::Lexer;
use d_compiler::lir::LirInstruction;
use d_compiler::parser::{significant_tokens, PrattParser};
use d_compiler::token::Token;
use d_compiler::{compile, CompileError};

fn to_lir(source: &str) -> Vec<LirInstruction> {
    let tokens = Lexer::new(source).tokenize();
    let mut parser = PrattParser::new(significant_tokens(&tokens));
    let ast = parser.parse().unwrap();
    let hir = d_compiler::hir::HirLowerer::new().lower(&ast).unwrap();
    let mir = d_compiler::mir::MirLowerer::new().lower(hir).unwrap();
    d_compiler::lir::LirLowerer::new().lower(mir).unwrap()
}

fn plan(source: &str) -> (u32, Vec<WasmOp>) {
    CodeGenerator::new().plan(&to_lir(source)).unwrap()
}

/// Runs a planned function body on a stack machine with one f64 slot per
/// local, as a wasm engine would.
fn run(locals: u32, ops: &[WasmOp]) -> f64 {
    let mut stack: Vec<f64> = Vec::new();
    let mut slots = vec![0.0f64; locals as usize];
    for op in ops {
        match op {
            WasmOp::LocalGet(i) => stack.push(slots[*i as usize]),
            WasmOp::LocalSet(i) => {
                let v = stack.pop().unwrap();
                slots[*i as usize] = v;
            }
            WasmOp::Const(b) => stack.push(f64::from_bits(*b)),
            WasmOp::Add => {
                let b = stack.pop().unwrap();
                let a = stack.pop().unwrap();
                stack.push(a + b);
            }
            WasmOp::Sub => {
                let b = stack.pop().unwrap();
                let a = stack.pop().unwrap();
                stack.push(a - b);
            }
            WasmOp::Mul => {
                let b = stack.pop().unwrap();
                let a = stack.pop().unwrap();
                stack.push(a * b);
            }
            WasmOp::Div => {
                let b = stack.pop().unwrap();
                let a = stack.pop().unwrap();
                stack.push(a / b);
            }
            WasmOp::End => {}
        }
    }
    // the function's result is the single value left on the stack
    assert_eq!(stack.len(), 1);
    stack.pop().unwrap()
}

#[test]
fn sum_and_product_evaluates_to_seven() {
    let (locals, ops) = plan("1 + 2 * 3");
    assert_eq!(locals, 3);
    assert_eq!(
        ops,
        vec![
            WasmOp::Const(2f64.to_bits()),
            WasmOp::Const(3f64.to_bits()),
            WasmOp::Mul,
            WasmOp::LocalSet(0),
            WasmOp::Const(1f64.to_bits()),
            WasmOp::LocalGet(0),
            WasmOp::Add,
            WasmOp::LocalSet(1),
            WasmOp::LocalGet(1),
            WasmOp::LocalSet(2),
            WasmOp::LocalGet(2),
            WasmOp::End,
        ]
    );
    assert_eq!(run(locals, &ops), 7.0);
}

#[test]
fn grouped_sum_evaluates_to_nine() {
    let (locals, ops) = plan("(1 + 2) * 3");
    assert_eq!(run(locals, &ops), 9.0);
}

#[test]
fn negated_literal_evaluates_to_minus_five() {
    let (locals, ops) = plan("-5");
    assert_eq!(run(locals, &ops), -5.0);
}

#[test]
fn chained_subtraction_groups_to_the_right() {
    // 1 - (2 - 3), per the parser's same-precedence recursion; a
    // left-associating parser would compute -4 instead.
    let (locals, ops) = plan("1 - 2 - 3");
    assert_eq!(run(locals, &ops), 2.0);
}

#[test]
fn division_evaluates_exactly() {
    let (locals, ops) = plan("6 / 4");
    assert_eq!(run(locals, &ops), 1.5);
}

#[test]
fn numeric_literal_survives_to_the_module_plan() {
    let (locals, ops) = plan("42");
    assert_eq!(locals, 1);
    assert_eq!(
        ops,
        vec![
            WasmOp::Const(42f64.to_bits()),
            WasmOp::LocalSet(0),
            WasmOp::LocalGet(0),
            WasmOp::End,
        ]
    );
    assert_eq!(run(locals, &ops), 42.0);
}

#[test]
fn fractional_literal_keeps_its_bits() {
    let (locals, ops) = plan("2.5");
    assert_eq!(ops[0], WasmOp::Const(2.5f64.to_bits()));
    assert_eq!(run(locals, &ops), 2.5);
}

#[test]
fn compiled_bytes_match_a_hand_built_module() {
    let bytes = compile("1 + 2 * 3").unwrap();

    let mut types = wasm_encoder::TypeSection::new();
    types.ty().function([], [wasm_encoder::ValType::F64]);
    let mut funcs = wasm_encoder::FunctionSection::new();
    funcs.function(0);
    let mut exports = wasm_encoder::ExportSection::new();
    exports.export("main", wasm_encoder::ExportKind::Func, 0);
    let mut f = wasm_encoder::Function::new([(3, wasm_encoder::ValType::F64)]);
    f.instruction(&wasm_encoder::Instruction::F64Const(wasm_encoder::Ieee64::new(
        2f64.to_bits(),
    )));
    f.instruction(&wasm_encoder::Instruction::F64Const(wasm_encoder::Ieee64::new(
        3f64.to_bits(),
    )));
    f.instruction(&wasm_encoder::Instruction::F64Mul);
    f.instruction(&wasm_encoder::Instruction::LocalSet(0));
    f.instruction(&wasm_encoder::Instruction::F64Const(wasm_encoder::Ieee64::new(
        1f64.to_bits(),
    )));
    f.instruction(&wasm_encoder::Instruction::LocalGet(0));
    f.instruction(&wasm_encoder::Instruction::F64Add);
    f.instruction(&wasm_encoder::Instruction::LocalSet(1));
    f.instruction(&wasm_encoder::Instruction::LocalGet(1));
    f.instruction(&wasm_encoder::Instruction::LocalSet(2));
    f.instruction(&wasm_encoder::Instruction::LocalGet(2));
    f.instruction(&wasm_encoder::Instruction::End);
    let mut code = wasm_encoder::CodeSection::new();
    code.function(&f);
    let mut module = wasm_encoder::Module::new();
    module.section(&types);
    module.section(&funcs);
    module.section(&exports);
    module.section(&code);

    assert_eq!(bytes, module.finish());
}

#[test]
fn compile_reports_a_parse_error_for_empty_input() {
    assert_eq!(
        compile(""),
        Err(CompileError::Parse(d_compiler::parser::ParseError::ExpectedExpression(Token::Eof)))
    );
}

#[test]
fn compile_reports_the_first_stage_error() {
    assert_eq!(
        compile("1 < 2"),
        Err(CompileError::Lower(d_compiler::hir::LowerError::UnsupportedBinaryOp(
            d_compiler::mir::MirBinaryOp::LessThan
        )))
    );
    assert_eq!(
        compile("1 + true"),
        Err(CompileError::Type(d_compiler::semantic::TypeError::BinaryMismatch {
            operator: Token::Operation(d_compiler::token::Operation::Add),
            left: d_compiler::semantic::Type::Float,
            right: d_compiler::semantic::Type::Boolean,
        }))
    );
}

#[test]
fn repeated_compilations_do_not_interfere() {
    let first = compile("1 + 2 * 3").unwrap();
    let other = compile("(1 + 2) * 3").unwrap();
    let again = compile("1 + 2 * 3").unwrap();
    assert_eq!(first, again);
    assert_ne!(first, other);
}

#[test]
fn plan_rejects_an_empty_program() {
    assert_eq!(
        CodeGenerator::new().plan(&Vec::new()),
        Err(d_compiler::codegen::CodegenError::EmptyProgram)
    );
}

#[test]
fn plan_rejects_a_constant_destination() {
    let bad = vec![LirInstruction {
        kind: d_compiler::lir::LirInstructionKind::Mov,
        dest: d_compiler::lir::LirOperand::Constant(0),
        src1: d_compiler::lir::LirOperand::Constant(0),
        src2: None,
    }];
    assert_eq!(
        CodeGenerator::new().plan(&bad),
        Err(d_compiler::codegen::CodegenError::ConstantDestination)
    );
}

#[test]
fn plan_rejects_registers_beyond_the_local_space() {
    let bad = vec![LirInstruction {
        kind: d_compiler::lir::LirInstructionKind::Mov,
        dest: d_compiler::lir::LirOperand::Register(u32::MAX as usize),
        src1: d_compiler::lir::LirOperand::Constant(0),
        src2: None,
    }];
    assert_eq!(
        CodeGenerator::new().plan(&bad),
        Err(d_compiler::codegen::CodegenError::RegisterOutOfRange)
    );
}

#[test]
fn plan_rejects_arithmetic_without_a_second_source() {
    let bad = vec![LirInstruction {
        kind: d_compiler::lir::LirInstructionKind::Add,
        dest: d_compiler::lir::LirOperand::Register(0),
        src1: d_compiler::lir::LirOperand::Constant(0),
        src2: None,
    }];
    assert_eq!(
        CodeGenerator::new().plan(&bad),
        Err(d_compiler::codegen::CodegenError::MissingOperand)
    );
}

use vstd::prelude::*;

use crate::lir::{LirInstruction, LirInstructionKind, LirOperand};

verus! {

/// One stack-machine operation of the emitted function body, in the order
/// the code generator plans them. A constant is the IEEE-754 binary64 bit
/// pattern of its value.
#[derive(Debug, Clone, Copy, PartialEq, Eq, Structural)]
pub enum WasmOp {
    LocalGet(u32),
    LocalSet(u32),
    Const(u64),
    Add,
    Sub,
    Mul,
    Div,
    End,
}

/// Code generation failure: nothing to return, a destination that is not a
/// register, a register beyond the 32-bit local index space, or an
/// arithmetic instruction missing its second source.
#[derive(Debug, Clone, Copy, PartialEq, Eq, Structural)]
pub enum CodegenError {
    EmptyProgram,
    ConstantDestination,
    RegisterOutOfRange,
    MissingOperand,
}

/// The contents of a `wasm_encoder::Function` body: the operations written
/// into it so far. Named: only the trusted emitters below say how it
/// changes.
pub uninterp spec fn func_ops(f: wasm_encoder::Function) -> Seq<WasmOp>;

/// The number of 64-bit float locals a `wasm_encoder::Function` declares.
pub uninterp spec fn func_locals(f: wasm_encoder::Function) -> u32;

/// The serialized module that holds one type (no parameters, one 64-bit
/// float result), one function of that type with the given locals and body,
/// and one export binding it under the name "main". Named: the byte-level
/// encoding is wasm_encoder's, and depends on the locals and body alone.
pub uninterp spec fn wasm_module_bytes(locals: u32, ops: Seq<WasmOp>) -> Seq<u8>;

#[verifier::external_type_specification]
#[verifier::external_body]
pub struct ExFunction(wasm_encoder::Function);

/// Relies on `wasm_encoder::Function::new`: a fresh function body declaring
/// `locals` slots of the 64-bit float type, with an empty instruction
/// stream.
#[verifier::external_body]
fn new_function(locals: u32) -> (f: wasm_encoder::Function)
    ensures
        func_ops(f) == Seq::<WasmOp>::empty(),
        func_locals(f) == locals,
{
    wasm_encoder::Function::new([(locals, wasm_encoder::ValType::F64)])
}

/// Relies on `wasm_encoder::Function::instruction`, which appends one
/// encoded instruction to the function body; each planned operation maps to
/// exactly one wasm instruction.
#[verifier::external_body]
fn emit_op(f: &mut wasm_encoder::Function, op: WasmOp)
    ensures
        func_ops(*final(f)) == func_ops(*old(f)).push(op),
        func_locals(*final(f)) == func_locals(*old(f)),
{
    let ins = match op {
        WasmOp::LocalGet(i) => wasm_encoder::Instruction::LocalGet(i),
        WasmOp::LocalSet(i) => wasm_encoder::Instruction::LocalSet(i),
        WasmOp::Const(bits) => wasm_encoder::Instruction::F64Const(wasm_encoder::Ieee64::new(bits)),
        WasmOp::Add => wasm_encoder::Instruction::F64Add,
        WasmOp::Sub => wasm_encoder::Instruction::F64Sub,
        WasmOp::Mul => wasm_encoder::Instruction::F64Mul,
        WasmOp::Div => wasm_encoder::Instruction::F64Div,
        WasmOp::End => wasm_encoder::Instruction::End,
    };
    f.instruction(&ins);
}

/// Relies on wasm_encoder's `Module`, `TypeSection`, `FunctionSection`,
/// `ExportSection` and `CodeSection`: the returned bytes serialize the
/// module with one type (no parameters, one 64-bit float result), one
/// function of that type carrying `f`'s locals and code, and one export
/// binding that function under the name "main".
#[verifier::external_body]
fn finish_module(f: &wasm_encoder::Function) -> (r: Vec<u8>)
    ensures
        r@ == wasm_module_bytes(func_locals(*f), func_ops(*f)),
{
    let mut types = wasm_encoder::TypeSection::new();
    types.ty().function([], [wasm_encoder::ValType::F64]);
    let mut funcs = wasm_encoder::FunctionSection::new();
    funcs.function(0);
    let mut exports = wasm_encoder::ExportSection::new();
    exports.export("main", wasm_encoder::ExportKind::Func, 0);
    let mut code = wasm_encoder::CodeSection::new();
    code.function(f);
    let mut module = wasm_encoder::Module::new();
    module.section(&types);
    module.section(&funcs);
    module.section(&exports);
    module.section(&code);
    module.finish()
}

/// The operation that pushes one source operand: a register loads its local
/// slot, a constant pushes its immediate. A register must fit below the
/// 32-bit local limit.
pub open spec fn plan_push(o: LirOperand) -> Result<WasmOp, CodegenError> {
    match o {
        LirOperand::Register(r) => {
            if r >= u32::MAX as usize {
                Err(CodegenError::RegisterOutOfRange)
            } else {
                Ok(WasmOp::LocalGet(r as u32))
            }
        },
        LirOperand::Constant(b) => Ok(WasmOp::Const(b)),
    }
}

/// The stack operation of an arithmetic opcode.
pub open spec fn arith_op(k: LirInstructionKind) -> WasmOp {
    match k {
        LirInstructionKind::Add => WasmOp::Add,
        LirInstructionKind::Sub => WasmOp::Sub,
        LirInstructionKind::Mul => WasmOp::Mul,
        LirInstructionKind::Div => WasmOp::Div,
        LirInstructionKind::Mov => WasmOp::End,
    }
}

/// The operations one LIR instruction plans: push each source, apply the
/// stack operation (none for a move), then store the result into the
/// destination register's local slot, so that later instructions read it
/// back from there.
pub open spec fn plan_instr(i: LirInstruction) -> Result<Seq<WasmOp>, CodegenError> {
    match i.dest {
        LirOperand::Constant(_) => Err(CodegenError::ConstantDestination),
        LirOperand::Register(d) => {
            if d >= u32::MAX as usize {
                Err(CodegenError::RegisterOutOfRange)
            } else {
                match i.kind {
                    LirInstructionKind::Mov => match plan_push(i.src1) {
                        Err(e) => Err(e),
                        Ok(p) => Ok(seq![p, WasmOp::LocalSet(d as u32)]),
                    },
                    _ => match i.src2 {
                        None => Err(CodegenError::MissingOperand),
                        Some(s2) => match plan_push(i.src1) {
                            Err(e) => Err(e),
                            Ok(a) => match plan_push(s2) {
                                Err(e) => Err(e),
                                Ok(b) => Ok(
                                    seq![a, b, arith_op(i.kind), WasmOp::LocalSet(d as u32)],
                                ),
                            },
                        },
                    },
                }
            }
        },
    }
}

/// The operations of a whole instruction list, in order.
pub open spec fn plan_ops(instrs: Seq<LirInstruction>) -> Result<Seq<WasmOp>, CodegenError>
    decreases instrs.len(),
{
    if instrs.len() == 0 {
        Ok(Seq::empty())
    } else {
        match plan_ops(instrs.drop_last()) {
            Err(e) => Err(e),
            Ok(front) => match plan_instr(instrs.last()) {
                Err(e) => Err(e),
                Ok(ops) => Ok(front + ops),
            },
        }
    }
}

/// The register index an operand touches; none for a constant.
pub open spec fn op_reg(o: LirOperand) -> int {
    match o {
        LirOperand::Register(r) => r as int,
        LirOperand::Constant(_) => -1,
    }
}

/// The largest register index one instruction uses: its destination, its
/// first source, and its second source for arithmetic (a move has no
/// second source to read).
pub open spec fn instr_max_reg(i: LirInstruction) -> int {
    let d = op_reg(i.dest);
    let a = op_reg(i.src1);
    let b = if i.kind is Mov {
        -1
    } else {
        match i.src2 {
            Some(s) => op_reg(s),
            None => -1,
        }
    };
    vstd::math::max(vstd::math::max(d, a), b)
}

/// The largest register index a whole list uses; -1 when none.
pub open spec fn lir_max_reg(instrs: Seq<LirInstruction>) -> int
    decreases instrs.len(),
{
    if instrs.len() == 0 {
        -1int
    } else {
        vstd::math::max(lir_max_reg(instrs.drop_last()), instr_max_reg(instrs.last()))
    }
}

/// The whole plan for one function body: every instruction's operations in
/// order, then a load of the last instruction's destination (the program's
/// value) and the end marker; the function declares one local per register
/// used. An empty program has no value to return and is rejected.
pub open spec fn plan_spec(instrs: Seq<LirInstruction>) -> Result<(u32, Seq<WasmOp>), CodegenError> {
    if instrs.len() == 0 {
        Err(CodegenError::EmptyProgram)
    } else {
        match plan_ops(instrs) {
            Err(e) => Err(e),
            Ok(ops) => match instrs.last().dest {
                LirOperand::Constant(_) => Err(CodegenError::ConstantDestination),
                LirOperand::Register(d) => Ok(
                    (
                        (lir_max_reg(instrs) + 1) as u32,
                        ops + seq![WasmOp::LocalGet(d as u32), WasmOp::End],
                    ),
                ),
            },
        }
    }
}

fn plan_push_x(o: &LirOperand) -> (r: Result<WasmOp, CodegenError>)
    ensures
        r == plan_push(*o),
{
    match o {
        LirOperand::Register(reg) => {
            if *reg >= u32::MAX as usize {
                Err(CodegenError::RegisterOutOfRange)
            } else {
                Ok(WasmOp::LocalGet(*reg as u32))
            }
        },
        LirOperand::Constant(b) => Ok(WasmOp::Const(*b)),
    }
}

/// The code generator: plans the stack operations for a LIR program and
/// emits them into a binary module with one exported function.
pub struct CodeGenerator {}

impl CodeGenerator {
    pub fn new() -> (r: Self) {
        Self {  }
    }

    /// The function body plan for a LIR program: the locals to declare and
    /// the operations to emit, exactly as `plan_spec` lays them out.
    pub fn plan(&self, lir: &Vec<LirInstruction>) -> (r: Result<(u32, Vec<WasmOp>), CodegenError>)
        ensures
            r matches Ok((locals, ops)) ==> plan_spec(lir@) == Ok::<(u32, Seq<WasmOp>), CodegenError>(
                (locals, ops@),
            ),
            r matches Err(e) ==> plan_spec(lir@) == Err::<(u32, Seq<WasmOp>), CodegenError>(e),
    {
        let n = lir.len();
        if n == 0 {
            return Err(CodegenError::EmptyProgram);
        }
        let mut ops: Vec<WasmOp> = Vec::new();
        let mut locals: u32 = 0;
        let mut i: usize = 0;
        proof {
            assert(lir@.take(0) =~= Seq::<LirInstruction>::empty());
        }
        while i < n
            invariant
                n == lir@.len(),
                i <= n,
                plan_ops(lir@.take(i as int)) == Ok::<Seq<WasmOp>, CodegenError>(ops@),
                locals as int == lir_max_reg(lir@.take(i as int)) + 1,
            decreases n - i,
        {
            let inst = &lir[i];
            let ghost pre = lir@.take(i as int);
            proof {
                assert(lir@.take(i as int + 1).drop_last() =~= pre);
                assert(lir@.take(i as int + 1).last() == lir@[i as int]);
            }
            let d: u32 = match &inst.dest {
                LirOperand::Constant(_) => {
                    proof {
                        lemma_plan_err(lir@, i as int + 1);
                    }
                    return Err(CodegenError::ConstantDestination);
                },
                LirOperand::Register(reg) => {
                    if *reg >= u32::MAX as usize {
                        proof {
                            lemma_plan_err(lir@, i as int + 1);
                        }
                        return Err(CodegenError::RegisterOutOfRange);
                    }
                    *reg as u32
                },
            };
            let is_mov = matches!(inst.kind, LirInstructionKind::Mov);
            let ghost ops0 = ops@;
            if is_mov {
                let a = match plan_push_x(&inst.src1) {
                    Ok(x) => x,
                    Err(e) => {
                        proof {
                            lemma_plan_err(lir@, i as int + 1);
                        }
                        return Err(e);
                    },
                };
                ops.push(a);
                ops.push(WasmOp::LocalSet(d));
                proof {
                    assert(ops@ =~= ops0 + seq![a, WasmOp::LocalSet(d)]);
                }
            } else {
                let s2 = match &inst.src2 {
                    Some(s) => s,
                    None => {
                        proof {
                            lemma_plan_err(lir@, i as int + 1);
                        }
                        return Err(CodegenError::MissingOperand);
                    },
                };
                let a = match plan_push_x(&inst.src1) {
                    Ok(x) => x,
                    Err(e) => {
                        proof {
                            lemma_plan_err(lir@, i as int + 1);
                        }
                        return Err(e);
                    },
                };
                let b = match plan_push_x(s2) {
                    Ok(x) => x,
                    Err(e) => {
                        proof {
                            lemma_plan_err(lir@, i as int + 1);
                        }
                        return Err(e);
                    },
                };
                let k = match inst.kind {
                    LirInstructionKind::Add => WasmOp::Add,
                    LirInstructionKind::Sub => WasmOp::Sub,
                    LirInstructionKind::Mul => WasmOp::Mul,
                    LirInstructionKind::Div => WasmOp::Div,
                    LirInstructionKind::Mov => WasmOp::End,
                };
                ops.push(a);
                ops.push(b);
                ops.push(k);
                ops.push(WasmOp::LocalSet(d));
                proof {
                    assert(ops@ =~= ops0 + seq![a, b, k, WasmOp::LocalSet(d)]);
                }
            }
            // grow the local count to cover every register this
            // instruction used
            if d + 1 > locals {
                locals = d + 1;
            }
            match &inst.src1 {
                LirOperand::Register(reg) => {
                    let r32 = *reg as u32;
                    if r32 + 1 > locals {
                        locals = r32 + 1;
                    }
                },
                LirOperand::Constant(_) => {},
            }
            if !is_mov {
                match &inst.src2 {
                    Some(LirOperand::Register(reg)) => {
                        let r32 = *reg as u32;
                        if r32 + 1 > locals {
                            locals = r32 + 1;
                        }
                    },
                    _ => {},
                }
            }
            proof {
                assert(plan_ops(lir@.take(i as int + 1)) == Ok::<Seq<WasmOp>, CodegenError>(ops@));
                assert(locals as int == lir_max_reg(lir@.take(i as int + 1)) + 1);
            }
            i += 1;
        }
        proof {
            assert(lir@.take(n as int) =~= lir@);
        }
        let last = &lir[n - 1];
        match &last.dest {
            LirOperand::Register(reg) => {
                ops.push(WasmOp::LocalGet(*reg as u32));
                ops.push(WasmOp::End);
                proof {
                    assert(ops@ =~= plan_spec(lir@)->Ok_0.1);
                }
                Ok((locals, ops))
            },
            LirOperand::Constant(_) => Err(CodegenError::ConstantDestination),
        }
    }

    /// Emits the binary module for a LIR program: the planned operations
    /// written into one function with one local per register used, wrapped
    /// in the one-type, one-function, one-export module layout.
    pub fn codegen(&mut self, lir: Vec<LirInstruction>) -> (r: Result<Vec<u8>, CodegenError>)
        ensures
            plan_spec(lir@) matches Ok(p) ==> r matches Ok(bytes) && bytes@ == wasm_module_bytes(
                p.0,
                p.1,
            ),
            plan_spec(lir@) matches Err(e) ==> r == Err::<Vec<u8>, CodegenError>(e),
    {
        let (locals, ops) = match self.plan(&lir) {
            Ok(x) => x,
            Err(e) => {
                return Err(e);
            },
        };
        let mut f = new_function(locals);
        let m = ops.len();
        let mut k: usize = 0;
        proof {
            assert(ops@.take(0) =~= Seq::<WasmOp>::empty());
        }
        while k < m
            invariant
                m == ops@.len(),
                k <= m,
                func_ops(f) == ops@.take(k as int),
                func_locals(f) == locals,
            decreases m - k,
        {
            emit_op(&mut f, ops[k]);
            proof {
                assert(ops@.take(k as int + 1) =~= ops@.take(k as int).push(ops@[k as int]));
            }
            k += 1;
        }
        proof {
            assert(ops@.take(m as int) =~= ops@);
        }
        Ok(finish_module(&f))
    }
}

proof fn lemma_plan_err(instrs: Seq<LirInstruction>, j: int)
    requires
        0 <= j <= instrs.len(),
        plan_ops(instrs.take(j)) is Err,
    ensures
        plan_ops(instrs) == plan_ops(instrs.take(j)),
    decreases instrs.len() - j,
{
    if j < instrs.len() {
        assert(instrs.take(j + 1).drop_last() =~= instrs.take(j));
        lemma_plan_err(instrs, j + 1);
    } else {
        assert(instrs.take(j) =~= instrs);
    }
}

} // verus!

//! Assembly generation for one function, with a register allocator that
//! claims pool registers front to back and never releases one.

use crate::program::{IrFunction, IrOp, IrProgram, IrValue};
use crate::target::{asm_text, pool_reg, AsmInst, AsmOp, Reg, POOL_SIZE};
use vstd::prelude::*;

verus! {

/// Who consumes the value that is being generated: another instruction, a
/// return, or nobody (the instruction stands in the layout).
#[derive(Debug, Clone, Copy, PartialEq, Eq, Structural)]
pub enum ParentType {
    Binary,
    Return,
    Top,
}

/// The kind of value that a generation step handled.
#[derive(Debug, Clone, Copy, PartialEq, Eq, Structural)]
pub enum ValueTag {
    Integer,
    Binary,
    Return,
}

/// What a generation step hands back: the register that holds the value, if
/// it is held in one, and the kind of the value.
#[derive(Debug, Clone, Copy, PartialEq, Eq, Structural)]
pub struct InstRet {
    pub reg: Option<Reg>,
    pub valuekind: ValueTag,
}

/// Why no assembly was generated.
#[derive(Debug, Clone, Copy, PartialEq, Eq, Structural)]
pub enum CodegenError {
    /// A value of a kind other than integer, binary and return, or an
    /// operand that arrives in no register: a return.
    UnsupportedInstruction,
    /// A binary operator without an emission rule.
    UnsupportedOperator,
    /// A fresh register was needed and all of the pool was claimed.
    RegisterPoolExhausted,
    /// A handle outside the table of values, an operand that does not stand
    /// before its user, or a function without a name.
    MalformedIr,
}

/// The state of one function's generation pass: how many pool registers are
/// claimed, which register holds each computed binary value, and the
/// instructions emitted so far.
pub struct GenState {
    pub cursor: nat,
    pub bound: Map<int, Reg>,
    pub code: Seq<AsmInst>,
}

impl GenState {
    /// The state before anything is generated.
    pub open spec fn initial() -> GenState {
        GenState { cursor: 0, bound: Map::empty(), code: Seq::empty() }
    }

    /// The state after one more instruction is emitted.
    pub open spec fn emit(self, i: AsmInst) -> GenState {
        GenState { cursor: self.cursor, bound: self.bound, code: self.code.push(i) }
    }

    /// No more registers are claimed than the pool holds, and no value is
    /// bound to the always-zero register.
    pub open spec fn valid(self) -> bool {
        &&& self.cursor <= POOL_SIZE
        &&& forall|k: int| #[trigger] self.bound.contains_key(k) ==> self.bound[k] != Reg::X0
    }
}

/// The instructions that compute `op` on `a` and `b` into `rd`, for the
/// operators that have an emission rule: equality is an exclusive or followed
/// by a test for zero, the others are one instruction.
pub open spec fn binary_code(op: IrOp, rd: Reg, a: Reg, b: Reg) -> Option<Seq<AsmInst>> {
    match op {
        IrOp::Eq => Some(seq![AsmInst::Arith(AsmOp::Xor, rd, a, b), AsmInst::Seqz(rd, rd)]),
        IrOp::Add => Some(seq![AsmInst::Arith(AsmOp::Add, rd, a, b)]),
        IrOp::Sub => Some(seq![AsmInst::Arith(AsmOp::Sub, rd, a, b)]),
        IrOp::Mul => Some(seq![AsmInst::Arith(AsmOp::Mul, rd, a, b)]),
        IrOp::Div => Some(seq![AsmInst::Arith(AsmOp::Sdiv, rd, a, b)]),
        _ => None,
    }
}

/// Whether `op` has an emission rule.
pub open spec fn supported(op: IrOp) -> bool {
    binary_code(op, Reg::X0, Reg::X0, Reg::X0) is Some
}

/// An operand whose register may become the destination of its user: a
/// literal that was loaded into a pool register.
pub open spec fn reusable(r: InstRet) -> bool {
    r.valuekind == ValueTag::Integer && r.reg is Some && r.reg != Some(Reg::X0)
}

/// Generation of an integer constant. As an operand, zero is the always-zero
/// register and costs nothing; any other literal is loaded into the next pool
/// register. As a returned value every literal, zero too, is loaded into
/// `a0`. In the layout it generates nothing.
pub open spec fn gen_integer(n: i32, parent: ParentType, st: GenState) -> Result<
    (GenState, InstRet),
    CodegenError,
> {
    match parent {
        ParentType::Binary => if n != 0 {
            if st.cursor >= POOL_SIZE {
                Err(CodegenError::RegisterPoolExhausted)
            } else {
                let rd = pool_reg(st.cursor);
                Ok(
                    (
                        GenState {
                            cursor: st.cursor + 1,
                            bound: st.bound,
                            code: st.code.push(AsmInst::Li(rd, n)),
                        },
                        InstRet { reg: Some(rd), valuekind: ValueTag::Integer },
                    ),
                )
            }
        } else {
            Ok((st, InstRet { reg: Some(Reg::X0), valuekind: ValueTag::Integer }))
        },
        ParentType::Return => Ok(
            (
                st.emit(AsmInst::Li(Reg::A0, n)),
                InstRet { reg: Some(Reg::A0), valuekind: ValueTag::Integer },
            ),
        ),
        ParentType::Top => Ok((st, InstRet { reg: None, valuekind: ValueTag::Integer })),
    }
}

/// The end of a return whose operand has arrived in `r`: a move into `a0`
/// where `r` is another register, then the return.
pub open spec fn finish_return(st: GenState, r: Reg) -> GenState {
    let moved = if r != Reg::A0 {
        st.emit(AsmInst::Mv(Reg::A0, r))
    } else {
        st
    };
    moved.emit(AsmInst::Ret)
}

/// The end of a binary instruction whose operands have been generated. The
/// destination is the register of the left operand if that is a loaded
/// literal, else that of the right operand if that is one, else the next pool
/// register. The destination is bound to the instruction's handle.
pub open spec fn finish_binary(op: IrOp, v: int, lhs: InstRet, rhs: InstRet, st: GenState)
    -> Result<(GenState, InstRet), CodegenError> {
    if lhs.reg is None || rhs.reg is None {
        Err(CodegenError::UnsupportedInstruction)
    } else {
        let a = lhs.reg->0;
        let b = rhs.reg->0;
        if reusable(lhs) {
            Ok(bind_binary(op, v, a, a, b, st.cursor, st))
        } else if reusable(rhs) {
            Ok(bind_binary(op, v, b, a, b, st.cursor, st))
        } else if st.cursor >= POOL_SIZE {
            Err(CodegenError::RegisterPoolExhausted)
        } else {
            Ok(bind_binary(op, v, pool_reg(st.cursor), a, b, st.cursor + 1, st))
        }
    }
}

/// The state and result after the instructions of `op` are emitted with
/// destination `rd`, and `rd` is bound to `v`.
pub open spec fn bind_binary(op: IrOp, v: int, rd: Reg, a: Reg, b: Reg, cursor: nat, st: GenState)
    -> (GenState, InstRet) {
    (
        GenState {
            cursor: cursor,
            bound: st.bound.insert(v, rd),
            code: st.code + binary_code(op, rd, a, b)->0,
        },
        InstRet { reg: Some(rd), valuekind: ValueTag::Binary },
    )
}

/// Generation of the value with handle `v` for the consumer `parent`, from
/// the state `st`: the state afterwards and what the step hands back, or the
/// reason why nothing can be generated.
///
/// A binary value must have its operands before it and an operator with an
/// emission rule. One that is bound already is not computed again: its
/// register is handed back and the state stays as it is. One that is not
/// bound has its operands generated, left before right, and is then
/// computed. A return must have an operand that arrives in a register.
pub open spec fn gen_value(values: Seq<IrValue>, v: int, parent: ParentType, st: GenState)
    -> Result<(GenState, InstRet), CodegenError>
    decreases v,
{
    if v < 0 || v >= values.len() {
        Err(CodegenError::MalformedIr)
    } else {
        match values[v] {
            IrValue::Integer(n) => gen_integer(n, parent, st),
            IrValue::Return(None) => Ok(
                (st.emit(AsmInst::Ret), InstRet { reg: None, valuekind: ValueTag::Return }),
            ),
            IrValue::Return(Some(x)) => if x >= v {
                Err(CodegenError::MalformedIr)
            } else {
                match gen_value(values, x as int, ParentType::Return, st) {
                    Err(e) => Err(e),
                    Ok((s1, operand)) => match operand.reg {
                        None => Err(CodegenError::UnsupportedInstruction),
                        Some(r) => Ok(
                            (
                                finish_return(s1, r),
                                InstRet { reg: None, valuekind: ValueTag::Return },
                            ),
                        ),
                    },
                }
            },
            IrValue::Binary(op, l, r) => if l >= v || r >= v {
                Err(CodegenError::MalformedIr)
            } else if !supported(op) {
                Err(CodegenError::UnsupportedOperator)
            } else if st.bound.contains_key(v) {
                Ok((st, InstRet { reg: Some(st.bound[v]), valuekind: ValueTag::Binary }))
            } else {
                match gen_value(values, l as int, ParentType::Binary, st) {
                    Err(e) => Err(e),
                    Ok((s1, lhs)) => match gen_value(values, r as int, ParentType::Binary, s1) {
                        Err(e) => Err(e),
                        Ok((s2, rhs)) => finish_binary(op, v, lhs, rhs, s2),
                    },
                }
            },
            IrValue::Other => Err(CodegenError::UnsupportedInstruction),
        }
    }
}

/// The state in which the generation of the value with handle `v` stops
/// where it fails: what the operands generated before the failure have left.
/// A value that fails by itself, such as a literal for which no register is
/// left, leaves the state as it was.
pub open spec fn stopped_state(values: Seq<IrValue>, v: int, parent: ParentType, st: GenState)
    -> GenState
    decreases v,
{
    if v < 0 || v >= values.len() {
        st
    } else {
        match values[v] {
            IrValue::Return(Some(x)) => if x >= v {
                st
            } else {
                match gen_value(values, x as int, ParentType::Return, st) {
                    Err(_) => stopped_state(values, x as int, ParentType::Return, st),
                    Ok((s1, _)) => s1,
                }
            },
            IrValue::Binary(op, l, r) => if l >= v || r >= v || !supported(op)
                || st.bound.contains_key(v) {
                st
            } else {
                match gen_value(values, l as int, ParentType::Binary, st) {
                    Err(_) => stopped_state(values, l as int, ParentType::Binary, st),
                    Ok((s1, _)) => match gen_value(values, r as int, ParentType::Binary, s1) {
                        Err(_) => stopped_state(values, r as int, ParentType::Binary, s1),
                        Ok((s2, _)) => s2,
                    },
                }
            },
            _ => st,
        }
    }
}

/// Generation of the instructions of a layout, in order, each for no
/// consumer. The first failure is the failure of the whole.
pub open spec fn gen_insts(values: Seq<IrValue>, insts: Seq<usize>, st: GenState) -> Result<
    GenState,
    CodegenError,
>
    decreases insts.len(),
{
    if insts.len() == 0 {
        Ok(st)
    } else {
        match gen_insts(values, insts.drop_last(), st) {
            Err(e) => Err(e),
            Ok(s) => match gen_value(values, insts.last() as int, ParentType::Top, s) {
                Err(e) => Err(e),
                Ok((s2, _)) => Ok(s2),
            },
        }
    }
}

/// The instructions of a function: those of its layout, generated from the
/// initial state.
pub open spec fn function_code(f: IrFunction) -> Result<Seq<AsmInst>, CodegenError> {
    match gen_insts(f.values@, f.insts@, GenState::initial()) {
        Ok(st) => Ok(st.code),
        Err(e) => Err(e),
    }
}

/// The assembly of a function: its name without the sigil as a label, then
/// the lines of its instructions.
pub open spec fn function_text(f: IrFunction) -> Result<Seq<char>, CodegenError> {
    if f.name@.len() == 0 {
        Err(CodegenError::MalformedIr)
    } else {
        match function_code(f) {
            Ok(code) => Ok(f.name@.skip(1) + ":\n"@ + asm_text(code)),
            Err(e) => Err(e),
        }
    }
}

/// The assembly of a sequence of functions, in order. The first failure is
/// the failure of the whole.
pub open spec fn functions_text(funcs: Seq<IrFunction>) -> Result<Seq<char>, CodegenError>
    decreases funcs.len(),
{
    if funcs.len() == 0 {
        Ok(Seq::empty())
    } else {
        match functions_text(funcs.drop_last()) {
            Err(e) => Err(e),
            Ok(t) => match function_text(funcs.last()) {
                Err(e) => Err(e),
                Ok(u) => Ok(t + u),
            },
        }
    }
}

/// The assembly of a program: the section header, then its functions.
pub open spec fn program_text(p: IrProgram) -> Result<Seq<char>, CodegenError> {
    match functions_text(p.funcs@) {
        Err(e) => Err(e),
        Ok(t) => Ok("  .text\n  .global main\n"@ + t),
    }
}

} // verus!

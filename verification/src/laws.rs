//! What holds of lowering and of generation on every input.

use crate::ast::{temp_count, BinaryOp, CompUnit, Exp, UnaryOp};
use crate::codegen::{
    finish_binary, function_text, gen_insts, gen_value, stopped_state, supported, CodegenError,
    GenState, InstRet, ParentType, ValueTag,
};
use crate::emit::{func_text, operand_text};
use crate::ir::{lowered_insts, lowered_operand, Operand};
use crate::program::{operands_before, values_ordered, IrFunction, IrValue};
use crate::target::{AsmInst, Reg};
use crate::text::decimal_int;
use vstd::prelude::*;

verus! {

/// The text of a unit is determined by the unit: two emissions of one unit
/// are the same text.
pub proof fn lemma_emission_deterministic(unit: CompUnit, first: Seq<char>, second: Seq<char>)
    requires
        first == func_text(unit.func_def),
        second == func_text(unit.func_def),
    ensures
        first == second,
{
}

/// A literal is never given a temporary: it emits no instruction, and the
/// operator that consumes it holds the literal itself, which is written as
/// its decimal text.
pub proof fn lemma_literal_inlined(n: i32, op: BinaryOp, other: Exp, start: nat)
    ensures
        temp_count(Exp::Number(n)) == 0,
        lowered_insts(Exp::Number(n), start) == Seq::<crate::ir::IrInst>::empty(),
        lowered_operand(Exp::Number(n), start) == Operand::Literal(n),
        operand_text(Operand::Literal(n)) == decimal_int(n as int),
        lowered_insts(
            Exp::BinaryExp(Box::new(Exp::Number(n)), op, Box::new(other)),
            start,
        ).last().lhs == Operand::Literal(n),
        lowered_insts(
            Exp::BinaryExp(Box::new(other), op, Box::new(Exp::Number(n))),
            start,
        ).last().rhs == Operand::Literal(n),
        lowered_insts(Exp::UnaryExp(UnaryOp::Neg, Box::new(Exp::Number(n))), start).last().rhs
            == Operand::Literal(n),
        lowered_insts(Exp::UnaryExp(UnaryOp::Not, Box::new(Exp::Number(n))), start).last().lhs
            == Operand::Literal(n),
{
}

/// A literal zero that another instruction consumes is the always-zero
/// register: no register is claimed and nothing is emitted. A literal zero
/// that is returned is loaded into `a0` like any other literal.
pub proof fn lemma_zero_elided(values: Seq<IrValue>, v: int, st: GenState)
    requires
        0 <= v < values.len(),
        values[v] == IrValue::Integer(0),
    ensures
        gen_value(values, v, ParentType::Binary, st) == Ok::<(GenState, InstRet), CodegenError>(
            (st, InstRet { reg: Some(Reg::X0), valuekind: ValueTag::Integer }),
        ),
        gen_value(values, v, ParentType::Return, st) == Ok::<(GenState, InstRet), CodegenError>(
            (
                st.emit(AsmInst::Li(Reg::A0, 0)),
                InstRet { reg: Some(Reg::A0), valuekind: ValueTag::Integer },
            ),
        ),
{
}

/// Where every pool register is claimed, a literal other than zero that
/// another instruction consumes is refused, and the refusal leaves the state
/// as it was: no register is claimed and nothing is emitted.
pub proof fn lemma_exhaustion_leaves_state(values: Seq<IrValue>, v: int, n: i32, st: GenState)
    requires
        0 <= v < values.len(),
        values[v] == IrValue::Integer(n),
        n != 0,
        st.cursor >= crate::target::POOL_SIZE,
    ensures
        gen_value(values, v, ParentType::Binary, st) == Err::<(GenState, InstRet), CodegenError>(
            CodegenError::RegisterPoolExhausted,
        ),
        stopped_state(values, v, ParentType::Binary, st) == st,
{
}

/// A return whose operand is itself a return is refused.
pub proof fn lemma_return_of_return_refused(values: Seq<IrValue>, v: int, x: usize, st: GenState)
    requires
        0 <= x < v < values.len(),
        values[v] == IrValue::Return(Some(x)),
        values[x as int] is Return,
        gen_value(values, x as int, ParentType::Return, st) is Ok,
    ensures
        gen_value(values, v, ParentType::Top, st) == Err::<(GenState, InstRet), CodegenError>(
            CodegenError::UnsupportedInstruction,
        ),
{
}

/// A binary value for which a register is handed back has an operator with
/// an emission rule and its operands before it, also where it was bound
/// before.
pub proof fn lemma_binary_has_rule(values: Seq<IrValue>, v: int, parent: ParentType, st: GenState)
    requires
        0 <= v < values.len(),
        values[v] is Binary,
        gen_value(values, v, parent, st) is Ok,
    ensures
        values[v] matches IrValue::Binary(op, l, r) && supported(op) && l < v && r < v,
{
}

/// The destination of a binary instruction is never the always-zero
/// register: an operand that arrived in it is not reused, whichever side it
/// stands on.
pub proof fn lemma_destination_not_zero(op: crate::program::IrOp, v: int, lhs: InstRet, rhs: InstRet, st: GenState)
    requires
        st.cursor <= crate::target::POOL_SIZE,
    ensures
        finish_binary(op, v, lhs, rhs, st) matches Ok((s, r)) ==> {
            &&& r.reg is Some
            &&& r.reg != Some(Reg::X0)
            &&& s.bound.contains_key(v)
            &&& s.bound[v] == r.reg->0
            &&& lhs.reg == Some(Reg::X0) && rhs.reg == Some(Reg::X0) ==> s.cursor == st.cursor + 1
        },
{
}

/// A generation step keeps the state valid, and what it hands back for a
/// binary value is a register other than the always-zero register.
pub proof fn lemma_step_keeps_valid(values: Seq<IrValue>, v: int, parent: ParentType, st: GenState)
    requires
        st.valid(),
    ensures
        gen_value(values, v, parent, st) matches Ok((s, r)) ==> {
            &&& s.valid()
            &&& r.valuekind == ValueTag::Binary ==> r.reg is Some && r.reg != Some(Reg::X0)
        },
    decreases v,
{
    if 0 <= v < values.len() {
        match values[v] {
            IrValue::Integer(_) => {},
            IrValue::Return(None) => {},
            IrValue::Return(Some(x)) => {
                if x < v {
                    lemma_step_keeps_valid(values, x as int, ParentType::Return, st);
                }
            },
            IrValue::Binary(op, l, r) => {
                if !st.bound.contains_key(v) && l < v && r < v {
                    lemma_step_keeps_valid(values, l as int, ParentType::Binary, st);
                    match gen_value(values, l as int, ParentType::Binary, st) {
                        Ok((s1, lhs)) => {
                            lemma_step_keeps_valid(values, r as int, ParentType::Binary, s1);
                            match gen_value(values, r as int, ParentType::Binary, s1) {
                                Ok((s2, rhs)) => {
                                    lemma_destination_not_zero(op, v, lhs, rhs, s2);
                                },
                                Err(_) => {},
                            }
                        },
                        Err(_) => {},
                    }
                }
            },
            IrValue::Other => {},
        }
    }
}

/// The state `after` continues the state `before`: every binding is kept as
/// it was, no register is given back, and the instructions emitted before
/// are the first of those emitted after.
pub open spec fn continues(before: GenState, after: GenState) -> bool {
    &&& before.cursor <= after.cursor
    &&& forall|k: int| #[trigger]
        before.bound.contains_key(k) ==> after.bound.contains_key(k) && after.bound[k]
            == before.bound[k]
    &&& before.code.len() <= after.code.len()
    &&& after.code.take(before.code.len() as int) == before.code
}

/// A generation step continues the state it started from.
pub proof fn lemma_step_continues(values: Seq<IrValue>, v: int, parent: ParentType, st: GenState)
    ensures
        gen_value(values, v, parent, st) matches Ok((s, _)) ==> continues(st, s),
    decreases v,
{
    assert(st.code.take(st.code.len() as int) =~= st.code);
    if 0 <= v < values.len() {
        match values[v] {
            IrValue::Integer(n) => {
                assert(st.code.push(AsmInst::Li(crate::target::pool_reg(st.cursor), n)).take(
                    st.code.len() as int,
                ) =~= st.code);
                assert(st.code.push(AsmInst::Li(Reg::A0, n)).take(st.code.len() as int)
                    =~= st.code);
            },
            IrValue::Return(None) => {
                assert(st.code.push(AsmInst::Ret).take(st.code.len() as int) =~= st.code);
            },
            IrValue::Return(Some(x)) => {
                if x < v {
                    lemma_step_continues(values, x as int, ParentType::Return, st);
                    match gen_value(values, x as int, ParentType::Return, st) {
                        Ok((s1, operand)) => {
                            if operand.reg is Some {
                                let s = crate::codegen::finish_return(s1, operand.reg->0);
                                assert(s.code.take(st.code.len() as int) =~= s1.code.take(
                                    st.code.len() as int,
                                ));
                            }
                        },
                        Err(_) => {},
                    }
                }
            },
            IrValue::Binary(op, l, r) => {
                if !st.bound.contains_key(v) && l < v && r < v {
                    lemma_step_continues(values, l as int, ParentType::Binary, st);
                    match gen_value(values, l as int, ParentType::Binary, st) {
                        Ok((s1, lhs)) => {
                            lemma_step_continues(values, r as int, ParentType::Binary, s1);
                            match gen_value(values, r as int, ParentType::Binary, s1) {
                                Ok((s2, rhs)) => {
                                    assert(s2.code.take(st.code.len() as int) =~= s1.code.take(
                                        st.code.len() as int,
                                    ));
                                    match finish_binary(op, v, lhs, rhs, s2) {
                                        Ok((s, _)) => {
                                            assert(s.code.take(st.code.len() as int)
                                                =~= s2.code.take(st.code.len() as int));
                                        },
                                        Err(_) => {},
                                    }
                                },
                                Err(_) => {},
                            }
                        },
                        Err(_) => {},
                    }
                }
            },
            IrValue::Other => {},
        }
    }
}

/// A binary value is computed once. After it has been generated it is bound
/// to the register that was handed back, and generating it again, for any
/// consumer, hands back the same register and leaves the state as it is:
/// nothing is emitted and no register is claimed.
pub proof fn lemma_single_evaluation(
    values: Seq<IrValue>,
    v: int,
    first: ParentType,
    again: ParentType,
    st: GenState,
)
    requires
        0 <= v < values.len(),
        values[v] is Binary,
        gen_value(values, v, first, st) is Ok,
    ensures
        ({
            let (s, r) = gen_value(values, v, first, st)->Ok_0;
            &&& s.bound.contains_key(v)
            &&& r == InstRet { reg: Some(s.bound[v]), valuekind: ValueTag::Binary }
            &&& gen_value(values, v, again, s) == Ok::<(GenState, InstRet), CodegenError>((s, r))
        }),
{
}

/// A binding made by one step of a pass is still there, with the same
/// register, after any later step.
pub proof fn lemma_binding_kept(
    values: Seq<IrValue>,
    v: int,
    u: int,
    first: ParentType,
    later: ParentType,
    st: GenState,
)
    requires
        0 <= v < values.len(),
        values[v] is Binary,
        gen_value(values, v, first, st) is Ok,
        gen_value(values, u, later, gen_value(values, v, first, st)->Ok_0.0) is Ok,
    ensures
        ({
            let (s, r) = gen_value(values, v, first, st)->Ok_0;
            let (t, _) = gen_value(values, u, later, s)->Ok_0;
            t.bound.contains_key(v) && Some(t.bound[v]) == r.reg
        }),
{
    let (s, r) = gen_value(values, v, first, st)->Ok_0;
    lemma_single_evaluation(values, v, first, first, st);
    lemma_step_continues(values, u, later, s);
}

/// Where every operand stands before its user, generating a value of the
/// table never fails for the shape of the table.
pub proof fn lemma_ordered_step_well_formed(
    values: Seq<IrValue>,
    v: int,
    parent: ParentType,
    st: GenState,
)
    requires
        values_ordered(values),
        0 <= v < values.len(),
    ensures
        gen_value(values, v, parent, st) != Err::<(GenState, InstRet), CodegenError>(
            CodegenError::MalformedIr,
        ),
    decreases v,
{
    assert(operands_before(values, v));
    match values[v] {
        IrValue::Return(Some(x)) => {
            lemma_ordered_step_well_formed(values, x as int, ParentType::Return, st);
        },
        IrValue::Binary(_, l, r) => {
            lemma_ordered_step_well_formed(values, l as int, ParentType::Binary, st);
            match gen_value(values, l as int, ParentType::Binary, st) {
                Ok((s1, _)) => {
                    lemma_ordered_step_well_formed(values, r as int, ParentType::Binary, s1);
                },
                Err(_) => {},
            }
        },
        _ => {},
    }
}

/// The generation of an ordered function that has a name never fails for
/// the shape of the function.
pub proof fn lemma_ordered_well_formed(f: IrFunction)
    requires
        f.ordered(),
        f.name@.len() > 0,
    ensures
        function_text(f) != Err::<Seq<char>, CodegenError>(CodegenError::MalformedIr),
{
    lemma_ordered_layout_well_formed(f.values@, f.insts@, GenState::initial());
}

/// The generation of a layout over an ordered table never fails for the
/// shape of the table.
pub proof fn lemma_ordered_layout_well_formed(
    values: Seq<IrValue>,
    insts: Seq<usize>,
    st: GenState,
)
    requires
        values_ordered(values),
        forall|i: int| 0 <= i < insts.len() ==> #[trigger] insts[i] < values.len(),
    ensures
        gen_insts(values, insts, st) != Err::<GenState, CodegenError>(CodegenError::MalformedIr),
    decreases insts.len(),
{
    if insts.len() > 0 {
        lemma_ordered_layout_well_formed(values, insts.drop_last(), st);
        match gen_insts(values, insts.drop_last(), st) {
            Ok(s) => {
                lemma_ordered_step_well_formed(values, insts.last() as int, ParentType::Top, s);
            },
            Err(_) => {},
        }
    }
}

} // verus!

//! The generation pass: the context that one function's pass owns, and the
//! walk over its instructions.

use crate::codegen::{
    binary_code, finish_binary, function_code, function_text, functions_text, gen_insts,
    gen_integer, gen_value, program_text, stopped_state, supported, CodegenError, GenState,
    InstRet, ParentType, ValueTag,
};
use crate::laws::{continues, lemma_step_continues};
use crate::program::{IrFunction, IrOp, IrProgram, IrValue};
use crate::target::{asm_text, pool_reg, push_asm, AsmInst, AsmOp, Reg, POOL_SIZE};
use std::collections::HashMap;
use vstd::prelude::*;

verus! {

/// The bindings of a map keyed by handles, as a map keyed by integers.
pub open spec fn bound_map(table: Map<usize, Reg>) -> Map<int, Reg> {
    Map::new(
        |k: int| 0 <= k <= usize::MAX && table.contains_key(k as usize),
        |k: int| table[k as usize],
    )
}

/// The context of one function's generation pass. It is made afresh for each
/// function and handed down the walk over its instructions.
pub struct Codegen {
    /// The number of pool registers claimed so far.
    pub cursor: usize,
    /// By handle, the register of each binary value computed so far.
    pub bound: HashMap<usize, Reg>,
    /// The instructions emitted so far.
    pub code: Vec<AsmInst>,
}

impl View for Codegen {
    type V = GenState;

    open spec fn view(&self) -> GenState {
        GenState { cursor: self.cursor as nat, bound: bound_map(self.bound@), code: self.code@ }
    }
}

impl Codegen {
    /// The state of the context is valid.
    pub open spec fn wf(&self) -> bool {
        self@.valid()
    }

    /// A fresh context: nothing claimed, bound or emitted.
    pub fn new() -> (g: Codegen)
        ensures
            g.wf(),
            g@ == GenState::initial(),
    {
        let g = Codegen { cursor: 0, bound: HashMap::new(), code: Vec::new() };
        assert(g@.bound =~= Map::<int, Reg>::empty());
        g
    }

    fn binding(&self, v: usize) -> (r: Option<Reg>)
        ensures
            match r {
                Some(reg) => self@.bound.contains_key(v as int) && self@.bound[v as int] == reg,
                None => !self@.bound.contains_key(v as int),
            },
    {
        broadcast use vstd::std_specs::hash::group_hash_axioms;

        match self.bound.get(&v) {
            Some(reg) => Some(*reg),
            None => None,
        }
    }

    fn bind(&mut self, v: usize, rd: Reg)
        ensures
            final(self)@.bound == old(self)@.bound.insert(v as int, rd),
            final(self).cursor == old(self).cursor,
            final(self).code == old(self).code,
    {
        broadcast use vstd::std_specs::hash::group_hash_axioms;

        self.bound.insert(v, rd);
        assert(bound_map(self.bound@) =~= bound_map(old(self).bound@).insert(v as int, rd));
    }

    fn emit(&mut self, i: AsmInst)
        ensures
            final(self)@ == old(self)@.emit(i),
            final(self).bound == old(self).bound,
            final(self).cursor == old(self).cursor,
    {
        self.code.push(i);
    }

    fn claim(&mut self) -> (r: Result<Reg, CodegenError>)
        requires
            old(self).cursor <= POOL_SIZE,
        ensures
            final(self).bound == old(self).bound,
            final(self).code == old(self).code,
            old(self).cursor >= POOL_SIZE ==> r == Err::<Reg, CodegenError>(
                CodegenError::RegisterPoolExhausted,
            ) && final(self).cursor == old(self).cursor,
            old(self).cursor < POOL_SIZE ==> r == Ok::<Reg, CodegenError>(
                pool_reg(old(self).cursor as nat),
            ) && final(self).cursor == old(self).cursor + 1 && pool_reg(old(self).cursor as nat)
                != Reg::X0,
    {
        if self.cursor >= POOL_SIZE {
            Err(CodegenError::RegisterPoolExhausted)
        } else {
            let rd = Reg::from_pool(self.cursor);
            self.cursor += 1;
            Ok(rd)
        }
    }

    fn generate_integer(&mut self, n: i32, parent: ParentType) -> (res: Result<
        InstRet,
        CodegenError,
    >)
        requires
            old(self).wf(),
        ensures
            final(self).wf(),
            match gen_integer(n, parent, old(self)@) {
                Ok((st, r)) => res == Ok::<InstRet, CodegenError>(r) && final(self)@ == st,
                Err(e) => res == Err::<InstRet, CodegenError>(e) && final(self)@ == old(self)@,
            },
    {
        match parent {
            ParentType::Binary => {
                if n != 0 {
                    match self.claim() {
                        Ok(rd) => {
                            self.emit(AsmInst::Li(rd, n));
                            Ok(InstRet { reg: Some(rd), valuekind: ValueTag::Integer })
                        },
                        Err(e) => Err(e),
                    }
                } else {
                    Ok(InstRet { reg: Some(Reg::X0), valuekind: ValueTag::Integer })
                }
            },
            ParentType::Return => {
                self.emit(AsmInst::Li(Reg::A0, n));
                Ok(InstRet { reg: Some(Reg::A0), valuekind: ValueTag::Integer })
            },
            ParentType::Top => Ok(InstRet { reg: None, valuekind: ValueTag::Integer }),
        }
    }

    fn emit_binary(&mut self, op: IrOp, rd: Reg, a: Reg, b: Reg)
        requires
            supported(op),
        ensures
            final(self).code@ == old(self).code@ + binary_code(op, rd, a, b)->0,
            final(self).bound == old(self).bound,
            final(self).cursor == old(self).cursor,
    {
        match op {
            IrOp::Eq => {
                self.code.push(AsmInst::Arith(AsmOp::Xor, rd, a, b));
                self.code.push(AsmInst::Seqz(rd, rd));
            },
            IrOp::Add => {
                self.code.push(AsmInst::Arith(AsmOp::Add, rd, a, b));
            },
            IrOp::Sub => {
                self.code.push(AsmInst::Arith(AsmOp::Sub, rd, a, b));
            },
            IrOp::Mul => {
                self.code.push(AsmInst::Arith(AsmOp::Mul, rd, a, b));
            },
            _ => {
                self.code.push(AsmInst::Arith(AsmOp::Sdiv, rd, a, b));
            },
        }
        assert(self.code@ =~= old(self).code@ + binary_code(op, rd, a, b)->0);
    }

    fn generate_binary(
        &mut self,
        op: IrOp,
        v: usize,
        lhs: InstRet,
        rhs: InstRet,
    ) -> (res: Result<InstRet, CodegenError>)
        requires
            old(self).wf(),
            supported(op),
        ensures
            final(self).wf(),
            match finish_binary(op, v as int, lhs, rhs, old(self)@) {
                Ok((st, r)) => res == Ok::<InstRet, CodegenError>(r) && final(self)@ == st,
                Err(e) => res == Err::<InstRet, CodegenError>(e) && final(self)@ == old(self)@,
            },
    {
        let (a, b) = match (lhs.reg, rhs.reg) {
            (Some(a), Some(b)) => (a, b),
            _ => {
                return Err(CodegenError::UnsupportedInstruction);
            },
        };
        let rd = if lhs.valuekind == ValueTag::Integer && a != Reg::X0 {
            a
        } else if rhs.valuekind == ValueTag::Integer && b != Reg::X0 {
            b
        } else {
            match self.claim() {
                Ok(rd) => rd,
                Err(e) => {
                    return Err(e);
                },
            }
        };
        self.bind(v, rd);
        self.emit_binary(op, rd, a, b);
        Ok(InstRet { reg: Some(rd), valuekind: ValueTag::Binary })
    }

    /// Generates the value with handle `v` of `f` for the consumer `parent`:
    /// what `gen_value` describes, on this context. On success the context
    /// only grows: bindings stay, the cursor does not go back, and
    /// instructions are appended. On failure the context is what the operands
    /// generated before the failure have left.
    pub fn generate_inst(&mut self, f: &IrFunction, v: usize, parent: ParentType) -> (res: Result<
        InstRet,
        CodegenError,
    >)
        requires
            old(self).wf(),
        ensures
            final(self).wf(),
            match gen_value(f.values@, v as int, parent, old(self)@) {
                Ok((st, r)) => res == Ok::<InstRet, CodegenError>(r) && final(self)@ == st,
                Err(e) => res == Err::<InstRet, CodegenError>(e) && final(self)@ == stopped_state(
                    f.values@,
                    v as int,
                    parent,
                    old(self)@,
                ),
            },
            res is Ok ==> continues(old(self)@, final(self)@),
        decreases v,
    {
        proof {
            lemma_step_continues(f.values@, v as int, parent, old(self)@);
        }
        if v >= f.values.len() {
            return Err(CodegenError::MalformedIr);
        }
        match f.values[v] {
            IrValue::Integer(n) => self.generate_integer(n, parent),
            IrValue::Return(None) => {
                self.emit(AsmInst::Ret);
                Ok(InstRet { reg: None, valuekind: ValueTag::Return })
            },
            IrValue::Return(Some(x)) => {
                if x >= v {
                    return Err(CodegenError::MalformedIr);
                }
                let operand = match self.generate_inst(f, x, ParentType::Return) {
                    Ok(r) => r,
                    Err(e) => {
                        return Err(e);
                    },
                };
                let r = match operand.reg {
                    Some(r) => r,
                    None => {
                        return Err(CodegenError::UnsupportedInstruction);
                    },
                };
                if r != Reg::A0 {
                    self.emit(AsmInst::Mv(Reg::A0, r));
                }
                self.emit(AsmInst::Ret);
                Ok(InstRet { reg: None, valuekind: ValueTag::Return })
            },
            IrValue::Binary(op, l, r) => {
                if l >= v || r >= v {
                    return Err(CodegenError::MalformedIr);
                }
                if !supported_op(op) {
                    return Err(CodegenError::UnsupportedOperator);
                }
                match self.binding(v) {
                    Some(reg) => {
                        return Ok(InstRet { reg: Some(reg), valuekind: ValueTag::Binary });
                    },
                    None => {},
                }
                let lhs = match self.generate_inst(f, l, ParentType::Binary) {
                    Ok(x) => x,
                    Err(e) => {
                        return Err(e);
                    },
                };
                let rhs = match self.generate_inst(f, r, ParentType::Binary) {
                    Ok(x) => x,
                    Err(e) => {
                        return Err(e);
                    },
                };
                self.generate_binary(op, v, lhs, rhs)
            },
            IrValue::Other => Err(CodegenError::UnsupportedInstruction),
        }
    }
}

/// Whether `op` has an emission rule.
pub fn supported_op(op: IrOp) -> (b: bool)
    ensures
        b == supported(op),
{
    match op {
        IrOp::Eq | IrOp::Add | IrOp::Sub | IrOp::Mul | IrOp::Div => true,
        _ => false,
    }
}

impl IrFunction {
    /// The instructions of this function, from a fresh context.
    pub fn generate_code(&self) -> (res: Result<Vec<AsmInst>, CodegenError>)
        ensures
            match function_code(*self) {
                Ok(code) => res is Ok && res->Ok_0@ == code,
                Err(e) => res == Err::<Vec<AsmInst>, CodegenError>(e),
            },
    {
        let mut g = Codegen::new();
        let mut k: usize = 0;
        assert(self.insts@.take(0) =~= Seq::<usize>::empty());
        while k < self.insts.len()
            invariant
                k <= self.insts.len(),
                g.wf(),
                gen_insts(self.values@, self.insts@.take(k as int), GenState::initial()) == Ok::<
                    GenState,
                    CodegenError,
                >(g@),
            decreases self.insts.len() - k,
        {
            proof {
                let next = self.insts@.take(k + 1);
                assert(next.drop_last() =~= self.insts@.take(k as int));
                assert(next.last() == self.insts@[k as int]);
                lemma_failure_stays(self.values@, next, self.insts@, GenState::initial());
            }
            match g.generate_inst(self, self.insts[k], ParentType::Top) {
                Ok(_) => {},
                Err(e) => {
                    return Err(e);
                },
            }
            k += 1;
        }
        assert(self.insts@.take(k as int) =~= self.insts@);
        Ok(g.code)
    }

    /// Appends the assembly of this function to `result`. On failure
    /// `result` is left as it was.
    pub fn generate(&self, result: &mut String) -> (res: Result<(), CodegenError>)
        ensures
            match function_text(*self) {
                Ok(t) => res is Ok && final(result)@ == old(result)@ + t,
                Err(e) => res == Err::<(), CodegenError>(e) && final(result)@ == old(result)@,
            },
    {
        let name = self.name.as_str();
        let len = name.unicode_len();
        if len == 0 {
            return Err(CodegenError::MalformedIr);
        }
        let code = match self.generate_code() {
            Ok(code) => code,
            Err(e) => {
                return Err(e);
            },
        };
        let label = name.substring_char(1, len);
        assert(label@ =~= self.name@.skip(1));
        result.append(label);
        result.append(":\n");
        push_asm(result, &code);
        assert(final(result)@ =~= old(result)@ + (self.name@.skip(1) + ":\n"@ + asm_text(code@)));
        Ok(())
    }
}

impl IrProgram {
    /// Appends the assembly of this program to `result`. On failure `result`
    /// is left as it was.
    pub fn generate(&self, result: &mut String) -> (res: Result<(), CodegenError>)
        ensures
            match program_text(*self) {
                Ok(t) => res is Ok && final(result)@ == old(result)@ + t,
                Err(e) => res == Err::<(), CodegenError>(e) && final(result)@ == old(result)@,
            },
    {
        let mut body = String::new();
        let mut k: usize = 0;
        assert(self.funcs@.take(0) =~= Seq::<IrFunction>::empty());
        while k < self.funcs.len()
            invariant
                k <= self.funcs.len(),
                functions_text(self.funcs@.take(k as int)) == Ok::<Seq<char>, CodegenError>(
                    body@,
                ),
            decreases self.funcs.len() - k,
        {
            proof {
                let next = self.funcs@.take(k + 1);
                assert(next.drop_last() =~= self.funcs@.take(k as int));
                assert(next.last() == self.funcs@[k as int]);
                lemma_function_failure_stays(next, self.funcs@);
            }
            match self.funcs[k].generate(&mut body) {
                Ok(_) => {},
                Err(e) => {
                    return Err(e);
                },
            }
            k += 1;
        }
        assert(self.funcs@.take(k as int) =~= self.funcs@);
        result.append("  .text\n  .global main\n");
        result.append(body.as_str());
        assert(final(result)@ =~= old(result)@ + ("  .text\n  .global main\n"@ + body@));
        Ok(())
    }
}

/// If the generation of a prefix of a layout fails, that of the whole layout
/// fails in the same way.
pub proof fn lemma_failure_stays(
    values: Seq<IrValue>,
    prefix: Seq<usize>,
    insts: Seq<usize>,
    st: GenState,
)
    requires
        prefix.len() <= insts.len(),
        prefix =~= insts.take(prefix.len() as int),
    ensures
        gen_insts(values, prefix, st) is Err ==> gen_insts(values, insts, st) == gen_insts(
            values,
            prefix,
            st,
        ),
    decreases insts.len(),
{
    if prefix.len() < insts.len() {
        assert(insts.drop_last().take(prefix.len() as int) =~= prefix);
        lemma_failure_stays(values, prefix, insts.drop_last(), st);
    } else {
        assert(prefix =~= insts);
    }
}

/// If the generation of the first functions of a program fails, that of all
/// of them fails in the same way.
pub proof fn lemma_function_failure_stays(prefix: Seq<IrFunction>, funcs: Seq<IrFunction>)
    requires
        prefix.len() <= funcs.len(),
        prefix =~= funcs.take(prefix.len() as int),
    ensures
        functions_text(prefix) is Err ==> functions_text(funcs) == functions_text(prefix),
    decreases funcs.len(),
{
    if prefix.len() < funcs.len() {
        assert(funcs.drop_last().take(prefix.len() as int) =~= prefix);
        lemma_function_failure_stays(prefix, funcs.drop_last());
    } else {
        assert(prefix =~= funcs);
    }
}

} // verus!

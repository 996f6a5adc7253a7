//! Lowering of an expression tree to linear single-assignment instructions.

use crate::ast::{temp_count, BinaryOp, Exp, UnaryOp};
use vstd::prelude::*;

verus! {

/// What an instruction reads: a literal, written in place, or the result of
/// an earlier instruction.
#[derive(Debug, Clone, Copy, PartialEq, Eq)]
pub enum Operand {
    Literal(i32),
    Temp(usize),
}

/// One three-address instruction: `%dest = op lhs, rhs`.
#[derive(Debug, Clone, Copy, PartialEq, Eq)]
pub struct IrInst {
    pub dest: usize,
    pub op: BinaryOp,
    pub lhs: Operand,
    pub rhs: Operand,
}

/// The operand by which the value of `e` is referred to, when the first
/// temporary that `e` may allocate is `start`: the literal itself, or the
/// temporary allocated last.
pub open spec fn lowered_operand(e: Exp, start: nat) -> Operand
    decreases e,
{
    match e {
        Exp::Number(n) => Operand::Literal(n),
        Exp::UnaryExp(UnaryOp::Pos, x) => lowered_operand(*x, start),
        _ => Operand::Temp((start + temp_count(e) - 1) as usize),
    }
}

/// The instructions that compute `e`, operands before the operator that
/// consumes them and the left operand before the right one, when the first
/// temporary that `e` may allocate is `start`.
pub open spec fn lowered_insts(e: Exp, start: nat) -> Seq<IrInst>
    decreases e,
{
    match e {
        Exp::Number(_) => Seq::empty(),
        Exp::UnaryExp(UnaryOp::Pos, x) => lowered_insts(*x, start),
        Exp::UnaryExp(UnaryOp::Neg, x) => lowered_insts(*x, start).push(
            IrInst {
                dest: (start + temp_count(*x)) as usize,
                op: BinaryOp::Sub,
                lhs: Operand::Literal(0),
                rhs: lowered_operand(*x, start),
            },
        ),
        Exp::UnaryExp(UnaryOp::Not, x) => lowered_insts(*x, start).push(
            IrInst {
                dest: (start + temp_count(*x)) as usize,
                op: BinaryOp::Eq,
                lhs: lowered_operand(*x, start),
                rhs: Operand::Literal(0),
            },
        ),
        Exp::BinaryExp(l, op, r) => (lowered_insts(*l, start) + lowered_insts(
            *r,
            start + temp_count(*l),
        )).push(
            IrInst {
                dest: (start + temp_count(*l) + temp_count(*r)) as usize,
                op: op,
                lhs: lowered_operand(*l, start),
                rhs: lowered_operand(*r, start + temp_count(*l)),
            },
        ),
    }
}

/// Lowering `e` emits one instruction for each temporary it allocates.
pub proof fn lemma_lowered_len(e: Exp, start: nat)
    ensures
        lowered_insts(e, start).len() == temp_count(e),
    decreases e,
{
    match e {
        Exp::Number(_) => {},
        Exp::UnaryExp(_, x) => {
            lemma_lowered_len(*x, start);
        },
        Exp::BinaryExp(l, _, r) => {
            lemma_lowered_len(*l, start);
            lemma_lowered_len(*r, start + temp_count(*l));
        },
    }
}

/// An operand that is a temporary was allocated at or after `start` and
/// before `bound`.
pub open spec fn operand_within(o: Operand, start: nat, bound: nat) -> bool {
    match o {
        Operand::Literal(_) => true,
        Operand::Temp(t) => start <= t < bound,
    }
}

/// The operand of `e` is a literal, or the temporary that `e` allocated last.
pub proof fn lemma_operand_within(e: Exp, start: nat)
    requires
        start + temp_count(e) <= usize::MAX,
    ensures
        operand_within(lowered_operand(e, start), start, start + temp_count(e)),
        temp_count(e) == 0 ==> lowered_operand(e, start) is Literal,
    decreases e,
{
    match e {
        Exp::Number(_) => {},
        Exp::UnaryExp(UnaryOp::Pos, x) => {
            lemma_operand_within(*x, start);
        },
        Exp::UnaryExp(_, _) => {},
        Exp::BinaryExp(_, _, _) => {},
    }
}

/// Identities are allocated in emission order: the instruction at position
/// `i` defines the temporary `start + i`, so identities increase strictly and
/// none is used twice; and its operands are literals or temporaries defined
/// by earlier instructions.
pub proof fn lemma_identities_in_order(e: Exp, start: nat, i: int)
    requires
        0 <= i < temp_count(e),
        start + temp_count(e) <= usize::MAX,
    ensures
        lowered_insts(e, start).len() == temp_count(e),
        lowered_insts(e, start)[i].dest == start + i,
        operand_within(lowered_insts(e, start)[i].lhs, start, (start + i) as nat),
        operand_within(lowered_insts(e, start)[i].rhs, start, (start + i) as nat),
    decreases e,
{
    lemma_lowered_len(e, start);
    match e {
        Exp::Number(_) => {},
        Exp::UnaryExp(UnaryOp::Pos, x) => {
            lemma_identities_in_order(*x, start, i);
        },
        Exp::UnaryExp(_, x) => {
            lemma_lowered_len(*x, start);
            if i < temp_count(*x) {
                lemma_identities_in_order(*x, start, i);
            } else {
                lemma_operand_within(*x, start);
            }
        },
        Exp::BinaryExp(l, _, r) => {
            let mid = start + temp_count(*l);
            lemma_lowered_len(*l, start);
            lemma_lowered_len(*r, mid);
            if i < temp_count(*l) {
                lemma_identities_in_order(*l, start, i);
            } else if i < temp_count(*l) + temp_count(*r) {
                lemma_identities_in_order(*r, mid, i - temp_count(*l));
            } else {
                lemma_operand_within(*l, start);
                lemma_operand_within(*r, mid);
            }
        },
    }
}

impl Exp {
    /// Appends the instructions that compute this expression to `log` and
    /// returns the operand that refers to its value. The identity of a new
    /// temporary is the position of its instruction in `log`.
    pub fn lower(&self, log: &mut Vec<IrInst>) -> (operand: Operand)
        ensures
            final(log)@ == old(log)@ + lowered_insts(*self, old(log)@.len()),
            operand == lowered_operand(*self, old(log)@.len()),
            final(log)@.len() == old(log)@.len() + temp_count(*self),
            forall|i: int|
                old(log)@.len() <= i < final(log)@.len() ==> {
                    let inst = #[trigger] final(log)@[i];
                    &&& inst.dest == i
                    &&& operand_within(inst.lhs, old(log)@.len(), i as nat)
                    &&& operand_within(inst.rhs, old(log)@.len(), i as nat)
                },
    {
        let ghost start = old(log)@.len();
        proof {
            lemma_lowered_len(*self, start);
        }
        let operand = self.lower_into(log);
        proof {
            assert(log.len() == start + temp_count(*self));
            assert forall|i: int| start <= i < log@.len() implies {
                let inst = #[trigger] log@[i];
                &&& inst.dest == i
                &&& operand_within(inst.lhs, start, i as nat)
                &&& operand_within(inst.rhs, start, i as nat)
            } by {
                lemma_identities_in_order(*self, start, i - start);
                assert(log@[i] == lowered_insts(*self, start)[i - start]);
            }
        }
        operand
    }

    fn lower_into(&self, log: &mut Vec<IrInst>) -> (operand: Operand)
        ensures
            final(log)@ == old(log)@ + lowered_insts(*self, old(log)@.len()),
            operand == lowered_operand(*self, old(log)@.len()),
        decreases *self,
    {
        let ghost start = old(log)@.len();
        proof {
            lemma_lowered_len(*self, start);
        }
        match self {
            Exp::Number(n) => {
                assert(log@ =~= old(log)@ + lowered_insts(*self, start));
                Operand::Literal(*n)
            },
            Exp::UnaryExp(op, x) => {
                let inner = x.lower_into(log);
                proof {
                    lemma_lowered_len(**x, start);
                }
                match op {
                    UnaryOp::Pos => inner,
                    UnaryOp::Neg => {
                        let dest = log.len();
                        log.push(
                            IrInst {
                                dest,
                                op: BinaryOp::Sub,
                                lhs: Operand::Literal(0),
                                rhs: inner,
                            },
                        );
                        assert(log@ =~= old(log)@ + lowered_insts(*self, start));
                        Operand::Temp(dest)
                    },
                    UnaryOp::Not => {
                        let dest = log.len();
                        log.push(
                            IrInst {
                                dest,
                                op: BinaryOp::Eq,
                                lhs: inner,
                                rhs: Operand::Literal(0),
                            },
                        );
                        assert(log@ =~= old(log)@ + lowered_insts(*self, start));
                        Operand::Temp(dest)
                    },
                }
            },
            Exp::BinaryExp(l, op, r) => {
                let lhs = l.lower_into(log);
                let rhs = r.lower_into(log);
                proof {
                    lemma_lowered_len(**l, start);
                    lemma_lowered_len(**r, start + temp_count(**l));
                }
                let dest = log.len();
                log.push(IrInst { dest, op: *op, lhs, rhs });
                assert(log@ =~= old(log)@ + lowered_insts(*self, start));
                Operand::Temp(dest)
            },
        }
    }
}

} // verus!

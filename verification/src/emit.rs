//! Rendering of lowered instructions, and of the function that wraps them, as
//! Koopa IR text.

use crate::ast::{temp_count, BinaryOp, Block, CompUnit, Exp, FuncDef, FuncType, Stmt};
use crate::ir::{lowered_insts, lowered_operand, IrInst, Operand};
use crate::text::{decimal_int, decimal_nat, push_decimal, push_signed_decimal};
use vstd::prelude::*;

verus! {

/// The mnemonic of each operator in IR text. Division is written `sdiv` and
/// the remainder `mod`; the logical connectives take the mnemonics of the
/// bitwise instructions.
pub open spec fn mnemonic(op: BinaryOp) -> Seq<char> {
    match op {
        BinaryOp::Mul => "mul"@,
        BinaryOp::Div => "sdiv"@,
        BinaryOp::Mod => "mod"@,
        BinaryOp::Add => "add"@,
        BinaryOp::Sub => "sub"@,
        BinaryOp::Eq => "eq"@,
        BinaryOp::Ne => "ne"@,
        BinaryOp::Lt => "lt"@,
        BinaryOp::Gt => "gt"@,
        BinaryOp::Le => "le"@,
        BinaryOp::Ge => "ge"@,
        BinaryOp::And => "and"@,
        BinaryOp::Or => "or"@,
    }
}

/// A literal is written as its decimal text, a temporary as `%` and its
/// identity.
pub open spec fn operand_text(o: Operand) -> Seq<char> {
    match o {
        Operand::Literal(n) => decimal_int(n as int),
        Operand::Temp(t) => "%"@ + decimal_nat(t as nat),
    }
}

/// One instruction line: two spaces, `%dest = op lhs, rhs`, a newline.
pub open spec fn inst_text(i: IrInst) -> Seq<char> {
    "  %"@ + decimal_nat(i.dest as nat) + " = "@ + mnemonic(i.op) + " "@ + operand_text(i.lhs)
        + ", "@ + operand_text(i.rhs) + "\n"@
}

/// The lines of a sequence of instructions, in order.
pub open spec fn insts_text(insts: Seq<IrInst>) -> Seq<char>
    decreases insts.len(),
{
    if insts.len() == 0 {
        Seq::empty()
    } else {
        insts_text(insts.drop_last()) + inst_text(insts.last())
    }
}

/// The text of an expression on its own: the literal where nothing is
/// computed, else the lines of its instructions.
pub open spec fn exp_text(e: Exp) -> Seq<char> {
    if temp_count(e) == 0 {
        operand_text(lowered_operand(e, 0))
    } else {
        insts_text(lowered_insts(e, 0))
    }
}

/// The instructions of the returned expression, numbered from zero, and the
/// line that returns its value.
pub open spec fn stmt_text(s: Stmt) -> Seq<char> {
    insts_text(lowered_insts(s.exp, 0)) + "  ret "@ + operand_text(lowered_operand(s.exp, 0))
        + "\n"@
}

/// The entry label and the statement under it.
pub open spec fn block_text(b: Block) -> Seq<char> {
    "%entry:\n"@ + stmt_text(b.stmt)
}

/// The name of a return type in IR text.
pub open spec fn func_type_text(t: FuncType) -> Seq<char> {
    match t {
        FuncType::Int => "i32"@,
        FuncType::String => "String"@,
    }
}

/// A function: its header, its one block, and the closing brace.
pub open spec fn func_text(f: FuncDef) -> Seq<char> {
    "fun @"@ + f.ident@ + "(): "@ + func_type_text(f.func_type) + " {\n"@ + block_text(f.block)
        + "}"@
}

/// A character of a plain identifier: an ASCII letter, an ASCII digit or an
/// underscore.
pub open spec fn ident_char(c: char) -> bool {
    ||| 'a' <= c <= 'z'
    ||| 'A' <= c <= 'Z'
    ||| '0' <= c <= '9'
    ||| c == '_'
}

/// A plain identifier: not empty, made of ASCII letters, ASCII digits and
/// underscores, and not starting with a digit.
pub open spec fn plain_ident(s: Seq<char>) -> bool {
    &&& s.len() > 0
    &&& !('0' <= s[0] <= '9')
    &&& forall|i: int| 0 <= i < s.len() ==> ident_char(#[trigger] s[i])
}

/// The text is the IR text of some function with a plain identifier.
pub open spec fn emitted_text(t: Seq<char>) -> bool {
    exists|f: FuncDef| t == #[trigger] func_text(f) && plain_ident(f.ident@)
}

/// Whether `s` is a plain identifier.
pub fn is_plain_ident(s: &str) -> (b: bool)
    ensures
        b == plain_ident(s@),
{
    let n = s.unicode_len();
    if n == 0 {
        return false;
    }
    let first = s.get_char(0);
    if '0' <= first && first <= '9' {
        return false;
    }
    let mut k: usize = 0;
    while k < n
        invariant
            k <= n,
            n == s@.len(),
            forall|i: int| 0 <= i < k ==> ident_char(#[trigger] s@[i]),
        decreases n - k,
    {
        let c = s.get_char(k);
        let plain = ('a' <= c && c <= 'z') || ('A' <= c && c <= 'Z') || ('0' <= c && c <= '9')
            || c == '_';
        if !plain {
            return false;
        }
        k += 1;
    }
    true
}

/// The mnemonic of `op` in IR text.
pub fn mnemonic_str(op: BinaryOp) -> (s: &'static str)
    ensures
        s@ == mnemonic(op),
{
    match op {
        BinaryOp::Mul => "mul",
        BinaryOp::Div => "sdiv",
        BinaryOp::Mod => "mod",
        BinaryOp::Add => "add",
        BinaryOp::Sub => "sub",
        BinaryOp::Eq => "eq",
        BinaryOp::Ne => "ne",
        BinaryOp::Lt => "lt",
        BinaryOp::Gt => "gt",
        BinaryOp::Le => "le",
        BinaryOp::Ge => "ge",
        BinaryOp::And => "and",
        BinaryOp::Or => "or",
    }
}

/// Appends the text of an operand to `out`.
pub fn push_operand(out: &mut String, o: Operand)
    ensures
        final(out)@ == old(out)@ + operand_text(o),
{
    match o {
        Operand::Literal(n) => {
            push_signed_decimal(out, n);
        },
        Operand::Temp(t) => {
            out.append("%");
            push_decimal(out, t as u64);
            assert(out@ =~= old(out)@ + operand_text(o));
        },
    }
}

/// Appends one instruction line to `out`.
pub fn push_inst(out: &mut String, i: &IrInst)
    ensures
        final(out)@ == old(out)@ + inst_text(*i),
{
    out.append("  %");
    push_decimal(out, i.dest as u64);
    out.append(" = ");
    out.append(mnemonic_str(i.op));
    out.append(" ");
    push_operand(out, i.lhs);
    out.append(", ");
    push_operand(out, i.rhs);
    out.append("\n");
    assert(out@ =~= old(out)@ + inst_text(*i));
}

/// Appends the lines of `insts` to `out`, in order.
pub fn push_insts(out: &mut String, insts: &Vec<IrInst>)
    ensures
        final(out)@ == old(out)@ + insts_text(insts@),
{
    let mut k: usize = 0;
    assert(insts@.take(0) =~= Seq::<IrInst>::empty());
    assert(out@ =~= old(out)@ + insts_text(insts@.take(0)));
    while k < insts.len()
        invariant
            k <= insts.len(),
            out@ == old(out)@ + insts_text(insts@.take(k as int)),
        decreases insts.len() - k,
    {
        push_inst(out, &insts[k]);
        proof {
            let next = insts@.take(k + 1);
            assert(next.drop_last() =~= insts@.take(k as int));
            assert(next.last() == insts@[k as int]);
            assert(out@ =~= old(out)@ + insts_text(next));
        }
        k += 1;
    }
    assert(insts@.take(k as int) =~= insts@);
}

impl Exp {
    /// The text of this expression on its own, its temporaries numbered from
    /// zero.
    pub fn to_string(&self) -> (s: String)
        ensures
            s@ == exp_text(*self),
    {
        let mut log: Vec<IrInst> = Vec::new();
        let operand = self.lower(&mut log);
        proof {
            crate::ir::lemma_lowered_len(*self, 0);
            assert(log@ =~= lowered_insts(*self, 0));
        }
        let mut out = String::new();
        if log.len() == 0 {
            push_operand(&mut out, operand);
        } else {
            push_insts(&mut out, &log);
        }
        assert(out@ =~= exp_text(*self));
        out
    }
}

impl Stmt {
    /// The instructions of the returned expression and the `ret` line.
    pub fn to_string(&self) -> (s: String)
        ensures
            s@ == stmt_text(*self),
    {
        let mut log: Vec<IrInst> = Vec::new();
        let operand = self.exp.lower(&mut log);
        assert(log@ =~= lowered_insts(self.exp, 0));
        let mut out = String::new();
        push_insts(&mut out, &log);
        out.append("  ret ");
        push_operand(&mut out, operand);
        out.append("\n");
        assert(out@ =~= stmt_text(*self));
        out
    }
}

impl Block {
    /// The entry label and the statement under it.
    pub fn to_string(&self) -> (s: String)
        ensures
            s@ == block_text(*self),
    {
        let mut out = String::from_str("%entry:\n");
        let body = self.stmt.to_string();
        out.append(body.as_str());
        out
    }
}

impl FuncDef {
    /// The whole function as IR text.
    pub fn to_string(&self) -> (s: String)
        ensures
            s@ == func_text(*self),
    {
        let mut out = String::from_str("fun @");
        out.append(self.ident.as_str());
        out.append("(): ");
        match self.func_type {
            FuncType::Int => {
                out.append("i32");
            },
            FuncType::String => {
                out.append("String");
            },
        }
        out.append(" {\n");
        let body = self.block.to_string();
        out.append(body.as_str());
        out.append("}");
        assert(out@ =~= func_text(*self));
        out
    }
}

impl CompUnit {
    /// The IR text of the unit: that of its function.
    pub fn to_string(&self) -> (s: String)
        ensures
            s@ == func_text(self.func_def),
    {
        self.func_def.to_string()
    }
}

} // verus!

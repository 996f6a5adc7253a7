//! Target registers and instructions, and their assembly text.

use crate::text::{decimal_int, push_signed_decimal};
use vstd::prelude::*;

verus! {

/// A register of the target: the always-zero register and the fifteen
/// registers of the allocation pool, in pool order.
#[derive(Debug, Clone, Copy, PartialEq, Eq, Structural)]
pub enum Reg {
    X0,
    T0,
    T1,
    T2,
    T3,
    T4,
    T5,
    T6,
    A0,
    A1,
    A2,
    A3,
    A4,
    A5,
    A6,
    A7,
}

/// The number of registers in the allocation pool.
pub const POOL_SIZE: usize = 15;

/// The pool register at position `i`, for `i` below the pool's size.
pub open spec fn pool_reg(i: nat) -> Reg {
    if i == 0 {
        Reg::T0
    } else if i == 1 {
        Reg::T1
    } else if i == 2 {
        Reg::T2
    } else if i == 3 {
        Reg::T3
    } else if i == 4 {
        Reg::T4
    } else if i == 5 {
        Reg::T5
    } else if i == 6 {
        Reg::T6
    } else if i == 7 {
        Reg::A0
    } else if i == 8 {
        Reg::A1
    } else if i == 9 {
        Reg::A2
    } else if i == 10 {
        Reg::A3
    } else if i == 11 {
        Reg::A4
    } else if i == 12 {
        Reg::A5
    } else if i == 13 {
        Reg::A6
    } else {
        Reg::A7
    }
}

/// The name of a register in assembly text.
pub open spec fn reg_name(r: Reg) -> Seq<char> {
    match r {
        Reg::X0 => "x0"@,
        Reg::T0 => "t0"@,
        Reg::T1 => "t1"@,
        Reg::T2 => "t2"@,
        Reg::T3 => "t3"@,
        Reg::T4 => "t4"@,
        Reg::T5 => "t5"@,
        Reg::T6 => "t6"@,
        Reg::A0 => "a0"@,
        Reg::A1 => "a1"@,
        Reg::A2 => "a2"@,
        Reg::A3 => "a3"@,
        Reg::A4 => "a4"@,
        Reg::A5 => "a5"@,
        Reg::A6 => "a6"@,
        Reg::A7 => "a7"@,
    }
}

impl Reg {
    /// The pool register at position `i`.
    pub fn from_pool(i: usize) -> (r: Reg)
        requires
            i < POOL_SIZE,
        ensures
            r == pool_reg(i as nat),
            r != Reg::X0,
    {
        if i == 0 {
            Reg::T0
        } else if i == 1 {
            Reg::T1
        } else if i == 2 {
            Reg::T2
        } else if i == 3 {
            Reg::T3
        } else if i == 4 {
            Reg::T4
        } else if i == 5 {
            Reg::T5
        } else if i == 6 {
            Reg::T6
        } else if i == 7 {
            Reg::A0
        } else if i == 8 {
            Reg::A1
        } else if i == 9 {
            Reg::A2
        } else if i == 10 {
            Reg::A3
        } else if i == 11 {
            Reg::A4
        } else if i == 12 {
            Reg::A5
        } else if i == 13 {
            Reg::A6
        } else {
            Reg::A7
        }
    }

    /// The name of the register in assembly text.
    pub fn name(self) -> (s: &'static str)
        ensures
            s@ == reg_name(self),
    {
        match self {
            Reg::X0 => "x0",
            Reg::T0 => "t0",
            Reg::T1 => "t1",
            Reg::T2 => "t2",
            Reg::T3 => "t3",
            Reg::T4 => "t4",
            Reg::T5 => "t5",
            Reg::T6 => "t6",
            Reg::A0 => "a0",
            Reg::A1 => "a1",
            Reg::A2 => "a2",
            Reg::A3 => "a3",
            Reg::A4 => "a4",
            Reg::A5 => "a5",
            Reg::A6 => "a6",
            Reg::A7 => "a7",
        }
    }
}

/// An arithmetic operation of the target with two source registers.
#[derive(Debug, Clone, Copy, PartialEq, Eq, Structural)]
pub enum AsmOp {
    Add,
    Sub,
    Mul,
    Sdiv,
    Xor,
}

/// One instruction of the target.
#[derive(Debug, Clone, Copy, PartialEq, Eq, Structural)]
pub enum AsmInst {
    /// Load an immediate into a register.
    Li(Reg, i32),
    /// Copy the second register into the first.
    Mv(Reg, Reg),
    /// Set the first register to one if the second holds zero, else to zero.
    Seqz(Reg, Reg),
    /// Destination, then the two sources.
    Arith(AsmOp, Reg, Reg, Reg),
    /// Return to the caller.
    Ret,
}

/// The mnemonic of an arithmetic operation, padded to the operand column.
pub open spec fn asm_op_text(op: AsmOp) -> Seq<char> {
    match op {
        AsmOp::Add => "  add   "@,
        AsmOp::Sub => "  sub   "@,
        AsmOp::Mul => "  mul   "@,
        AsmOp::Sdiv => "  sdiv  "@,
        AsmOp::Xor => "  xor   "@,
    }
}

/// One line of assembly: the instruction, indented, and a newline.
pub open spec fn asm_inst_text(i: AsmInst) -> Seq<char> {
    match i {
        AsmInst::Li(rd, n) => "  li    "@ + reg_name(rd) + ", "@ + decimal_int(n as int) + "\n"@,
        AsmInst::Mv(rd, rs) => "  mv    "@ + reg_name(rd) + ", "@ + reg_name(rs) + "\n"@,
        AsmInst::Seqz(rd, rs) => "  seqz  "@ + reg_name(rd) + ", "@ + reg_name(rs) + "\n"@,
        AsmInst::Arith(op, rd, a, b) => asm_op_text(op) + reg_name(rd) + ", "@ + reg_name(a)
            + ", "@ + reg_name(b) + "\n"@,
        AsmInst::Ret => "  ret\n"@,
    }
}

/// The lines of a sequence of instructions, in order.
pub open spec fn asm_text(code: Seq<AsmInst>) -> Seq<char>
    decreases code.len(),
{
    if code.len() == 0 {
        Seq::empty()
    } else {
        asm_text(code.drop_last()) + asm_inst_text(code.last())
    }
}

fn asm_op_str(op: AsmOp) -> (s: &'static str)
    ensures
        s@ == asm_op_text(op),
{
    match op {
        AsmOp::Add => "  add   ",
        AsmOp::Sub => "  sub   ",
        AsmOp::Mul => "  mul   ",
        AsmOp::Sdiv => "  sdiv  ",
        AsmOp::Xor => "  xor   ",
    }
}

fn push_two_regs(out: &mut String, head: &str, rd: Reg, rs: Reg)
    ensures
        final(out)@ == old(out)@ + (head@ + reg_name(rd) + ", "@ + reg_name(rs) + "\n"@),
{
    out.append(head);
    out.append(rd.name());
    out.append(", ");
    out.append(rs.name());
    out.append("\n");
    assert(out@ =~= old(out)@ + (head@ + reg_name(rd) + ", "@ + reg_name(rs) + "\n"@));
}

fn push_three_regs(out: &mut String, head: &str, rd: Reg, a: Reg, b: Reg)
    ensures
        final(out)@ == old(out)@ + (head@ + reg_name(rd) + ", "@ + reg_name(a) + ", "@ + reg_name(
            b,
        ) + "\n"@),
{
    out.append(head);
    out.append(rd.name());
    out.append(", ");
    out.append(a.name());
    out.append(", ");
    out.append(b.name());
    out.append("\n");
    assert(out@ =~= old(out)@ + (head@ + reg_name(rd) + ", "@ + reg_name(a) + ", "@ + reg_name(b)
        + "\n"@));
}

fn push_load_immediate(out: &mut String, rd: Reg, n: i32)
    ensures
        final(out)@ == old(out)@ + ("  li    "@ + reg_name(rd) + ", "@ + decimal_int(n as int)
            + "\n"@),
{
    out.append("  li    ");
    out.append(rd.name());
    out.append(", ");
    push_signed_decimal(out, n);
    out.append("\n");
    assert(out@ =~= old(out)@ + ("  li    "@ + reg_name(rd) + ", "@ + decimal_int(n as int)
        + "\n"@));
}

/// Appends one line of assembly to `out`.
pub fn push_asm_inst(out: &mut String, i: &AsmInst)
    ensures
        final(out)@ == old(out)@ + asm_inst_text(*i),
{
    match i {
        AsmInst::Li(rd, n) => {
            push_load_immediate(out, *rd, *n);
        },
        AsmInst::Mv(rd, rs) => {
            push_two_regs(out, "  mv    ", *rd, *rs);
        },
        AsmInst::Seqz(rd, rs) => {
            push_two_regs(out, "  seqz  ", *rd, *rs);
        },
        AsmInst::Arith(op, rd, a, b) => {
            push_three_regs(out, asm_op_str(*op), *rd, *a, *b);
        },
        AsmInst::Ret => {
            out.append("  ret\n");
        },
    }
}

/// Appends the lines of `code` to `out`, in order.
pub fn push_asm(out: &mut String, code: &Vec<AsmInst>)
    ensures
        final(out)@ == old(out)@ + asm_text(code@),
{
    let mut k: usize = 0;
    assert(code@.take(0) =~= Seq::<AsmInst>::empty());
    assert(out@ =~= old(out)@ + asm_text(code@.take(0)));
    while k < code.len()
        invariant
            k <= code.len(),
            out@ == old(out)@ + asm_text(code@.take(k as int)),
        decreases code.len() - k,
    {
        push_asm_inst(out, &code[k]);
        proof {
            let next = code@.take(k + 1);
            assert(next.drop_last() =~= code@.take(k as int));
            assert(next.last() == code@[k as int]);
            assert(out@ =~= old(out)@ + asm_text(next));
        }
        k += 1;
    }
    assert(code@.take(k as int) =~= code@);
}

} // verus!

//! The in-memory form of an IR program that the code generator reads.

use vstd::prelude::*;

verus! {

/// A binary operator of the IR.
#[derive(Debug, Clone, Copy, PartialEq, Eq, Structural)]
pub enum IrOp {
    NotEq,
    Eq,
    Gt,
    Lt,
    Ge,
    Le,
    Add,
    Sub,
    Mul,
    Div,
    Mod,
    And,
    Or,
    Xor,
    Shl,
    Shr,
    Sar,
}

/// What a value of a function is. A value is named by its position in the
/// function's table of values, and the operands of a value stand before it.
#[derive(Debug, Clone, Copy, PartialEq, Eq)]
pub enum IrValue {
    /// An integer constant.
    Integer(i32),
    /// An operator and the handles of its two operands.
    Binary(IrOp, usize, usize),
    /// A return, with the handle of the returned value if there is one.
    Return(Option<usize>),
    /// Any other kind of value.
    Other,
}

/// One function: its name as the IR writes it, sigil included, its values,
/// and the handles of its instructions in layout order.
#[derive(Debug)]
pub struct IrFunction {
    pub name: String,
    pub values: Vec<IrValue>,
    pub insts: Vec<usize>,
}

/// A program: its functions in layout order.
#[derive(Debug)]
pub struct IrProgram {
    pub funcs: Vec<IrFunction>,
}

/// The operands of the value at position `k` stand before it.
pub open spec fn operands_before(values: Seq<IrValue>, k: int) -> bool {
    match values[k] {
        IrValue::Binary(_, l, r) => l < k && r < k,
        IrValue::Return(Some(x)) => x < k,
        _ => true,
    }
}

/// Every operand stands before its user.
pub open spec fn values_ordered(values: Seq<IrValue>) -> bool {
    forall|k: int| 0 <= k < values.len() ==> #[trigger] operands_before(values, k)
}

impl IrFunction {
    /// Every operand stands before its user, and every instruction of the
    /// layout is a value of the function.
    pub open spec fn ordered(&self) -> bool {
        &&& values_ordered(self.values@)
        &&& forall|i: int| 0 <= i < self.insts@.len() ==> #[trigger] self.insts@[i] < self.values@.len()
    }
}

impl IrProgram {
    /// Every function of the program is ordered.
    pub open spec fn ordered(&self) -> bool {
        forall|i: int| 0 <= i < self.funcs@.len() ==> #[trigger] self.funcs@[i].ordered()
    }
}

} // verus!

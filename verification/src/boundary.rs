//! The items of the `koopa` crate that the library uses, with what is taken
//! for granted of each. Nothing in this file is proved.

use crate::emit::emitted_text;
use crate::program::IrOp;
use koopa::ir::BinaryOp as KoopaOp;
use vstd::prelude::*;

verus! {

/// `koopa::ir::Program`: a program, carried as it is.
#[verifier::external_type_specification]
#[verifier::external_body]
pub struct ExProgram(koopa::ir::Program);

/// `koopa::ir::FunctionData`: the data of one function, carried as it is.
#[verifier::external_type_specification]
#[verifier::external_body]
pub struct ExFunctionData(koopa::ir::FunctionData);

/// `koopa::ir::Function`: the handle of a function.
#[verifier::external_type_specification]
#[verifier::external_body]
pub struct ExFunction(koopa::ir::Function);

/// `koopa::ir::Value`: the handle of a value.
#[verifier::external_type_specification]
#[verifier::external_body]
pub struct ExValue(koopa::ir::Value);

/// `koopa::ir::values::Binary`: a binary instruction, carried as it is.
#[verifier::external_type_specification]
#[verifier::external_body]
pub struct ExBinary(koopa::ir::values::Binary);

/// `koopa::front::span::Error`: why text was not parsed.
#[verifier::external_type_specification]
#[verifier::external_body]
pub struct ExFrontError(koopa::front::span::Error);

/// What `koopa` holds for a handle, with the operands still as handles.
pub enum RawValue {
    Integer(i32),
    Binary(koopa::ir::values::Binary),
    Return(Option<koopa::ir::Value>),
    /// A value of another kind.
    Other,
    /// The function has no local value for the handle.
    Missing,
}

/// The handles of the functions of a program, in layout order.
pub uninterp spec fn function_layout(p: koopa::ir::Program) -> Seq<koopa::ir::Function>;

/// The data that a program holds for the handle of a function.
pub uninterp spec fn function_of(p: koopa::ir::Program, f: koopa::ir::Function) -> Option<
    koopa::ir::FunctionData,
>;

/// The name of a function, sigil included.
pub uninterp spec fn name_of(fd: koopa::ir::FunctionData) -> Seq<char>;

/// The basic blocks of a function in layout order, each as the handles of
/// its instructions in layout order.
pub uninterp spec fn blocks_of(fd: koopa::ir::FunctionData) -> Seq<Seq<koopa::ir::Value>>;

/// The number of local values that a function holds.
pub uninterp spec fn count_of(fd: koopa::ir::FunctionData) -> usize;

/// What a function holds for the handle of a value.
pub uninterp spec fn kind_of(fd: koopa::ir::FunctionData, v: koopa::ir::Value) -> RawValue;

/// The handles of the left and the right operand of a binary instruction.
pub uninterp spec fn operands_of(b: koopa::ir::values::Binary) -> (
    koopa::ir::Value,
    koopa::ir::Value,
);

/// The operator of a binary instruction.
pub uninterp spec fn operator_of(b: koopa::ir::values::Binary) -> IrOp;

/// `Driver::from(text).generate_program()` of `koopa::front`: parses IR text
/// and builds the program, or reports what it rejects as an error. The
/// builder behind it panics on some text that its parser accepts, such as a
/// jump to a block that is not there or an array type of length zero. So
/// only the text of a function with a plain identifier is handed to it: one
/// function with one block, binary instructions over literals and earlier
/// temporaries, and one return. The handles in the program come from
/// counters of the process, so nothing is claimed of the outcome.
#[verifier::external_body]
pub(crate) fn parse_program(text: &str) -> (r: Result<koopa::ir::Program, koopa::front::span::Error>)
    requires
        emitted_text(text@),
{
    koopa::front::Driver::from(text).generate_program()
}

/// `Program::func_layout`: a copy of the handles of the functions, in layout
/// order.
#[verifier::external_body]
pub(crate) fn function_handles(p: &koopa::ir::Program) -> (r: Vec<koopa::ir::Function>)
    ensures
        r@ == function_layout(*p),
{
    p.func_layout().to_vec()
}

/// `Program::funcs`, looked up by handle with `HashMap::get`: the data of a
/// function, if the program holds it.
#[verifier::external_body]
pub(crate) fn function_data<'a>(p: &'a koopa::ir::Program, f: koopa::ir::Function) -> (r: Option<
    &'a koopa::ir::FunctionData,
>)
    ensures
        match r {
            Some(fd) => function_of(*p, f) == Some(*fd),
            None => function_of(*p, f) is None,
        },
{
    p.funcs().get(&f)
}

/// `FunctionData::name`: a copy of the name of a function, sigil included.
#[verifier::external_body]
pub(crate) fn function_name(fd: &koopa::ir::FunctionData) -> (r: String)
    ensures
        r@ == name_of(*fd),
{
    fd.name().to_string()
}

/// `KeyNodeList::nodes` on `Layout::bbs` of `FunctionData::layout`, and
/// `KeyNodeList::keys` on `BasicBlockNode::insts` of each node: the basic
/// blocks in layout order, each as the handles of its instructions in layout
/// order.
#[verifier::external_body]
pub(crate) fn function_blocks(fd: &koopa::ir::FunctionData) -> (r: Vec<Vec<koopa::ir::Value>>)
    ensures
        r@.len() == blocks_of(*fd).len(),
        forall|i: int| 0 <= i < r@.len() ==> (#[trigger] r@[i])@ == blocks_of(*fd)[i],
{
    fd.layout().bbs().nodes().map(|node| node.insts().keys().copied().collect()).collect()
}

/// `DataFlowGraph::values` of `FunctionData::dfg`, and its length: the number
/// of local values of a function.
#[verifier::external_body]
pub(crate) fn value_count(fd: &koopa::ir::FunctionData) -> (r: usize)
    ensures
        r == count_of(*fd),
{
    fd.dfg().values().len()
}

/// `DataFlowGraph::values` of `FunctionData::dfg`, looked up by handle with
/// `HashMap::get`, and `ValueData::kind` of what is found: the kind of a
/// local value, with `Integer::value` of an integer, a copy of a binary
/// instruction and `Return::value` of a return.
#[verifier::external_body]
pub(crate) fn value_kind(fd: &koopa::ir::FunctionData, v: koopa::ir::Value) -> (r: RawValue)
    ensures
        r == kind_of(*fd, v),
{
    match fd.dfg().values().get(&v).map(|data| data.kind()) {
        Some(koopa::ir::ValueKind::Integer(i)) => RawValue::Integer(i.value()),
        Some(koopa::ir::ValueKind::Binary(b)) => RawValue::Binary(b.clone()),
        Some(koopa::ir::ValueKind::Return(r)) => RawValue::Return(r.value()),
        Some(_) => RawValue::Other,
        None => RawValue::Missing,
    }
}

/// `Binary::lhs` and `Binary::rhs`: the handles of the two operands, left
/// first.
#[verifier::external_body]
pub(crate) fn binary_operands(b: &koopa::ir::values::Binary) -> (r: (koopa::ir::Value, koopa::ir::Value))
    ensures
        r == operands_of(*b),
{
    (b.lhs(), b.rhs())
}

/// `Binary::op`: the operator, each variant of `koopa::ir::BinaryOp` as the
/// variant of the same name.
#[verifier::external_body]
pub(crate) fn binary_op(b: &koopa::ir::values::Binary) -> (r: IrOp)
    ensures
        r == operator_of(*b),
{
    match b.op() {
        KoopaOp::NotEq => IrOp::NotEq, KoopaOp::Eq => IrOp::Eq,
        KoopaOp::Gt => IrOp::Gt, KoopaOp::Lt => IrOp::Lt,
        KoopaOp::Ge => IrOp::Ge, KoopaOp::Le => IrOp::Le,
        KoopaOp::Add => IrOp::Add, KoopaOp::Sub => IrOp::Sub,
        KoopaOp::Mul => IrOp::Mul, KoopaOp::Div => IrOp::Div,
        KoopaOp::Mod => IrOp::Mod, KoopaOp::And => IrOp::And,
        KoopaOp::Or => IrOp::Or, KoopaOp::Xor => IrOp::Xor,
        KoopaOp::Shl => IrOp::Shl, KoopaOp::Shr => IrOp::Shr,
        KoopaOp::Sar => IrOp::Sar,
    }
}

/// `==` on `koopa::ir::Value`: whether two handles are the same.
#[verifier::external_body]
pub(crate) fn same_value(a: &koopa::ir::Value, b: &koopa::ir::Value) -> (r: bool)
    ensures
        r == (*a == *b),
{
    a == b
}

} // verus!

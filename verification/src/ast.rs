//! The expression tree that the backend consumes.

use vstd::prelude::*;

verus! {

/// A compilation unit: one function definition.
#[derive(Debug)]
pub struct CompUnit {
    pub func_def: FuncDef,
}

/// A function definition: return type, name and body.
#[derive(Debug)]
pub struct FuncDef {
    pub func_type: FuncType,
    pub ident: String,
    pub block: Block,
}

/// The return type of a function.
#[derive(Debug, Clone, Copy, PartialEq, Eq)]
pub enum FuncType {
    Int,
    String,
}

/// A unary operator: identity, negation, logical not.
#[derive(Debug, Clone, Copy, PartialEq, Eq)]
pub enum UnaryOp {
    Pos,
    Neg,
    Not,
}

/// A binary operator.
#[derive(Debug, Clone, Copy, PartialEq, Eq)]
pub enum BinaryOp {
    Mul,
    Div,
    Mod,
    Add,
    Sub,
    Eq,
    Ne,
    Lt,
    Gt,
    Le,
    Ge,
    And,
    Or,
}

/// An expression: a literal, or an operator over owned operands.
#[derive(Debug)]
pub enum Exp {
    Number(i32),
    UnaryExp(UnaryOp, Box<Exp>),
    BinaryExp(Box<Exp>, BinaryOp, Box<Exp>),
}

/// A function body: a single statement.
#[derive(Debug)]
pub struct Block {
    pub stmt: Stmt,
}

/// A `return` statement with its expression.
#[derive(Debug)]
pub struct Stmt {
    pub exp: Exp,
}

/// The number of temporaries that lowering `e` allocates: one for each
/// negation, logical not and binary operation in it.
pub open spec fn temp_count(e: Exp) -> nat
    decreases e,
{
    match e {
        Exp::Number(_) => 0,
        Exp::UnaryExp(UnaryOp::Pos, x) => temp_count(*x),
        Exp::UnaryExp(_, x) => temp_count(*x) + 1,
        Exp::BinaryExp(l, _, r) => temp_count(*l) + temp_count(*r) + 1,
    }
}

} // verus!

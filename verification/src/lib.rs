//! Backend of a small expression compiler.
//!
//! An expression tree is lowered to a linear single-assignment intermediate
//! representation, rendered as Koopa IR text, read back through the `koopa`
//! crate and lowered again to RISC-V assembly with a simple register
//! allocator.
//!
//! - `ast`: the expression tree.
//! - `ir`, `emit`: lowering to instructions, and their IR text.
//! - `boundary`: the items of `koopa` that are used, and what is taken for
//!   granted of them.
//! - `reader`: the in-memory program of `koopa`, read into `program`.
//! - `codegen`, `generate`: what is generated for a program, and the pass
//!   that generates it; `target` holds registers and instructions.
//! - `compile`: the pipeline from tree to assembly.
//! - `laws`: what holds of lowering and generation on every input.
//! - `text`: decimal text of integers.

pub mod ast;
pub mod boundary;
pub mod codegen;
pub mod compile;
pub mod emit;
pub mod generate;
pub mod ir;
pub mod laws;
pub mod program;
pub mod reader;
pub mod target;
pub mod text;

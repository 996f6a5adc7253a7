//! The whole pipeline: expression tree to IR text, IR text through `koopa`
//! to the in-memory program, in-memory program to assembly.

use crate::ast::CompUnit;
use crate::codegen::{program_text, CodegenError};
use crate::emit::{emitted_text, func_text, plain_ident};
use crate::program::IrProgram;
use crate::reader::{parsed_read, read_ir_text, ReadError};
use vstd::prelude::*;

verus! {

/// Why a unit was not compiled.
#[derive(Debug, Clone, Copy, PartialEq, Eq, Structural)]
pub enum CompileError {
    /// The IR text could not be read back.
    Read(ReadError),
    /// The program that was read could not be lowered.
    Codegen(CodegenError),
}

/// What the pipeline hands back once the text has been read: the failure to
/// read, or the outcome of generating assembly for the program that was read.
pub open spec fn assembled(read: Result<IrProgram, ReadError>, res: Result<String, CompileError>)
    -> bool {
    match read {
        Err(e) => res == Err::<String, CompileError>(CompileError::Read(e)),
        Ok(m) => match program_text(m) {
            Ok(t) => res is Ok && res->Ok_0@ == t,
            Err(e) => res == Err::<String, CompileError>(CompileError::Codegen(e)),
        },
    }
}

impl IrProgram {
    /// The assembly of this program.
    pub fn to_assembly(&self) -> (res: Result<String, CodegenError>)
        ensures
            match program_text(*self) {
                Ok(t) => res is Ok && res->Ok_0@ == t,
                Err(e) => res == Err::<String, CodegenError>(e),
            },
    {
        let mut out = String::new();
        match self.generate(&mut out) {
            Ok(_) => {
                assert(out@ =~= program_text(*self)->Ok_0);
                Ok(out)
            },
            Err(e) => Err(e),
        }
    }
}

/// Generates assembly for what was read, or passes on the failure to read.
pub fn assemble(read: Result<IrProgram, ReadError>) -> (res: Result<String, CompileError>)
    ensures
        assembled(read, res),
{
    match read {
        Err(e) => Err(CompileError::Read(e)),
        Ok(m) => match m.to_assembly() {
            Ok(s) => Ok(s),
            Err(e) => Err(CompileError::Codegen(e)),
        },
    }
}

/// `res` is what the pipeline hands back where the parser handed back
/// `parsed` and `read` was read from that.
pub open spec fn lowered(
    parsed: Result<koopa::ir::Program, koopa::front::span::Error>,
    read: Result<IrProgram, ReadError>,
    res: Result<String, CompileError>,
) -> bool {
    parsed_read(parsed, read) && assembled(read, res)
}

/// Lowers the IR text of a function with a plain identifier to assembly:
/// parses it, reads what was built and generates assembly for what was read.
/// What the parser hands back is not determined here; what is handed back in
/// the end is determined by it.
pub fn lower_ir_text(text: &str) -> (res: Result<String, CompileError>)
    requires
        emitted_text(text@),
    ensures
        exists|parsed: Result<koopa::ir::Program, koopa::front::span::Error>, read: Result<IrProgram, ReadError>|
            lowered(parsed, read, res),
{
    let ghost parsed;
    let read = read_ir_text(text);
    proof {
        parsed = choose|parsed: Result<koopa::ir::Program, koopa::front::span::Error>|
            parsed_read(parsed, read);
    }
    let res = assemble(read);
    assert(lowered(parsed, read, res));
    res
}

/// Compiles a unit whose function has a plain identifier to assembly: emits
/// its IR text and lowers that.
pub fn compile(unit: &CompUnit) -> (res: Result<String, CompileError>)
    requires
        plain_ident(unit.func_def.ident@),
    ensures
        exists|parsed: Result<koopa::ir::Program, koopa::front::span::Error>, read: Result<IrProgram, ReadError>|
            lowered(parsed, read, res),
{
    let text = unit.to_string();
    assert(text@ == func_text(unit.func_def));
    lower_ir_text(text.as_str())
}

} // verus!

use koopa::ir::builder_traits::{BasicBlockBuilder, LocalInstBuilder, ValueBuilder};
use koopa::ir::{BasicBlock, Function, Program, Type, Value, ValueKind};
use sysy_backend::codegen::CodegenError;
use sysy_backend::program::{IrOp, IrValue};
use sysy_backend::reader::{read_function, read_program, ReadError};

fn new_main(program: &mut Program) -> (Function, BasicBlock) {
    let func = program.new_func_def("@main".to_string(), Vec::new(), Type::get_i32());
    let data = program.func_mut(func);
    let entry = data.dfg_mut().new_bb().basic_block(Some("%entry".to_string()));
    data.layout_mut().bbs_mut().push_key_back(entry).unwrap();
    (func, entry)
}

fn lay_out(program: &mut Program, func: Function, entry: BasicBlock, insts: &[Value]) {
    let list = program.func_mut(func).layout_mut().bb_mut(entry).insts_mut();
    for inst in insts {
        list.push_key_back(*inst).unwrap();
    }
}

#[test]
fn operand_outside_the_layout_is_placed_before_its_user() {
    let mut program = Program::new();
    let (func, entry) = new_main(&mut program);
    let dfg = program.func_mut(func).dfg_mut();
    let one = dfg.new_value().integer(1);
    let two = dfg.new_value().integer(2);
    let sum = dfg.new_value().binary(koopa::ir::BinaryOp::Add, one, two);
    let ret = dfg.new_value().ret(Some(sum));
    lay_out(&mut program, func, entry, &[ret]);
    let f = read_function(program.func(func)).unwrap();
    assert_eq!(
        f.values,
        vec![
            IrValue::Integer(1),
            IrValue::Integer(2),
            IrValue::Binary(IrOp::Add, 0, 1),
            IrValue::Return(Some(2)),
        ]
    );
    assert_eq!(f.insts, vec![3]);
    let mut out = String::new();
    f.generate(&mut out).unwrap();
    assert_eq!(out, "main:\n  li    t0, 1\n  li    t1, 2\n  add   t0, t0, t1\n  mv    a0, t0\n  ret\n");
}

#[test]
fn one_handle_has_one_position() {
    let mut program = Program::new();
    let (func, entry) = new_main(&mut program);
    let dfg = program.func_mut(func).dfg_mut();
    let one = dfg.new_value().integer(1);
    let sum = dfg.new_value().binary(koopa::ir::BinaryOp::Add, one, one);
    let square = dfg.new_value().binary(koopa::ir::BinaryOp::Mul, sum, sum);
    let ret = dfg.new_value().ret(Some(square));
    lay_out(&mut program, func, entry, &[sum, square, ret]);
    let f = read_function(program.func(func)).unwrap();
    assert_eq!(
        f.values,
        vec![
            IrValue::Integer(1),
            IrValue::Binary(IrOp::Add, 0, 0),
            IrValue::Binary(IrOp::Mul, 1, 1),
            IrValue::Return(Some(2)),
        ]
    );
    assert_eq!(f.insts, vec![1, 2, 3]);
    let mut out = String::new();
    f.generate(&mut out).unwrap();
    assert_eq!(
        out,
        "main:\n  li    t0, 1\n  li    t1, 1\n  add   t0, t0, t1\n  mul   t2, t0, t0\n  mv    a0, t2\n  ret\n"
    );
}

#[test]
fn blocks_are_read_in_layout_order() {
    let mut program = Program::new();
    let (func, entry) = new_main(&mut program);
    let data = program.func_mut(func);
    let second = data.dfg_mut().new_bb().basic_block(Some("%next".to_string()));
    data.layout_mut().bbs_mut().push_key_back(second).unwrap();
    let seven = data.dfg_mut().new_value().integer(7);
    let first_ret = data.dfg_mut().new_value().ret(None);
    let second_ret = data.dfg_mut().new_value().ret(Some(seven));
    lay_out(&mut program, func, second, &[second_ret]);
    lay_out(&mut program, func, entry, &[first_ret]);
    let f = read_function(program.func(func)).unwrap();
    assert_eq!(
        f.values,
        vec![IrValue::Return(None), IrValue::Integer(7), IrValue::Return(Some(1))]
    );
    assert_eq!(f.insts, vec![0, 2]);
}

#[test]
fn value_under_itself_is_too_deep() {
    let mut program = Program::new();
    let (func, entry) = new_main(&mut program);
    let dfg = program.func_mut(func).dfg_mut();
    let one = dfg.new_value().integer(1);
    let first = dfg.new_value().binary(koopa::ir::BinaryOp::Add, one, one);
    let second = dfg.new_value().binary(koopa::ir::BinaryOp::Add, first, one);
    dfg.update_value(first, |data| {
        if let ValueKind::Binary(binary) = data.kind_mut() {
            *binary.lhs_mut() = second;
        }
    });
    lay_out(&mut program, func, entry, &[first, second]);
    assert_eq!(read_function(program.func(func)).err(), Some(ReadError::TooDeep));
    assert_eq!(read_program(&program).err(), Some(ReadError::TooDeep));
}

#[test]
fn function_without_data_is_missing() {
    let mut program = Program::new();
    let (func, entry) = new_main(&mut program);
    let ret = program.func_mut(func).dfg_mut().new_value().ret(None);
    lay_out(&mut program, func, entry, &[ret]);
    assert_eq!(read_program(&program).unwrap().funcs.len(), 1);
    program.funcs_mut().remove(&func);
    assert_eq!(read_program(&program).err(), Some(ReadError::MissingFunction));
}

#[test]
fn handle_of_another_function_is_no_value() {
    let mut program = Program::new();
    let (func, entry) = new_main(&mut program);
    let other = program.new_func_def("@other".to_string(), Vec::new(), Type::get_i32());
    let foreign = program.func_mut(other).dfg_mut().new_value().integer(9);
    lay_out(&mut program, func, entry, &[foreign]);
    let f = read_function(program.func(func)).unwrap();
    assert_eq!(f.values, vec![IrValue::Other]);
    assert_eq!(f.insts, vec![0]);
    assert_eq!(f.generate_code(), Err(CodegenError::UnsupportedInstruction));
}

#[test]
fn empty_program_is_read_as_empty() {
    let program = Program::new();
    let model = read_program(&program).unwrap();
    assert!(model.funcs.is_empty());
}

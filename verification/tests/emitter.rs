use sysy_backend::ast::{BinaryOp, Block, CompUnit, Exp, FuncDef, FuncType, Stmt, UnaryOp};
use sysy_backend::ir::{IrInst, Operand};

fn num(n: i32) -> Box<Exp> {
    Box::new(Exp::Number(n))
}

fn unit(exp: Exp) -> CompUnit {
    CompUnit {
        func_def: FuncDef {
            func_type: FuncType::Int,
            ident: "main".to_string(),
            block: Block { stmt: Stmt { exp } },
        },
    }
}

#[test]
fn return_literal_is_inlined() {
    let u = unit(Exp::Number(5));
    assert_eq!(u.to_string(), "fun @main(): i32 {\n%entry:\n  ret 5\n}");
}

#[test]
fn return_negation() {
    let u = unit(Exp::UnaryExp(UnaryOp::Neg, num(3)));
    assert_eq!(
        u.to_string(),
        "fun @main(): i32 {\n%entry:\n  %0 = sub 0, 3\n  ret %0\n}"
    );
}

#[test]
fn return_logical_not() {
    let u = unit(Exp::UnaryExp(UnaryOp::Not, num(0)));
    assert_eq!(
        u.to_string(),
        "fun @main(): i32 {\n%entry:\n  %0 = eq 0, 0\n  ret %0\n}"
    );
}

#[test]
fn return_sum_of_product() {
    let e = Exp::BinaryExp(
        num(1),
        BinaryOp::Add,
        Box::new(Exp::BinaryExp(num(2), BinaryOp::Mul, num(3))),
    );
    let mut log = Vec::new();
    let operand = e.lower(&mut log);
    assert_eq!(
        log,
        vec![
            IrInst { dest: 0, op: BinaryOp::Mul, lhs: Operand::Literal(2), rhs: Operand::Literal(3) },
            IrInst { dest: 1, op: BinaryOp::Add, lhs: Operand::Literal(1), rhs: Operand::Temp(0) },
        ]
    );
    assert_eq!(operand, Operand::Temp(1));
    assert_eq!(
        unit(e).to_string(),
        "fun @main(): i32 {\n%entry:\n  %0 = mul 2, 3\n  %1 = add 1, %0\n  ret %1\n}"
    );
}

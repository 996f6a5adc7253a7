use sysy_backend::ast::{BinaryOp, Block, CompUnit, Exp, FuncDef, FuncType, Stmt, UnaryOp};
use sysy_backend::emit::{mnemonic_str, push_inst, push_insts, push_operand};
use sysy_backend::ir::{IrInst, Operand};
use sysy_backend::target::{push_asm, push_asm_inst, AsmInst, AsmOp, Reg};
use sysy_backend::text::{push_decimal, push_signed_decimal};

fn num(n: i32) -> Box<Exp> {
    Box::new(Exp::Number(n))
}

fn decimal(n: u64) -> String {
    let mut out = String::new();
    push_decimal(&mut out, n);
    out
}

fn signed(n: i32) -> String {
    let mut out = String::new();
    push_signed_decimal(&mut out, n);
    out
}

#[test]
fn decimal_text_of_naturals() {
    assert_eq!(decimal(0), "0");
    assert_eq!(decimal(7), "7");
    assert_eq!(decimal(10), "10");
    assert_eq!(decimal(1234567890), "1234567890");
    assert_eq!(decimal(u64::MAX), "18446744073709551615");
    let mut out = "n=".to_string();
    push_decimal(&mut out, 42);
    assert_eq!(out, "n=42");
}

#[test]
fn decimal_text_of_signed_numbers() {
    assert_eq!(signed(0), "0");
    assert_eq!(signed(5), "5");
    assert_eq!(signed(-3), "-3");
    assert_eq!(signed(i32::MAX), "2147483647");
    assert_eq!(signed(i32::MIN), "-2147483648");
}

#[test]
fn every_operator_has_its_mnemonic() {
    let table = [
        (BinaryOp::Mul, "mul"), (BinaryOp::Div, "sdiv"), (BinaryOp::Mod, "mod"),
        (BinaryOp::Add, "add"), (BinaryOp::Sub, "sub"), (BinaryOp::Eq, "eq"),
        (BinaryOp::Ne, "ne"), (BinaryOp::Lt, "lt"), (BinaryOp::Gt, "gt"),
        (BinaryOp::Le, "le"), (BinaryOp::Ge, "ge"), (BinaryOp::And, "and"),
        (BinaryOp::Or, "or"),
    ];
    for (op, name) in table {
        assert_eq!(mnemonic_str(op), name);
        let e = Exp::BinaryExp(num(8), op, num(9));
        assert_eq!(e.to_string(), format!("  %0 = {} 8, 9\n", name));
    }
}

#[test]
fn operands_and_instruction_lines() {
    let mut out = String::new();
    push_operand(&mut out, Operand::Literal(-12));
    push_operand(&mut out, Operand::Temp(34));
    assert_eq!(out, "-12%34");
    let inst = IrInst { dest: 10, op: BinaryOp::Le, lhs: Operand::Temp(9), rhs: Operand::Literal(0) };
    let mut line = String::new();
    push_inst(&mut line, &inst);
    assert_eq!(line, "  %10 = le %9, 0\n");
    let mut lines = "x".to_string();
    push_insts(&mut lines, &vec![inst, inst]);
    assert_eq!(lines, "x  %10 = le %9, 0\n  %10 = le %9, 0\n");
}

#[test]
fn identity_operator_adds_nothing() {
    let plain = Exp::UnaryExp(UnaryOp::Neg, num(5));
    let wrapped = Exp::UnaryExp(
        UnaryOp::Pos,
        Box::new(Exp::UnaryExp(UnaryOp::Neg, Box::new(Exp::UnaryExp(UnaryOp::Pos, num(5))))),
    );
    assert_eq!(wrapped.to_string(), plain.to_string());
    assert_eq!(plain.to_string(), "  %0 = sub 0, 5\n");
    assert_eq!(Exp::UnaryExp(UnaryOp::Pos, num(5)).to_string(), "5");
    assert_eq!(Exp::Number(-7).to_string(), "-7");
    let stmt = Stmt { exp: Exp::UnaryExp(UnaryOp::Pos, num(5)) };
    assert_eq!(stmt.to_string(), "  ret 5\n");
}

#[test]
fn identities_follow_emission_order() {
    let e = Exp::BinaryExp(
        Box::new(Exp::BinaryExp(num(1), BinaryOp::Sub, num(2))),
        BinaryOp::Mul,
        Box::new(Exp::UnaryExp(
            UnaryOp::Not,
            Box::new(Exp::BinaryExp(num(3), BinaryOp::Sub, num(4))),
        )),
    );
    let mut log = Vec::new();
    let operand = e.lower(&mut log);
    assert_eq!(operand, Operand::Temp(3));
    for (k, inst) in log.iter().enumerate() {
        assert_eq!(inst.dest, k);
    }
    assert_eq!(
        Stmt { exp: e }.to_string(),
        "  %0 = sub 1, 2\n  %1 = sub 3, 4\n  %2 = eq %1, 0\n  %3 = mul %0, %2\n  ret %3\n"
    );
}

#[test]
fn lowering_continues_a_log() {
    let mut log = vec![IrInst {
        dest: 0,
        op: BinaryOp::Add,
        lhs: Operand::Literal(1),
        rhs: Operand::Literal(1),
    }];
    let e = Exp::BinaryExp(Box::new(Exp::UnaryExp(UnaryOp::Neg, num(2))), BinaryOp::Add, num(0));
    assert_eq!(e.lower(&mut log), Operand::Temp(2));
    assert_eq!(
        log[1..],
        [
            IrInst { dest: 1, op: BinaryOp::Sub, lhs: Operand::Literal(0), rhs: Operand::Literal(2) },
            IrInst { dest: 2, op: BinaryOp::Add, lhs: Operand::Temp(1), rhs: Operand::Literal(0) },
        ]
    );
}

#[test]
fn block_and_function_wrappers() {
    let block = Block { stmt: Stmt { exp: Exp::Number(0) } };
    assert_eq!(block.to_string(), "%entry:\n  ret 0\n");
    let def = FuncDef { func_type: FuncType::String, ident: "name".to_string(), block };
    assert_eq!(def.to_string(), "fun @name(): String {\n%entry:\n  ret 0\n}");
    let unit = CompUnit { func_def: def };
    assert_eq!(unit.to_string(), "fun @name(): String {\n%entry:\n  ret 0\n}");
}

#[test]
fn register_names_and_pool_order() {
    let names = ["t0", "t1", "t2", "t3", "t4", "t5", "t6", "a0", "a1", "a2", "a3", "a4", "a5", "a6", "a7"];
    for (k, name) in names.iter().enumerate() {
        assert_eq!(Reg::from_pool(k).name(), *name);
    }
    assert_eq!(Reg::X0.name(), "x0");
    assert_eq!(Reg::from_pool(7), Reg::A0);
}

#[test]
fn assembly_lines() {
    let code = vec![
        AsmInst::Li(Reg::T3, -1),
        AsmInst::Mv(Reg::A0, Reg::T3),
        AsmInst::Seqz(Reg::A1, Reg::A1),
        AsmInst::Arith(AsmOp::Add, Reg::T0, Reg::T1, Reg::T2),
        AsmInst::Arith(AsmOp::Sub, Reg::T4, Reg::X0, Reg::T5),
        AsmInst::Arith(AsmOp::Mul, Reg::T6, Reg::A2, Reg::A3),
        AsmInst::Arith(AsmOp::Sdiv, Reg::A4, Reg::A5, Reg::A6),
        AsmInst::Arith(AsmOp::Xor, Reg::A7, Reg::X0, Reg::X0),
        AsmInst::Ret,
    ];
    let mut out = String::new();
    push_asm(&mut out, &code);
    assert_eq!(
        out,
        "  li    t3, -1\n  mv    a0, t3\n  seqz  a1, a1\n  add   t0, t1, t2\n  sub   t4, x0, t5\n  mul   t6, a2, a3\n  sdiv  a4, a5, a6\n  xor   a7, x0, x0\n  ret\n"
    );
    let mut one = ">".to_string();
    push_asm_inst(&mut one, &AsmInst::Ret);
    assert_eq!(one, ">  ret\n");
}

use sysy_backend::codegen::{CodegenError, InstRet, ParentType, ValueTag};
use sysy_backend::generate::Codegen;
use sysy_backend::program::{IrFunction, IrOp, IrProgram, IrValue};
use sysy_backend::target::{AsmInst, AsmOp, Reg};

fn function(values: Vec<IrValue>, insts: Vec<usize>) -> IrFunction {
    IrFunction { name: "@main".to_string(), values, insts }
}

fn assembly(values: Vec<IrValue>, insts: Vec<usize>) -> Result<String, CodegenError> {
    IrProgram { funcs: vec![function(values, insts)] }.to_assembly()
}

const HEADER: &str = "  .text\n  .global main\nmain:\n";

#[test]
fn literal_return_is_loaded_into_a0() {
    let text = assembly(vec![IrValue::Integer(5), IrValue::Return(Some(0))], vec![1]).unwrap();
    assert_eq!(text, format!("{}  li    a0, 5\n  ret\n", HEADER));
}

#[test]
fn zero_return_is_loaded_explicitly() {
    let text = assembly(vec![IrValue::Integer(0), IrValue::Return(Some(0))], vec![1]).unwrap();
    assert_eq!(text, format!("{}  li    a0, 0\n  ret\n", HEADER));
}

#[test]
fn negation_reuses_the_literal_register() {
    let values = vec![
        IrValue::Integer(0),
        IrValue::Integer(3),
        IrValue::Binary(IrOp::Sub, 0, 1),
        IrValue::Return(Some(2)),
    ];
    let text = assembly(values, vec![2, 3]).unwrap();
    assert_eq!(
        text,
        format!("{}  li    t0, 3\n  sub   t0, x0, t0\n  mv    a0, t0\n  ret\n", HEADER)
    );
}

#[test]
fn equality_of_zeros_claims_a_fresh_register() {
    let values = vec![
        IrValue::Integer(0),
        IrValue::Integer(0),
        IrValue::Binary(IrOp::Eq, 0, 1),
        IrValue::Return(Some(2)),
    ];
    let text = assembly(values, vec![2, 3]).unwrap();
    assert_eq!(
        text,
        format!("{}  xor   t0, x0, x0\n  seqz  t0, t0\n  mv    a0, t0\n  ret\n", HEADER)
    );
}

#[test]
fn sum_of_product_code() {
    let values = vec![
        IrValue::Integer(2),
        IrValue::Integer(3),
        IrValue::Binary(IrOp::Mul, 0, 1),
        IrValue::Integer(1),
        IrValue::Binary(IrOp::Add, 3, 2),
        IrValue::Return(Some(4)),
    ];
    let code = function(values, vec![2, 4, 5]).generate_code().unwrap();
    assert_eq!(
        code,
        vec![
            AsmInst::Li(Reg::T0, 2),
            AsmInst::Li(Reg::T1, 3),
            AsmInst::Arith(AsmOp::Mul, Reg::T0, Reg::T0, Reg::T1),
            AsmInst::Li(Reg::T2, 1),
            AsmInst::Arith(AsmOp::Add, Reg::T2, Reg::T2, Reg::T0),
            AsmInst::Mv(Reg::A0, Reg::T2),
            AsmInst::Ret,
        ]
    );
}

#[test]
fn division_is_written_sdiv() {
    let values = vec![
        IrValue::Integer(-8),
        IrValue::Integer(2),
        IrValue::Binary(IrOp::Div, 0, 1),
        IrValue::Return(Some(2)),
    ];
    let text = assembly(values, vec![2, 3]).unwrap();
    assert_eq!(
        text,
        format!(
            "{}  li    t0, -8\n  li    t1, 2\n  sdiv  t0, t0, t1\n  mv    a0, t0\n  ret\n",
            HEADER
        )
    );
}

#[test]
fn second_reference_reuses_the_binding() {
    let f = function(
        vec![IrValue::Integer(4), IrValue::Integer(0), IrValue::Binary(IrOp::Add, 0, 1)],
        vec![2],
    );
    let mut g = Codegen::new();
    let first = g.generate_inst(&f, 2, ParentType::Top).unwrap();
    assert_eq!(first, InstRet { reg: Some(Reg::T0), valuekind: ValueTag::Binary });
    assert_eq!(g.bound.get(&2), Some(&Reg::T0));
    assert_eq!(g.bound.len(), 1);
    let emitted = g.code.clone();
    let cursor = g.cursor;
    assert_eq!(
        emitted,
        vec![AsmInst::Li(Reg::T0, 4), AsmInst::Arith(AsmOp::Add, Reg::T0, Reg::T0, Reg::X0)]
    );
    for parent in [ParentType::Binary, ParentType::Return, ParentType::Top] {
        assert_eq!(g.generate_inst(&f, 2, parent).unwrap(), first);
        assert_eq!(g.code, emitted);
        assert_eq!(g.cursor, cursor);
    }
}

#[test]
fn operand_is_generated_on_first_reference() {
    let values = vec![
        IrValue::Integer(1),
        IrValue::Integer(2),
        IrValue::Binary(IrOp::Add, 0, 1),
        IrValue::Return(Some(2)),
    ];
    let text = assembly(values, vec![3]).unwrap();
    assert_eq!(
        text,
        format!("{}  li    t0, 1\n  li    t1, 2\n  add   t0, t0, t1\n  mv    a0, t0\n  ret\n", HEADER)
    );
}

#[test]
fn zero_on_the_right_is_not_reused() {
    let f = function(
        vec![
            IrValue::Integer(0),
            IrValue::Integer(0),
            IrValue::Binary(IrOp::Eq, 0, 1),
            IrValue::Integer(0),
            IrValue::Binary(IrOp::Sub, 2, 3),
        ],
        vec![2, 4],
    );
    let code = f.generate_code().unwrap();
    assert_eq!(
        code,
        vec![
            AsmInst::Arith(AsmOp::Xor, Reg::T0, Reg::X0, Reg::X0),
            AsmInst::Seqz(Reg::T0, Reg::T0),
            AsmInst::Arith(AsmOp::Sub, Reg::T1, Reg::T0, Reg::X0),
        ]
    );
}

#[test]
fn result_in_a0_needs_no_move() {
    let mut values = Vec::new();
    let mut insts = Vec::new();
    for k in 0..8 {
        values.push(IrValue::Integer(0));
        values.push(IrValue::Integer(0));
        values.push(IrValue::Binary(IrOp::Eq, 3 * k, 3 * k + 1));
        insts.push(3 * k + 2);
    }
    values.push(IrValue::Return(Some(23)));
    insts.push(24);
    let code = function(values, insts).generate_code().unwrap();
    assert_eq!(code.len(), 17);
    assert_eq!(code[14], AsmInst::Arith(AsmOp::Xor, Reg::A0, Reg::X0, Reg::X0));
    assert_eq!(code[15], AsmInst::Seqz(Reg::A0, Reg::A0));
    assert_eq!(code[16], AsmInst::Ret);
}

#[test]
fn sixteenth_register_is_refused() {
    let mut values = Vec::new();
    let mut insts = Vec::new();
    for k in 0..16 {
        values.push(IrValue::Integer(0));
        values.push(IrValue::Integer(0));
        values.push(IrValue::Binary(IrOp::Eq, 3 * k, 3 * k + 1));
        insts.push(3 * k + 2);
    }
    assert_eq!(
        function(values.clone(), insts.clone()).generate_code(),
        Err(CodegenError::RegisterPoolExhausted)
    );
    values.truncate(45);
    insts.truncate(15);
    let code = function(values, insts).generate_code().unwrap();
    assert_eq!(code[28], AsmInst::Arith(AsmOp::Xor, Reg::A7, Reg::X0, Reg::X0));
}

#[test]
fn other_kinds_are_refused() {
    assert_eq!(assembly(vec![IrValue::Other], vec![0]), Err(CodegenError::UnsupportedInstruction));
    let values = vec![IrValue::Return(None), IrValue::Integer(1), IrValue::Binary(IrOp::Add, 0, 1)];
    assert_eq!(assembly(values, vec![2]), Err(CodegenError::UnsupportedInstruction));
}

#[test]
fn operators_without_a_rule_are_refused() {
    for op in [IrOp::NotEq, IrOp::Gt, IrOp::Lt, IrOp::Ge, IrOp::Le, IrOp::Mod, IrOp::And, IrOp::Or,
        IrOp::Xor, IrOp::Shl, IrOp::Shr, IrOp::Sar]
    {
        let values = vec![IrValue::Integer(1), IrValue::Integer(2), IrValue::Binary(op, 0, 1)];
        assert_eq!(assembly(values, vec![2]), Err(CodegenError::UnsupportedOperator));
    }
}

#[test]
fn malformed_programs_are_refused() {
    assert_eq!(assembly(vec![], vec![0]), Err(CodegenError::MalformedIr));
    assert_eq!(assembly(vec![IrValue::Return(Some(0))], vec![0]), Err(CodegenError::MalformedIr));
    let forward = vec![IrValue::Binary(IrOp::Add, 1, 1), IrValue::Integer(1)];
    assert_eq!(assembly(forward, vec![0]), Err(CodegenError::MalformedIr));
    let unnamed = IrFunction { name: String::new(), values: vec![], insts: vec![] };
    assert_eq!(IrProgram { funcs: vec![unnamed] }.to_assembly(), Err(CodegenError::MalformedIr));
}

#[test]
fn failure_leaves_the_output_as_it_was() {
    let mut out = "kept".to_string();
    let bad = function(vec![IrValue::Return(None), IrValue::Other], vec![0, 1]);
    assert_eq!(bad.generate(&mut out), Err(CodegenError::UnsupportedInstruction));
    assert_eq!(out, "kept");
    let good = function(vec![IrValue::Return(None)], vec![0]);
    let program = IrProgram { funcs: vec![good, bad] };
    assert_eq!(program.generate(&mut out), Err(CodegenError::UnsupportedInstruction));
    assert_eq!(out, "kept");
}

#[test]
fn functions_follow_one_header() {
    let one = IrFunction { name: "@f".to_string(), values: vec![IrValue::Return(None)], insts: vec![0] };
    let two = IrFunction { name: "%g".to_string(), values: vec![IrValue::Return(None)], insts: vec![0] };
    let text = IrProgram { funcs: vec![one, two] }.to_assembly().unwrap();
    assert_eq!(text, "  .text\n  .global main\nf:\n  ret\ng:\n  ret\n");
    assert_eq!(IrProgram { funcs: vec![] }.to_assembly().unwrap(), "  .text\n  .global main\n");
}

#[test]
fn exhaustion_on_a_literal_appends_nothing() {
    let f = function(vec![IrValue::Integer(5), IrValue::Integer(0)], vec![]);
    let mut g = Codegen::new();
    g.cursor = 15;
    g.code.push(AsmInst::Ret);
    assert_eq!(g.generate_inst(&f, 0, ParentType::Binary), Err(CodegenError::RegisterPoolExhausted));
    assert_eq!(g.cursor, 15);
    assert_eq!(g.code, vec![AsmInst::Ret]);
    assert!(g.bound.is_empty());
    assert_eq!(
        g.generate_inst(&f, 1, ParentType::Binary),
        Ok(InstRet { reg: Some(Reg::X0), valuekind: ValueTag::Integer })
    );
    assert_eq!(
        g.generate_inst(&f, 0, ParentType::Return),
        Ok(InstRet { reg: Some(Reg::A0), valuekind: ValueTag::Integer })
    );
    assert_eq!(g.code, vec![AsmInst::Ret, AsmInst::Li(Reg::A0, 5)]);
}

#[test]
fn failure_keeps_what_the_operands_left() {
    let f = function(
        vec![IrValue::Integer(1), IrValue::Other, IrValue::Binary(IrOp::Add, 0, 1)],
        vec![2],
    );
    let mut g = Codegen::new();
    assert_eq!(g.generate_inst(&f, 2, ParentType::Top), Err(CodegenError::UnsupportedInstruction));
    assert_eq!(g.code, vec![AsmInst::Li(Reg::T0, 1)]);
    assert_eq!(g.cursor, 1);
    assert!(g.bound.is_empty());
}

#[test]
fn return_of_a_return_is_refused() {
    let values = vec![IrValue::Return(None), IrValue::Return(Some(0))];
    assert_eq!(assembly(values, vec![1]), Err(CodegenError::UnsupportedInstruction));
}

#[test]
fn bound_value_without_a_rule_is_refused() {
    let f = function(
        vec![IrValue::Integer(1), IrValue::Integer(2), IrValue::Binary(IrOp::Mod, 0, 1)],
        vec![2],
    );
    let mut g = Codegen::new();
    g.bound.insert(2, Reg::T0);
    for parent in [ParentType::Binary, ParentType::Return, ParentType::Top] {
        assert_eq!(g.generate_inst(&f, 2, parent), Err(CodegenError::UnsupportedOperator));
    }
    assert!(g.code.is_empty());
}

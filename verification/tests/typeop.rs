use decompiler::op::PcodeOp;
use decompiler::error::Error;
use decompiler::opbehavior::{Evaluation, FloatRequest, OpBehavior};
use decompiler::opcodes::OpCode;
use decompiler::typeop::ops::{
    TypeOpCall, TypeOpCast, TypeOpFloatInt2Float, TypeOpIndirect, TypeOpInsert, TypeOpIntAdd, TypeOpIntAnd, TypeOpIntNegate,
    TypeOpIntOr, TypeOpIntRem, TypeOpIntRight, TypeOpIntSub, TypeOpIntXor, TypeOpIntZext, TypeOpMulti, TypeOpPtradd,
};
use decompiler::typeop::table::select_java_operators;
use decompiler::typeop::{TypeOp, TypeOpMeta, TypeOpRecord};
use decompiler::types::TypeMetatype;

fn value(evaluation: Evaluation) -> u64 {
    match evaluation {
        Evaluation::Value(val) => val,
        Evaluation::Float(request) => panic!("unexpected request {:?}", request),
    }
}

fn java_test_table() -> Vec<Option<TypeOpRecord>> {
    let mut inst: Vec<Option<TypeOpRecord>> = (0..OpCode::Max.index()).map(|_slot| None).collect();
    inst[OpCode::IntZext.index()] = Some(TypeOpIntZext::new().into_record());
    inst[OpCode::IntNegate.index()] = Some(TypeOpIntNegate::new().into_record());
    inst[OpCode::IntXor.index()] = Some(TypeOpIntXor::new().into_record());
    inst[OpCode::IntOr.index()] = Some(TypeOpIntOr::new().into_record());
    inst[OpCode::IntAnd.index()] = Some(TypeOpIntAnd::new().into_record());
    inst[OpCode::IntRight.index()] = Some(TypeOpIntRight::new().into_record());
    inst
}

#[test]
fn constructor_flags_follow_cpp() {
    let add = TypeOpIntAdd::new();
    assert_eq!(add.get_name(), "+");
    assert_eq!(add.get_opcode(), OpCode::IntAdd);
    assert!(add.is_commutative());
    assert!(add.is_arithmetic_op());
    assert!(add.inherits_sign());
    assert_eq!(add.meta, TypeOpMeta::new(TypeMetatype::Int, TypeMetatype::Int));
    assert_eq!(value(add.evaluate_binary(4, 4, 0xffffffff, 2).expect("add evaluation failed")), 1);

    let sub = TypeOpIntSub::new();
    assert!(!sub.is_commutative());

    let rem = TypeOpIntRem::new();
    assert!(rem.inherits_sign_first_param_only());

    let call = TypeOpCall::new();
    assert_eq!(
        call.get_flags(),
        PcodeOp::SPECIAL | PcodeOp::CALL | PcodeOp::HAS_CALLSPEC | PcodeOp::CODEREF | PcodeOp::NOCOLLAPSE
    );
    assert!(call.get_behavior().expect("missing behavior").is_special());

    let insert = TypeOpInsert::new();
    assert!(!insert.get_behavior().expect("missing behavior").is_special());
    assert_eq!(insert.meta, TypeOpMeta::new(TypeMetatype::Unknown, TypeMetatype::Int));

    let ptradd = TypeOpPtradd::new();
    assert_eq!(ptradd.get_flags(), PcodeOp::TERNARY | PcodeOp::NOCOLLAPSE);
    assert_eq!(TypeOpMulti::new().get_name(), "?");
    assert_eq!(TypeOpIndirect::new().get_name(), "[]");
    assert_eq!(TypeOpCast::new().get_name(), "(cast)");
}

#[test]
fn java_operator_selection() {
    let mut inst = java_test_table();
    select_java_operators(&mut inst, true);
    let right = inst[OpCode::IntRight.index()].as_ref().expect("missing IntRight");
    assert_eq!(right.get_name(), ">>>");
    select_java_operators(&mut inst, false);
    let right = inst[OpCode::IntRight.index()].as_ref().expect("missing IntRight");
    assert_eq!(right.get_name(), ">>");
}

#[test]
fn operators_are_selected_in_a_longer_table() {
    let mut inst = java_test_table();
    inst.push(None);
    inst.push(Some(TypeOpIntAdd::new().into_record()));
    select_java_operators(&mut inst, true);
    assert_eq!(inst.len(), OpCode::Max.index() + 2);
    assert_eq!(inst[OpCode::IntRight.index()].as_ref().expect("missing IntRight").get_name(), ">>>");
    assert_eq!(inst[OpCode::Max.index() + 1].as_ref().expect("missing entry").get_name(), "+");
}

#[test]
fn preferred_zext_sizes() {
    assert_eq!(TypeOpFloatInt2Float::preferred_zext_size(1), 4);
    assert_eq!(TypeOpFloatInt2Float::preferred_zext_size(3), 4);
    assert_eq!(TypeOpFloatInt2Float::preferred_zext_size(4), 8);
    assert_eq!(TypeOpFloatInt2Float::preferred_zext_size(7), 8);
    assert_eq!(TypeOpFloatInt2Float::preferred_zext_size(8), 9);
    assert_eq!(TypeOpFloatInt2Float::preferred_zext_size(16), 17);
}

#[test]
fn integer_operations_are_computed() {
    let unary = |opcode: OpCode, sizeout: i32, sizein: i32, in1: u64| {
        value(OpBehavior::new(opcode, true).evaluate_unary(sizeout, sizein, in1).expect("unary"))
    };
    let binary = |opcode: OpCode, size: i32, in1: u64, in2: u64| {
        value(OpBehavior::new(opcode, false).evaluate_binary(size, size, in1, in2).expect("binary"))
    };
    assert_eq!(unary(OpCode::IntSext, 4, 1, 0x80), 0xffff_ff80);
    assert_eq!(unary(OpCode::IntSext, 4, 1, 0x7f), 0x7f);
    assert_eq!(unary(OpCode::Popcount, 1, 4, 0xf0f), 8);
    assert_eq!(unary(OpCode::Lzcount, 1, 2, 0x10), 11);
    assert_eq!(unary(OpCode::Int2comp, 4, 4, 1), 0xffff_ffff);
    assert_eq!(binary(OpCode::IntRight, 4, 0x80, 4), 8);
    assert_eq!(binary(OpCode::IntRight, 4, 0x80, 32), 0);
    assert_eq!(binary(OpCode::IntSright, 1, 0x80, 4), 0xf8);
    assert_eq!(binary(OpCode::IntLeft, 1, 0x81, 1), 2);
    assert_eq!(binary(OpCode::IntDiv, 4, 100, 7), 14);
    assert_eq!(binary(OpCode::IntRem, 4, 100, 7), 2);
    assert_eq!(binary(OpCode::IntSdiv, 1, 0xf9, 2), 0xfd);
    assert_eq!(binary(OpCode::IntSrem, 1, 0xf9, 2), 0xff);
    assert_eq!(binary(OpCode::IntSless, 1, 0x80, 0), 1);
    assert_eq!(binary(OpCode::IntCarry, 1, 0xff, 1), 1);
}

#[test]
fn operations_that_cannot_be_computed_are_reported() {
    let message = |err: Error| match err {
        Error::Lowlevel(text) => text,
        Error::Decoder(text) => text,
    };
    let by_zero = OpBehavior::new(OpCode::IntDiv, false).evaluate_binary(4, 4, 1, 0).expect_err("by zero");
    assert_eq!(message(by_zero), "Divide by 0");
    let by_zero = OpBehavior::new(OpCode::IntRem, false).evaluate_binary(4, 4, 1, 0).expect_err("by zero");
    assert_eq!(message(by_zero), "Remainder by 0");
    let call = OpBehavior::new_special(OpCode::Call, false, true).evaluate_unary(4, 4, 0).expect_err("special");
    assert!(message(call).starts_with("Unary emulation unimplemented"));
    let sum = OpBehavior::new(OpCode::FloatAdd, false).evaluate_binary(4, 4, 1, 2).expect("float");
    match sum {
        Evaluation::Float(FloatRequest { opcode, sizeout, sizein, in1, in2 }) => {
            assert_eq!((opcode, sizeout, sizein, in1, in2), (OpCode::FloatAdd, 4, 4, 1, Some(2)));
        }
        Evaluation::Value(val) => panic!("unexpected value {}", val),
    }
}

#[test]
fn inputs_are_recovered_from_outputs() {
    let sub = OpBehavior::new(OpCode::IntSub, false);
    assert_eq!(sub.recover_input_binary(0, 4, 5, 4, 3).expect("input"), 8);
    assert_eq!(sub.recover_input_binary(1, 4, 5, 4, 8).expect("input"), 3);
    let add = OpBehavior::new(OpCode::IntAdd, false);
    assert_eq!(add.recover_input_binary(0, 4, 1, 4, 2).expect("input"), 0xffff_ffff);
    assert!(OpBehavior::new(OpCode::IntMult, false).recover_input_binary(0, 4, 6, 4, 2).is_err());
}

//! The table of all kinds of operations.
use vstd::prelude::*;
use crate::op::PcodeOp;
use crate::opbehavior::OpBehavior;
use crate::opcodes::OpCode;
use crate::typeop::ops::{
    TypeOpBoolAnd,
    TypeOpBoolNegate,
    TypeOpBoolOr,
    TypeOpBoolXor,
    TypeOpBranch,
    TypeOpBranchind,
    TypeOpCall,
    TypeOpCallind,
    TypeOpCallother,
    TypeOpCast,
    TypeOpCbranch,
    TypeOpCopy,
    TypeOpCpoolref,
    TypeOpEqual,
    TypeOpFloatAbs,
    TypeOpFloatAdd,
    TypeOpFloatCeil,
    TypeOpFloatDiv,
    TypeOpFloatEqual,
    TypeOpFloatFloat2Float,
    TypeOpFloatFloor,
    TypeOpFloatInt2Float,
    TypeOpFloatLess,
    TypeOpFloatLessEqual,
    TypeOpFloatMult,
    TypeOpFloatNan,
    TypeOpFloatNeg,
    TypeOpFloatNotEqual,
    TypeOpFloatRound,
    TypeOpFloatSqrt,
    TypeOpFloatSub,
    TypeOpFloatTrunc,
    TypeOpIndirect,
    TypeOpInsert,
    TypeOpInt2Comp,
    TypeOpIntAdd,
    TypeOpIntAnd,
    TypeOpIntCarry,
    TypeOpIntDiv,
    TypeOpIntLeft,
    TypeOpIntLess,
    TypeOpIntLessEqual,
    TypeOpIntMult,
    TypeOpIntNegate,
    TypeOpIntOr,
    TypeOpIntRem,
    TypeOpIntRight,
    TypeOpIntSborrow,
    TypeOpIntScarry,
    TypeOpIntSdiv,
    TypeOpIntSext,
    TypeOpIntSless,
    TypeOpIntSlessEqual,
    TypeOpIntSrem,
    TypeOpIntSright,
    TypeOpIntSub,
    TypeOpIntXor,
    TypeOpIntZext,
    TypeOpLoad,
    TypeOpLzcount,
    TypeOpMulti,
    TypeOpNew,
    TypeOpNotEqual,
    TypeOpPiece,
    TypeOpPopcount,
    TypeOpPtradd,
    TypeOpPtrsub,
    TypeOpReturn,
    TypeOpSegment,
    TypeOpSpull,
    TypeOpStore,
    TypeOpSubpiece,
    TypeOpZpull,
};
use crate::typeop::{
    ARITHMETIC_OP, FLOATINGPOINT_OP, INHERITS_SIGN, INHERITS_SIGN_ZERO, LOGICAL_OP, OpFacts, SHIFT_OP, TypeOp,
    TypeOpMeta, TypeOpRecord,
};
use crate::types::{TypeFactory, TypeMetatype};

verus! {

pub open spec fn facts_of(
    opcode: OpCode,
    name: Seq<char>,
    opflags: u32,
    addlflags: u32,
    unary: bool,
    special: bool,
    meta: Option<TypeOpMeta>,
) -> OpFacts {
    OpFacts {
        opcode,
        opflags,
        addlflags,
        name,
        behave: Some(OpBehavior { opcode, unary, special }),
        meta,
        near: 0,
        far: 0,
    }
}

pub open spec fn classes(metaout: TypeMetatype, metain: TypeMetatype) -> Option<TypeOpMeta> {
    Some(TypeOpMeta { metaout, metain })
}

/// What each kind of operation starts with. Two numbers stand for no kind of operation.
pub open spec fn starting_facts(opcode: OpCode, tlst: TypeFactory) -> Option<OpFacts> {
    match opcode {
        OpCode::Copy => Some(facts_of(opcode, "copy"@, PcodeOp::UNARY | PcodeOp::NOCOLLAPSE, 0, true, false, None)),
        OpCode::Load => Some(facts_of(opcode, "load"@, PcodeOp::SPECIAL | PcodeOp::NOCOLLAPSE, 0, false, true, None)),
        OpCode::Store => Some(facts_of(opcode, "store"@, PcodeOp::SPECIAL | PcodeOp::NOCOLLAPSE, 0, false, true, None)),
        OpCode::Branch => Some(facts_of(opcode, "goto"@, PcodeOp::SPECIAL | PcodeOp::BRANCH | PcodeOp::CODEREF | PcodeOp::NOCOLLAPSE, 0, false, true, None)),
        OpCode::Cbranch => Some(facts_of(opcode, "goto"@, PcodeOp::SPECIAL | PcodeOp::BRANCH | PcodeOp::CODEREF | PcodeOp::NOCOLLAPSE, 0, false, true, None)),
        OpCode::Branchind => Some(facts_of(opcode, "switch"@, PcodeOp::SPECIAL | PcodeOp::BRANCH | PcodeOp::NOCOLLAPSE, 0, false, true, None)),
        OpCode::Call => Some(facts_of(opcode, "call"@, PcodeOp::SPECIAL | PcodeOp::CALL | PcodeOp::HAS_CALLSPEC | PcodeOp::CODEREF | PcodeOp::NOCOLLAPSE, 0, false, true, None)),
        OpCode::Callind => Some(facts_of(opcode, "callind"@, PcodeOp::SPECIAL | PcodeOp::CALL | PcodeOp::HAS_CALLSPEC | PcodeOp::NOCOLLAPSE, 0, false, true, None)),
        OpCode::Callother => Some(facts_of(opcode, "syscall"@, PcodeOp::SPECIAL | PcodeOp::CALL | PcodeOp::NOCOLLAPSE, 0, false, true, None)),
        OpCode::Return => Some(facts_of(opcode, "return"@, PcodeOp::SPECIAL | PcodeOp::RETURNS | PcodeOp::NOCOLLAPSE | PcodeOp::RETURN_COPY, 0, false, true, None)),
        OpCode::Multiequal => Some(facts_of(opcode, "?"@, PcodeOp::SPECIAL | PcodeOp::MARKER | PcodeOp::NOCOLLAPSE, 0, false, true, None)),
        OpCode::Indirect => Some(facts_of(opcode, "[]"@, PcodeOp::SPECIAL | PcodeOp::MARKER | PcodeOp::NOCOLLAPSE, 0, false, true, None)),
        OpCode::Piece => Some(OpFacts { near: tlst.near_size(), far: tlst.size_of_alt_pointer, ..facts_of(opcode, "CONCAT"@, PcodeOp::BINARY, 0, false, false, classes(TypeMetatype::Unknown, TypeMetatype::Unknown)) }),
        OpCode::Subpiece => Some(OpFacts { near: tlst.near_size(), far: tlst.size_of_alt_pointer, ..facts_of(opcode, "SUB"@, PcodeOp::BINARY, 0, false, false, classes(TypeMetatype::Unknown, TypeMetatype::Unknown)) }),
        OpCode::IntEqual => Some(facts_of(opcode, "=="@, PcodeOp::BINARY | PcodeOp::BOOLOUTPUT | PcodeOp::COMMUTATIVE, INHERITS_SIGN, false, false, classes(TypeMetatype::Bool, TypeMetatype::Int))),
        OpCode::IntNotequal => Some(facts_of(opcode, "!="@, PcodeOp::BINARY | PcodeOp::BOOLOUTPUT | PcodeOp::COMMUTATIVE, INHERITS_SIGN, false, false, classes(TypeMetatype::Bool, TypeMetatype::Int))),
        OpCode::IntSless => Some(facts_of(opcode, "<"@, PcodeOp::BINARY | PcodeOp::BOOLOUTPUT, INHERITS_SIGN, false, false, classes(TypeMetatype::Bool, TypeMetatype::Int))),
        OpCode::IntSlessequal => Some(facts_of(opcode, "<="@, PcodeOp::BINARY | PcodeOp::BOOLOUTPUT, INHERITS_SIGN, false, false, classes(TypeMetatype::Bool, TypeMetatype::Int))),
        OpCode::IntLess => Some(facts_of(opcode, "<"@, PcodeOp::BINARY | PcodeOp::BOOLOUTPUT, INHERITS_SIGN, false, false, classes(TypeMetatype::Bool, TypeMetatype::Uint))),
        OpCode::IntLessequal => Some(facts_of(opcode, "<="@, PcodeOp::BINARY | PcodeOp::BOOLOUTPUT, INHERITS_SIGN, false, false, classes(TypeMetatype::Bool, TypeMetatype::Uint))),
        OpCode::IntZext => Some(facts_of(opcode, "ZEXT"@, PcodeOp::UNARY, 0, true, false, classes(TypeMetatype::Uint, TypeMetatype::Uint))),
        OpCode::IntSext => Some(facts_of(opcode, "SEXT"@, PcodeOp::UNARY, 0, true, false, classes(TypeMetatype::Int, TypeMetatype::Int))),
        OpCode::IntAdd => Some(facts_of(opcode, "+"@, PcodeOp::BINARY | PcodeOp::COMMUTATIVE, ARITHMETIC_OP | INHERITS_SIGN, false, false, classes(TypeMetatype::Int, TypeMetatype::Int))),
        OpCode::IntSub => Some(facts_of(opcode, "-"@, PcodeOp::BINARY, ARITHMETIC_OP | INHERITS_SIGN, false, false, classes(TypeMetatype::Int, TypeMetatype::Int))),
        OpCode::IntCarry => Some(facts_of(opcode, "CARRY"@, PcodeOp::BINARY | PcodeOp::COMMUTATIVE | PcodeOp::BOOLOUTPUT, ARITHMETIC_OP, false, false, classes(TypeMetatype::Bool, TypeMetatype::Uint))),
        OpCode::IntScarry => Some(facts_of(opcode, "SCARRY"@, PcodeOp::BINARY | PcodeOp::COMMUTATIVE | PcodeOp::BOOLOUTPUT, ARITHMETIC_OP, false, false, classes(TypeMetatype::Bool, TypeMetatype::Int))),
        OpCode::IntSborrow => Some(facts_of(opcode, "SBORROW"@, PcodeOp::BINARY | PcodeOp::BOOLOUTPUT, ARITHMETIC_OP, false, false, classes(TypeMetatype::Bool, TypeMetatype::Int))),
        OpCode::Int2comp => Some(facts_of(opcode, "-"@, PcodeOp::UNARY, ARITHMETIC_OP | INHERITS_SIGN, true, false, classes(TypeMetatype::Int, TypeMetatype::Int))),
        OpCode::IntNegate => Some(facts_of(opcode, "~"@, PcodeOp::UNARY, LOGICAL_OP | INHERITS_SIGN, true, false, classes(TypeMetatype::Uint, TypeMetatype::Uint))),
        OpCode::IntXor => Some(facts_of(opcode, "^"@, PcodeOp::BINARY | PcodeOp::COMMUTATIVE, LOGICAL_OP | INHERITS_SIGN, false, false, classes(TypeMetatype::Uint, TypeMetatype::Uint))),
        OpCode::IntAnd => Some(facts_of(opcode, "&"@, PcodeOp::BINARY | PcodeOp::COMMUTATIVE, LOGICAL_OP | INHERITS_SIGN, false, false, classes(TypeMetatype::Uint, TypeMetatype::Uint))),
        OpCode::IntOr => Some(facts_of(opcode, "|"@, PcodeOp::BINARY | PcodeOp::COMMUTATIVE, LOGICAL_OP | INHERITS_SIGN, false, false, classes(TypeMetatype::Uint, TypeMetatype::Uint))),
        OpCode::IntLeft => Some(facts_of(opcode, "<<"@, PcodeOp::BINARY, INHERITS_SIGN | INHERITS_SIGN_ZERO | SHIFT_OP, false, false, classes(TypeMetatype::Int, TypeMetatype::Int))),
        OpCode::IntRight => Some(facts_of(opcode, ">>"@, PcodeOp::BINARY, INHERITS_SIGN | INHERITS_SIGN_ZERO | SHIFT_OP, false, false, classes(TypeMetatype::Uint, TypeMetatype::Uint))),
        OpCode::IntSright => Some(facts_of(opcode, ">>"@, PcodeOp::BINARY, INHERITS_SIGN | INHERITS_SIGN_ZERO | SHIFT_OP, false, false, classes(TypeMetatype::Int, TypeMetatype::Int))),
        OpCode::IntMult => Some(facts_of(opcode, "*"@, PcodeOp::BINARY | PcodeOp::COMMUTATIVE, ARITHMETIC_OP | INHERITS_SIGN, false, false, classes(TypeMetatype::Int, TypeMetatype::Int))),
        OpCode::IntDiv => Some(facts_of(opcode, "/"@, PcodeOp::BINARY, ARITHMETIC_OP | INHERITS_SIGN, false, false, classes(TypeMetatype::Uint, TypeMetatype::Uint))),
        OpCode::IntSdiv => Some(facts_of(opcode, "/"@, PcodeOp::BINARY, ARITHMETIC_OP | INHERITS_SIGN, false, false, classes(TypeMetatype::Int, TypeMetatype::Int))),
        OpCode::IntRem => Some(facts_of(opcode, "%"@, PcodeOp::BINARY, ARITHMETIC_OP | INHERITS_SIGN | INHERITS_SIGN_ZERO, false, false, classes(TypeMetatype::Uint, TypeMetatype::Uint))),
        OpCode::IntSrem => Some(facts_of(opcode, "%"@, PcodeOp::BINARY, ARITHMETIC_OP | INHERITS_SIGN | INHERITS_SIGN_ZERO, false, false, classes(TypeMetatype::Int, TypeMetatype::Int))),
        OpCode::BoolNegate => Some(facts_of(opcode, "!"@, PcodeOp::UNARY | PcodeOp::BOOLOUTPUT, LOGICAL_OP, true, false, classes(TypeMetatype::Bool, TypeMetatype::Bool))),
        OpCode::BoolXor => Some(facts_of(opcode, "^^"@, PcodeOp::BINARY | PcodeOp::COMMUTATIVE | PcodeOp::BOOLOUTPUT, LOGICAL_OP, false, false, classes(TypeMetatype::Bool, TypeMetatype::Bool))),
        OpCode::BoolAnd => Some(facts_of(opcode, "&&"@, PcodeOp::BINARY | PcodeOp::COMMUTATIVE | PcodeOp::BOOLOUTPUT, LOGICAL_OP, false, false, classes(TypeMetatype::Bool, TypeMetatype::Bool))),
        OpCode::BoolOr => Some(facts_of(opcode, "||"@, PcodeOp::BINARY | PcodeOp::COMMUTATIVE | PcodeOp::BOOLOUTPUT, LOGICAL_OP, false, false, classes(TypeMetatype::Bool, TypeMetatype::Bool))),
        OpCode::Cast => Some(facts_of(opcode, "(cast)"@, PcodeOp::UNARY | PcodeOp::SPECIAL | PcodeOp::NOCOLLAPSE, 0, false, true, None)),
        OpCode::Ptradd => Some(facts_of(opcode, "+"@, PcodeOp::TERNARY | PcodeOp::NOCOLLAPSE, ARITHMETIC_OP, false, false, None)),
        OpCode::Ptrsub => Some(facts_of(opcode, "->"@, PcodeOp::BINARY | PcodeOp::NOCOLLAPSE, ARITHMETIC_OP, false, false, None)),
        OpCode::FloatEqual => Some(facts_of(opcode, "=="@, PcodeOp::BINARY | PcodeOp::BOOLOUTPUT | PcodeOp::COMMUTATIVE, FLOATINGPOINT_OP, false, false, classes(TypeMetatype::Bool, TypeMetatype::Float))),
        OpCode::FloatNotequal => Some(facts_of(opcode, "!="@, PcodeOp::BINARY | PcodeOp::BOOLOUTPUT | PcodeOp::COMMUTATIVE, FLOATINGPOINT_OP, false, false, classes(TypeMetatype::Bool, TypeMetatype::Float))),
        OpCode::FloatLess => Some(facts_of(opcode, "<"@, PcodeOp::BINARY | PcodeOp::BOOLOUTPUT, FLOATINGPOINT_OP, false, false, classes(TypeMetatype::Bool, TypeMetatype::Float))),
        OpCode::FloatLessequal => Some(facts_of(opcode, "<="@, PcodeOp::BINARY | PcodeOp::BOOLOUTPUT, FLOATINGPOINT_OP, false, false, classes(TypeMetatype::Bool, TypeMetatype::Float))),
        OpCode::FloatNan => Some(facts_of(opcode, "NAN"@, PcodeOp::UNARY | PcodeOp::BOOLOUTPUT, FLOATINGPOINT_OP, true, false, classes(TypeMetatype::Bool, TypeMetatype::Float))),
        OpCode::FloatAdd => Some(facts_of(opcode, "+"@, PcodeOp::BINARY | PcodeOp::COMMUTATIVE, FLOATINGPOINT_OP, false, false, classes(TypeMetatype::Float, TypeMetatype::Float))),
        OpCode::FloatDiv => Some(facts_of(opcode, "/"@, PcodeOp::BINARY, FLOATINGPOINT_OP, false, false, classes(TypeMetatype::Float, TypeMetatype::Float))),
        OpCode::FloatMult => Some(facts_of(opcode, "*"@, PcodeOp::BINARY | PcodeOp::COMMUTATIVE, FLOATINGPOINT_OP, false, false, classes(TypeMetatype::Float, TypeMetatype::Float))),
        OpCode::FloatSub => Some(facts_of(opcode, "-"@, PcodeOp::BINARY, FLOATINGPOINT_OP, false, false, classes(TypeMetatype::Float, TypeMetatype::Float))),
        OpCode::FloatNeg => Some(facts_of(opcode, "-"@, PcodeOp::UNARY, FLOATINGPOINT_OP, true, false, classes(TypeMetatype::Float, TypeMetatype::Float))),
        OpCode::FloatAbs => Some(facts_of(opcode, "ABS"@, PcodeOp::UNARY, FLOATINGPOINT_OP, true, false, classes(TypeMetatype::Float, TypeMetatype::Float))),
        OpCode::FloatSqrt => Some(facts_of(opcode, "SQRT"@, PcodeOp::UNARY, FLOATINGPOINT_OP, true, false, classes(TypeMetatype::Float, TypeMetatype::Float))),
        OpCode::FloatInt2float => Some(facts_of(opcode, "INT2FLOAT"@, PcodeOp::UNARY, FLOATINGPOINT_OP, true, false, classes(TypeMetatype::Float, TypeMetatype::Int))),
        OpCode::FloatFloat2float => Some(facts_of(opcode, "FLOAT2FLOAT"@, PcodeOp::UNARY, FLOATINGPOINT_OP, true, false, classes(TypeMetatype::Float, TypeMetatype::Float))),
        OpCode::FloatTrunc => Some(facts_of(opcode, "TRUNC"@, PcodeOp::UNARY, FLOATINGPOINT_OP, true, false, classes(TypeMetatype::Int, TypeMetatype::Float))),
        OpCode::FloatCeil => Some(facts_of(opcode, "CEIL"@, PcodeOp::UNARY, FLOATINGPOINT_OP, true, false, classes(TypeMetatype::Float, TypeMetatype::Float))),
        OpCode::FloatFloor => Some(facts_of(opcode, "FLOOR"@, PcodeOp::UNARY, FLOATINGPOINT_OP, true, false, classes(TypeMetatype::Float, TypeMetatype::Float))),
        OpCode::FloatRound => Some(facts_of(opcode, "ROUND"@, PcodeOp::UNARY, FLOATINGPOINT_OP, true, false, classes(TypeMetatype::Float, TypeMetatype::Float))),
        OpCode::Segmentop => Some(facts_of(opcode, "segmentop"@, PcodeOp::SPECIAL | PcodeOp::NOCOLLAPSE, 0, false, true, None)),
        OpCode::Cpoolref => Some(facts_of(opcode, "cpoolref"@, PcodeOp::SPECIAL | PcodeOp::NOCOLLAPSE, 0, false, true, None)),
        OpCode::New => Some(facts_of(opcode, "new"@, PcodeOp::SPECIAL | PcodeOp::CALL | PcodeOp::NOCOLLAPSE, 0, false, true, None)),
        OpCode::Insert => Some(facts_of(opcode, "INSERT"@, PcodeOp::TERNARY, 0, false, false, classes(TypeMetatype::Unknown, TypeMetatype::Int))),
        OpCode::Zpull => Some(facts_of(opcode, "ZPULL"@, PcodeOp::TERNARY, 0, false, false, classes(TypeMetatype::Uint, TypeMetatype::Int))),
        OpCode::Popcount => Some(facts_of(opcode, "POPCOUNT"@, PcodeOp::UNARY, 0, true, false, classes(TypeMetatype::Int, TypeMetatype::Unknown))),
        OpCode::Lzcount => Some(facts_of(opcode, "LZCOUNT"@, PcodeOp::UNARY, 0, true, false, classes(TypeMetatype::Int, TypeMetatype::Unknown))),
        OpCode::Spull => Some(facts_of(opcode, "SPULL"@, PcodeOp::TERNARY, 0, false, false, classes(TypeMetatype::Int, TypeMetatype::Int))),
        OpCode::Unused1 | OpCode::Max => None,
    }
}

/// A table of kinds of operations that holds what it started with, for the numbers below a
/// limit. The slot that is no operation's number stays empty.
pub open spec fn filled(inst: Seq<Option<TypeOpRecord>>, tlst: TypeFactory) -> bool {
    &&& inst.len() == OpCode::Max.number()
    &&& inst[0] is None
    &&& forall|opcode: OpCode| #![trigger opcode.number()]
        opcode.number() < inst.len() ==> match starting_facts(opcode, tlst) {
            Some(facts) => inst[opcode.number() as int] is Some && inst[opcode.number() as int]->0.facts() == facts,
            None => inst[opcode.number() as int] is None,
        }
}

fn set_entry(inst: &mut Vec<Option<TypeOpRecord>>, opc: OpCode, top: TypeOpRecord)
    requires
        opc.number() < old(inst)@.len(),
    ensures
        final(inst)@ == old(inst)@.update(opc.number() as int, Some(top)),
{
    inst.set(opc.index(), Some(top));
}

/// Fills a table with all kinds of operations.
#[verifier::spinoff_prover]
#[verifier::rlimit(100)]
pub fn register_instructions(inst: &mut Vec<Option<TypeOpRecord>>, tlst: &TypeFactory)
    requires
        old(inst)@.len() == 0,
    ensures
        filled(final(inst)@, *tlst),
{
    let count: usize = OpCode::Max.index();
    let mut slot: usize = 0;
    while slot < count
        invariant
            slot <= count,
            count == OpCode::Max.number(),
            inst@.len() == slot,
            forall|k: int| #![trigger inst@[k]] 0 <= k < slot ==> inst@[k] is None,
        decreases count - slot,
    {
        inst.push(None);
        slot = slot + 1;
    }
    set_entry(inst, OpCode::Copy, TypeOpCopy::new().into_record());
    set_entry(inst, OpCode::Load, TypeOpLoad::new().into_record());
    set_entry(inst, OpCode::Store, TypeOpStore::new().into_record());
    set_entry(inst, OpCode::Branch, TypeOpBranch::new().into_record());
    set_entry(inst, OpCode::Cbranch, TypeOpCbranch::new().into_record());
    set_entry(inst, OpCode::Branchind, TypeOpBranchind::new().into_record());
    set_entry(inst, OpCode::Call, TypeOpCall::new().into_record());
    set_entry(inst, OpCode::Callind, TypeOpCallind::new().into_record());
    set_entry(inst, OpCode::Callother, TypeOpCallother::new().into_record());
    set_entry(inst, OpCode::Return, TypeOpReturn::new().into_record());
    set_entry(inst, OpCode::Multiequal, TypeOpMulti::new().into_record());
    set_entry(inst, OpCode::Indirect, TypeOpIndirect::new().into_record());
    set_entry(inst, OpCode::Piece, TypeOpPiece::new(tlst).into_record());
    set_entry(inst, OpCode::Subpiece, TypeOpSubpiece::new(tlst).into_record());
    set_entry(inst, OpCode::IntEqual, TypeOpEqual::new().into_record());
    set_entry(inst, OpCode::IntNotequal, TypeOpNotEqual::new().into_record());
    set_entry(inst, OpCode::IntSless, TypeOpIntSless::new().into_record());
    set_entry(inst, OpCode::IntSlessequal, TypeOpIntSlessEqual::new().into_record());
    set_entry(inst, OpCode::IntLess, TypeOpIntLess::new().into_record());
    set_entry(inst, OpCode::IntLessequal, TypeOpIntLessEqual::new().into_record());
    set_entry(inst, OpCode::IntZext, TypeOpIntZext::new().into_record());
    set_entry(inst, OpCode::IntSext, TypeOpIntSext::new().into_record());
    set_entry(inst, OpCode::IntAdd, TypeOpIntAdd::new().into_record());
    set_entry(inst, OpCode::IntSub, TypeOpIntSub::new().into_record());
    set_entry(inst, OpCode::IntCarry, TypeOpIntCarry::new().into_record());
    set_entry(inst, OpCode::IntScarry, TypeOpIntScarry::new().into_record());
    set_entry(inst, OpCode::IntSborrow, TypeOpIntSborrow::new().into_record());
    set_entry(inst, OpCode::Int2comp, TypeOpInt2Comp::new().into_record());
    set_entry(inst, OpCode::IntNegate, TypeOpIntNegate::new().into_record());
    set_entry(inst, OpCode::IntXor, TypeOpIntXor::new().into_record());
    set_entry(inst, OpCode::IntAnd, TypeOpIntAnd::new().into_record());
    set_entry(inst, OpCode::IntOr, TypeOpIntOr::new().into_record());
    set_entry(inst, OpCode::IntLeft, TypeOpIntLeft::new().into_record());
    set_entry(inst, OpCode::IntRight, TypeOpIntRight::new().into_record());
    set_entry(inst, OpCode::IntSright, TypeOpIntSright::new().into_record());
    set_entry(inst, OpCode::IntMult, TypeOpIntMult::new().into_record());
    set_entry(inst, OpCode::IntDiv, TypeOpIntDiv::new().into_record());
    set_entry(inst, OpCode::IntSdiv, TypeOpIntSdiv::new().into_record());
    set_entry(inst, OpCode::IntRem, TypeOpIntRem::new().into_record());
    set_entry(inst, OpCode::IntSrem, TypeOpIntSrem::new().into_record());
    set_entry(inst, OpCode::BoolNegate, TypeOpBoolNegate::new().into_record());
    set_entry(inst, OpCode::BoolXor, TypeOpBoolXor::new().into_record());
    set_entry(inst, OpCode::BoolAnd, TypeOpBoolAnd::new().into_record());
    set_entry(inst, OpCode::BoolOr, TypeOpBoolOr::new().into_record());
    set_entry(inst, OpCode::Cast, TypeOpCast::new().into_record());
    set_entry(inst, OpCode::Ptradd, TypeOpPtradd::new().into_record());
    set_entry(inst, OpCode::Ptrsub, TypeOpPtrsub::new().into_record());
    set_entry(inst, OpCode::FloatEqual, TypeOpFloatEqual::new().into_record());
    set_entry(inst, OpCode::FloatNotequal, TypeOpFloatNotEqual::new().into_record());
    set_entry(inst, OpCode::FloatLess, TypeOpFloatLess::new().into_record());
    set_entry(inst, OpCode::FloatLessequal, TypeOpFloatLessEqual::new().into_record());
    set_entry(inst, OpCode::FloatNan, TypeOpFloatNan::new().into_record());
    set_entry(inst, OpCode::FloatAdd, TypeOpFloatAdd::new().into_record());
    set_entry(inst, OpCode::FloatDiv, TypeOpFloatDiv::new().into_record());
    set_entry(inst, OpCode::FloatMult, TypeOpFloatMult::new().into_record());
    set_entry(inst, OpCode::FloatSub, TypeOpFloatSub::new().into_record());
    set_entry(inst, OpCode::FloatNeg, TypeOpFloatNeg::new().into_record());
    set_entry(inst, OpCode::FloatAbs, TypeOpFloatAbs::new().into_record());
    set_entry(inst, OpCode::FloatSqrt, TypeOpFloatSqrt::new().into_record());
    set_entry(inst, OpCode::FloatInt2float, TypeOpFloatInt2Float::new().into_record());
    set_entry(inst, OpCode::FloatFloat2float, TypeOpFloatFloat2Float::new().into_record());
    set_entry(inst, OpCode::FloatTrunc, TypeOpFloatTrunc::new().into_record());
    set_entry(inst, OpCode::FloatCeil, TypeOpFloatCeil::new().into_record());
    set_entry(inst, OpCode::FloatFloor, TypeOpFloatFloor::new().into_record());
    set_entry(inst, OpCode::FloatRound, TypeOpFloatRound::new().into_record());
    set_entry(inst, OpCode::Segmentop, TypeOpSegment::new().into_record());
    set_entry(inst, OpCode::Cpoolref, TypeOpCpoolref::new().into_record());
    set_entry(inst, OpCode::New, TypeOpNew::new().into_record());
    set_entry(inst, OpCode::Insert, TypeOpInsert::new().into_record());
    set_entry(inst, OpCode::Zpull, TypeOpZpull::new().into_record());
    set_entry(inst, OpCode::Popcount, TypeOpPopcount::new().into_record());
    set_entry(inst, OpCode::Lzcount, TypeOpLzcount::new().into_record());
    set_entry(inst, OpCode::Spull, TypeOpSpull::new().into_record());
}

/// Changes the classes of a kind of operation.
fn configure(inst: &mut Vec<Option<TypeOpRecord>>, opc: OpCode, metain: TypeMetatype, metaout: TypeMetatype)
    requires
        opc.number() < old(inst)@.len(),
        old(inst)@[opc.number() as int] is Some,
    ensures
        final(inst)@.len() == old(inst)@.len(),
        forall|k: int| #![trigger final(inst)@[k]]
            0 <= k < final(inst)@.len() && k != opc.number() ==> final(inst)@[k] == old(inst)@[k],
        final(inst)@[opc.number() as int] is Some,
        final(inst)@[opc.number() as int]->0.facts() == with_classes(
            old(inst)@[opc.number() as int]->0.facts(),
            metain,
            metaout,
        ),
{
    let mut top: Option<TypeOpRecord> = None;
    std::mem::swap(&mut inst[opc.index()], &mut top);
    let mut record = top.unwrap();
    record.set_metatype_in(metain);
    record.set_metatype_out(metaout);
    inst.set(opc.index(), Some(record));
}

/// A kind of operation with other classes, if it has any.
pub open spec fn with_classes(facts: OpFacts, metain: TypeMetatype, metaout: TypeMetatype) -> OpFacts {
    OpFacts {
        meta: match facts.meta {
            Some(_) => Some(TypeOpMeta { metaout, metain }),
            None => None,
        },
        ..facts
    }
}

/// What the choice of operators makes of a kind of operation.
pub open spec fn with_operators(facts: OpFacts, opcode: OpCode, java: bool) -> OpFacts {
    let plain = if java {
        TypeMetatype::Int
    } else {
        TypeMetatype::Uint
    };
    match opcode {
        OpCode::IntZext => with_classes(
            facts,
            if java {
                TypeMetatype::Unknown
            } else {
                TypeMetatype::Uint
            },
            plain,
        ),
        OpCode::IntNegate | OpCode::IntXor | OpCode::IntOr | OpCode::IntAnd => with_classes(facts, plain, plain),
        OpCode::IntRight => OpFacts {
            name: if java {
                ">>>"@
            } else {
                ">>"@
            },
            ..with_classes(facts, plain, plain)
        },
        _ => facts,
    }
}

/// A table that holds the kinds of operations that the choice of operators touches.
pub open spec fn has_operators(inst: Seq<Option<TypeOpRecord>>) -> bool {
    &&& forall|k: int| #[trigger] is_chosen(k) ==> 0 <= k < inst.len() && inst[k] is Some
}

/// The slot of an operation that the choice of operators touches.
pub open spec fn is_chosen(k: int) -> bool {
    ||| k == OpCode::IntZext.number()
    ||| k == OpCode::IntNegate.number()
    ||| k == OpCode::IntXor.number()
    ||| k == OpCode::IntOr.number()
    ||| k == OpCode::IntAnd.number()
    ||| k == OpCode::IntRight.number()
}

/// Chooses the operators of Java, or those of C.
pub fn select_java_operators(inst: &mut Vec<Option<TypeOpRecord>>, val: bool)
    requires
        has_operators(old(inst)@),
    ensures
        final(inst)@.len() == old(inst)@.len(),
        forall|k: int| #![trigger final(inst)@[k]]
            0 <= k < final(inst)@.len() && !is_chosen(k) ==> final(inst)@[k] == old(inst)@[k],
        forall|opcode: OpCode| #![trigger opcode.number()]
            opcode.number() < final(inst)@.len() ==> {
                let k = opcode.number() as int;
                &&& (final(inst)@[k] is Some) == (old(inst)@[k] is Some)
                &&& final(inst)@[k] is Some ==> final(inst)@[k]->0.facts() == with_operators(
                    old(inst)@[k]->0.facts(),
                    opcode,
                    val,
                )
            },
{
    assert(is_chosen(OpCode::IntZext.number() as int) && is_chosen(OpCode::IntNegate.number() as int) && is_chosen(
        OpCode::IntXor.number() as int,
    ) && is_chosen(OpCode::IntOr.number() as int) && is_chosen(OpCode::IntAnd.number() as int) && is_chosen(
        OpCode::IntRight.number() as int,
    ));
    let (zext, plain) = if val {
        (TypeMetatype::Unknown, TypeMetatype::Int)
    } else {
        (TypeMetatype::Uint, TypeMetatype::Uint)
    };
    configure(inst, OpCode::IntZext, zext, plain);
    configure(inst, OpCode::IntNegate, plain, plain);
    configure(inst, OpCode::IntXor, plain, plain);
    configure(inst, OpCode::IntOr, plain, plain);
    configure(inst, OpCode::IntAnd, plain, plain);
    configure(inst, OpCode::IntRight, plain, plain);
    let mut top: Option<TypeOpRecord> = None;
    std::mem::swap(&mut inst[OpCode::IntRight.index()], &mut top);
    let mut record = top.unwrap();
    record.set_symbol(
        if val {
            ">>>"
        } else {
            ">>"
        },
    );
    inst.set(OpCode::IntRight.index(), Some(record));
}

/// The entry of a table for a kind of operation.
pub fn with_type_op(inst: &Vec<Option<TypeOpRecord>>, opc: OpCode) -> (res: &TypeOpRecord)
    requires
        opc.number() < inst@.len(),
        inst@[opc.number() as int] is Some,
    ensures
        *res == inst@[opc.number() as int]->0,
{
    inst[opc.index()].as_ref().unwrap()
}

} // verus!

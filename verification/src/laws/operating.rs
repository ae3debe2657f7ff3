//! What the kinds of operations read and write.
use vstd::prelude::*;
use crate::op::PcodeOp;
use crate::opcodes::OpCode;
use crate::typeop::{TypeOp, TypeOpMeta, TypeOpRecord};
use crate::types::{TypeFactory, TypeMetatype};

verus! {

/// What a table of the kinds of operations says: which class of values each reads and writes. What
/// compares writes truth values; signed operations read signed integers, unsigned ones unsigned
/// integers, floating-point operations floating-point numbers.
pub proof fn operations_and_classes(inst: Seq<Option<TypeOpRecord>>, tlst: TypeFactory, code: OpCode)
    requires
        crate::typeop::table::filled(inst, tlst),
        !(code is Unused1),
        !(code is Max),
        code.number() < inst.len(),
    ensures
        inst[code.number() as int] is Some,
        ({
            let facts = inst[code.number() as int]->0.facts();
            &&& facts.opcode == code
            &&& facts.behave is Some
            &&& facts.behave->0.opcode == code
            &&& (code is Copy || code is Load || code is Store || code is Branch || code is Cbranch || code is Branchind || code is Call || code is Callind || code is Callother || code is Return || code is Multiequal || code is Indirect || code is Cast || code is Ptradd || code is Ptrsub || code is Segmentop || code is Cpoolref || code is New) ==> facts.meta is None
            &&& (code is Piece || code is Subpiece) ==> facts.meta == Some(
                TypeOpMeta { metaout: TypeMetatype::Unknown, metain: TypeMetatype::Unknown },
            )
            &&& (code is IntEqual || code is IntNotequal || code is IntSless || code is IntSlessequal || code is IntScarry || code is IntSborrow) ==> facts.meta == Some(
                TypeOpMeta { metaout: TypeMetatype::Bool, metain: TypeMetatype::Int },
            )
            &&& (code is IntLess || code is IntLessequal || code is IntCarry) ==> facts.meta == Some(
                TypeOpMeta { metaout: TypeMetatype::Bool, metain: TypeMetatype::Uint },
            )
            &&& (code is IntZext || code is IntNegate || code is IntXor || code is IntAnd || code is IntOr || code is IntRight || code is IntDiv || code is IntRem) ==> facts.meta == Some(
                TypeOpMeta { metaout: TypeMetatype::Uint, metain: TypeMetatype::Uint },
            )
            &&& (code is IntSext || code is IntAdd || code is IntSub || code is Int2comp || code is IntLeft || code is IntSright || code is IntMult || code is IntSdiv || code is IntSrem || code is Spull) ==> facts.meta == Some(
                TypeOpMeta { metaout: TypeMetatype::Int, metain: TypeMetatype::Int },
            )
            &&& (code is BoolNegate || code is BoolXor || code is BoolAnd || code is BoolOr) ==> facts.meta == Some(
                TypeOpMeta { metaout: TypeMetatype::Bool, metain: TypeMetatype::Bool },
            )
            &&& (code is FloatEqual || code is FloatNotequal || code is FloatLess || code is FloatLessequal || code is FloatNan) ==> facts.meta == Some(
                TypeOpMeta { metaout: TypeMetatype::Bool, metain: TypeMetatype::Float },
            )
            &&& (code is FloatAdd || code is FloatDiv || code is FloatMult || code is FloatSub || code is FloatNeg || code is FloatAbs || code is FloatSqrt || code is FloatFloat2float || code is FloatCeil || code is FloatFloor || code is FloatRound) ==> facts.meta == Some(
                TypeOpMeta { metaout: TypeMetatype::Float, metain: TypeMetatype::Float },
            )
            &&& (code is FloatInt2float) ==> facts.meta == Some(
                TypeOpMeta { metaout: TypeMetatype::Float, metain: TypeMetatype::Int },
            )
            &&& (code is FloatTrunc) ==> facts.meta == Some(
                TypeOpMeta { metaout: TypeMetatype::Int, metain: TypeMetatype::Float },
            )
            &&& (code is Insert) ==> facts.meta == Some(
                TypeOpMeta { metaout: TypeMetatype::Unknown, metain: TypeMetatype::Int },
            )
            &&& (code is Zpull) ==> facts.meta == Some(
                TypeOpMeta { metaout: TypeMetatype::Uint, metain: TypeMetatype::Int },
            )
            &&& (code is Popcount || code is Lzcount) ==> facts.meta == Some(
                TypeOpMeta { metaout: TypeMetatype::Int, metain: TypeMetatype::Unknown },
            )
        }),
{
}

/// How each kind of operation is written.
pub proof fn operations_and_symbols(inst: Seq<Option<TypeOpRecord>>, tlst: TypeFactory, code: OpCode)
    requires
        crate::typeop::table::filled(inst, tlst),
        !(code is Unused1),
        !(code is Max),
        code.number() < inst.len(),
    ensures
        ({
            let facts = inst[code.number() as int]->0.facts();
            &&& (code is Copy) ==> facts.name == "copy"@
            &&& (code is Load) ==> facts.name == "load"@
            &&& (code is Store) ==> facts.name == "store"@
            &&& (code is Branch || code is Cbranch) ==> facts.name == "goto"@
            &&& (code is Branchind) ==> facts.name == "switch"@
            &&& (code is Call) ==> facts.name == "call"@
            &&& (code is Callind) ==> facts.name == "callind"@
            &&& (code is Callother) ==> facts.name == "syscall"@
            &&& (code is Return) ==> facts.name == "return"@
            &&& (code is Multiequal) ==> facts.name == "?"@
            &&& (code is Indirect) ==> facts.name == "[]"@
            &&& (code is Piece) ==> facts.name == "CONCAT"@
            &&& (code is Subpiece) ==> facts.name == "SUB"@
            &&& (code is IntEqual || code is FloatEqual) ==> facts.name == "=="@
            &&& (code is IntNotequal || code is FloatNotequal) ==> facts.name == "!="@
            &&& (code is IntSless || code is IntLess || code is FloatLess) ==> facts.name == "<"@
            &&& (code is IntSlessequal || code is IntLessequal || code is FloatLessequal) ==> facts.name == "<="@
            &&& (code is IntZext) ==> facts.name == "ZEXT"@
            &&& (code is IntSext) ==> facts.name == "SEXT"@
            &&& (code is IntAdd || code is Ptradd || code is FloatAdd) ==> facts.name == "+"@
            &&& (code is IntSub || code is Int2comp || code is FloatSub || code is FloatNeg) ==> facts.name == "-"@
            &&& (code is IntCarry) ==> facts.name == "CARRY"@
            &&& (code is IntScarry) ==> facts.name == "SCARRY"@
            &&& (code is IntSborrow) ==> facts.name == "SBORROW"@
            &&& (code is IntNegate) ==> facts.name == "~"@
            &&& (code is IntXor) ==> facts.name == "^"@
            &&& (code is IntAnd) ==> facts.name == "&"@
            &&& (code is IntOr) ==> facts.name == "|"@
            &&& (code is IntLeft) ==> facts.name == "<<"@
            &&& (code is IntRight || code is IntSright) ==> facts.name == ">>"@
            &&& (code is IntMult || code is FloatMult) ==> facts.name == "*"@
            &&& (code is IntDiv || code is IntSdiv || code is FloatDiv) ==> facts.name == "/"@
            &&& (code is IntRem || code is IntSrem) ==> facts.name == "%"@
            &&& (code is BoolNegate) ==> facts.name == "!"@
            &&& (code is BoolXor) ==> facts.name == "^^"@
            &&& (code is BoolAnd) ==> facts.name == "&&"@
            &&& (code is BoolOr) ==> facts.name == "||"@
            &&& (code is Cast) ==> facts.name == "(cast)"@
            &&& (code is Ptrsub) ==> facts.name == "->"@
            &&& (code is FloatNan) ==> facts.name == "NAN"@
            &&& (code is FloatAbs) ==> facts.name == "ABS"@
            &&& (code is FloatSqrt) ==> facts.name == "SQRT"@
            &&& (code is FloatInt2float) ==> facts.name == "INT2FLOAT"@
            &&& (code is FloatFloat2float) ==> facts.name == "FLOAT2FLOAT"@
            &&& (code is FloatTrunc) ==> facts.name == "TRUNC"@
            &&& (code is FloatCeil) ==> facts.name == "CEIL"@
            &&& (code is FloatFloor) ==> facts.name == "FLOOR"@
            &&& (code is FloatRound) ==> facts.name == "ROUND"@
            &&& (code is Segmentop) ==> facts.name == "segmentop"@
            &&& (code is Cpoolref) ==> facts.name == "cpoolref"@
            &&& (code is New) ==> facts.name == "new"@
            &&& (code is Insert) ==> facts.name == "INSERT"@
            &&& (code is Zpull) ==> facts.name == "ZPULL"@
            &&& (code is Popcount) ==> facts.name == "POPCOUNT"@
            &&& (code is Lzcount) ==> facts.name == "LZCOUNT"@
            &&& (code is Spull) ==> facts.name == "SPULL"@
        }),
{
}

/// How many values each kind of operation reads, and whether they may change places.
pub proof fn operations_and_shapes(inst: Seq<Option<TypeOpRecord>>, tlst: TypeFactory, code: OpCode)
    requires
        crate::typeop::table::filled(inst, tlst),
        !(code is Unused1),
        !(code is Max),
        code.number() < inst.len(),
    ensures
        ({
            let facts = inst[code.number() as int]->0.facts();
            &&& facts.behave->0.unary == (code is Copy || code is IntZext || code is IntSext || code is Int2comp || code is IntNegate || code is BoolNegate || code is FloatNan || code is FloatNeg || code is FloatAbs || code is FloatSqrt || code is FloatInt2float || code is FloatFloat2float || code is FloatTrunc || code is FloatCeil || code is FloatFloor || code is FloatRound || code is Popcount || code is Lzcount)
            &&& (code is Copy) ==> facts.opflags == PcodeOp::UNARY | PcodeOp::NOCOLLAPSE
            &&& (code is Load || code is Store || code is Segmentop || code is Cpoolref) ==> facts.opflags == PcodeOp::SPECIAL | PcodeOp::NOCOLLAPSE
            &&& (code is Branch || code is Cbranch) ==> facts.opflags == PcodeOp::SPECIAL | PcodeOp::BRANCH | PcodeOp::CODEREF | PcodeOp::NOCOLLAPSE
            &&& (code is Branchind) ==> facts.opflags == PcodeOp::SPECIAL | PcodeOp::BRANCH | PcodeOp::NOCOLLAPSE
            &&& (code is Call) ==> facts.opflags == PcodeOp::SPECIAL | PcodeOp::CALL | PcodeOp::HAS_CALLSPEC | PcodeOp::CODEREF | PcodeOp::NOCOLLAPSE
            &&& (code is Callind) ==> facts.opflags == PcodeOp::SPECIAL | PcodeOp::CALL | PcodeOp::HAS_CALLSPEC | PcodeOp::NOCOLLAPSE
            &&& (code is Callother || code is New) ==> facts.opflags == PcodeOp::SPECIAL | PcodeOp::CALL | PcodeOp::NOCOLLAPSE
            &&& (code is Return) ==> facts.opflags == PcodeOp::SPECIAL | PcodeOp::RETURNS | PcodeOp::NOCOLLAPSE | PcodeOp::RETURN_COPY
            &&& (code is Multiequal || code is Indirect) ==> facts.opflags == PcodeOp::SPECIAL | PcodeOp::MARKER | PcodeOp::NOCOLLAPSE
            &&& (code is Piece || code is Subpiece || code is IntSub || code is IntLeft || code is IntRight || code is IntSright || code is IntDiv || code is IntSdiv || code is IntRem || code is IntSrem || code is FloatDiv || code is FloatSub) ==> facts.opflags == PcodeOp::BINARY
            &&& (code is IntEqual || code is IntNotequal || code is FloatEqual || code is FloatNotequal) ==> facts.opflags == PcodeOp::BINARY | PcodeOp::BOOLOUTPUT | PcodeOp::COMMUTATIVE
            &&& (code is IntCarry || code is IntScarry || code is BoolXor || code is BoolAnd || code is BoolOr) ==> facts.opflags == PcodeOp::BINARY | PcodeOp::COMMUTATIVE | PcodeOp::BOOLOUTPUT
            &&& (code is IntSless || code is IntSlessequal || code is IntLess || code is IntLessequal || code is IntSborrow || code is FloatLess || code is FloatLessequal) ==> facts.opflags == PcodeOp::BINARY | PcodeOp::BOOLOUTPUT
            &&& (code is IntZext || code is IntSext || code is Int2comp || code is IntNegate || code is FloatNeg || code is FloatAbs || code is FloatSqrt || code is FloatInt2float || code is FloatFloat2float || code is FloatTrunc || code is FloatCeil || code is FloatFloor || code is FloatRound || code is Popcount || code is Lzcount) ==> facts.opflags == PcodeOp::UNARY
            &&& (code is IntAdd || code is IntXor || code is IntAnd || code is IntOr || code is IntMult || code is FloatAdd || code is FloatMult) ==> facts.opflags == PcodeOp::BINARY | PcodeOp::COMMUTATIVE
            &&& (code is BoolNegate || code is FloatNan) ==> facts.opflags == PcodeOp::UNARY | PcodeOp::BOOLOUTPUT
            &&& (code is Cast) ==> facts.opflags == PcodeOp::UNARY | PcodeOp::SPECIAL | PcodeOp::NOCOLLAPSE
            &&& (code is Ptradd) ==> facts.opflags == PcodeOp::TERNARY | PcodeOp::NOCOLLAPSE
            &&& (code is Ptrsub) ==> facts.opflags == PcodeOp::BINARY | PcodeOp::NOCOLLAPSE
            &&& (code is Insert || code is Zpull || code is Spull) ==> facts.opflags == PcodeOp::TERNARY
        }),
{
}

} // verus!

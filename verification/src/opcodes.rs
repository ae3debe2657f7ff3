//! The operations of p-code.
use vstd::prelude::*;

verus! {

/// An operation. The last two that are not operations are a number that is not
/// in use and the end of the numbers.
#[derive(Copy, Clone, Debug, PartialEq, Eq, PartialOrd, Ord, Hash, Structural)]
pub enum OpCode {
    Copy,
    Load,
    Store,
    Branch,
    Cbranch,
    Branchind,
    Call,
    Callind,
    Callother,
    Return,
    IntEqual,
    IntNotequal,
    IntSless,
    IntSlessequal,
    IntLess,
    IntLessequal,
    IntZext,
    IntSext,
    IntAdd,
    IntSub,
    IntCarry,
    IntScarry,
    IntSborrow,
    Int2comp,
    IntNegate,
    IntXor,
    IntAnd,
    IntOr,
    IntLeft,
    IntRight,
    IntSright,
    IntMult,
    IntDiv,
    IntSdiv,
    IntRem,
    IntSrem,
    BoolNegate,
    BoolXor,
    BoolAnd,
    BoolOr,
    FloatEqual,
    FloatNotequal,
    FloatLess,
    FloatLessequal,
    Unused1,
    FloatNan,
    FloatAdd,
    FloatDiv,
    FloatMult,
    FloatSub,
    FloatNeg,
    FloatAbs,
    FloatSqrt,
    FloatInt2float,
    FloatFloat2float,
    FloatTrunc,
    FloatCeil,
    FloatFloor,
    FloatRound,
    Multiequal,
    Indirect,
    Piece,
    Subpiece,
    Cast,
    Ptradd,
    Ptrsub,
    Segmentop,
    Cpoolref,
    New,
    Insert,
    Zpull,
    Popcount,
    Lzcount,
    Spull,
    Max,
}

impl OpCode {
    /// The number of the operation.
    pub open spec fn number(self) -> nat {
        match self {
            OpCode::Copy => 1,
            OpCode::Load => 2,
            OpCode::Store => 3,
            OpCode::Branch => 4,
            OpCode::Cbranch => 5,
            OpCode::Branchind => 6,
            OpCode::Call => 7,
            OpCode::Callind => 8,
            OpCode::Callother => 9,
            OpCode::Return => 10,
            OpCode::IntEqual => 11,
            OpCode::IntNotequal => 12,
            OpCode::IntSless => 13,
            OpCode::IntSlessequal => 14,
            OpCode::IntLess => 15,
            OpCode::IntLessequal => 16,
            OpCode::IntZext => 17,
            OpCode::IntSext => 18,
            OpCode::IntAdd => 19,
            OpCode::IntSub => 20,
            OpCode::IntCarry => 21,
            OpCode::IntScarry => 22,
            OpCode::IntSborrow => 23,
            OpCode::Int2comp => 24,
            OpCode::IntNegate => 25,
            OpCode::IntXor => 26,
            OpCode::IntAnd => 27,
            OpCode::IntOr => 28,
            OpCode::IntLeft => 29,
            OpCode::IntRight => 30,
            OpCode::IntSright => 31,
            OpCode::IntMult => 32,
            OpCode::IntDiv => 33,
            OpCode::IntSdiv => 34,
            OpCode::IntRem => 35,
            OpCode::IntSrem => 36,
            OpCode::BoolNegate => 37,
            OpCode::BoolXor => 38,
            OpCode::BoolAnd => 39,
            OpCode::BoolOr => 40,
            OpCode::FloatEqual => 41,
            OpCode::FloatNotequal => 42,
            OpCode::FloatLess => 43,
            OpCode::FloatLessequal => 44,
            OpCode::Unused1 => 45,
            OpCode::FloatNan => 46,
            OpCode::FloatAdd => 47,
            OpCode::FloatDiv => 48,
            OpCode::FloatMult => 49,
            OpCode::FloatSub => 50,
            OpCode::FloatNeg => 51,
            OpCode::FloatAbs => 52,
            OpCode::FloatSqrt => 53,
            OpCode::FloatInt2float => 54,
            OpCode::FloatFloat2float => 55,
            OpCode::FloatTrunc => 56,
            OpCode::FloatCeil => 57,
            OpCode::FloatFloor => 58,
            OpCode::FloatRound => 59,
            OpCode::Multiequal => 60,
            OpCode::Indirect => 61,
            OpCode::Piece => 62,
            OpCode::Subpiece => 63,
            OpCode::Cast => 64,
            OpCode::Ptradd => 65,
            OpCode::Ptrsub => 66,
            OpCode::Segmentop => 67,
            OpCode::Cpoolref => 68,
            OpCode::New => 69,
            OpCode::Insert => 70,
            OpCode::Zpull => 71,
            OpCode::Popcount => 72,
            OpCode::Lzcount => 73,
            OpCode::Spull => 74,
            OpCode::Max => 75,
        }
    }

    /// The number of the operation.
    pub fn index(self) -> (res: usize)
        ensures
            res == self.number(),
    {
        match self {
            OpCode::Copy => 1,
            OpCode::Load => 2,
            OpCode::Store => 3,
            OpCode::Branch => 4,
            OpCode::Cbranch => 5,
            OpCode::Branchind => 6,
            OpCode::Call => 7,
            OpCode::Callind => 8,
            OpCode::Callother => 9,
            OpCode::Return => 10,
            OpCode::IntEqual => 11,
            OpCode::IntNotequal => 12,
            OpCode::IntSless => 13,
            OpCode::IntSlessequal => 14,
            OpCode::IntLess => 15,
            OpCode::IntLessequal => 16,
            OpCode::IntZext => 17,
            OpCode::IntSext => 18,
            OpCode::IntAdd => 19,
            OpCode::IntSub => 20,
            OpCode::IntCarry => 21,
            OpCode::IntScarry => 22,
            OpCode::IntSborrow => 23,
            OpCode::Int2comp => 24,
            OpCode::IntNegate => 25,
            OpCode::IntXor => 26,
            OpCode::IntAnd => 27,
            OpCode::IntOr => 28,
            OpCode::IntLeft => 29,
            OpCode::IntRight => 30,
            OpCode::IntSright => 31,
            OpCode::IntMult => 32,
            OpCode::IntDiv => 33,
            OpCode::IntSdiv => 34,
            OpCode::IntRem => 35,
            OpCode::IntSrem => 36,
            OpCode::BoolNegate => 37,
            OpCode::BoolXor => 38,
            OpCode::BoolAnd => 39,
            OpCode::BoolOr => 40,
            OpCode::FloatEqual => 41,
            OpCode::FloatNotequal => 42,
            OpCode::FloatLess => 43,
            OpCode::FloatLessequal => 44,
            OpCode::Unused1 => 45,
            OpCode::FloatNan => 46,
            OpCode::FloatAdd => 47,
            OpCode::FloatDiv => 48,
            OpCode::FloatMult => 49,
            OpCode::FloatSub => 50,
            OpCode::FloatNeg => 51,
            OpCode::FloatAbs => 52,
            OpCode::FloatSqrt => 53,
            OpCode::FloatInt2float => 54,
            OpCode::FloatFloat2float => 55,
            OpCode::FloatTrunc => 56,
            OpCode::FloatCeil => 57,
            OpCode::FloatFloor => 58,
            OpCode::FloatRound => 59,
            OpCode::Multiequal => 60,
            OpCode::Indirect => 61,
            OpCode::Piece => 62,
            OpCode::Subpiece => 63,
            OpCode::Cast => 64,
            OpCode::Ptradd => 65,
            OpCode::Ptrsub => 66,
            OpCode::Segmentop => 67,
            OpCode::Cpoolref => 68,
            OpCode::New => 69,
            OpCode::Insert => 70,
            OpCode::Zpull => 71,
            OpCode::Popcount => 72,
            OpCode::Lzcount => 73,
            OpCode::Spull => 74,
            OpCode::Max => 75,
        }
    }
}

} // verus!

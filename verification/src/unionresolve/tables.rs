//! How well data-types of a class fit the operations that read and write them.
use vstd::prelude::*;
use crate::opcodes::OpCode;
use crate::types::TypeMetatype;

verus! {

/// The classes of data-types that hold others or are no plain integers.
pub open spec fn aggregate(meta: TypeMetatype) -> bool {
    meta == TypeMetatype::Array || meta == TypeMetatype::Struct || meta == TypeMetatype::Union || meta == TypeMetatype::Code || meta == TypeMetatype::Float
}

pub fn is_aggregate_meta(meta: TypeMetatype) -> (res: bool)
    ensures
        res == aggregate(meta),
{
    meta == TypeMetatype::Array || meta == TypeMetatype::Struct || meta == TypeMetatype::Union || meta == TypeMetatype::Code || meta == TypeMetatype::Float
}

/// How well a value of a class fits an operation that reads it, where only the operation, the slot and the class count.
pub open spec fn fit_of_read(code: OpCode, inslot: i32, meta: TypeMetatype) -> i32 {
    match code {
        OpCode::Cbranch => if meta == TypeMetatype::Bool {
            10i32
        } else {
            -10i32
        },
        OpCode::Branchind => if meta == TypeMetatype::Ptr || aggregate(meta) {
            -5i32
        } else {
            1i32
        },
        OpCode::IntEqual | OpCode::IntNotequal => if aggregate(meta) {
            -1i32
        } else {
            1i32
        },
        OpCode::IntSless | OpCode::IntSlessequal | OpCode::IntScarry | OpCode::IntSborrow => if aggregate(meta) {
            -5i32
        } else if meta == TypeMetatype::Ptr || meta == TypeMetatype::Unknown || meta == TypeMetatype::Uint || meta == TypeMetatype::Bool {
            -1i32
        } else {
            5i32
        },
        OpCode::IntLess | OpCode::IntLessequal | OpCode::IntCarry => if aggregate(meta) {
            -5i32
        } else if meta == TypeMetatype::Ptr || meta == TypeMetatype::Unknown || meta == TypeMetatype::Uint {
            5i32
        } else if meta == TypeMetatype::Int {
            -5i32
        } else {
            0i32
        },
        OpCode::IntZext => if meta == TypeMetatype::Uint {
            2i32
        } else if meta == TypeMetatype::Int || meta == TypeMetatype::Bool {
            1i32
        } else if meta == TypeMetatype::Unknown {
            0i32
        } else {
            -5i32
        },
        OpCode::IntSext => if meta == TypeMetatype::Int {
            2i32
        } else if meta == TypeMetatype::Uint || meta == TypeMetatype::Bool {
            1i32
        } else if meta == TypeMetatype::Unknown {
            0i32
        } else {
            -5i32
        },
        OpCode::Int2comp => if aggregate(meta) {
            -5i32
        } else if meta == TypeMetatype::Ptr || meta == TypeMetatype::Unknown || meta == TypeMetatype::Bool {
            -1i32
        } else if meta == TypeMetatype::Int {
            5i32
        } else {
            0i32
        },
        OpCode::IntNegate | OpCode::IntXor | OpCode::IntAnd | OpCode::IntOr | OpCode::Popcount | OpCode::Lzcount => if aggregate(meta) {
            -5i32
        } else if meta == TypeMetatype::Ptr || meta == TypeMetatype::Bool {
            -1i32
        } else if meta == TypeMetatype::Uint || meta == TypeMetatype::Unknown {
            2i32
        } else {
            0i32
        },
        OpCode::IntLeft | OpCode::IntRight => if inslot == 0 {
            if aggregate(meta) {
                -5i32
            } else if meta == TypeMetatype::Ptr || meta == TypeMetatype::Bool {
                -1i32
            } else if meta == TypeMetatype::Uint || meta == TypeMetatype::Unknown {
                2i32
            } else {
                0i32
            }
        } else {
            if aggregate(meta) || meta == TypeMetatype::Ptr {
                -5i32
            } else {
                1i32
            }
        },
        OpCode::IntSright => if inslot == 0 {
            if aggregate(meta) {
                -5i32
            } else if meta == TypeMetatype::Ptr || meta == TypeMetatype::Bool || meta == TypeMetatype::Uint || meta == TypeMetatype::Unknown {
                -1i32
            } else {
                2i32
            }
        } else {
            if aggregate(meta) || meta == TypeMetatype::Ptr {
                -5i32
            } else {
                1i32
            }
        },
        OpCode::IntMult => if aggregate(meta) {
            -10i32
        } else if meta == TypeMetatype::Ptr || meta == TypeMetatype::Bool {
            -2i32
        } else {
            5i32
        },
        OpCode::IntDiv | OpCode::IntRem => if aggregate(meta) {
            -10i32
        } else if meta == TypeMetatype::Ptr || meta == TypeMetatype::Bool {
            -2i32
        } else if meta == TypeMetatype::Uint || meta == TypeMetatype::Unknown {
            5i32
        } else {
            0i32
        },
        OpCode::IntSdiv | OpCode::IntSrem => if aggregate(meta) {
            -10i32
        } else if meta == TypeMetatype::Ptr || meta == TypeMetatype::Bool {
            -2i32
        } else if meta == TypeMetatype::Int {
            5i32
        } else {
            0i32
        },
        OpCode::BoolNegate | OpCode::BoolAnd | OpCode::BoolXor | OpCode::BoolOr => if meta == TypeMetatype::Bool {
            10i32
        } else if meta == TypeMetatype::Int || meta == TypeMetatype::Uint || meta == TypeMetatype::Unknown {
            -1i32
        } else {
            -10i32
        },
        OpCode::FloatEqual | OpCode::FloatNotequal | OpCode::FloatLess | OpCode::FloatLessequal | OpCode::FloatNan | OpCode::FloatAdd | OpCode::FloatDiv | OpCode::FloatMult | OpCode::FloatSub | OpCode::FloatNeg | OpCode::FloatAbs | OpCode::FloatSqrt | OpCode::FloatFloat2float | OpCode::FloatTrunc | OpCode::FloatCeil | OpCode::FloatFloor | OpCode::FloatRound => if meta == TypeMetatype::Float {
            10i32
        } else {
            -10i32
        },
        OpCode::FloatInt2float => if aggregate(meta) {
            -10i32
        } else if meta == TypeMetatype::Ptr {
            -5i32
        } else if meta == TypeMetatype::Int {
            5i32
        } else {
            0i32
        },
        OpCode::Piece => if aggregate(meta) {
            -5i32
        } else {
            0i32
        },
        OpCode::Segmentop => if inslot == 2 {
            if meta == TypeMetatype::Ptr {
                5i32
            } else if aggregate(meta) {
                -5i32
            } else {
                -1i32
            }
        } else {
            if aggregate(meta) || meta == TypeMetatype::Ptr {
                -2i32
            } else {
                0i32
            }
        },
        _ => -10i32,
    }
}

pub fn score_read(code: OpCode, inslot: i32, meta: TypeMetatype) -> (res: i32)
    ensures
        res == fit_of_read(code, inslot, meta),
        res == crate::laws::fitting::read_scores(code, inslot).of(meta),
{
    match code {
        OpCode::Cbranch => if meta == TypeMetatype::Bool {
            10i32
        } else {
            -10i32
        },
        OpCode::Branchind => if meta == TypeMetatype::Ptr || is_aggregate_meta(meta) {
            -5i32
        } else {
            1i32
        },
        OpCode::IntEqual | OpCode::IntNotequal => if is_aggregate_meta(meta) {
            -1i32
        } else {
            1i32
        },
        OpCode::IntSless | OpCode::IntSlessequal | OpCode::IntScarry | OpCode::IntSborrow => if is_aggregate_meta(meta) {
            -5i32
        } else if meta == TypeMetatype::Ptr || meta == TypeMetatype::Unknown || meta == TypeMetatype::Uint || meta == TypeMetatype::Bool {
            -1i32
        } else {
            5i32
        },
        OpCode::IntLess | OpCode::IntLessequal | OpCode::IntCarry => if is_aggregate_meta(meta) {
            -5i32
        } else if meta == TypeMetatype::Ptr || meta == TypeMetatype::Unknown || meta == TypeMetatype::Uint {
            5i32
        } else if meta == TypeMetatype::Int {
            -5i32
        } else {
            0i32
        },
        OpCode::IntZext => if meta == TypeMetatype::Uint {
            2i32
        } else if meta == TypeMetatype::Int || meta == TypeMetatype::Bool {
            1i32
        } else if meta == TypeMetatype::Unknown {
            0i32
        } else {
            -5i32
        },
        OpCode::IntSext => if meta == TypeMetatype::Int {
            2i32
        } else if meta == TypeMetatype::Uint || meta == TypeMetatype::Bool {
            1i32
        } else if meta == TypeMetatype::Unknown {
            0i32
        } else {
            -5i32
        },
        OpCode::Int2comp => if is_aggregate_meta(meta) {
            -5i32
        } else if meta == TypeMetatype::Ptr || meta == TypeMetatype::Unknown || meta == TypeMetatype::Bool {
            -1i32
        } else if meta == TypeMetatype::Int {
            5i32
        } else {
            0i32
        },
        OpCode::IntNegate | OpCode::IntXor | OpCode::IntAnd | OpCode::IntOr | OpCode::Popcount | OpCode::Lzcount => if is_aggregate_meta(meta) {
            -5i32
        } else if meta == TypeMetatype::Ptr || meta == TypeMetatype::Bool {
            -1i32
        } else if meta == TypeMetatype::Uint || meta == TypeMetatype::Unknown {
            2i32
        } else {
            0i32
        },
        OpCode::IntLeft | OpCode::IntRight => if inslot == 0 {
            if is_aggregate_meta(meta) {
                -5i32
            } else if meta == TypeMetatype::Ptr || meta == TypeMetatype::Bool {
                -1i32
            } else if meta == TypeMetatype::Uint || meta == TypeMetatype::Unknown {
                2i32
            } else {
                0i32
            }
        } else {
            if is_aggregate_meta(meta) || meta == TypeMetatype::Ptr {
                -5i32
            } else {
                1i32
            }
        },
        OpCode::IntSright => if inslot == 0 {
            if is_aggregate_meta(meta) {
                -5i32
            } else if meta == TypeMetatype::Ptr || meta == TypeMetatype::Bool || meta == TypeMetatype::Uint || meta == TypeMetatype::Unknown {
                -1i32
            } else {
                2i32
            }
        } else {
            if is_aggregate_meta(meta) || meta == TypeMetatype::Ptr {
                -5i32
            } else {
                1i32
            }
        },
        OpCode::IntMult => if is_aggregate_meta(meta) {
            -10i32
        } else if meta == TypeMetatype::Ptr || meta == TypeMetatype::Bool {
            -2i32
        } else {
            5i32
        },
        OpCode::IntDiv | OpCode::IntRem => if is_aggregate_meta(meta) {
            -10i32
        } else if meta == TypeMetatype::Ptr || meta == TypeMetatype::Bool {
            -2i32
        } else if meta == TypeMetatype::Uint || meta == TypeMetatype::Unknown {
            5i32
        } else {
            0i32
        },
        OpCode::IntSdiv | OpCode::IntSrem => if is_aggregate_meta(meta) {
            -10i32
        } else if meta == TypeMetatype::Ptr || meta == TypeMetatype::Bool {
            -2i32
        } else if meta == TypeMetatype::Int {
            5i32
        } else {
            0i32
        },
        OpCode::BoolNegate | OpCode::BoolAnd | OpCode::BoolXor | OpCode::BoolOr => if meta == TypeMetatype::Bool {
            10i32
        } else if meta == TypeMetatype::Int || meta == TypeMetatype::Uint || meta == TypeMetatype::Unknown {
            -1i32
        } else {
            -10i32
        },
        OpCode::FloatEqual | OpCode::FloatNotequal | OpCode::FloatLess | OpCode::FloatLessequal | OpCode::FloatNan | OpCode::FloatAdd | OpCode::FloatDiv | OpCode::FloatMult | OpCode::FloatSub | OpCode::FloatNeg | OpCode::FloatAbs | OpCode::FloatSqrt | OpCode::FloatFloat2float | OpCode::FloatTrunc | OpCode::FloatCeil | OpCode::FloatFloor | OpCode::FloatRound => if meta == TypeMetatype::Float {
            10i32
        } else {
            -10i32
        },
        OpCode::FloatInt2float => if is_aggregate_meta(meta) {
            -10i32
        } else if meta == TypeMetatype::Ptr {
            -5i32
        } else if meta == TypeMetatype::Int {
            5i32
        } else {
            0i32
        },
        OpCode::Piece => if is_aggregate_meta(meta) {
            -5i32
        } else {
            0i32
        },
        OpCode::Segmentop => if inslot == 2 {
            if meta == TypeMetatype::Ptr {
                5i32
            } else if is_aggregate_meta(meta) {
                -5i32
            } else {
                -1i32
            }
        } else {
            if is_aggregate_meta(meta) || meta == TypeMetatype::Ptr {
                -2i32
            } else {
                0i32
            }
        },
        _ => -10i32,
    }
}

/// How well a value of a class fits the operation that writes it, where only the operation, the class and the size count.
pub open spec fn fit_of_write(code: OpCode, meta: TypeMetatype, fit_size: i32) -> i32 {
    match code {
        OpCode::IntEqual | OpCode::IntNotequal | OpCode::IntSless | OpCode::IntSlessequal | OpCode::IntScarry | OpCode::IntSborrow | OpCode::IntLess | OpCode::IntLessequal | OpCode::IntCarry | OpCode::BoolNegate | OpCode::BoolAnd | OpCode::BoolXor | OpCode::BoolOr | OpCode::FloatEqual | OpCode::FloatNotequal | OpCode::FloatLess | OpCode::FloatLessequal | OpCode::FloatNan => if meta == TypeMetatype::Bool {
            10i32
        } else if fit_size == 1 {
            1i32
        } else {
            -10i32
        },
        OpCode::Int2comp => if aggregate(meta) {
            -5i32
        } else if meta == TypeMetatype::Ptr || meta == TypeMetatype::Unknown || meta == TypeMetatype::Bool {
            -1i32
        } else if meta == TypeMetatype::Int {
            5i32
        } else {
            0i32
        },
        OpCode::IntNegate | OpCode::IntXor | OpCode::IntAnd | OpCode::IntOr | OpCode::Popcount | OpCode::Lzcount => if aggregate(meta) {
            -5i32
        } else if meta == TypeMetatype::Ptr || meta == TypeMetatype::Bool {
            -1i32
        } else if meta == TypeMetatype::Uint || meta == TypeMetatype::Unknown {
            2i32
        } else {
            0i32
        },
        OpCode::IntLeft | OpCode::IntRight => if aggregate(meta) {
            -5i32
        } else if meta == TypeMetatype::Ptr || meta == TypeMetatype::Bool {
            -1i32
        } else if meta == TypeMetatype::Uint || meta == TypeMetatype::Unknown {
            2i32
        } else {
            0i32
        },
        OpCode::IntSright => if aggregate(meta) {
            -5i32
        } else if meta == TypeMetatype::Ptr || meta == TypeMetatype::Bool || meta == TypeMetatype::Uint || meta == TypeMetatype::Unknown {
            -1i32
        } else {
            2i32
        },
        OpCode::IntMult => if aggregate(meta) {
            -10i32
        } else if meta == TypeMetatype::Ptr || meta == TypeMetatype::Bool {
            -2i32
        } else {
            5i32
        },
        OpCode::IntDiv | OpCode::IntRem => if aggregate(meta) {
            -10i32
        } else if meta == TypeMetatype::Ptr || meta == TypeMetatype::Bool {
            -2i32
        } else if meta == TypeMetatype::Uint || meta == TypeMetatype::Unknown {
            5i32
        } else {
            0i32
        },
        OpCode::IntSdiv | OpCode::IntSrem => if aggregate(meta) {
            -10i32
        } else if meta == TypeMetatype::Ptr || meta == TypeMetatype::Bool {
            -2i32
        } else if meta == TypeMetatype::Int {
            5i32
        } else {
            0i32
        },
        OpCode::FloatAdd | OpCode::FloatDiv | OpCode::FloatMult | OpCode::FloatSub | OpCode::FloatNeg | OpCode::FloatAbs | OpCode::FloatSqrt | OpCode::FloatFloat2float | OpCode::FloatCeil | OpCode::FloatFloor | OpCode::FloatRound | OpCode::FloatInt2float => if meta == TypeMetatype::Float {
            10i32
        } else {
            -10i32
        },
        OpCode::FloatTrunc => if meta == TypeMetatype::Int || meta == TypeMetatype::Uint {
            2i32
        } else {
            -2i32
        },
        OpCode::Piece => if meta == TypeMetatype::Float || meta == TypeMetatype::Bool {
            -5i32
        } else if meta == TypeMetatype::Code || meta == TypeMetatype::Ptr {
            -2i32
        } else {
            0i32
        },
        _ => -10i32,
    }
}

pub fn score_write(code: OpCode, meta: TypeMetatype, fit_size: i32) -> (res: i32)
    ensures
        res == fit_of_write(code, meta, fit_size),
        res == crate::laws::fitting::write_scores(code, fit_size).of(meta),
{
    match code {
        OpCode::IntEqual | OpCode::IntNotequal | OpCode::IntSless | OpCode::IntSlessequal | OpCode::IntScarry | OpCode::IntSborrow | OpCode::IntLess | OpCode::IntLessequal | OpCode::IntCarry | OpCode::BoolNegate | OpCode::BoolAnd | OpCode::BoolXor | OpCode::BoolOr | OpCode::FloatEqual | OpCode::FloatNotequal | OpCode::FloatLess | OpCode::FloatLessequal | OpCode::FloatNan => if meta == TypeMetatype::Bool {
            10i32
        } else if fit_size == 1 {
            1i32
        } else {
            -10i32
        },
        OpCode::Int2comp => if is_aggregate_meta(meta) {
            -5i32
        } else if meta == TypeMetatype::Ptr || meta == TypeMetatype::Unknown || meta == TypeMetatype::Bool {
            -1i32
        } else if meta == TypeMetatype::Int {
            5i32
        } else {
            0i32
        },
        OpCode::IntNegate | OpCode::IntXor | OpCode::IntAnd | OpCode::IntOr | OpCode::Popcount | OpCode::Lzcount => if is_aggregate_meta(meta) {
            -5i32
        } else if meta == TypeMetatype::Ptr || meta == TypeMetatype::Bool {
            -1i32
        } else if meta == TypeMetatype::Uint || meta == TypeMetatype::Unknown {
            2i32
        } else {
            0i32
        },
        OpCode::IntLeft | OpCode::IntRight => if is_aggregate_meta(meta) {
            -5i32
        } else if meta == TypeMetatype::Ptr || meta == TypeMetatype::Bool {
            -1i32
        } else if meta == TypeMetatype::Uint || meta == TypeMetatype::Unknown {
            2i32
        } else {
            0i32
        },
        OpCode::IntSright => if is_aggregate_meta(meta) {
            -5i32
        } else if meta == TypeMetatype::Ptr || meta == TypeMetatype::Bool || meta == TypeMetatype::Uint || meta == TypeMetatype::Unknown {
            -1i32
        } else {
            2i32
        },
        OpCode::IntMult => if is_aggregate_meta(meta) {
            -10i32
        } else if meta == TypeMetatype::Ptr || meta == TypeMetatype::Bool {
            -2i32
        } else {
            5i32
        },
        OpCode::IntDiv | OpCode::IntRem => if is_aggregate_meta(meta) {
            -10i32
        } else if meta == TypeMetatype::Ptr || meta == TypeMetatype::Bool {
            -2i32
        } else if meta == TypeMetatype::Uint || meta == TypeMetatype::Unknown {
            5i32
        } else {
            0i32
        },
        OpCode::IntSdiv | OpCode::IntSrem => if is_aggregate_meta(meta) {
            -10i32
        } else if meta == TypeMetatype::Ptr || meta == TypeMetatype::Bool {
            -2i32
        } else if meta == TypeMetatype::Int {
            5i32
        } else {
            0i32
        },
        OpCode::FloatAdd | OpCode::FloatDiv | OpCode::FloatMult | OpCode::FloatSub | OpCode::FloatNeg | OpCode::FloatAbs | OpCode::FloatSqrt | OpCode::FloatFloat2float | OpCode::FloatCeil | OpCode::FloatFloor | OpCode::FloatRound | OpCode::FloatInt2float => if meta == TypeMetatype::Float {
            10i32
        } else {
            -10i32
        },
        OpCode::FloatTrunc => if meta == TypeMetatype::Int || meta == TypeMetatype::Uint {
            2i32
        } else {
            -2i32
        },
        OpCode::Piece => if meta == TypeMetatype::Float || meta == TypeMetatype::Bool {
            -5i32
        } else if meta == TypeMetatype::Code || meta == TypeMetatype::Ptr {
            -2i32
        } else {
            0i32
        },
        _ => -10i32,
    }
}

} // verus!

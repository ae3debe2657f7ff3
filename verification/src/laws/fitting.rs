//! How data-types of a class score where values are read and written, and which field of a union
//! is chosen for it.
use vstd::prelude::*;
use crate::architecture::Architecture;
use crate::error::{Error, Result};
use crate::funcdata::Funcdata;
use crate::ids::{OpId, TypeId};
use crate::opcodes::OpCode;
use crate::types::{Datatype, TypeFactory, TypeMetatype};
use crate::unionresolve::judge::{Trial, Verdict};
use crate::unionresolve::score::{ScoreUnionFields, Scoring};
use crate::unionresolve::ResolvedUnion;

verus! {

/// How the classes of data-types score.
pub ghost struct Scores {
    pub signed: i32,
    pub unsigned: i32,
    pub unknown: i32,
    pub ptr: i32,
    pub boolean: i32,
    pub float: i32,
    pub code: i32,
    /// Arrays, structures and unions.
    pub compound: i32,
    pub other: i32,
}

impl Scores {
    pub open spec fn of(self, meta: TypeMetatype) -> i32 {
        match meta {
            TypeMetatype::Int => self.signed,
            TypeMetatype::Uint => self.unsigned,
            TypeMetatype::Unknown => self.unknown,
            TypeMetatype::Ptr => self.ptr,
            TypeMetatype::Bool => self.boolean,
            TypeMetatype::Float => self.float,
            TypeMetatype::Code => self.code,
            TypeMetatype::Array | TypeMetatype::Struct | TypeMetatype::Union => self.compound,
            _ => self.other,
        }
    }

    /// All classes score alike.
    pub open spec fn all(score: i32) -> Scores {
        Scores {
            signed: score,
            unsigned: score,
            unknown: score,
            ptr: score,
            boolean: score,
            float: score,
            code: score,
            compound: score,
            other: score,
        }
    }

    /// The scores, with another one for all that is no plain integer.
    pub open spec fn but_no_integers(self, score: i32) -> Scores {
        Scores { float: score, code: score, compound: score, ..self }
    }
}

/// How values of the classes score where an operation reads them through a slot and nothing but
/// the operation, the slot and the class counts.
pub open spec fn read_scores(code: OpCode, slot: i32) -> Scores {
    let shifted = Scores { unsigned: 2, unknown: 2, ptr: -1i32, boolean: -1i32, ..Scores::all(0) }.but_no_integers(-5i32);
    let amount = Scores { ptr: -5i32, ..Scores::all(1) }.but_no_integers(-5i32);
    match code {
        OpCode::Cbranch => Scores { boolean: 10, ..Scores::all(-10i32) },
        OpCode::Branchind => amount,
        OpCode::IntEqual | OpCode::IntNotequal => Scores::all(1).but_no_integers(-1i32),
        OpCode::IntSless | OpCode::IntSlessequal | OpCode::IntScarry | OpCode::IntSborrow => Scores {
            signed: 5,
            unsigned: -1i32,
            unknown: -1i32,
            ptr: -1i32,
            boolean: -1i32,
            float: -5i32,
            code: -5i32,
            compound: -5i32,
            other: 5,
        },
        OpCode::IntLess | OpCode::IntLessequal | OpCode::IntCarry => Scores {
            signed: -5i32,
            unsigned: 5,
            unknown: 5,
            ptr: 5,
            boolean: 0,
            float: -5i32,
            code: -5i32,
            compound: -5i32,
            other: 0,
        },
        OpCode::IntZext => Scores { unsigned: 2, signed: 1, boolean: 1, unknown: 0, ..Scores::all(-5i32) },
        OpCode::IntSext => Scores { signed: 2, unsigned: 1, boolean: 1, unknown: 0, ..Scores::all(-5i32) },
        OpCode::Int2comp => Scores {
            signed: 5,
            unknown: -1i32,
            ptr: -1i32,
            boolean: -1i32,
            ..Scores::all(0)
        }.but_no_integers(-5i32),
        OpCode::IntNegate | OpCode::IntXor | OpCode::IntAnd | OpCode::IntOr | OpCode::Popcount | OpCode::Lzcount => shifted,
        OpCode::IntLeft | OpCode::IntRight => if slot == 0 {
            shifted
        } else {
            amount
        },
        OpCode::IntSright => if slot == 0 {
            Scores { signed: 2, other: 2, ..Scores::all(-1i32) }.but_no_integers(-5i32)
        } else {
            amount
        },
        OpCode::IntMult => Scores { ptr: -2i32, boolean: -2i32, ..Scores::all(5) }.but_no_integers(-10i32),
        OpCode::IntDiv | OpCode::IntRem => Scores {
            unsigned: 5,
            unknown: 5,
            ptr: -2i32,
            boolean: -2i32,
            ..Scores::all(0)
        }.but_no_integers(-10i32),
        OpCode::IntSdiv | OpCode::IntSrem => Scores {
            signed: 5,
            ptr: -2i32,
            boolean: -2i32,
            ..Scores::all(0)
        }.but_no_integers(-10i32),
        OpCode::BoolNegate | OpCode::BoolAnd | OpCode::BoolXor | OpCode::BoolOr => Scores {
            boolean: 10,
            signed: -1i32,
            unsigned: -1i32,
            unknown: -1i32,
            ..Scores::all(-10i32)
        },
        OpCode::FloatEqual | OpCode::FloatNotequal | OpCode::FloatLess | OpCode::FloatLessequal | OpCode::FloatNan
        | OpCode::FloatAdd | OpCode::FloatDiv | OpCode::FloatMult | OpCode::FloatSub | OpCode::FloatNeg | OpCode::FloatAbs
        | OpCode::FloatSqrt | OpCode::FloatFloat2float | OpCode::FloatTrunc | OpCode::FloatCeil | OpCode::FloatFloor
        | OpCode::FloatRound => Scores { float: 10, ..Scores::all(-10i32) },
        OpCode::FloatInt2float => Scores { signed: 5, ptr: -5i32, ..Scores::all(0) }.but_no_integers(-10i32),
        OpCode::Piece => Scores::all(0).but_no_integers(-5i32),
        OpCode::Segmentop => if slot == 2 {
            Scores { ptr: 5, ..Scores::all(-1i32) }.but_no_integers(-5i32)
        } else {
            Scores { ptr: -2i32, ..Scores::all(0) }.but_no_integers(-2i32)
        },
        _ => Scores::all(-10i32),
    }
}

/// How values of the classes and of a size score where an operation writes them and nothing but
/// the operation, the class and the size counts.
pub open spec fn write_scores(code: OpCode, size: i32) -> Scores {
    let gathered = Scores { unsigned: 2, unknown: 2, ptr: -1i32, boolean: -1i32, ..Scores::all(0) }.but_no_integers(-5i32);
    match code {
        OpCode::IntEqual | OpCode::IntNotequal | OpCode::IntSless | OpCode::IntSlessequal | OpCode::IntScarry
        | OpCode::IntSborrow | OpCode::IntLess | OpCode::IntLessequal | OpCode::IntCarry | OpCode::BoolNegate
        | OpCode::BoolAnd | OpCode::BoolXor | OpCode::BoolOr | OpCode::FloatEqual | OpCode::FloatNotequal | OpCode::FloatLess
        | OpCode::FloatLessequal | OpCode::FloatNan => Scores {
            boolean: 10,
            ..Scores::all(
                if size == 1 {
                    1
                } else {
                    -10i32
                },
            )
        },
        OpCode::Int2comp => Scores {
            signed: 5,
            unknown: -1i32,
            ptr: -1i32,
            boolean: -1i32,
            ..Scores::all(0)
        }.but_no_integers(-5i32),
        OpCode::IntNegate | OpCode::IntXor | OpCode::IntAnd | OpCode::IntOr | OpCode::Popcount | OpCode::Lzcount
        | OpCode::IntLeft | OpCode::IntRight => gathered,
        OpCode::IntSright => Scores { signed: 2, other: 2, ..Scores::all(-1i32) }.but_no_integers(-5i32),
        OpCode::IntMult => Scores { ptr: -2i32, boolean: -2i32, ..Scores::all(5) }.but_no_integers(-10i32),
        OpCode::IntDiv | OpCode::IntRem => Scores {
            unsigned: 5,
            unknown: 5,
            ptr: -2i32,
            boolean: -2i32,
            ..Scores::all(0)
        }.but_no_integers(-10i32),
        OpCode::IntSdiv | OpCode::IntSrem => Scores {
            signed: 5,
            ptr: -2i32,
            boolean: -2i32,
            ..Scores::all(0)
        }.but_no_integers(-10i32),
        OpCode::FloatAdd | OpCode::FloatDiv | OpCode::FloatMult | OpCode::FloatSub | OpCode::FloatNeg | OpCode::FloatAbs
        | OpCode::FloatSqrt | OpCode::FloatFloat2float | OpCode::FloatCeil | OpCode::FloatFloor | OpCode::FloatRound
        | OpCode::FloatInt2float => Scores { float: 10, ..Scores::all(-10i32) },
        OpCode::FloatTrunc => Scores { signed: 2, unsigned: 2, ..Scores::all(-2i32) },
        OpCode::Piece => Scores { float: -5i32, boolean: -5i32, code: -2i32, ptr: -2i32, ..Scores::all(0) },
        _ => Scores::all(-10i32),
    }
}

/// A value that a signed comparison, or a signed overflow test, reads is a signed integer rather
/// than anything else.
pub proof fn signed_comparison_wants_signed(code: OpCode, slot: i32)
    requires
        code is IntSless || code is IntSlessequal || code is IntScarry || code is IntSborrow,
    ensures
        crate::unionresolve::tables::fit_of_read(code, slot, TypeMetatype::Int) == 5,
        crate::unionresolve::tables::fit_of_read(code, slot, TypeMetatype::Uint) == -1,
        crate::unionresolve::tables::fit_of_read(code, slot, TypeMetatype::Unknown) == -1,
        crate::unionresolve::tables::fit_of_read(code, slot, TypeMetatype::Ptr) == -1,
        crate::unionresolve::tables::fit_of_read(code, slot, TypeMetatype::Bool) == -1,
        crate::unionresolve::tables::fit_of_read(code, slot, TypeMetatype::Float) == -5,
        crate::unionresolve::tables::fit_of_read(code, slot, TypeMetatype::Array) == -5,
        crate::unionresolve::tables::fit_of_read(code, slot, TypeMetatype::Struct) == -5,
        crate::unionresolve::tables::fit_of_read(code, slot, TypeMetatype::Union) == -5,
        crate::unionresolve::tables::fit_of_read(code, slot, TypeMetatype::Code) == -5,
{
}

/// What tells signed integers from unsigned ones: who reads them as signed prefers the former, who
/// reads them as unsigned the latter.
pub proof fn signs_are_told_apart(code: OpCode, slot: i32)
    ensures
        ({
            let as_signed = crate::unionresolve::tables::fit_of_read(code, slot, TypeMetatype::Int);
            let as_unsigned = crate::unionresolve::tables::fit_of_read(code, slot, TypeMetatype::Uint);
            let signed = code is IntSless || code is IntSlessequal || code is IntScarry || code is IntSborrow || code
                is IntSext || code is Int2comp || code is IntSdiv || code is IntSrem || code is FloatInt2float || (code
                is IntSright && slot == 0);
            let unsigned = code is IntLess || code is IntLessequal || code is IntCarry || code is IntZext || code
                is IntNegate || code is IntXor || code is IntAnd || code is IntOr || code is Popcount || code is Lzcount
                || code is IntDiv || code is IntRem || ((code is IntLeft || code is IntRight) && slot == 0);
            &&& signed <==> as_signed > as_unsigned
            &&& unsigned <==> as_signed < as_unsigned
        }),
{
}

/// Booleans and floating-point numbers are what operations on them read and write before all
/// else.
pub proof fn kinds_are_told_apart(code: OpCode, slot: i32, size: i32, meta: TypeMetatype)
    ensures
        ({
            let truth = code is Cbranch || code is BoolNegate || code is BoolAnd || code is BoolXor || code is BoolOr;
            truth && !(meta is Bool) ==> crate::unionresolve::tables::fit_of_read(code, slot, meta)
                < crate::unionresolve::tables::fit_of_read(code, slot, TypeMetatype::Bool)
        }),
        ({
            let number = code is FloatEqual || code is FloatNotequal || code is FloatLess || code is FloatLessequal || code
                is FloatNan || code is FloatAdd || code is FloatDiv || code is FloatMult || code is FloatSub || code
                is FloatNeg || code is FloatAbs || code is FloatSqrt || code is FloatFloat2float || code is FloatTrunc
                || code is FloatCeil || code is FloatFloor || code is FloatRound;
            number && !(meta is Float) ==> crate::unionresolve::tables::fit_of_read(code, slot, meta)
                < crate::unionresolve::tables::fit_of_read(code, slot, TypeMetatype::Float)
        }),
        ({
            let truth = code is IntEqual || code is IntNotequal || code is IntSless || code is IntSlessequal || code
                is IntScarry || code is IntSborrow || code is IntLess || code is IntLessequal || code is IntCarry || code
                is BoolNegate || code is BoolAnd || code is BoolXor || code is BoolOr || code is FloatEqual || code
                is FloatNotequal || code is FloatLess || code is FloatLessequal || code is FloatNan;
            truth && !(meta is Bool) ==> crate::unionresolve::tables::fit_of_write(code, meta, size)
                < crate::unionresolve::tables::fit_of_write(code, TypeMetatype::Bool, size)
        }),
        ({
            let number = code is FloatAdd || code is FloatDiv || code is FloatMult || code is FloatSub || code is FloatNeg
                || code is FloatAbs || code is FloatSqrt || code is FloatFloat2float || code is FloatCeil || code
                is FloatFloor || code is FloatRound || code is FloatInt2float;
            number && !(meta is Float) ==> crate::unionresolve::tables::fit_of_write(code, meta, size)
                < crate::unionresolve::tables::fit_of_write(code, TypeMetatype::Float, size)
        }),
{
}

/// An operation for which nothing but itself, the slot and the class of a value counts where it
/// reads the value.
pub open spec fn only_class_counts(code: OpCode) -> bool {
    match code {
        OpCode::Copy | OpCode::Multiequal | OpCode::Indirect | OpCode::Load | OpCode::Store | OpCode::Call
        | OpCode::Callother | OpCode::Callind | OpCode::Return | OpCode::IntAdd | OpCode::IntSub | OpCode::Ptrsub
        | OpCode::Subpiece | OpCode::Ptradd => false,
        _ => true,
    }
}

/// How a data-type scores for a value that such an operation reads: by its class if it has the
/// size of the value, and low if it has not.
pub open spec fn read_score(tp: TypeId, op: OpId, slot: i32, data: Funcdata, glb: Architecture) -> i32 {
    let vn = data.operation(op).inrefs@[slot as int];
    if glb.types.dt(tp).size == data.value(vn).size {
        read_scores(data.operation(op).opcode, slot).of(glb.types.dt(tp).metatype)
    } else {
        -10i32
    }
}

/// A union as a whole is held back a little.
pub open spec fn whole_score(tp: TypeId, op: OpId, slot: i32, data: Funcdata, glb: Architecture) -> int {
    read_score(tp, op, slot, data, glb) - 1
}

/// The trials that are due each stand for another field, in the order of the fields, and are all
/// on one operation.
spec fn due(current: Seq<Trial>, op: OpId, slot: i32, data: Funcdata) -> bool {
    &&& forall|t: int| #![trigger current[t]]
        0 <= t < current.len() ==> current[t] == Trial::down(
            op,
            slot,
            current[t].fit_type,
            current[t].score_index,
            0,
            data,
        )
    &&& forall|t: int, u: int|
        #![trigger current[t], current[u]]
        0 <= t < u < current.len() ==> current[t].score_index < current[u].score_index
}

/// The trial for a field is due, from one of the trials on.
spec fn is_due(current: Seq<Trial>, j: int, i: int) -> bool {
    exists|t: int| i <= t < current.len() && (#[trigger] current[t]).score_index == j
}

/// Every field starts with nothing, and is to be tried if it has the size of the value; else it
/// starts low.
spec fn taken_up(s: Scoring, op: OpId, slot: i32, data: Funcdata, glb: Architecture) -> bool {
    let size = data.value(data.operation(op).inrefs@[slot as int]).size;
    &&& s.scores.len() == s.fields.len()
    &&& due(s.current, op, slot, data)
    &&& s.next.len() == 0
    &&& s.current.len() <= s.scores.len()
    &&& forall|t: int| #![trigger s.current[t]]
        0 <= t < s.current.len() ==> 0 <= s.current[t].score_index < s.scores.len()
            && s.fields[s.current[t].score_index as int] == Some(s.current[t].fit_type)
    &&& forall|j: int| #![trigger s.fields[j]]
        0 <= j < s.fields.len() ==> {
            &&& s.fields[j] is Some
            &&& is_due(s.current, j, 0) == (glb.types.dt(s.fields[j]->0).size == size)
            &&& s.scores[j] == (if j == 0 {
                -1int
            } else {
                0
            }) - (if glb.types.dt(s.fields[j]->0).size == size {
                0int
            } else {
                10
            })
        }
}

proof fn entering_takes_up(s: Scoring, ct: TypeId, op: OpId, slot: i32, start: i32, data: Funcdata, glb: Architecture)
    requires
        slot >= 0,
        taken_up(s, op, slot, data, glb),
        s.scores.len() < 0x1000,
        start == (if s.scores.len() == 0 {
            -1int
        } else {
            0
        }),
    ensures
        taken_up(crate::unionresolve::pick::entered(s, ct, op, slot, 0, start, data, glb.types), op, slot, data, glb),
{
    let after = crate::unionresolve::pick::entered(s, ct, op, slot, 0, start, data, glb.types);
    let size = data.value(data.operation(op).inrefs@[slot as int]).size;
    let n = s.fields.len() as int;
    assert forall|t: int| #![trigger after.current[t]] 0 <= t < after.current.len() implies 0
        <= after.current[t].score_index < after.scores.len() && after.fields[after.current[t].score_index as int] == Some(
        after.current[t].fit_type,
    ) && after.current[t] == Trial::down(
        op,
        slot,
        after.current[t].fit_type,
        after.current[t].score_index,
        0,
        data,
    ) by {
        if t < s.current.len() {
            assert(after.current[t] == s.current[t]);
        }
    }
    assert forall|t: int, u: int|
        #![trigger after.current[t], after.current[u]]
        0 <= t < u < after.current.len() implies after.current[t].score_index < after.current[u].score_index by {
        assert(after.current[t] == s.current[t]);
        if u < s.current.len() {
            assert(after.current[u] == s.current[u]);
        }
    }
    assert forall|j: int| #![trigger after.fields[j]] 0 <= j < after.fields.len() implies is_due(after.current, j, 0) == (
    glb.types.dt(after.fields[j]->0).size == size) by {
        if j < n {
            assert(after.fields[j] == s.fields[j]);
            if is_due(s.current, j, 0) {
                let t = choose|t: int| 0 <= t < s.current.len() && (#[trigger] s.current[t]).score_index == j;
                assert(after.current[t] == s.current[t]);
            }
            if is_due(after.current, j, 0) {
                let t = choose|t: int| 0 <= t < after.current.len() && (#[trigger] after.current[t]).score_index == j;
                assert(t < s.current.len());
                assert(after.current[t] == s.current[t]);
            }
        } else if glb.types.dt(ct).size == size {
            assert(after.current[s.current.len() as int].score_index == j);
        } else if is_due(after.current, j, 0) {
            let t = choose|t: int| 0 <= t < after.current.len() && (#[trigger] after.current[t]).score_index == j;
            assert(s.current[t].score_index < n);
        }
    }
    assert forall|j: int| #![trigger after.fields[j]] 0 <= j < after.fields.len() implies after.fields[j] is Some
        && after.scores[j] == (if j == 0 {
        -1int
    } else {
        0
    }) - (if glb.types.dt(after.fields[j]->0).size == size {
        0int
    } else {
        10
    }) by {
        if j < n {
            assert(after.fields[j] == s.fields[j]);
            assert(after.scores[j] == s.scores[j]);
        }
    }
}

proof fn fields_taken_up(
    after: Scoring,
    after_glb: Architecture,
    s: Scoring,
    glb: Architecture,
    i: nat,
    parent: TypeId,
    op: OpId,
    slot: i32,
    data: Funcdata,
    res: Result<()>,
)
    requires
        crate::unionresolve::pick::takes_fields(after, after_glb, s, glb, i, parent, op, slot, data, res),
        glb.types.dt(parent).kind is Union,
        s.result.base_type == parent,
        slot >= 0,
        i <= glb.types.dt(parent).fields().len() < 0x400,
        s.scores.len() == i + 1,
        s.fields[0] == Some(parent),
        forall|k: int| 0 <= k < i ==> #[trigger] s.fields[k + 1] == Some(glb.types.dt(parent).fields()[k].tp),
        taken_up(s, op, slot, data, glb),
    ensures
        res == Ok::<(), Error>(()),
        after_glb == glb,
        after.result == s.result,
        after.scores.len() == glb.types.dt(parent).fields().len() + 1,
        after.fields[0] == Some(parent),
        forall|k: int| 0 <= k < glb.types.dt(parent).fields().len() ==> #[trigger] after.fields[k + 1] == Some(
            glb.types.dt(parent).fields()[k].tp,
        ),
        taken_up(after, op, slot, data, glb),
    decreases glb.types.dt(parent).fields().len() - i,
{
    let fields = glb.types.dt(parent).fields();
    if i < fields.len() {
        let next = crate::unionresolve::pick::entered(s, fields[i as int].tp, op, slot, 0, 0, data, glb.types);
        entering_takes_up(s, fields[i as int].tp, op, slot, 0, data, glb);
        assert(next.fields[0] == s.fields[0]);
        assert forall|k: int| 0 <= k < i + 1 implies #[trigger] next.fields[k + 1] == Some(fields[k].tp) by {
            if k < i {
                assert(next.fields[k + 1] == s.fields[k + 1]);
            }
        }
        fields_taken_up(after, after_glb, next, glb, i + 1, parent, op, slot, data, res);
    }
}

proof fn level_scores(
    after: Scoring,
    after_glb: Architecture,
    before: Scoring,
    glb: Architecture,
    i: nat,
    op: OpId,
    slot: i32,
    data: Funcdata,
    res: Result<()>,
)
    requires
        crate::unionresolve::score::runs_level(after, after_glb, before, glb, i, false, data, res),
        only_class_counts(data.operation(op).opcode),
        glb.roomy(9),
        due(before.current, op, slot, data),
        i <= before.current.len(),
        before.count + before.current.len() - i <= ScoreUnionFields::MAX_TRIALS,
        before.count >= 0,
        before.next.len() == 0,
        forall|t: int| #![trigger before.current[t]]
            0 <= t < before.current.len() ==> 0 <= before.current[t].score_index < before.scores.len(),
    ensures
        res == Ok::<(), Error>(()),
        after_glb == glb,
        after.next.len() == 0,
        after.fields == before.fields,
        after.result == before.result,
        after.scores.len() == before.scores.len(),
        forall|t: int| #![trigger before.current[t]]
            i <= t < before.current.len() ==> after.scores[before.current[t].score_index as int]
                == before.scores[before.current[t].score_index as int].wrapping_add(
                read_scores(data.operation(op).opcode, slot).of(glb.types.dt(before.current[t].fit_type).metatype),
            ),
        forall|j: int| #![trigger after.scores[j]]
            0 <= j < before.scores.len() && !is_due(before.current, j, i as int) ==> after.scores[j] == before.scores[j],
    decreases before.current.len() - i,
{
    if i < before.current.len() {
        let trial = before.current[i as int];
        let meta = glb.types.dt(trial.fit_type).metatype;
        let (mid, mid_glb, r) = choose|mid: Scoring, mid_glb: Architecture, r: Result<()>| #[trigger]
            crate::unionresolve::score::tries(
                mid,
                mid_glb,
                before.counted(),
                glb,
                before.current[i as int],
                false,
                data,
                r,
            ) && mid.current == before.current && match r {
                Ok(_) => crate::unionresolve::score::runs_level(after, after_glb, mid, mid_glb, i + 1, false, data, res),
                Err(e) => after == mid && after_glb == mid_glb && res == Err::<(), Error>(e),
            };
        let v = choose|v: Result<Verdict>| #[trigger]
            crate::unionresolve::score::judged(mid_glb, glb, trial, false, data, before.result.base_type, v) && match v {
                Ok(v) => {
                    &&& r == Ok::<(), Error>(())
                    &&& mid == before.counted().learned(v, op, trial.score_index, false, data, mid_glb.types)
                },
                Err(e) => mid == before.counted() && r == Err::<(), Error>(e),
            };
        let code = data.operation(op).opcode;
        table_agrees(code, slot, meta);
        assert(v == Ok::<Verdict, Error>(
            crate::unionresolve::judge::verdict(crate::unionresolve::tables::fit_of_read(code, slot, meta)),
        ));
        assert(mid == before.counted().scored(trial.score_index, read_scores(code, slot).of(meta)));
        level_scores(after, after_glb, mid, mid_glb, i + 1, op, slot, data, res);
        assert forall|t: int| #![trigger before.current[t]]
            i <= t < before.current.len() implies after.scores[before.current[t].score_index as int]
            == before.scores[before.current[t].score_index as int].wrapping_add(
            read_scores(code, slot).of(glb.types.dt(before.current[t].fit_type).metatype),
        ) by {
            let j = before.current[t].score_index as int;
            if t == i {
                if is_due(mid.current, j, i as int + 1) {
                    let u = choose|u: int| i + 1 <= u < mid.current.len() && (#[trigger] mid.current[u]).score_index == j;
                    assert(before.current[i as int].score_index < before.current[u].score_index);
                }
                assert(after.scores[j] == mid.scores[j]);
            } else {
                assert(before.current[i as int].score_index < before.current[t].score_index);
                assert(mid.current[t] == before.current[t]);
                assert(mid.scores[j] == before.scores[j]);
            }
        }
        assert forall|j: int| #![trigger after.scores[j]]
            0 <= j < before.scores.len() && !is_due(before.current, j, i as int) implies after.scores[j]
            == before.scores[j] by {
            assert(before.current[i as int].score_index != j);
            if is_due(mid.current, j, i as int + 1) {
                let u = choose|u: int| i + 1 <= u < mid.current.len() && (#[trigger] mid.current[u]).score_index == j;
                assert(before.current[u].score_index == j);
            }
            assert(mid.scores[j] == before.scores[j]);
        }
    }
}

proof fn table_agrees(code: OpCode, slot: i32, meta: TypeMetatype)
    ensures
        crate::unionresolve::tables::fit_of_read(code, slot, meta) == read_scores(code, slot).of(meta),
        -10 <= read_scores(code, slot).of(meta) <= 10,
{
}

/// A choice has fallen on the first of the fields of a union that score highest, or on the union
/// as a whole, as no field scores higher.
pub open spec fn is_best_field(s: Scoring, parent: TypeId, op: OpId, slot: i32, data: Funcdata, glb: Architecture) -> bool {
    let fields = glb.types.dt(parent).fields();
    let k = s.result.field_num;
    &&& -1 <= k < fields.len()
    &&& s.result.base_type == parent
    &&& if k < 0 {
        &&& s.result.resolve == parent
        &&& forall|j: int| 0 <= j < fields.len() ==> read_score((#[trigger] fields[j]).tp, op, slot, data, glb)
            <= whole_score(parent, op, slot, data, glb)
    } else {
        &&& s.result.resolve == fields[k as int].tp
        &&& read_score(fields[k as int].tp, op, slot, data, glb) > whole_score(parent, op, slot, data, glb)
        &&& forall|j: int| 0 <= j < fields.len() ==> read_score((#[trigger] fields[j]).tp, op, slot, data, glb) <= read_score(
            fields[k as int].tp,
            op,
            slot,
            data,
            glb,
        )
        &&& forall|j: int| 0 <= j < k ==> read_score((#[trigger] fields[j]).tp, op, slot, data, glb) < read_score(
            fields[k as int].tp,
            op,
            slot,
            data,
            glb,
        )
    }
}

/// The fields of a union that an operation reads for which only the class counts compete by their
/// scores: the first of the highest wins, and the union as a whole only if no field is better.
pub proof fn best_field_is_chosen(
    after: Architecture,
    glb: Architecture,
    parent: TypeId,
    op: OpId,
    slot: i32,
    data: Funcdata,
    res: Result<Scoring>,
)
    requires
        crate::unionresolve::pick::chooses(after, glb, parent, op, slot, data, res),
        glb.types.dt(parent).kind is Union,
        glb.types.dt(parent).fields().len() < 0x400,
        slot >= 0,
        only_class_counts(data.operation(op).opcode),
        glb.roomy(9),
    ensures
        after == glb,
        res is Ok,
        is_best_field(res->Ok_0, parent, op, slot, data, glb),
{
    let types = glb.types;
    let fields = types.dt(parent).fields();
    let code = data.operation(op).opcode;
    let result = ResolvedUnion::unresolved(parent, types);
    let start = crate::unionresolve::pick::blank(result);
    let first = crate::unionresolve::pick::opened(parent, op, slot, data, types);
    entering_takes_up(start, parent, op, slot, -1i32, data, glb);
    assert(crate::unionresolve::pick::start_of_whole(parent, op, data, types) == -1);
    let (mid, mid_glb, r) = choose|mid: Scoring, mid_glb: Architecture, r: Result<()>| #[trigger]
        crate::unionresolve::pick::takes_fields(mid, mid_glb, first, glb, 0, parent, op, slot, data, r) && match r {
            Ok(_) => crate::unionresolve::pick::concludes(after, mid, mid_glb, data, res),
            Err(e) => after == mid_glb && res == Err::<Scoring, Error>(e),
        };
    fields_taken_up(mid, mid_glb, first, glb, 0, parent, op, slot, data, r);
    let (end, rr) = choose|end: Scoring, rr: Result<()>| #[trigger]
        crate::unionresolve::score::runs(end, after, mid, mid_glb, data, rr) && match rr {
            Ok(_) => crate::unionresolve::pick::picks(end, res),
            Err(e) => res == Err::<Scoring, Error>(e),
        };
    let ready = Scoring { count: 0, ..mid };
    run_scores(end, after, ready, glb, op, slot, data, rr);
    let best = choose|best: int| #[trigger]
        crate::unionresolve::score::is_best(end.scores, best) && res == Ok::<Scoring, Error>(end.decided(best));
    assert forall|k: int| 0 <= k < fields.len() implies end.scores[k + 1] == read_score(
        (#[trigger] fields[k]).tp,
        op,
        slot,
        data,
        glb,
    ) by {
        assert(ready.fields[k + 1] == Some(fields[k].tp));
        table_agrees(code, slot, types.dt(fields[k].tp).metatype);
    }
    assert(end.scores[0] == whole_score(parent, op, slot, data, glb)) by {
        assert(ready.fields[0] == Some(parent));
        table_agrees(code, slot, types.dt(parent).metatype);
    }
    let k = best - 1;
    assert forall|j: int| 0 <= j < fields.len() implies read_score((#[trigger] fields[j]).tp, op, slot, data, glb)
        <= end.scores[best] && (j < k ==> read_score(fields[j].tp, op, slot, data, glb) < end.scores[best]) by {
        assert(end.scores[j + 1] <= end.scores[best]);
        if j < k {
            assert(end.scores[j + 1] < end.scores[best]);
        }
    }
    assert(end.fields == mid.fields);
    if k >= 0 {
        assert(end.scores[0] < end.scores[best]);
        assert(mid.fields[k + 1] == Some(fields[k].tp));
    }
}

proof fn run_scores(
    end: Scoring,
    after: Architecture,
    before: Scoring,
    glb: Architecture,
    op: OpId,
    slot: i32,
    data: Funcdata,
    res: Result<()>,
)
    requires
        crate::unionresolve::score::runs_passes(end, after, before, glb, 0, data, res),
        before.count == 0,
        taken_up(before, op, slot, data, glb),
        before.scores.len() <= 0x400,
        only_class_counts(data.operation(op).opcode),
        glb.roomy(9),
    ensures
        res == Ok::<(), Error>(()),
        after == glb,
        end.fields == before.fields,
        end.result == before.result,
        end.scores.len() == before.scores.len(),
        forall|j: int| #![trigger end.scores[j]]
            0 <= j < end.scores.len() ==> end.scores[j] == (if j == 0 {
                -1int
            } else {
                0
            }) + read_score(before.fields[j]->0, op, slot, data, glb),
{
    let code = data.operation(op).opcode;
    let size = data.value(data.operation(op).inrefs@[slot as int]).size;
    reveal_with_fuel(crate::unionresolve::score::runs_passes, 2);
    if before.current.len() > 0 {
        let (mid, mid_glb, r) = choose|mid: Scoring, mid_glb: Architecture, r: Result<()>| #[trigger]
            crate::unionresolve::score::runs_level(mid, mid_glb, before, glb, 0, false, data, r) && match r {
                Ok(_) => crate::unionresolve::score::runs_passes(end, after, mid.turned(), mid_glb, 1, data, res),
                Err(e) => end == mid && after == mid_glb && res == Err::<(), Error>(e),
            };
        level_scores(mid, mid_glb, before, glb, 0, op, slot, data, r);
        assert(end == mid.turned());
        assert forall|j: int| #![trigger end.scores[j]] 0 <= j < end.scores.len() implies end.scores[j] == (if j == 0 {
            -1int
        } else {
            0
        }) + read_score(before.fields[j]->0, op, slot, data, glb) by {
            assert(before.fields[j] is Some);
            assert(mid.scores[j] == end.scores[j]);
            if is_due(before.current, j, 0) {
                let t = choose|t: int| 0 <= t < before.current.len() && (#[trigger] before.current[t]).score_index == j;
                table_agrees(code, slot, glb.types.dt(before.current[t].fit_type).metatype);
            }
        }
    } else {
        assert forall|j: int| #![trigger end.scores[j]] 0 <= j < end.scores.len() implies end.scores[j] == (if j == 0 {
            -1int
        } else {
            0
        }) + read_score(before.fields[j]->0, op, slot, data, glb) by {
            assert(before.fields[j] is Some);
            assert(!is_due(before.current, j, 0));
        }
    }
}

/// Of a union that a signed comparison, or a signed overflow test, reads, the first field of the size of what is read that is a
/// signed integer is chosen, if no field before it could be one as well.
pub proof fn signed_field_is_chosen(
    after: Architecture,
    glb: Architecture,
    parent: TypeId,
    op: OpId,
    slot: i32,
    data: Funcdata,
    i: int,
    res: Result<Scoring>,
)
    requires
        crate::unionresolve::pick::chooses(after, glb, parent, op, slot, data, res),
        glb.types.dt(parent).kind is Union,
        glb.types.dt(parent).metatype is Union,
        glb.types.dt(parent).fields().len() < 0x400,
        slot >= 0,
        glb.roomy(9),
        ({
            let code = data.operation(op).opcode;
            code is IntSless || code is IntSlessequal || code is IntScarry || code is IntSborrow
        }),
        0 <= i < glb.types.dt(parent).fields().len(),
        ({
            let d = glb.types.dt(glb.types.dt(parent).fields()[i].tp);
            d.metatype is Int && d.size == data.value(data.operation(op).inrefs@[slot as int]).size
        }),
        forall|j: int| 0 <= j < i ==> {
            let d = glb.types.dt((#[trigger] glb.types.dt(parent).fields()[j]).tp);
            (d.metatype is Uint || d.metatype is Unknown || d.metatype is Ptr || d.metatype is Bool || d.metatype is Float || d.metatype is Code || d.metatype is Array || d.metatype is Struct || d.metatype is Union) || d.size != data.value(data.operation(op).inrefs@[slot as int]).size
        },
    ensures
        res matches Ok(s) && s.result.field_num == i && s.result.resolve == glb.types.dt(parent).fields()[i].tp,
{
    best_field_is_chosen(after, glb, parent, op, slot, data, res);
    let fields = glb.types.dt(parent).fields();
    assert(read_score(fields[i].tp, op, slot, data, glb) == read_scores(data.operation(op).opcode, slot).signed);
    let k = res->Ok_0.result.field_num as int;
    assert(whole_score(parent, op, slot, data, glb) < 0);
    if 0 <= k < i {
        let d = glb.types.dt(fields[k].tp);
        assert(read_score(fields[k].tp, op, slot, data, glb) < read_score(fields[i].tp, op, slot, data, glb));
    }
}

/// Of a union that an unsigned comparison, or a carry test, reads, the first field of the size of what is read that is a
/// unsigned integer is chosen, if no field before it could be one as well.
pub proof fn unsigned_field_is_chosen(
    after: Architecture,
    glb: Architecture,
    parent: TypeId,
    op: OpId,
    slot: i32,
    data: Funcdata,
    i: int,
    res: Result<Scoring>,
)
    requires
        crate::unionresolve::pick::chooses(after, glb, parent, op, slot, data, res),
        glb.types.dt(parent).kind is Union,
        glb.types.dt(parent).metatype is Union,
        glb.types.dt(parent).fields().len() < 0x400,
        slot >= 0,
        glb.roomy(9),
        ({
            let code = data.operation(op).opcode;
            code is IntLess || code is IntLessequal || code is IntCarry
        }),
        0 <= i < glb.types.dt(parent).fields().len(),
        ({
            let d = glb.types.dt(glb.types.dt(parent).fields()[i].tp);
            d.metatype is Uint && d.size == data.value(data.operation(op).inrefs@[slot as int]).size
        }),
        forall|j: int| 0 <= j < i ==> {
            let d = glb.types.dt((#[trigger] glb.types.dt(parent).fields()[j]).tp);
            (d.metatype is Int || d.metatype is Bool || d.metatype is Float || d.metatype is Code || d.metatype is Array || d.metatype is Struct || d.metatype is Union) || d.size != data.value(data.operation(op).inrefs@[slot as int]).size
        },
    ensures
        res matches Ok(s) && s.result.field_num == i && s.result.resolve == glb.types.dt(parent).fields()[i].tp,
{
    best_field_is_chosen(after, glb, parent, op, slot, data, res);
    let fields = glb.types.dt(parent).fields();
    assert(read_score(fields[i].tp, op, slot, data, glb) == read_scores(data.operation(op).opcode, slot).unsigned);
    let k = res->Ok_0.result.field_num as int;
    assert(whole_score(parent, op, slot, data, glb) < 0);
    if 0 <= k < i {
        let d = glb.types.dt(fields[k].tp);
        assert(read_score(fields[k].tp, op, slot, data, glb) < read_score(fields[i].tp, op, slot, data, glb));
    }
}

/// Of a union that a floating-point operation reads, the first field of the size of what is read that is a
/// floating-point number is chosen.
pub proof fn floating_field_is_chosen(
    after: Architecture,
    glb: Architecture,
    parent: TypeId,
    op: OpId,
    slot: i32,
    data: Funcdata,
    i: int,
    res: Result<Scoring>,
)
    requires
        crate::unionresolve::pick::chooses(after, glb, parent, op, slot, data, res),
        glb.types.dt(parent).kind is Union,
        glb.types.dt(parent).metatype is Union,
        glb.types.dt(parent).fields().len() < 0x400,
        slot >= 0,
        glb.roomy(9),
        ({
            let code = data.operation(op).opcode;
            code is FloatEqual || code is FloatNotequal || code is FloatLess || code is FloatLessequal || code is FloatNan || code is FloatAdd || code is FloatDiv || code is FloatMult || code is FloatSub || code is FloatNeg || code is FloatAbs || code is FloatSqrt || code is FloatFloat2float || code is FloatTrunc || code is FloatCeil || code is FloatFloor || code is FloatRound
        }),
        0 <= i < glb.types.dt(parent).fields().len(),
        ({
            let d = glb.types.dt(glb.types.dt(parent).fields()[i].tp);
            d.metatype is Float && d.size == data.value(data.operation(op).inrefs@[slot as int]).size
        }),
        forall|j: int| 0 <= j < i ==> {
            let d = glb.types.dt((#[trigger] glb.types.dt(parent).fields()[j]).tp);
            !(d.metatype is Float) || d.size != data.value(data.operation(op).inrefs@[slot as int]).size
        },
    ensures
        res matches Ok(s) && s.result.field_num == i && s.result.resolve == glb.types.dt(parent).fields()[i].tp,
{
    best_field_is_chosen(after, glb, parent, op, slot, data, res);
    let fields = glb.types.dt(parent).fields();
    assert(read_score(fields[i].tp, op, slot, data, glb) == read_scores(data.operation(op).opcode, slot).float);
    let k = res->Ok_0.result.field_num as int;
    assert(whole_score(parent, op, slot, data, glb) < 0);
    if 0 <= k < i {
        let d = glb.types.dt(fields[k].tp);
        assert(read_score(fields[k].tp, op, slot, data, glb) < read_score(fields[i].tp, op, slot, data, glb));
    }
}

/// Of a union that a conditional branch or a logical operation reads, the first field of the size of what is read that is a
/// boolean is chosen.
pub proof fn boolean_field_is_chosen(
    after: Architecture,
    glb: Architecture,
    parent: TypeId,
    op: OpId,
    slot: i32,
    data: Funcdata,
    i: int,
    res: Result<Scoring>,
)
    requires
        crate::unionresolve::pick::chooses(after, glb, parent, op, slot, data, res),
        glb.types.dt(parent).kind is Union,
        glb.types.dt(parent).metatype is Union,
        glb.types.dt(parent).fields().len() < 0x400,
        slot >= 0,
        glb.roomy(9),
        ({
            let code = data.operation(op).opcode;
            code is Cbranch || code is BoolNegate || code is BoolAnd || code is BoolXor || code is BoolOr
        }),
        0 <= i < glb.types.dt(parent).fields().len(),
        ({
            let d = glb.types.dt(glb.types.dt(parent).fields()[i].tp);
            d.metatype is Bool && d.size == data.value(data.operation(op).inrefs@[slot as int]).size
        }),
        forall|j: int| 0 <= j < i ==> {
            let d = glb.types.dt((#[trigger] glb.types.dt(parent).fields()[j]).tp);
            !(d.metatype is Bool) || d.size != data.value(data.operation(op).inrefs@[slot as int]).size
        },
    ensures
        res matches Ok(s) && s.result.field_num == i && s.result.resolve == glb.types.dt(parent).fields()[i].tp,
{
    best_field_is_chosen(after, glb, parent, op, slot, data, res);
    let fields = glb.types.dt(parent).fields();
    assert(read_score(fields[i].tp, op, slot, data, glb) == read_scores(data.operation(op).opcode, slot).boolean);
    let k = res->Ok_0.result.field_num as int;
    assert(whole_score(parent, op, slot, data, glb) < 0);
    if 0 <= k < i {
        let d = glb.types.dt(fields[k].tp);
        assert(read_score(fields[k].tp, op, slot, data, glb) < read_score(fields[i].tp, op, slot, data, glb));
    }
}

/// A value whose data-type is locked is best of that data-type: no other one fits better, and one
/// of another class fits worse.
pub proof fn locked_type_fits_itself_best(ct: TypeId, lock: TypeId, types: TypeFactory)
    requires
        types.sound(),
        types.has(ct),
        types.has(lock),
        !types.dt(lock).is_pointer(),
    ensures
        crate::unionresolve::fit::locked_fit(ct, lock, types) <= crate::unionresolve::fit::locked_fit(lock, lock, types),
        types.dt(ct).metatype != types.dt(lock).metatype ==> crate::unionresolve::fit::locked_fit(ct, lock, types) < 0
            < crate::unionresolve::fit::locked_fit(lock, lock, types),
        ct != lock ==> crate::unionresolve::fit::locked_fit(ct, lock, types) < crate::unionresolve::fit::locked_fit(
            lock,
            lock,
            types,
        ),
{
}

/// How data-types that are no pointers fit where another one is locked: well if they have its
/// class, very well if that has parts, and worse the less they have in common.
pub proof fn classes_that_fit(d: Datatype, l: Datatype)
    ensures
        ({
            let fit = crate::unionresolve::fit::classes_fit(d, l);
            let whole = d.metatype is Struct || d.metatype is Union || d.metatype is Array || d.metatype is Code;
            let signs = (d.metatype is Int && l.metatype is Uint) || (d.metatype is Uint && l.metatype is Int);
            &&& d.metatype == l.metatype && whole ==> fit == 10
            &&& d.metatype == l.metatype && !whole ==> fit == 3
            &&& signs && d.size == l.size ==> fit == -1
            &&& signs && d.size != l.size ==> fit == -3
            &&& d.metatype != l.metatype && !signs && d.size == l.size ==> fit == -5
            &&& d.metatype != l.metatype && !signs && d.size != l.size ==> fit == -7
        }),
{
}

/// What is read or written through a pointer that is tried: a data-type that fits exactly has the
/// size of what is read, and what is no pointer does not fit at all.
pub proof fn dereferenced_fits(
    after: Architecture,
    before: Architecture,
    fit_type: TypeId,
    max_length: i32,
    size: i32,
    score: i32,
    found: Option<TypeId>,
)
    requires
        before.types.has(fit_type),
        crate::unionresolve::fit::dereferences(
            after,
            before,
            fit_type,
            max_length,
            size,
            Ok::<(i32, Option<TypeId>), Error>((score, found)),
        ),
    ensures
        !before.types.dt(fit_type).is_pointer() <==> score == -10,
        score == 10 ==> found is Some && after == before && before.types.dt(found->0).size == size,
        found is None <==> score == -10 || score == -5,
        found is Some ==> score == 10 || score == -4,
        score == -4 ==> max_length != 0 && before.types.dt(before.types.dt(fit_type).pointer().ptrto->0).size >= 1,
{
}

/// Zero is a good constant for integers and pointers, and one byte that is zero or one for truth
/// values; what has parts or is unknown is no constant.
pub proof fn constants_that_fit(size: i32, val: u64, glb: Architecture)
    ensures
        crate::unionresolve::fit::constant_fit(TypeMetatype::Int, size, 0, glb) == 2,
        crate::unionresolve::fit::constant_fit(TypeMetatype::Uint, size, 0, glb) == 2,
        crate::unionresolve::fit::constant_fit(TypeMetatype::Ptr, size, 0, glb) == 2,
        (crate::unionresolve::fit::constant_fit(TypeMetatype::Bool, size, val, glb) == 2) == (size == 1 && val <= 1),
        crate::unionresolve::fit::constant_fit(TypeMetatype::Bool, size, val, glb) == 2
            || crate::unionresolve::fit::constant_fit(TypeMetatype::Bool, size, val, glb) == -2,
        crate::unionresolve::fit::constant_fit(TypeMetatype::Struct, size, val, glb) == -2,
        crate::unionresolve::fit::constant_fit(TypeMetatype::Union, size, val, glb) == -2,
        crate::unionresolve::fit::constant_fit(TypeMetatype::Code, size, val, glb) == -2,
        crate::unionresolve::fit::constant_fit(TypeMetatype::Unknown, size, val, glb) == -2,
        crate::unionresolve::fit::constant_fit(TypeMetatype::Array, size, val, glb) == 0,
        crate::unionresolve::fit::constant_fit(TypeMetatype::Int, size, val, glb)
            == crate::unionresolve::fit::constant_fit(TypeMetatype::Uint, size, val, glb),
        val != 0 ==> (crate::unionresolve::fit::constant_fit(TypeMetatype::Ptr, size, val, glb) == 2) == (
        crate::unionresolve::fit::constant_fit(TypeMetatype::Int, size, val, glb) == 1),
        val != 0 && (val < glb.manager.default_data_space->0.pointer_lower_bound || val
            > glb.manager.default_data_space->0.pointer_upper_bound) ==> crate::unionresolve::fit::constant_fit(
            TypeMetatype::Ptr,
            size,
            val,
            glb,
        ) == -2,
{
}

/// What a sum, a difference or a copy says of a value that it reads: integers go well with sums,
/// truth values and what has parts do not, and a copy hands on what it is given.
pub proof fn sums_and_copies_judge_what_they_read(
    after: Architecture,
    before: Architecture,
    trial: Trial,
    last: bool,
    data: Funcdata,
    base: TypeId,
    v: Verdict,
)
    requires
        crate::unionresolve::judge::judges_down(after, before, trial, last, data, base, Ok::<Verdict, Error>(v)),
    ensures
        ({
            let code = data.operation(trial.op->0).opcode;
            let meta = before.types.dt(trial.fit_type).metatype;
            let sum = code is IntAdd || code is IntSub || code is Ptrsub;
            &&& sum && (meta is Int || meta is Uint || meta is Unknown) ==> v.score == 1 && v.out == Some(
                (trial.fit_type, 0i32),
            ) && v.input is None && after == before
            &&& sum && meta is Bool ==> v.score == -3 && v.out is None && v.input is None
            &&& sum && (meta is Float || meta is Struct || meta is Union || meta is Array || meta is Code) ==> v.score == -5
                && v.out is None && v.input is None
            &&& code is Copy || code is Multiequal || code is Indirect ==> v.score == 0 && v.out == Some(
                (trial.fit_type, trial.max_length),
            ) && v.input is None && after == before
            &&& only_class_counts(code) ==> v.score == read_scores(code, trial.inslot).of(meta) && v.out is None
                && v.input is None && after == before
            &&& code is Ptradd && meta is Ptr && trial.inslot != 0 ==> v.score == -10
            &&& code is Ptradd && (meta is Int || meta is Uint || meta is Unknown || meta is Bool) ==> v.score == 1
        }),
{
    table_agrees(data.operation(trial.op->0).opcode, trial.inslot, before.types.dt(trial.fit_type).metatype);
}

/// What the operation that writes a value says of it: sums write integers and pointers, a
/// truncation writes integers and truth values, and a copy asks what it reads.
pub proof fn writers_judge_what_they_write(
    after: Architecture,
    before: Architecture,
    trial: Trial,
    data: Funcdata,
    v: Verdict,
)
    requires
        crate::unionresolve::judge::judges_up(after, before, trial, data, Ok::<Verdict, Error>(v)),
    ensures
        ({
            let o = data.operation(data.value(trial.vn).def->0);
            let code = o.opcode;
            let d = before.types.dt(trial.fit_type);
            let meta = d.metatype;
            let sum = code is IntAdd || code is IntSub || code is Ptrsub;
            &&& sum && (meta is Int || meta is Uint) ==> v.score == 5
            &&& sum && meta is Ptr ==> 5 <= v.score <= 6
            &&& sum && (meta is Bool || meta is Unknown) ==> v.score == 1
            &&& sum && (meta is Float || meta is Struct || meta is Union || meta is Array || meta is Code) ==> v.score == -5
            &&& code is Subpiece && (meta is Int || meta is Uint || meta is Bool) ==> v.score == (if data.value(
                o.inrefs@[1],
            ).loc.offset == 0 {
                3int
            } else {
                1
            })
            &&& code is Subpiece && !(meta is Int || meta is Uint || meta is Bool) ==> v.score == -5
            &&& code is Copy || code is Multiequal || code is Indirect ==> v.score == 0 && v.out is None && v.input == Some(
                (0i32, trial.fit_type, trial.max_length),
            ) && after == before
            &&& code is Load ==> v.score == 0 && v.out is None && v.input is Some && (v.input->0).0 == 1 && (v.input->0).2
                == d.size
            &&& only_class_counts(code) ==> v.score == write_scores(code, d.size).of(meta) && v.out is None && v.input
                is None && after == before
        }),
{
    let d = before.types.dt(trial.fit_type);
    write_table_agrees(data.operation(data.value(trial.vn).def->0).opcode, d.metatype, d.size);
}

proof fn write_table_agrees(code: OpCode, meta: TypeMetatype, size: i32)
    ensures
        crate::unionresolve::tables::fit_of_write(code, meta, size) == write_scores(code, size).of(meta),
{
}

} // verus!

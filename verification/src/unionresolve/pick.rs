//! Choosing the field that a union is read or written as.
use vstd::prelude::*;
use crate::architecture::Architecture;
use crate::error::{Error, Result};
use crate::funcdata::Funcdata;
use crate::ids::{OpId, TypeId, VarnodeId};
use crate::op::PcodeOp;
use crate::opcodes::OpCode;
use crate::types::{TypeFactory, TypeMetatype};
use crate::unionresolve::fit::{score_truncation, too_many_types};
use crate::unionresolve::judge::Trial;
use crate::unionresolve::score::{ScoreUnionFields, Scoring, VisitMark};
use crate::unionresolve::ResolvedUnion;
use crate::varnode::Varnode;

verus! {

/// Whether an operation counts through an array of unions.
pub open spec fn counts_unions(base: TypeId, op: OpId, inslot: i32, data: Funcdata, types: TypeFactory) -> bool {
    let size = types.size_of(base);
    let o = data.operation(op);
    let vn = data.value(o.inrefs@[1 - inslot]);
    let mult = data.operation(vn.def->0);
    let by = data.value(mult.inrefs@[1]);
    match o.opcode {
        OpCode::IntAdd => if vn.flag(Varnode::CONSTANT) {
            vn.loc.offset >= size
        } else {
            vn.flag(Varnode::WRITTEN) && mult.opcode == OpCode::IntMult && by.flag(Varnode::CONSTANT)
                && by.loc.offset >= size
        },
        OpCode::Ptradd => data.value(o.inrefs@[2]).loc.offset >= size,
        _ => false,
    }
}

/// Whether a union is to be left as it is without looking further.
pub open spec fn simple_case(
    base: TypeId,
    op: OpId,
    inslot: i32,
    parent: TypeId,
    data: Funcdata,
    types: TypeFactory,
) -> bool {
    ||| data.operation(op).flag(PcodeOp::MARKER) && inslot < 0
    ||| types.dt(parent).is_pointer() && (inslot < 0 || counts_unions(base, op, inslot, data, types))
}

/// The value that an operation reads through a slot, or writes.
pub open spec fn value_at(op: OpId, slot: i32, data: Funcdata) -> VarnodeId {
    if slot < 0 {
        data.operation(op).output->0
    } else {
        data.operation(op).inrefs@[slot as int]
    }
}

/// A slot that an operation has. A negative one stands for what it writes.
pub open spec fn has_slot(op: OpId, slot: i32, data: Funcdata) -> bool {
    &&& data.has_op(op)
    &&& slot < 0 ==> data.operation(op).output is Some
    &&& slot >= 0 ==> slot < data.operation(op).inrefs@.len()
}

pub open spec fn first_trial(op: OpId, slot: i32, ct: TypeId, index: i32, max: i32, data: Funcdata) -> Trial {
    if slot < 0 {
        Trial::up(value_at(op, slot, data), ct, index, max)
    } else {
        Trial::down(op, slot, ct, index, max, data)
    }
}

/// The state of a scoring that has not started.
pub open spec fn blank(result: ResolvedUnion) -> Scoring {
    Scoring {
        scores: Seq::empty(),
        fields: Seq::empty(),
        visited: Seq::empty(),
        current: Seq::empty(),
        next: Seq::empty(),
        result,
        count: 0,
    }
}

/// The state once a data-type is to be scored. It is tried where it has the size of the value.
pub open spec fn entered(
    s: Scoring,
    ct: TypeId,
    op: OpId,
    slot: i32,
    max: i32,
    start: i32,
    data: Funcdata,
    types: TypeFactory,
) -> Scoring {
    let vn = value_at(op, slot, data);
    let index = s.scores.len() as i32;
    let fits = data.value(vn).size == types.size_of(ct);
    Scoring {
        scores: s.scores.push(
            if fits {
                start
            } else {
                (start - 10) as i32
            },
        ),
        fields: s.fields.push(Some(ct)),
        visited: s.visited.push(VisitMark { vn, index }),
        current: if fits {
            s.current.push(first_trial(op, slot, ct, index, max, data))
        } else {
            s.current
        },
        ..s
    }
}

/// The units that a pointer counts in. Nothing else counts in any.
pub open spec fn units(parent: TypeId, types: TypeFactory) -> u32 {
    if types.dt(parent).is_pointer() {
        types.dt(parent).pointer().wordsize
    } else {
        0
    }
}

/// What a union as a whole starts with.
pub open spec fn start_of_whole(parent: TypeId, op: OpId, data: Funcdata, types: TypeFactory) -> i32 {
    match data.operation(op).opcode {
        OpCode::IntAdd | OpCode::Ptradd | OpCode::Ptrsub | OpCode::Store | OpCode::Load => -1i32,
        _ => if units(parent, types) == 0 {
            -1i32
        } else {
            0i32
        },
    }
}

/// The bytes that may be added to a pointer to a field.
pub open spec fn room_in_field(field: TypeId, base: TypeId, types: TypeFactory) -> i32 {
    let d = types.dt(field);
    if d.metatype == TypeMetatype::Array || d.size < types.dt(base).size {
        d.size
    } else {
        0
    }
}

/// What taking the fields of a union up does, from one of them on.
pub open spec fn takes_fields(
    after: Scoring,
    after_glb: Architecture,
    before: Scoring,
    before_glb: Architecture,
    i: nat,
    parent: TypeId,
    op: OpId,
    slot: i32,
    data: Funcdata,
    res: Result<()>,
) -> bool
    decreases before_glb.types.dt(before.result.base_type).fields().len() - i,
{
    let types = before_glb.types;
    let base = before.result.base_type;
    let field = types.dt(base).fields()[i as int].tp;
    if i >= types.dt(base).fields().len() {
        after == before && after_glb == before_glb && res == Ok::<(), Error>(())
    } else if units(parent, types) == 0 {
        takes_fields(
            after,
            after_glb,
            entered(before, field, op, slot, 0, 0, data, types),
            before_glb,
            i + 1,
            parent,
            op,
            slot,
            data,
            res,
        )
    } else if !before_glb.roomy(3) {
        after == before && after_glb == before_glb && (res matches Err(e) && crate::unionresolve::fit::out_of_room(e))
    } else {
        exists|mid: Architecture, ptr: Result<TypeId>| #[trigger]
            makes_field_pointer(mid, before_glb, parent, field, ptr) && match ptr {
                Ok(tp) => mid.types.dt(base).fields() == types.dt(base).fields() && takes_fields(
                    after,
                    after_glb,
                    entered(before, tp, op, slot, room_in_field(field, base, types), 0, data, mid.types),
                    mid,
                    i + 1,
                    parent,
                    op,
                    slot,
                    data,
                    res,
                ),
                Err(e) => after == before && after_glb == mid && res == Err::<(), Error>(e),
            }
    }
}

pub open spec fn makes_field_pointer(
    after: Architecture,
    before: Architecture,
    parent: TypeId,
    field: TypeId,
    ptr: Result<TypeId>,
) -> bool {
    &&& after.same_program(before)
    &&& after.types.makes_pointer(
        before.types,
        before.types.dt(parent).size,
        crate::types::pointers::plain_pointer(before.types.element_form(field), units(parent, before.types)),
        Seq::empty(),
        0,
        ptr,
    )
}

/// The state once the union as a whole has been taken up.
pub open spec fn opened(parent: TypeId, op: OpId, slot: i32, data: Funcdata, types: TypeFactory) -> Scoring {
    entered(
        blank(ResolvedUnion::unresolved(parent, types)),
        parent,
        op,
        slot,
        0,
        start_of_whole(parent, op, data, types),
        data,
        types,
    )
}

/// What choosing a field for a union, or for a pointer to one, does.
pub open spec fn chooses(
    after_glb: Architecture,
    before_glb: Architecture,
    parent: TypeId,
    op: OpId,
    slot: i32,
    data: Funcdata,
    res: Result<Scoring>,
) -> bool {
    let types = before_glb.types;
    let result = ResolvedUnion::unresolved(parent, types);
    if simple_case(result.base_type, op, slot, parent, data, types) {
        after_glb == before_glb && res == Ok::<Scoring, Error>(blank(result))
    } else {
        exists|mid: Scoring, mid_glb: Architecture, r: Result<()>| #[trigger]
            takes_fields(mid, mid_glb, opened(parent, op, slot, data, types), before_glb, 0, parent, op, slot, data, r) && match r {
                Ok(_) => concludes(after_glb, mid, mid_glb, data, res),
                Err(e) => after_glb == mid_glb && res == Err::<Scoring, Error>(e),
            }
    }
}

/// What a run does, with the choice of the best field after it.
pub open spec fn concludes(
    after_glb: Architecture,
    before: Scoring,
    before_glb: Architecture,
    data: Funcdata,
    res: Result<Scoring>,
) -> bool {
    exists|end: Scoring, r: Result<()>| #[trigger]
        crate::unionresolve::score::runs(end, after_glb, before, before_glb, data, r) && match r {
            Ok(_) => picks(end, res),
            Err(e) => res == Err::<Scoring, Error>(e),
        }
}

/// The best field is chosen.
pub open spec fn picks(end: Scoring, res: Result<Scoring>) -> bool {
    exists|best: int| #[trigger]
        crate::unionresolve::score::is_best(end.scores, best) && res == Ok::<Scoring, Error>(end.decided(best))
}

/// A result of choosing, seen as what it holds.
pub open spec fn seen(res: Result<ScoreUnionFields>) -> Result<Scoring> {
    match res {
        Ok(s) => Ok(s@),
        Err(e) => Err(e),
    }
}

/// A choice that was made among the fields of a union.
pub open spec fn sensible(res: Result<ScoreUnionFields>, base: TypeId, glb: Architecture) -> bool {
    res matches Ok(s) ==> {
        &&& s@.result.base_type == base
        &&& -1 <= s@.result.field_num < glb.types.dt(base).fields().len()
    }
}

/// The state once a union has been taken up that some bytes are taken of.
pub open spec fn opened_part(union_type: TypeId, types: TypeFactory) -> Scoring {
    Scoring {
        scores: seq![-10i32],
        fields: seq![Some(union_type)],
        ..blank(ResolvedUnion::unresolved(union_type, types))
    }
}

/// The state once the fields of a union have been taken up, from one of them on,
/// of which a value takes the bytes at an offset. Only a field of just these bytes fits.
pub open spec fn whole_fields(
    s: Scoring,
    i: nat,
    union_type: TypeId,
    offset: i32,
    vn: VarnodeId,
    data: Funcdata,
    types: TypeFactory,
) -> Scoring
    decreases types.dt(union_type).fields().len() - i,
{
    let field = types.dt(union_type).fields()[i as int];
    let index = (i + 1) as i32;
    let fits = types.size_of(field.tp) == data.value(vn).size && field.offset == offset;
    let listed = Scoring {
        scores: s.scores.push(
            if fits {
                0i32
            } else {
                -10i32
            },
        ),
        fields: s.fields.push(Some(field.tp)),
        ..s
    };
    if i >= types.dt(union_type).fields().len() {
        s
    } else {
        whole_fields(
            if fits {
                listed.passed_down(vn, field.tp, index, 0, data, types)
            } else {
                listed
            },
            i + 1,
            union_type,
            offset,
            vn,
            data,
            types,
        )
    }
}

/// The state once the fields of a union have been taken up, from one of them on,
/// of which an operation means the bytes at an offset.
pub open spec fn parts_of_fields(
    s: Scoring,
    i: nat,
    union_type: TypeId,
    offset: i32,
    op: OpId,
    slot: i32,
    data: Funcdata,
    glb: Architecture,
) -> Scoring
    decreases glb.types.dt(union_type).fields().len() - i,
{
    let field = glb.types.dt(union_type).fields()[i as int];
    let vn = value_at(op, slot, data);
    let index = (i + 1) as i32;
    let (score, ct) = crate::unionresolve::fit::truncation_fit(
        field.tp,
        data.value(vn).size,
        offset.wrapping_sub(field.offset),
        union_type,
        glb,
    );
    if i >= glb.types.dt(union_type).fields().len() {
        s
    } else {
        parts_of_fields(
            Scoring {
                scores: s.scores.push(score),
                fields: s.fields.push(Some(field.tp)),
                visited: if ct is Some {
                    s.visited.push(VisitMark { vn, index })
                } else {
                    s.visited
                },
                current: if ct is Some {
                    s.current.push(first_trial(op, slot, ct->0, index, 0, data))
                } else {
                    s.current
                },
                ..s
            },
            i + 1,
            union_type,
            offset,
            op,
            slot,
            data,
            glb,
        )
    }
}

/// What choosing a field for some bytes of a union does, once the fields have been
/// taken up: more than one trial is run.
pub open spec fn chooses_part(
    after_glb: Architecture,
    before_glb: Architecture,
    prepared: Scoring,
    offset: i32,
    size: i32,
    data: Funcdata,
    res: Result<Scoring>,
) -> bool {
    if prepared.current.len() > 1 {
        exists|mid_glb: Architecture, r: Result<Scoring>| #[trigger]
            concludes(mid_glb, prepared, before_glb, data, r) && match r {
                Ok(s) => refines(after_glb, mid_glb, s, offset, size, res),
                Err(e) => after_glb == mid_glb && res == Err::<Scoring, Error>(e),
            }
    } else {
        exists|s: Scoring| #[trigger]
            picks(prepared, Ok::<Scoring, Error>(s)) && refines(after_glb, before_glb, s, offset, size, res)
    }
}

/// What taking just some bytes of the chosen field does.
pub open spec fn refines(
    after_glb: Architecture,
    before_glb: Architecture,
    s: Scoring,
    offset: i32,
    size: i32,
    res: Result<Scoring>,
) -> bool {
    if !before_glb.roomy(3) {
        after_glb == before_glb && (res matches Err(e) && crate::unionresolve::fit::out_of_room(e))
    } else {
        &&& after_glb.same_program(before_glb)
        &&& exists|piece: Result<Option<TypeId>>| #[trigger]
            after_glb.types.makes_piece(before_glb.types, s.result.resolve, offset, size, piece) && match piece {
                Ok(Some(tp)) => res == Ok::<Scoring, Error>(
                    Scoring { result: ResolvedUnion { resolve: tp, ..s.result }, ..s },
                ),
                Ok(None) => res == Ok::<Scoring, Error>(s),
                Err(e) => res == Err::<Scoring, Error>(e),
            }
    }
}

impl ScoreUnionFields {
    fn with_result(result: ResolvedUnion) -> (res: ScoreUnionFields)
        ensures
            res@ == blank(result),
    {
        ScoreUnionFields {
            scores: Vec::new(),
            fields: Vec::new(),
            visited: Vec::new(),
            trial_current: Vec::new(),
            trial_next: Vec::new(),
            result,
            trial_count: 0,
        }
    }

    fn test_array_arithmetic(&self, op: OpId, inslot: i32, data: &Funcdata, types: &TypeFactory) -> (res: bool)
        requires
            types.sound(),
            data.flowing(),
            types.has(self.result.base_type),
            data.has_op(op),
            0 <= inslot < data.operation(op).inrefs@.len(),
        ensures
            res == counts_unions(self.result.base_type, op, inslot, *data, *types),
    {
        proof {
            types.look(self.result.base_type);
            assert(data.shaped(data.operation(op)));
        }
        let base_size: u64 = types.get(self.result.base_type).get_size() as u64;
        let op_data = data.op(op);
        if op_data.code() == OpCode::IntAdd {
            assert(data.has_vn(data.operation(op).inrefs@[1 - inslot]));
            let vn = data.vn(op_data.get_in(1 - inslot));
            if vn.is_constant() {
                return vn.get_offset() >= base_size;
            }
            if vn.is_written() {
                let def = vn.get_def().unwrap();
                assert(data.has_op(def));
                assert(data.shaped(data.operation(def)));
                let mult_op = data.op(def);
                if mult_op.code() == OpCode::IntMult {
                    assert(data.has_vn(data.operation(def).inrefs@[1]));
                    let vn2 = data.vn(mult_op.get_in(1));
                    return vn2.is_constant() && vn2.get_offset() >= base_size;
                }
            }
            false
        } else if op_data.code() == OpCode::Ptradd {
            assert(data.has_vn(data.operation(op).inrefs@[2]));
            data.vn(op_data.get_in(2)).get_offset() >= base_size
        } else {
            false
        }
    }

    fn test_simple_cases(&self, op: OpId, inslot: i32, parent: TypeId, data: &Funcdata, types: &TypeFactory) -> (res: bool)
        requires
            types.sound(),
            data.flowing(),
            types.has(self.result.base_type),
            types.has(parent),
            has_slot(op, inslot, *data),
        ensures
            res == simple_case(self.result.base_type, op, inslot, parent, *data, *types),
    {
        proof {
            types.look(parent);
        }
        if data.op(op).is_marker() && inslot < 0 {
            return true;
        }
        if types.get(parent).get_metatype() == TypeMetatype::Ptr {
            if inslot < 0 {
                return true;
            }
            return self.test_array_arithmetic(op, inslot, data, types);
        }
        false
    }

    /// Enters a data-type that is to be scored.
    fn enter(&mut self, ct: TypeId, op: OpId, slot: i32, max: i32, start: i32, data: &Funcdata, types: &TypeFactory)
        requires
            data.flowing(),
            types.has(ct),
            has_slot(op, slot, *data),
            old(self)@.valid(*data, *types),
            old(self)@.scores.len() < i32::MAX,
            start >= -1,
        ensures
            final(self)@ == entered(old(self)@, ct, op, slot, max, start, *data, *types),
            final(self)@.valid(*data, *types),
    {
        let ghost before = self@;
        let vn = Self::find_value(op, slot, data);
        let index: i32 = self.scores.len() as i32;
        let mut score: i32 = start;
        if data.vn(vn).get_size() != types.get(ct).get_size() {
            score = score - 10;
        } else if slot < 0 {
            self.trial_current.push(Trial::new_up(vn, ct, index, max));
        } else {
            self.trial_current.push(Trial::new_down(op, slot, ct, index, max, data));
        }
        self.scores.push(score);
        self.fields.push(Some(ct));
        self.visited.push(VisitMark::new(vn, index));
        proof {
            let after = self@;
            assert forall|k: int| #![trigger after.current[k]] 0 <= k < after.current.len() implies after.current[k].fits(
                *data,
                *types,
            ) && after.holds(after.current[k].score_index) by {
                if k < before.current.len() {
                    assert(before.current[k].fits(*data, *types));
                }
            }
            assert forall|k: int| #![trigger after.next[k]] 0 <= k < after.next.len() implies after.next[k].fits(
                *data,
                *types,
            ) && after.holds(after.next[k].score_index) by {
                assert(before.next[k].fits(*data, *types));
            }
            assert forall|k: int| #![trigger after.fields[k]] 0 <= k < after.fields.len() implies after.fields[k] is Some
                && types.has(after.fields[k]->0) by {
                if k < before.fields.len() {
                    assert(before.fields[k] is Some);
                }
            }
        }
    }

    fn find_value(op: OpId, slot: i32, data: &Funcdata) -> (res: VarnodeId)
        requires
            data.flowing(),
            has_slot(op, slot, *data),
        ensures
            res == value_at(op, slot, *data),
            data.has_vn(res),
    {
        if slot < 0 {
            assert(data.has_op(op));
            data.op(op).get_out().unwrap()
        } else {
            assert(data.has_vn(data.operation(op).inrefs@[slot as int]));
            data.op(op).get_in(slot)
        }
    }

    /// Takes the fields of the union up, from one of them on.
    fn take_fields(&mut self, i: i32, parent: TypeId, op: OpId, slot: i32, data: &Funcdata, glb: &mut Architecture) -> (res:
        Result<()>)
        requires
            crate::unionresolve::score::scorable(*data, *old(glb)),
            old(self)@.valid(*data, old(glb).types),
            old(glb).types.has(parent),
            old(glb).types.dt(old(self)@.result.base_type).kind is Union,
            has_slot(op, slot, *data),
            0 <= i <= old(glb).types.dt(old(self)@.result.base_type).fields().len(),
            old(self)@.scores.len() == i + 1,
        ensures
            final(glb).grew(*old(glb)),
            takes_fields(
                final(self)@,
                *final(glb),
                old(self)@,
                *old(glb),
                i as nat,
                parent,
                op,
                slot,
                *data,
                res,
            ),
            final(self)@.valid(*data, final(glb).types),
            final(self)@.result == old(self)@.result,
            final(glb).types.dt(old(self)@.result.base_type).fields() == old(glb).types.dt(
                old(self)@.result.base_type,
            ).fields(),
            res is Ok ==> final(self)@.scores.len() == old(glb).types.dt(old(self)@.result.base_type).fields().len() + 1,
        decreases old(glb).types.dt(old(self)@.result.base_type).fields().len() - i,
    {
        let ghost before = self@;
        let ghost before_glb = *glb;
        let base = self.result.base_type;
        proof {
            crate::types::suit::grew_never(*glb);
            glb.types.look(base);
            glb.types.parts(glb.types.dt(base));
            glb.types.look(parent);
            glb.types.parts(glb.types.dt(parent));
            assert(glb.suits(glb.types.dt(base)));
            assert(glb.suits(glb.types.dt(parent)));
        }
        let num_fields: i32 = glb.types.get(base).num_depend(&glb.types);
        if i >= num_fields {
            return Ok(());
        }
        let field_type = glb.types.get(base).get_field(i).tp;
        assert(field_type == glb.types.dt(base).fields()[i as int].tp);
        let parent_dt = glb.types.get(parent);
        if parent_dt.get_metatype() == TypeMetatype::Ptr {
            let word_size: u32 = parent_dt.get_word_size();
            let parent_size: i32 = parent_dt.get_size();
            let field_dt = glb.types.get(field_type);
            let max_length: i32 = if field_dt.get_metatype() == TypeMetatype::Array || field_dt.get_size()
                < glb.types.get(base).get_size() {
                field_dt.get_size()
            } else {
                0
            };
            if !glb.has_room_for(3) {
                return Err(too_many_types());
            }
            let ptr = glb.element_pointer(parent_size, field_type, word_size);
            let ghost mid = *glb;
            proof {
                assert(makes_field_pointer(mid, before_glb, parent, field_type, ptr));
                crate::unionresolve::score::scorable_later(*data, mid, before_glb);
                crate::unionresolve::score::valid_later(self@, *data, mid.types, before_glb.types);
                assert(mid.types.has(base));
                assert(mid.types.has(parent));
            }
            match ptr {
                Ok(tp) => {
                    self.enter(tp, op, slot, max_length, 0, data, &glb.types);
                    let res = self.take_fields(i + 1, parent, op, slot, data, glb);
                    proof {
                        crate::types::suit::grew_twice(*glb, mid, before_glb);
                    }
                    res
                },
                Err(e) => Err(e),
            }
        } else {
            self.enter(field_type, op, slot, 0, 0, data, &glb.types);
            self.take_fields(i + 1, parent, op, slot, data, glb)
        }
    }

    /// Scores the fields of a union that a data-type is, or points to, for an operation.
    pub fn new(data: &Funcdata, glb: &mut Architecture, parent_type: TypeId, op: OpId, slot: i32) -> (res: Result<
        ScoreUnionFields,
    >)
        requires
            crate::unionresolve::score::scorable(*data, *old(glb)),
            old(glb).types.has(parent_type),
            old(glb).types.dt(crate::unionresolve::union_behind(parent_type, old(glb).types)).kind is Union,
            has_slot(op, slot, *data),
        ensures
            final(glb).grew(*old(glb)),
            chooses(*final(glb), *old(glb), parent_type, op, slot, *data, seen(res)),
            sensible(res, crate::unionresolve::union_behind(parent_type, old(glb).types), *old(glb)),
            res matches Ok(s) ==> final(glb).types.has(s@.result.resolve),
            old(glb).types.dt(parent_type).kind is Union && old(glb).types.dt(parent_type).fields().len() < 0x400 && slot >= 0
                && crate::laws::fitting::only_class_counts(data.operation(op).opcode) && old(glb).roomy(9) ==> (res matches Ok(
                s,
            ) && crate::laws::fitting::is_best_field(s@, parent_type, op, slot, *data, *old(glb))),
    {
        let ghost before_glb = *glb;
        proof {
            crate::types::suit::grew_never(*glb);
            glb.types.look(parent_type);
            glb.types.parts(glb.types.dt(parent_type));
        }
        let mut res = ScoreUnionFields::with_result(ResolvedUnion::new(parent_type, &glb.types));
        if res.test_simple_cases(op, slot, parent_type, data, &glb.types) {
            return Ok(res);
        }
        let parent_dt = glb.types.get(parent_type);
        let opc = data.op(op).code();
        let start: i32 = if parent_dt.get_metatype() != TypeMetatype::Ptr || opc == OpCode::IntAdd || opc == OpCode::Ptradd
            || opc == OpCode::Ptrsub || opc == OpCode::Store || opc == OpCode::Load {
            -1
        } else {
            0
        };
        res.enter(parent_type, op, slot, 0, start, data, &glb.types);
        assert(res@ == opened(parent_type, op, slot, *data, before_glb.types));
        let r = res.take_fields(0, parent_type, op, slot, data, glb);
        let ghost mid = res@;
        let ghost mid_glb = *glb;
        proof {
            assert(takes_fields(
                mid,
                mid_glb,
                opened(parent_type, op, slot, *data, before_glb.types),
                before_glb,
                0,
                parent_type,
                op,
                slot,
                *data,
                r,
            ));
            crate::unionresolve::score::scorable_later(*data, mid_glb, before_glb);
        }
        if let Err(e) = r {
            proof {
                let failed = Err::<Scoring, Error>(e);
                assert(chooses(*glb, before_glb, parent_type, op, slot, *data, failed));
                if before_glb.types.dt(parent_type).kind is Union && before_glb.types.dt(parent_type).fields().len() < 0x400
                    && slot >= 0 && crate::laws::fitting::only_class_counts(data.operation(op).opcode) && before_glb.roomy(9) {
                    crate::laws::fitting::best_field_is_chosen(*glb, before_glb, parent_type, op, slot, *data, failed);
                }
            }
            return Err(e);
        }
        let fin = res.conclude(data, glb);
        proof {
            crate::types::suit::grew_twice(*glb, mid_glb, before_glb);
            let found = if fin is Ok {
                Ok::<Scoring, Error>(res@)
            } else {
                Err::<Scoring, Error>(fin->Err_0)
            };
            assert(chooses(*glb, before_glb, parent_type, op, slot, *data, found));
            if before_glb.types.dt(parent_type).kind is Union && before_glb.types.dt(parent_type).fields().len() < 0x400
                && slot >= 0 && crate::laws::fitting::only_class_counts(data.operation(op).opcode) && before_glb.roomy(9) {
                crate::laws::fitting::best_field_is_chosen(*glb, before_glb, parent_type, op, slot, *data, found);
            }
        }
        match fin {
            Ok(_) => Ok(res),
            Err(e) => Err(e),
        }
    }

    /// Runs the trials and chooses the best field.
    fn conclude(&mut self, data: &Funcdata, glb: &mut Architecture) -> (res: Result<()>)
        requires
            crate::unionresolve::score::scorable(*data, *old(glb)),
            old(self)@.valid(*data, old(glb).types),
            old(self)@.scores.len() > 0,
        ensures
            final(glb).grew(*old(glb)),
            concludes(
                *final(glb),
                old(self)@,
                *old(glb),
                *data,
                match res {
                    Ok(_) => Ok(final(self)@),
                    Err(e) => Err(e),
                },
            ),
            final(self)@.result.base_type == old(self)@.result.base_type,
            res is Ok ==> final(glb).types.has(final(self)@.result.resolve) && -1 <= final(self)@.result.field_num
                < old(self)@.scores.len() - 1,
            res is Ok ==> exists|k: int|
                0 <= k < old(self)@.fields.len() && #[trigger] old(self)@.fields[k] == Some(final(self)@.result.resolve),
    {
        let ghost before = self@;
        let ghost before_glb = *glb;
        let r = self.run(data, glb);
        let ghost end = self@;
        assert(crate::unionresolve::score::runs(end, *glb, before, before_glb, *data, r));
        match r {
            Ok(_) => {
                self.compute_best_index();
                proof {
                    let best = choose|best: int| #[trigger]
                        crate::unionresolve::score::is_best(end.scores, best) && self@ == end.decided(best);
                    assert(end.fields[best] is Some);
                    assert(before.fields[best] == Some(self@.result.resolve));
                    assert(picks(end, Ok::<Scoring, Error>(self@)));
                }
                Ok(())
            },
            Err(e) => Err(e),
        }
    }

    /// Takes the fields of a union up, of which a value takes the bytes at an offset.
    fn take_whole_fields(&mut self, union_type: TypeId, offset: i32, vn: VarnodeId, data: &Funcdata, glb: &Architecture)
        requires
            crate::unionresolve::score::scorable(*data, *glb),
            glb.types.has(union_type),
            glb.types.dt(union_type).kind is Union,
            old(self)@ == opened_part(union_type, glb.types),
            data.has_vn(vn),
        ensures
            final(self)@ == whole_fields(old(self)@, 0, union_type, offset, vn, *data, glb.types),
            final(self)@.valid(*data, glb.types),
            final(self)@.result == old(self)@.result,
            final(self)@.scores.len() == glb.types.dt(union_type).fields().len() + 1,
            forall|k: int| #![trigger final(self)@.fields[k]]
                0 <= k < final(self)@.fields.len() ==> final(self)@.fields[k] is Some && !(glb.types.dt(
                    final(self)@.fields[k]->0,
                ).kind is Spacebase),
    {
        let ghost first = self@;
        proof {
            glb.types.look(union_type);
            glb.types.parts(glb.types.dt(union_type));
            assert(glb.suits(glb.types.dt(union_type)));
        }
        let num_fields: i32 = glb.types.get(union_type).num_depend(&glb.types);
        let mut i: i32 = 0;
        while i < num_fields
            invariant
                crate::unionresolve::score::scorable(*data, *glb),
                glb.types.has(union_type),
                glb.types.dt(union_type).kind is Union,
                glb.types.linked(glb.types.dt(union_type)),
                data.has_vn(vn),
                0 <= i <= num_fields < i32::MAX,
                num_fields == glb.types.dt(union_type).fields().len(),
                self@.valid(*data, glb.types),
                self@.scores.len() == i + 1,
                self@.result == first.result,
                whole_fields(self@, i as nat, union_type, offset, vn, *data, glb.types) == whole_fields(
                    first,
                    0,
                    union_type,
                    offset,
                    vn,
                    *data,
                    glb.types,
                ),
                glb.types.firm_kind(glb.types.dt(union_type)),
                forall|k: int| #![trigger self@.fields[k]]
                    0 <= k < self@.fields.len() ==> self@.fields[k] is Some && !(glb.types.dt(
                        self@.fields[k]->0,
                    ).kind is Spacebase),
            decreases num_fields - i,
        {
            let ghost before = self@;
            let field = glb.types.get(union_type).get_field(i);
            let field_type = field.tp;
            assert(field_type == glb.types.dt(union_type).fields()[i as int].tp);
            let fits = glb.types.get(field_type).get_size() == data.vn(vn).get_size() && field.offset == offset;
            self.fields.push(Some(field_type));
            self.scores.push(
                if fits {
                    0
                } else {
                    -10
                },
            );
            proof {
                assert(self@.fields.take(before.fields.len() as int) =~= before.fields);
                listed_valid(self@, before, *data, glb.types);
            }
            if fits {
                self.new_trials_down(vn, field_type, i + 1, 0, data, glb);
            }
            i = i + 1;
        }
    }

    /// Takes the fields of a union up, of which an operation means the bytes at an offset.
    fn take_parts(&mut self, union_type: TypeId, offset: i32, op: OpId, slot: i32, data: &Funcdata, glb: &Architecture)
        requires
            crate::unionresolve::score::scorable(*data, *glb),
            glb.types.has(union_type),
            glb.types.dt(union_type).kind is Union,
            old(self)@ == opened_part(union_type, glb.types),
            has_slot(op, slot, *data),
        ensures
            final(self)@ == parts_of_fields(old(self)@, 0, union_type, offset, op, slot, *data, *glb),
            final(self)@.valid(*data, glb.types),
            final(self)@.result == old(self)@.result,
            final(self)@.scores.len() == glb.types.dt(union_type).fields().len() + 1,
            forall|k: int| #![trigger final(self)@.fields[k]]
                0 <= k < final(self)@.fields.len() ==> final(self)@.fields[k] is Some && !(glb.types.dt(
                    final(self)@.fields[k]->0,
                ).kind is Spacebase),
    {
        let ghost first = self@;
        proof {
            glb.types.look(union_type);
            glb.types.parts(glb.types.dt(union_type));
            assert(glb.suits(glb.types.dt(union_type)));
        }
        let vn = Self::find_value(op, slot, data);
        let size: i32 = data.vn(vn).get_size();
        let num_fields: i32 = glb.types.get(union_type).num_depend(&glb.types);
        let mut i: i32 = 0;
        while i < num_fields
            invariant
                crate::unionresolve::score::scorable(*data, *glb),
                glb.types.has(union_type),
                glb.types.dt(union_type).kind is Union,
                glb.types.linked(glb.types.dt(union_type)),
                has_slot(op, slot, *data),
                vn == value_at(op, slot, *data),
                data.has_vn(vn),
                size == data.value(vn).size,
                0 <= i <= num_fields < i32::MAX,
                num_fields == glb.types.dt(union_type).fields().len(),
                self@.valid(*data, glb.types),
                self@.scores.len() == i + 1,
                self@.result == first.result,
                parts_of_fields(self@, i as nat, union_type, offset, op, slot, *data, *glb) == parts_of_fields(
                    first,
                    0,
                    union_type,
                    offset,
                    op,
                    slot,
                    *data,
                    *glb,
                ),
                glb.types.firm_kind(glb.types.dt(union_type)),
                forall|k: int| #![trigger self@.fields[k]]
                    0 <= k < self@.fields.len() ==> self@.fields[k] is Some && !(glb.types.dt(
                        self@.fields[k]->0,
                    ).kind is Spacebase),
            decreases num_fields - i,
        {
            let ghost before = self@;
            let field = glb.types.get(union_type).get_field(i);
            let field_type = field.tp;
            assert(field_type == glb.types.dt(union_type).fields()[i as int].tp);
            let (score, ct) = score_truncation(field_type, size, offset.wrapping_sub(field.offset), union_type, glb);
            self.fields.push(Some(field_type));
            self.scores.push(score);
            proof {
                assert(self@.fields.take(before.fields.len() as int) =~= before.fields);
                listed_valid(self@, before, *data, glb.types);
            }
            let ghost listed = self@;
            if let Some(ct) = ct {
                if slot < 0 {
                    self.trial_current.push(Trial::new_up(vn, ct, i + 1, 0));
                } else {
                    self.trial_current.push(Trial::new_down(op, slot, ct, i + 1, 0, data));
                }
                self.visited.push(VisitMark::new(vn, i + 1));
                proof {
                    let after = self@;
                    assert forall|k: int| #![trigger after.current[k]] 0 <= k
                        < after.current.len() implies after.current[k].fits(*data, glb.types) && after.holds(
                        after.current[k].score_index,
                    ) by {
                        if k < listed.current.len() {
                            assert(listed.current[k].fits(*data, glb.types));
                        }
                    }
                    assert forall|k: int| #![trigger after.next[k]] 0 <= k < after.next.len() implies after.next[k].fits(
                        *data,
                        glb.types,
                    ) && after.holds(after.next[k].score_index) by {
                        assert(listed.next[k].fits(*data, glb.types));
                    }
                }
            }
            i = i + 1;
        }
    }

    /// Chooses a field for some bytes of a union, once the fields have been taken up.
    fn conclude_part(&mut self, offset: i32, size: i32, data: &Funcdata, glb: &mut Architecture) -> (res: Result<()>)
        requires
            crate::unionresolve::score::scorable(*data, *old(glb)),
            old(self)@.valid(*data, old(glb).types),
            old(self)@.scores.len() > 0,
            size < 0x1000_0000,
            forall|k: int| #![trigger old(self)@.fields[k]]
                0 <= k < old(self)@.fields.len() ==> old(self)@.fields[k] is Some && !(old(glb).types.dt(
                    old(self)@.fields[k]->0,
                ).kind is Spacebase),
        ensures
            final(glb).grew(*old(glb)),
            chooses_part(
                *final(glb),
                *old(glb),
                old(self)@,
                offset,
                size,
                *data,
                match res {
                    Ok(_) => Ok(final(self)@),
                    Err(e) => Err(e),
                },
            ),
            final(self)@.result.base_type == old(self)@.result.base_type,
            res is Ok ==> final(glb).types.has(final(self)@.result.resolve) && -1 <= final(self)@.result.field_num
                < old(self)@.scores.len() - 1,
    {
        let ghost before = self@;
        let ghost before_glb = *glb;
        proof {
            crate::types::suit::grew_never(*glb);
        }
        if self.trial_current.len() > 1 {
            let r = self.conclude(data, glb);
            proof {
                assert(concludes(
                    *glb,
                    before,
                    before_glb,
                    *data,
                    match r {
                        Ok(_) => Ok(self@),
                        Err(e) => Err(e),
                    },
                ));
            }
            if let Err(e) = r {
                return Err(e);
            }
        } else {
            self.compute_best_index();
            proof {
                let best = choose|best: int| #[trigger]
                    crate::unionresolve::score::is_best(before.scores, best) && self@ == before.decided(best);
                assert(before.fields[best] == Some(self@.result.resolve));
                assert(picks(before, Ok::<Scoring, Error>(self@)));
            }
        }
        let ghost mid = self@;
        let ghost mid_glb = *glb;
        let resolve = self.result.resolve;
        proof {
            let k = choose|k: int| 0 <= k < before.fields.len() && #[trigger] before.fields[k] == Some(resolve);
            assert(before.fields[k] is Some);
            assert(before_glb.types.has(resolve));
            assert(mid_glb.types.has(resolve));
            assert(!(mid_glb.types.dt(resolve).kind is Spacebase));
        }
        if !glb.has_room_for(3) {
            let e = too_many_types();
            assert(refines(*glb, mid_glb, mid, offset, size, Err::<Scoring, Error>(e)));
            return Err(e);
        }
        proof {
            crate::types::suit::cuts_easily(*glb, resolve, offset, size);
        }
        let piece = glb.piece_of(resolve, offset, size);
        proof {
            assert(glb.types.makes_piece(mid_glb.types, mid.result.resolve, offset, size, piece));
            crate::types::suit::grew_twice(*glb, mid_glb, before_glb);
        }
        match piece {
            Ok(Some(tp)) => {
                self.result.resolve = tp;
                assert(refines(*glb, mid_glb, mid, offset, size, Ok::<Scoring, Error>(self@)));
                Ok(())
            },
            Ok(None) => {
                assert(refines(*glb, mid_glb, mid, offset, size, Ok::<Scoring, Error>(self@)));
                Ok(())
            },
            Err(e) => {
                assert(refines(*glb, mid_glb, mid, offset, size, Err::<Scoring, Error>(e)));
                Err(e)
            },
        }
    }

    /// Scores the fields of a union for the bytes at an offset that an operation truncates it to.
    pub fn new_offset(data: &Funcdata, glb: &mut Architecture, union_type: TypeId, offset: i32, op: OpId) -> (res: Result<
        ScoreUnionFields,
    >)
        requires
            crate::unionresolve::score::scorable(*data, *old(glb)),
            old(glb).types.has(union_type),
            old(glb).types.dt(union_type).kind is Union,
            has_slot(op, -1i32, *data),
        ensures
            final(glb).grew(*old(glb)),
            chooses_part(
                *final(glb),
                *old(glb),
                whole_fields(
                    opened_part(union_type, old(glb).types),
                    0,
                    union_type,
                    offset,
                    value_at(op, -1i32, *data),
                    *data,
                    old(glb).types,
                ).turned(),
                offset,
                data.value(value_at(op, -1i32, *data)).size,
                *data,
                seen(res),
            ),
            sensible(res, union_type, *old(glb)),
            res matches Ok(s) ==> final(glb).types.has(s@.result.resolve),
    {
        proof {
            glb.types.look(union_type);
            glb.types.parts(glb.types.dt(union_type));
        }
        let mut res = ScoreUnionFields::with_result(ResolvedUnion::new(union_type, &glb.types));
        let vn = Self::find_value(op, -1, data);
        let vn_size: i32 = data.vn(vn).get_size();
        res.fields.push(Some(union_type));
        res.scores.push(-10);
        assert(res@ == opened_part(union_type, glb.types));
        res.take_whole_fields(union_type, offset, vn, data, glb);
        let ghost listed = res@;
        let mut due: Vec<Trial> = Vec::new();
        std::mem::swap(&mut res.trial_next, &mut due);
        res.trial_current = due;
        assert(res@ == listed.turned());
        assert(res@.valid(*data, glb.types)) by {
            assert(res@.current == listed.next && res@.fields == listed.fields);
        }
        match res.conclude_part(offset, vn_size, data, glb) {
            Ok(_) => Ok(res),
            Err(e) => Err(e),
        }
    }

    /// Scores the fields of a union for the bytes at an offset that an operation means by a slot.
    pub fn new_offset_slot(
        data: &Funcdata,
        glb: &mut Architecture,
        union_type: TypeId,
        offset: i32,
        op: OpId,
        slot: i32,
    ) -> (res: Result<ScoreUnionFields>)
        requires
            crate::unionresolve::score::scorable(*data, *old(glb)),
            old(glb).types.has(union_type),
            old(glb).types.dt(union_type).kind is Union,
            has_slot(op, slot, *data),
        ensures
            final(glb).grew(*old(glb)),
            if data.operation(op).flag(PcodeOp::MARKER) && slot < 0 {
                *final(glb) == *old(glb) && seen(res) == Ok::<Scoring, Error>(
                    blank(ResolvedUnion::unresolved(union_type, old(glb).types)),
                )
            } else {
                chooses_part(
                    *final(glb),
                    *old(glb),
                    parts_of_fields(
                        opened_part(union_type, old(glb).types),
                        0,
                        union_type,
                        offset,
                        op,
                        slot,
                        *data,
                        *old(glb),
                    ),
                    offset,
                    data.value(value_at(op, slot, *data)).size,
                    *data,
                    seen(res),
                )
            },
            sensible(res, union_type, *old(glb)),
            res matches Ok(s) ==> final(glb).types.has(s@.result.resolve),
    {
        proof {
            glb.types.look(union_type);
            glb.types.parts(glb.types.dt(union_type));
            crate::types::suit::grew_never(*glb);
        }
        let mut res = ScoreUnionFields::with_result(ResolvedUnion::new(union_type, &glb.types));
        if res.test_simple_cases(op, slot, union_type, data, &glb.types) {
            return Ok(res);
        }
        let vn = Self::find_value(op, slot, data);
        let vn_size: i32 = data.vn(vn).get_size();
        res.fields.push(Some(union_type));
        res.scores.push(-10);
        assert(res@ == opened_part(union_type, glb.types));
        res.take_parts(union_type, offset, op, slot, data, glb);
        match res.conclude_part(offset, vn_size, data, glb) {
            Ok(_) => Ok(res),
            Err(e) => Err(e),
        }
    }
}

proof fn listed_valid(after: Scoring, before: Scoring, data: Funcdata, types: TypeFactory)
    requires
        before.valid(data, types),
        before.scores.len() < i32::MAX,
        after.current == before.current,
        after.next == before.next,
        after.result == before.result,
        after.scores.len() == before.scores.len() + 1,
        after.fields.len() == before.fields.len() + 1,
        after.fields.take(before.fields.len() as int) == before.fields,
        after.fields.last() is Some,
        types.has(after.fields.last()->0),
    ensures
        after.valid(data, types),
{
    assert forall|k: int| #![trigger after.fields[k]] 0 <= k < after.fields.len() implies after.fields[k] is Some
        && types.has(after.fields[k]->0) by {
        if k < before.fields.len() {
            assert(before.fields[k] == after.fields.take(before.fields.len() as int)[k]);
        }
    }
    assert forall|k: int| #![trigger after.current[k]] 0 <= k < after.current.len() implies after.current[k].fits(
        data,
        types,
    ) && after.holds(after.current[k].score_index) by {
        assert(before.current[k].fits(data, types));
    }
    assert forall|k: int| #![trigger after.next[k]] 0 <= k < after.next.len() implies after.next[k].fits(data, types)
        && after.holds(after.next[k].score_index) by {
        assert(before.next[k].fits(data, types));
    }
}

} // verus!

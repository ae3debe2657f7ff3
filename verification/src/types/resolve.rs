//! How data-types that can be read in several ways are read by an operation.
use vstd::prelude::*;
use crate::architecture::Architecture;
use crate::funcdata::Funcdata;
use crate::ids::{OpId, TypeId, VarnodeId};
use crate::opcodes::OpCode;
use crate::op::PcodeOp;
use crate::types::{Datatype, TypeFactory, TypeField, TypeKind, TypeMetatype};
use crate::error::{Error, Result};
use crate::unionresolve::score::{ScoreUnionFields, Scoring};
use crate::unionresolve::fit::too_many_types;
use crate::unionresolve::{settle_field, ResolvedUnion};
use crate::varnode::Varnode;

verus! {

/// What an operation takes a data-type for if nothing has been settled.
pub open spec fn taken_for(ct: TypeId, types: TypeFactory) -> TypeId {
    let d = types.dt(ct);
    match d.kind {
        TypeKind::Array(data) => data.arrayof->0,
        TypeKind::Struct(data) => data.field@[0].tp,
        TypeKind::PartialUnion(data) => data.stripped,
        _ => ct,
    }
}

/// A data-type that can be read in several ways.
pub open spec fn has_readings(ct: TypeId, types: TypeFactory) -> bool {
    let d = types.dt(ct);
    match d.kind {
        TypeKind::Pointer(_) | TypeKind::PointerRel(_) => types.dt(d.pointer().ptrto->0).kind is Union,
        TypeKind::Array(_) | TypeKind::Struct(_) | TypeKind::Union(_) | TypeKind::PartialUnion(_) => true,
        _ => false,
    }
}

/// What an operation takes a data-type for.
pub open spec fn read_as(ct: TypeId, op: OpId, slot: i32, data: Funcdata, types: TypeFactory) -> TypeId {
    if has_readings(ct, types) {
        match data.union_field(ct, op, slot, types) {
            Some(res) => res.resolve,
            None => taken_for(ct, types),
        }
    } else {
        ct
    }
}

impl Datatype {
    /// What an operation takes a data-type for.
    pub fn find_resolve(ct: TypeId, op: OpId, slot: i32, data: &Funcdata, glb: &Architecture) -> (res: TypeId)
        requires
            glb.types.sound(),
            glb.types.has(ct),
            data.has_op(op),
            data.typed_in(glb.types),
            glb.types.dt(ct).kind is Struct ==> glb.types.dt(ct).fields().len() > 0,
        ensures
            res == read_as(ct, op, slot, *data, glb.types),
            glb.types.has(res),
    {
        let types = &glb.types;
        proof {
            types.look(ct);
            types.parts(types.dt(ct));
        }
        let dt = types.get(ct);
        match &dt.kind {
            TypeKind::Pointer(_) | TypeKind::PointerRel(_) => {
                let target = dt.get_ptr_to();
                proof {
                    types.look(target);
                }
                if types.get(target).get_metatype() == TypeMetatype::Union {
                    if let Some(res) = data.get_union_field(ct, op, slot, types) {
                        return res.get_datatype();
                    }
                }
                ct
            },
            TypeKind::Array(array) => match data.get_union_field(ct, op, slot, types) {
                Some(res) => res.get_datatype(),
                None => array.arrayof.unwrap(),
            },
            TypeKind::Struct(fields) => match data.get_union_field(ct, op, slot, types) {
                Some(res) => res.get_datatype(),
                None => fields.field[0].tp,
            },
            TypeKind::Union(_) => match data.get_union_field(ct, op, slot, types) {
                Some(res) => res.get_datatype(),
                None => ct,
            },
            TypeKind::PartialUnion(partial) => match data.get_union_field(ct, op, slot, types) {
                Some(res) => res.get_datatype(),
                None => partial.stripped,
            },
            _ => ct,
        }
    }
}

impl Funcdata {
    /// What an operation takes the data-type of a value that it reads for.
    pub open spec fn read_facing(self, vn: VarnodeId, op: OpId, types: TypeFactory) -> TypeId {
        let tp = self.value(vn).tp;
        if types.dt(tp).flag(Datatype::NEEDS_RESOLUTION) {
            read_as(tp, op, self.operation(op).slot(vn) as i32, self, types)
        } else {
            tp
        }
    }

    pub fn vn_get_type_read_facing(&self, vn: VarnodeId, op: OpId, glb: &Architecture) -> (res: TypeId)
        requires
            glb.workable(),
            self.flowing(),
            self.typed_in(glb.types),
            self.has_vn(vn),
            self.has_op(op),
        ensures
            res == self.read_facing(vn, op, glb.types),
            glb.types.has(res),
    {
        let tp = self.vn(vn).get_type();
        assert(glb.types.has(self.value(vn).tp));
        if !glb.types.get(tp).needs_resolution() {
            return tp;
        }
        assert(glb.suits(glb.types.dt(tp)));
        let slot: i32 = self.op(op).get_slot(vn);
        Datatype::find_resolve(tp, op, slot, self, glb)
    }

    /// What the operation that writes a value takes its data-type for.
    pub open spec fn def_facing(self, vn: VarnodeId, types: TypeFactory) -> TypeId {
        let tp = self.value(vn).tp;
        if types.dt(tp).flag(Datatype::NEEDS_RESOLUTION) && self.value(vn).flag(Varnode::WRITTEN) {
            read_as(tp, self.value(vn).def->0, -1i32, self, types)
        } else {
            tp
        }
    }

    pub fn vn_get_type_def_facing(&self, vn: VarnodeId, glb: &Architecture) -> (res: TypeId)
        requires
            glb.workable(),
            self.flowing(),
            self.typed_in(glb.types),
            self.has_vn(vn),
        ensures
            res == self.def_facing(vn, glb.types),
            glb.types.has(res),
    {
        let tp = self.vn(vn).get_type();
        assert(glb.types.has(self.value(vn).tp));
        if !glb.types.get(tp).needs_resolution() || !self.vn(vn).is_written() {
            return tp;
        }
        assert(glb.suits(glb.types.dt(tp)));
        let def = self.vn(vn).get_def().unwrap();
        Datatype::find_resolve(tp, def, -1, self, glb)
    }
}

/// The field of a data-type that holds some bytes for an operation, with where
/// the bytes start in it. The last value that was known for that is kept where
/// nothing is said.
pub open spec fn truncation(
    ct: TypeId,
    off: i64,
    sz: i32,
    op: OpId,
    slot: i32,
    before: i64,
    data: Funcdata,
    types: TypeFactory,
) -> (Option<TypeField>, i64) {
    let d = types.dt(ct);
    match d.kind {
        TypeKind::Struct(fields) => {
            let index = crate::types::fields::field_holding(fields.field@, (off as i32) as int, types);
            let field = fields.field@[index];
            let noff = off.wrapping_sub(field.offset as i64) as i32;
            if index < 0 || noff + sz > types.size_of(field.tp) {
                (None, before)
            } else {
                (Some(field), noff as i64)
            }
        },
        TypeKind::Union(_) => union_truncation(ct, off, sz, op, slot, before, data, types),
        TypeKind::PartialUnion(partial) => union_truncation(
            partial.container,
            off.wrapping_add(partial.offset as i64),
            sz,
            op,
            slot,
            before,
            data,
            types,
        ),
        _ => (None, before),
    }
}

pub open spec fn union_truncation(
    ct: TypeId,
    off: i64,
    sz: i32,
    op: OpId,
    slot: i32,
    before: i64,
    data: Funcdata,
    types: TypeFactory,
) -> (Option<TypeField>, i64) {
    match data.union_field(ct, op, slot, types) {
        Some(res) => {
            let field = types.dt(ct).fields()[res.field_num as int];
            let inner = off.wrapping_sub(field.offset as i64);
            if res.field_num < 0 {
                (None, before)
            } else if inner + sz > types.size_of(field.tp) {
                (None, inner)
            } else {
                (Some(field), inner)
            }
        },
        None => (None, before),
    }
}

/// The field that a union is known to be read as is one of its fields.
pub open spec fn reads_field(ct: TypeId, op: OpId, slot: i32, data: Funcdata, types: TypeFactory) -> bool {
    data.union_field(ct, op, slot, types) matches Some(res) ==> res.field_num < types.dt(ct).fields().len()
}

impl Datatype {
    /// The field of a data-type that holds some bytes for an operation.
    pub fn find_truncation(
        ct: TypeId,
        off: i64,
        sz: i32,
        op: OpId,
        slot: i32,
        newoff: &mut i64,
        data: &Funcdata,
        glb: &Architecture,
    ) -> (res: Option<TypeField>)
        requires
            glb.types.sound(),
            glb.types.has(ct),
            glb.types.firm_kind(glb.types.dt(ct)),
            data.has_op(op),
            data.typed_in(glb.types),
            glb.types.dt(ct).kind is Union ==> reads_field(ct, op, slot, *data, glb.types),
            glb.types.dt(ct).kind matches TypeKind::PartialUnion(partial) ==> reads_field(
                partial.container,
                op,
                slot,
                *data,
                glb.types,
            ),
        ensures
            (res, *final(newoff)) == truncation(ct, off, sz, op, slot, *old(newoff), *data, glb.types),
            res matches Some(field) ==> glb.types.has(field.tp),
    {
        let types = &glb.types;
        proof {
            types.look(ct);
            types.parts(types.dt(ct));
        }
        let dt = types.get(ct);
        match &dt.kind {
            TypeKind::Struct(fields) => {
                let index: i32 = dt.get_field_iter(off as i32, types);
                if index < 0 {
                    return None;
                }
                let curfield = &fields.field[index as usize];
                let noff: i32 = off.wrapping_sub(curfield.offset as i64) as i32;
                if noff as i64 + sz as i64 > types.get(curfield.tp).get_size() as i64 {
                    return None;
                }
                *newoff = noff as i64;
                Some(curfield.copy())
            },
            TypeKind::Union(_) => Datatype::find_union_truncation(ct, off, sz, op, slot, newoff, data, glb),
            TypeKind::PartialUnion(partial) => Datatype::find_union_truncation(
                partial.container,
                off.wrapping_add(partial.offset as i64),
                sz,
                op,
                slot,
                newoff,
                data,
                glb,
            ),
            _ => None,
        }
    }

    fn find_union_truncation(
        ct: TypeId,
        off: i64,
        sz: i32,
        op: OpId,
        slot: i32,
        newoff: &mut i64,
        data: &Funcdata,
        glb: &Architecture,
    ) -> (res: Option<TypeField>)
        requires
            glb.types.sound(),
            glb.types.has(ct),
            glb.types.dt(ct).kind is Union,
            data.has_op(op),
            data.typed_in(glb.types),
            reads_field(ct, op, slot, *data, glb.types),
            glb.types.dt(ct).genuine(),
        ensures
            (res, *final(newoff)) == union_truncation(ct, off, sz, op, slot, *old(newoff), *data, glb.types),
            res matches Some(field) ==> glb.types.has(field.tp),
    {
        let types = &glb.types;
        proof {
            types.look(ct);
            types.parts(types.dt(ct));
        }
        let Some(res) = data.get_union_field(ct, op, slot, types) else {
            return None;
        };
        if res.get_field_num() < 0 {
            return None;
        }
        let field = types.get(ct).get_field(res.get_field_num());
        *newoff = off.wrapping_sub(field.offset as i64);
        if *newoff as i128 + sz as i128 > types.get(field.tp).get_size() as i128 {
            return None;
        }
        Some(field.copy())
    }

    /// The part of a data-type with a single component that an operation means: the
    /// component, or the whole where the whole is what is locked on the other side.
    pub open spec fn single_component(parent: TypeId, op: OpId, slot: i32, data: Funcdata, types: TypeFactory) -> i32 {
        let o = data.operation(op);
        let whole = match o.opcode {
            OpCode::Copy | OpCode::Indirect => {
                let other = if slot == 0 {
                    o.output
                } else {
                    Some(o.inrefs@[0])
                };
                other is Some && data.value(other->0).flag(Varnode::TYPELOCK) && data.value(other->0).tp == parent
            },
            _ => if (o.opcode == OpCode::Load && slot == -1) || (o.opcode == OpCode::Store && slot == 2) {
                let ct = types.dt(data.read_facing(o.inrefs@[1], op, types));
                data.value(o.inrefs@[1]).flag(Varnode::TYPELOCK) && ct.is_pointer() && ct.pointer().ptrto
                    == Some(parent)
            } else if o.flag(PcodeOp::CALL) {
                match data.call_proto(op) {
                    Some(proto) => if slot >= 1 && proto.input_locked() {
                        slot - 1 < proto.params@.len() && proto.params@[slot - 1].tp == parent
                    } else if slot < 0 && proto.output_locked() {
                        proto.output->0.tp == parent
                    } else {
                        false
                    },
                    None => false,
                }
            } else {
                false
            },
        };
        if whole {
            -1i32
        } else {
            0
        }
    }

    pub fn score_single_component(parent: TypeId, op: OpId, slot: i32, data: &Funcdata, glb: &Architecture) -> (res: i32)
        requires
            glb.workable(),
            data.flowing(),
            data.typed_in(glb.types),
            data.has_op(op),
        ensures
            res == Datatype::single_component(parent, op, slot, *data, glb.types),
    {
        let opc = data.op(op).code();
        assert(data.shaped(data.operation(op)));
        if opc == OpCode::Copy || opc == OpCode::Indirect {
            assert(data.has_vn(data.operation(op).inrefs@[0]));
            let vn = if slot == 0 {
                data.op(op).get_out()
            } else {
                Some(data.op(op).get_in(0))
            };
            if let Some(vn) = vn {
                let vn_data = data.vn(vn);
                if vn_data.is_type_lock() && vn_data.get_type() == parent {
                    return -1;
                }
            }
        } else if (opc == OpCode::Load && slot == -1) || (opc == OpCode::Store && slot == 2) {
            assert(data.has_vn(data.operation(op).inrefs@[1]));
            let vn = data.op(op).get_in(1);
            if data.vn(vn).is_type_lock() {
                let ct = data.vn_get_type_read_facing(vn, op, glb);
                proof {
                    glb.types.look(ct);
                    glb.types.parts(glb.types.dt(ct));
                }
                let ct_dt = glb.types.get(ct);
                if ct_dt.get_metatype() == TypeMetatype::Ptr && ct_dt.get_ptr_to() == parent {
                    return -1;
                }
            }
        } else if data.op(op).is_call() {
            if let Some(spec) = data.get_call_specs_op(op) {
                let mut param: Option<TypeId> = None;
                if slot >= 1 && spec.is_input_locked() {
                    param = match spec.get_param(slot - 1) {
                        Some(param) => Some(param.get_type()),
                        None => None,
                    };
                } else if slot < 0 && spec.is_output_locked() {
                    param = match &spec.output {
                        Some(out) => Some(out.get_type()),
                        None => None,
                    };
                }
                if param == Some(parent) {
                    return -1;
                }
            }
        }
        0
    }
}

/// What is known, or has just become known, of how an operation reads a union.
pub open spec fn known_reading(ct: TypeId, op: OpId, slot: i32, data: Funcdata, types: TypeFactory) -> Option<ResolvedUnion> {
    match data.union_field(ct, op, slot, types) {
        Some(res) => Some(res),
        None => data.address_field(ct, data.operation(op).addr, types),
    }
}

/// What finding the field of a union does that holds the bytes at an offset for an operation.
pub open spec fn settles_part(
    after: Funcdata,
    after_glb: Architecture,
    before: Funcdata,
    before_glb: Architecture,
    ct: TypeId,
    offset: i64,
    op: OpId,
    slot: i32,
    old_off: i64,
    new_off: i64,
    res: Result<Option<TypeField>>,
) -> bool {
    let types = before_glb.types;
    let d = types.dt(ct);
    let truncated = before.operation(op).opcode == OpCode::Subpiece && slot == 1;
    match known_reading(ct, op, slot, before, types) {
        Some(known) => {
            &&& after_glb == before_glb
            &&& if before.union_field(ct, op, slot, types) is Some {
                after == before
            } else {
                after.noted_union(before, ct, op, slot, known, types)
            }
            &&& field_found(d, known.field_num, offset.wrapping_sub(d.fields()[known.field_num as int].offset as i64), old_off, new_off, res)
        },
        None => exists|s: Result<Scoring>| #[trigger]
            scores_part(after_glb, before_glb, ct, offset as i32, op, slot, before, s) && match s {
                Ok(s) => {
                    &&& after.noted_union(before, ct, op, slot, s.result, after_glb.types)
                    &&& field_found(
                        d,
                        s.result.field_num,
                        if truncated {
                            0
                        } else {
                            offset.wrapping_sub(d.fields()[s.result.field_num as int].offset as i64)
                        },
                        old_off,
                        new_off,
                        res,
                    )
                },
                Err(e) => after == before && new_off == old_off && res == Err::<Option<TypeField>, Error>(e),
            },
    }
}

/// A field has been found, with where the bytes start in it, unless its number is negative.
pub open spec fn field_found(
    d: Datatype,
    field_num: i32,
    inner: i64,
    old_off: i64,
    new_off: i64,
    res: Result<Option<TypeField>>,
) -> bool {
    if field_num < 0 {
        new_off == old_off && res == Ok::<Option<TypeField>, Error>(None)
    } else {
        new_off == inner && res == Ok::<Option<TypeField>, Error>(Some(d.fields()[field_num as int]))
    }
}

/// What scoring the fields of a union for the bytes at an offset does.
pub open spec fn scores_part(
    after: Architecture,
    before: Architecture,
    ct: TypeId,
    offset: i32,
    op: OpId,
    slot: i32,
    data: Funcdata,
    res: Result<Scoring>,
) -> bool {
    let opened = crate::unionresolve::pick::opened_part(ct, before.types);
    if data.operation(op).opcode == OpCode::Subpiece && slot == 1 {
        let vn = data.operation(op).output->0;
        crate::unionresolve::pick::chooses_part(
            after,
            before,
            crate::unionresolve::pick::whole_fields(opened, 0, ct, offset, vn, data, before.types).turned(),
            offset,
            data.value(vn).size,
            data,
            res,
        )
    } else if data.operation(op).flag(PcodeOp::MARKER) && slot < 0 {
        after == before && res == Ok::<Scoring, Error>(
            crate::unionresolve::pick::blank(ResolvedUnion::unresolved(ct, before.types)),
        )
    } else {
        crate::unionresolve::pick::chooses_part(
            after,
            before,
            crate::unionresolve::pick::parts_of_fields(opened, 0, ct, offset, op, slot, data, before),
            offset,
            data.value(crate::unionresolve::pick::value_at(op, slot, data)).size,
            data,
            res,
        )
    }
}

/// The fields that a union is known to be read as, here and at the address, are among its fields.
pub open spec fn knows_field(ct: TypeId, op: OpId, slot: i32, data: Funcdata, types: TypeFactory) -> bool {
    known_reading(ct, op, slot, data, types) matches Some(res) ==> res.field_num < types.dt(ct).fields().len()
}

/// A function whose resolutions have changed is as sound as before.
pub proof fn still_scorable(after: Funcdata, before: Funcdata, glb: Architecture)
    requires
        crate::unionresolve::score::scorable(before, glb),
        after == (Funcdata { union_map: after.union_map, ..before }),
        after.typed_in(glb.types),
    ensures
        crate::unionresolve::score::scorable(after, glb),
{
    assert forall|op: OpId| #![trigger after.has_op(op)] after.has_op(op) implies {
        &&& after.operation(op).inrefs@.len() <= i32::MAX
        &&& after.operation(op).output is Some ==> after.has_vn(after.operation(op).output->0)
        &&& after.shaped(after.operation(op))
    } by {
        assert(before.has_op(op));
        assert(before.shaped(before.operation(op)));
    }
    assert forall|op: OpId, i: int| #![trigger after.operation(op).inrefs@[i]] after.has_op(op) && 0 <= i
        < after.operation(op).inrefs@.len() implies after.has_vn(after.operation(op).inrefs@[i]) by {
        assert(before.has_vn(before.operation(op).inrefs@[i]));
    }
    assert forall|vn: VarnodeId| #![trigger after.has_vn(vn)] after.has_vn(vn) implies {
        &&& 1 <= after.value(vn).size < 0x1000_0000
        &&& after.value(vn).flag(Varnode::CONSTANT) ==> after.value(vn).size <= 8
        &&& after.value(vn).flag(Varnode::WRITTEN) ==> after.value(vn).def is Some && after.has_op(
            after.value(vn).def->0,
        )
    } by {
        assert(before.has_vn(vn));
    }
    assert forall|vn: VarnodeId, i: int| #![trigger after.value(vn).descend@[i]] after.has_vn(vn) && 0 <= i
        < after.value(vn).descend@.len() implies after.has_op(after.value(vn).descend@[i]) && after.operation(
        after.value(vn).descend@[i],
    ).inrefs@.contains(vn) by {
        assert(before.has_op(before.value(vn).descend@[i]));
    }
}

impl Datatype {
    /// The field of a union that holds the bytes at an offset for an operation. What
    /// comes out is noted.
    fn resolve_union_part(
        ct: TypeId,
        offset: i64,
        op: OpId,
        slot: i32,
        newoff: &mut i64,
        data: &mut Funcdata,
        glb: &mut Architecture,
    ) -> (res: Result<Option<TypeField>>)
        requires
            crate::unionresolve::score::scorable(*old(data), *old(glb)),
            old(glb).types.has(ct),
            old(glb).types.dt(ct).kind is Union,
            crate::unionresolve::pick::has_slot(op, slot, *old(data)),
            knows_field(ct, op, slot, *old(data), old(glb).types),
        ensures
            final(glb).grew(*old(glb)),
            settles_part(
                *final(data),
                *final(glb),
                *old(data),
                *old(glb),
                ct,
                offset,
                op,
                slot,
                *old(newoff),
                *final(newoff),
                res,
            ),
            crate::unionresolve::score::scorable(*final(data), *final(glb)),
            *final(data) == (Funcdata { union_map: final(data).union_map, ..*old(data) }),
            res matches Ok(Some(field)) ==> final(glb).types.has(field.tp) && !(final(glb).types.dt(
                field.tp,
            ).kind is Spacebase),
    {
        let ghost before = *data;
        let ghost before_glb = *glb;
        proof {
            glb.types.look(ct);
            glb.types.parts(glb.types.dt(ct));
            crate::types::suit::grew_never(*glb);
        }
        let mut known = data.get_union_field(ct, op, slot, &glb.types);
        if known.is_none() {
            let addr = data.op(op).get_addr();
            known = data.get_address_based_union_field(ct, addr, slot, &glb.types);
            if let Some(address_res) = known {
                data.set_union_field(ct, op, slot, &address_res, &glb.types);
                proof {
                    still_scorable(*data, before, *glb);
                }
            }
        }
        if let Some(res) = known {
            if res.get_field_num() < 0 {
                return Ok(None);
            }
            let field = glb.types.get(ct).get_field(res.get_field_num());
            *newoff = offset.wrapping_sub(field.offset as i64);
            return Ok(Some(field.copy()));
        }
        let truncated = data.op(op).code() == OpCode::Subpiece && slot == 1;
        let scored = if truncated {
            assert(data.shaped(data.operation(op)));
            ScoreUnionFields::new_offset(data, glb, ct, offset as i32, op)
        } else {
            ScoreUnionFields::new_offset_slot(data, glb, ct, offset as i32, op, slot)
        };
        proof {
            assert(scores_part(
                *glb,
                before_glb,
                ct,
                offset as i32,
                op,
                slot,
                before,
                crate::unionresolve::pick::seen(scored),
            ));
            crate::unionresolve::score::scorable_later(*data, *glb, before_glb);
            assert(glb.types.has(ct));
            glb.types.look(ct);
            glb.types.parts(glb.types.dt(ct));
        }
        match scored {
            Ok(score_fields) => {
                let result = *score_fields.get_result();
                data.set_union_field(ct, op, slot, &result, &glb.types);
                proof {
                    still_scorable(*data, before, *glb);
                }
                if result.get_field_num() < 0 {
                    return Ok(None);
                }
                let field = glb.types.get(ct).get_field(result.get_field_num());
                *newoff = if truncated {
                    0
                } else {
                    offset.wrapping_sub(field.offset as i64)
                };
                Ok(Some(field.copy()))
            },
            Err(e) => Err(e),
        }
    }
}

/// The union that some bytes are looked for in, and where they start in it.
pub open spec fn part_place(ct: TypeId, offset: i64, types: TypeFactory) -> Option<(TypeId, i64)> {
    match types.dt(ct).kind {
        TypeKind::Union(_) => Some((ct, offset)),
        TypeKind::PartialUnion(partial) => Some((partial.container, offset.wrapping_add(partial.offset as i64))),
        _ => None,
    }
}

/// What resolving an array, a structure or a union that nothing is known of does.
pub open spec fn settles_whole(
    after: Funcdata,
    after_glb: Architecture,
    before: Funcdata,
    before_glb: Architecture,
    ct: TypeId,
    op: OpId,
    slot: i32,
    res: Result<TypeId>,
) -> bool {
    let types = before_glb.types;
    match types.dt(ct).kind {
        TypeKind::Array(_) | TypeKind::Struct(_) => exists|r: Result<ResolvedUnion>| #[trigger]
            crate::unionresolve::settles(
                after_glb,
                before_glb,
                ct,
                Datatype::single_component(ct, op, slot, before, types),
                r,
            ) && match r {
                Ok(resolve) => {
                    &&& after.noted_union(before, ct, op, slot, resolve, after_glb.types)
                    &&& res == Ok::<TypeId, Error>(resolve.resolve)
                },
                Err(e) => after == before && res == Err::<TypeId, Error>(e),
            },
        _ => match before.address_field(ct, before.operation(op).addr, types) {
            Some(there) => exists|r: Result<ResolvedUnion>| #[trigger]
                crate::unionresolve::settles(after_glb, before_glb, ct, there.field_num, r) && match r {
                    Ok(resolve) => {
                        &&& after.noted_union(
                            before,
                            ct,
                            op,
                            slot,
                            if types.dt(ct).kind is Union {
                                there
                            } else {
                                resolve
                            },
                            after_glb.types,
                        )
                        &&& res == Ok::<TypeId, Error>(resolve.resolve)
                    },
                    Err(e) => after == before && res == Err::<TypeId, Error>(e),
                },
            None => exists|s: Result<Scoring>| #[trigger]
                crate::unionresolve::pick::chooses(after_glb, before_glb, ct, op, slot, before, s) && match s {
                    Ok(s) => {
                        &&& after.noted_union(before, ct, op, slot, s.result, after_glb.types)
                        &&& res == Ok::<TypeId, Error>(s.result.resolve)
                    },
                    Err(e) => after == before && res == Err::<TypeId, Error>(e),
                },
        },
    }
}

/// What resolving a part of a union that nothing is known of does: the field that holds
/// the part is found, and the part of the field, if it is just as large.
pub open spec fn settles_piece(
    after: Funcdata,
    after_glb: Architecture,
    before: Funcdata,
    before_glb: Architecture,
    ct: TypeId,
    op: OpId,
    slot: i32,
    res: Result<TypeId>,
) -> bool {
    let types = before_glb.types;
    let d = types.dt(ct);
    let partial = d.kind->PartialUnion_0;
    if types.size_of(partial.container) <= d.size {
        &&& after_glb == before_glb
        &&& fixes(
            after,
            before,
            ct,
            op,
            slot,
            if types.size_of(partial.container) == d.size {
                partial.container
            } else {
                partial.stripped
            },
            types,
            res,
        )
    } else {
        exists|mid: Funcdata, mid_glb: Architecture, inner: i64, r: Result<Option<TypeField>>| #[trigger]
            settles_part(
                mid,
                mid_glb,
                before,
                before_glb,
                partial.container,
                partial.offset as i64,
                op,
                slot,
                partial.offset as i64,
                inner,
                r,
            ) && match r {
                Ok(Some(field)) => fixes_piece(after, after_glb, mid, mid_glb, ct, field.tp, inner as i32, op, slot, res),
                Ok(None) => after_glb == mid_glb && fixes(
                    after,
                    mid,
                    ct,
                    op,
                    slot,
                    partial.stripped,
                    mid_glb.types,
                    res,
                ),
                Err(e) => after == mid && after_glb == mid_glb && res == Err::<TypeId, Error>(e),
            }
    }
}

/// What settling a part of a union as a part of a field does.
pub open spec fn fixes_piece(
    after: Funcdata,
    after_glb: Architecture,
    before: Funcdata,
    before_glb: Architecture,
    ct: TypeId,
    field: TypeId,
    offset: i32,
    op: OpId,
    slot: i32,
    res: Result<TypeId>,
) -> bool {
    let d = before_glb.types.dt(ct);
    if !before_glb.roomy(3) {
        after == before && after_glb == before_glb && (res matches Err(e) && crate::unionresolve::fit::out_of_room(e))
    } else {
        &&& after_glb.same_program(before_glb)
        &&& exists|piece: Result<Option<TypeId>>| #[trigger]
            after_glb.types.makes_piece(before_glb.types, field, offset, d.size, piece) && match piece {
                Ok(found) => fixes(
                    after,
                    before,
                    ct,
                    op,
                    slot,
                    if found is Some && after_glb.types.dt(found->0).size == d.size {
                        found->0
                    } else {
                        d.kind->PartialUnion_0.stripped
                    },
                    after_glb.types,
                    res,
                ),
                Err(e) => after == before && res == Err::<TypeId, Error>(e),
            }
    }
}

/// A part of a union is settled as a data-type.
pub open spec fn fixes(
    after: Funcdata,
    before: Funcdata,
    ct: TypeId,
    op: OpId,
    slot: i32,
    resolve: TypeId,
    types: TypeFactory,
    res: Result<TypeId>,
) -> bool {
    after.settled_union(before, ct, op, slot, resolve, types) && res == Ok::<TypeId, Error>(resolve)
}

/// What resolving a data-type for an operation does.
pub open spec fn settles_in_flow(
    after: Funcdata,
    after_glb: Architecture,
    before: Funcdata,
    before_glb: Architecture,
    ct: TypeId,
    op: OpId,
    slot: i32,
    res: Result<TypeId>,
) -> bool {
    let types = before_glb.types;
    if !has_readings(ct, types) {
        after == before && after_glb == before_glb && res == Ok::<TypeId, Error>(ct)
    } else {
        match before.union_field(ct, op, slot, types) {
            Some(known) => after == before && after_glb == before_glb && res == Ok::<TypeId, Error>(known.resolve),
            None => if types.dt(ct).kind is PartialUnion {
                settles_piece(after, after_glb, before, before_glb, ct, op, slot, res)
            } else {
                settles_whole(after, after_glb, before, before_glb, ct, op, slot, res)
            },
        }
    }
}

/// A data-type that can be resolved for an operation: what is known of it fits.
pub open spec fn resolvable_in_flow(ct: TypeId, op: OpId, slot: i32, data: Funcdata, glb: Architecture) -> bool {
    let types = glb.types;
    match types.dt(ct).kind {
        TypeKind::Struct(fields) => fields.field@.len() > 0,
        TypeKind::PartialUnion(partial) => types.dt(ct).size < 0x1000_0000 && knows_field(
            partial.container,
            op,
            slot,
            data,
            types,
        ),
        TypeKind::Pointer(_) | TypeKind::PointerRel(_) | TypeKind::Union(_) => data.address_field(
            ct,
            data.operation(op).addr,
            types,
        ) matches Some(there) ==> crate::unionresolve::has_component(ct, there.field_num, types),
        _ => true,
    }
}

impl Datatype {
    /// The field of a data-type that holds the bytes at an offset for an operation.
    /// What comes out is noted.
    pub fn resolve_truncation(
        ct: TypeId,
        offset: i64,
        op: OpId,
        slot: i32,
        newoff: &mut i64,
        data: &mut Funcdata,
        glb: &mut Architecture,
    ) -> (res: Result<Option<TypeField>>)
        requires
            crate::unionresolve::score::scorable(*old(data), *old(glb)),
            old(glb).types.has(ct),
            crate::unionresolve::pick::has_slot(op, slot, *old(data)),
            part_place(ct, offset, old(glb).types) matches Some(place) ==> knows_field(
                place.0,
                op,
                slot,
                *old(data),
                old(glb).types,
            ),
        ensures
            final(glb).grew(*old(glb)),
            match part_place(ct, offset, old(glb).types) {
                Some(place) => settles_part(
                    *final(data),
                    *final(glb),
                    *old(data),
                    *old(glb),
                    place.0,
                    place.1,
                    op,
                    slot,
                    *old(newoff),
                    *final(newoff),
                    res,
                ),
                None => {
                    &&& *final(data) == *old(data)
                    &&& *final(glb) == *old(glb)
                    &&& *final(newoff) == *old(newoff)
                    &&& res == Ok::<Option<TypeField>, Error>(None)
                },
            },
            res matches Ok(Some(field)) ==> final(glb).types.has(field.tp),
            crate::unionresolve::score::scorable(*final(data), *final(glb)),
    {
        proof {
            glb.types.look(ct);
            glb.types.parts(glb.types.dt(ct));
            crate::types::suit::grew_never(*glb);
        }
        let dt = glb.types.get(ct);
        match &dt.kind {
            TypeKind::Union(_) => Datatype::resolve_union_part(ct, offset, op, slot, newoff, data, glb),
            TypeKind::PartialUnion(partial) => {
                let container = partial.container;
                let start: i64 = offset.wrapping_add(partial.offset as i64);
                Datatype::resolve_union_part(container, start, op, slot, newoff, data, glb)
            },
            _ => Ok(None),
        }
    }

    /// Resolves an array, a structure or a union, or a pointer to one, that nothing is known of.
    fn resolve_whole(ct: TypeId, op: OpId, slot: i32, data: &mut Funcdata, glb: &mut Architecture) -> (res: Result<TypeId>)
        requires
            crate::unionresolve::score::scorable(*old(data), *old(glb)),
            old(glb).types.has(ct),
            has_readings(ct, old(glb).types),
            !(old(glb).types.dt(ct).kind is PartialUnion),
            crate::unionresolve::pick::has_slot(op, slot, *old(data)),
            resolvable_in_flow(ct, op, slot, *old(data), *old(glb)),
        ensures
            final(glb).grew(*old(glb)),
            settles_whole(*final(data), *final(glb), *old(data), *old(glb), ct, op, slot, res),
            crate::unionresolve::score::scorable(*final(data), *final(glb)),
    {
        let ghost before = *data;
        let ghost before_glb = *glb;
        proof {
            glb.types.look(ct);
            glb.types.parts(glb.types.dt(ct));
            crate::types::suit::grew_never(*glb);
        }
        let meta = glb.types.get(ct).get_metatype();
        if meta == TypeMetatype::Array || meta == TypeMetatype::Struct {
            let field_num: i32 = Datatype::score_single_component(ct, op, slot, data, glb);
            let filled = settle_field(ct, field_num, glb);
            proof {
                crate::unionresolve::score::scorable_later(*data, *glb, before_glb);
                assert(glb.types.has(ct));
                assert(crate::unionresolve::settles(
                    *glb,
                    before_glb,
                    ct,
                    Datatype::single_component(ct, op, slot, before, before_glb.types),
                    filled,
                ));
            }
            return match filled {
                Ok(comp_fill) => {
                    data.set_union_field(ct, op, slot, &comp_fill, &glb.types);
                    proof {
                        still_scorable(*data, before, *glb);
                    }
                    Ok(comp_fill.get_datatype())
                },
                Err(e) => Err(e),
            };
        }
        let there = {
            let addr = data.op(op).get_addr();
            data.get_address_based_union_field(ct, addr, slot, &glb.types)
        };
        if let Some(there) = there {
            let filled = settle_field(ct, there.get_field_num(), glb);
            proof {
                crate::unionresolve::score::scorable_later(*data, *glb, before_glb);
                assert(glb.types.has(ct));
                assert(glb.types.has(there.resolve));
                assert(glb.types.has(there.base_type));
                assert(crate::unionresolve::settles(*glb, before_glb, ct, there.field_num, filled));
            }
            return match filled {
                Ok(resolve) => {
                    if meta == TypeMetatype::Union {
                        data.set_union_field(ct, op, slot, &there, &glb.types);
                    } else {
                        data.set_union_field(ct, op, slot, &resolve, &glb.types);
                    }
                    proof {
                        still_scorable(*data, before, *glb);
                    }
                    Ok(resolve.get_datatype())
                },
                Err(e) => Err(e),
            };
        }
        let scored = ScoreUnionFields::new(data, glb, ct, op, slot);
        proof {
            crate::unionresolve::score::scorable_later(*data, *glb, before_glb);
            assert(glb.types.has(ct));
            assert(glb.types.has(crate::unionresolve::union_behind(ct, before_glb.types)));
            assert(crate::unionresolve::pick::chooses(
                *glb,
                before_glb,
                ct,
                op,
                slot,
                before,
                crate::unionresolve::pick::seen(scored),
            ));
        }
        match scored {
            Ok(score_fields) => {
                let result = *score_fields.get_result();
                data.set_union_field(ct, op, slot, &result, &glb.types);
                proof {
                    still_scorable(*data, before, *glb);
                }
                Ok(result.get_datatype())
            },
            Err(e) => Err(e),
        }
    }

    /// Resolves a part of a union that nothing is known of.
    fn resolve_piece(ct: TypeId, op: OpId, slot: i32, data: &mut Funcdata, glb: &mut Architecture) -> (res: Result<TypeId>)
        requires
            crate::unionresolve::score::scorable(*old(data), *old(glb)),
            old(glb).types.has(ct),
            old(glb).types.dt(ct).kind is PartialUnion,
            crate::unionresolve::pick::has_slot(op, slot, *old(data)),
            resolvable_in_flow(ct, op, slot, *old(data), *old(glb)),
        ensures
            final(glb).grew(*old(glb)),
            settles_piece(*final(data), *final(glb), *old(data), *old(glb), ct, op, slot, res),
            crate::unionresolve::score::scorable(*final(data), *final(glb)),
    {
        let ghost before = *data;
        let ghost before_glb = *glb;
        proof {
            glb.types.look(ct);
            glb.types.parts(glb.types.dt(ct));
            crate::types::suit::grew_never(*glb);
        }
        let dt = glb.types.get(ct);
        let size: i32 = dt.get_size();
        let container = dt.get_parent_union();
        let stripped = dt.get_stripped().unwrap();
        let offset: i64 = dt.get_offset() as i64;
        let whole: i32 = glb.types.get(container).get_size();
        if whole <= size {
            let result = if whole == size {
                container
            } else {
                stripped
            };
            data.update_union_field(ct, op, slot, result, &glb.types);
            proof {
                still_scorable(*data, before, *glb);
            }
            return Ok(result);
        }
        let mut inner: i64 = offset;
        let r = Datatype::resolve_union_part(container, offset, op, slot, &mut inner, data, glb);
        let ghost mid = *data;
        let ghost mid_glb = *glb;
        proof {
            assert(settles_part(mid, mid_glb, before, before_glb, container, offset, op, slot, offset, inner, r));
            assert(mid_glb.types.has(ct));
            assert(mid_glb.types.has(stripped));
            mid_glb.types.look(ct);
        }
        match r {
            Ok(Some(field)) => {
                if !glb.has_room_for(3) {
                    let e = too_many_types();
                    assert(fixes_piece(
                        mid,
                        *glb,
                        mid,
                        mid_glb,
                        ct,
                        field.tp,
                        inner as i32,
                        op,
                        slot,
                        Err::<TypeId, Error>(e),
                    ));
                    return Err(e);
                }
                proof {
                    crate::types::suit::cuts_easily(*glb, field.tp, inner as i32, size);
                }
                let piece = glb.piece_of(field.tp, inner as i32, size);
                proof {
                    crate::types::suit::grew_twice(*glb, mid_glb, before_glb);
                    crate::unionresolve::score::scorable_later(mid, *glb, mid_glb);
                    assert(glb.types.makes_piece(mid_glb.types, field.tp, inner as i32, size, piece));
                    assert(glb.types.has(ct));
                    assert(glb.types.has(stripped));
                }
                match piece {
                    Ok(found) => {
                        let result = match found {
                            Some(tp) => if glb.types.get(tp).get_size() == size {
                                tp
                            } else {
                                stripped
                            },
                            None => stripped,
                        };
                        data.update_union_field(ct, op, slot, result, &glb.types);
                        proof {
                            still_scorable(*data, mid, *glb);
                            assert(fixes_piece(
                                *data,
                                *glb,
                                mid,
                                mid_glb,
                                ct,
                                field.tp,
                                inner as i32,
                                op,
                                slot,
                                Ok::<TypeId, Error>(result),
                            ));
                        }
                        Ok(result)
                    },
                    Err(e) => {
                        assert(fixes_piece(
                            *data,
                            *glb,
                            mid,
                            mid_glb,
                            ct,
                            field.tp,
                            inner as i32,
                            op,
                            slot,
                            Err::<TypeId, Error>(e),
                        ));
                        Err(e)
                    },
                }
            },
            Ok(None) => {
                data.update_union_field(ct, op, slot, stripped, &glb.types);
                proof {
                    still_scorable(*data, mid, *glb);
                }
                Ok(stripped)
            },
            Err(e) => Err(e),
        }
    }

    /// Resolves a data-type for an operation. What comes out is noted.
    pub fn resolve_in_flow(ct: TypeId, op: OpId, slot: i32, data: &mut Funcdata, glb: &mut Architecture) -> (res: Result<
        TypeId,
    >)
        requires
            crate::unionresolve::score::scorable(*old(data), *old(glb)),
            old(glb).types.has(ct),
            crate::unionresolve::pick::has_slot(op, slot, *old(data)),
            resolvable_in_flow(ct, op, slot, *old(data), *old(glb)),
        ensures
            final(glb).grew(*old(glb)),
            settles_in_flow(*final(data), *final(glb), *old(data), *old(glb), ct, op, slot, res),
            crate::unionresolve::score::scorable(*final(data), *final(glb)),
    {
        proof {
            glb.types.look(ct);
            glb.types.parts(glb.types.dt(ct));
            crate::types::suit::grew_never(*glb);
        }
        let dt = glb.types.get(ct);
        let meta = dt.get_metatype();
        let several = match &dt.kind {
            TypeKind::Pointer(_) | TypeKind::PointerRel(_) => {
                let target = dt.get_ptr_to();
                proof {
                    glb.types.look(target);
                }
                glb.types.get(target).get_metatype() == TypeMetatype::Union
            },
            TypeKind::Array(_) | TypeKind::Struct(_) | TypeKind::Union(_) | TypeKind::PartialUnion(_) => true,
            _ => false,
        };
        if !several {
            return Ok(ct);
        }
        if let Some(res) = data.get_union_field(ct, op, slot, &glb.types) {
            return Ok(res.get_datatype());
        }
        if meta == TypeMetatype::PartialUnion {
            Datatype::resolve_piece(ct, op, slot, data, glb)
        } else {
            Datatype::resolve_whole(ct, op, slot, data, glb)
        }
    }
}

} // verus!

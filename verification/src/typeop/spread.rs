//! How each kind of operation spreads data-types.
use vstd::prelude::*;
use crate::architecture::Architecture;
use crate::error::{Error, Result};
use crate::funcdata::Funcdata;
use crate::ids::{OpId, TypeId, VarnodeId};
use crate::op::PcodeOp;
use crate::opcodes::OpCode;
use crate::space::SpaceRef;
use crate::typeop::ops::{TypeOpEqual, TypeOpIntAdd, TypeOpPiece, TypeOpSubpiece};
use crate::typeop::propagate::{
    float_sign_manipulation, pass_through_type, propagate_from_pointer, propagate_to_pointer,
};
use crate::types::{Datatype, TypeField, TypeMetatype};
use crate::unionresolve::fit::too_many_types;
use crate::unionresolve::judge::kept_byte_offset;
use crate::varnode::Varnode;

verus! {

impl TypeOpPiece {
    /// Where the bytes of an input stand in the whole.
    pub open spec fn placed_at(op: OpId, slot: i32, data: Funcdata) -> i32 {
        let o = data.operation(op);
        let high = data.value(o.inrefs@[0]);
        if high.loc.base->0.big_endian {
            if slot == 0 {
                0
            } else {
                high.size
            }
        } else if slot == 0 {
            data.value(o.inrefs@[1]).size
        } else {
            0
        }
    }

    pub fn compute_byte_offset_for_composite(op: OpId, slot: i32, data: &Funcdata) -> (res: i32)
        requires
            data.flowing(),
            data.has_op(op),
            data.operation(op).opcode == OpCode::Piece,
        ensures
            res == TypeOpPiece::placed_at(op, slot, *data),
    {
        assert(data.shaped(data.operation(op)));
        assert(data.has_vn(data.operation(op).inrefs@[0]));
        assert(data.has_vn(data.operation(op).inrefs@[1]));
        let pcode = data.op(op);
        let in_vn0 = data.vn(pcode.get_in(0));
        if in_vn0.get_space().unwrap().is_big_endian() {
            if slot == 0 {
                0
            } else {
                in_vn0.get_size()
            }
        } else if slot == 0 {
            data.vn(pcode.get_in(1)).get_size()
        } else {
            0
        }
    }
}

impl TypeOpSubpiece {
    pub fn compute_byte_offset_for_composite(op: OpId, data: &Funcdata) -> (res: i32)
        requires
            data.flowing(),
            data.has_op(op),
            data.operation(op).opcode == OpCode::Subpiece,
        ensures
            res == crate::unionresolve::judge::kept_from(op, *data),
    {
        kept_byte_offset(op, data)
    }
}

/// The component of a data-type that starts at an offset and has a size.
pub open spec fn component_of_size(cur: TypeId, off: i64, size: i32, glb: Architecture) -> Option<TypeId>
    decreases glb.types.above(glb.types.dt(cur)), glb.types.depth_of(glb.types.dt(cur)),
    when glb.workable() && glb.types.member(cur)
{
    let d = glb.types.dt(cur);
    if off == 0 && d.size == size {
        Some(cur)
    } else {
        let (sub, newoff) = crate::types::inside::step_into(d, off, off, glb.types, Some(&glb));
        match sub {
            Some(next) => if glb.types.below(next, d) {
                component_of_size(next, newoff, size, glb)
            } else {
                None
            },
            None => None,
        }
    }
}

pub fn descend_to_size(start: TypeId, byte_off: i64, size: i32, glb: &Architecture) -> (res: Option<TypeId>)
    requires
        glb.workable(),
        glb.types.has(start),
    ensures
        res == component_of_size(start, byte_off, size, *glb),
        res is Some ==> glb.types.has(res->0),
{
    let mut cur = start;
    let mut cur_off: i64 = byte_off;
    proof {
        glb.types.look(start);
    }
    loop
        invariant
            glb.workable(),
            glb.types.member(cur),
            component_of_size(cur, cur_off, size, *glb) == component_of_size(start, byte_off, size, *glb),
        decreases glb.types.above(glb.types.dt(cur)), glb.types.depth_of(glb.types.dt(cur)),
    {
        let dt = glb.types.get(cur);
        if cur_off == 0 && dt.get_size() == size {
            return Some(cur);
        }
        assert(glb.suits(glb.types.dt(cur)));
        let mut newoff: i64 = cur_off;
        match dt.get_sub_type(cur_off, &mut newoff, glb) {
            Some(next) => {
                cur = next;
                cur_off = newoff;
            },
            None => {
                return None;
            },
        }
    }
}

/// The space that a constant stands for.
pub open spec fn names_space(vn: VarnodeId, data: Funcdata, glb: Architecture) -> bool {
    &&& data.has_vn(vn)
    &&& data.value(vn).loc.offset < glb.manager.spaces@.len()
    &&& glb.manager.spaces@[data.value(vn).loc.offset as int].valid()
}

pub open spec fn named_space(vn: VarnodeId, data: Funcdata, glb: Architecture) -> SpaceRef {
    glb.manager.spaces@[data.value(vn).loc.offset as int]
}

pub fn const_space<'a>(data: &Funcdata, vn: VarnodeId, glb: &'a Architecture) -> (res: &'a SpaceRef)
    requires
        names_space(vn, *data, *glb),
    ensures
        *res == named_space(vn, *data, *glb),
{
    assert(glb.manager.spaces@.len() == glb.manager.spaces.len());
    &glb.manager.spaces[data.vn(vn).get_offset() as usize]
}

/// A value is what an operation reads through a slot, or what it writes.
pub open spec fn at_slot(op: OpId, vn: VarnodeId, slot: i32, data: Funcdata) -> bool {
    &&& data.has_vn(vn)
    &&& if slot == -1 {
        data.operation(op).output == Some(vn)
    } else {
        0 <= slot < data.operation(op).inrefs@.len() && data.operation(op).inrefs@[slot as int] == vn
    }
}

/// What spreading a pointer into one of another size does.
pub open spec fn resizes(
    after: Architecture,
    before: Architecture,
    ptr: TypeId,
    size: i32,
    res: Result<Option<TypeId>>,
) -> bool {
    let d = before.types.dt(ptr);
    if !before.roomy(1) {
        after == before && (res matches Err(e) && crate::unionresolve::fit::out_of_room(e))
    } else {
        &&& after.same_program(before)
        &&& exists|r: Result<TypeId>| #[trigger]
            after.types.makes_plain_pointer(
                before.types,
                size,
                before.types.plain_form(d.pointer().ptrto->0),
                d.pointer().wordsize,
                Seq::empty(),
                0,
                r,
            ) && match r {
                Ok(tp) => res == Ok::<Option<TypeId>, Error>(Some(tp)),
                Err(e) => res == Err::<Option<TypeId>, Error>(e),
            }
    }
}

fn resize(ptr: TypeId, size: i32, glb: &mut Architecture) -> (res: Result<Option<TypeId>>)
    requires
        old(glb).workable(),
        old(glb).types.has(ptr),
        old(glb).types.dt(ptr).is_pointer(),
        1 <= size <= 8,
    ensures
        final(glb).grew(*old(glb)),
        resizes(*final(glb), *old(glb), ptr, size, res),
        res matches Ok(Some(tp)) ==> final(glb).types.has(tp),
{
    let ghost before = *glb;
    proof {
        crate::types::suit::grew_never(*glb);
    }
    if !glb.has_room_for(1) {
        return Err(too_many_types());
    }
    let r = glb.resized_pointer(ptr, size);
    assert(glb.types.makes_plain_pointer(
        before.types,
        size,
        before.types.plain_form(before.types.dt(ptr).pointer().ptrto->0),
        before.types.dt(ptr).pointer().wordsize,
        Seq::empty(),
        0,
        r,
    ));
    match r {
        Ok(tp) => Ok(Some(tp)),
        Err(e) => Err(e),
    }
}

/// What spreading a data-type from a value to what is read or written through it does.
pub open spec fn spreads_through(
    after: Architecture,
    before: Architecture,
    to_pointer: bool,
    alttype: TypeId,
    op: OpId,
    outvn: VarnodeId,
    data: Funcdata,
    res: Result<Option<TypeId>>,
) -> bool {
    let size = data.value(outvn).size;
    if to_pointer {
        exists|r: Result<TypeId>| #[trigger]
            crate::typeop::propagate::spreads_to_pointer(
                after,
                before,
                alttype,
                size,
                named_space(data.operation(op).inrefs@[0], data, before).word_size,
                r,
            ) && match r {
                Ok(tp) => res == Ok::<Option<TypeId>, Error>(Some(tp)),
                Err(e) => res == Err::<Option<TypeId>, Error>(e),
            }
    } else {
        crate::typeop::propagate::spreads_from_pointer(after, before, alttype, size, res)
    }
}

/// What spreading a data-type to the bytes that a truncation keeps does.
pub open spec fn spreads_to_part(
    after: Funcdata,
    after_glb: Architecture,
    before: Funcdata,
    before_glb: Architecture,
    alttype: TypeId,
    op: OpId,
    outvn: VarnodeId,
    res: Result<Option<TypeId>>,
) -> bool {
    let from = crate::unionresolve::judge::kept_from(op, before) as i64;
    let size = before.value(outvn).size;
    match crate::types::resolve::part_place(alttype, from, before_glb.types) {
        Some(place) => exists|inner: i64, r: Result<Option<TypeField>>| #[trigger]
            crate::types::resolve::settles_part(
                after,
                after_glb,
                before,
                before_glb,
                place.0,
                place.1,
                op,
                1,
                from,
                inner,
                r,
            ) && match r {
                Ok(Some(field)) => res == Ok::<Option<TypeId>, Error>(component_of_size(field.tp, inner, size, after_glb)),
                Ok(None) => res == Ok::<Option<TypeId>, Error>(None),
                Err(e) => res == Err::<Option<TypeId>, Error>(e),
            },
        None => {
            &&& after == before
            &&& after_glb == before_glb
            &&& res == Ok::<Option<TypeId>, Error>(component_of_size(alttype, from, size, before_glb))
        },
    }
}

/// What spreading a data-type along an operation does.
pub open spec fn spreads(
    after: Funcdata,
    after_glb: Architecture,
    before: Funcdata,
    before_glb: Architecture,
    opcode: OpCode,
    near: i32,
    far: i32,
    alttype: TypeId,
    op: OpId,
    invn: VarnodeId,
    outvn: VarnodeId,
    inslot: i32,
    outslot: i32,
    res: Result<Option<TypeId>>,
) -> bool {
    let types = before_glb.types;
    let d = types.dt(alttype);
    let inside = inslot != -1 && outslot != -1;
    let insize = before.value(invn).size;
    let outsize = before.value(outvn).size;
    let quiet = |found: Option<TypeId>| after == before && after_glb == before_glb && res == Ok::<Option<TypeId>, Error>(found);
    let passes = after == before && crate::typeop::propagate::passes_through(
        after_glb,
        before_glb,
        alttype,
        invn,
        before,
        res,
    );
    let sums = after == before && crate::typeop::propagate::spreads_to_sum(
        after_glb,
        before_glb,
        alttype,
        op,
        inslot,
        before,
        res,
    );
    let sizes = |size: i32| after == before && resizes(after_glb, before_glb, alttype, size, res);
    match opcode {
        OpCode::Copy | OpCode::Multiequal => if inside {
            quiet(None)
        } else {
            passes
        },
        OpCode::Indirect => if before.operation(op).flag(PcodeOp::INDIRECT_CREATION) || inslot == 1 || outslot == 1
            || inside {
            quiet(None)
        } else {
            passes
        },
        OpCode::Load | OpCode::Store => if inslot == 0 || outslot == 0 || before.value(invn).flag(Varnode::SPACEBASE) {
            quiet(None)
        } else {
            after == before && spreads_through(
                after_glb,
                before_glb,
                inslot == (if opcode == OpCode::Load {
                    -1i32
                } else {
                    2i32
                }),
                alttype,
                op,
                outvn,
                before,
                res,
            )
        },
        OpCode::IntEqual | OpCode::IntNotequal | OpCode::IntLess | OpCode::IntLessequal => after == before
            && crate::typeop::propagate::spreads_across(
            after_glb,
            before_glb,
            alttype,
            invn,
            outvn,
            inslot,
            outslot,
            before,
            res,
        ),
        OpCode::IntSless | OpCode::IntSlessequal => quiet(
            if inside && d.metatype == TypeMetatype::Int {
                Some(alttype)
            } else {
                None
            },
        ),
        OpCode::IntXor | OpCode::IntAnd => if d.flag(Datatype::ENUMTYPE) || (d.metatype == TypeMetatype::Float
            && crate::typeop::propagate::sign_change(op, before) != OpCode::Max) {
            passes
        } else {
            quiet(None)
        },
        OpCode::IntOr => if d.flag(Datatype::ENUMTYPE) {
            passes
        } else {
            quiet(None)
        },
        OpCode::IntAdd => if d.is_pointer() {
            if inside || inslot == -1 {
                quiet(None)
            } else {
                sums
            }
        } else if (d.metatype == TypeMetatype::Int || d.metatype == TypeMetatype::Uint) && outslot == 1 && before.value(
            outvn,
        ).flag(Varnode::CONSTANT) {
            quiet(Some(alttype))
        } else {
            quiet(None)
        },
        OpCode::Ptradd => if inslot == 2 || outslot == 2 || inside || !d.is_pointer() || inslot == -1 {
            quiet(None)
        } else {
            sums
        },
        OpCode::Ptrsub => if inside || !d.is_pointer() || inslot == -1 {
            quiet(None)
        } else {
            sums
        },
        OpCode::Piece => if near != 0 && d.is_pointer() {
            if inslot == 1 && outslot == -1 && insize == near && outsize == far {
                sizes(far)
            } else if inslot == -1 && outslot == 1 && insize == far && outsize == near {
                sizes(near)
            } else {
                quiet(None)
            }
        } else if inslot != -1 {
            quiet(None)
        } else {
            quiet(component_of_size(alttype, TypeOpPiece::placed_at(op, outslot, before) as i64, outsize, before_glb))
        },
        OpCode::Subpiece => if near != 0 && d.is_pointer() && inslot == -1 && outslot == 0 {
            if before.value(before.operation(op).inrefs@[1]).loc.offset == 0 && insize == near && outsize == far {
                sizes(far)
            } else {
                quiet(None)
            }
        } else if inslot != 0 || outslot != -1 {
            quiet(None)
        } else {
            spreads_to_part(after, after_glb, before, before_glb, alttype, op, outvn, res)
        },
        OpCode::Segmentop => if inslot == 0 || inslot == 1 || outslot == 0 || outslot == 1 || before.value(invn).flag(
            Varnode::SPACEBASE,
        ) || !d.is_pointer() {
            quiet(None)
        } else {
            sizes(outsize)
        },
        OpCode::New => {
            let vn0 = before.value(before.operation(op).inrefs@[0]);
            quiet(
                if inslot == 0 && outslot == -1 && vn0.flag(Varnode::WRITTEN) && before.operation(vn0.def->0).opcode
                    == OpCode::Cpoolref {
                    Some(alttype)
                } else {
                    None
                },
            )
        },
        _ => quiet(None),
    }
}

/// What is asked of a place that a data-type is spread along.
pub open spec fn spreadable(
    data: Funcdata,
    glb: Architecture,
    opcode: OpCode,
    near: i32,
    far: i32,
    alttype: TypeId,
    op: OpId,
    invn: VarnodeId,
    outvn: VarnodeId,
    inslot: i32,
    outslot: i32,
) -> bool {
    &&& crate::unionresolve::score::scorable(data, glb)
    &&& crate::typeop::propagate::tried_in(data, glb.types)
    &&& glb.types.has(alttype)
    &&& data.has_op(op)
    &&& data.operation(op).opcode == opcode
    &&& at_slot(op, invn, inslot, data)
    &&& at_slot(op, outvn, outslot, data)
    &&& inslot != outslot
    &&& crate::typeop::propagate::passable(alttype, invn, data, glb)
    &&& opcode == OpCode::Load || opcode == OpCode::Store ==> names_space(data.operation(op).inrefs@[0], data, glb)
    &&& opcode == OpCode::Subpiece ==> {
        crate::types::resolve::part_place(
            alttype,
            crate::unionresolve::judge::kept_from(op, data) as i64,
            glb.types,
        ) matches Some(place) ==> crate::types::resolve::knows_field(place.0, op, 1, data, glb.types)
    }
    &&& 0 <= near <= 8
    &&& 0 <= far <= 8
}

/// Spreads a data-type along an operation.
pub fn propagate_type(
    opcode: OpCode,
    near: i32,
    far: i32,
    alttype: TypeId,
    op: OpId,
    invn: VarnodeId,
    outvn: VarnodeId,
    inslot: i32,
    outslot: i32,
    data: &mut Funcdata,
    glb: &mut Architecture,
) -> (res: Result<Option<TypeId>>)
    requires
        spreadable(*old(data), *old(glb), opcode, near, far, alttype, op, invn, outvn, inslot, outslot),
    ensures
        final(glb).grew(*old(glb)),
        spreads(
            *final(data),
            *final(glb),
            *old(data),
            *old(glb),
            opcode,
            near,
            far,
            alttype,
            op,
            invn,
            outvn,
            inslot,
            outslot,
            res,
        ),
{
    let ghost before = *data;
    let ghost before_glb = *glb;
    proof {
        glb.types.look(alttype);
        glb.types.parts(glb.types.dt(alttype));
        assert(glb.suits(glb.types.dt(alttype)));
        crate::types::suit::grew_never(*glb);
        assert(data.shaped(data.operation(op)));
    }
    let meta = glb.types.get(alttype).get_metatype();
    let inside = inslot != -1 && outslot != -1;
    match opcode {
        OpCode::Copy | OpCode::Multiequal => {
            if inside {
                return Ok(None);
            }
            pass_through_type(alttype, invn, data, glb)
        },
        OpCode::Indirect => {
            if data.op(op).is_indirect_creation() || inslot == 1 || outslot == 1 || inside {
                return Ok(None);
            }
            pass_through_type(alttype, invn, data, glb)
        },
        OpCode::Load | OpCode::Store => {
            if inslot == 0 || outslot == 0 || data.vn(invn).is_spacebase() {
                return Ok(None);
            }
            let from: i32 = if opcode == OpCode::Load {
                -1
            } else {
                2
            };
            let outsize: i32 = data.vn(outvn).get_size();
            if inslot == from {
                let wordsize: u32 = const_space(data, data.op(op).get_in(0), glb).get_word_size();
                let r = propagate_to_pointer(glb, alttype, outsize, wordsize);
                assert(crate::typeop::propagate::spreads_to_pointer(
                    *glb,
                    before_glb,
                    alttype,
                    outsize,
                    named_space(before.operation(op).inrefs@[0], before, before_glb).word_size,
                    r,
                ));
                match r {
                    Ok(tp) => Ok(Some(tp)),
                    Err(e) => Err(e),
                }
            } else {
                proof {
                    crate::types::suit::pads_easily(*glb, outsize);
                    if glb.types.dt(alttype).kind is PointerRel {
                        let rel = glb.types.dt(alttype).kind->PointerRel_0;
                        crate::types::suit::cuts_easily(*glb, rel.parent->0, rel.offset, outsize);
                    }
                }
                propagate_from_pointer(glb, alttype, outsize)
            }
        },
        OpCode::IntEqual | OpCode::IntNotequal | OpCode::IntLess | OpCode::IntLessequal =>
            TypeOpEqual::propagate_across_compare(alttype, invn, outvn, inslot, outslot, data, glb),
        OpCode::IntSless | OpCode::IntSlessequal => {
            if !inside || meta != TypeMetatype::Int {
                return Ok(None);
            }
            Ok(Some(alttype))
        },
        OpCode::IntXor | OpCode::IntAnd => {
            if !glb.types.get(alttype).is_enum_type() {
                if meta != TypeMetatype::Float {
                    return Ok(None);
                }
                if float_sign_manipulation(op, data) == OpCode::Max {
                    return Ok(None);
                }
            }
            pass_through_type(alttype, invn, data, glb)
        },
        OpCode::IntOr => {
            if !glb.types.get(alttype).is_enum_type() {
                return Ok(None);
            }
            pass_through_type(alttype, invn, data, glb)
        },
        OpCode::IntAdd => {
            if meta == TypeMetatype::Ptr {
                if inside || inslot == -1 {
                    return Ok(None);
                }
                return TypeOpIntAdd::propagate_add_in2_out(alttype, op, inslot, data, glb);
            }
            if (meta == TypeMetatype::Int || meta == TypeMetatype::Uint) && outslot == 1 && data.vn(outvn).is_constant() {
                return Ok(Some(alttype));
            }
            Ok(None)
        },
        OpCode::Ptradd => {
            if inslot == 2 || outslot == 2 || inside || meta != TypeMetatype::Ptr || inslot == -1 {
                return Ok(None);
            }
            TypeOpIntAdd::propagate_add_in2_out(alttype, op, inslot, data, glb)
        },
        OpCode::Ptrsub => {
            if inside || meta != TypeMetatype::Ptr || inslot == -1 {
                return Ok(None);
            }
            TypeOpIntAdd::propagate_add_in2_out(alttype, op, inslot, data, glb)
        },
        OpCode::Piece => {
            let outsize: i32 = data.vn(outvn).get_size();
            if near != 0 && meta == TypeMetatype::Ptr {
                let insize: i32 = data.vn(invn).get_size();
                if inslot == 1 && outslot == -1 && insize == near && outsize == far {
                    return resize(alttype, far, glb);
                }
                if inslot == -1 && outslot == 1 && insize == far && outsize == near {
                    return resize(alttype, near, glb);
                }
                return Ok(None);
            }
            if inslot != -1 {
                return Ok(None);
            }
            let byte_off: i32 = TypeOpPiece::compute_byte_offset_for_composite(op, outslot, data);
            Ok(descend_to_size(alttype, byte_off as i64, outsize, glb))
        },
        OpCode::Subpiece => {
            let outsize: i32 = data.vn(outvn).get_size();
            assert(data.has_vn(data.operation(op).inrefs@[1]));
            if near != 0 && meta == TypeMetatype::Ptr && inslot == -1 && outslot == 0 {
                if data.vn(data.op(op).get_in(1)).get_offset() == 0 && data.vn(invn).get_size() == near && outsize == far {
                    return resize(alttype, far, glb);
                }
                return Ok(None);
            }
            if inslot != 0 || outslot != -1 {
                return Ok(None);
            }
            let byte_off: i64 = TypeOpSubpiece::compute_byte_offset_for_composite(op, data) as i64;
            if meta == TypeMetatype::Union || meta == TypeMetatype::PartialUnion {
                let mut newoff: i64 = byte_off;
                let r = Datatype::resolve_truncation(alttype, byte_off, op, 1, &mut newoff, data, glb);
                proof {
                    let place = crate::types::resolve::part_place(alttype, byte_off, before_glb.types)->0;
                    assert(crate::types::resolve::settles_part(
                        *data,
                        *glb,
                        before,
                        before_glb,
                        place.0,
                        place.1,
                        op,
                        1,
                        byte_off,
                        newoff,
                        r,
                    ));
                }
                return match r {
                    Ok(Some(field)) => Ok(descend_to_size(field.tp, newoff, outsize, glb)),
                    Ok(None) => Ok(None),
                    Err(e) => Err(e),
                };
            }
            Ok(descend_to_size(alttype, byte_off, outsize, glb))
        },
        OpCode::Segmentop => {
            if inslot == 0 || inslot == 1 || outslot == 0 || outslot == 1 || data.vn(invn).is_spacebase() || meta
                != TypeMetatype::Ptr {
                return Ok(None);
            }
            let size: i32 = data.vn(outvn).get_size();
            resize(alttype, size, glb)
        },
        OpCode::New => {
            if inslot != 0 || outslot != -1 {
                return Ok(None);
            }
            assert(data.has_vn(data.operation(op).inrefs@[0]));
            let vn0 = data.op(op).get_in(0);
            if !data.vn(vn0).is_written() {
                return Ok(None);
            }
            let def = data.vn(vn0).get_def().unwrap();
            if data.op(def).code() != OpCode::Cpoolref {
                return Ok(None);
            }
            Ok(Some(alttype))
        },
        _ => Ok(None),
    }
}

} // verus!

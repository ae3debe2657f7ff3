//! How data-types spread along operations.
use vstd::prelude::*;
use crate::address::calc_mask;
use crate::architecture::Architecture;
use crate::error::{Error, Result};
use crate::funcdata::Funcdata;
use crate::ids::{OpId, TypeId, VarnodeId};
use crate::opcodes::OpCode;
use crate::space::AddrSpace;
use crate::typeop::ops::{TypeOpEqual, TypeOpFloatInt2Float, TypeOpIntAdd};
use crate::types::{Datatype, TypeFactory, TypeKind, TypeMetatype};
use crate::unionresolve::fit::too_many_types;
use crate::varnode::Varnode;

verus! {

/// Which change of the sign of a floating-point value an operation on its bits is, if any.
pub open spec fn sign_change(op: OpId, data: Funcdata) -> OpCode {
    let o = data.operation(op);
    let c = data.value(o.inrefs@[1]);
    let mask = crate::address::mask_of(c.size as int);
    if o.opcode == OpCode::IntAnd && c.flag(Varnode::CONSTANT) && c.loc.offset == mask >> 1 {
        OpCode::FloatAbs
    } else if o.opcode == OpCode::IntXor && c.flag(Varnode::CONSTANT) && c.loc.offset == mask ^ (mask >> 1) {
        OpCode::FloatNeg
    } else {
        OpCode::Max
    }
}

pub fn float_sign_manipulation(op: OpId, data: &Funcdata) -> (res: OpCode)
    requires
        data.flowing(),
        data.has_op(op),
    ensures
        res == sign_change(op, *data),
{
    assert(data.shaped(data.operation(op)));
    let pcode = data.op(op);
    let opc = pcode.code();
    if opc == OpCode::IntAnd || opc == OpCode::IntXor {
        assert(data.has_vn(data.operation(op).inrefs@[1]));
        let cvn = data.vn(pcode.get_in(1));
        if cvn.is_constant() {
            let mask: u64 = calc_mask(cvn.get_size());
            if opc == OpCode::IntAnd {
                if mask >> 1 == cvn.get_offset() {
                    return OpCode::FloatAbs;
                }
            } else if mask ^ (mask >> 1) == cvn.get_offset() {
                return OpCode::FloatNeg;
            }
        }
    }
    OpCode::Max
}

/// What a pointer to a data-type points to, if the data-type is itself a pointer or a part.
pub open spec fn pointed_part(dt: TypeId, types: TypeFactory) -> TypeId {
    match types.dt(dt).kind {
        TypeKind::PartialStruct(data) => {
            let container = types.dt(data.container);
            let element = container.kind->Array_0.arrayof->0;
            if container.kind is Array && !(types.dt(element).metatype is Unknown) && (data.offset as int) % (types.dt(
                element,
            ).align_size as int) == 0 {
                element
            } else {
                data.stripped
            }
        },
        _ => dt,
    }
}

/// What spreading a data-type to a pointer to it does. A pointer counts as bytes that nothing is known of.
pub open spec fn spreads_to_pointer(
    after: Architecture,
    before: Architecture,
    dt: TypeId,
    sz: i32,
    wordsz: u32,
    res: Result<TypeId>,
) -> bool {
    let d = before.types.dt(dt);
    if !before.roomy(4) {
        after == before && (res matches Err(e) && crate::unionresolve::fit::out_of_room(e))
    } else if d.is_pointer() {
        &&& after.same_program(before)
        &&& exists|mid: TypeFactory, b: Result<TypeId>| #[trigger]
            mid.makes_base(before.types, d.size, TypeMetatype::Unknown, b) && match b {
                Ok(bytes) => after.types.makes_pointer(
                    mid,
                    sz,
                    crate::types::pointers::plain_pointer(mid.plain_form(bytes), wordsz),
                    Seq::empty(),
                    0,
                    res,
                ),
                Err(e) => after.types == mid && res == Err::<TypeId, Error>(e),
            }
    } else {
        &&& after.same_program(before)
        &&& after.types.makes_pointer(
            before.types,
            sz,
            crate::types::pointers::plain_pointer(before.types.plain_form(pointed_part(dt, before.types)), wordsz),
            Seq::empty(),
            0,
            res,
        )
    }
}

pub fn propagate_to_pointer(glb: &mut Architecture, dt: TypeId, sz: i32, wordsz: u32) -> (res: Result<TypeId>)
    requires
        old(glb).workable(),
        old(glb).types.has(dt),
        1 <= sz <= 8,
        wordsz >= 1,
    ensures
        final(glb).grew(*old(glb)),
        spreads_to_pointer(*final(glb), *old(glb), dt, sz, wordsz, res),
        res matches Ok(id) ==> final(glb).types.member(id),
        res matches Ok(id) ==> {
            let ptr = final(glb).types.dt(id);
            &&& ptr.is_pointer()
            &&& ptr.size == sz
            &&& ptr.pointer().wordsize == wordsz
            &&& !old(glb).types.dt(dt).is_pointer() && !(old(glb).types.dt(dt).kind is PartialStruct) ==> ptr.pointer().ptrto
                == Some(old(glb).types.plain_form(dt))
        },
{
    let ghost before = *glb;
    proof {
        glb.types.look(dt);
        glb.types.parts(glb.types.dt(dt));
        assert(glb.suits(glb.types.dt(dt)));
        crate::types::suit::grew_never(*glb);
    }
    if !glb.has_room_for(4) {
        return Err(too_many_types());
    }
    let meta = glb.types.get(dt).get_metatype();
    if meta == TypeMetatype::Ptr {
        let size: i32 = glb.types.get(dt).get_size();
        let made = glb.base_of(size, TypeMetatype::Unknown);
        let ghost mid = *glb;
        assert(mid.types.makes_base(before.types, size, TypeMetatype::Unknown, made));
        return match made {
            Ok(bytes) => {
                let res = glb.plain_pointer_to(sz, bytes, wordsz);
                proof {
                    crate::types::suit::grew_twice(*glb, mid, before);
                }
                res
            },
            Err(e) => Err(e),
        };
    }
    let target = if meta == TypeMetatype::PartialStruct {
        proof {
            let data = glb.types.dt(dt).kind->PartialStruct_0;
            glb.types.parts(glb.types.dt(data.container));
        }
        glb.types.get(dt).get_component_for_ptr(&glb.types)
    } else {
        dt
    };
    glb.plain_pointer_to(sz, target, wordsz)
}

/// What spreading a pointer to what is read through it does.
pub open spec fn spreads_from_pointer(
    after: Architecture,
    before: Architecture,
    dt: TypeId,
    sz: i32,
    res: Result<Option<TypeId>>,
) -> bool {
    let types = before.types;
    let d = types.dt(dt);
    let ptrto = d.pointer().ptrto->0;
    let target = types.dt(ptrto);
    let quiet = |found: Option<TypeId>| after == before && res == Ok::<Option<TypeId>, Error>(found);
    if !d.is_pointer() || target.flag(Datatype::VARIABLE_LENGTH) {
        quiet(None)
    } else if target.size == sz {
        quiet(Some(ptrto))
    } else if !before.roomy(3) {
        after == before && (res matches Err(e) && crate::unionresolve::fit::out_of_room(e))
    } else if d.kind is PointerRel {
        &&& after.same_program(before)
        &&& exists|piece: Result<Option<TypeId>>| #[trigger]
            after.types.makes_piece(
                types,
                d.kind->PointerRel_0.parent->0,
                d.kind->PointerRel_0.offset,
                sz,
                piece,
            ) && match piece {
                Ok(Some(tp)) => res == Ok::<Option<TypeId>, Error>(
                    if after.types.dt(tp).flag(Datatype::ENUMTYPE) {
                        Some(tp)
                    } else {
                        None
                    },
                ),
                Ok(None) => res == Ok::<Option<TypeId>, Error>(None),
                Err(e) => res == Err::<Option<TypeId>, Error>(e),
            }
    } else if target.kind is Enum && !target.flag(Datatype::HAS_STRIPPED) {
        &&& after.same_program(before)
        &&& exists|part: Result<TypeId>| #[trigger]
            after.types.makes_partial_enum(types, ptrto, 0, sz, part) && match part {
                Ok(tp) => res == Ok::<Option<TypeId>, Error>(Some(tp)),
                Err(e) => res == Err::<Option<TypeId>, Error>(e),
            }
    } else {
        quiet(None)
    }
}

pub fn propagate_from_pointer(glb: &mut Architecture, dt: TypeId, sz: i32) -> (res: Result<Option<TypeId>>)
    requires
        old(glb).workable(),
        old(glb).types.has(dt),
        old(glb).types.dt(dt).is_pointer() && old(glb).types.dt(
            old(glb).types.dt(dt).pointer().ptrto->0,
        ).kind is Enum ==> old(glb).types.pads_twice(sz),
        old(glb).types.dt(dt).kind matches TypeKind::PointerRel(rel) ==> old(glb).types.can_cut(
            rel.parent->0,
            rel.offset,
            sz,
        ),
    ensures
        final(glb).grew(*old(glb)),
        spreads_from_pointer(*final(glb), *old(glb), dt, sz, res),
        res matches Ok(Some(tp)) ==> final(glb).types.member(tp),
        res matches Ok(Some(tp)) ==> final(glb).types.dt(tp).size == sz && old(glb).types.dt(dt).is_pointer(),
        old(glb).types.dt(dt).is_pointer() && ({
            let target = old(glb).types.dt(old(glb).types.dt(dt).pointer().ptrto->0);
            target.size == sz && !target.flag(Datatype::VARIABLE_LENGTH)
        }) ==> res == Ok::<Option<TypeId>, Error>(old(glb).types.dt(dt).pointer().ptrto),
{
    let ghost before = *glb;
    proof {
        glb.types.look(dt);
        glb.types.parts(glb.types.dt(dt));
        assert(glb.suits(glb.types.dt(dt)));
        crate::types::suit::grew_never(*glb);
    }
    if glb.types.get(dt).get_metatype() != TypeMetatype::Ptr {
        return Ok(None);
    }
    let ptrto = glb.types.get(dt).get_ptr_to();
    if glb.types.get(ptrto).is_variable_length() {
        return Ok(None);
    }
    if glb.types.get(ptrto).get_size() == sz {
        return Ok(Some(ptrto));
    }
    if !glb.has_room_for(3) {
        return Err(too_many_types());
    }
    let rel = match &glb.types.get(dt).kind {
        TypeKind::PointerRel(data) => Some((data.parent.unwrap(), data.offset)),
        _ => None,
    };
    if let Some((parent, byte_offset)) = rel {
        let piece = glb.piece_of(parent, byte_offset, sz);
        assert(glb.types.makes_piece(before.types, parent, byte_offset, sz, piece));
        proof {
            if piece is Ok && piece->Ok_0 is Some {
                let tp = (piece->Ok_0)->0;
                before.types.look(parent);
                glb.types.cache_sizes();
                crate::laws::spreading::piece_has_asked_size(glb.types, before.types, parent, byte_offset, sz, tp);
            }
        }
        return match piece {
            Ok(Some(tp)) => if glb.types.get(tp).is_enum_type() {
                Ok(Some(tp))
            } else {
                Ok(None)
            },
            Ok(None) => Ok(None),
            Err(e) => Err(e),
        };
    }
    let is_enum = match &glb.types.get(ptrto).kind {
        TypeKind::Enum(_) => true,
        _ => false,
    };
    if is_enum && !glb.types.get(ptrto).has_stripped() {
        let part = glb.enum_part(ptrto, 0, sz);
        assert(glb.types.makes_partial_enum(before.types, ptrto, 0, sz, part));
        proof {
            if part is Ok {
                let tp = part->Ok_0;
                glb.types.cache_sizes();
                crate::laws::spreading::part_of_enum_has_size(glb.types, before.types, ptrto, 0, sz, tp);
            }
        }
        return match part {
            Ok(tp) => Ok(Some(tp)),
            Err(e) => Err(e),
        };
    }
    Ok(None)
}

/// A data-type that a spacebase can pass its kind of pointer on for.
pub open spec fn passable(alttype: TypeId, invn: VarnodeId, data: Funcdata, glb: Architecture) -> bool {
    data.value(invn).flag(Varnode::SPACEBASE) ==> 1 <= glb.types.dt(alttype).size <= 8
        && glb.manager.default_data_space is Some && glb.manager.default_data_space->0.word_size >= 1
}

/// What passing a data-type through unchanged does. A spacebase passes on a pointer to bytes.
pub open spec fn passes_through(
    after: Architecture,
    before: Architecture,
    alttype: TypeId,
    invn: VarnodeId,
    data: Funcdata,
    res: Result<Option<TypeId>>,
) -> bool {
    if data.value(invn).flag(Varnode::SPACEBASE) {
        gets_byte_pointer(
            after,
            before,
            before.types.dt(alttype).size,
            before.manager.default_data_space->0.word_size,
            res,
        )
    } else {
        after == before && res == Ok::<Option<TypeId>, Error>(Some(alttype))
    }
}

pub open spec fn gets_byte_pointer(
    after: Architecture,
    before: Architecture,
    size: i32,
    ws: u32,
    res: Result<Option<TypeId>>,
) -> bool {
    exists|r: Result<TypeId>| #[trigger]
        crate::types::suit::makes_byte_pointer(after, before, size, ws, r) && match r {
            Ok(tp) => res == Ok::<Option<TypeId>, Error>(Some(tp)),
            Err(e) => res == Err::<Option<TypeId>, Error>(e),
        }
}

fn byte_pointer_for(size: i32, ws: u32, glb: &mut Architecture) -> (res: Result<Option<TypeId>>)
    requires
        old(glb).workable(),
        1 <= size <= 8,
        ws >= 1,
    ensures
        final(glb).grew(*old(glb)),
        gets_byte_pointer(*final(glb), *old(glb), size, ws, res),
        res matches Ok(Some(tp)) ==> final(glb).types.has(tp),
{
    let r = glb.byte_pointer(size, ws);
    assert(crate::types::suit::makes_byte_pointer(*glb, *old(glb), size, ws, r));
    match r {
        Ok(tp) => Ok(Some(tp)),
        Err(e) => Err(e),
    }
}

fn spacebase_pointer(alttype: TypeId, glb: &mut Architecture) -> (res: Result<Option<TypeId>>)
    requires
        old(glb).workable(),
        old(glb).types.has(alttype),
        1 <= old(glb).types.dt(alttype).size <= 8,
        old(glb).manager.default_data_space is Some,
        old(glb).manager.default_data_space->0.word_size >= 1,
    ensures
        final(glb).grew(*old(glb)),
        gets_byte_pointer(
            *final(glb),
            *old(glb),
            old(glb).types.dt(alttype).size,
            old(glb).manager.default_data_space->0.word_size,
            res,
        ),
        res matches Ok(Some(tp)) ==> final(glb).types.has(tp),
{
    let wordsize: u32 = glb.manager.get_default_data_space().unwrap().get_word_size();
    let size: i32 = glb.types.get(alttype).get_size();
    byte_pointer_for(size, wordsize, glb)
}

pub fn pass_through_type(alttype: TypeId, invn: VarnodeId, data: &Funcdata, glb: &mut Architecture) -> (res: Result<
    Option<TypeId>,
>)
    requires
        old(glb).workable(),
        old(glb).types.has(alttype),
        data.has_vn(invn),
        passable(alttype, invn, *data, *old(glb)),
    ensures
        final(glb).grew(*old(glb)),
        passes_through(*final(glb), *old(glb), alttype, invn, *data, res),
        res matches Ok(Some(tp)) ==> final(glb).types.has(tp),
{
    proof {
        crate::types::suit::grew_never(*glb);
    }
    if data.vn(invn).is_spacebase() {
        spacebase_pointer(alttype, glb)
    } else {
        Ok(Some(alttype))
    }
}

/// What spreading a data-type across a comparison does.
pub open spec fn spreads_across(
    after: Architecture,
    before: Architecture,
    alttype: TypeId,
    invn: VarnodeId,
    outvn: VarnodeId,
    inslot: i32,
    outslot: i32,
    data: Funcdata,
    res: Result<Option<TypeId>>,
) -> bool {
    let d = before.types.dt(alttype);
    let rel = d.kind->PointerRel_0;
    if inslot == -1 || outslot == -1 {
        after == before && res == Ok::<Option<TypeId>, Error>(None)
    } else if data.value(invn).flag(Varnode::SPACEBASE) {
        passes_through(after, before, alttype, invn, data, res)
    } else if d.kind is PointerRel && !data.value(outvn).flag(Varnode::CONSTANT) && before.types.dt(
        rel.parent->0,
    ).kind is Struct && rel.offset >= 0 {
        gets_byte_pointer(after, before, d.size, rel.pointer.wordsize, res)
    } else {
        after == before && res == Ok::<Option<TypeId>, Error>(Some(alttype))
    }
}

impl TypeOpEqual {
    pub fn propagate_across_compare(
        alttype: TypeId,
        invn: VarnodeId,
        outvn: VarnodeId,
        inslot: i32,
        outslot: i32,
        data: &Funcdata,
        glb: &mut Architecture,
    ) -> (res: Result<Option<TypeId>>)
        requires
            old(glb).workable(),
            old(glb).types.has(alttype),
            data.has_vn(invn),
            data.has_vn(outvn),
            passable(alttype, invn, *data, *old(glb)),
        ensures
            final(glb).grew(*old(glb)),
            spreads_across(*final(glb), *old(glb), alttype, invn, outvn, inslot, outslot, *data, res),
            res matches Ok(Some(tp)) ==> final(glb).types.has(tp),
    {
        proof {
            glb.types.look(alttype);
            glb.types.parts(glb.types.dt(alttype));
            assert(glb.suits(glb.types.dt(alttype)));
            crate::types::suit::grew_never(*glb);
        }
        if inslot == -1 || outslot == -1 {
            return Ok(None);
        }
        if data.vn(invn).is_spacebase() {
            return spacebase_pointer(alttype, glb);
        }
        let dt = glb.types.get(alttype);
        if let TypeKind::PointerRel(rel) = &dt.kind {
            let parent = rel.parent.unwrap();
            proof {
                glb.types.look(parent);
            }
            if !data.vn(outvn).is_constant() && glb.types.get(parent).get_metatype() == TypeMetatype::Struct && rel.offset
                >= 0 {
                let size: i32 = dt.get_size();
                let wordsize: u32 = dt.get_word_size();
                return byte_pointer_for(size, wordsize, glb);
            }
        }
        Ok(Some(alttype))
    }
}

impl TypeOpFloatInt2Float {
    /// The extension that a conversion takes over, if its input is just that.
    pub open spec fn absorbed(op: OpId, data: Funcdata) -> Option<OpId> {
        let vn = data.value(data.operation(op).inrefs@[0]);
        if vn.flag(Varnode::WRITTEN) && vn.flag(Varnode::IMPLIED) && data.operation(vn.def->0).opcode
            == OpCode::IntZext {
            vn.def
        } else {
            None
        }
    }

    pub fn absorb_zext(op: OpId, data: &Funcdata) -> (res: Option<OpId>)
        requires
            data.flowing(),
            data.has_op(op),
            data.operation(op).inrefs@.len() >= 1,
        ensures
            res == TypeOpFloatInt2Float::absorbed(op, *data),
    {
        assert(data.has_vn(data.operation(op).inrefs@[0]));
        let vn0 = data.vn(data.op(op).get_in(0));
        if vn0.is_written() && vn0.is_implied() {
            let zext_op = vn0.get_def().unwrap();
            if data.op(zext_op).code() == OpCode::IntZext {
                return Some(zext_op);
            }
        }
        None
    }

    /// The size that a value is extended to before it is converted.
    pub fn preferred_zext_size(in_size: i32) -> (res: i32)
        requires
            in_size < i32::MAX,
        ensures
            in_size < 4 ==> res == 4,
            4 <= in_size < 8 ==> res == 8,
            8 <= in_size ==> res == in_size + 1,
    {
        if in_size < 4 {
            4
        } else if in_size < 8 {
            8
        } else {
            in_size + 1
        }
    }
}

/// What an addition does to a pointer: 0 for nothing, 1 for an offset, 2 for what
/// the pointer does not follow, 3 for steps over whole elements. An offset comes with it.
pub open spec fn addition(before: u64, op: OpId, slot: i32, sz: i32, data: Funcdata, types: TypeFactory) -> (i32, u64) {
    let o = data.operation(op);
    let in1 = data.value(o.inrefs@[1]);
    let by = data.value(o.inrefs@[2]).loc.offset;
    let other = data.value(o.inrefs@[1 - slot]);
    let mult = data.operation(other.def->0);
    let factor = data.value(mult.inrefs@[1]);
    match o.opcode {
        OpCode::Ptradd => if slot != 0 {
            (2i32, before)
        } else if in1.flag(Varnode::CONSTANT) {
            offset_command(in1.loc.offset.wrapping_mul(by) & crate::address::mask_of(in1.size as int))
        } else if sz != 0 && by % (sz as u64) != 0 {
            (2i32, before)
        } else {
            (3i32, before)
        },
        OpCode::Ptrsub => if slot != 0 {
            (2i32, before)
        } else {
            offset_command(in1.loc.offset)
        },
        OpCode::IntAdd => if !other.flag(Varnode::CONSTANT) {
            if other.flag(Varnode::WRITTEN) && mult.opcode == OpCode::IntMult {
                if factor.flag(Varnode::CONSTANT) && (factor.loc.offset == crate::address::mask_of(factor.size as int)
                    || (sz != 0 && factor.loc.offset % (sz as u64) != 0)) {
                    (2i32, before)
                } else {
                    (3i32, before)
                }
            } else if sz == 1 {
                (3i32, before)
            } else {
                (2i32, before)
            }
        } else if other.temp_type is Some && types.dt(other.temp_type->0).is_pointer() {
            (2i32, before)
        } else {
            offset_command(other.loc.offset)
        },
        _ => (2i32, before),
    }
}

pub open spec fn offset_command(off: u64) -> (i32, u64) {
    if off == 0 {
        (0i32, off)
    } else {
        (1i32, off)
    }
}

/// Where walking down a pointer led: to a pointer, if anywhere, with the pointer into
/// a composite that was last followed and the offset into it.
#[derive(Copy, Clone, Debug, PartialEq, Eq, Structural)]
pub struct Reached {
    pub pointer: Option<TypeId>,
    pub parent: Option<TypeId>,
    pub parent_off: i64,
}

/// What walking down a pointer does, until the offset is used up. With it comes the
/// pointer into a composite that was last followed, and the offset into it.
pub open spec fn walks_down(
    after: Architecture,
    before: Architecture,
    ct: TypeId,
    off: i64,
    par: Option<TypeId>,
    par_off: i64,
    wrap: bool,
    fuel: nat,
    res: Result<Reached>,
) -> bool
    decreases fuel,
{
    if fuel == 0 || !before.roomy(9) {
        after == before && (res matches Err(e) && crate::unionresolve::fit::out_of_room(e))
    } else {
        exists|
            mid: Architecture,
            new_off: i64,
            new_par: Option<TypeId>,
            new_par_off: i64,
            r: Result<Option<TypeId>>,
        | #[trigger]
            crate::types::chain::follows_down(
                mid,
                before,
                ct,
                wrap,
                off,
                new_off,
                par,
                new_par,
                par_off,
                new_par_off,
                r,
            ) && match r {
                Ok(Some(next)) => if new_off == 0 {
                    after == mid && res == Ok::<Reached, Error>(
                        Reached { pointer: Some(next), parent: new_par, parent_off: new_par_off },
                    )
                } else {
                    walks_down(after, mid, next, new_off, new_par, new_par_off, wrap, (fuel - 1) as nat, res)
                },
                Ok(None) => after == mid && res == Ok::<Reached, Error>(
                    Reached { pointer: None, parent: new_par, parent_off: new_par_off },
                ),
                Err(e) => after == mid && res == Err::<Reached, Error>(e),
            }
    }
}

fn walk_down(
    glb: &mut Architecture,
    ct: TypeId,
    off: i64,
    par: Option<TypeId>,
    par_off: i64,
    wrap: bool,
    fuel: u32,
) -> (res: Result<Reached>)
    requires
        old(glb).workable(),
        old(glb).types.has(ct),
        old(glb).types.dt(ct).is_pointer(),
        par matches Some(p) ==> crate::types::chain::enters(p, old(glb).types),
    ensures
        final(glb).grew(*old(glb)),
        walks_down(*final(glb), *old(glb), ct, off, par, par_off, wrap, fuel as nat, res),
        res matches Ok(end) ==> {
            &&& end.pointer matches Some(tp) ==> final(glb).types.has(tp) && final(glb).types.dt(tp).is_pointer()
            &&& end.parent matches Some(p) ==> crate::types::chain::enters(p, final(glb).types)
        },
    decreases fuel,
{
    let ghost before = *glb;
    proof {
        crate::types::suit::grew_never(*glb);
    }
    if fuel == 0 || !glb.has_room_for(9) {
        return Err(too_many_types());
    }
    let mut new_off: i64 = off;
    let mut new_par = par;
    let mut new_par_off: i64 = par_off;
    let r = glb.follow_chain(ct, &mut new_off, &mut new_par, &mut new_par_off, wrap);
    let ghost mid = *glb;
    proof {
        assert(crate::types::chain::follows_down(
            mid,
            before,
            ct,
            wrap,
            off,
            new_off,
            par,
            new_par,
            par_off,
            new_par_off,
            r,
        ));
        if par is Some {
            crate::types::chain::enters_later(par->0, mid.types, before.types);
        }
    }
    match r {
        Ok(Some(next)) => {
            if new_off == 0 {
                return Ok(Reached { pointer: Some(next), parent: new_par, parent_off: new_par_off });
            }
            let res = walk_down(glb, next, new_off, new_par, new_par_off, wrap, fuel - 1);
            proof {
                crate::types::suit::grew_twice(*glb, mid, before);
            }
            res
        },
        Ok(None) => Ok(Reached { pointer: None, parent: new_par, parent_off: new_par_off }),
        Err(e) => Err(e),
    }
}

/// What making a pointer know where in a composite it points does.
pub open spec fn attaches(
    after: Architecture,
    before: Architecture,
    pointer: Option<TypeId>,
    parent: Option<TypeId>,
    parent_off: i64,
    res: Result<Option<TypeId>>,
) -> bool {
    if parent is None {
        after == before && res == Ok::<Option<TypeId>, Error>(pointer)
    } else if !before.roomy(6) {
        after == before && (res matches Err(e) && crate::unionresolve::fit::out_of_room(e))
    } else {
        match pointer {
            Some(ptr) => attaches_to(
                after,
                before,
                before.types.dt(ptr).pointer().ptrto->0,
                parent->0,
                parent_off as i32,
                res,
            ),
            None => exists|mid: Architecture, b: Result<TypeId>| #[trigger]
                makes_byte(mid, before, b) && match b {
                    Ok(byte) => attaches_to(after, mid, byte, parent->0, parent_off as i32, res),
                    Err(e) => after == mid && res == Err::<Option<TypeId>, Error>(e),
                },
        }
    }
}

pub open spec fn makes_byte(after: Architecture, before: Architecture, res: Result<TypeId>) -> bool {
    after.same_program(before) && after.types.makes_base(before.types, 1, TypeMetatype::Unknown, res)
}

pub open spec fn attaches_to(
    after: Architecture,
    before: Architecture,
    pt: TypeId,
    parent: TypeId,
    off: i32,
    res: Result<Option<TypeId>>,
) -> bool {
    &&& after.same_program(before)
    &&& exists|r: Result<TypeId>| #[trigger]
        crate::types::suit::makes_rel(after.types, before.types, parent, pt, off, r) && match r {
            Ok(tp) => res == Ok::<Option<TypeId>, Error>(Some(tp)),
            Err(e) => res == Err::<Option<TypeId>, Error>(e),
        }
}

fn attach_to(glb: &mut Architecture, pt: TypeId, parent: TypeId, off: i32) -> (res: Result<Option<TypeId>>)
    requires
        old(glb).workable(),
        old(glb).roomy(5),
        old(glb).types.has(pt),
        crate::types::chain::enters(parent, old(glb).types),
    ensures
        final(glb).grew(*old(glb)),
        attaches_to(*final(glb), *old(glb), pt, parent, off, res),
        res matches Ok(Some(tp)) ==> final(glb).types.has(tp),
{
    let r = glb.rel_pointer_of(parent, pt, off);
    assert(crate::types::suit::makes_rel(glb.types, old(glb).types, parent, pt, off, r));
    match r {
        Ok(tp) => Ok(Some(tp)),
        Err(e) => Err(e),
    }
}

fn attach(glb: &mut Architecture, pointer: Option<TypeId>, parent: Option<TypeId>, parent_off: i64) -> (res: Result<
    Option<TypeId>,
>)
    requires
        old(glb).workable(),
        pointer matches Some(tp) ==> old(glb).types.has(tp) && old(glb).types.dt(tp).is_pointer(),
        parent matches Some(p) ==> crate::types::chain::enters(p, old(glb).types),
    ensures
        final(glb).grew(*old(glb)),
        attaches(*final(glb), *old(glb), pointer, parent, parent_off, res),
        res matches Ok(Some(tp)) ==> final(glb).types.has(tp),
{
    let ghost before = *glb;
    proof {
        crate::types::suit::grew_never(*glb);
    }
    let Some(parent) = parent else {
        return Ok(pointer);
    };
    if !glb.has_room_for(6) {
        return Err(too_many_types());
    }
    match pointer {
        Some(ptr) => {
            proof {
                glb.types.look(ptr);
                glb.types.parts(glb.types.dt(ptr));
            }
            let pt = glb.types.get(ptr).get_ptr_to();
            attach_to(glb, pt, parent, parent_off as i32)
        },
        None => {
            let made = glb.base_of(1, TypeMetatype::Unknown);
            let ghost mid = *glb;
            proof {
                assert(makes_byte(mid, before, made));
                crate::types::chain::enters_later(parent, mid.types, before.types);
            }
            match made {
                Ok(byte) => {
                    let res = attach_to(glb, byte, parent, parent_off as i32);
                    proof {
                        crate::types::suit::grew_twice(*glb, mid, before);
                    }
                    res
                },
                Err(e) => Err(e),
            }
        },
    }
}

/// What leaving the space of a spacebase behind does: a pointer into it becomes a pointer to bytes.
pub open spec fn leaves_space(
    after: Architecture,
    before: Architecture,
    result: TypeId,
    invn: VarnodeId,
    data: Funcdata,
    res: Result<Option<TypeId>>,
) -> bool {
    let d = before.types.dt(result);
    if data.value(invn).flag(Varnode::SPACEBASE) && d.is_pointer() && before.types.dt(
        d.pointer().ptrto->0,
    ).kind is Spacebase {
        gets_byte_pointer(after, before, d.size, d.pointer().wordsize, res)
    } else {
        after == before && res == Ok::<Option<TypeId>, Error>(Some(result))
    }
}

/// What spreading a pointer to a sum does, once it is known where the pointer leads.
pub open spec fn settles_sum(
    after: Architecture,
    before: Architecture,
    alttype: TypeId,
    command: i32,
    end: Reached,
    invn: VarnodeId,
    data: Funcdata,
    res: Result<Option<TypeId>>,
) -> bool {
    exists|mid: Architecture, r: Result<Option<TypeId>>| #[trigger]
        attaches(mid, before, end.pointer, end.parent, end.parent_off, r) && match r {
            Ok(Some(result)) => leaves_space(after, mid, result, invn, data, res),
            Ok(None) => after == mid && res == Ok::<Option<TypeId>, Error>(
                if command == 0 {
                    Some(alttype)
                } else {
                    None
                },
            ),
            Err(e) => after == mid && res == Err::<Option<TypeId>, Error>(e),
        }
}

/// An addition may step from one element of an array to another.
pub open spec fn wraps(op: OpId, data: Funcdata) -> bool {
    data.operation(op).opcode != OpCode::Ptrsub
}

/// The bytes that an offset in the units of a pointer stands for.
pub open spec fn bytes_added(offset: u64, d: Datatype) -> i64 {
    (offset as i64).wrapping_mul(d.pointer().wordsize as i64)
}

/// What walking down a pointer that an offset is added to does.
pub open spec fn walks_sum(
    after: Architecture,
    before: Architecture,
    alttype: TypeId,
    offset: u64,
    op: OpId,
    data: Funcdata,
    res: Result<Reached>,
) -> bool {
    walks_down(
        after,
        before,
        alttype,
        bytes_added(offset, before.types.dt(alttype)),
        None,
        0,
        wraps(op, data),
        u32::MAX as nat,
        res,
    )
}

/// What spreading a pointer from an input to a sum does.
pub open spec fn spreads_to_sum(
    after: Architecture,
    before: Architecture,
    alttype: TypeId,
    op: OpId,
    inslot: i32,
    data: Funcdata,
    res: Result<Option<TypeId>>,
) -> bool {
    let types = before.types;
    let (command, offset) = addition(
        0,
        op,
        inslot,
        types.dt(types.dt(alttype).pointer().ptrto->0).align_size,
        data,
        types,
    );
    let invn = data.operation(op).inrefs@[inslot as int];
    spreads_by(after, before, alttype, command, offset, op, invn, data, res)
}

/// What spreading a pointer to a sum does, once it is known what is added.
pub open spec fn spreads_by(
    after: Architecture,
    before: Architecture,
    alttype: TypeId,
    command: i32,
    offset: u64,
    op: OpId,
    invn: VarnodeId,
    data: Funcdata,
    res: Result<Option<TypeId>>,
) -> bool {
    if command == 2 {
        after == before && res == Ok::<Option<TypeId>, Error>(None)
    } else if command == 3 {
        settles_sum(
            after,
            before,
            alttype,
            command,
            Reached { pointer: Some(alttype), parent: None, parent_off: 0i64 },
            invn,
            data,
            res,
        )
    } else {
        exists|mid: Architecture, r: Result<Reached>| #[trigger]
            walks_sum(mid, before, alttype, offset, op, data, r) && match r {
                Ok(end) => settles_sum(after, mid, alttype, command, end, invn, data, res),
                Err(e) => after == mid && res == Err::<Option<TypeId>, Error>(e),
            }
    }
}

impl TypeOpIntAdd {
    pub fn propagate_add_pointer(off: &mut u64, op: OpId, slot: i32, sz: i32, data: &Funcdata, types: &TypeFactory) -> (res:
        i32)
        requires
            data.flowing(),
            data.has_op(op),
            0 <= slot < data.operation(op).inrefs@.len(),
            types.sound(),
            forall|vn: VarnodeId| #![trigger data.has_vn(vn)]
                data.has_vn(vn) && data.value(vn).temp_type is Some ==> types.has(data.value(vn).temp_type->0),
        ensures
            (res, *final(off)) == addition(*old(off), op, slot, sz, *data, *types),
    {
        assert(data.shaped(data.operation(op)));
        let pcode = data.op(op);
        let divisor: u64 = sz as u64;
        assert(sz != 0 ==> (sz as u64) != 0) by (bit_vector);
        match pcode.code() {
            OpCode::Ptradd => {
                assert(data.has_vn(data.operation(op).inrefs@[1]));
                assert(data.has_vn(data.operation(op).inrefs@[2]));
                if slot != 0 {
                    return 2;
                }
                let constvn = data.vn(pcode.get_in(1));
                let mult: u64 = data.vn(pcode.get_in(2)).get_offset();
                if constvn.is_constant() {
                    *off = constvn.get_offset().wrapping_mul(mult) & calc_mask(constvn.get_size());
                    return if *off == 0 {
                        0
                    } else {
                        1
                    };
                }
                if sz != 0 && mult % divisor != 0 {
                    return 2;
                }
                3
            },
            OpCode::Ptrsub => {
                assert(data.has_vn(data.operation(op).inrefs@[1]));
                if slot != 0 {
                    return 2;
                }
                *off = data.vn(pcode.get_in(1)).get_offset();
                if *off == 0 {
                    0
                } else {
                    1
                }
            },
            OpCode::IntAdd => {
                assert(data.has_vn(data.operation(op).inrefs@[1 - slot]));
                let othervn = data.vn(pcode.get_in(1 - slot));
                if !othervn.is_constant() {
                    if othervn.is_written() {
                        let def = othervn.get_def().unwrap();
                        assert(data.has_op(def));
                        assert(data.shaped(data.operation(def)));
                        let multop = data.op(def);
                        if multop.code() == OpCode::IntMult {
                            assert(data.has_vn(data.operation(def).inrefs@[1]));
                            let constvn = data.vn(multop.get_in(1));
                            if constvn.is_constant() {
                                let mult: u64 = constvn.get_offset();
                                if mult == calc_mask(constvn.get_size()) {
                                    return 2;
                                }
                                if sz != 0 && mult % divisor != 0 {
                                    return 2;
                                }
                            }
                            return 3;
                        }
                    }
                    if sz == 1 {
                        return 3;
                    }
                    return 2;
                }
                if let Some(tp) = othervn.get_temp_type() {
                    proof {
                        types.look(tp);
                    }
                    if types.get(tp).get_metatype() == TypeMetatype::Ptr {
                        return 2;
                    }
                }
                *off = othervn.get_offset();
                if *off == 0 {
                    0
                } else {
                    1
                }
            },
            _ => 2,
        }
    }

    /// Finishes spreading a pointer to a sum.
    fn settle_sum(
        alttype: TypeId,
        command: i32,
        end: Reached,
        invn: VarnodeId,
        data: &Funcdata,
        glb: &mut Architecture,
    ) -> (res: Result<Option<TypeId>>)
        requires
            old(glb).workable(),
            old(glb).types.has(alttype),
            data.has_vn(invn),
            end.pointer matches Some(tp) ==> old(glb).types.has(tp) && old(glb).types.dt(tp).is_pointer(),
            end.parent matches Some(p) ==> crate::types::chain::enters(p, old(glb).types),
        ensures
            final(glb).grew(*old(glb)),
            settles_sum(*final(glb), *old(glb), alttype, command, end, invn, *data, res),
            res matches Ok(Some(tp)) ==> final(glb).types.has(tp),
    {
        let ghost before = *glb;
        let r = attach(glb, end.pointer, end.parent, end.parent_off);
        let ghost mid = *glb;
        proof {
            assert(attaches(mid, before, end.pointer, end.parent, end.parent_off, r));
            assert(mid.types.has(alttype));
        }
        match r {
            Ok(Some(result)) => {
                proof {
                    glb.types.look(result);
                    glb.types.parts(glb.types.dt(result));
                    assert(glb.suits(glb.types.dt(result)));
                }
                let dt = glb.types.get(result);
                if data.vn(invn).is_spacebase() && dt.get_metatype() == TypeMetatype::Ptr {
                    let target = dt.get_ptr_to();
                    proof {
                        glb.types.look(target);
                    }
                    if glb.types.get(target).get_metatype() == TypeMetatype::Spacebase {
                        let size: i32 = dt.get_size();
                        let wordsize: u32 = dt.get_word_size();
                        let res = byte_pointer_for(size, wordsize, glb);
                        proof {
                            crate::types::suit::grew_twice(*glb, mid, before);
                            assert(leaves_space(*glb, mid, result, invn, *data, res));
                        }
                        return res;
                    }
                }
                assert(leaves_space(*glb, mid, result, invn, *data, Ok::<Option<TypeId>, Error>(Some(result))));
                Ok(Some(result))
            },
            Ok(None) => if command == 0 {
                Ok(Some(alttype))
            } else {
                Ok(None)
            },
            Err(e) => Err(e),
        }
    }

    pub fn propagate_add_in2_out(alttype: TypeId, op: OpId, inslot: i32, data: &Funcdata, glb: &mut Architecture) -> (res:
        Result<Option<TypeId>>)
        requires
            old(glb).workable(),
            data.flowing(),
            data.has_op(op),
            0 <= inslot < data.operation(op).inrefs@.len(),
            old(glb).types.has(alttype),
            old(glb).types.dt(alttype).is_pointer(),
            tried_in(*data, old(glb).types),
        ensures
            final(glb).grew(*old(glb)),
            spreads_to_sum(*final(glb), *old(glb), alttype, op, inslot, *data, res),
            res matches Ok(Some(tp)) ==> final(glb).types.has(tp),
    {
        let ghost before = *glb;
        proof {
            crate::types::suit::grew_never(*glb);
            glb.types.look(alttype);
            glb.types.parts(glb.types.dt(alttype));
            assert(data.has_vn(data.operation(op).inrefs@[inslot as int]));
        }
        let invn = data.op(op).get_in(inslot);
        let mut offset: u64 = 0;
        let ptrto = glb.types.get(alttype).get_ptr_to();
        proof {
            glb.types.look(ptrto);
        }
        let align_size: i32 = glb.types.get(ptrto).get_align_size();
        let command: i32 = TypeOpIntAdd::propagate_add_pointer(&mut offset, op, inslot, align_size, data, &glb.types);
        if command == 2 {
            return Ok(None);
        }
        if command == 3 {
            return TypeOpIntAdd::settle_sum(alttype, command, Reached { pointer: Some(alttype), parent: None, parent_off: 0 }, invn, data, glb);
        }
        let type_offset: i64 = AddrSpace::address_to_byte_int(offset as i64, glb.types.get(alttype).get_word_size());
        let allow_wrap = data.op(op).code() != OpCode::Ptrsub;
        let r = walk_down(glb, alttype, type_offset, None, 0, allow_wrap, u32::MAX);
        let ghost mid = *glb;
        proof {
            assert(walks_sum(mid, before, alttype, offset, op, *data, r));
            assert(mid.types.has(alttype));
        }
        match r {
            Ok(end) => {
                let res = TypeOpIntAdd::settle_sum(alttype, command, end, invn, data, glb);
                proof {
                    crate::types::suit::grew_twice(*glb, mid, before);
                }
                res
            },
            Err(e) => Err(e),
        }
    }
}

/// The data-types that are being tried on values are those of the program.
pub open spec fn tried_in(data: Funcdata, types: TypeFactory) -> bool {
    forall|vn: VarnodeId| #![trigger data.has_vn(vn)]
        data.has_vn(vn) && data.value(vn).temp_type is Some ==> types.has(data.value(vn).temp_type->0)
}

} // verus!

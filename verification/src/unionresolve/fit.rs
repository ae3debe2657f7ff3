//! How well a data-type fits what is known of a value.
use vstd::prelude::*;
use crate::address::bit_transitions;
use crate::architecture::Architecture;
use crate::error::{Error, Result};
use crate::float::{get_float_format, FloatClass};
use crate::fspec::FuncProto;
use crate::ids::TypeId;
use crate::types::{Datatype, TypeFactory, TypeKind, TypeMetatype};

verus! {

/// How well a data-type fits one that a value is locked to.
pub open spec fn locked_fit(ct: TypeId, lock_type: TypeId, types: TypeFactory) -> i32 {
    let same: i32 = if lock_type == ct {
        5
    } else {
        0
    };
    same.wrapping_add(targets_fit(ct, lock_type, types))
}

/// How well two data-types fit, where pointers fit as well as their targets, and then some.
pub open spec fn targets_fit(ct: TypeId, lock_type: TypeId, types: TypeFactory) -> i32
    decreases ct.0,
    when types.sound() && types.has(ct) && types.has(lock_type)
{
    proof {
        types.look(ct);
        types.parts(types.dt(ct));
    }
    let d = types.dt(ct);
    let l = types.dt(lock_type);
    if d.is_pointer() && l.is_pointer() && types.has(l.pointer().ptrto->0) {
        targets_fit(d.pointer().ptrto->0, l.pointer().ptrto->0, types).wrapping_add(5)
    } else {
        classes_fit(d, l)
    }
}

pub open spec fn classes_fit(d: Datatype, l: Datatype) -> i32 {
    let a = d.metatype;
    let b = l.metatype;
    if a == b {
        if a == TypeMetatype::Struct || a == TypeMetatype::Union || a == TypeMetatype::Array || a == TypeMetatype::Code {
            10i32
        } else {
            3i32
        }
    } else {
        let sign_only = (a == TypeMetatype::Int && b == TypeMetatype::Uint) || (a == TypeMetatype::Uint && b
            == TypeMetatype::Int);
        match (sign_only, d.size == l.size) {
            (true, true) => -1i32,
            (true, false) => -3i32,
            (false, true) => -5i32,
            (false, false) => -7i32,
        }
    }
}

fn score_targets(ct: TypeId, lock_type: TypeId, types: &TypeFactory) -> (res: i32)
    requires
        types.sound(),
        types.has(ct),
        types.has(lock_type),
    ensures
        res == targets_fit(ct, lock_type, *types),
    decreases ct.0,
{
    proof {
        types.look(ct);
        types.parts(types.dt(ct));
        types.look(lock_type);
        types.parts(types.dt(lock_type));
    }
    let d = types.get(ct);
    let l = types.get(lock_type);
    let ct_meta = d.get_metatype();
    let vn_meta = l.get_metatype();
    if ct_meta == TypeMetatype::Ptr && vn_meta == TypeMetatype::Ptr {
        return score_targets(d.get_ptr_to(), l.get_ptr_to(), types).wrapping_add(5);
    }
    if ct_meta == vn_meta {
        if ct_meta == TypeMetatype::Struct || ct_meta == TypeMetatype::Union || ct_meta == TypeMetatype::Array || ct_meta
            == TypeMetatype::Code {
            10
        } else {
            3
        }
    } else {
        let mut score: i32 = if (ct_meta == TypeMetatype::Int && vn_meta == TypeMetatype::Uint) || (ct_meta
            == TypeMetatype::Uint && vn_meta == TypeMetatype::Int) {
            -1
        } else {
            -5
        };
        if d.get_size() != l.get_size() {
            score = score - 2;
        }
        score
    }
}

pub fn score_locked_type(ct: TypeId, lock_type: TypeId, types: &TypeFactory) -> (res: i32)
    requires
        types.sound(),
        types.has(ct),
        types.has(lock_type),
    ensures
        res == locked_fit(ct, lock_type, *types),
{
    let same: i32 = if lock_type == ct {
        5
    } else {
        0
    };
    same.wrapping_add(score_targets(ct, lock_type, types))
}

/// How well a data-type fits a place where nothing is locked.
pub open spec fn unlocked_fit(ct: TypeId, types: TypeFactory) -> i32 {
    let meta = types.dt(ct).metatype;
    if meta == TypeMetatype::Array || meta == TypeMetatype::Struct || meta == TypeMetatype::Union || meta
        == TypeMetatype::Code {
        -1i32
    } else {
        0i32
    }
}

fn score_unlocked(ct: TypeId, types: &TypeFactory) -> (res: i32)
    requires
        types.has(ct),
    ensures
        res == unlocked_fit(ct, *types),
{
    let meta = types.get(ct).get_metatype();
    if meta == TypeMetatype::Array || meta == TypeMetatype::Struct || meta == TypeMetatype::Union || meta
        == TypeMetatype::Code {
        -1
    } else {
        0
    }
}

/// How well a data-type fits a parameter.
pub open spec fn parameter_fit(ct: TypeId, proto: Option<FuncProto>, param_slot: i32, types: TypeFactory) -> i32 {
    match proto {
        Some(p) => if p.input_locked() && 0 <= param_slot < p.params@.len() {
            locked_fit(ct, p.params@[param_slot as int].tp, types)
        } else {
            unlocked_fit(ct, types)
        },
        None => unlocked_fit(ct, types),
    }
}

pub fn score_parameter(ct: TypeId, proto: Option<&FuncProto>, param_slot: i32, types: &TypeFactory) -> (res: i32)
    requires
        types.sound(),
        types.has(ct),
        proto is Some ==> crate::unionresolve::proto_typed(*proto->0, *types),
    ensures
        res == parameter_fit(
            ct,
            match proto {
                Some(p) => Some(*p),
                None => None,
            },
            param_slot,
            *types,
        ),
{
    if let Some(proto) = proto {
        if proto.is_input_locked() {
            if let Some(param) = proto.get_param(param_slot) {
                assert(types.has(proto.params@[param_slot as int].tp));
                return score_locked_type(ct, param.get_type(), types);
            }
        }
    }
    score_unlocked(ct, types)
}

/// How well a data-type fits a return value.
pub open spec fn return_fit(ct: TypeId, proto: Option<FuncProto>, types: TypeFactory) -> i32 {
    match proto {
        Some(p) => if p.output_locked() {
            locked_fit(ct, p.output->0.tp, types)
        } else {
            unlocked_fit(ct, types)
        },
        None => unlocked_fit(ct, types),
    }
}

pub fn score_return_type(ct: TypeId, proto: Option<&FuncProto>, types: &TypeFactory) -> (res: i32)
    requires
        types.sound(),
        types.has(ct),
        proto is Some ==> crate::unionresolve::proto_typed(*proto->0, *types),
    ensures
        res == return_fit(
            ct,
            match proto {
                Some(p) => Some(*p),
                None => None,
            },
            *types,
        ),
{
    if let Some(proto) = proto {
        if proto.is_output_locked() {
            if let Some(out) = &proto.output {
                return score_locked_type(ct, out.get_type(), types);
            }
        }
    }
    score_unlocked(ct, types)
}

/// How well a data-type of a class fits a constant.
pub open spec fn constant_fit(meta: TypeMetatype, size: i32, val: u64, glb: Architecture) -> i32 {
    match meta {
        TypeMetatype::Bool => if size == 1 && val < 2 {
            2i32
        } else {
            -2i32
        },
        TypeMetatype::Float => match crate::float::format_for(glb.float_formats@, size, 0) {
            Some(format) => {
                let class = format.class_of(val);
                if class == FloatClass::Zero || (class == FloatClass::Normalized && -4 < format.exponent_of(val) < 7) {
                    2i32
                } else {
                    -1i32
                }
            },
            None => -1i32,
        },
        TypeMetatype::Int | TypeMetatype::Uint | TypeMetatype::Ptr => if val == 0 {
            2i32
        } else {
            let spc = glb.manager.default_data_space->0;
            let address = spc.pointer_lower_bound <= val <= spc.pointer_upper_bound && crate::address::transitions(
                val,
                1,
                (8 * size) as u32,
            ) >= 3;
            if meta == TypeMetatype::Ptr {
                if address {
                    2i32
                } else {
                    -2i32
                }
            } else if address {
                1i32
            } else {
                2i32
            }
        },
        TypeMetatype::Array => 0i32,
        _ => -2i32,
    }
}

pub fn score_constant_fit(meta: TypeMetatype, size: i32, val: u64, glb: &Architecture) -> (res: i32)
    requires
        1 <= size <= 8,
        glb.manager.default_data_space is Some,
    ensures
        res == constant_fit(meta, size, val, *glb),
{
    match meta {
        TypeMetatype::Bool => if size == 1 && val < 2 {
            2
        } else {
            -2
        },
        TypeMetatype::Float => match get_float_format(&glb.float_formats, size) {
            Some(format) => {
                let class = format.get_class(val);
                if class == FloatClass::Zero {
                    return 2;
                }
                if class == FloatClass::Normalized {
                    let exp: i32 = format.get_exponent(val);
                    if exp < 7 && exp > -4 {
                        return 2;
                    }
                }
                -1
            },
            None => -1,
        },
        TypeMetatype::Int | TypeMetatype::Uint | TypeMetatype::Ptr => {
            if val == 0 {
                return 2;
            }
            let spc = glb.manager.get_default_data_space().unwrap();
            let looks_like_pointer = val >= spc.pointer_lower_bound && val <= spc.pointer_upper_bound
                && bit_transitions(val, size) >= 3;
            if meta == TypeMetatype::Ptr {
                if looks_like_pointer {
                    2
                } else {
                    -2
                }
            } else if looks_like_pointer {
                1
            } else {
                2
            }
        },
        TypeMetatype::Array => 0,
        _ => -2,
    }
}

/// The first component of a data-type, of its first component and so on that is no larger than a size.
pub open spec fn first_within(cur: TypeId, size: i32, glb: Architecture) -> Option<TypeId>
    decreases glb.types.above(glb.types.dt(cur)), glb.types.depth_of(glb.types.dt(cur)),
    when glb.workable() && glb.types.member(cur)
{
    let d = glb.types.dt(cur);
    if d.size <= size {
        Some(cur)
    } else {
        match crate::types::inside::step_into(d, 0, 0, glb.types, Some(&glb)).0 {
            Some(next) => if glb.types.below(next, d) {
                first_within(next, size, glb)
            } else {
                None
            },
            None => None,
        }
    }
}

pub fn find_first_within(start: TypeId, size: i32, glb: &Architecture) -> (res: Option<TypeId>)
    requires
        glb.workable(),
        glb.types.has(start),
    ensures
        res == first_within(start, size, *glb),
        res is Some ==> glb.types.has(res->0),
{
    let mut cur = start;
    proof {
        glb.types.look(start);
    }
    loop
        invariant
            glb.workable(),
            glb.types.member(cur),
            first_within(cur, size, *glb) == first_within(start, size, *glb),
        decreases glb.types.above(glb.types.dt(cur)), glb.types.depth_of(glb.types.dt(cur)),
    {
        let dt = glb.types.get(cur);
        if dt.get_size() <= size {
            return Some(cur);
        }
        proof {
            assert(glb.suits(glb.types.dt(cur)));
        }
        let mut newoff: i64 = 0;
        match dt.get_sub_type(0, &mut newoff, glb) {
            Some(next) => {
                cur = next;
            },
            None => {
                return None;
            },
        }
    }
}

/// A field of a union that starts at an offset and has a size, among those from a number on.
pub open spec fn has_field_at(d: Datatype, offset: i32, size: i32, i: nat, types: TypeFactory) -> bool {
    exists|k: int| i <= k < d.fields().len() && (#[trigger] d.fields()[k]).offset == offset && types.size_of(
        d.fields()[k].tp,
    ) == size
}

/// How well some bytes of a data-type fit a value of a size, and what they are.
pub open spec fn truncation_fit(ct: TypeId, size: i32, offset: i32, base: TypeId, glb: Architecture) -> (i32, Option<
    TypeId,
>) {
    let d = glb.types.dt(ct);
    if d.kind is Union {
        if has_field_at(d, offset, size, 0, glb.types) {
            if base == ct {
                (15i32, None)
            } else {
                (10i32, None)
            }
        } else {
            (-10i32, None)
        }
    } else {
        component_fit(ct, offset as i64, size, glb)
    }
}

/// How well the component of a data-type at an offset fits a value of a size, and what it is.
pub open spec fn component_fit(cur: TypeId, off: i64, size: i32, glb: Architecture) -> (i32, Option<TypeId>)
    decreases glb.types.above(glb.types.dt(cur)), glb.types.depth_of(glb.types.dt(cur)),
    when glb.workable() && glb.types.member(cur)
{
    let d = glb.types.dt(cur);
    let el = glb.types.dt(d.kind->Array_0.arrayof->0).align_size;
    let whole = d.metatype == TypeMetatype::Int || d.metatype == TypeMetatype::Uint;
    if off == 0 && d.size == size {
        (10i32, Some(cur))
    } else if whole && d.size >= size + off {
        (1i32, Some(cur))
    } else if d.kind is Array && el < size {
        if crate::space::trunc_rem(size + off, el as int) != 0 {
            (-5i32, Some(cur))
        } else {
            (1i32, Some(cur))
        }
    } else {
        let (sub, newoff) = crate::types::inside::step_into(d, off, off, glb.types, Some(&glb));
        match sub {
            Some(next) => if glb.types.below(next, d) {
                component_fit(next, newoff, size, glb)
            } else {
                (-10i32, None)
            },
            None => (-10i32, None),
        }
    }
}

fn score_component(start: TypeId, offset: i32, size: i32, glb: &Architecture) -> (res: (i32, Option<TypeId>))
    requires
        glb.workable(),
        glb.types.has(start),
    ensures
        res == component_fit(start, offset as i64, size, *glb),
        res.1 is Some ==> glb.types.has((res.1)->0),
{
    let mut cur = start;
    let mut cur_off: i64 = offset as i64;
    proof {
        glb.types.look(start);
    }
    loop
        invariant
            glb.workable(),
            glb.types.member(cur),
            component_fit(cur, cur_off, size, *glb) == component_fit(start, offset as i64, size, *glb),
        decreases glb.types.above(glb.types.dt(cur)), glb.types.depth_of(glb.types.dt(cur)),
    {
        proof {
            glb.types.parts(glb.types.dt(cur));
            assert(glb.suits(glb.types.dt(cur)));
        }
        let dt = glb.types.get(cur);
        if cur_off == 0 && dt.get_size() == size {
            return (10, Some(cur));
        }
        let end: i128 = size as i128 + cur_off as i128;
        if dt.get_metatype() == TypeMetatype::Int || dt.get_metatype() == TypeMetatype::Uint {
            if dt.get_size() as i128 >= end {
                return (1, Some(cur));
            }
        } else if let TypeKind::Array(array) = &dt.kind {
            let element: i32 = glb.types.get(array.arrayof.unwrap()).get_align_size();
            if element < size {
                if rest_of(end, element) != 0 {
                    return (-5, Some(cur));
                }
                return (1, Some(cur));
            }
        }
        let mut newoff: i64 = cur_off;
        match dt.get_sub_type(cur_off, &mut newoff, glb) {
            Some(next) => {
                cur = next;
                cur_off = newoff;
            },
            None => {
                return (-10, None);
            },
        }
    }
}

fn rest_of(a: i128, b: i32) -> (res: i128)
    requires
        b >= 1,
        a > i128::MIN,
    ensures
        res == crate::space::trunc_rem(a as int, b as int),
{
    if a >= 0 {
        a % (b as i128)
    } else {
        proof {
            vstd::arithmetic::div_mod::lemma_mod_bound(-a as int, b as int);
        }
        -((-a) % (b as i128))
    }
}

pub fn score_truncation(ct: TypeId, size: i32, offset: i32, base: TypeId, glb: &Architecture) -> (res: (i32, Option<
    TypeId,
>))
    requires
        glb.workable(),
        glb.types.has(ct),
    ensures
        res == truncation_fit(ct, size, offset, base, *glb),
        res.1 is Some ==> glb.types.has((res.1)->0),
{
    proof {
        glb.types.look(ct);
        glb.types.parts(glb.types.dt(ct));
    }
    let dt = glb.types.get(ct);
    if dt.get_metatype() == TypeMetatype::Union {
        let num: i32 = dt.num_depend(&glb.types);
        let mut index: i32 = 0;
        while index < num
            invariant
                glb.types.sound(),
                *dt == glb.types.dt(ct),
                dt.kind is Union,
                glb.types.linked(*dt),
                0 <= index <= num,
                num == dt.fields().len(),
                has_field_at(*dt, offset, size, 0, glb.types) == has_field_at(*dt, offset, size, index as nat, glb.types),
            decreases num - index,
        {
            let field = dt.get_field(index);
            if field.offset == offset && glb.types.get(field.tp).get_size() == size {
                assert(dt.fields()[index as int].offset == offset);
                return if base == ct {
                    (15, None)
                } else {
                    (10, None)
                };
            }
            index = index + 1;
        }
        return (-10, None);
    }
    score_component(ct, offset, size, glb)
}

/// An error where more data-types are needed than there are handles for.
pub open spec fn out_of_room(e: Error) -> bool {
    e.is_lowlevel("Too many data-types"@)
}

pub fn too_many_types() -> (res: Error)
    ensures
        out_of_room(res),
{
    Error::lowlevel("Too many data-types")
}

/// What finding the data-type that a pointer is read or written through as does.
/// With it comes how well it fits.
pub open spec fn dereferences(
    after: Architecture,
    before: Architecture,
    fit_type: TypeId,
    max_length: i32,
    size: i32,
    res: Result<(i32, Option<TypeId>)>,
) -> bool {
    let d = before.types.dt(fit_type);
    let ptrto = d.pointer().ptrto->0;
    let sub = first_within(ptrto, size, before);
    if !d.is_pointer() {
        after == before && res == Ok::<(i32, Option<TypeId>), Error>((-10i32, None))
    } else if sub is Some && before.types.size_of(sub->0) == size {
        after == before && res == Ok::<(i32, Option<TypeId>), Error>((10i32, sub))
    } else if max_length != 0 && before.types.size_of(ptrto) >= 1 && size as int % before.types.size_of(ptrto) == 0 {
        &&& after.same_program(before)
        &&& exists|made: Result<TypeId>| #[trigger]
            after.types.makes_array(
                before.types,
                (size as int / before.types.size_of(ptrto)) as i32,
                ptrto,
                made,
            ) && match made {
                Ok(tp) => res == Ok::<(i32, Option<TypeId>), Error>((-4i32, Some(tp))),
                Err(e) => res == Err::<(i32, Option<TypeId>), Error>(e),
            }
    } else {
        after == before && res == Ok::<(i32, Option<TypeId>), Error>((-5i32, None))
    }
}

pub fn deref_pointer(fit_type: TypeId, max_length: i32, size: i32, glb: &mut Architecture) -> (res: Result<
    (i32, Option<TypeId>),
>)
    requires
        old(glb).workable(),
        old(glb).roomy(1),
        old(glb).types.has(fit_type),
        size >= 0,
    ensures
        final(glb).types.ready(),
        final(glb).same_program(*old(glb)),
        final(glb).types.keeps(old(glb).types),
        old(glb).types.spaces_sizeless() ==> final(glb).grew(*old(glb)),
        dereferences(*final(glb), *old(glb), fit_type, max_length, size, res),
        res matches Ok(found) ==> found.1 is Some ==> final(glb).types.has((found.1)->0),
{
    proof {
        glb.types.look(fit_type);
        glb.types.parts(glb.types.dt(fit_type));
        crate::types::suit::grew_never(*glb);
    }
    if glb.types.get(fit_type).get_metatype() != TypeMetatype::Ptr {
        return Ok((-10, None));
    }
    let ptrto = glb.types.get(fit_type).get_ptr_to();
    if let Some(sub) = find_first_within(ptrto, size, glb) {
        if glb.types.get(sub).get_size() == size {
            return Ok((10, Some(sub)));
        }
    }
    let ptrto_size: i32 = glb.types.get(ptrto).get_size();
    if max_length != 0 && ptrto_size >= 1 && size % ptrto_size == 0 {
        proof {
            vstd::arithmetic::div_mod::lemma_div_pos_is_pos(size as int, ptrto_size as int);
            glb.types.parts(glb.types.dt(ptrto));
        }
        let made = glb.array_of(size / ptrto_size, ptrto);
        return match made {
            Ok(tp) => Ok((-4, Some(tp))),
            Err(e) => Err(e),
        };
    }
    Ok((-5, None))
}

/// What following a pointer does, as long as an offset is left.
pub open spec fn follows_on(
    after: Architecture,
    before: Architecture,
    base: TypeId,
    off: i64,
    fuel: nat,
    res: Result<Option<TypeId>>,
) -> bool
    decreases fuel,
{
    if off == 0 {
        after == before && res == Ok::<Option<TypeId>, Error>(Some(base))
    } else if fuel == 0 || !before.roomy(9) {
        after == before && (res matches Err(e) && out_of_room(e))
    } else {
        exists|mid: Architecture, new_off: i64, step: Result<Option<TypeId>>| #[trigger]
            crate::types::suit::follow_step(mid, before, base, off, new_off, step) && match step {
                Ok(Some(next)) => follows_on(after, mid, next, new_off, (fuel - 1) as nat, res),
                Ok(None) => after == mid && res == Ok::<Option<TypeId>, Error>(None),
                Err(e) => after == mid && res == Err::<Option<TypeId>, Error>(e),
            }
    }
}

/// Follows a pointer as long as an offset is left.
pub fn follow_on(glb: &mut Architecture, base: TypeId, off: i64, fuel: u32) -> (res: Result<Option<TypeId>>)
    requires
        old(glb).workable(),
        old(glb).types.has(base),
        old(glb).types.dt(base).is_pointer(),
    ensures
        final(glb).grew(*old(glb)),
        follows_on(*final(glb), *old(glb), base, off, fuel as nat, res),
        res matches Ok(Some(tp)) ==> final(glb).types.has(tp) && final(glb).types.dt(tp).is_pointer(),
    decreases fuel,
{
    let ghost before = *glb;
    proof {
        crate::types::suit::grew_never(*glb);
    }
    if off == 0 {
        return Ok(Some(base));
    }
    if fuel == 0 || !glb.has_room_for(9) {
        return Err(too_many_types());
    }
    let mut new_off: i64 = off;
    let step = glb.follow(base, &mut new_off);
    let ghost mid = *glb;
    assert(crate::types::suit::follow_step(mid, before, base, off, new_off, step));
    match step {
        Ok(Some(next)) => {
            let res = follow_on(glb, next, new_off, fuel - 1);
            proof {
                crate::types::suit::grew_twice(*glb, mid, before);
            }
            res
        },
        Ok(None) => Ok(None),
        Err(e) => Err(e),
    }
}

} // verus!

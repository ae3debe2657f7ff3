//! Smaller questions about what a data-type contains.
use vstd::prelude::*;
use crate::address::calc_mask;
use crate::architecture::Architecture;
use crate::ids::TypeId;
use crate::space::AddrSpace;
use crate::types::{Datatype, TypeFactory, TypeKind, TypeMetatype};

verus! {

/// The number of unused bytes from an offset on.
pub open spec fn hole(d: Datatype, off: i32, types: TypeFactory) -> i32
    decreases types.depth_of(d),
    when types.rests(d)
{
    proof {
        types.parts(d);
        crate::types::fields::starter_starts(d.fields(), off as int, d.fields().len());
    }
    match d.kind {
        TypeKind::Array(data) => hole(
            types.dt(data.arrayof->0),
            crate::space::trunc_rem(off as int, types.dt(data.arrayof->0).align_size as int) as i32,
            types,
        ),
        TypeKind::Struct(data) => {
            let index = crate::types::fields::field_starting(data.field@, off as int);
            if index >= 0 && off.wrapping_sub(data.field@[index].offset) < types.dt(data.field@[index].tp).size {
                hole(types.dt(data.field@[index].tp), off.wrapping_sub(data.field@[index].offset), types)
            } else if index + 1 < data.field@.len() {
                data.field@[index + 1].offset.wrapping_sub(off)
            } else {
                d.size.wrapping_sub(off)
            }
        },
        TypeKind::PartialStruct(data) => {
            let size_left = d.size.wrapping_sub(off);
            let inner = hole(types.dt(data.container), off.wrapping_add(data.offset), types);
            if inner > size_left {
                size_left
            } else {
                inner
            }
        },
        _ => 0,
    }
}

/// The number of data-types that a data-type is made of.
pub open spec fn component_count(d: Datatype, types: TypeFactory) -> int {
    match d.kind {
        TypeKind::Pointer(_) | TypeKind::PointerRel(_) => 1,
        TypeKind::Array(_) => 1,
        TypeKind::Struct(data) => data.field@.len() as int,
        TypeKind::Union(data) => data.field@.len() as int,
        TypeKind::PartialUnion(data) => types.dt(data.container).fields().len() as int,
        _ => 0,
    }
}

/// One of the data-types that a data-type is made of.
pub open spec fn component(d: Datatype, index: int, types: TypeFactory) -> Option<TypeId> {
    match d.kind {
        TypeKind::Pointer(data) => data.ptrto,
        TypeKind::PointerRel(data) => data.pointer.ptrto,
        TypeKind::Array(data) => data.arrayof,
        TypeKind::Struct(data) => Some(data.field@[index].tp),
        TypeKind::Union(data) => Some(data.field@[index].tp),
        TypeKind::PartialUnion(data) => {
            let tp = types.dt(data.container).fields()[index].tp;
            if types.dt(tp).size != d.size {
                Some(data.stripped)
            } else {
                Some(tp)
            }
        },
        _ => None,
    }
}

/// Whether one primitive fills the data-type.
pub open spec fn primitive_whole(d: Datatype, types: TypeFactory) -> bool
    decreases types.depth_of(d),
    when types.rests(d)
{
    proof {
        types.parts(d);
    }
    if !(d.metatype.rank() <= TypeMetatype::Array.rank()) {
        true
    } else {
        match d.kind {
            TypeKind::Array(data) => types.dt(data.arrayof->0).size == d.size && primitive_whole(
                types.dt(data.arrayof->0),
                types,
            ),
            TypeKind::Struct(data) => data.field@.len() > 0 && types.dt(data.field@[0].tp).size == d.size
                && primitive_whole(types.dt(data.field@[0].tp), types),
            _ => false,
        }
    }
}

/// Whether an offset into a data-type, to which an index times a size and more
/// bytes are added, leads to the start of a component and stays inside it.
pub open spec fn offset_fits(
    d: Datatype,
    off: i64,
    extra: i64,
    multiplier: i64,
    types: TypeFactory,
    glb: Option<&Architecture>,
) -> bool {
    match d.kind {
        TypeKind::Array(_) => off == 0 && multiplier < d.align_size,
        TypeKind::Struct(_) => multiplier < d.align_size && {
            let (sub, newoff) = crate::types::inside::step_into(d, off, off, types, glb);
            match sub {
                Some(id) => newoff == 0 && (0 <= extra < types.dt(id).size || types.dt(id).slack(extra, types, glb)),
                None => 0 <= extra.wrapping_add(newoff) < d.size || d.size == 0,
            }
        },
        TypeKind::Code(_) => extra >= 0,
        TypeKind::Spacebase(_) => {
            let (sub, newoff) = crate::types::inside::step_into(d, off, off, types, glb);
            match sub {
                Some(id) => newoff == 0 && if types.dt(id).metatype is Code {
                    extra >= 0
                } else {
                    0 <= extra < types.dt(id).size || types.dt(id).slack(extra, types, glb)
                },
                None => false,
            }
        },
        _ => false,
    }
}

/// Whether a pointer can be moved by an offset and an index: a formal relative
/// pointer has to stay inside its parent.
pub open spec fn pointer_fits(
    d: Datatype,
    off: i64,
    extra: i64,
    multiplier: i64,
    types: TypeFactory,
    glb: Option<&Architecture>,
) -> bool {
    match d.kind {
        TypeKind::PointerRel(data) if data.stripped is None => {
            let ws = data.pointer.wordsize as i64;
            let total = ((off.wrapping_mul(ws) as i32) as i64).wrapping_add(
                (data.offset as i64).wrapping_add(extra.wrapping_mul(ws)),
            ) as i32;
            0 <= total <= types.dt(data.parent->0).size
        },
        TypeKind::Pointer(_) | TypeKind::PointerRel(_) => {
            let ws = d.pointer().wordsize as i64;
            offset_fits(
                types.dt(d.pointer().ptrto->0),
                off.wrapping_mul(ws),
                extra.wrapping_mul(ws),
                multiplier.wrapping_mul(ws),
                types,
                glb,
            )
        },
        _ => false,
    }
}

/// The smallest component that holds the bytes from an offset on, and the offset
/// into it.
pub open spec fn smallest_container(
    ct: TypeId,
    off: i64,
    sz: i64,
    types: TypeFactory,
    glb: Option<&Architecture>,
) -> (TypeId, i64)
    decreases types.above(types.dt(ct)), types.depth_of(types.dt(ct)),
    when types.walkable() && types.member(ct)
{
    let (sub, newoff) = crate::types::inside::step_into(types.dt(ct), off, off, types, glb);
    match sub {
        None => (ct, off),
        Some(next) => if newoff.wrapping_add(sz) > types.dt(next).size || !types.below(next, types.dt(ct)) {
            (ct, off)
        } else {
            smallest_container(next, newoff, sz, types, glb)
        },
    }
}

/// The smallest component lies inside the data-type: it is a member, and it holds
/// all the bytes unless it is the data-type itself.
pub proof fn smallest_container_holds(
    ct: TypeId,
    off: i64,
    sz: i64,
    types: TypeFactory,
    glb: Option<&Architecture>,
)
    requires
        types.walkable(),
        types.member(ct),
    ensures
        types.member(smallest_container(ct, off, sz, types, glb).0),
        smallest_container(ct, off, sz, types, glb) == (ct, off) || smallest_container(
            ct,
            off,
            sz,
            types,
            glb,
        ).1.wrapping_add(sz) <= types.size_of(smallest_container(ct, off, sz, types, glb).0),
    decreases types.above(types.dt(ct)), types.depth_of(types.dt(ct)),
{
    let (sub, newoff) = crate::types::inside::step_into(types.dt(ct), off, off, types, glb);
    if sub is Some && newoff.wrapping_add(sz) <= types.dt(sub->0).size && types.below(sub->0, types.dt(ct)) {
        smallest_container_holds(sub->0, newoff, sz, types, glb);
    }
}

/// The field by which a data-type is resolved so that it is the same as another
/// one, or -1, if `n` steps are enough to find out. There is no answer for a
/// structure without fields, nor if the two data-types lead to one another
/// without end.
pub open spec fn resolves_within(d: Datatype, ct: TypeId, types: TypeFactory, n: nat) -> Option<int>
    decreases n, 0nat,
{
    let other = types.dt(ct);
    if n == 0 {
        None
    } else {
        match d.kind {
            TypeKind::Pointer(_) | TypeKind::PointerRel(_) => if other.metatype is Ptr {
                resolves_within(
                    types.dt(d.pointer().ptrto->0),
                    other.pointer().ptrto->0,
                    types,
                    (n - 1) as nat,
                )
            } else {
                Some(-1int)
            },
            TypeKind::Array(data) => resolves_to(data.arrayof->0, ct, types, (n - 1) as nat),
            TypeKind::Struct(data) => if data.field@.len() == 0 {
                None
            } else {
                resolves_to(data.field@[0].tp, ct, types, (n - 1) as nat)
            },
            TypeKind::Union(data) => resolves_field(d, ct, types, (n - 1) as nat, data.field@.len()),
            TypeKind::PartialUnion(data) => resolves_within(types.dt(data.container), ct, types, (n - 1) as nat),
            _ => Some(-1int),
        }
    }
}

/// Whether a data-type whose only component is given is resolved (0) so that it
/// is the same as another one, or not (-1).
pub open spec fn resolves_to(component: TypeId, ct: TypeId, types: TypeFactory, n: nat) -> Option<int>
    decreases n, 1nat,
{
    let direct = if component == ct {
        Some(0int)
    } else {
        Some(-1int)
    };
    if types.dt(ct).flag(Datatype::NEEDS_RESOLUTION) && !types.dt(component).flag(Datatype::NEEDS_RESOLUTION) {
        match resolves_within(types.dt(ct), component, types, n) {
            None => None,
            Some(r) => if r >= 0 {
                Some(0int)
            } else {
                direct
            },
        }
    } else {
        direct
    }
}

/// Whether a field of a union can be looked at to resolve the union.
pub open spec fn field_eligible(d: Datatype, ct: TypeId, types: TypeFactory, i: int) -> bool {
    let field = d.fields()[i];
    &&& field.offset == 0
    &&& types.dt(field.tp).size == types.dt(ct).size
    &&& !types.dt(field.tp).flag(Datatype::NEEDS_RESOLUTION)
}

/// The field of a union, among the last `left`, by which the union is resolved.
pub open spec fn resolves_field(d: Datatype, ct: TypeId, types: TypeFactory, n: nat, left: nat) -> Option<int>
    decreases n, left + 1,
{
    let i = d.fields().len() - left;
    if left == 0 {
        Some(-1int)
    } else if !types.dt(ct).flag(Datatype::NEEDS_RESOLUTION) {
        if d.fields()[i].tp == ct && d.fields()[i].offset == 0 {
            Some(i)
        } else {
            resolves_field(d, ct, types, n, (left - 1) as nat)
        }
    } else if !field_eligible(d, ct, types, i) {
        resolves_field(d, ct, types, n, (left - 1) as nat)
    } else {
        match resolves_within(types.dt(ct), d.fields()[i].tp, types, n) {
            None => None,
            Some(r) => if r >= 0 {
                Some(i)
            } else {
                resolves_field(d, ct, types, n, (left - 1) as nat)
            },
        }
    }
}

/// There is an answer to how a data-type is resolved.
#[verifier::opaque]
pub open spec fn resolvable(d: Datatype, ct: TypeId, types: TypeFactory) -> bool {
    exists|n: nat| #[trigger] resolves_within(d, ct, types, n) is Some
}

/// The number of steps to the answer.
#[verifier::opaque]
pub open spec fn resolve_steps(d: Datatype, ct: TypeId, types: TypeFactory) -> nat {
    choose|n: nat| #[trigger]
        resolves_within(d, ct, types, n) is Some && forall|m: nat|
            m < n ==> #[trigger] resolves_within(d, ct, types, m) is None
}

/// The field by which a data-type is resolved so that it is the same as another
/// one, or -1.
pub open spec fn resolved_field(d: Datatype, ct: TypeId, types: TypeFactory) -> int {
    resolves_within(d, ct, types, resolve_steps(d, ct, types))->0
}

/// More steps do not change the answer.
pub proof fn resolves_is_stable(d: Datatype, ct: TypeId, types: TypeFactory, n: nat, m: nat)
    requires
        resolves_within(d, ct, types, n) is Some,
        n <= m,
    ensures
        resolves_within(d, ct, types, m) == resolves_within(d, ct, types, n),
    decreases n, 0nat,
{
    let other = types.dt(ct);
    match d.kind {
        TypeKind::Pointer(_) | TypeKind::PointerRel(_) => {
            if other.metatype is Ptr {
                resolves_is_stable(
                    types.dt(d.pointer().ptrto->0),
                    other.pointer().ptrto->0,
                    types,
                    (n - 1) as nat,
                    (m - 1) as nat,
                );
            }
        },
        TypeKind::Array(data) => {
            resolves_to_is_stable(data.arrayof->0, ct, types, (n - 1) as nat, (m - 1) as nat);
        },
        TypeKind::Struct(data) => {
            if data.field@.len() > 0 {
                resolves_to_is_stable(data.field@[0].tp, ct, types, (n - 1) as nat, (m - 1) as nat);
            }
        },
        TypeKind::Union(data) => {
            resolves_field_is_stable(d, ct, types, (n - 1) as nat, (m - 1) as nat, data.field@.len());
        },
        TypeKind::PartialUnion(data) => {
            resolves_is_stable(types.dt(data.container), ct, types, (n - 1) as nat, (m - 1) as nat);
        },
        _ => {},
    }
}

proof fn resolves_to_is_stable(component: TypeId, ct: TypeId, types: TypeFactory, n: nat, m: nat)
    requires
        resolves_to(component, ct, types, n) is Some,
        n <= m,
    ensures
        resolves_to(component, ct, types, m) == resolves_to(component, ct, types, n),
    decreases n, 1nat,
{
    if types.dt(ct).flag(Datatype::NEEDS_RESOLUTION) && !types.dt(component).flag(Datatype::NEEDS_RESOLUTION) {
        resolves_is_stable(types.dt(ct), component, types, n, m);
    }
}

proof fn resolves_field_is_stable(d: Datatype, ct: TypeId, types: TypeFactory, n: nat, m: nat, left: nat)
    requires
        resolves_field(d, ct, types, n, left) is Some,
        n <= m,
    ensures
        resolves_field(d, ct, types, m, left) == resolves_field(d, ct, types, n, left),
    decreases n, left + 1,
{
    let i = d.fields().len() - left;
    if left > 0 {
        if !types.dt(ct).flag(Datatype::NEEDS_RESOLUTION) {
            if !(d.fields()[i].tp == ct && d.fields()[i].offset == 0) {
                resolves_field_is_stable(d, ct, types, n, m, (left - 1) as nat);
            }
        } else if !field_eligible(d, ct, types, i) {
            resolves_field_is_stable(d, ct, types, n, m, (left - 1) as nat);
        } else {
            resolves_is_stable(types.dt(ct), d.fields()[i].tp, types, n, m);
            if resolves_within(types.dt(ct), d.fields()[i].tp, types, n)->0 < 0 {
                resolves_field_is_stable(d, ct, types, n, m, (left - 1) as nat);
            }
        }
    }
}

/// The answer does not depend on the steps that are granted.
pub proof fn resolved_field_is_answer(d: Datatype, ct: TypeId, types: TypeFactory, n: nat)
    requires
        resolves_within(d, ct, types, n) is Some,
    ensures
        resolves_within(d, ct, types, n) == Some(resolved_field(d, ct, types)),
        resolves_within(d, ct, types, resolve_steps(d, ct, types)) is Some,
        resolve_steps(d, ct, types) <= n,
{
    reveal(resolve_steps);
    fewest_steps(d, ct, types, n);
    let k = resolve_steps(d, ct, types);
    resolves_is_stable(d, ct, types, k, n);
}

proof fn fewest_steps(d: Datatype, ct: TypeId, types: TypeFactory, n: nat)
    requires
        resolves_within(d, ct, types, n) is Some,
    ensures
        exists|k: nat| #[trigger]
            resolves_within(d, ct, types, k) is Some && forall|m: nat|
                m < k ==> #[trigger] resolves_within(d, ct, types, m) is None,
        resolve_steps(d, ct, types) <= n,
    decreases n,
{
    reveal(resolve_steps);
    if exists|m: nat| m < n && #[trigger] resolves_within(d, ct, types, m) is Some {
        let m = choose|m: nat| m < n && #[trigger] resolves_within(d, ct, types, m) is Some;
        fewest_steps(d, ct, types, m);
    } else {
        assert(resolves_within(d, ct, types, n) is Some && forall|m: nat|
            m < n ==> #[trigger] resolves_within(d, ct, types, m) is None);
    }
    let k = resolve_steps(d, ct, types);
    assert(k <= n) by {
        if k > n {
            assert(resolves_within(d, ct, types, n) is None);
        }
    }
}

/// What is known of the next step: it has an answer too, and needs fewer steps.
proof fn next_answer(d: Datatype, ct: TypeId, types: TypeFactory, nd: Datatype, nct: TypeId)
    requires
        resolvable(d, ct, types),
        resolve_steps(d, ct, types) >= 1,
        resolves_within(nd, nct, types, (resolve_steps(d, ct, types) - 1) as nat) is Some,
    ensures
        resolvable(nd, nct, types),
        resolve_steps(nd, nct, types) < resolve_steps(d, ct, types),
        resolves_within(nd, nct, types, (resolve_steps(d, ct, types) - 1) as nat) == Some(
            resolved_field(nd, nct, types),
        ),
{
    reveal(resolvable);
    resolved_field_is_answer(nd, nct, types, (resolve_steps(d, ct, types) - 1) as nat);
}

proof fn known_answer(d: Datatype, ct: TypeId, types: TypeFactory)
    requires
        resolvable(d, ct, types),
    ensures
        resolves_within(d, ct, types, resolve_steps(d, ct, types)) == Some(resolved_field(d, ct, types)),
        resolve_steps(d, ct, types) >= 1,
{
    reveal(resolvable);
    let n = choose|n: nat| #[trigger] resolves_within(d, ct, types, n) is Some;
    resolved_field_is_answer(d, ct, types, n);
}

impl Datatype {
    /// The number of unused bytes from an offset on.
    pub fn get_hole_size(&self, off: i32, types: &TypeFactory) -> (res: i32)
        requires
            types.sound(),
            types.rests(*self),
            types.steady(*self),
            types.all_steady(),
        ensures
            res == hole(*self, off, *types),
        decreases types.depth_of(*self),
    {
        proof {
            types.parts(*self);
        }
        match &self.kind {
            TypeKind::Array(data) => {
                let arrayof = types.get(data.arrayof.unwrap());
                let new_off: i32 = off % arrayof.get_align_size();
                arrayof.get_hole_size(new_off, types)
            },
            TypeKind::Struct(data) => {
                let index: i32 = self.get_lower_bound_field(off, types);
                if index >= 0 {
                    let curfield = &data.field[index as usize];
                    let new_off: i32 = off.wrapping_sub(curfield.offset);
                    let field_type = types.get(curfield.tp);
                    if new_off < field_type.get_size() {
                        return field_type.get_hole_size(new_off, types);
                    }
                }
                let next: usize = (index + 1) as usize;
                if next < data.field.len() {
                    return data.field[next].offset.wrapping_sub(off);
                }
                self.get_size().wrapping_sub(off)
            },
            TypeKind::PartialStruct(data) => {
                let size_left: i32 = self.size.wrapping_sub(off);
                let res: i32 = types.get(data.container).get_hole_size(off.wrapping_add(data.offset), types);
                if res > size_left {
                    size_left
                } else {
                    res
                }
            },
            _ => 0,
        }
    }

    /// The number of data-types that the data-type is made of.
    pub fn num_depend(&self, types: &TypeFactory) -> (res: i32)
        requires
            types.sound(),
            types.valid(*self),
        ensures
            res == component_count(*self, *types),
        decreases types.chain_of(*self),
    {
        proof {
            types.parts(*self);
        }
        match &self.kind {
            TypeKind::Pointer(_) | TypeKind::PointerRel(_) => 1,
            TypeKind::Array(_) => 1,
            TypeKind::Struct(data) => data.field.len() as i32,
            TypeKind::Union(data) => data.field.len() as i32,
            TypeKind::PartialUnion(data) => types.get(data.container).num_depend(types),
            _ => 0,
        }
    }

    /// One of the data-types that the data-type is made of.
    pub fn get_depend(&self, index: i32, types: &TypeFactory) -> (res: Option<TypeId>)
        requires
            types.sound(),
            types.valid(*self),
            self.kind is Struct || self.kind is Union || self.kind is PartialUnion ==> 0 <= index
                < component_count(*self, *types),
        ensures
            res == component(*self, index as int, *types),
            res is Some ==> types.member(res->0),
        decreases types.chain_of(*self),
    {
        proof {
            types.parts(*self);
        }
        match &self.kind {
            TypeKind::Pointer(data) => data.ptrto,
            TypeKind::PointerRel(data) => data.pointer.ptrto,
            TypeKind::Array(data) => data.arrayof,
            TypeKind::Struct(data) => Some(data.field[index as usize].tp),
            TypeKind::Union(data) => Some(data.field[index as usize].tp),
            TypeKind::PartialUnion(data) => {
                match types.get(data.container).get_depend(index, types) {
                    None => None,
                    Some(res) => {
                        if types.get(res).get_size() != self.size {
                            return Some(data.stripped);
                        }
                        Some(res)
                    },
                }
            },
            _ => None,
        }
    }

    /// What a pointer points into: for a relative pointer whose own target is no
    /// composite, the parent, at the offset that the pointer keeps.
    pub fn get_ptr_into(&self, off: &mut i32, types: &TypeFactory) -> (res: Option<TypeId>)
        requires
            types.sound(),
            types.valid(*self),
        ensures
            match self.kind {
                TypeKind::Pointer(data) => res == data.ptrto && *final(off) == 0,
                TypeKind::PointerRel(data) => {
                    let target = types.dt(data.pointer.ptrto->0);
                    if target.metatype is Struct || target.metatype is Union {
                        res == data.pointer.ptrto && *final(off) == 0
                    } else {
                        res == data.parent && *final(off) == data.offset
                    }
                },
                _ => res is None && *final(off) == *old(off),
            },
    {
        proof {
            types.parts(*self);
        }
        match &self.kind {
            TypeKind::Pointer(data) => {
                *off = 0;
                data.ptrto
            },
            TypeKind::PointerRel(data) => {
                let ptrto = data.pointer.ptrto.unwrap();
                let meta = types.get(ptrto).get_metatype();
                if meta == TypeMetatype::Struct || meta == TypeMetatype::Union {
                    *off = 0;
                    return Some(ptrto);
                }
                *off = data.offset;
                data.parent
            },
            _ => None,
        }
    }

    pub fn is_ptrsub_matching(&self, off: i64, extra: i64, multiplier: i64, glb: &Architecture) -> (res: bool)
        requires
            glb.types.walkable(),
            glb.types.rests(*self),
            self.is_pointer() ==> crate::types::inside::supports(
                glb.types.dt(self.pointer().ptrto->0),
                glb.types,
                Some(glb),
            ),
        ensures
            res == pointer_fits(*self, off, extra, multiplier, glb.types, Some(glb)),
    {
        self.ptrsub_matching(off, extra, multiplier, &glb.types, Some(glb))
    }

    /// Whether the pointer can be moved by an offset and an index.
    pub fn ptrsub_matching(
        &self,
        off: i64,
        extra: i64,
        multiplier: i64,
        types: &TypeFactory,
        glb: Option<&Architecture>,
    ) -> (res: bool)
        requires
            types.walkable(),
            types.rests(*self),
            self.is_pointer() ==> crate::types::inside::supports(
                types.dt(self.pointer().ptrto->0),
                *types,
                glb,
            ),
        ensures
            res == pointer_fits(*self, off, extra, multiplier, *types, glb),
    {
        proof {
            types.parts(*self);
        }
        match &self.kind {
            TypeKind::PointerRel(data) if data.stripped.is_none() => {
                let wordsize: u32 = data.pointer.wordsize;
                let int_off: i32 = AddrSpace::address_to_byte_int(off, wordsize) as i32;
                let extra_bytes: i64 = AddrSpace::address_to_byte_int(extra, wordsize);
                let total: i32 = (int_off as i64).wrapping_add((data.offset as i64).wrapping_add(extra_bytes)) as i32;
                let parent = types.get(data.parent.unwrap());
                total >= 0 && total <= parent.get_size()
            },
            TypeKind::Pointer(_) | TypeKind::PointerRel(_) => {
                let data = self.pointer_data();
                let byte_off: i64 = AddrSpace::address_to_byte_int(off, data.wordsize);
                let extra_bytes: i64 = AddrSpace::address_to_byte_int(extra, data.wordsize);
                let multiplier_bytes: i64 = AddrSpace::address_to_byte_int(multiplier, data.wordsize);
                let ptrto = types.get(data.ptrto.unwrap());
                ptrto.offset_valid(byte_off, extra_bytes, multiplier_bytes, types, glb)
            },
            _ => false,
        }
    }

    pub fn is_offset_valid(&self, off: i64, extra: i64, multiplier: i64, glb: &Architecture) -> (res: bool)
        requires
            glb.types.walkable(),
            glb.types.rests(*self),
            crate::types::inside::supports(*self, glb.types, Some(glb)),
        ensures
            res == offset_fits(*self, off, extra, multiplier, glb.types, Some(glb)),
    {
        self.offset_valid(off, extra, multiplier, &glb.types, Some(glb))
    }

    /// Whether an offset, an index times a size and more bytes stay inside a component.
    pub fn offset_valid(
        &self,
        off: i64,
        extra: i64,
        multiplier: i64,
        types: &TypeFactory,
        glb: Option<&Architecture>,
    ) -> (res: bool)
        requires
            types.walkable(),
            types.rests(*self),
            crate::types::inside::supports(*self, *types, glb),
        ensures
            res == offset_fits(*self, off, extra, multiplier, *types, glb),
    {
        match &self.kind {
            TypeKind::Array(_) => {
                if off != 0 {
                    return false;
                }
                if multiplier >= self.get_align_size() as i64 {
                    return false;
                }
                true
            },
            TypeKind::Struct(_) => {
                if multiplier >= self.get_align_size() as i64 {
                    return false;
                }
                let mut newoff: i64 = off;
                match self.sub_type(off, &mut newoff, types, glb) {
                    Some(sub) => {
                        if newoff != 0 {
                            return false;
                        }
                        let sub_dt = types.get(sub);
                        if (extra < 0 || extra >= sub_dt.get_size() as i64) && !sub_dt.array_slack(extra, types, glb) {
                            return false;
                        }
                    },
                    None => {
                        let total: i64 = extra.wrapping_add(newoff);
                        if (total < 0 || total >= self.size as i64) && self.size != 0 {
                            return false;
                        }
                    },
                }
                true
            },
            TypeKind::Code(_) => extra >= 0,
            TypeKind::Spacebase(_) => {
                let mut newoff: i64 = off;
                let Some(sub) = self.sub_type(off, &mut newoff, types, glb) else {
                    return false;
                };
                if newoff != 0 {
                    return false;
                }
                let sub_dt = types.get(sub);
                if sub_dt.get_metatype() == TypeMetatype::Code {
                    if extra < 0 {
                        return false;
                    }
                } else if (extra < 0 || extra >= sub_dt.get_size() as i64) && !sub_dt.array_slack(extra, types, glb) {
                    return false;
                }
                true
            },
            _ => false,
        }
    }

    /// The field by which the data-type is resolved so that it is the same as
    /// another one, or -1.
    pub fn find_compatible_resolve(&self, ct: TypeId, types: &TypeFactory) -> (res: i32)
        requires
            types.sound(),
            types.valid(*self),
            types.has(ct),
            resolvable(*self, ct, *types),
        ensures
            res == resolved_field(*self, ct, *types),
        decreases resolve_steps(*self, ct, *types),
    {
        let ct_dt = types.get(ct);
        proof {
            known_answer(*self, ct, *types);
            types.look(ct);
            types.parts(*self);
            types.parts(*ct_dt);
        }
        let ghost steps = (resolve_steps(*self, ct, *types) - 1) as nat;
        match &self.kind {
            TypeKind::Pointer(_) | TypeKind::PointerRel(_) => {
                if ct_dt.get_metatype() == TypeMetatype::Ptr {
                    let ptrto = types.get(self.get_ptr_to());
                    let other = ct_dt.get_ptr_to();
                    proof {
                        next_answer(*self, ct, *types, *ptrto, other);
                    }
                    return ptrto.find_compatible_resolve(other, types);
                }
                -1
            },
            TypeKind::Array(data) => {
                let arrayof = data.arrayof.unwrap();
                if ct_dt.needs_resolution() && !types.get(arrayof).needs_resolution() {
                    proof {
                        assert(resolves_to(arrayof, ct, *types, steps) is Some);
                        next_answer(*self, ct, *types, *ct_dt, arrayof);
                    }
                    if ct_dt.find_compatible_resolve(arrayof, types) >= 0 {
                        return 0;
                    }
                }
                if arrayof == ct {
                    return 0;
                }
                -1
            },
            TypeKind::Struct(data) => {
                let field_type = data.field[0].tp;
                if ct_dt.needs_resolution() && !types.get(field_type).needs_resolution() {
                    proof {
                        assert(resolves_to(field_type, ct, *types, steps) is Some);
                        next_answer(*self, ct, *types, *ct_dt, field_type);
                    }
                    if ct_dt.find_compatible_resolve(field_type, types) >= 0 {
                        return 0;
                    }
                }
                if field_type == ct {
                    return 0;
                }
                -1
            },
            TypeKind::Union(data) => {
                let mut index: usize = 0;
                if !ct_dt.needs_resolution() {
                    while index < data.field.len()
                        invariant
                            index <= data.field@.len() <= i32::MAX,
                            self.kind is Union,
                            self.fields() == data.field@,
                            *ct_dt == types.dt(ct),
                            !ct_dt.flag(Datatype::NEEDS_RESOLUTION),
                            resolves_field(*self, ct, *types, steps, (data.field@.len() - index) as nat) == Some(
                                resolved_field(*self, ct, *types),
                            ),
                        decreases data.field@.len() - index,
                    {
                        if data.field[index].tp == ct && data.field[index].offset == 0 {
                            return index as i32;
                        }
                        index = index + 1;
                    }
                } else {
                    while index < data.field.len()
                        invariant
                            index <= data.field@.len() <= i32::MAX,
                            types.sound(),
                            types.valid(*self),
                            types.linked(*self),
                            types.member(ct),
                            self.kind is Union,
                            self.fields() == data.field@,
                            *ct_dt == types.dt(ct),
                            ct_dt.flag(Datatype::NEEDS_RESOLUTION),
                            resolvable(*self, ct, *types),
                            steps + 1 == resolve_steps(*self, ct, *types),
                            resolves_field(*self, ct, *types, steps, (data.field@.len() - index) as nat) == Some(
                                resolved_field(*self, ct, *types),
                            ),
                        decreases data.field@.len() - index,
                    {
                        let field = &data.field[index];
                        let field_type = types.get(field.tp);
                        if field.offset == 0 && field_type.get_size() == ct_dt.get_size()
                            && !field_type.needs_resolution() {
                            proof {
                                next_answer(*self, ct, *types, *ct_dt, field.tp);
                            }
                            if ct_dt.find_compatible_resolve(field.tp, types) >= 0 {
                                return index as i32;
                            }
                        }
                        index = index + 1;
                    }
                }
                -1
            },
            TypeKind::PartialUnion(data) => {
                let container = types.get(data.container);
                proof {
                    next_answer(*self, ct, *types, *container, ct);
                }
                container.find_compatible_resolve(ct, types)
            },
            _ => -1,
        }
    }

    /// Whether one primitive fills the data-type.
    pub fn is_primitive_whole(&self, types: &TypeFactory) -> (res: bool)
        requires
            types.sound(),
            types.rests(*self),
        ensures
            res == primitive_whole(*self, *types),
        decreases types.depth_of(*self),
    {
        proof {
            types.parts(*self);
        }
        if !self.is_piece_structured() {
            return true;
        }
        if (self.metatype == TypeMetatype::Array || self.metatype == TypeMetatype::Struct) && self.num_depend(types)
            > 0 {
            let component = types.get(self.get_depend(0, types).unwrap());
            if component.get_size() == self.get_size() {
                return component.is_primitive_whole(types);
            }
        }
        false
    }

    /// The smallest component that holds the bytes from an offset on.
    pub fn find_smallest_container(ct: TypeId, off: i64, sz: i64, newoff: &mut i64, glb: &Architecture) -> (res:
        TypeId)
        requires
            glb.types.walkable(),
            glb.types.has(ct),
            crate::types::inside::supports(glb.types.dt(ct), glb.types, Some(glb)),
        ensures
            (res, *final(newoff)) == smallest_container(ct, off, sz, glb.types, Some(glb)),
    {
        let types = &glb.types;
        proof {
            types.look(ct);
        }
        let mut res = ct;
        let mut cur_off: i64 = off;
        loop
            invariant
                *types == glb.types,
                types.walkable(),
                types.member(res),
                crate::types::inside::supports(types.dt(res), *types, Some(glb)),
                smallest_container(res, cur_off, sz, *types, Some(glb)) == smallest_container(
                    ct,
                    off,
                    sz,
                    *types,
                    Some(glb),
                ),
            decreases types.above(types.dt(res)), types.depth_of(types.dt(res)),
        {
            let mut sub_off: i64 = cur_off;
            match types.get(res).sub_type(cur_off, &mut sub_off, types, Some(glb)) {
                None => {
                    *newoff = cur_off;
                    return res;
                },
                Some(sub) => {
                    if sub_off.wrapping_add(sz) > types.get(sub).get_size() as i64 {
                        *newoff = cur_off;
                        return res;
                    }
                    res = sub;
                    cur_off = sub_off;
                },
            }
        }
    }

    /// The element of an array at an offset, if the bytes do not reach into the next one.
    pub fn get_sub_entry(&self, off: i32, sz: i32, newoff: &mut i32, el: &mut i32, types: &TypeFactory) -> (res:
        Option<TypeId>)
        requires
            types.sound(),
            types.valid(*self),
            self.kind is Array,
            types.steady(*self),
        ensures
            ({
                let arrayof = self.kind->Array_0.arrayof;
                let align = types.dt(arrayof->0).align_size;
                let noff = crate::space::trunc_rem(off as int, align as int) as i32;
                if noff.wrapping_add(sz) > align {
                    res is None && *final(newoff) == *old(newoff) && *final(el) == *old(el)
                } else {
                    res == arrayof && *final(newoff) == noff && *final(el) == crate::space::trunc_div(
                        off as int,
                        align as int,
                    )
                }
            }),
    {
        proof {
            types.parts(*self);
        }
        let arrayof = self.get_base();
        let align_size: i32 = types.get(arrayof).get_align_size();
        let noff: i32 = off % align_size;
        let nel: i32 = off / align_size;
        if noff.wrapping_add(sz) > align_size {
            return None;
        }
        *newoff = noff;
        *el = nel;
        Some(arrayof)
    }

    /// The data-type that a pointer to the start of a part of a structure points
    /// to: an element of the container, if the part starts with one.
    pub fn get_component_for_ptr(&self, types: &TypeFactory) -> (res: TypeId)
        requires
            types.sound(),
            types.valid(*self),
            self.kind is PartialStruct,
            types.steady(types.dt(self.part_of())),
        ensures
            ({
                let data = self.kind->PartialStruct_0;
                let container = types.dt(data.container);
                let element = container.kind->Array_0.arrayof->0;
                if container.kind is Array && !(types.dt(element).metatype is Unknown) && (data.offset as int)
                    % (types.dt(element).align_size as int) == 0 {
                    res == element
                } else {
                    res == data.stripped
                }
            }),
    {
        proof {
            types.parts(*self);
        }
        let TypeKind::PartialStruct(data) = &self.kind else {
            return vstd::pervasive::unreached();
        };
        let container = types.get(data.container);
        proof {
            types.parts(*container);
        }
        if container.get_metatype() == TypeMetatype::Array {
            let eltype = container.get_base();
            let eltype_dt = types.get(eltype);
            proof {
                let align = eltype_dt.align_size as int;
                let a = data.offset as int;
                assert((a % align == 0) == (crate::space::trunc_rem(a, align) == 0)) by {
                    if a < 0 {
                        negated_remainder(a, align);
                    }
                }
            }
            if eltype_dt.get_metatype() != TypeMetatype::Unknown && (data.offset % eltype_dt.get_align_size()) == 0 {
                return eltype;
            }
        }
        data.stripped
    }

    /// Whether an offset from a relative pointer has to be taken through its
    /// parent: it has to lead into the parent, and not into a structure that the
    /// pointer itself points to.
    pub fn evaluate_thru_parent(&self, addr_off: u64, types: &TypeFactory) -> (res: bool)
        requires
            types.sound(),
            types.valid(*self),
            self.kind is PointerRel,
        ensures
            ({
                let data = self.kind->PointerRel_0;
                let target = types.dt(data.pointer.ptrto->0);
                let bytes = addr_off.wrapping_mul(data.pointer.wordsize as u64);
                let total = bytes.wrapping_add((data.offset as i64) as u64) & crate::address::mask_of(self.size as int);
                res == (!(target.metatype is Struct && bytes < target.size) && total < types.dt(data.parent->0).size)
            }),
    {
        proof {
            types.parts(*self);
        }
        let TypeKind::PointerRel(data) = &self.kind else {
            return vstd::pervasive::unreached();
        };
        let byte_off: u64 = AddrSpace::address_to_byte(addr_off, data.pointer.wordsize);
        let ptrto = types.get(data.pointer.ptrto.unwrap());
        if ptrto.get_metatype() == TypeMetatype::Struct && byte_off < ptrto.get_size() as u64 {
            return false;
        }
        let total: u64 = byte_off.wrapping_add((data.offset as i64) as u64) & calc_mask(self.size);
        let parent = types.get(data.parent.unwrap());
        total < parent.get_size() as u64
    }
}

proof fn negated_remainder(a: int, b: int)
    requires
        b >= 1,
    ensures
        (a % b == 0) == ((-a) % b == 0),
{
    if a % b == 0 {
        assert((-a) % b == 0) by (nonlinear_arith)
            requires
                a % b == 0,
                b >= 1,
        {
            assert(-a == b * (-(a / b)));
            vstd::arithmetic::div_mod::lemma_mod_multiples_basic(-(a / b), b);
        }
    }
    if (-a) % b == 0 {
        assert(a % b == 0) by (nonlinear_arith)
            requires
                (-a) % b == 0,
                b >= 1,
        {
            assert(a == b * (-((-a) / b)));
            vstd::arithmetic::div_mod::lemma_mod_multiples_basic(-((-a) / b), b);
        }
    }
}

} // verus!

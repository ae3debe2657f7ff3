//! What data-types come to a factory by asking for others.
use vstd::prelude::*;
use crate::architecture::Architecture;
use crate::error::{Error, Result};
use crate::ids::TypeId;
use crate::types::{Datatype, TypeFactory, TypeKind, TypeMetatype, TypePointerData};

verus! {

/// A data-type that may come to a factory by asking for others: no space of
/// symbols, no structure, no relative pointer, and no pointer of an odd size.
pub open spec fn modest(d: Datatype) -> bool {
    &&& !(d.kind is Spacebase)
    &&& !(d.kind is Struct)
    &&& !(d.kind is Union)
    &&& !(d.kind is PointerRel)
    &&& d.is_pointer() ==> 1 <= d.size <= 8
    &&& d.genuine()
}

/// A data-type that is as it was, but perhaps for the truncated form of a pointer.
pub open spec fn as_before(a: Datatype, b: Datatype) -> bool {
    &&& b.size == a.size
    &&& b.is_pointer() == a.is_pointer()
    &&& (b.kind is Spacebase || a.kind is Spacebase) ==> b.kind == a.kind
    &&& (b.kind is Struct || a.kind is Struct) ==> b == a
    &&& (b.kind is Union || a.kind is Union) ==> b == a
    &&& (b.kind is PointerRel) == (a.kind is PointerRel)
    &&& a.kind is PointerRel ==> b.kind->PointerRel_0.parent == a.kind->PointerRel_0.parent
    &&& b.stripped() == a.stripped()
    &&& a.genuine() ==> b.genuine()
}

impl TypeFactory {
    /// Nothing but modest data-types has come to the factory.
    pub open spec fn only_modest(self, before: TypeFactory) -> bool {
        &&& forall|id: TypeId| #![trigger self.has(id)]
            self.has(id) ==> modest(self.dt(id)) || (before.has(id) && as_before(before.dt(id), self.dt(id)))
        &&& forall|id: TypeId| #![trigger self.has(id)]
            before.has(id) ==> self.has(id) && as_before(before.dt(id), self.dt(id))
        &&& before.all_steady() ==> self.all_steady()
    }
}

/// A factory stays steady when a steady data-type is added.
proof fn adds_steady(after: TypeFactory, before: TypeFactory, tmp: Datatype, res: Result<TypeId>)
    requires
        after.adds(before, tmp, res),
        before.steady(tmp),
        !(tmp.kind is Struct) && !(tmp.kind is Union),
        before.arena@.len() < u32::MAX,
        before.all_steady(),
    ensures
        after.all_steady(),
{
    reveal(TypeFactory::firm_kind);
    if after != before {
        let d = choose|d: Datatype| #[trigger] before.completes(d, tmp) && after.inserts(before, d, res);
        assert forall|id: TypeId| before.has(id) implies after.has(id) && #[trigger] after.dt(id) == before.dt(id) by {
            assert(after.arena@[id.0 as int] == before.arena@[id.0 as int]);
        }
        assert forall|id: TypeId| #![trigger after.dt(id)] after.has(id) implies after.steady(after.dt(id)) by {
            if id.0 < before.arena@.len() {
                assert(after.arena@[id.0 as int] == before.arena@[id.0 as int]);
                let x = before.dt(id);
                assert(before.steady(x));
            } else {
                assert(after.dt(id) == d);
            }
        }
    }
}

/// A factory stays steady when a pointer gets a truncated form.
proof fn truncates_steady(after: TypeFactory, before: TypeFactory, ct: TypeId, res: Result<()>)
    requires
        after.truncates(before, ct, res),
        before.has(ct),
        before.dt(ct).is_pointer(),
        before.arena@.len() < u32::MAX,
        before.all_steady(),
    ensures
        after.all_steady(),
        after.arena@.len() <= before.arena@.len() + 1,
{
    let d = before.dt(ct);
    if !(d.pointer().truncate is Some || d.size != before.size_of_alt_pointer) {
        let (mid, r) = choose|mid: TypeFactory, r: Result<TypeId>| #[trigger]
            before.short_form(mid, d, r) && match r {
                Ok(t) => res is Ok && after.retouched(
                    mid,
                    ct,
                    d.with_truncation(t, before.default_data_space->0.big_endian),
                ),
                Err(e) => after == mid && res == Err::<(), Error>(e),
            };
        if before.size_of_pointer >= 0 {
            let tmp = choose|tmp: Datatype| #[trigger]
                before.is_pointer_to(
                    tmp,
                    before.size_of_pointer,
                    before.plain_form(d.pointer().ptrto->0),
                    d.pointer().wordsize,
                    Seq::empty(),
                    0,
                ) && mid.adds(before, tmp, r);
            adds_steady(mid, before, tmp, r);
            adds_grows(mid, before, tmp, r);
        }
        if r is Ok {
            let now = d.with_truncation(r->Ok_0, before.default_data_space->0.big_endian);
            assert forall|id: TypeId| #![trigger after.dt(id)] after.has(id) implies after.steady(after.dt(id)) by {
                if id.0 == ct.0 {
                    assert(id == ct);
                    assert(after.dt(id) == now);
                } else {
                    assert(after.arena@[id.0 as int] == mid.arena@[id.0 as int]);
                    let x = mid.dt(id);
                    assert(mid.steady(x));
                    if x.kind is Array {
                        let element = x.kind->Array_0.arrayof->0;
                        if element.0 == ct.0 {
                            assert(element == ct);
                            assert(after.dt(element) == now);
                            assert(mid.arena@[ct.0 as int] == before.arena@[ct.0 as int]);
                        } else {
                            assert(after.arena@[element.0 as int] == mid.arena@[element.0 as int]);
                        }
                    }
                }
            }
        }
    }
}

/// A factory stays steady when a pointer is asked for.
pub proof fn pointer_steady(
    after: TypeFactory,
    before: TypeFactory,
    size: i32,
    data: TypePointerData,
    res: Result<TypeId>,
)
    requires
        after.makes_pointer(before, size, data, Seq::empty(), 0, res),
        data.wordsize >= 1,
        before.arena@.len() < u32::MAX - 1,
        before.sound(),
        before.all_steady(),
    ensures
        after.all_steady(),
        after.arena@.len() <= before.arena@.len() + 2,
{
    if size >= 0 {
        let (tmp, mid, r) = choose|tmp: Datatype, mid: TypeFactory, r: Result<TypeId>| #[trigger]
            before.is_named_pointer(tmp, size, data, Seq::empty(), 0) && #[trigger] mid.adds(before, tmp, r) && match r {
                Err(e) => after == mid && res == Err::<TypeId, Error>(e),
                Ok(ptr) => exists|t: Result<()>| #[trigger]
                    after.truncates(mid, ptr, t) && match t {
                        Ok(_) => res == Ok::<TypeId, Error>(ptr),
                        Err(e) => res == Err::<TypeId, Error>(e),
                    },
            };
        adds_steady(mid, before, tmp, r);
        adds_grows(mid, before, tmp, r);
        if r is Ok {
            let ptr = r->Ok_0;
            let t = choose|t: Result<()>| #[trigger]
                after.truncates(mid, ptr, t) && match t {
                    Ok(_) => res == Ok::<TypeId, Error>(ptr),
                    Err(e) => res == Err::<TypeId, Error>(e),
                };
            if before.found(tmp) is Some {
                before.tree_names_members(before.place(tmp, 0) as int);
                assert(mid.dt(ptr).submeta.rank() == tmp.submeta.rank());
                assert(mid.dt(ptr).is_pointer());
            }
            truncates_steady(after, mid, ptr, t);
        }
    }
}

pub proof fn modest_twice(after: TypeFactory, mid: TypeFactory, before: TypeFactory)
    requires
        after.only_modest(mid),
        mid.only_modest(before),
    ensures
        after.only_modest(before),
{
    assert forall|id: TypeId| #![trigger after.has(id)] true implies {
        &&& after.has(id) ==> modest(after.dt(id)) || (before.has(id) && as_before(before.dt(id), after.dt(id)))
        &&& before.has(id) ==> after.has(id) && as_before(before.dt(id), after.dt(id))
    } by {
        if mid.has(id) {
            assert(mid.has(id));
        }
        let x = before.dt(id);
        let y = mid.dt(id);
        let z = after.dt(id);
        if modest(y) && as_before(y, z) {
            assert(modest(z));
        }
        if as_before(x, y) && as_before(y, z) {
            assert(as_before(x, z));
        }
    }
}

pub proof fn modest_never(types: TypeFactory)
    ensures
        types.only_modest(types),
{
}

/// What adding a modest data-type leaves of the others.
proof fn added_modest(after: TypeFactory, before: TypeFactory, tmp: Datatype, res: Result<TypeId>)
    requires
        after.adds(before, tmp, res),
        modest(tmp),
        before.arena@.len() < u32::MAX,
    ensures
        forall|id: TypeId| #![trigger after.has(id)]
            after.has(id) ==> modest(after.dt(id)) || (before.has(id) && as_before(before.dt(id), after.dt(id))),
        forall|id: TypeId| #![trigger after.has(id)]
            before.has(id) ==> after.has(id) && as_before(before.dt(id), after.dt(id)),
{
    if after != before {
        let d = choose|d: Datatype| #[trigger] before.completes(d, tmp) && after.inserts(before, d, res);
        assert forall|id: TypeId| #![trigger after.has(id)] true implies {
            &&& after.has(id) ==> modest(after.dt(id)) || (before.has(id) && as_before(before.dt(id), after.dt(id)))
            &&& before.has(id) ==> after.has(id) && as_before(before.dt(id), after.dt(id))
        } by {
            if id.0 < before.arena@.len() {
                assert(after.arena@[id.0 as int] == before.arena@[id.0 as int]);
            }
        }
    }
}

pub proof fn adds_modest(after: TypeFactory, before: TypeFactory, tmp: Datatype, res: Result<TypeId>)
    requires
        after.adds(before, tmp, res),
        modest(tmp),
        before.arena@.len() < u32::MAX,
        before.all_steady() ==> before.steady(tmp),
    ensures
        after.only_modest(before),
{
    if before.all_steady() {
        adds_steady(after, before, tmp, res);
    }
    added_modest(after, before, tmp, res);
}

pub proof fn array_modest(after: TypeFactory, before: TypeFactory, count: i32, ao: TypeId, res: Result<TypeId>)
    requires
        after.makes_array(before, count, ao, res),
        before.arena@.len() < u32::MAX,
        before.has(before.plain_form(ao)),
        before.dt(before.plain_form(ao)).align_size >= 1,
        !(before.dt(before.plain_form(ao)).kind is Spacebase),
    ensures
        after.only_modest(before),
{
    let element = before.plain_form(ao);
    if Datatype::array_bytes(count, before.dt(element)) >= 0 {
        let tmp = choose|tmp: Datatype| #[trigger]
            tmp.is_new_array(count, element, before.dt(element)) && after.adds(before, tmp, res);
        adds_modest(after, before, tmp, res);
    }
}

pub proof fn base_modest(after: TypeFactory, before: TypeFactory, size: i32, meta: TypeMetatype, res: Result<TypeId>)
    requires
        after.makes_base(before, size, meta, res),
        before.arena@.len() < u32::MAX,
        !(meta is PartialStruct) && !(meta is PartialUnion),
        before.sound(),
    ensures
        after.only_modest(before),
{
    if after != before {
        if size > before.max_basetype_size {
            let unknown = before.cached(1, TypeMetatype::Unknown)->0;
            before.cache_fits(1, TypeMetatype::Unknown);
            before.parts(before.dt(unknown));
            array_modest(after, before, size, unknown, res);
        } else {
            let tmp = choose|tmp: Datatype| #[trigger]
                TypeFactory::is_base(tmp, size, meta, Seq::empty(), 0) && after.adds(before, tmp, res);
            adds_modest(after, before, tmp, res);
        }
    }
}

proof fn kept_as_before(a: Datatype, b: Datatype)
    requires
        crate::types::pointers::same_but_truncation(a, b),
    ensures
        as_before(a, b),
{
    if a != b {
        let (t, big) = choose|t: TypeId, big: bool| #[trigger] a.with_truncation(t, big) == b;
        assert(a.with_truncation(t, big) == b);
    }
}

pub proof fn pointer_modest(
    after: TypeFactory,
    before: TypeFactory,
    size: i32,
    data: TypePointerData,
    name: Seq<char>,
    id: u64,
    res: Result<TypeId>,
)
    requires
        after.makes_pointer(before, size, data, name, id, res),
        1 <= size <= 8,
        1 <= before.size_of_pointer <= 8,
        before.arena@.len() < u32::MAX - 1,
        after.keeps(before),
        before.sound(),
        name.len() == 0,
        id == 0,
        data.wordsize >= 1,
    ensures
        after.only_modest(before),
{
    assert(name =~= Seq::empty());
    if before.all_steady() {
        pointer_steady(after, before, size, data, res);
    }
    let (tmp, mid, r) = choose|tmp: Datatype, mid: TypeFactory, r: Result<TypeId>| #[trigger]
        before.is_named_pointer(tmp, size, data, name, id) && #[trigger] mid.adds(before, tmp, r) && match r {
            Err(e) => after == mid && res == Err::<TypeId, Error>(e),
            Ok(ptr) => exists|t: Result<()>| #[trigger]
                after.truncates(mid, ptr, t) && match t {
                    Ok(_) => res == Ok::<TypeId, Error>(ptr),
                    Err(e) => res == Err::<TypeId, Error>(e),
                },
        };
    adds_modest(mid, before, tmp, r);
    adds_grows(mid, before, tmp, r);
    assert forall|id: TypeId| #![trigger after.has(id)] before.has(id) implies after.has(id) && as_before(
        before.dt(id),
        after.dt(id),
    ) by {
        assert(after.has(id));
        kept_as_before(before.dt(id), after.dt(id));
    }
    if r is Ok {
        let ptr = r->Ok_0;
        assert(mid.has(ptr)) by {
            if before.found(tmp) is Some {
                before.tree_names_members(before.place(tmp, 0) as int);
            }
        }
        let t = choose|t: Result<()>| #[trigger]
            after.truncates(mid, ptr, t) && match t {
                Ok(_) => res == Ok::<TypeId, Error>(ptr),
                Err(e) => res == Err::<TypeId, Error>(e),
            };
        truncated_modest(after, mid, ptr, t);
        assert forall|id: TypeId| #![trigger after.has(id)] after.has(id) implies modest(after.dt(id)) || (before.has(
            id,
        ) && as_before(before.dt(id), after.dt(id))) by {
            if !before.has(id) {
                if mid.has(id) {
                    assert(modest(mid.dt(id)));
                }
            }
        }
    } else {
        assert forall|id: TypeId| #![trigger after.has(id)] after.has(id) implies modest(after.dt(id)) || (before.has(
            id,
        ) && as_before(before.dt(id), after.dt(id))) by {
            assert(mid.has(id));
        }
    }
}

/// A data-type that is asked for and might be added takes one handle at most.
pub proof fn adds_grows(after: TypeFactory, before: TypeFactory, tmp: Datatype, res: Result<TypeId>)
    requires
        after.adds(before, tmp, res),
    ensures
        before.arena@.len() <= after.arena@.len() <= before.arena@.len() + 1,
        after.size_of_pointer == before.size_of_pointer,
{
    if after != before {
        let d = choose|d: Datatype| #[trigger] before.completes(d, tmp) && after.inserts(before, d, res);
    }
}

/// What a truncated form changes: the pointer that gets it, and a pointer that may come.
proof fn truncated_modest(after: TypeFactory, before: TypeFactory, ct: TypeId, res: Result<()>)
    requires
        after.truncates(before, ct, res),
        1 <= before.size_of_pointer <= 8,
        before.arena@.len() < u32::MAX,
        before.has(ct),
    ensures
        forall|id: TypeId| #![trigger after.has(id)]
            after.has(id) && id != ct ==> modest(after.dt(id)) || (before.has(id) && as_before(
                before.dt(id),
                after.dt(id),
            )),
        after.dt(ct) == before.dt(ct) || (after.dt(ct).size == before.dt(ct).size && (after.dt(ct).kind is PointerRel
            ==> before.dt(ct).kind is PointerRel) && !(after.dt(ct).kind is Spacebase)),
        after.has(ct),
{
    let d = before.dt(ct);
    if !(d.pointer().truncate is Some || d.size != before.size_of_alt_pointer) {
        let (mid, r) = choose|mid: TypeFactory, r: Result<TypeId>| #[trigger]
            before.short_form(mid, d, r) && match r {
                Ok(t) => res is Ok && after.retouched(
                    mid,
                    ct,
                    d.with_truncation(t, before.default_data_space->0.big_endian),
                ),
                Err(e) => after == mid && res == Err::<(), Error>(e),
            };
        let tmp = choose|tmp: Datatype| #[trigger]
            before.is_pointer_to(
                tmp,
                before.size_of_pointer,
                before.plain_form(d.pointer().ptrto->0),
                d.pointer().wordsize,
                Seq::empty(),
                0,
            ) && mid.adds(before, tmp, r);
        added_modest(mid, before, tmp, r);
        adds_grows(mid, before, tmp, r);
        assert forall|id: TypeId| #![trigger after.has(id)] after.has(id) && id != ct implies modest(after.dt(id)) || (
        before.has(id) && as_before(before.dt(id), after.dt(id))) by {
            if id.0 == ct.0 {
                assert(id == ct);
            }
            assert(after.arena@[id.0 as int] == mid.arena@[id.0 as int]);
            assert(mid.has(id));
        }
    }
}

impl Architecture {
    /// A data-type whose parts the program can find.
    pub open spec fn suits(self, d: Datatype) -> bool {
        &&& d.kind matches TypeKind::Spacebase(data) ==> self.symboltab.resolved(data.scope_id) is Some
        &&& d.is_pointer() ==> 1 <= d.size <= 8
        &&& d.genuine()
        &&& d.kind is Struct && d.flag(Datatype::NEEDS_RESOLUTION) ==> d.fields().len() > 0
        &&& d.kind is Union ==> d.fields().len() < i32::MAX
        &&& d.kind matches TypeKind::PointerRel(data) ==> {
            let parent = self.types.dt(data.parent->0);
            &&& self.types.has(data.parent->0)
            &&& !(parent.kind is Spacebase)
            &&& parent.stripped() is Some ==> self.types.has(parent.stripped()->0) && !(self.types.dt(
                parent.stripped()->0,
            ).kind is Spacebase)
        }
    }

    /// A program whose data-types can be walked and added to without further thought.
    pub open spec fn workable(self) -> bool {
        &&& self.sound()
        &&& self.types.ready()
        &&& self.types.walkable()
        &&& forall|i: int| #![trigger self.types.align_map@[i]]
            0 <= i < self.types.align_map@.len() ==> self.types.align_map@[i] <= 0x1000_0000
        &&& self.types.bytes_packed()
        &&& 1 <= self.types.size_of_pointer <= 8
        &&& 1 <= self.types.size_of_alt_pointer <= 8 ==> self.types.size_of_pointer != self.types.size_of_alt_pointer
            && self.types.default_data_space is Some
        &&& forall|id: TypeId| #![trigger self.types.has(id)] self.types.has(id) ==> self.suits(self.types.dt(id))
    }

    /// There is room for a number of data-types more.
    pub open spec fn roomy(self, n: int) -> bool {
        self.types.arena@.len() + n <= u32::MAX
    }

    /// Data-types have been added, or pointers have got truncated forms, and
    /// nothing else has changed.
    pub open spec fn grew(self, before: Architecture) -> bool {
        &&& self.workable()
        &&& self.same_program(before)
        &&& self.types.keeps(before.types)
        &&& before.types.spaces_sizeless() ==> self.types.spaces_sizeless()
    }
}

pub proof fn grew_twice(after: Architecture, mid: Architecture, before: Architecture)
    requires
        after.grew(mid),
        mid.grew(before),
    ensures
        after.grew(before),
{
    crate::types::pointers::keeping_twice(before.types, mid.types, after.types);
}

pub proof fn grew_never(glb: Architecture)
    requires
        glb.workable(),
    ensures
        glb.grew(glb),
{
    crate::types::pointers::extending_keeps(glb.types, glb.types);
}

/// A size that is not enormous can be padded.
pub proof fn pads_easily(glb: Architecture, size: i32)
    requires
        glb.workable(),
        size <= 0x1000_0000,
    ensures
        glb.types.pads_twice(size),
{
    let types = glb.types;
    if size >= 0 && types.align_map@.len() > 0 {
        reveal(TypeFactory::tidy);
        let last = types.align_map@.len() - 1;
        assert(types.align_map@[last as int] >= 1);
        let a = types.alignment_of(size as u32);
        assert(1 <= a <= 0x1000_0000);
        let p = types.padded(size as u32);
        let n = size as u32;
        let m = a as u32;
        let rem = n % m;
        assert(rem < m && rem <= n) by (nonlinear_arith)
            requires
                rem == n % m,
                m >= 1,
        ;
        assert(p <= size + a);
        let b = types.alignment_of((p as i32) as u32);
        assert(1 <= b <= 0x1000_0000);
    }
}

/// Unknown bytes can stand for a data-type of any size.
pub proof fn fills_easily(glb: Architecture, size: i32)
    requires
        glb.workable(),
    ensures
        glb.types.can_fill(size),
{
}

/// A piece of a size that is not enormous can be made.
pub proof fn cuts_easily(glb: Architecture, ct: TypeId, offset: i32, size: i32)
    requires
        glb.workable(),
        size < 0x1000_0000,
    ensures
        glb.types.can_cut(ct, offset, size),
{
    pads_easily(glb, size);
    fills_easily(glb, size);
}

pub proof fn works_on(after: Architecture, before: Architecture)
    requires
        before.workable(),
        after.same_program(before),
        after.types.ready(),
        after.types.keeps(before.types),
        after.types.only_modest(before.types),
    ensures
        after.grew(before),
{
    crate::types::chain::kept_program_is_sound(before, after);
    if before.types.spaces_sizeless() {
        assert forall|id: TypeId| #![trigger after.types.dt(id)]
            after.types.has(id) && after.types.dt(id).kind is Spacebase implies after.types.dt(id).size == 0 by {
            let d = before.types.dt(id);
            assert(after.types.has(id));
        }
    }
    assert forall|id: TypeId| #![trigger after.types.has(id)] after.types.has(id) implies after.suits(
        after.types.dt(id),
    ) by {
        if !modest(after.types.dt(id)) {
            assert(before.types.has(id));
            let d = before.types.dt(id);
            assert(before.suits(d));
            if d.kind is PointerRel {
                let parent = d.kind->PointerRel_0.parent->0;
                assert(after.types.has(parent));
                let stripped = before.types.dt(parent).stripped();
                if stripped is Some {
                    assert(after.types.has(stripped->0));
                }
            }
        }
    }
}

impl Architecture {
    /// Whether there is room for a number of data-types more.
    pub fn has_room_for(&self, n: u32) -> (res: bool)
        ensures
            res == self.roomy(n as int),
    {
        self.types.arena.len() <= (u32::MAX - n) as usize
    }

    /// A pointer to a data-type, or to the elements of an array.
    pub fn element_pointer(&mut self, size: i32, pt: TypeId, ws: u32) -> (res: Result<TypeId>)
        requires
            old(self).workable(),
            old(self).roomy(3),
            old(self).types.has(pt),
            1 <= size <= 8,
            ws >= 1,
        ensures
            final(self).grew(*old(self)),
            final(self).types.arena@.len() <= old(self).types.arena@.len() + 2,
            final(self).types.makes_pointer(
                old(self).types,
                size,
                crate::types::pointers::plain_pointer(old(self).types.element_form(pt), ws),
                Seq::empty(),
                0,
                res,
            ),
            res matches Ok(id) ==> final(self).types.points(id, size, old(self).types.element_form(pt), ws),
    {
        proof {
            pads_easily(*self, size);
            pads_easily(*self, self.types.size_of_pointer);
        }
        let res = self.types.get_type_pointer_strip_array(size, pt, ws);
        proof {
            pointer_modest(
                self.types,
                old(self).types,
                size,
                crate::types::pointers::plain_pointer(old(self).types.element_form(pt), ws),
                Seq::empty(),
                0,
                res,
            );
            works_on(*self, *old(self));
        }
        res
    }

    /// A pointer to a data-type.
    pub fn plain_pointer_to(&mut self, size: i32, pt: TypeId, ws: u32) -> (res: Result<TypeId>)
        requires
            old(self).workable(),
            old(self).roomy(3),
            old(self).types.has(pt),
            1 <= size <= 8,
            ws >= 1,
        ensures
            final(self).grew(*old(self)),
            final(self).types.arena@.len() <= old(self).types.arena@.len() + 2,
            final(self).types.makes_pointer(
                old(self).types,
                size,
                crate::types::pointers::plain_pointer(old(self).types.plain_form(pt), ws),
                Seq::empty(),
                0,
                res,
            ),
            res matches Ok(id) ==> final(self).types.points(id, size, old(self).types.plain_form(pt), ws),
    {
        proof {
            pads_easily(*self, size);
            pads_easily(*self, self.types.size_of_pointer);
        }
        let res = self.types.get_type_pointer(size, pt, ws);
        proof {
            pointer_modest(
                self.types,
                old(self).types,
                size,
                crate::types::pointers::plain_pointer(old(self).types.plain_form(pt), ws),
                Seq::empty(),
                0,
                res,
            );
            works_on(*self, *old(self));
        }
        res
    }

    /// A base data-type of a size and a class.
    pub fn base_of(&mut self, size: i32, meta: TypeMetatype) -> (res: Result<TypeId>)
        requires
            old(self).workable(),
            old(self).roomy(1),
            TypeFactory::base_class(meta),
            size <= 0x1000_0000,
        ensures
            final(self).grew(*old(self)),
            final(self).types.arena@.len() <= old(self).types.arena@.len() + 1,
            final(self).types.makes_base(old(self).types, size, meta, res),
            res matches Ok(id) ==> final(self).types.member(id),
    {
        proof {
            pads_easily(*self, size);
        }
        let res = self.types.get_base(size, meta);
        proof {
            base_modest(self.types, old(self).types, size, meta, res);
            crate::types::pointers::extending_keeps(old(self).types, self.types);
            works_on(*self, *old(self));
        }
        res
    }

    /// An array of a number of elements.
    pub fn array_of(&mut self, count: i32, element: TypeId) -> (res: Result<TypeId>)
        requires
            old(self).workable(),
            old(self).roomy(1),
            old(self).types.can_make_array(count, element),
        ensures
            final(self).types.ready(),
            final(self).same_program(*old(self)),
            final(self).types.keeps(old(self).types),
            ({
                let stored = old(self).types.dt(old(self).types.plain_form(element));
                stored.align_size >= 1 && !(stored.kind is Spacebase)
            }) ==> final(self).grew(*old(self)),
            final(self).types.arena@.len() <= old(self).types.arena@.len() + 1,
            final(self).types.makes_array(old(self).types, count, element, res),
            res matches Ok(id) ==> final(self).types.member(id),
    {
        let res = self.types.get_type_array(count, element);
        proof {
            old(self).types.look(element);
            old(self).types.parts(old(self).types.dt(element));
            crate::types::pointers::extending_keeps(old(self).types, self.types);
            let stored = old(self).types.dt(old(self).types.plain_form(element));
            if stored.align_size >= 1 && !(stored.kind is Spacebase) {
                array_modest(self.types, old(self).types, count, element, res);
                works_on(*self, *old(self));
            }
        }
        res
    }

    /// The pointer that a pointer leads to if an offset is added to it, as if it
    /// ran through an array.
    pub fn follow(&mut self, ct: TypeId, off: &mut i64) -> (res: Result<Option<TypeId>>)
        requires
            old(self).workable(),
            old(self).roomy(9),
            old(self).types.has(ct),
            old(self).types.dt(ct).is_pointer(),
        ensures
            final(self).grew(*old(self)),
            follow_step(*final(self), *old(self), ct, *old(off), *final(off), res),
            res matches Ok(Some(tp)) ==> final(self).types.member(tp) && final(self).types.dt(tp).is_pointer(),
    {
        proof {
            let types = self.types;
            types.look(ct);
            types.parts(types.dt(ct));
            let d = types.dt(ct);
            let target = d.pointer().ptrto->0;
            assert(self.suits(d));
            assert(self.suits(types.dt(target))) by {
                assert(types.has(target));
            }
            pads_easily(*self, d.size);
            pads_easily(*self, 1);
            pads_easily(*self, types.size_of_pointer);
            if d.kind is PointerRel {
                let parent = d.kind->PointerRel_0.parent->0;
                types.look(parent);
                types.parts(types.dt(parent));
            }
        }
        let mut par: Option<TypeId> = None;
        let mut par_off: i64 = 0;
        let res = Datatype::down_chain(ct, off, &mut par, &mut par_off, true, self);
        proof {
            works_on(*self, *old(self));
            assert(crate::types::chain::follows_down(
                *self,
                *old(self),
                ct,
                true,
                *old(off),
                *off,
                None,
                par,
                0,
                par_off,
                res,
            ));
        }
        res
    }

    /// The part of a data-type at an offset.
    pub fn piece_of(&mut self, ct: TypeId, offset: i32, size: i32) -> (res: Result<Option<TypeId>>)
        requires
            old(self).workable(),
            old(self).roomy(3),
            old(self).types.has(ct),
            !(old(self).types.dt(ct).kind is Spacebase),
            old(self).types.can_cut(ct, offset, size),
        ensures
            final(self).grew(*old(self)),
            final(self).types.makes_piece(old(self).types, ct, offset, size, res),
            res matches Ok(Some(tp)) ==> final(self).types.member(tp),
    {
        let res = self.types.get_exact_piece(ct, offset, size);
        proof {
            piece_modest(self.types, old(self).types, ct, offset, size, res);
            crate::types::pointers::extending_keeps(old(self).types, self.types);
            works_on(*self, *old(self));
        }
        res
    }
}

proof fn base_grows(after: TypeFactory, before: TypeFactory, size: i32, meta: TypeMetatype, res: Result<TypeId>)
    requires
        after.makes_base(before, size, meta, res),
    ensures
        before.arena@.len() <= after.arena@.len() <= before.arena@.len() + 1,
{
    if after != before {
        if size > before.max_basetype_size {
            let ao = before.cached(1, TypeMetatype::Unknown)->0;
            let element = before.plain_form(ao);
            if Datatype::array_bytes(size, before.dt(element)) >= 0 {
                let tmp = choose|tmp: Datatype| #[trigger]
                    tmp.is_new_array(size, element, before.dt(element)) && after.adds(before, tmp, res);
                adds_grows(after, before, tmp, res);
            }
        } else {
            let tmp = choose|tmp: Datatype| #[trigger]
                TypeFactory::is_base(tmp, size, meta, Seq::empty(), 0) && after.adds(before, tmp, res);
            adds_grows(after, before, tmp, res);
        }
    }
}

proof fn piece_modest(
    after: TypeFactory,
    before: TypeFactory,
    ct: TypeId,
    offset: i32,
    size: i32,
    res: Result<Option<TypeId>>,
)
    requires
        after.makes_piece(before, ct, offset, size, res),
        before.arena@.len() < u32::MAX - 1,
        before.sound(),
    ensures
        after.only_modest(before),
{
    let (found, last) = crate::types::piece::exact_walk(ct, offset as i64, size, None, before);
    let d = before.dt((last->0).0);
    if !(found is Some) && !(last is None || !crate::types::piece::has_parts(d)) {
        let tp = (last->0).0;
        let off = (last->0).1;
        let r = choose|r: Result<TypeId>| #[trigger] after.makes_part(before, tp, off, size, r);
        match d.kind {
            TypeKind::Union(_) => {
                union_modest(after, before, tp, off as i32, size, r);
            },
            TypeKind::PartialUnion(data) => {
                union_modest(
                    after,
                    before,
                    data.container,
                    off.wrapping_add(data.offset as i64) as i32,
                    size,
                    r,
                );
            },
            TypeKind::Enum(_) | TypeKind::PartialEnum(_) => {
                enum_modest(after, before, tp, off as i32, size, r);
            },
            _ => {
                struct_modest(after, before, tp, off as i32, size, r);
            },
        }
    }
}

proof fn union_modest(after: TypeFactory, before: TypeFactory, contain: TypeId, off: i32, sz: i32, res: Result<TypeId>)
    requires
        after.makes_partial_union(before, contain, off, sz, res),
        before.arena@.len() < u32::MAX - 1,
        before.sound(),
    ensures
        after.only_modest(before),
{
    let (mid, r) = choose|mid: TypeFactory, r: Result<TypeId>| #[trigger]
        mid.makes_base(before, sz, TypeMetatype::Unknown, r) && match r {
            Err(e) => after == mid && res == Err::<TypeId, Error>(e),
            Ok(strip) => exists|tmp: Datatype| #[trigger]
                TypeFactory::is_partial_union(tmp, contain, off, sz, strip, mid) && after.adds(mid, tmp, res),
        };
    base_modest(mid, before, sz, TypeMetatype::Unknown, r);
    base_grows(mid, before, sz, TypeMetatype::Unknown, r);
    if r is Ok {
        let tmp = choose|tmp: Datatype| #[trigger]
            TypeFactory::is_partial_union(tmp, contain, off, sz, r->Ok_0, mid) && after.adds(mid, tmp, res);
        adds_modest(after, mid, tmp, res);
        modest_twice(after, mid, before);
    }
}

proof fn enum_modest(after: TypeFactory, before: TypeFactory, contain: TypeId, off: i32, sz: i32, res: Result<TypeId>)
    requires
        after.makes_partial_enum(before, contain, off, sz, res),
        before.arena@.len() < u32::MAX - 1,
        before.sound(),
    ensures
        after.only_modest(before),
{
    let (mid, r) = choose|mid: TypeFactory, r: Result<TypeId>| #[trigger]
        mid.makes_base(before, sz, TypeMetatype::Unknown, r) && match r {
            Err(e) => after == mid && res == Err::<TypeId, Error>(e),
            Ok(strip) => exists|tmp: Datatype| #[trigger]
                TypeFactory::is_partial_enum(tmp, contain, off, sz, strip, mid) && after.adds(mid, tmp, res),
        };
    base_modest(mid, before, sz, TypeMetatype::Unknown, r);
    base_grows(mid, before, sz, TypeMetatype::Unknown, r);
    if r is Ok {
        let tmp = choose|tmp: Datatype| #[trigger]
            TypeFactory::is_partial_enum(tmp, contain, off, sz, r->Ok_0, mid) && after.adds(mid, tmp, res);
        adds_modest(after, mid, tmp, res);
        modest_twice(after, mid, before);
    }
}

proof fn struct_modest(after: TypeFactory, before: TypeFactory, contain: TypeId, off: i32, sz: i32, res: Result<TypeId>)
    requires
        after.makes_partial_struct(before, contain, off, sz, res),
        before.arena@.len() < u32::MAX - 1,
        before.sound(),
    ensures
        after.only_modest(before),
{
    let (mid, r) = choose|mid: TypeFactory, r: Result<TypeId>| #[trigger]
        mid.makes_base(before, sz, TypeMetatype::Unknown, r) && match r {
            Err(e) => after == mid && res == Err::<TypeId, Error>(e),
            Ok(strip) => exists|tmp: Datatype| #[trigger]
                tmp.is_new_partial_struct(contain, off, sz, strip, mid) && after.adds(mid, tmp, res),
        };
    base_modest(mid, before, sz, TypeMetatype::Unknown, r);
    base_grows(mid, before, sz, TypeMetatype::Unknown, r);
    if r is Ok {
        let tmp = choose|tmp: Datatype| #[trigger]
            tmp.is_new_partial_struct(contain, off, sz, r->Ok_0, mid) && after.adds(mid, tmp, res);
        adds_modest(after, mid, tmp, res);
        modest_twice(after, mid, before);
    }
}

/// What following a pointer by an offset does, apart from the composite that it leads through.
pub open spec fn follow_step(
    after: Architecture,
    before: Architecture,
    ct: TypeId,
    off: i64,
    new_off: i64,
    res: Result<Option<TypeId>>,
) -> bool {
    exists|par: Option<TypeId>, par_off: i64| #[trigger]
        crate::types::chain::follows_down(after, before, ct, true, off, new_off, None, par, 0, par_off, res)
}

/// What asking for a pointer that knows where in the target of another one it points does.
pub open spec fn makes_rel(
    after: TypeFactory,
    before: TypeFactory,
    parent_ptr: TypeId,
    ptr_to: TypeId,
    off: i32,
    res: Result<TypeId>,
) -> bool {
    let parent = before.dt(parent_ptr);
    exists|tmp: Datatype, mid: TypeFactory, r: Result<()>| #[trigger]
        crate::types::pointers::ephemeral(
            before,
            mid,
            tmp,
            parent.size,
            ptr_to,
            parent.pointer().wordsize,
            parent.pointer().ptrto->0,
            off,
            r,
        ) && mid.keeps(before) && match r {
            Ok(_) => after.adds(mid, tmp, res),
            Err(e) => after == mid && res == Err::<TypeId, Error>(e),
        }
}

#[verifier::spinoff_prover]
#[verifier::rlimit(60)]
proof fn rel_works_on(
    after: Architecture,
    before: Architecture,
    parent_ptr: TypeId,
    ptr_to: TypeId,
    off: i32,
    res: Result<TypeId>,
)
    requires
        before.workable(),
        before.roomy(4),
        crate::types::chain::enters(parent_ptr, before.types),
        before.types.has(ptr_to),
        after.same_program(before),
        after.types.ready(),
        after.types.keeps(before.types),
        makes_rel(after.types, before.types, parent_ptr, ptr_to, off, res),
    ensures
        after.grew(before),
{
    let parent = before.types.dt(parent_ptr);
    let target = parent.pointer().ptrto->0;
    assert(before.suits(parent));
    let (tmp, mid, r) = choose|tmp: Datatype, mid: TypeFactory, r: Result<()>| #[trigger]
        crate::types::pointers::ephemeral(
            before.types,
            mid,
            tmp,
            parent.size,
            ptr_to,
            parent.pointer().wordsize,
            target,
            off,
            r,
        ) && mid.keeps(before.types) && match r {
            Ok(_) => after.types.adds(mid, tmp, res),
            Err(e) => after.types == mid && res == Err::<TypeId, Error>(e),
        };
    let bare = choose|bare: Datatype| #[trigger]
        bare.is_new_pointer_rel(
            parent.size,
            ptr_to,
            parent.pointer().wordsize,
            target,
            off,
            before.types.dt(ptr_to),
        ) && crate::types::pointers::marks(before.types, mid, bare, tmp, r);
    let plain = crate::types::pointers::plain_pointer(
        before.types.plain_form(bare.pointer().ptrto->0),
        bare.pointer().wordsize,
    );
    let p = choose|p: Result<TypeId>| #[trigger]
        mid.makes_pointer(before.types, bare.size, plain, Seq::empty(), 0, p) && match p {
            Ok(stripped) => r is Ok && tmp == crate::types::pointers::ephemeral_form(
                bare,
                stripped,
                before.types.dt(bare.pointer().ptrto->0),
            ),
            Err(e) => tmp == bare && r == Err::<(), Error>(e),
        };
    assert(before.types.steady(parent));
    pointer_modest(mid, before.types, bare.size, plain, Seq::empty(), 0, p);
    pointer_steady(mid, before.types, bare.size, plain, p);
    if r is Ok {
        adds_steady(after.types, mid, tmp, res);
    }
    crate::types::chain::kept_program_is_sound(before, after);
    if before.types.spaces_sizeless() {
        assert forall|id: TypeId| #![trigger after.types.dt(id)]
            after.types.has(id) && after.types.dt(id).kind is Spacebase implies after.types.dt(id).size == 0 by {
            if after.types != mid {
                let d = choose|d: Datatype| #[trigger] mid.completes(d, tmp) && after.types.inserts(mid, d, res);
                if id.0 < mid.arena@.len() {
                    assert(after.types.arena@[id.0 as int] == mid.arena@[id.0 as int]);
                } else {
                    assert(after.types.dt(id) == d);
                }
            }
            assert(mid.has(id));
            let x = before.types.dt(id);
        }
    }
    assert(after.types.has(target));
    before.types.look(target);
    assert forall|id: TypeId| #![trigger after.types.has(id)] after.types.has(id) implies after.suits(
        after.types.dt(id),
    ) by {
        if after.types != mid {
            let d = choose|d: Datatype| #[trigger] mid.completes(d, tmp) && after.types.inserts(mid, d, res);
            if id.0 < mid.arena@.len() {
                assert(after.types.arena@[id.0 as int] == mid.arena@[id.0 as int]);
            } else {
                assert(after.types.dt(id) == d);
            }
        }
        if after.types == mid || id.0 < mid.arena@.len() {
            assert(mid.has(id));
            if !modest(mid.dt(id)) {
                let d = before.types.dt(id);
                assert(before.suits(d));
                if d.kind is PointerRel {
                    let par = d.kind->PointerRel_0.parent->0;
                    assert(after.types.has(par));
                    let stripped = before.types.dt(par).stripped();
                    if stripped is Some {
                        assert(after.types.has(stripped->0));
                    }
                }
            }
        } else {
            assert(after.types.dt(id).kind->PointerRel_0.parent == Some(target));
        }
    }
}

impl Architecture {
    /// A pointer that knows where in the target of another pointer it points.
    pub fn rel_pointer_of(&mut self, parent_ptr: TypeId, ptr_to: TypeId, off: i32) -> (res: Result<TypeId>)
        requires
            old(self).workable(),
            old(self).roomy(5),
            crate::types::chain::enters(parent_ptr, old(self).types),
            old(self).types.has(ptr_to),
        ensures
            final(self).grew(*old(self)),
            makes_rel(final(self).types, old(self).types, parent_ptr, ptr_to, off, res),
            res matches Ok(id) ==> final(self).types.member(id),
    {
        proof {
            let d = self.types.dt(parent_ptr);
            self.types.look(parent_ptr);
            self.types.parts(d);
            assert(self.suits(d));
            pads_easily(*self, d.size);
            pads_easily(*self, self.types.size_of_pointer);
        }
        let res = self.types.get_type_pointer_rel(parent_ptr, ptr_to, off);
        proof {
            rel_works_on(*self, *old(self), parent_ptr, ptr_to, off, res);
        }
        res
    }
}

/// What asking for a pointer to a byte that nothing is known of does.
pub open spec fn makes_byte_pointer(
    after: Architecture,
    before: Architecture,
    size: i32,
    ws: u32,
    res: Result<TypeId>,
) -> bool {
    if !before.roomy(4) {
        after == before && (res matches Err(e) && crate::unionresolve::fit::out_of_room(e))
    } else {
        &&& after.same_program(before)
        &&& exists|mid: TypeFactory, b: Result<TypeId>| #[trigger]
            mid.makes_base(before.types, 1, TypeMetatype::Unknown, b) && match b {
                Ok(byte) => after.types.makes_pointer(
                    mid,
                    size,
                    crate::types::pointers::plain_pointer(mid.plain_form(byte), ws),
                    Seq::empty(),
                    0,
                    res,
                ),
                Err(e) => after.types == mid && res == Err::<TypeId, Error>(e),
            }
    }
}

impl Architecture {
    /// A pointer to a byte that nothing is known of.
    pub fn byte_pointer(&mut self, size: i32, ws: u32) -> (res: Result<TypeId>)
        requires
            old(self).workable(),
            1 <= size <= 8,
            ws >= 1,
        ensures
            final(self).grew(*old(self)),
            makes_byte_pointer(*final(self), *old(self), size, ws, res),
            res matches Ok(id) ==> final(self).types.member(id) && final(self).types.dt(id).is_pointer(),
    {
        let ghost before = *self;
        proof {
            grew_never(*self);
        }
        if !self.has_room_for(4) {
            return Err(crate::unionresolve::fit::too_many_types());
        }
        let made = self.base_of(1, TypeMetatype::Unknown);
        let ghost mid = *self;
        assert(mid.types.makes_base(before.types, 1, TypeMetatype::Unknown, made));
        match made {
            Ok(byte) => {
                let res = self.plain_pointer_to(size, byte, ws);
                proof {
                    grew_twice(*self, mid, before);
                }
                res
            },
            Err(e) => Err(e),
        }
    }

    /// A part of an enumeration.
    pub fn enum_part(&mut self, contain: TypeId, off: i32, size: i32) -> (res: Result<TypeId>)
        requires
            old(self).workable(),
            old(self).roomy(3),
            old(self).types.has(contain),
            old(self).types.dt(contain).kind is Enum || old(self).types.dt(contain).kind is PartialEnum,
            old(self).types.pads_twice(size),
        ensures
            final(self).grew(*old(self)),
            final(self).types.makes_partial_enum(old(self).types, contain, off, size, res),
            res matches Ok(id) ==> final(self).types.member(id),
    {
        proof {
            fills_easily(*self, size);
        }
        let res = self.types.get_type_partial_enum(contain, off, size);
        proof {
            enum_modest(self.types, old(self).types, contain, off, size, res);
            crate::types::pointers::extending_keeps(old(self).types, self.types);
            works_on(*self, *old(self));
        }
        res
    }

    /// A pointer of another size.
    pub fn resized_pointer(&mut self, ptr: TypeId, size: i32) -> (res: Result<TypeId>)
        requires
            old(self).workable(),
            old(self).roomy(1),
            old(self).types.has(ptr),
            old(self).types.dt(ptr).is_pointer(),
            1 <= size <= 8,
        ensures
            final(self).grew(*old(self)),
            final(self).types.makes_plain_pointer(
                old(self).types,
                size,
                old(self).types.plain_form(old(self).types.dt(ptr).pointer().ptrto->0),
                old(self).types.dt(ptr).pointer().wordsize,
                Seq::empty(),
                0,
                res,
            ),
            res matches Ok(id) ==> final(self).types.member(id),
    {
        let ghost d = self.types.dt(ptr);
        proof {
            pads_easily(*self, size);
        }
        let res = self.types.resize_pointer(ptr, size);
        proof {
            let before = old(self).types;
            let target = before.plain_form(d.pointer().ptrto->0);
            if self.types != before {
                let tmp = choose|tmp: Datatype| #[trigger]
                    before.is_pointer_to(tmp, size, target, d.pointer().wordsize, Seq::empty(), 0) && self.types.adds(
                        before,
                        tmp,
                        res,
                    );
                adds_modest(self.types, before, tmp, res);
            }
            crate::types::pointers::extending_keeps(before, self.types);
            works_on(*self, *old(self));
        }
        res
    }

    /// The pointer that a pointer leads to if an offset is added to it, with the
    /// pointer into a composite that was last followed.
    pub fn follow_chain(
        &mut self,
        ct: TypeId,
        off: &mut i64,
        par: &mut Option<TypeId>,
        par_off: &mut i64,
        wrap: bool,
    ) -> (res: Result<Option<TypeId>>)
        requires
            old(self).workable(),
            old(self).roomy(9),
            old(self).types.has(ct),
            old(self).types.dt(ct).is_pointer(),
        ensures
            final(self).grew(*old(self)),
            crate::types::chain::follows_down(
                *final(self),
                *old(self),
                ct,
                wrap,
                *old(off),
                *final(off),
                *old(par),
                *final(par),
                *old(par_off),
                *final(par_off),
                res,
            ),
            res matches Ok(Some(tp)) ==> final(self).types.member(tp) && final(self).types.dt(tp).is_pointer(),
            *final(par) == *old(par) || (*final(par) matches Some(p) && crate::types::chain::enters(
                p,
                final(self).types,
            )),
    {
        proof {
            let types = self.types;
            types.look(ct);
            types.parts(types.dt(ct));
            let d = types.dt(ct);
            let target = d.pointer().ptrto->0;
            assert(self.suits(d));
            assert(self.suits(types.dt(target))) by {
                assert(types.has(target));
            }
            pads_easily(*self, d.size);
            pads_easily(*self, 1);
            pads_easily(*self, types.size_of_pointer);
            if d.kind is PointerRel {
                let parent = d.kind->PointerRel_0.parent->0;
                types.look(parent);
                types.parts(types.dt(parent));
            }
        }
        let res = Datatype::down_chain(ct, off, par, par_off, wrap, self);
        proof {
            works_on(*self, *old(self));
        }
        res
    }
}

impl Architecture {
    /// Code that nothing is known of.
    pub fn code_type(&mut self) -> (res: Result<TypeId>)
        requires
            old(self).workable(),
            old(self).roomy(1),
        ensures
            final(self).grew(*old(self)),
            final(self).types.arena@.len() <= old(self).types.arena@.len() + 1,
            final(self).types.makes_code(old(self).types, res),
            res matches Ok(id) ==> final(self).types.member(id),
    {
        proof {
            pads_easily(*self, 1);
        }
        let res = self.types.get_type_code();
        proof {
            let before = old(self).types;
            if self.types != before {
                let tmp = choose|tmp: Datatype| #[trigger]
                    TypeFactory::is_bare_code(tmp, Seq::empty(), 0) && self.types.adds(before, tmp, res);
                adds_modest(self.types, before, tmp, res);
                adds_grows(self.types, before, tmp, res);
            } else {
                modest_never(before);
            }
            crate::types::pointers::extending_keeps(before, self.types);
            works_on(*self, *old(self));
        }
        res
    }

    /// A base data-type of a size and a class, but no character.
    pub fn base_no_char_of(&mut self, size: i32, meta: TypeMetatype) -> (res: Result<TypeId>)
        requires
            old(self).workable(),
            old(self).roomy(1),
            TypeFactory::base_class(meta),
            size <= 0x1000_0000,
        ensures
            final(self).grew(*old(self)),
            if size == 1 && meta is Int && old(self).types.type_nochar is Some {
                *final(self) == *old(self) && res == Ok::<TypeId, Error>(old(self).types.type_nochar->0)
            } else {
                final(self).types.makes_base(old(self).types, size, meta, res)
            },
            res matches Ok(id) ==> final(self).types.member(id),
    {
        proof {
            pads_easily(*self, size);
            grew_never(*self);
        }
        let res = self.types.get_base_no_char(size, meta);
        proof {
            if !(size == 1 && meta is Int && old(self).types.type_nochar is Some) {
                base_modest(self.types, old(self).types, size, meta, res);
                crate::types::pointers::extending_keeps(old(self).types, self.types);
                works_on(*self, *old(self));
            }
        }
        res
    }
}

} // verus!

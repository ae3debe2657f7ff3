//! Pointers that the factory makes, and their truncated forms.
use vstd::prelude::*;
use crate::error::{Error, Result};
use crate::ids::TypeId;
use crate::space::SpaceRef;
use crate::types::{
    Datatype, SubMetatype, TypeFactory, TypeKind, TypeMetatype, TypePointerData, TypePointerRelData,
};

verus! {

impl Datatype {
    /// What a pointer holds, to be changed.
    pub fn pointer_data_mut(&mut self) -> (res: &mut TypePointerData)
        requires
            old(self).is_pointer(),
        ensures
            *res == old(self).pointer(),
            *final(self) == old(self).with_pointer(*final(res)),
    {
        match &mut self.kind {
            TypeKind::Pointer(data) => data,
            TypeKind::PointerRel(data) => &mut data.pointer,
            _ => vstd::pervasive::unreached(),
        }
    }

    /// The same pointer with other contents.
    pub open spec fn with_pointer(self, data: TypePointerData) -> Datatype {
        Datatype {
            kind: match self.kind {
                TypeKind::PointerRel(rel) => TypeKind::PointerRel(TypePointerRelData { pointer: data, ..rel }),
                _ => TypeKind::Pointer(data),
            },
            ..self
        }
    }

    /// A pointer with a truncated form.
    pub open spec fn with_truncation(self, truncate: TypeId, big_endian: bool) -> Datatype {
        let d = self.with_pointer(TypePointerData { truncate: Some(truncate), ..self.pointer() });
        Datatype {
            flags: if big_endian {
                d.flags | Datatype::TRUNCATE_BIGENDIAN
            } else {
                d.flags
            },
            ..d
        }
    }
}

/// Two data-types of which the second may have got a truncated form.
pub open spec fn same_but_truncation(a: Datatype, b: Datatype) -> bool {
    a == b || (a.is_pointer() && exists|t: TypeId, big: bool| #[trigger] a.with_truncation(t, big) == b)
}

impl TypeFactory {
    /// All data-types of before are still there. Pointers may have got truncated
    /// forms.
    pub open spec fn keeps(self, before: TypeFactory) -> bool {
        &&& self.same_settings(before)
        &&& self.same_notes(before)
        &&& self.arena@.len() >= before.arena@.len()
        &&& forall|id: TypeId| #![trigger self.has(id)]
            before.has(id) ==> self.has(id) && same_but_truncation(before.dt(id), self.dt(id)) && self.depth@[id]
                == before.depth@[id]
    }

    /// Truncated forms can be made.
    pub open spec fn can_truncate(self) -> bool {
        &&& self.size_of_pointer != self.size_of_alt_pointer
        &&& self.default_data_space is Some
        &&& self.pads_twice(self.size_of_pointer)
    }

    pub fn default_data_space_big_endian(&self) -> (res: bool)
        requires
            self.default_data_space is Some,
        ensures
            res == self.default_data_space->0.big_endian,
    {
        match &self.default_data_space {
            Some(spc) => spc.is_big_endian(),
            None => vstd::pervasive::unreached(),
        }
    }

    /// What finding the truncated form of a pointer does: only a pointer of the
    /// alternate size gets one, of the ordinary size.
    pub open spec fn truncates(self, before: TypeFactory, ct: TypeId, res: Result<()>) -> bool {
        let d = before.dt(ct);
        if d.pointer().truncate is Some || d.size != before.size_of_alt_pointer {
            self == before && res is Ok
        } else {
            exists|mid: TypeFactory, r: Result<TypeId>| #[trigger]
                before.short_form(mid, d, r) && match r {
                    Ok(t) => res is Ok && self.retouched(
                        mid,
                        ct,
                        d.with_truncation(t, before.default_data_space->0.big_endian),
                    ),
                    Err(e) => self == mid && res == Err::<(), Error>(e),
                }
        }
    }

    /// The pointer of the ordinary size to what a pointer points to.
    pub open spec fn short_form(self, after: TypeFactory, d: Datatype, r: Result<TypeId>) -> bool {
        after.makes_plain_pointer(
            self,
            self.size_of_pointer,
            self.plain_form(d.pointer().ptrto->0),
            d.pointer().wordsize,
            Seq::empty(),
            0,
            r,
        )
    }
}

/// Growing keeps everything.
pub proof fn extending_keeps(before: TypeFactory, after: TypeFactory)
    requires
        after.extends(before),
    ensures
        after.keeps(before),
{
    assert forall|id: TypeId| #![trigger after.has(id)] before.has(id) implies after.has(id) && same_but_truncation(
        before.dt(id),
        after.dt(id),
    ) && after.depth@[id] == before.depth@[id] by {
        assert(after.arena@[id.0 as int] == before.arena@[id.0 as int]);
    }
}

/// The truncated form of a truncated form is the later one.
proof fn truncation_twice(a: Datatype, b: Datatype, c: Datatype)
    requires
        same_but_truncation(a, b),
        same_but_truncation(b, c),
    ensures
        same_but_truncation(a, c),
{
    if a != b && b != c {
        let (t, big) = choose|t: TypeId, big: bool| #[trigger] a.with_truncation(t, big) == b;
        let (u, small) = choose|u: TypeId, small: bool| #[trigger] b.with_truncation(u, small) == c;
        let f = a.flags;
        assert((f | 0x8000u32) | 0x8000u32 == f | 0x8000u32) by (bit_vector);
        assert(a.with_truncation(u, big || small) == c);
    }
}

/// Keeping twice keeps.
pub proof fn keeping_twice(a: TypeFactory, b: TypeFactory, c: TypeFactory)
    requires
        b.keeps(a),
        c.keeps(b),
    ensures
        c.keeps(a),
{
    assert forall|id: TypeId| #![trigger c.has(id)] a.has(id) implies c.has(id) && same_but_truncation(
        a.dt(id),
        c.dt(id),
    ) && c.depth@[id] == a.depth@[id] by {
        assert(b.has(id));
        assert(c.has(id));
        truncation_twice(a.dt(id), b.dt(id), c.dt(id));
    }
}

impl Datatype {
    /// Gives a pointer of the alternate size its truncated form.
    pub fn calc_truncate(ct: TypeId, types: &mut TypeFactory) -> (res: Result<()>)
        requires
            old(types).ready(),
            old(types).has(ct),
            old(types).dt(ct).is_pointer(),
            old(types).arena@.len() < u32::MAX,
            old(types).dt(ct).size == old(types).size_of_alt_pointer ==> old(types).can_truncate(),
        ensures
            final(types).ready(),
            final(types).keeps(*old(types)),
            old(types).firm() ==> final(types).firm(),
            final(types).truncates(*old(types), ct, res),
            final(types).arena@.len() <= old(types).arena@.len() + 1,
    {
        let ghost before = *types;
        proof {
            types.look(ct);
            types.parts(types.dt(ct));
            extending_keeps(before, before);
        }
        let dt = types.get(ct);
        if dt.get_truncate().is_some() || dt.size != types.size_of_alt_pointer {
            return Ok(());
        }
        let ghost d = *dt;
        let ptrto = dt.get_ptr_to();
        let wordsize: u32 = dt.get_word_size();
        let new_size: i32 = types.size_of_pointer;
        let made = types.resize_pointer_parts(ptrto, wordsize, new_size);
        let ghost mid = *types;
        proof {
            assert(before.short_form(mid, d, made));
            extending_keeps(before, mid);
        }
        let truncate = made?;
        let big_endian = types.default_data_space_big_endian();
        assert(types.arena@[ct.0 as int] == before.arena@[ct.0 as int]);
        proof {
            mid.neat(truncate);
        }
        let dt = types.get_mut(ct);
        dt.pointer_data_mut().truncate = Some(truncate);
        if big_endian {
            dt.flags = dt.flags | Datatype::TRUNCATE_BIGENDIAN;
        }
        proof {
            let now = d.with_truncation(truncate, big_endian);
            assert(types.retouched(mid, ct, now));
            truncation_is_sound(mid, *types, ct, truncate, big_endian);
            extending_keeps(before, mid);
            keeping_twice(before, mid, *types);
        }
        Ok(())
    }

    /// Gives a pointer that is no part of the factory yet its truncated form.
    pub fn calc_truncate_local(&mut self, types: &mut TypeFactory) -> (res: Result<()>)
        requires
            old(types).ready(),
            old(types).valid(*old(self)),
            old(self).is_pointer(),
            old(types).arena@.len() < u32::MAX,
            old(self).size == old(types).size_of_alt_pointer ==> old(types).can_truncate(),
        ensures
            final(types).ready(),
            final(types).extends(*old(types)),
            old(types).firm() ==> final(types).firm(),
            final(types).valid(*final(self)),
            final(types).arena@.len() <= old(types).arena@.len() + 1,
            if old(self).pointer().truncate is Some || old(self).size != old(types).size_of_alt_pointer {
                res is Ok && *final(types) == *old(types) && *final(self) == *old(self)
            } else {
                exists|r: Result<TypeId>| #[trigger]
                    old(types).short_form(*final(types), *old(self), r) && match r {
                        Ok(t) => res is Ok && *final(self) == old(self).with_truncation(
                            t,
                            old(types).default_data_space->0.big_endian,
                        ),
                        Err(e) => *final(self) == *old(self) && res == Err::<(), Error>(e),
                    }
            },
    {
        let ghost before = *types;
        proof {
            types.parts(*self);
        }
        if self.get_truncate().is_some() || self.size != types.size_of_alt_pointer {
            return Ok(());
        }
        let ghost d = *self;
        let new_size: i32 = types.size_of_pointer;
        let made = types.resize_pointer_parts(self.get_ptr_to(), self.get_word_size(), new_size);
        proof {
            assert(before.short_form(*types, d, made));
            crate::types::grow::stays_valid(before, *types, d);
        }
        let truncate = made?;
        proof {
            types.neat(truncate);
            truncated_is_valid(*types, d, truncate, types.default_data_space->0.big_endian);
        }
        self.pointer_data_mut().truncate = Some(truncate);
        if types.default_data_space_big_endian() {
            self.flags = self.flags | Datatype::TRUNCATE_BIGENDIAN;
        }
        Ok(())
    }
}

/// A pointer with a truncated form is valid.
proof fn truncated_is_valid(types: TypeFactory, d: Datatype, truncate: TypeId, big_endian: bool)
    requires
        types.valid(d),
        d.is_pointer(),
        types.has(truncate),
        types.dt(truncate).is_pointer(),
        types.dt(truncate).pointer().truncate is None,
    ensures
        types.valid(d.with_truncation(truncate, big_endian)),
        types.firm_kind(d.with_truncation(truncate, big_endian)),
{
    reveal(TypeFactory::kind_valid);
    reveal(TypeFactory::firm_kind);
    crate::types::grow::free_bits();
    crate::types::grow::freely_added(d.flags, Datatype::TRUNCATE_BIGENDIAN);
}

/// A truncated form leaves the factory sound.
proof fn truncation_is_sound(mid: TypeFactory, after: TypeFactory, ct: TypeId, truncate: TypeId, big_endian: bool)
    requires
        mid.ready(),
        mid.has(ct),
        mid.dt(ct).is_pointer(),
        mid.dt(ct).pointer().truncate is None,
        mid.dt(ct).size == mid.size_of_alt_pointer,
        mid.size_of_alt_pointer != mid.size_of_pointer,
        mid.has(truncate),
        mid.dt(truncate).is_pointer(),
        mid.dt(truncate).size == mid.size_of_pointer,
        after.retouched(mid, ct, mid.dt(ct).with_truncation(truncate, big_endian)),
    ensures
        after.ready(),
        after.keeps(mid),
{
    let d = mid.dt(ct);
    let now = d.with_truncation(truncate, big_endian);
    mid.look(ct);
    mid.neat(ct);
    mid.neat(truncate);
    assert(mid.dt(truncate).pointer().truncate is None);
    truncated_is_valid(mid, d, truncate, big_endian);
    assert(!mid.is_truncation(ct)) by {
        if mid.is_truncation(ct) {
            let p = choose|p: TypeId| #![trigger mid.dt(p)]
                mid.has(p) && mid.dt(p).is_pointer() && mid.dt(p).pointer().truncate == Some(ct);
            mid.neat(p);
        }
    }
    crate::types::grow::retouch_is_sound(mid, after, ct, now);
    assert forall|id: TypeId| #![trigger after.has(id)] mid.has(id) implies after.has(id) && same_but_truncation(
        mid.dt(id),
        after.dt(id),
    ) && after.depth@[id] == mid.depth@[id] by {
        if id != ct {
            assert(id.0 != ct.0);
        } else {
            assert(d.with_truncation(truncate, big_endian) == after.dt(id));
        }
    }
}

impl TypeFactory {
    /// What asking for a pointer does: the pointer is added if it is missing, and
    /// it gets its truncated form.
    pub open spec fn makes_pointer(
        self,
        before: TypeFactory,
        size: i32,
        data: TypePointerData,
        name: Seq<char>,
        id: u64,
        res: Result<TypeId>,
    ) -> bool {
        if size < 0 {
            self == before && Datatype::bad_size(res)
        } else {
            exists|tmp: Datatype, mid: TypeFactory, r: Result<TypeId>| #[trigger]
                before.is_named_pointer(tmp, size, data, name, id) && #[trigger] mid.adds(before, tmp, r) && match r {
                    Err(e) => self == mid && res == Err::<TypeId, Error>(e),
                    Ok(ptr) => exists|t: Result<()>| #[trigger]
                        self.truncates(mid, ptr, t) && match t {
                            Ok(_) => res == Ok::<TypeId, Error>(ptr),
                            Err(e) => res == Err::<TypeId, Error>(e),
                        },
                }
        }
    }

    /// A pointer with a truncated form that can be asked for.
    pub open spec fn can_make_full_pointer(self, size: i32, pt: TypeId, ws: u32) -> bool {
        &&& self.can_make_pointer(size, pt, ws)
        &&& self.arena@.len() < u32::MAX - 1
        &&& size == self.size_of_alt_pointer ==> self.can_truncate()
    }

    /// A member that is a pointer of a size to a data-type.
    pub open spec fn points(self, id: TypeId, size: i32, target: TypeId, ws: u32) -> bool {
        &&& self.member(id)
        &&& self.dt(id).is_pointer()
        &&& self.dt(id).size == size
        &&& self.dt(id).pointer().ptrto == Some(target)
        &&& self.dt(id).pointer().wordsize == ws
    }

    /// The rest of asking for a pointer, once it is built.
    fn add_pointer(&mut self, tmp: &Datatype) -> (res: Result<TypeId>)
        requires
            old(self).ready(),
            old(self).takes(*tmp),
            old(self).arena@.len() < u32::MAX - 1,
            tmp.kind is Pointer,
            tmp.submeta is Ptr || tmp.submeta is PtrStruct,
            tmp.pointer().ptrto is Some,
            tmp.size == old(self).size_of_alt_pointer ==> old(self).can_truncate(),
        ensures
            final(self).ready(),
            final(self).keeps(*old(self)),
            old(self).firm() ==> final(self).firm(),
            final(self).arena@.len() <= old(self).arena@.len() + 2,
            exists|mid: TypeFactory, r: Result<TypeId>| #[trigger]
                mid.adds(*old(self), *tmp, r) && match r {
                    Err(e) => *final(self) == mid && res == Err::<TypeId, Error>(e),
                    Ok(ptr) => exists|t: Result<()>| #[trigger]
                        final(self).truncates(mid, ptr, t) && match t {
                            Ok(_) => res == Ok::<TypeId, Error>(ptr),
                            Err(e) => res == Err::<TypeId, Error>(e),
                        },
                },
            res matches Ok(id) ==> final(self).points(id, tmp.size, tmp.pointer().ptrto->0, tmp.pointer().wordsize),
    {
        let ghost before = *self;
        let added = self.find_add(tmp);
        let ghost mid = *self;
        proof {
            reveal(TypeFactory::firm_kind);
            assert(mid.adds(before, *tmp, added));
            extending_keeps(before, mid);
        }
        match added {
            Err(e) => Err(e),
            Ok(ptr) => {
                proof {
                    added_named_pointer(before, mid, *tmp, ptr);
                }
                let done = Datatype::calc_truncate(ptr, self);
                proof {
                    keeping_twice(before, mid, *self);
                    assert(self.truncates(mid, ptr, done));
                    assert(self.has(ptr));
                    self.look(ptr);
                }
                match done {
                    Ok(_) => Ok(ptr),
                    Err(e) => Err(e),
                }
            },
        }
    }
}

/// What the factory gives for a pointer is a pointer of that size.
pub proof fn added_named_pointer(before: TypeFactory, after: TypeFactory, tmp: Datatype, id: TypeId)
    requires
        before.ready(),
        tmp.kind is Pointer,
        tmp.submeta is Ptr || tmp.submeta is PtrStruct,
        tmp.pointer().ptrto is Some,
        after.adds(before, tmp, Ok::<TypeId, Error>(id)),
        after.extends(before),
        after.has(id),
        before.arena@.len() < u32::MAX - 1,
    ensures
        after.dt(id).is_pointer(),
        after.dt(id).size == tmp.size,
        after.dt(id).pointer().ptrto == tmp.pointer().ptrto,
        after.dt(id).pointer().wordsize == tmp.pointer().wordsize,
        after.arena@.len() < u32::MAX,
        !before.has(id) ==> id.0 == before.arena@.len(),
{
    if tmp.name@.len() == 0 {
        crate::types::make::added_pointer(before, after, tmp, id);
        if before.found(tmp) is None {
            let d = choose|d: Datatype| #[trigger]
                before.completes(d, tmp) && after.inserts(before, d, Ok::<TypeId, Error>(id));
        } else {
            before.tree_names_members(before.place(tmp, 0) as int);
            before.parts(before.dt(id));
        }
    } else if before.by_name(tmp.name@, tmp.id) is Some {
        let i = before.name_place(tmp.name@, tmp.id, 0);
        before.name_place_inside(tmp.name@, tmp.id, 0);
        before.names_name_members(i);
        let d = before.dt(id);
        assert(d.submeta.rank() == tmp.submeta.rank());
        assert(d.kind is Pointer);
        before.parts(d);
        assert(crate::types::compare::size_order(d, tmp) == 0);
        assert(tmp.size.wrapping_sub(d.size) == 0);
    } else {
        let d = choose|d: Datatype| #[trigger]
            before.completes(d, tmp) && after.inserts(before, d, Ok::<TypeId, Error>(id));
        assert(after.arena@.last() == Some(d));
    }
}

impl TypeFactory {
    /// A pointer to a data-type, in its plain form.
    pub fn get_type_pointer(&mut self, size: i32, pt: TypeId, ws: u32) -> (res: Result<TypeId>)
        requires
            old(self).can_make_full_pointer(size, pt, ws),
        ensures
            final(self).ready(),
            final(self).keeps(*old(self)),
            old(self).firm() ==> final(self).firm(),
            final(self).arena@.len() <= old(self).arena@.len() + 2,
            final(self).makes_pointer(
                *old(self),
                size,
                plain_pointer(old(self).plain_form(pt), ws),
                Seq::empty(),
                0,
                res,
            ),
            res matches Ok(id) ==> final(self).points(id, size, old(self).plain_form(pt), ws),
    {
        proof {
            extending_keeps(*self, *self);
        }
        let target = self.strip(pt);
        let tmp = Datatype::new_pointer(size, target, ws, self)?;
        proof {
            crate::types::make::plain_pointer_fits(*self, tmp, size, target, ws);
            assert(self.is_named_pointer(tmp, size, plain_pointer(target, ws), Seq::empty(), 0));
        }
        self.add_pointer(&tmp)
    }

    /// A pointer to a data-type, or to the elements if it is an array.
    pub fn get_type_pointer_strip_array(&mut self, size: i32, pt: TypeId, ws: u32) -> (res: Result<TypeId>)
        requires
            old(self).can_make_full_pointer(size, pt, ws),
        ensures
            final(self).ready(),
            final(self).keeps(*old(self)),
            old(self).firm() ==> final(self).firm(),
            final(self).arena@.len() <= old(self).arena@.len() + 2,
            final(self).makes_pointer(
                *old(self),
                size,
                plain_pointer(old(self).element_form(pt), ws),
                Seq::empty(),
                0,
                res,
            ),
            res matches Ok(id) ==> final(self).points(id, size, old(self).element_form(pt), ws),
    {
        proof {
            extending_keeps(*self, *self);
        }
        let mut target = self.strip(pt);
        proof {
            self.parts(self.dt(target));
        }
        if self.get(target).get_metatype() == TypeMetatype::Array {
            target = self.get(target).get_base();
        }
        let tmp = Datatype::new_pointer(size, target, ws, self)?;
        proof {
            crate::types::make::plain_pointer_fits(*self, tmp, size, target, ws);
            assert(self.is_named_pointer(tmp, size, plain_pointer(target, ws), Seq::empty(), 0));
        }
        self.add_pointer(&tmp)
    }

    /// The plain form of a data-type, or of its elements if it is an array.
    pub open spec fn element_form(self, pt: TypeId) -> TypeId {
        match self.dt(self.plain_form(pt)).kind {
            TypeKind::Array(data) => data.arrayof->0,
            _ => self.plain_form(pt),
        }
    }

    /// A pointer with a name.
    pub fn get_type_pointer_named(&mut self, size: i32, pt: TypeId, ws: u32, name: &str) -> (res: Result<TypeId>)
        requires
            old(self).can_make_full_pointer(size, pt, ws),
        ensures
            final(self).ready(),
            final(self).keeps(*old(self)),
            old(self).firm() ==> final(self).firm(),
            final(self).arena@.len() <= old(self).arena@.len() + 2,
            final(self).makes_pointer(
                *old(self),
                size,
                plain_pointer(old(self).plain_form(pt), ws),
                name@,
                crate::types::read::name_hash(name@),
                res,
            ),
            res matches Ok(id) ==> final(self).points(id, size, old(self).plain_form(pt), ws),
    {
        proof {
            extending_keeps(*self, *self);
        }
        let target = self.strip(pt);
        let mut tmp = Datatype::new_pointer(size, target, ws, self)?;
        let ghost bare = tmp;
        tmp.name = name.to_owned();
        tmp.display_name = name.to_owned();
        tmp.id = Datatype::hash_name(name);
        proof {
            crate::types::make::plain_pointer_fits(*self, bare, size, target, ws);
            named_stays_valid(*self, bare, tmp);
            assert(self.is_named_pointer(
                tmp,
                size,
                plain_pointer(target, ws),
                name@,
                crate::types::read::name_hash(name@),
            ));
        }
        self.add_pointer(&tmp)
    }

    /// A pointer into a particular space, with a name.
    pub fn get_type_pointer_with_space(&mut self, ptr_to: TypeId, spc: &SpaceRef, nm: &str) -> (res: Result<TypeId>)
        requires
            old(self).can_make_full_pointer(spc.addr_size as i32, ptr_to, spc.word_size),
            spc.valid(),
        ensures
            final(self).ready(),
            final(self).keeps(*old(self)),
            old(self).firm() ==> final(self).firm(),
            final(self).arena@.len() <= old(self).arena@.len() + 2,
            final(self).makes_pointer(
                *old(self),
                spc.addr_size as i32,
                TypePointerData {
                    ptrto: Some(ptr_to),
                    spaceid: Some(*spc),
                    truncate: None,
                    wordsize: spc.word_size,
                },
                nm@,
                crate::types::read::name_hash(nm@),
                res,
            ),
            res matches Ok(id) ==> final(self).points(id, spc.addr_size as i32, ptr_to, spc.word_size),
    {
        let mut tp = Datatype::new_pointer_space(ptr_to, spc, self)?;
        let ghost bare = tp;
        let ghost data = TypePointerData {
            ptrto: Some(ptr_to),
            spaceid: Some(*spc),
            truncate: None,
            wordsize: spc.word_size,
        };
        tp.name = nm.to_owned();
        tp.display_name = nm.to_owned();
        tp.id = Datatype::hash_name(nm);
        proof {
            crate::types::make::new_pointer_is_valid(*self, bare, spc.addr_size as i32, data);
            named_stays_valid(*self, bare, tp);
            assert(self.is_named_pointer(
                tp,
                spc.addr_size as i32,
                data,
                nm@,
                crate::types::read::name_hash(nm@),
            ));
        }
        self.add_pointer(&tp)
    }

    /// A pointer that knows where in the target of another pointer it points,
    /// and that has a plain form.
    pub fn get_type_pointer_rel(&mut self, parent_ptr: TypeId, ptr_to: TypeId, off: i32) -> (res: Result<TypeId>)
        requires
            old(self).ready(),
            old(self).has(parent_ptr),
            old(self).dt(parent_ptr).is_pointer(),
            old(self).can_make_full_pointer(
                old(self).dt(parent_ptr).size,
                ptr_to,
                old(self).dt(parent_ptr).pointer().wordsize,
            ),
            old(self).arena@.len() < u32::MAX - 3,
        ensures
            final(self).ready(),
            final(self).keeps(*old(self)),
            old(self).firm() ==> final(self).firm(),
            final(self).arena@.len() <= old(self).arena@.len() + 3,
            ({
                let parent = old(self).dt(parent_ptr);
                exists|tmp: Datatype, mid: TypeFactory, r: Result<()>| #[trigger]
                    ephemeral(
                        *old(self),
                        mid,
                        tmp,
                        parent.size,
                        ptr_to,
                        parent.pointer().wordsize,
                        parent.pointer().ptrto->0,
                        off,
                        r,
                    ) && mid.keeps(*old(self)) && match r {
                        Ok(_) => final(self).adds(mid, tmp, res),
                        Err(e) => *final(self) == mid && res == Err::<TypeId, Error>(e),
                    }
            }),
            res matches Ok(id) ==> final(self).member(id),
    {
        let ghost before = *self;
        proof {
            reveal(TypeFactory::firm_kind);
            self.look(parent_ptr);
            self.parts(self.dt(parent_ptr));
        }
        let parent = self.get(parent_ptr);
        let size: i32 = parent.size;
        let wordsize: u32 = parent.get_word_size();
        let parent_to = parent.get_ptr_to();
        let mut tp = Datatype::new_pointer_rel(size, ptr_to, wordsize, parent_to, off, self)?;
        let ghost bare = tp;
        proof {
            new_rel_is_valid(*self, bare, size, ptr_to, wordsize, parent_to, off);
        }
        let done = tp.mark_ephemeral(self);
        let ghost mid = *self;
        proof {
            assert(ephemeral(before, mid, tp, size, ptr_to, wordsize, parent_to, off, done));
            extending_keeps(mid, mid);
        }
        match done {
            Ok(_) => {
                let res = self.find_add(&tp);
                proof {
                    extending_keeps(mid, *self);
                    keeping_twice(before, mid, *self);
                }
                res
            },
            Err(e) => Err(e),
        }
    }

    /// A pointer with a name that knows where in a parent it points.
    pub fn get_type_pointer_rel_named(
        &mut self,
        sz: i32,
        parent: TypeId,
        ptr_to: TypeId,
        ws: i32,
        off: i32,
        nm: &str,
    ) -> (res: Result<TypeId>)
        requires
            old(self).ready(),
            old(self).has(parent),
            old(self).has(ptr_to),
            old(self).arena@.len() < u32::MAX,
            old(self).pads_twice(sz),
            (ws as u32) >= 1,
        ensures
            final(self).ready(),
            final(self).extends(*old(self)),
            old(self).firm() ==> final(self).firm(),
            if sz < 0 {
                *final(self) == *old(self) && Datatype::bad_size(res)
            } else {
                exists|tmp: Datatype| #[trigger]
                    is_named_rel(*old(self), tmp, sz, ptr_to, ws as u32, parent, off, nm@) && final(self).adds(
                        *old(self),
                        tmp,
                        res,
                    )
            },
            res matches Ok(id) ==> final(self).member(id),
    {
        let mut tp = Datatype::new_pointer_rel(sz, ptr_to, ws as u32, parent, off, self)?;
        let ghost bare = tp;
        tp.name = nm.to_owned();
        tp.display_name = nm.to_owned();
        tp.id = Datatype::hash_name(nm);
        proof {
            reveal(TypeFactory::firm_kind);
            new_rel_is_valid(*self, bare, sz, ptr_to, ws as u32, parent, off);
            named_stays_valid(*self, bare, tp);
            assert(is_named_rel(*self, tp, sz, ptr_to, ws as u32, parent, off, nm@));
        }
        self.find_add(&tp)
    }
}

/// What a pointer to a data-type holds.
pub open spec fn plain_pointer(pt: TypeId, ws: u32) -> TypePointerData {
    TypePointerData { ptrto: Some(pt), spaceid: None, truncate: None, wordsize: ws }
}

/// A relative pointer with a name.
pub open spec fn is_named_rel(
    types: TypeFactory,
    d: Datatype,
    size: i32,
    pt: TypeId,
    ws: u32,
    parent: TypeId,
    off: i32,
    name: Seq<char>,
) -> bool {
    d.is_made_pointer_rel(crate::types::read::name_hash(name), name, size, pt, ws, parent, off, types.dt(pt))
}

/// A name and an id do not matter for validity.
proof fn named_stays_valid(types: TypeFactory, bare: Datatype, named: Datatype)
    requires
        types.valid(bare),
        named == (Datatype { id: named.id, name: named.name, display_name: named.display_name, ..bare }),
    ensures
        types.valid(named),
        types.depth_of(named) == types.depth_of(bare),
{
    reveal(TypeFactory::kind_valid);
    reveal(TypeFactory::firm_kind);
}

/// A new relative pointer is valid.
proof fn new_rel_is_valid(types: TypeFactory, d: Datatype, size: i32, pt: TypeId, ws: u32, par: TypeId, off: i32)
    requires
        types.sound(),
        types.has(pt),
        types.has(par),
        size >= 0,
        d.is_new_pointer_rel(size, pt, ws, par, off, types.dt(pt)),
    ensures
        types.valid(d),
{
    reveal(TypeFactory::kind_valid);
    reveal(TypeFactory::firm_kind);
    let target = types.dt(pt);
    crate::types::make::inherited_flags_plain(target.flags);
    let base = target.flags & (Datatype::CORETYPE | Datatype::WARNING_ISSUED);
    crate::types::make::pointer_flags_plain(target, base);
    crate::types::grow::free_bits();
    crate::types::grow::freely_added(crate::types::create::pointer_flags(target, base), Datatype::IS_PTRREL);
    crate::types::grow::free_flags_fit(d);
}

/// A relative pointer that has got a plain form.
pub open spec fn ephemeral_form(d: Datatype, stripped: TypeId, target: Datatype) -> Datatype {
    Datatype {
        kind: match d.kind {
            TypeKind::PointerRel(data) => TypeKind::PointerRel(
                TypePointerRelData { stripped: Some(stripped), ..data },
            ),
            other => other,
        },
        flags: d.flags | Datatype::HAS_STRIPPED,
        submeta: if target.metatype is Unknown {
            SubMetatype::PtrRelUnk
        } else {
            d.submeta
        },
        ..d
    }
}

/// What building a relative pointer with a plain form does.
pub open spec fn ephemeral(
    before: TypeFactory,
    after: TypeFactory,
    tmp: Datatype,
    size: i32,
    pt: TypeId,
    ws: u32,
    par: TypeId,
    off: i32,
    res: Result<()>,
) -> bool {
    exists|bare: Datatype| #[trigger]
        bare.is_new_pointer_rel(size, pt, ws, par, off, before.dt(pt)) && marks(before, after, bare, tmp, res)
}

/// What giving a relative pointer a plain form does.
pub open spec fn marks(
    before: TypeFactory,
    after: TypeFactory,
    bare: Datatype,
    done: Datatype,
    res: Result<()>,
) -> bool {
    exists|r: Result<TypeId>| #[trigger]
        after.makes_pointer(
            before,
            bare.size,
            plain_pointer(before.plain_form(bare.pointer().ptrto->0), bare.pointer().wordsize),
            Seq::empty(),
            0,
            r,
        ) && match r {
            Ok(stripped) => res is Ok && done == ephemeral_form(
                bare,
                stripped,
                before.dt(bare.pointer().ptrto->0),
            ),
            Err(e) => done == bare && res == Err::<(), Error>(e),
        }
}

impl Datatype {
    /// Gives a relative pointer the plain form that stands for it.
    pub fn mark_ephemeral(&mut self, types: &mut TypeFactory) -> (res: Result<()>)
        requires
            old(self).kind is PointerRel,
            old(types).valid(*old(self)),
            old(self).pointer().truncate is None,
            old(types).can_make_full_pointer(
                old(self).size,
                old(self).pointer().ptrto->0,
                old(self).pointer().wordsize,
            ),
        ensures
            final(types).ready(),
            final(types).keeps(*old(types)),
            old(types).firm() ==> final(types).firm(),
            final(types).arena@.len() <= old(types).arena@.len() + 2,
            marks(*old(types), *final(types), *old(self), *final(self), res),
            final(types).valid(*final(self)),
    {
        let ghost before = *types;
        let ghost bare = *self;
        let size: i32 = self.size;
        proof {
            types.parts(*self);
        }
        let ptrto = self.get_ptr_to();
        let wordsize: u32 = self.get_word_size();
        let made = types.get_type_pointer(size, ptrto, wordsize);
        proof {
            assert(types.makes_pointer(
                before,
                bare.size,
                plain_pointer(before.plain_form(bare.pointer().ptrto->0), bare.pointer().wordsize),
                Seq::empty(),
                0,
                made,
            ));
            kept_rel_is_valid(before, *types, bare);
        }
        match made {
            Err(e) => Err(e),
            Ok(stripped) => {
                match &mut self.kind {
                    TypeKind::PointerRel(data) => {
                        data.stripped = Some(stripped);
                    },
                    _ => {
                        vstd::pervasive::unreached()
                    },
                }
                self.flags = self.flags | Datatype::HAS_STRIPPED;
                assert(types.has(ptrto));
                if types.get(ptrto).get_metatype() == TypeMetatype::Unknown {
                    self.submeta = SubMetatype::PtrRelUnk;
                }
                proof {
                    reveal(TypeFactory::kind_valid);
                    reveal(TypeFactory::firm_kind);
                    types.look(stripped);
                    let f = bare.flags;
                    assert((f | 0x100u32) & 4u32 == f & 4u32 && (f | 0x100u32) & 0x40000u32 == f & 0x40000u32)
                        by (bit_vector);
                    assert(*self == ephemeral_form(bare, stripped, before.dt(ptrto)));
                }
                Ok(())
            },
        }
    }
}

proof fn kept_rel_is_valid(before: TypeFactory, after: TypeFactory, d: Datatype)
    requires
        before.sound(),
        before.valid(d),
        d.kind is PointerRel,
        d.pointer().truncate is None,
        after.keeps(before),
    ensures
        after.valid(d),
{
    reveal(TypeFactory::kind_valid);
    reveal(TypeFactory::firm_kind);
    before.parts(d);
    let data = d.kind->PointerRel_0;
    assert(after.has(data.pointer.ptrto->0));
    assert(after.has(data.parent->0));
    if data.stripped is Some {
        assert(after.has(data.stripped->0));
    }
    if d.typedef_imm is Some {
        assert(after.has(d.typedef_imm->0));
    }
}

} // verus!

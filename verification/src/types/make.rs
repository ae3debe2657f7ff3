//! The data-types that can be asked of the factory.
use vstd::prelude::*;
use crate::error::{Error, Result};
use crate::ids::TypeId;
use crate::types::{Datatype, TypeFactory, TypeMetatype, TypePointerData};

verus! {

/// The properties of a pointer are those that any kind can have.
pub proof fn pointer_flags_plain(target: Datatype, base: u32)
    requires
        base & crate::types::grow::kind_bits() == 0,
    ensures
        crate::types::create::pointer_flags(target, base) & crate::types::grow::kind_bits() == 0,
{
    crate::types::grow::free_bits();
    crate::types::grow::freely_added(base, Datatype::POINTER_TO_ARRAY);
    crate::types::grow::freely_added(base, Datatype::NEEDS_RESOLUTION);
    crate::types::grow::freely_added(base | Datatype::POINTER_TO_ARRAY, Datatype::NEEDS_RESOLUTION);
}

pub proof fn inherited_flags_plain(flags: u32)
    ensures
        (flags & (Datatype::CORETYPE | Datatype::WARNING_ISSUED)) & crate::types::grow::kind_bits() == 0,
        (flags & Datatype::WARNING_ISSUED) & crate::types::grow::kind_bits() == 0,
{
    assert((flags & (1u32 | 0x20000u32)) & 0x40104u32 == 0 && (flags & 0x20000u32) & 0x40104u32 == 0) by (bit_vector);
}

/// A new pointer to a member is valid.
pub proof fn new_pointer_is_valid(types: TypeFactory, d: Datatype, size: i32, data: TypePointerData)
    requires
        types.sound(),
        size >= 0,
        types.pointer_valid(data),
        d.is_new_pointer(size, data, types.dt(data.ptrto->0)),
    ensures
        types.valid(d),
{
    reveal(TypeFactory::kind_valid);
    reveal(TypeFactory::firm_kind);
    let target = types.dt(data.ptrto->0);
    inherited_flags_plain(target.flags);
    pointer_flags_plain(target, target.flags & (Datatype::CORETYPE | Datatype::WARNING_ISSUED));
    crate::types::grow::free_flags_fit(d);
}

impl TypeFactory {
    /// The data-type that stands for another one where no detail is wanted.
    pub open spec fn plain_form(self, tp: TypeId) -> TypeId {
        if self.dt(tp).flag(Datatype::HAS_STRIPPED) {
            self.dt(tp).stripped()->0
        } else {
            tp
        }
    }

    pub fn strip(&self, tp: TypeId) -> (res: TypeId)
        requires
            self.sound(),
            self.has(tp),
        ensures
            res == self.plain_form(tp),
            self.member(res),
    {
        proof {
            self.look(tp);
            self.parts(self.dt(tp));
        }
        if self.get(tp).has_stripped() {
            self.get(tp).get_stripped().unwrap()
        } else {
            tp
        }
    }

    /// A base data-type of which only size and class are known.
    pub open spec fn is_base(d: Datatype, size: i32, meta: TypeMetatype, name: Seq<char>, id: u64) -> bool {
        d.kind is Base && d.made(
            id,
            size,
            -1,
            meta,
            crate::types::base_submeta(meta),
            0,
            name,
        )
    }

    /// A class that a base data-type can have.
    pub open spec fn base_class(meta: TypeMetatype) -> bool {
        meta is Float || meta is Bool || meta is Uint || meta is Int || meta is Unknown
    }

    /// What asking for an array does.
    pub open spec fn makes_array(self, before: TypeFactory, count: i32, ao: TypeId, res: Result<TypeId>) -> bool {
        let element = before.plain_form(ao);
        if Datatype::array_bytes(count, before.dt(element)) < 0 {
            self == before && Datatype::bad_size(res)
        } else {
            exists|tmp: Datatype| #[trigger]
                tmp.is_new_array(count, element, before.dt(element)) && self.adds(before, tmp, res)
        }
    }

    /// An array that can be asked for.
    pub open spec fn can_make_array(self, count: i32, ao: TypeId) -> bool {
        &&& self.ready()
        &&& self.has(ao)
        &&& self.arena@.len() < u32::MAX
        &&& count >= 0
    }

    pub fn get_type_array(&mut self, as_size: i32, ao: TypeId) -> (res: Result<TypeId>)
        requires
            old(self).can_make_array(as_size, ao),
        ensures
            final(self).ready(),
            final(self).extends(*old(self)),
            final(self).arena@.len() <= old(self).arena@.len() + 1,
            final(self).makes_array(*old(self), as_size, ao, res),
            res matches Ok(id) ==> final(self).member(id),
            old(self).firm() && !(old(self).dt(old(self).plain_form(ao)).kind is Spacebase) ==> final(self).firm(),
    {
        let element = self.strip(ao);
        let tmp = Datatype::new_array(as_size, element, self)?;
        proof {
            self.neat(element);
            reveal(TypeFactory::kind_valid);
            reveal(TypeFactory::firm_kind);
            assert(tmp.is_new_array(as_size, element, self.dt(element)));
            crate::types::grow::free_bits();
            crate::types::grow::free_flags_fit(tmp);
            assert(self.valid(tmp));
        }
        self.find_add(&tmp)
    }

    /// What asking for a base data-type does.
    pub open spec fn makes_base(self, before: TypeFactory, size: i32, meta: TypeMetatype, res: Result<TypeId>) -> bool {
        if 0 <= size < 9 && meta.rank() >= 10 && before.cached(size as int, meta) is Some {
            self == before && res == Ok::<TypeId, Error>(before.cached(size as int, meta)->0)
        } else if meta is Float && size == 10 {
            self == before && match before.typecache10 {
                Some(id) => res == Ok::<TypeId, Error>(id),
                None => res matches Err(e) && e.is_lowlevel("no cached 10-byte float data-type"@),
            }
        } else if meta is Float && size == 16 {
            self == before && match before.typecache16 {
                Some(id) => res == Ok::<TypeId, Error>(id),
                None => res matches Err(e) && e.is_lowlevel("no cached 16-byte float data-type"@),
            }
        } else if size > before.max_basetype_size {
            match before.cached(1, TypeMetatype::Unknown) {
                Some(unknown) => self.makes_array(before, size, unknown, res),
                None => self == before && (res matches Err(e) && e.is_lowlevel("no cached undefined1 data-type"@)),
            }
        } else if size < 0 {
            self == before && Datatype::bad_size(res)
        } else {
            exists|tmp: Datatype| #[trigger]
                TypeFactory::is_base(tmp, size, meta, Seq::empty(), 0) && self.adds(before, tmp, res)
        }
    }

    /// A base data-type that can be asked for.
    pub open spec fn can_make_base(self, size: i32, meta: TypeMetatype) -> bool {
        &&& self.ready()
        &&& self.arena@.len() < u32::MAX
        &&& TypeFactory::base_class(meta) || (0 <= size < 9 && meta.rank() >= 10 && self.cached(
            size as int,
            meta,
        ) is Some)
        &&& self.pads_twice(size)
    }

    /// Unknown bytes can stand for a data-type of a size: what they take up fits.
    pub open spec fn can_fill(self, size: i32) -> bool {
        size > self.max_basetype_size && self.cached(1, TypeMetatype::Unknown) is Some ==> size * self.dt(
            self.plain_form(self.cached(1, TypeMetatype::Unknown)->0),
        ).align_size <= i32::MAX
    }

    /// A size that can be padded, and whose padded form can be padded.
    pub open spec fn pads_twice(self, size: i32) -> bool {
        size >= 0 && self.align_map@.len() > 0 ==> self.pads(size) && self.pads(self.padded(size as u32) as i32)
    }

    pub fn get_base(&mut self, size: i32, metatype: TypeMetatype) -> (res: Result<TypeId>)
        requires
            old(self).can_make_base(size, metatype),
        ensures
            final(self).ready(),
            final(self).extends(*old(self)),
            final(self).arena@.len() <= old(self).arena@.len() + 1,
            final(self).makes_base(*old(self), size, metatype, res),
            res matches Ok(id) ==> final(self).member(id),
            old(self).firm() ==> final(self).firm(),
    {
        if 0 <= size && size < 9 {
            if metatype.position() >= 10 {
                if let Some(ct) = self.cache_lookup(size, metatype) {
                    return Ok(ct);
                }
            }
        } else if metatype == TypeMetatype::Float {
            proof {
                reveal(TypeFactory::sound);
                reveal(TypeFactory::indexed);
                if self.typecache10 is Some {
                    self.look(self.typecache10->0);
                }
                if self.typecache16 is Some {
                    self.look(self.typecache16->0);
                }
            }
            if size == 10 {
                return match self.typecache10 {
                    Some(ct) => Ok(ct),
                    None => Err(Error::lowlevel("no cached 10-byte float data-type")),
                };
            }
            if size == 16 {
                return match self.typecache16 {
                    Some(ct) => Ok(ct),
                    None => Err(Error::lowlevel("no cached 16-byte float data-type")),
                };
            }
        }
        if size > self.max_basetype_size {
            return match self.cache_lookup(1, TypeMetatype::Unknown) {
                None => Err(Error::lowlevel("no cached undefined1 data-type")),
                Some(unknown) => {
                    proof {
                        self.cache_fits(1, TypeMetatype::Unknown);
                        self.parts(self.dt(unknown));
                        reveal(TypeFactory::tidy);
                    }
                    self.get_type_array(size, unknown)
                },
            };
        }
        let tmp = Datatype::new_base(size, metatype)?;
        proof {
            base_is_valid(*self, tmp, size, metatype, Seq::empty(), 0);
            reveal(TypeFactory::firm_kind);
        }
        let res = self.find_add(&tmp);
        assert(TypeFactory::is_base(tmp, size, metatype, Seq::empty(), 0) && self.adds(*old(self), tmp, res));
        res
    }
}

/// What is given for unknown bytes can stand for a data-type of their size.
pub proof fn unknown_stands_in(before: TypeFactory, after: TypeFactory, size: i32, id: TypeId)
    requires
        before.sound(),
        after.sound(),
        after.has(id),
        after.makes_base(before, size, TypeMetatype::Unknown, Ok::<TypeId, Error>(id)),
        before.can_fill(size),
    ensures
        after.stands_in(id, size as int),
{
    after.look(id);
    if 0 <= size < 9 && before.cached(size as int, TypeMetatype::Unknown) is Some {
        before.cache_fits(size as int, TypeMetatype::Unknown);
    } else if size > before.max_basetype_size {
        let element = before.plain_form(before.cached(1, TypeMetatype::Unknown)->0);
        let tmp = choose|tmp: Datatype| #[trigger]
            tmp.is_new_array(size, element, before.dt(element)) && after.adds(before, tmp, Ok::<TypeId, Error>(id));
        before.cache_fits(1, TypeMetatype::Unknown);
        before.parts(before.dt(before.cached(1, TypeMetatype::Unknown)->0));
        let unit = before.dt(element).align_size;
        if size >= 1 {
            assert(size <= size * unit) by (nonlinear_arith)
                requires
                    size >= 1,
                    unit >= 1,
            ;
            assert(size.wrapping_mul(unit) == size * unit);
        }
        stands_as_asked(before, after, tmp, id);
    } else {
        let tmp = choose|tmp: Datatype| #[trigger]
            TypeFactory::is_base(tmp, size, TypeMetatype::Unknown, Seq::empty(), 0) && after.adds(
                before,
                tmp,
                Ok::<TypeId, Error>(id),
            );
        stands_as_asked(before, after, tmp, id);
    }
}

proof fn stands_as_asked(before: TypeFactory, after: TypeFactory, tmp: Datatype, id: TypeId)
    requires
        before.sound(),
        after.has(id),
        after.valid(after.dt(id)),
        tmp.kind is Array || tmp.kind is Base,
        tmp.submeta is Array || tmp.submeta is Unknown,
        tmp.name@.len() == 0,
        after.adds(before, tmp, Ok::<TypeId, Error>(id)),
    ensures
        after.stands_in(id, tmp.size as int),
{
    if before.found(tmp) is Some {
        let place = before.place(tmp, 0);
        before.tree_names_members(place as int);
        let d = before.dt(before.tree@[place as int]);
        assert(d.submeta.rank() == tmp.submeta.rank());
        assert(crate::types::compare::size_order(d, tmp) == 0);
        assert(tmp.size.wrapping_sub(d.size) == 0);
    } else {
        let d = choose|d: Datatype| #[trigger]
            before.completes(d, tmp) && after.inserts(before, d, Ok::<TypeId, Error>(id));
        before.cache_sizes();
        assert(after.arena@.last() == Some(d));
    }
}

/// A new base data-type is valid.
pub proof fn base_is_valid(types: TypeFactory, d: Datatype, size: i32, meta: TypeMetatype, name: Seq<char>, id: u64)
    requires
        TypeFactory::is_base(d, size, meta, name, id),
        TypeFactory::base_class(meta),
        size >= 0,
    ensures
        types.valid(d),
{
    reveal(TypeFactory::kind_valid);
    reveal(TypeFactory::firm_kind);
    crate::types::grow::free_bits();
    crate::types::grow::free_flags_fit(d);
}

/// The parts of a new pointer that can be added.
pub proof fn plain_pointer_fits(types: TypeFactory, d: Datatype, size: i32, pt: TypeId, ws: u32)
    requires
        types.sound(),
        types.has(pt),
        size >= 0,
        d.is_new_pointer(
            size,
            TypePointerData { ptrto: Some(pt), spaceid: None, truncate: None, wordsize: ws },
            types.dt(pt),
        ),
    ensures
        types.valid(d),
{
    new_pointer_is_valid(
        types,
        d,
        size,
        TypePointerData { ptrto: Some(pt), spaceid: None, truncate: None, wordsize: ws },
    );
}

impl TypeFactory {
    /// What asking for a pointer does, without the truncated form of the pointer.
    pub open spec fn makes_plain_pointer(
        self,
        before: TypeFactory,
        size: i32,
        pt: TypeId,
        ws: u32,
        name: Seq<char>,
        id: u64,
        res: Result<TypeId>,
    ) -> bool {
        if size < 0 {
            self == before && Datatype::bad_size(res)
        } else {
            exists|tmp: Datatype| #[trigger]
                before.is_pointer_to(tmp, size, pt, ws, name, id) && self.adds(before, tmp, res)
        }
    }

    /// A new pointer with a name and an id.
    pub open spec fn is_pointer_to(self, d: Datatype, size: i32, pt: TypeId, ws: u32, name: Seq<char>, id: u64) -> bool {
        let data = TypePointerData { ptrto: Some(pt), spaceid: None, truncate: None, wordsize: ws };
        self.is_named_pointer(d, size, data, name, id)
    }

    /// A new pointer with a name and an id.
    pub open spec fn is_named_pointer(
        self,
        d: Datatype,
        size: i32,
        data: TypePointerData,
        name: Seq<char>,
        id: u64,
    ) -> bool {
        d.is_made_pointer(id, name, size, data, self.dt(data.ptrto->0))
    }

    /// A pointer that can be asked for.
    pub open spec fn can_make_pointer(self, size: i32, pt: TypeId, ws: u32) -> bool {
        &&& self.ready()
        &&& self.has(pt)
        &&& self.arena@.len() < u32::MAX
        &&& self.pads_twice(size)
    }

    pub fn resize_pointer_parts(&mut self, ptrto: TypeId, wordsize: u32, new_size: i32) -> (res: Result<TypeId>)
        requires
            old(self).can_make_pointer(new_size, ptrto, wordsize),
        ensures
            final(self).ready(),
            final(self).extends(*old(self)),
            old(self).firm() ==> final(self).firm(),
            final(self).arena@.len() <= old(self).arena@.len() + 1,
            final(self).makes_plain_pointer(
                *old(self),
                new_size,
                old(self).plain_form(ptrto),
                wordsize,
                Seq::empty(),
                0,
                res,
            ),
            res matches Ok(id) ==> final(self).member(id),
            res matches Ok(id) ==> final(self).dt(id).is_pointer() && final(self).dt(id).size == new_size,
    {
        let pt = self.strip(ptrto);
        let tmp = Datatype::new_pointer(new_size, pt, wordsize, self)?;
        proof {
            reveal(TypeFactory::firm_kind);
            plain_pointer_fits(*self, tmp, new_size, pt, wordsize);
            assert(self.is_pointer_to(tmp, new_size, pt, wordsize, Seq::empty(), 0));
        }
        let res = self.find_add(&tmp);
        proof {
            assert(old(self).is_pointer_to(tmp, new_size, pt, wordsize, Seq::empty(), 0) && self.adds(
                *old(self),
                tmp,
                res,
            ));
            if res is Ok {
                added_pointer(*old(self), *self, tmp, res->Ok_0);
            }
        }
        res
    }

    /// A pointer of another size to the same data-type.
    pub fn resize_pointer(&mut self, ptr: TypeId, new_size: i32) -> (res: Result<TypeId>)
        requires
            old(self).has(ptr),
            old(self).dt(ptr).is_pointer(),
            old(self).ready(),
            old(self).arena@.len() < u32::MAX,
            old(self).pads_twice(new_size),
        ensures
            final(self).ready(),
            final(self).extends(*old(self)),
            old(self).firm() ==> final(self).firm(),
            final(self).arena@.len() <= old(self).arena@.len() + 1,
            final(self).makes_plain_pointer(
                *old(self),
                new_size,
                old(self).plain_form(old(self).dt(ptr).pointer().ptrto->0),
                old(self).dt(ptr).pointer().wordsize,
                Seq::empty(),
                0,
                res,
            ),
            res matches Ok(id) ==> final(self).member(id),
    {
        proof {
            self.look(ptr);
            self.parts(self.dt(ptr));
        }
        let dt = self.get(ptr);
        let ptrto = dt.get_ptr_to();
        let wordsize: u32 = dt.get_word_size();
        self.resize_pointer_parts(ptrto, wordsize, new_size)
    }
}

/// What the factory gives for an unnamed pointer is a pointer of that size.
pub proof fn added_pointer(before: TypeFactory, after: TypeFactory, tmp: Datatype, id: TypeId)
    requires
        before.sound(),
        tmp.kind is Pointer,
        tmp.submeta is Ptr || tmp.submeta is PtrStruct,
        tmp.name@.len() == 0,
        after.adds(before, tmp, Ok::<TypeId, Error>(id)),
    ensures
        after.has(id) ==> after.dt(id).is_pointer() && after.dt(id).size == tmp.size,
{
    if before.found(tmp) is Some {
        let place = before.place(tmp, 0);
        before.tree_names_members(place as int);
        let d = before.dt(before.tree@[place as int]);
        assert(d.submeta.rank() == tmp.submeta.rank());
        assert(d.kind is Pointer);
        assert(crate::types::compare::size_order(d, tmp) == 0);
        assert(tmp.size.wrapping_sub(d.size) == 0);
    } else {
        let d = choose|d: Datatype| #[trigger]
            before.completes(d, tmp) && after.inserts(before, d, Ok::<TypeId, Error>(id));
        before.cache_sizes();
        assert(after.arena@.last() == Some(d));
    }
}

} // verus!

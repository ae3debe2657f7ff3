//! The composite, named and particular data-types that the factory makes.
use vstd::prelude::*;
use crate::error::{Error, Result};
use crate::ids::TypeId;
use crate::space::SpaceRef;
use crate::text::is_empty_text;
use crate::types::{
    Datatype, SubMetatype, TypeCodeData, TypeFactory, TypeKind, TypeMetatype, TypePartialStructData,
    TypePartialUnionData, TypeSpacebaseData,
};

verus! {

impl Datatype {
    /// Where the part of a structure lies: a part of a part is a part of the whole.
    pub open spec fn whole_of(contain: TypeId, off: i32, types: TypeFactory) -> (TypeId, i32) {
        match types.dt(contain).kind {
            TypeKind::PartialStruct(partial) => (partial.container, off.wrapping_add(partial.offset)),
            _ => (contain, off),
        }
    }

    /// A new part of a structure or an array.
    pub open spec fn is_new_partial_struct(
        self,
        contain: TypeId,
        off: i32,
        sz: i32,
        strip: TypeId,
        types: TypeFactory,
    ) -> bool {
        let (container, offset) = Datatype::whole_of(contain, off, types);
        let whole = types.dt(container);
        let inherited = (whole.flags & Datatype::WARNING_ISSUED) | Datatype::HAS_STRIPPED;
        self.fresh(
            sz,
            1,
            TypeMetatype::PartialStruct,
            SubMetatype::PartialStruct,
            if whole.flag(Datatype::HAS_BITFIELDS) && crate::types::fields::touches(whole, offset, sz, types) {
                inherited | Datatype::HAS_BITFIELDS
            } else {
                inherited
            },
            Seq::empty(),
        ) && self.kind == TypeKind::PartialStruct(
            TypePartialStructData { stripped: strip, container, offset },
        )
    }

    /// A part of a structure or an array.
    pub fn new_partial_struct(contain: TypeId, off: i32, sz: i32, strip: TypeId, types: &TypeFactory) -> (res: Result<
        Datatype,
    >)
        requires
            types.sound(),
            types.has(contain),
            types.can_count(contain, sz),
        ensures
            sz < 0 ==> Datatype::bad_size(res),
            sz >= 0 ==> (res matches Ok(d) && d.is_new_partial_struct(contain, off, sz, strip, *types)),
    {
        let mut res = Datatype::new(sz, 1, TypeMetatype::PartialStruct)?;
        let mut container = contain;
        let mut offset: i32 = off;
        proof {
            types.look(contain);
            types.parts(types.dt(contain));
        }
        if let TypeKind::PartialStruct(partial) = &types.get(contain).kind {
            container = partial.container;
            offset = offset.wrapping_add(partial.offset);
        }
        let container_type = types.get(container);
        res.flags = container_type.inherit_for_partial();
        res.flags = res.flags | Datatype::HAS_STRIPPED;
        if container_type.has_bitfields() && container_type.has_bit_fields_in_range(offset, sz, types) {
            res.flags = res.flags | Datatype::HAS_BITFIELDS;
        }
        res.kind = TypeKind::PartialStruct(TypePartialStructData { stripped: strip, container, offset });
        Ok(res)
    }
}

/// The bits of a part of a data-type.
proof fn part_flags(flags: u32)
    ensures
        ({
            let f = (flags & Datatype::WARNING_ISSUED) | Datatype::HAS_STRIPPED;
            f & Datatype::ENUMTYPE == 0 && f & Datatype::HAS_BITFIELDS == 0 && (f | Datatype::HAS_BITFIELDS)
                & Datatype::ENUMTYPE == 0
        }),
        ({
            let f = (flags & Datatype::WARNING_ISSUED) | (Datatype::NEEDS_RESOLUTION | Datatype::HAS_STRIPPED);
            f & Datatype::ENUMTYPE == 0 && f & Datatype::HAS_BITFIELDS == 0
        }),
        ({
            let f = Datatype::ENUMTYPE | (flags & Datatype::WARNING_ISSUED) | Datatype::HAS_STRIPPED;
            f & Datatype::HAS_BITFIELDS == 0
        }),
        Datatype::ENUMTYPE & Datatype::HAS_STRIPPED == 0,
        Datatype::ENUMTYPE & Datatype::HAS_BITFIELDS == 0,
{
    assert(((flags & 0x20000u32) | 0x100u32) & 4u32 == 0 && ((flags & 0x20000u32) | 0x100u32) & 0x40000u32 == 0 && (((
    flags & 0x20000u32) | 0x100u32) | 0x40000u32) & 4u32 == 0 && ((flags & 0x20000u32) | (0x800u32 | 0x100u32)) & 4u32
        == 0 && ((flags & 0x20000u32) | (0x800u32 | 0x100u32)) & 0x40000u32 == 0 && (4u32 | (flags & 0x20000u32)
        | 0x100u32) & 0x40000u32 == 0 && 4u32 & 0x100u32 == 0 && 4u32 & 0x40000u32 == 0) by (bit_vector);
}

impl TypeFactory {
    /// The id that belongs to a name.
    pub open spec fn id_for(name: Seq<char>) -> u64 {
        crate::types::read::name_hash(name)
    }

    /// A structure without fields.
    pub open spec fn is_empty_struct(d: Datatype, name: Seq<char>) -> bool {
        &&& d.made(
            TypeFactory::id_for(name),
            0,
            -1,
            TypeMetatype::Struct,
            SubMetatype::Struct,
            Datatype::TYPE_INCOMPLETE,
            name,
        )
        &&& d.kind is Struct
        &&& d.fields().len() == 0
        &&& d.bitfields().len() == 0
    }

    /// A union without fields.
    pub open spec fn is_empty_union(d: Datatype, name: Seq<char>) -> bool {
        &&& d.made(
            TypeFactory::id_for(name),
            0,
            -1,
            TypeMetatype::Union,
            SubMetatype::Union,
            Datatype::TYPE_INCOMPLETE | Datatype::NEEDS_RESOLUTION,
            name,
        )
        &&& d.kind is Union
        &&& d.fields().len() == 0
    }

    /// There is room for another data-type of a size.
    pub open spec fn has_room(self, size: i32) -> bool {
        &&& self.ready()
        &&& self.arena@.len() < u32::MAX
        &&& self.pads_twice(size)
    }

    /// The structure with a name, which has no fields if it is new.
    pub fn get_type_struct(&mut self, name: &str) -> (res: Result<TypeId>)
        requires
            old(self).has_room(0),
        ensures
            final(self).ready(),
            final(self).extends(*old(self)),
            old(self).firm() ==> final(self).firm(),
            exists|tmp: Datatype| #[trigger]
                TypeFactory::is_empty_struct(tmp, name@) && final(self).adds(*old(self), tmp, res),
            res matches Ok(id) ==> final(self).member(id),
    {
        let mut tmp = Datatype::new_struct()?;
        tmp.name = name.to_owned();
        tmp.display_name = name.to_owned();
        tmp.id = Datatype::hash_name(name);
        proof {
            reveal(TypeFactory::kind_valid);
            reveal(TypeFactory::firm_kind);
            crate::types::grow::free_bits();
            crate::types::grow::free_flags_fit(tmp);
            assert(TypeFactory::is_empty_struct(tmp, name@));
        }
        self.find_add(&tmp)
    }

    /// The union with a name, which has no fields if it is new.
    pub fn get_type_union(&mut self, name: &str) -> (res: Result<TypeId>)
        requires
            old(self).has_room(0),
        ensures
            final(self).ready(),
            final(self).extends(*old(self)),
            old(self).firm() ==> final(self).firm(),
            exists|tmp: Datatype| #[trigger]
                TypeFactory::is_empty_union(tmp, name@) && final(self).adds(*old(self), tmp, res),
            res matches Ok(id) ==> final(self).member(id),
    {
        let mut tmp = Datatype::new_union()?;
        tmp.name = name.to_owned();
        tmp.display_name = name.to_owned();
        tmp.id = Datatype::hash_name(name);
        proof {
            reveal(TypeFactory::kind_valid);
            reveal(TypeFactory::firm_kind);
            crate::types::grow::free_bits();
            crate::types::grow::free_flags_fit(tmp);
            assert(TypeFactory::is_empty_union(tmp, name@));
        }
        self.find_add(&tmp)
    }

    /// A base data-type with a name.
    pub fn get_base_named(&mut self, size: i32, metatype: TypeMetatype, name: &str) -> (res: Result<TypeId>)
        requires
            old(self).has_room(size),
            TypeFactory::base_class(metatype),
        ensures
            final(self).ready(),
            final(self).extends(*old(self)),
            old(self).firm() ==> final(self).firm(),
            if size < 0 {
                *final(self) == *old(self) && Datatype::bad_size(res)
            } else {
                exists|tmp: Datatype| #[trigger]
                    TypeFactory::is_base(tmp, size, metatype, name@, TypeFactory::id_for(name@)) && final(self).adds(
                        *old(self),
                        tmp,
                        res,
                    )
            },
            res matches Ok(id) ==> final(self).member(id),
    {
        let mut tmp = Datatype::new_base_named(size, metatype, name)?;
        tmp.id = Datatype::hash_name(name);
        proof {
            reveal(TypeFactory::firm_kind);
            crate::types::make::base_is_valid(*self, tmp, size, metatype, name@, TypeFactory::id_for(name@));
        }
        let res = self.find_add(&tmp);
        assert(TypeFactory::is_base(tmp, size, metatype, name@, TypeFactory::id_for(name@)) && self.adds(
            *old(self),
            tmp,
            res,
        ));
        res
    }

    /// The integer of one byte that is no character, where there is one, or else
    /// the base data-type.
    pub fn get_base_no_char(&mut self, size: i32, metatype: TypeMetatype) -> (res: Result<TypeId>)
        requires
            old(self).can_make_base(size, metatype),
        ensures
            final(self).ready(),
            final(self).extends(*old(self)),
            old(self).firm() ==> final(self).firm(),
            final(self).arena@.len() <= old(self).arena@.len() + 1,
            if size == 1 && metatype is Int && old(self).type_nochar is Some {
                *final(self) == *old(self) && res == Ok::<TypeId, Error>(old(self).type_nochar->0)
            } else {
                final(self).makes_base(*old(self), size, metatype, res)
            },
            res matches Ok(id) ==> final(self).member(id),
    {
        if size == 1 && metatype == TypeMetatype::Int {
            if let Some(nochar) = self.type_nochar {
                proof {
                    reveal(TypeFactory::sound);
                    reveal(TypeFactory::indexed);
                    self.look(nochar);
                }
                return Ok(nochar);
            }
        }
        self.get_base(size, metatype)
    }

    /// The character data-type of a size.
    pub fn get_type_char(&mut self, size: i32) -> (res: Result<TypeId>)
        requires
            old(self).sound(),
        ensures
            *final(self) == *old(self),
            if 0 <= size < 5 && old(self).charcache@[size as int] is Some {
                res == Ok::<TypeId, Error>(old(self).charcache@[size as int]->0)
            } else {
                res matches Err(e) && e.is_lowlevel("Request for unsupported character data-type"@)
            },
            res matches Ok(id) ==> final(self).member(id) && final(self).dt(id).size == size,
    {
        proof {
            self.cache_sizes();
        }
        if 0 <= size && size < 5 {
            if let Some(res) = self.charcache[size as usize] {
                proof {
                    reveal(TypeFactory::sound);
                    reveal(TypeFactory::indexed);
                    assert(self.charcache@[size as int] is Some);
                    self.look(res);
                }
                return Ok(res);
            }
        }
        Err(Error::lowlevel("Request for unsupported character data-type"))
    }

    /// A named character of one byte.
    pub open spec fn is_named_char(d: Datatype, name: Seq<char>) -> bool {
        d.made(
            TypeFactory::id_for(name),
            1,
            -1,
            TypeMetatype::Int,
            SubMetatype::IntChar,
            Datatype::CHARTYPE,
            name,
        ) && d.kind is Char
    }

    pub fn get_type_char_named(&mut self, name: &str) -> (res: Result<TypeId>)
        requires
            old(self).has_room(1),
        ensures
            final(self).ready(),
            final(self).extends(*old(self)),
            old(self).firm() ==> final(self).firm(),
            exists|tmp: Datatype| #[trigger]
                TypeFactory::is_named_char(tmp, name@) && final(self).adds(*old(self), tmp, res),
            res matches Ok(id) ==> final(self).member(id),
    {
        let mut tc = Datatype::new_char(name)?;
        tc.id = Datatype::hash_name(name);
        proof {
            reveal(TypeFactory::kind_valid);
            reveal(TypeFactory::firm_kind);
            crate::types::grow::free_bits();
            crate::types::grow::free_flags_fit(tc);
            assert(TypeFactory::is_named_char(tc, name@));
        }
        self.find_add(&tc)
    }

    /// A named character of any size.
    pub open spec fn is_named_unicode(d: Datatype, name: Seq<char>, size: i32, meta: TypeMetatype) -> bool {
        d.made(
            TypeFactory::id_for(name),
            size,
            -1,
            meta,
            if meta is Int {
                SubMetatype::IntUnicode
            } else {
                SubMetatype::UintUnicode
            },
            Datatype::unicode_flags(size),
            name,
        ) && d.kind is Unicode
    }

    pub fn get_type_unicode(&mut self, nm: &str, sz: i32, metatype: TypeMetatype) -> (res: Result<TypeId>)
        requires
            old(self).has_room(sz),
            metatype is Int || metatype is Uint,
        ensures
            final(self).ready(),
            final(self).extends(*old(self)),
            old(self).firm() ==> final(self).firm(),
            if sz < 0 {
                *final(self) == *old(self) && Datatype::bad_size(res)
            } else {
                exists|tmp: Datatype| #[trigger]
                    TypeFactory::is_named_unicode(tmp, nm@, sz, metatype) && final(self).adds(*old(self), tmp, res)
            },
            res matches Ok(id) ==> final(self).member(id),
    {
        let mut tu = Datatype::new_unicode(nm, sz, metatype)?;
        tu.id = Datatype::hash_name(nm);
        proof {
            reveal(TypeFactory::kind_valid);
            reveal(TypeFactory::firm_kind);
            crate::types::grow::free_bits();
            crate::types::grow::free_flags_fit(tu);
            assert(TypeFactory::is_named_unicode(tu, nm@, sz, metatype));
        }
        self.find_add(&tu)
    }

    /// Code without a prototype.
    pub open spec fn is_bare_code(d: Datatype, name: Seq<char>, id: u64) -> bool {
        d.made(
            id,
            1,
            1,
            TypeMetatype::Code,
            SubMetatype::Code,
            Datatype::TYPE_INCOMPLETE & !Datatype::TYPE_INCOMPLETE,
            name,
        ) && d.kind == TypeKind::Code(TypeCodeData { proto: None, signature: None, factory: false })
    }

    /// What asking for code without a prototype does.
    pub open spec fn makes_code(self, before: TypeFactory, res: Result<TypeId>) -> bool {
        match before.cached(1, TypeMetatype::Code) {
            Some(ct) => self == before && res == Ok::<TypeId, Error>(ct),
            None => exists|tmp: Datatype| #[trigger]
                TypeFactory::is_bare_code(tmp, Seq::empty(), 0) && self.adds(before, tmp, res),
        }
    }

    pub fn get_type_code(&mut self) -> (res: Result<TypeId>)
        requires
            old(self).has_room(1),
        ensures
            final(self).ready(),
            final(self).extends(*old(self)),
            old(self).firm() ==> final(self).firm(),
            final(self).makes_code(*old(self), res),
            res matches Ok(id) ==> final(self).member(id),
    {
        if let Some(ct) = self.cache_lookup(1, TypeMetatype::Code) {
            return Ok(ct);
        }
        let mut tmp = Datatype::new_code()?;
        tmp.mark_complete();
        proof {
            reveal(TypeFactory::firm_kind);
            bare_code_is_valid(*self, tmp, Seq::empty(), 0);
        }
        let res = self.find_add(&tmp);
        assert(TypeFactory::is_bare_code(tmp, Seq::empty(), 0) && self.adds(*old(self), tmp, res));
        res
    }

    /// Code without a prototype, with a name.
    pub fn get_type_code_named(&mut self, name: &str) -> (res: Result<TypeId>)
        requires
            old(self).has_room(1),
        ensures
            final(self).ready(),
            final(self).extends(*old(self)),
            old(self).firm() ==> final(self).firm(),
            if name@.len() == 0 {
                final(self).makes_code(*old(self), res)
            } else {
                exists|tmp: Datatype| #[trigger]
                    TypeFactory::is_bare_code(tmp, name@, TypeFactory::id_for(name@)) && final(self).adds(
                        *old(self),
                        tmp,
                        res,
                    )
            },
            res matches Ok(id) ==> final(self).member(id),
    {
        if is_empty_text(name) {
            return self.get_type_code();
        }
        let mut tmp = Datatype::new_code()?;
        tmp.name = name.to_owned();
        tmp.display_name = name.to_owned();
        tmp.id = Datatype::hash_name(name);
        tmp.mark_complete();
        proof {
            reveal(TypeFactory::firm_kind);
            bare_code_is_valid(*self, tmp, name@, TypeFactory::id_for(name@));
        }
        let res = self.find_add(&tmp);
        assert(TypeFactory::is_bare_code(tmp, name@, TypeFactory::id_for(name@)) && self.adds(*old(self), tmp, res));
        res
    }

    /// A named enumeration without values.
    pub open spec fn is_empty_enum(d: Datatype, size: i32, meta: TypeMetatype, name: Seq<char>) -> bool {
        d.made(
            TypeFactory::id_for(name),
            size,
            -1,
            Datatype::enum_class(meta),
            crate::types::base_submeta(meta),
            Datatype::ENUMTYPE,
            name,
        ) && (d.kind matches TypeKind::Enum(data) && data.namemap.entries@.len() == 0)
    }

    /// The enumeration with a name, which has no values if it is new.
    pub fn get_type_enum(&mut self, name: &str) -> (res: Result<TypeId>)
        requires
            old(self).has_room(old(self).enumsize),
            old(self).enumtype is EnumInt || old(self).enumtype is EnumUint,
        ensures
            final(self).ready(),
            final(self).extends(*old(self)),
            old(self).firm() ==> final(self).firm(),
            if old(self).enumsize < 0 {
                *final(self) == *old(self) && Datatype::bad_size(res)
            } else {
                exists|tmp: Datatype| #[trigger]
                    TypeFactory::is_empty_enum(tmp, old(self).enumsize, old(self).enumtype, name@) && final(self).adds(*old(self), tmp, res)
            },
            res matches Ok(id) ==> final(self).member(id),
    {
        let mut tmp = Datatype::new_enum_named(self.enumsize, self.enumtype, name)?;
        tmp.id = Datatype::hash_name(name);
        proof {
            reveal(TypeFactory::kind_valid);
            reveal(TypeFactory::firm_kind);
            part_flags(0);
            assert(TypeFactory::is_empty_enum(tmp, self.enumsize, self.enumtype, name@));
        }
        self.find_add(&tmp)
    }

    /// The symbols of a scope that live in a space, as one data-type.
    pub fn get_type_spacebase(&mut self, spc: &SpaceRef, scope: u64) -> (res: Result<TypeId>)
        requires
            old(self).has_room(0),
            spc.valid(),
        ensures
            final(self).ready(),
            final(self).extends(*old(self)),
            old(self).firm() ==> final(self).firm(),
            exists|tmp: Datatype| #[trigger]
                TypeFactory::is_spacebase(tmp, *spc, scope) && final(self).adds(*old(self), tmp, res),
            res matches Ok(id) ==> final(self).member(id),
    {
        let tsb = Datatype::new_spacebase(spc, scope)?;
        proof {
            reveal(TypeFactory::kind_valid);
            reveal(TypeFactory::firm_kind);
            crate::types::grow::free_bits();
            crate::types::grow::free_flags_fit(tsb);
            assert(TypeFactory::is_spacebase(tsb, *spc, scope));
        }
        self.find_add(&tsb)
    }

    pub open spec fn is_spacebase(d: Datatype, spc: SpaceRef, scope: u64) -> bool {
        d.fresh(0, 1, TypeMetatype::Spacebase, SubMetatype::Spacebase, 0, Seq::empty()) && d.kind
            == TypeKind::Spacebase(TypeSpacebaseData { spaceid: Some(spc), scope_id: scope })
    }
}

/// Code without a prototype is valid.
proof fn bare_code_is_valid(types: TypeFactory, d: Datatype, name: Seq<char>, id: u64)
    requires
        TypeFactory::is_bare_code(d, name, id),
    ensures
        types.valid(d),
{
    reveal(TypeFactory::kind_valid);
    reveal(TypeFactory::firm_kind);
    assert((0x400u32 & !0x400u32) == 0) by (bit_vector);
    crate::types::grow::free_bits();
    crate::types::grow::free_flags_fit(d);
}

impl TypeFactory {
    /// What asking for a part of a structure does: first for what stands for it
    /// where no detail is wanted.
    pub open spec fn makes_partial_struct(
        self,
        before: TypeFactory,
        contain: TypeId,
        off: i32,
        sz: i32,
        res: Result<TypeId>,
    ) -> bool {
        exists|mid: TypeFactory, r: Result<TypeId>| #[trigger]
            mid.makes_base(before, sz, TypeMetatype::Unknown, r) && match r {
                Err(e) => self == mid && res == Err::<TypeId, Error>(e),
                Ok(strip) => exists|tmp: Datatype| #[trigger]
                    tmp.is_new_partial_struct(contain, off, sz, strip, mid) && self.adds(mid, tmp, res),
            }
    }

    /// A part that can be asked for.
    pub open spec fn can_make_part(self, contain: TypeId, sz: i32) -> bool {
        &&& self.can_make_base(sz, TypeMetatype::Unknown)
        &&& self.has(contain)
        &&& self.arena@.len() < u32::MAX - 1
        &&& self.can_fill(sz)
    }

    /// The bits of a part can be counted, where bit fields make that necessary.
    pub open spec fn can_count(self, contain: TypeId, sz: i32) -> bool {
        self.dt(Datatype::whole_of(contain, 0, self).0).flag(Datatype::HAS_BITFIELDS) ==> sz < 0x1000_0000 && self.firm()
    }

    pub fn get_type_partial_struct(&mut self, contain: TypeId, off: i32, sz: i32) -> (res: Result<TypeId>)
        requires
            old(self).can_make_part(contain, sz),
            old(self).can_count(contain, sz),
            !(old(self).dt(contain).kind is Spacebase),
        ensures
            final(self).ready(),
            final(self).extends(*old(self)),
            old(self).firm() ==> final(self).firm(),
            final(self).makes_partial_struct(*old(self), contain, off, sz, res),
            res matches Ok(id) ==> final(self).member(id),
    {
        let ghost before = *self;
        let made = self.get_base(sz, TypeMetatype::Unknown);
        let ghost mid = *self;
        proof {
            assert(mid.makes_base(before, sz, TypeMetatype::Unknown, made));
            assert(mid.arena@[contain.0 as int] == before.arena@[contain.0 as int]);
            mid.look(contain);
            mid.parts(mid.dt(contain));
        }
        let strip = made?;
        proof {
            base_is_not_negative(before, mid, sz, TypeMetatype::Unknown, strip);
            crate::types::make::unknown_stands_in(before, mid, sz, strip);
        }
        let tps = Datatype::new_partial_struct(contain, off, sz, strip, self)?;
        proof {
            reveal(TypeFactory::kind_valid);
            reveal(TypeFactory::firm_kind);
            let (container, offset) = Datatype::whole_of(contain, off, mid);
            part_flags(mid.dt(container).flags);
            assert(tps.is_new_partial_struct(contain, off, sz, strip, mid));
        }
        let res = self.find_add(&tps);
        proof {
            extending_twice(before, mid, *self);
            assert(tps.is_new_partial_struct(contain, off, sz, strip, mid) && self.adds(mid, tps, res));
        }
        res
    }

    /// A new part of a union.
    pub open spec fn is_partial_union(d: Datatype, contain: TypeId, off: i32, sz: i32, strip: TypeId, types: TypeFactory) -> bool {
        d.fresh(
            sz,
            1,
            TypeMetatype::PartialUnion,
            SubMetatype::PartialUnion,
            (types.dt(contain).flags & Datatype::WARNING_ISSUED) | (Datatype::NEEDS_RESOLUTION
                | Datatype::HAS_STRIPPED),
            Seq::empty(),
        ) && d.kind == TypeKind::PartialUnion(
            TypePartialUnionData { stripped: strip, container: contain, offset: off },
        )
    }

    /// What asking for a part of a union does.
    pub open spec fn makes_partial_union(
        self,
        before: TypeFactory,
        contain: TypeId,
        off: i32,
        sz: i32,
        res: Result<TypeId>,
    ) -> bool {
        exists|mid: TypeFactory, r: Result<TypeId>| #[trigger]
            mid.makes_base(before, sz, TypeMetatype::Unknown, r) && match r {
                Err(e) => self == mid && res == Err::<TypeId, Error>(e),
                Ok(strip) => exists|tmp: Datatype| #[trigger]
                    TypeFactory::is_partial_union(tmp, contain, off, sz, strip, mid) && self.adds(mid, tmp, res),
            }
    }

    pub fn get_type_partial_union(&mut self, contain: TypeId, off: i32, sz: i32) -> (res: Result<TypeId>)
        requires
            old(self).can_make_part(contain, sz),
            old(self).dt(contain).kind is Union,
        ensures
            final(self).ready(),
            final(self).extends(*old(self)),
            old(self).firm() ==> final(self).firm(),
            final(self).makes_partial_union(*old(self), contain, off, sz, res),
            res matches Ok(id) ==> final(self).member(id),
    {
        let ghost before = *self;
        let made = self.get_base(sz, TypeMetatype::Unknown);
        let ghost mid = *self;
        proof {
            assert(mid.makes_base(before, sz, TypeMetatype::Unknown, made));
            assert(mid.arena@[contain.0 as int] == before.arena@[contain.0 as int]);
        }
        let strip = made?;
        proof {
            base_is_not_negative(before, mid, sz, TypeMetatype::Unknown, strip);
            crate::types::make::unknown_stands_in(before, mid, sz, strip);
        }
        let tpu = Datatype::new_partial_union(contain, off, sz, strip, self)?;
        proof {
            reveal(TypeFactory::kind_valid);
            reveal(TypeFactory::firm_kind);
            part_flags(mid.dt(contain).flags);
            assert(TypeFactory::is_partial_union(tpu, contain, off, sz, strip, mid));
        }
        let res = self.find_add(&tpu);
        proof {
            extending_twice(before, mid, *self);
            assert(TypeFactory::is_partial_union(tpu, contain, off, sz, strip, mid) && self.adds(mid, tpu, res));
        }
        res
    }

    /// A new part of an enumeration.
    pub open spec fn is_partial_enum(d: Datatype, par: TypeId, off: i32, sz: i32, strip: TypeId, types: TypeFactory) -> bool {
        d.fresh(
            sz,
            -1,
            TypeMetatype::Uint,
            SubMetatype::UintPartialEnum,
            Datatype::ENUMTYPE | (types.dt(par).flags & Datatype::WARNING_ISSUED) | Datatype::HAS_STRIPPED,
            Seq::empty(),
        ) && (d.kind matches TypeKind::PartialEnum(data) && data.stripped == strip && data.parent == par && data.offset
            == off && data.enum_data.namemap.entries@.len() == 0)
    }

    /// What asking for a part of an enumeration does.
    pub open spec fn makes_partial_enum(
        self,
        before: TypeFactory,
        contain: TypeId,
        off: i32,
        sz: i32,
        res: Result<TypeId>,
    ) -> bool {
        exists|mid: TypeFactory, r: Result<TypeId>| #[trigger]
            mid.makes_base(before, sz, TypeMetatype::Unknown, r) && match r {
                Err(e) => self == mid && res == Err::<TypeId, Error>(e),
                Ok(strip) => exists|tmp: Datatype| #[trigger]
                    TypeFactory::is_partial_enum(tmp, contain, off, sz, strip, mid) && self.adds(mid, tmp, res),
            }
    }

    pub fn get_type_partial_enum(&mut self, contain: TypeId, off: i32, sz: i32) -> (res: Result<TypeId>)
        requires
            old(self).can_make_part(contain, sz),
            old(self).dt(contain).kind is Enum || old(self).dt(contain).kind is PartialEnum,
        ensures
            final(self).ready(),
            final(self).extends(*old(self)),
            old(self).firm() ==> final(self).firm(),
            final(self).makes_partial_enum(*old(self), contain, off, sz, res),
            res matches Ok(id) ==> final(self).member(id),
    {
        let ghost before = *self;
        let made = self.get_base(sz, TypeMetatype::Unknown);
        let ghost mid = *self;
        proof {
            assert(mid.makes_base(before, sz, TypeMetatype::Unknown, made));
            assert(mid.arena@[contain.0 as int] == before.arena@[contain.0 as int]);
        }
        let strip = made?;
        proof {
            base_is_not_negative(before, mid, sz, TypeMetatype::Unknown, strip);
            crate::types::make::unknown_stands_in(before, mid, sz, strip);
        }
        let tpe = Datatype::new_partial_enum(contain, off, sz, strip, self)?;
        proof {
            reveal(TypeFactory::kind_valid);
            reveal(TypeFactory::firm_kind);
            part_flags(mid.dt(contain).flags);
            assert(TypeFactory::is_partial_enum(tpe, contain, off, sz, strip, mid));
        }
        let res = self.find_add(&tpe);
        proof {
            extending_twice(before, mid, *self);
            assert(TypeFactory::is_partial_enum(tpe, contain, off, sz, strip, mid) && self.adds(mid, tpe, res));
        }
        res
    }
}

/// Growing twice is growing.
pub proof fn extending_twice(a: TypeFactory, b: TypeFactory, c: TypeFactory)
    requires
        b.extends(a),
        c.extends(b),
    ensures
        c.extends(a),
{
    assert forall|i: int| 0 <= i < a.arena@.len() implies #[trigger] c.arena@[i] == a.arena@[i] by {
        assert(b.arena@[i] == a.arena@[i]);
    }
    assert forall|id: TypeId| a.has(id) implies #[trigger] c.depth@[id] == a.depth@[id] by {
        assert(b.arena@[id.0 as int] == a.arena@[id.0 as int]);
        assert(b.has(id));
        assert(b.depth@[id] == a.depth@[id]);
    }
}

/// Only a size that is not negative gives a base data-type.
proof fn base_is_not_negative(before: TypeFactory, after: TypeFactory, size: i32, meta: TypeMetatype, id: TypeId)
    requires
        before.ready(),
        after.makes_base(before, size, meta, Ok::<TypeId, Error>(id)),
    ensures
        size >= 0,
{
    reveal(TypeFactory::tidy);
}

} // verus!

//! Whether data-types that come from outside can stand in a factory.
use vstd::prelude::*;
use crate::error::Error;
use crate::ids::TypeId;
use crate::types::{
    base2sub, Datatype, SubMetatype, TypeBitField, TypeFactory, TypeField, TypeKind, TypeMetatype, TypePointerData,
};

verus! {

/// An error where a data-type cannot stand in a factory.
pub open spec fn malformed(e: Error) -> bool {
    e.is_lowlevel("Malformed data-type"@)
}

pub fn malformed_type() -> (res: Error)
    ensures
        malformed(res),
{
    Error::lowlevel("Malformed data-type")
}

impl Datatype {
    fn has_fitting_class(&self) -> (res: bool)
        ensures
            res == self.class_fits(),
    {
        let meta = self.metatype;
        match &self.kind {
            TypeKind::Base | TypeKind::Char | TypeKind::Unicode => meta == TypeMetatype::Float || meta
                == TypeMetatype::Bool || meta == TypeMetatype::Uint || meta == TypeMetatype::Int || meta
                == TypeMetatype::Unknown || meta == TypeMetatype::PartialStruct || meta == TypeMetatype::PartialUnion,
            TypeKind::Void => meta == TypeMetatype::Void,
            TypeKind::Pointer(_) => meta == TypeMetatype::Ptr,
            TypeKind::Array(_) => meta == TypeMetatype::Array,
            TypeKind::Enum(_) => meta == TypeMetatype::Int || meta == TypeMetatype::Uint,
            TypeKind::Struct(_) => meta == TypeMetatype::Struct,
            TypeKind::Union(_) => meta == TypeMetatype::Union,
            TypeKind::PartialEnum(_) => meta == TypeMetatype::Int || meta == TypeMetatype::Uint,
            TypeKind::PartialStruct(_) => meta == TypeMetatype::PartialStruct,
            TypeKind::PartialUnion(_) => meta == TypeMetatype::PartialUnion,
            TypeKind::PointerRel(_) => meta == TypeMetatype::Ptr,
            TypeKind::Code(_) => meta == TypeMetatype::Code,
            TypeKind::Spacebase(_) => meta == TypeMetatype::Spacebase,
        }
    }

    fn has_fitting_submeta(&self) -> (res: bool)
        ensures
            res == self.submeta_fits(),
    {
        let sub = self.submeta;
        match &self.kind {
            TypeKind::Base => sub == base2sub(self.metatype),
            TypeKind::Char => sub == SubMetatype::IntChar || sub == SubMetatype::UintChar,
            TypeKind::Unicode => sub == SubMetatype::IntUnicode || sub == SubMetatype::UintUnicode,
            TypeKind::Void => sub == SubMetatype::Void,
            TypeKind::Pointer(_) => sub == SubMetatype::Ptr || sub == SubMetatype::PtrStruct,
            TypeKind::Array(_) => sub == SubMetatype::Array,
            TypeKind::Enum(_) => sub == SubMetatype::IntEnum || sub == SubMetatype::UintEnum,
            TypeKind::Struct(_) => sub == SubMetatype::Struct,
            TypeKind::Union(_) => sub == SubMetatype::Union,
            TypeKind::PartialEnum(_) => sub == SubMetatype::UintPartialEnum,
            TypeKind::PartialStruct(_) => sub == SubMetatype::PartialStruct,
            TypeKind::PartialUnion(_) => sub == SubMetatype::PartialUnion,
            TypeKind::PointerRel(_) => sub == SubMetatype::PtrRel || sub == SubMetatype::PtrRelUnk,
            TypeKind::Code(_) => sub == SubMetatype::Code,
            TypeKind::Spacebase(_) => sub == SubMetatype::Spacebase,
        }
    }

    fn has_fitting_flags(&self) -> (res: bool)
        ensures
            res == self.flags_fit(),
    {
        let strippable = match &self.kind {
            TypeKind::PartialEnum(_) => true,
            TypeKind::PartialStruct(_) => true,
            TypeKind::PartialUnion(_) => true,
            TypeKind::PointerRel(data) => data.stripped.is_some(),
            _ => false,
        };
        let named = match &self.kind {
            TypeKind::Enum(_) => true,
            TypeKind::PartialEnum(_) => true,
            _ => false,
        };
        let fielded = match &self.kind {
            TypeKind::Struct(_) => true,
            TypeKind::PartialStruct(_) => true,
            _ => false,
        };
        ((self.flags & Datatype::HAS_STRIPPED) == 0 || strippable) && ((self.flags & Datatype::ENUMTYPE) == 0 || named)
            && ((self.flags & Datatype::HAS_BITFIELDS) == 0 || fielded)
    }
}

impl TypeFactory {
    /// Whether a handle names a data-type.
    pub fn knows(&self, id: TypeId) -> (res: bool)
        ensures
            res == self.has(id),
    {
        (id.0 as usize) < self.arena.len() && self.arena[id.0 as usize].is_some()
    }

    fn knows_option(&self, id: Option<TypeId>) -> (res: bool)
        ensures
            res == self.has_option(id),
    {
        match id {
            Some(id) => self.knows(id),
            None => true,
        }
    }

    fn vet_pointer(&self, data: &TypePointerData) -> (res: bool)
        ensures
            res == self.pointer_valid(*data),
    {
        let target = match data.ptrto {
            Some(id) => self.knows(id),
            None => false,
        };
        let space = match &data.spaceid {
            Some(spc) => spc.word_size >= 1 && spc.addr_size <= 0x7fff_ffff,
            None => true,
        };
        let short = match data.truncate {
            Some(id) => self.knows(id) && match &self.get(id).kind {
                TypeKind::Pointer(inner) => inner.truncate.is_none(),
                TypeKind::PointerRel(inner) => inner.pointer.truncate.is_none(),
                _ => false,
            },
            None => true,
        };
        target && space && short
    }

    fn vet_fields(&self, fields: &Vec<TypeField>) -> (res: bool)
        ensures
            res == self.fields_known(fields@),
    {
        let mut i: usize = 0;
        while i < fields.len()
            invariant
                i <= fields@.len(),
                forall|k: int| #![trigger fields@[k]] 0 <= k < i ==> self.has(fields@[k].tp) && 0 <= fields@[k].offset,
            decreases fields@.len() - i,
        {
            if !self.knows(fields[i].tp) || fields[i].offset < 0 {
                assert(!(self.has(fields@[i as int].tp) && 0 <= fields@[i as int].offset));
                return false;
            }
            i = i + 1;
        }
        true
    }

    fn vet_bitfields(&self, bits: &Vec<TypeBitField>) -> (res: bool)
        ensures
            res == self.bitfields_valid(bits@),
    {
        let mut i: usize = 0;
        while i < bits.len()
            invariant
                i <= bits@.len(),
                forall|k: int| #![trigger bits@[k]]
                    0 <= k < i ==> self.has(bits@[k].tp) && 0 <= bits@[k].bits.byte_offset && 0 <= bits@[k].bits.byte_size
                        && bits@[k].bits.byte_offset + bits@[k].bits.byte_size <= i32::MAX,
            decreases bits@.len() - i,
        {
            let bit = &bits[i];
            let good = self.knows(bit.tp) && bit.bits.byte_offset >= 0 && bit.bits.byte_size >= 0
                && bit.bits.byte_offset as i64 + bit.bits.byte_size as i64 <= 0x7fff_ffff;
            if !good {
                assert(bits@[i as int] == *bit);
                return false;
            }
            i = i + 1;
        }
        true
    }

    fn vet_handles(&self, list: &Vec<TypeId>) -> (res: bool)
        ensures
            res == (forall|i: int| #![trigger list@[i]] 0 <= i < list@.len() ==> self.has(list@[i])),
    {
        let mut i: usize = 0;
        while i < list.len()
            invariant
                i <= list@.len(),
                forall|k: int| #![trigger list@[k]] 0 <= k < i ==> self.has(list@[k]),
            decreases list@.len() - i,
        {
            if !self.knows(list[i]) {
                assert(!self.has(list@[i as int]));
                return false;
            }
            i = i + 1;
        }
        true
    }

    fn vet_names(&self, names: &crate::types::names::NameMap) -> (res: bool)
        ensures
            res == names.sorted(),
    {
        let mut i: usize = 1;
        if names.entries.len() == 0 {
            return true;
        }
        while i < names.entries.len()
            invariant
                1 <= i <= names.entries@.len(),
                forall|a: int, b: int|
                    0 <= a < b < i ==> (#[trigger] names.entries@[a]).value < (#[trigger] names.entries@[b]).value,
            decreases names.entries@.len() - i,
        {
            if names.entries[i - 1].value >= names.entries[i].value {
                assert(!(names.entries@[i - 1].value < names.entries@[i as int].value));
                return false;
            }
            i = i + 1;
        }
        true
    }

    fn can_stand_in(&self, id: TypeId, size: i32) -> (res: bool)
        requires
            self.has(id),
        ensures
            res == self.stands_in(id, size as int),
    {
        let d = self.get(id);
        match &d.kind {
            TypeKind::Spacebase(_) => false,
            TypeKind::Struct(_) => false,
            TypeKind::Union(_) => false,
            _ => size < 1 || d.align_size >= 1,
        }
    }

    fn vet_kind(&self, d: &Datatype) -> (res: bool)
        requires
            self.sound(),
        ensures
            res == self.kind_valid(*d),
    {
        proof {
            reveal(TypeFactory::kind_valid);
        }
        match &d.kind {
            TypeKind::Pointer(data) => self.vet_pointer(data),
            TypeKind::PointerRel(data) => self.vet_pointer(&data.pointer) && data.parent.is_some() && self.knows_option(
                data.parent,
            ) && match data.stripped {
                Some(id) => self.knows(id) && self.can_stand_in(id, d.size),
                None => true,
            },
            TypeKind::Array(data) => match data.arrayof {
                Some(id) => self.knows(id) && data.arraysize >= 0,
                None => false,
            },
            TypeKind::Enum(data) => self.vet_names(&data.namemap),
            TypeKind::Struct(data) => self.vet_fields(&data.field) && self.vet_bitfields(&data.bitfield) && data.field.len() <= 0x7fff_ffff && data.bitfield.len()
                <= 0x7fff_ffff,
            TypeKind::Union(data) => self.vet_fields(&data.field) && data.field.len() <= 0x7fff_ffff,
            TypeKind::PartialEnum(data) => self.knows(data.parent) && self.knows(data.stripped) && self.can_stand_in(data.stripped, d.size) && self.vet_names(
                &data.enum_data.namemap,
            ) && match &self.get(data.parent).kind {
                TypeKind::Enum(_) => true,
                TypeKind::PartialEnum(_) => true,
                _ => false,
            },
            TypeKind::PartialStruct(data) => self.knows(data.container) && self.knows(data.stripped) && self.can_stand_in(data.stripped, d.size) && match &self.get(
                data.container,
            ).kind {
                TypeKind::Spacebase(_) => false,
                TypeKind::PartialStruct(_) => false,
                _ => true,
            },
            TypeKind::PartialUnion(data) => self.knows(data.container) && self.knows(data.stripped) && self.can_stand_in(data.stripped, d.size) && match &self.get(
                data.container,
            ).kind {
                TypeKind::Union(_) => true,
                _ => false,
            },
            TypeKind::Code(data) => match &data.signature {
                Some(signature) => self.vet_handles(&signature.params) && self.knows_option(signature.output),
                None => !data.factory,
            },
            TypeKind::Spacebase(data) => match &data.spaceid {
                Some(spc) => spc.word_size >= 1 && spc.addr_size <= 0x7fff_ffff,
                None => false,
            },
            _ => true,
        }
    }

    fn vet_padding(&self, size: i32) -> (res: bool)
        requires
            self.tidy(),
        ensures
            res == self.pads(size),
    {
        if size < 0 {
            return true;
        }
        match self.get_alignment(size as u32) {
            Ok(align) => size as i64 + align as i64 <= 0x7fff_ffff,
            Err(_) => true,
        }
    }

    /// Whether a base data-type can be made.
    pub fn can_give_base(&self, size: i32, meta: TypeMetatype) -> (res: bool)
        requires
            self.ready(),
        ensures
            res == self.can_make_base(size, meta),
    {
        if self.arena.len() >= 0xffff_ffff {
            return false;
        }
        let classed = match meta {
            TypeMetatype::Float
            | TypeMetatype::Bool
            | TypeMetatype::Uint
            | TypeMetatype::Int
            | TypeMetatype::Unknown => true,
            _ => false,
        };
        let cached = 0 <= size && size < 9 && meta.position() >= 10 && self.cache_lookup(size, meta).is_some();
        if !classed && !cached {
            return false;
        }
        self.vet_padding_twice(size)
    }

    /// Whether a data-type may stand in the factory.
    pub fn is_valid(&self, ct: &Datatype) -> (res: bool)
        requires
            self.sound(),
        ensures
            res == self.valid(*ct),
    {
        ct.size >= 0 && ct.align_size >= ct.size && ct.has_fitting_class() && ct.has_fitting_submeta() && self.vet_kind(ct)
            && self.knows_option(ct.typedef_imm) && ct.has_fitting_flags()
    }

    fn vet_padding_twice(&self, size: i32) -> (res: bool)
        requires
            self.tidy(),
        ensures
            res == self.pads_twice(size),
    {
        if size < 0 || self.align_map.len() == 0 {
            return true;
        }
        proof {
            self.alignment_positive(size as u32);
        }
        if !self.vet_padding(size) {
            return false;
        }
        match self.get_primitive_align_size(size as u32) {
            Ok(padded) => self.vet_padding(padded),
            Err(_) => true,
        }
    }

    /// Whether a pointer can get a truncated form, if it ought to have one.
    pub fn can_shorten(&self, size: i32) -> (res: bool)
        requires
            self.ready(),
        ensures
            res == (self.arena@.len() < u32::MAX && (size == self.size_of_alt_pointer ==> self.can_truncate())),
    {
        if self.arena.len() >= 0xffff_ffff {
            return false;
        }
        size != self.size_of_alt_pointer || (self.size_of_pointer != self.size_of_alt_pointer
            && self.default_data_space.is_some() && self.vet_padding_twice(self.size_of_pointer))
    }

    /// Whether a pointer can be made, with a truncated form if it ought to have one.
    pub fn can_give_pointer(&self, size: i32, pt: TypeId, ws: u32) -> (res: bool)
        requires
            self.ready(),
        ensures
            res == self.can_make_full_pointer(size, pt, ws),
    {
        self.arena.len() < 0xffff_fffe && self.knows(pt) && self.vet_padding_twice(size) && self.can_shorten(size)
    }

    /// Whether the factory can take a data-type in.
    pub fn can_take(&self, ct: &Datatype) -> (res: bool)
        requires
            self.ready(),
        ensures
            res == self.takes(*ct),
    {
        if !self.is_valid(ct) || self.arena.len() >= 0xffff_ffff {
            return false;
        }
        proof {
            self.parts(*ct);
        }
        if ct.alignment < 0 {
            if !self.vet_padding(ct.size) {
                return false;
            }
            if self.align_map.len() > 0 {
                proof {
                    self.alignment_positive(ct.size as u32);
                }
                match self.get_primitive_align_size(ct.size as u32) {
                    Ok(padded) => {
                        if !self.vet_padding(padded) {
                            return false;
                        }
                    },
                    Err(_) => {},
                }
            }
        }
        let truncate = match &ct.kind {
            TypeKind::Pointer(data) => data.truncate,
            TypeKind::PointerRel(data) => data.pointer.truncate,
            _ => None,
        };
        match truncate {
            Some(id) => ct.size != self.size_of_pointer && self.get(id).get_size() == self.size_of_pointer,
            None => true,
        }
    }
}

/// Whether a size can be rounded up to an alignment.
pub fn vet_alignment(size: i32, align: i32) -> (res: bool)
    requires
        size >= 0,
        align >= 1,
    ensures
        res == (crate::types::read::aligned(size as int, align as int) <= i32::MAX),
{
    let modulus: i32 = size % align;
    if modulus != 0 {
        size as i64 + (align as i64 - modulus as i64) <= 0x7fff_ffff
    } else {
        true
    }
}

impl TypeFactory {
    /// Whether fields can be those of a union, or a part of those of a structure, that was
    /// announced before.
    pub fn can_have_fields(&self, fields: &Vec<TypeField>, size: i32, align: i32) -> (res: bool)
        requires
            self.sound(),
        ensures
            res == self.fields_suit(fields@, size, align),
    {
        proof {
            self.cache_sizes();
        }
        self.vet_fields(fields) && fields.len() <= 0x7fff_ffff
            && size >= 0 && align >= 1 && vet_alignment(size, align)
    }

    /// Whether fields can be those of a structure that was announced before.
    pub fn can_be_struct(
        &self,
        fields: &Vec<TypeField>,
        bits: &Vec<TypeBitField>,
        size: i32,
        align: i32,
    ) -> (res: bool)
        requires
            self.sound(),
        ensures
            res == self.struct_suits(fields@, bits@, size, align),
    {
        self.can_have_fields(fields, size, align) && self.vet_bitfields(bits)
            && bits.len() <= 0x7fff_ffff
    }

    /// Whether a prototype names data-types of the factory.
    pub fn can_have_prototype(&self, fp: &crate::types::TypeCodeData) -> (res: bool)
        ensures
            res == self.prototype_suits(*fp),
    {
        if fp.proto.is_none() {
            return true;
        }
        match &fp.signature {
            Some(signature) => self.vet_handles(&signature.params) && self.knows_option(signature.output),
            None => false,
        }
    }

    fn same_variant(&self, a: &Datatype, b: &Datatype) -> (res: bool)
        ensures
            res == (crate::types::grow::variant(a.kind) == crate::types::grow::variant(b.kind)),
    {
        match (&a.kind, &b.kind) {
            (TypeKind::Base, TypeKind::Base) => true,
            (TypeKind::Char, TypeKind::Char) => true,
            (TypeKind::Unicode, TypeKind::Unicode) => true,
            (TypeKind::Void, TypeKind::Void) => true,
            (TypeKind::Pointer(_), TypeKind::Pointer(_)) => true,
            (TypeKind::Array(_), TypeKind::Array(_)) => true,
            (TypeKind::Enum(_), TypeKind::Enum(_)) => true,
            (TypeKind::Struct(_), TypeKind::Struct(_)) => true,
            (TypeKind::Union(_), TypeKind::Union(_)) => true,
            (TypeKind::PartialEnum(_), TypeKind::PartialEnum(_)) => true,
            (TypeKind::PartialStruct(_), TypeKind::PartialStruct(_)) => true,
            (TypeKind::PartialUnion(_), TypeKind::PartialUnion(_)) => true,
            (TypeKind::PointerRel(_), TypeKind::PointerRel(_)) => true,
            (TypeKind::Code(_), TypeKind::Code(_)) => true,
            (TypeKind::Spacebase(_), TypeKind::Spacebase(_)) => true,
            _ => false,
        }
    }

    fn does_await(&self, dt: TypeId) -> (res: bool)
        requires
            self.ready(),
        ensures
            res == self.awaits(dt),
    {
        proof {
            reveal(TypeFactory::awaits);
            self.cache_sizes();
        }
        if !self.knows(dt) {
            return false;
        }
        let d = self.get(dt);
        let Some(defed) = d.typedef_imm else {
            return false;
        };
        if !self.knows(defed) || defed == dt {
            return false;
        }
        let f = self.get(defed);
        proof {
            self.look(defed);
            self.neat(defed);
        }
        self.same_variant(d, f)
    }

    /// Whether the typedefs that were noted can be completed.
    pub fn can_resolve_typedefs(&self) -> (res: bool)
        requires
            self.ready(),
        ensures
            res == (self.typedefs_await() && self.signed()),
    {
        proof {
            reveal(TypeFactory::typedefs_await);
            reveal(TypeFactory::signed);
            self.cache_sizes();
        }
        let mut i: usize = 0;
        while i < self.incomplete_typedef.len()
            invariant
                self.ready(),
                i <= self.incomplete_typedef@.len(),
                forall|k: int| #![trigger self.incomplete_typedef@[k]]
                    0 <= k < i ==> self.awaits(self.incomplete_typedef@[k]),
            decreases self.incomplete_typedef@.len() - i,
        {
            if !self.does_await(self.incomplete_typedef[i]) {
                proof {
                    reveal(TypeFactory::typedefs_await);
                    assert(!self.awaits(self.incomplete_typedef@[i as int]));
                }
                return false;
            }
            i = i + 1;
        }
        let mut j: usize = 0;
        while j < self.arena.len()
            invariant
                self.arena@.len() <= u32::MAX,
                j <= self.arena@.len(),
                forall|id: TypeId| #![trigger self.dt(id)]
                    id.0 < j && self.has(id) && (self.dt(id).kind matches TypeKind::Code(data) && data.proto is Some)
                        ==> self.dt(id).kind->Code_0.signature is Some,
            decreases self.arena@.len() - j,
        {
            let x = TypeId(j as u32);
            if self.knows(x) {
                if let TypeKind::Code(data) = &self.get(x).kind {
                    if data.proto.is_some() && data.signature.is_none() {
                        proof {
                            reveal(TypeFactory::signed);
                            assert(!(self.dt(x).kind->Code_0.signature is Some));
                        }
                        return false;
                    }
                }
            }
            j = j + 1;
            assert forall|id: TypeId| #![trigger self.dt(id)]
                id.0 < j && self.has(id) && (self.dt(id).kind matches TypeKind::Code(data) && data.proto is Some) implies self.dt(
                id,
            ).kind->Code_0.signature is Some by {
                if id.0 == j - 1 {
                    assert(id == x);
                }
            }
        }
        true
    }
}

} // verus!

//! What can be read from a data-type directly.
use vstd::prelude::*;
use crate::fspec::FuncProto;
use crate::ids::TypeId;
use crate::space::{AddrSpace, SpaceRef};
use crate::types::names::NameMap;
use crate::types::{
    CodeSignature, Datatype, SubMetatype, TypeBitField, TypeField, TypeKind, TypeMetatype, TypePointerData,
};

verus! {

/// The bits of a rotation to the left by eight.
pub open spec fn rotated(val: u64) -> u64 {
    (val << 8) | (val >> 56)
}

/// One step of the hash of a name.
pub open spec fn hash_step(hash: u64, byte: u8) -> u64 {
    let sum = rotated(hash).wrapping_add(byte as i8 as i64 as u64);
    if (sum & 1) == 0 {
        sum ^ 0xfeabfeab
    } else {
        sum
    }
}

/// The hash of the bytes of a name, before its top bits are set.
pub open spec fn hash_bytes(bytes: Seq<u8>) -> u64
    decreases bytes.len(),
{
    if bytes.len() == 0 {
        123
    } else {
        hash_step(hash_bytes(bytes.drop_last()), bytes.last())
    }
}

/// The id that a name stands for.
pub open spec fn name_hash(name: Seq<char>) -> u64 {
    hash_bytes(vstd::utf8::encode_utf8(name)) | 0xC000000000000000
}

/// The id of a data-type of variable length, with the size taken in or out.
pub open spec fn size_hash(id: u64, size: i32) -> u64 {
    id ^ (size as i64 as u64).wrapping_mul(0x98251033aecbabaf)
}

/// A size rounded up to a multiple of an alignment.
pub open spec fn aligned(size: int, align: int) -> int {
    if size % align != 0 {
        size + (align - size % align)
    } else {
        size
    }
}

/// Rounding up gives the next multiple of the alignment.
pub proof fn aligned_is_multiple(size: int, align: int)
    requires
        align >= 1,
    ensures
        aligned(size, align) % align == 0,
        size <= aligned(size, align) < size + align,
{
    let q = size / align;
    let r = size % align;
    vstd::arithmetic::div_mod::lemma_fundamental_div_mod(size, align);
    if r != 0 {
        assert(aligned(size, align) == align * (q + 1)) by (nonlinear_arith)
            requires
                size == align * q + r,
                aligned(size, align) == size + (align - r),
        ;
        vstd::arithmetic::div_mod::lemma_mod_multiples_basic(q + 1, align);
        assert(align * (q + 1) == (q + 1) * align) by (nonlinear_arith);
    }
}

/// Taking the size into an id twice gives the id back.
pub proof fn size_hash_involution(id: u64, size: i32)
    ensures
        size_hash(size_hash(id, size), size) == id,
{
    let h = (size as i64 as u64).wrapping_mul(0x98251033aecbabaf);
    assert((id ^ h) ^ h == id) by (bit_vector);
}

/// An id made from a name is never zero.
pub proof fn name_hash_nonzero(name: Seq<char>)
    ensures
        name_hash(name) != 0,
{
    let h = hash_bytes(vstd::utf8::encode_utf8(name));
    assert(h | 0xC000000000000000u64 != 0) by (bit_vector);
}

impl Datatype {
    pub const CORETYPE: u32 = 1;
    pub const CHARTYPE: u32 = 2;
    pub const ENUMTYPE: u32 = 4;
    pub const POWEROFTWO: u32 = 8;
    pub const UTF16: u32 = 16;
    pub const UTF32: u32 = 32;
    pub const OPAQUE_STRING: u32 = 64;
    pub const VARIABLE_LENGTH: u32 = 128;
    pub const HAS_STRIPPED: u32 = 0x100;
    pub const IS_PTRREL: u32 = 0x200;
    pub const TYPE_INCOMPLETE: u32 = 0x400;
    pub const NEEDS_RESOLUTION: u32 = 0x800;
    pub const FORCE_FORMAT: u32 = 0x7000;
    pub const TRUNCATE_BIGENDIAN: u32 = 0x8000;
    pub const POINTER_TO_ARRAY: u32 = 0x10000;
    pub const WARNING_ISSUED: u32 = 0x20000;
    pub const HAS_BITFIELDS: u32 = 0x40000;

    pub const MAX_ARRAY_SLACK_FORWARD: i32 = 128;
    pub const MAX_ARRAY_SLACK_BACKWARD: i32 = 8;

    pub fn mark_complete(&mut self)
        ensures
            *final(self) == (Datatype { flags: old(self).flags & !Datatype::TYPE_INCOMPLETE, ..*old(self) }),
    {
        self.flags = self.flags & !Datatype::TYPE_INCOMPLETE;
    }

    pub fn set_display_format(&mut self, format: u32)
        ensures
            *final(self) == (Datatype {
                flags: (old(self).flags & !Datatype::FORCE_FORMAT) | (format << 12),
                ..*old(self)
            }),
    {
        self.flags = self.flags & !Datatype::FORCE_FORMAT;
        self.flags = self.flags | (format << 12);
    }

    /// The id that belongs to a name.
    pub fn hash_name(nm: &str) -> (res: u64)
        ensures
            res == name_hash(nm@),
    {
        let bytes = nm.as_bytes();
        let mut res: u64 = 123;
        let mut i: usize = 0;
        assert(bytes@.take(0) =~= Seq::empty());
        while i < bytes.len()
            invariant
                i <= bytes@.len(),
                bytes@ == vstd::utf8::encode_utf8(nm@),
                res == hash_bytes(bytes@.take(i as int)),
            decreases bytes@.len() - i,
        {
            let byte: u8 = bytes[i];
            proof {
                assert(bytes@.take(i + 1).drop_last() =~= bytes@.take(i as int));
                assert(bytes@.take(i + 1).last() == byte);
            }
            res = (res << 8) | (res >> 56);
            res = res.wrapping_add(byte as i8 as i64 as u64);
            if (res & 1) == 0 {
                res = res ^ 0xfeabfeab;
            }
            i = i + 1;
        }
        assert(bytes@.take(i as int) =~= bytes@);
        res | 0xC000000000000000
    }

    /// Takes a size into an id, or out of it.
    pub fn hash_size(id: u64, size: i32) -> (res: u64)
        ensures
            res == size_hash(id, size),
    {
        id ^ (size as i64 as u64).wrapping_mul(0x98251033aecbabaf)
    }

    /// Rounds a size up to a multiple of an alignment.
    pub fn calc_align_size(sz: i32, align: i32) -> (res: i32)
        requires
            align >= 1,
            sz >= 0 ==> aligned(sz as int, align as int) <= i32::MAX,
            sz < 0 ==> align - crate::space::trunc_rem(sz as int, align as int) <= i32::MAX,
        ensures
            sz >= 0 ==> res == aligned(sz as int, align as int),
            sz < 0 ==> res == (if crate::space::trunc_rem(sz as int, align as int) == 0 {
                sz as int
            } else {
                sz + (align - crate::space::trunc_rem(sz as int, align as int))
            }),
    {
        let modulus: i32 = sz % align;
        if modulus != 0 {
            return sz + (align - modulus);
        }
        sz
    }

    pub fn is_core_type(&self) -> (res: bool)
        ensures
            res == self.flag(Datatype::CORETYPE),
    {
        (self.flags & Datatype::CORETYPE) != 0
    }

    pub fn is_char_print(&self) -> (res: bool)
        ensures
            res == self.flag(Datatype::CHARTYPE | Datatype::UTF16 | Datatype::UTF32 | Datatype::OPAQUE_STRING),
    {
        (self.flags & (Datatype::CHARTYPE | Datatype::UTF16 | Datatype::UTF32 | Datatype::OPAQUE_STRING)) != 0
    }

    pub fn is_enum_type(&self) -> (res: bool)
        ensures
            res == self.flag(Datatype::ENUMTYPE),
    {
        (self.flags & Datatype::ENUMTYPE) != 0
    }

    pub fn is_ascii(&self) -> (res: bool)
        ensures
            res == self.flag(Datatype::CHARTYPE),
    {
        (self.flags & Datatype::CHARTYPE) != 0
    }

    pub fn is_utf16(&self) -> (res: bool)
        ensures
            res == self.flag(Datatype::UTF16),
    {
        (self.flags & Datatype::UTF16) != 0
    }

    pub fn is_utf32(&self) -> (res: bool)
        ensures
            res == self.flag(Datatype::UTF32),
    {
        (self.flags & Datatype::UTF32) != 0
    }

    pub fn is_variable_length(&self) -> (res: bool)
        ensures
            res == self.flag(Datatype::VARIABLE_LENGTH),
    {
        (self.flags & Datatype::VARIABLE_LENGTH) != 0
    }

    /// Whether two data-types of variable length come from the same definition.
    pub fn has_same_variable_base(&self, ct: &Datatype) -> (res: bool)
        ensures
            res == (self.flag(Datatype::VARIABLE_LENGTH) && ct.flag(Datatype::VARIABLE_LENGTH) && size_hash(
                self.id,
                self.size,
            ) == size_hash(ct.id, ct.size)),
    {
        if !self.is_variable_length() {
            return false;
        }
        if !ct.is_variable_length() {
            return false;
        }
        let this_id: u64 = Datatype::hash_size(self.id, self.size);
        let them_id: u64 = Datatype::hash_size(ct.id, ct.size);
        this_id == them_id
    }

    pub fn is_opaque_string(&self) -> (res: bool)
        ensures
            res == self.flag(Datatype::OPAQUE_STRING),
    {
        (self.flags & Datatype::OPAQUE_STRING) != 0
    }

    pub fn is_pointer_to_array(&self) -> (res: bool)
        ensures
            res == self.flag(Datatype::POINTER_TO_ARRAY),
    {
        (self.flags & Datatype::POINTER_TO_ARRAY) != 0
    }

    pub fn is_pointer_rel(&self) -> (res: bool)
        ensures
            res == self.flag(Datatype::IS_PTRREL),
    {
        (self.flags & Datatype::IS_PTRREL) != 0
    }

    /// Whether this is a relative pointer that a program declares as such.
    pub fn is_formal_pointer_rel(&self) -> (res: bool)
        ensures
            res == (self.flags & (Datatype::IS_PTRREL | Datatype::HAS_STRIPPED) == Datatype::IS_PTRREL),
    {
        (self.flags & (Datatype::IS_PTRREL | Datatype::HAS_STRIPPED)) == Datatype::IS_PTRREL
    }

    pub fn has_stripped(&self) -> (res: bool)
        ensures
            res == self.flag(Datatype::HAS_STRIPPED),
    {
        (self.flags & Datatype::HAS_STRIPPED) != 0
    }

    pub fn is_incomplete(&self) -> (res: bool)
        ensures
            res == self.flag(Datatype::TYPE_INCOMPLETE),
    {
        (self.flags & Datatype::TYPE_INCOMPLETE) != 0
    }

    pub fn needs_resolution(&self) -> (res: bool)
        ensures
            res == self.flag(Datatype::NEEDS_RESOLUTION),
    {
        (self.flags & Datatype::NEEDS_RESOLUTION) != 0
    }

    pub fn has_warning(&self) -> (res: bool)
        ensures
            res == self.flag(Datatype::WARNING_ISSUED),
    {
        (self.flags & Datatype::WARNING_ISSUED) != 0
    }

    pub fn has_bitfields(&self) -> (res: bool)
        ensures
            res == self.flag(Datatype::HAS_BITFIELDS),
    {
        (self.flags & Datatype::HAS_BITFIELDS) != 0
    }

    /// The properties that a pointer takes over from what it points to.
    pub fn inherit_for_pointer(&self) -> (res: u32)
        ensures
            res == self.flags & (Datatype::CORETYPE | Datatype::WARNING_ISSUED),
    {
        self.flags & (Datatype::CORETYPE | Datatype::WARNING_ISSUED)
    }

    /// The properties that a part takes over from the whole.
    pub fn inherit_for_partial(&self) -> (res: u32)
        ensures
            res == self.flags & Datatype::WARNING_ISSUED,
    {
        self.flags & Datatype::WARNING_ISSUED
    }

    pub fn get_display_format(&self) -> (res: u32)
        ensures
            res == (self.flags & Datatype::FORCE_FORMAT) >> 12,
    {
        (self.flags & Datatype::FORCE_FORMAT) >> 12
    }

    pub fn get_metatype(&self) -> (res: TypeMetatype)
        ensures
            res == self.metatype,
    {
        self.metatype
    }

    pub fn get_sub_meta(&self) -> (res: SubMetatype)
        ensures
            res == self.submeta,
    {
        self.submeta
    }

    pub fn get_id(&self) -> (res: u64)
        ensures
            res == self.id,
    {
        self.id
    }

    /// The id without the size that a data-type of variable length has in it.
    pub open spec fn unsized_id(self) -> u64 {
        if self.flag(Datatype::VARIABLE_LENGTH) {
            size_hash(self.id, self.size)
        } else {
            self.id
        }
    }

    pub fn get_unsized_id(&self) -> (res: u64)
        ensures
            res == self.unsized_id(),
    {
        if (self.flags & Datatype::VARIABLE_LENGTH) != 0 {
            return Datatype::hash_size(self.id, self.size);
        }
        self.id
    }

    pub fn get_size(&self) -> (res: i32)
        ensures
            res == self.size,
    {
        self.size
    }

    pub fn get_align_size(&self) -> (res: i32)
        ensures
            res == self.align_size,
    {
        self.align_size
    }

    pub fn get_alignment(&self) -> (res: i32)
        ensures
            res == self.alignment,
    {
        self.alignment
    }

    pub fn get_name(&self) -> (res: &str)
        ensures
            res@ == self.name@,
    {
        self.name.as_str()
    }

    pub fn get_display_name(&self) -> (res: &str)
        ensures
            res@ == self.display_name@,
    {
        self.display_name.as_str()
    }

    pub fn get_typedef(&self) -> (res: Option<TypeId>)
        ensures
            res == self.typedef_imm,
    {
        self.typedef_imm
    }

    pub fn get_flags(&self) -> (res: u32)
        ensures
            res == self.flags,
    {
        self.flags
    }

    /// The data-type that this one is a part of.
    pub fn get_partial_base(&self) -> (res: Option<TypeId>)
        ensures
            res == (if self.is_partial() {
                Some(self.part_of())
            } else {
                None
            }),
    {
        match &self.kind {
            TypeKind::PartialEnum(data) => Some(data.parent),
            TypeKind::PartialStruct(data) => Some(data.container),
            TypeKind::PartialUnion(data) => Some(data.container),
            _ => None,
        }
    }

    /// Whether the data-type is made of pieces.
    pub fn is_piece_structured(&self) -> (res: bool)
        ensures
            res == (self.metatype.rank() <= TypeMetatype::Array.rank()),
    {
        self.metatype.position() <= 7
    }

    /// The properties of a character of the given size.
    pub open spec fn unicode_flags(size: i32) -> u32 {
        if size == 2 {
            Datatype::UTF16
        } else if size == 4 {
            Datatype::UTF32
        } else if size == 1 {
            Datatype::CHARTYPE
        } else {
            0
        }
    }

    pub fn set_unicode_flags(&mut self)
        ensures
            *final(self) == (Datatype {
                flags: (if Datatype::unicode_flags(old(self).size) != 0 {
                    old(self).flags | Datatype::unicode_flags(old(self).size)
                } else {
                    old(self).flags
                }),
                ..*old(self)
            }),
    {
        if self.size == 2 {
            self.flags = self.flags | Datatype::UTF16;
        } else if self.size == 4 {
            self.flags = self.flags | Datatype::UTF32;
        } else if self.size == 1 {
            self.flags = self.flags | Datatype::CHARTYPE;
        }
    }

    pub fn pointer_data(&self) -> (res: &TypePointerData)
        requires
            self.is_pointer(),
        ensures
            *res == self.pointer(),
    {
        match &self.kind {
            TypeKind::Pointer(data) => data,
            TypeKind::PointerRel(data) => &data.pointer,
            _ => vstd::pervasive::unreached(),
        }
    }

    pub fn pointer_data_option(&self) -> (res: Option<&TypePointerData>)
        ensures
            res == (if self.is_pointer() {
                Some(&self.pointer())
            } else {
                None
            }),
    {
        match &self.kind {
            TypeKind::Pointer(data) => Some(data),
            TypeKind::PointerRel(data) => Some(&data.pointer),
            _ => None,
        }
    }

    pub fn get_ptr_to(&self) -> (res: TypeId)
        requires
            self.is_pointer(),
            self.pointer().ptrto is Some,
        ensures
            res == self.pointer().ptrto->0,
    {
        self.pointer_data().ptrto.unwrap()
    }

    pub fn get_word_size(&self) -> (res: u32)
        requires
            self.is_pointer(),
        ensures
            res == self.pointer().wordsize,
    {
        self.pointer_data().wordsize
    }

    pub fn get_space(&self) -> (res: Option<&SpaceRef>)
        requires
            self.is_pointer(),
        ensures
            res == (match self.pointer().spaceid {
                Some(spc) => Some(&spc),
                None => None,
            }),
    {
        match &self.pointer_data().spaceid {
            Some(spc) => Some(spc),
            None => None,
        }
    }

    pub fn get_truncate(&self) -> (res: Option<TypeId>)
        requires
            self.is_pointer(),
        ensures
            res == self.pointer().truncate,
    {
        self.pointer_data().truncate
    }

    /// The element of an array.
    pub fn get_base(&self) -> (res: TypeId)
        requires
            self.kind is Array,
            self.kind->Array_0.arrayof is Some,
        ensures
            res == self.kind->Array_0.arrayof->0,
    {
        match &self.kind {
            TypeKind::Array(data) => data.arrayof.unwrap(),
            _ => TypeId(0),
        }
    }

    pub fn num_elements(&self) -> (res: i32)
        requires
            self.kind is Array,
        ensures
            res == self.kind->Array_0.arraysize,
    {
        match &self.kind {
            TypeKind::Array(data) => data.arraysize,
            _ => 0,
        }
    }

    /// Whether the data-type names values.
    pub open spec fn has_names(self) -> bool {
        self.kind is Enum || self.kind is PartialEnum
    }

    /// The names of the values of an enumeration.
    pub open spec fn names(self) -> NameMap {
        match self.kind {
            TypeKind::Enum(data) => data.namemap,
            TypeKind::PartialEnum(data) => data.enum_data.namemap,
            _ => arbitrary(),
        }
    }

    /// Names the values of an enumeration anew.
    pub fn set_name_map(&mut self, nmap: &NameMap)
        requires
            old(self).has_names(),
        ensures
            final(self).has_names(),
            final(self).names().entries@ == nmap.entries@,
            final(self).kind is Enum <==> old(self).kind is Enum,
            old(self).kind matches TypeKind::PartialEnum(before) ==> (final(self).kind matches TypeKind::PartialEnum(
                after,
            ) && after.stripped == before.stripped && after.parent == before.parent && after.offset
                == before.offset),
            *final(self) == (Datatype { kind: final(self).kind, ..*old(self) }),
    {
        let copy = nmap.copy();
        match &mut self.kind {
            TypeKind::Enum(data) => {
                data.namemap = copy;
            },
            TypeKind::PartialEnum(data) => {
                data.enum_data.namemap = copy;
            },
            _ => {},
        }
    }

    pub fn get_enum_map(&self) -> (res: &NameMap)
        requires
            self.has_names(),
        ensures
            *res == self.names(),
    {
        match &self.kind {
            TypeKind::Enum(data) => &data.namemap,
            TypeKind::PartialEnum(data) => &data.enum_data.namemap,
            _ => vstd::pervasive::unreached(),
        }
    }

    pub fn get_fields(&self) -> (res: &[TypeField])
        requires
            self.kind is Struct || self.kind is Union,
        ensures
            res@ == self.fields(),
    {
        match &self.kind {
            TypeKind::Struct(data) => data.field.as_slice(),
            TypeKind::Union(data) => data.field.as_slice(),
            _ => vstd::pervasive::unreached(),
        }
    }

    pub fn num_bit_fields(&self) -> (res: i32)
        requires
            self.kind is Struct,
            self.bitfields().len() <= i32::MAX,
        ensures
            res == self.bitfields().len(),
    {
        match &self.kind {
            TypeKind::Struct(data) => data.bitfield.len() as i32,
            _ => 0,
        }
    }

    pub fn get_bit_field(&self, index: i32) -> (res: &TypeBitField)
        requires
            self.kind is Struct,
            0 <= index < self.bitfields().len(),
        ensures
            *res == self.bitfields()[index as int],
    {
        match &self.kind {
            TypeKind::Struct(data) => &data.bitfield[index as usize],
            _ => vstd::pervasive::unreached(),
        }
    }

    /// A field of a union.
    pub fn get_field(&self, index: i32) -> (res: &TypeField)
        requires
            self.kind is Union,
            0 <= index < self.fields().len(),
        ensures
            *res == self.fields()[index as int],
    {
        match &self.kind {
            TypeKind::Union(data) => &data.field[index as usize],
            _ => vstd::pervasive::unreached(),
        }
    }

    /// Where a part starts in the whole.
    pub fn get_offset(&self) -> (res: i32)
        requires
            self.is_partial(),
        ensures
            res == self.part_offset(),
    {
        match &self.kind {
            TypeKind::PartialEnum(data) => data.offset,
            TypeKind::PartialStruct(data) => data.offset,
            TypeKind::PartialUnion(data) => data.offset,
            _ => 0,
        }
    }

    /// The data-type that this one is defined relative to.
    pub open spec fn parent(self) -> TypeId {
        match self.kind {
            TypeKind::PartialEnum(data) => data.parent,
            TypeKind::PartialStruct(data) => data.container,
            TypeKind::PointerRel(data) => data.parent->0,
            _ => arbitrary(),
        }
    }

    pub fn get_parent(&self) -> (res: TypeId)
        requires
            self.kind is PartialEnum || self.kind is PartialStruct || (self.kind is PointerRel
                && self.kind->PointerRel_0.parent is Some),
        ensures
            res == self.parent(),
    {
        match &self.kind {
            TypeKind::PartialEnum(data) => data.parent,
            TypeKind::PartialStruct(data) => data.container,
            TypeKind::PointerRel(data) => data.parent.unwrap(),
            _ => TypeId(0),
        }
    }

    pub fn get_parent_union(&self) -> (res: TypeId)
        requires
            self.kind is PartialUnion,
        ensures
            res == self.kind->PartialUnion_0.container,
    {
        match &self.kind {
            TypeKind::PartialUnion(data) => data.container,
            _ => TypeId(0),
        }
    }

    /// How far a relative pointer points into its parent, in units of its space.
    pub fn get_address_offset(&self) -> (res: i32)
        requires
            self.kind is PointerRel,
            self.pointer().wordsize >= 1,
        ensures
            res == crate::space::trunc_div(
                self.kind->PointerRel_0.offset as int,
                self.pointer().wordsize as int,
            ) as i32,
    {
        match &self.kind {
            TypeKind::PointerRel(data) => AddrSpace::byte_to_address_int(
                data.offset as i64,
                data.pointer.wordsize,
            ) as i32,
            _ => 0,
        }
    }

    /// How far a relative pointer points into its parent, in bytes.
    pub fn get_byte_offset(&self) -> (res: i32)
        requires
            self.kind is PointerRel,
        ensures
            res == self.kind->PointerRel_0.offset,
    {
        match &self.kind {
            TypeKind::PointerRel(data) => data.offset,
            _ => 0,
        }
    }

    pub fn get_prototype(&self) -> (res: Option<&FuncProto>)
        requires
            self.kind is Code,
        ensures
            res == (match self.kind->Code_0.proto {
                Some(proto) => Some(&proto),
                None => None,
            }),
    {
        match &self.kind {
            TypeKind::Code(data) => match &data.proto {
                Some(proto) => Some(proto),
                None => None,
            },
            _ => None,
        }
    }

    /// The signature of a code data-type that has one.
    pub open spec fn signature(self) -> Option<CodeSignature> {
        match self.kind {
            TypeKind::Code(data) => data.signature,
            _ => None,
        }
    }

    pub fn code_signature(&self) -> (res: Option<&CodeSignature>)
        ensures
            res == (match self.signature() {
                Some(sig) => Some(&sig),
                None => None,
            }),
    {
        match &self.kind {
            TypeKind::Code(data) => match &data.signature {
                Some(sig) => Some(sig),
                None => None,
            },
            _ => None,
        }
    }

    /// The data-type that stands for this one where no detail is wanted.
    pub fn get_stripped(&self) -> (res: Option<TypeId>)
        ensures
            res == self.stripped(),
    {
        match &self.kind {
            TypeKind::PartialEnum(data) => Some(data.stripped),
            TypeKind::PartialStruct(data) => Some(data.stripped),
            TypeKind::PartialUnion(data) => Some(data.stripped),
            TypeKind::PointerRel(data) => data.stripped,
            _ => None,
        }
    }
}

} // verus!

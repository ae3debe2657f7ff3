//! Building data-types.
use vstd::prelude::*;
use crate::error::{Error, Result};
use crate::ids::TypeId;
use crate::space::{SpaceRef, copy_space};
use crate::types::names::NameMap;
use crate::types::{
    CodeSignature, Datatype, SubMetatype, TypeArrayData, TypeBitField, TypeCodeData, TypeEnumData, TypeFactory,
    TypeField, TypeKind, TypeMetatype, TypePartialEnumData, TypePartialStructData, TypePartialUnionData,
    TypePointerData, TypePointerRelData, TypeSpacebaseData, TypeStructData, TypeUnionData, base2sub,
};

verus! {

/// A copy of a list of fields.
pub fn copy_fields(fd: &[TypeField]) -> (res: Vec<TypeField>)
    ensures
        res@ == fd@,
{
    let mut res: Vec<TypeField> = Vec::new();
    let mut i: usize = 0;
    while i < fd.len()
        invariant
            i <= fd@.len(),
            res@ == fd@.take(i as int),
        decreases fd@.len() - i,
    {
        res.push(fd[i].copy());
        i = i + 1;
        assert(res@ =~= fd@.take(i as int));
    }
    assert(res@ =~= fd@);
    res
}

/// A copy of a list of bit fields.
pub fn copy_bitfields(fd: &[TypeBitField]) -> (res: Vec<TypeBitField>)
    ensures
        res@ == fd@,
{
    let mut res: Vec<TypeBitField> = Vec::new();
    let mut i: usize = 0;
    while i < fd.len()
        invariant
            i <= fd@.len(),
            res@ == fd@.take(i as int),
        decreases fd@.len() - i,
    {
        res.push(fd[i].copy());
        i = i + 1;
        assert(res@ =~= fd@.take(i as int));
    }
    assert(res@ =~= fd@);
    res
}

/// A copy of a list of handles.
pub fn copy_handles(list: &Vec<TypeId>) -> (res: Vec<TypeId>)
    ensures
        res@ == list@,
{
    let mut res: Vec<TypeId> = Vec::new();
    let mut i: usize = 0;
    while i < list.len()
        invariant
            i <= list@.len(),
            res@ == list@.take(i as int),
        decreases list@.len() - i,
    {
        res.push(list[i]);
        i = i + 1;
        assert(res@ =~= list@.take(i as int));
    }
    assert(res@ =~= list@);
    res
}

impl TypePointerData {
    pub fn copy(&self) -> (res: TypePointerData)
        ensures
            res == *self,
    {
        TypePointerData {
            ptrto: self.ptrto,
            spaceid: copy_space(&self.spaceid),
            truncate: self.truncate,
            wordsize: self.wordsize,
        }
    }
}

impl CodeSignature {
    pub fn copy(&self) -> (res: CodeSignature)
        ensures
            res.alike(*self),
    {
        CodeSignature {
            model_name: match &self.model_name {
                Some(name) => Some(name.clone()),
                None => None,
            },
            params: copy_handles(&self.params),
            output: self.output,
            comparable_flags: self.comparable_flags,
        }
    }
}

impl TypeCodeData {
    /// A copy, which always succeeds.
    pub fn copy_data(&self) -> (res: Result<TypeCodeData>)
        ensures
            res matches Ok(copy) && copy.alike(*self),
    {
        Ok(
            TypeCodeData {
                proto: match &self.proto {
                    Some(proto) => Some(proto.copy()),
                    None => None,
                },
                signature: match &self.signature {
                    Some(signature) => Some(signature.copy()),
                    None => None,
                },
                factory: self.factory,
            },
        )
    }
}

/// The fine class of a pointer to a data-type.
pub open spec fn pointer_submeta(target: Datatype, before: SubMetatype) -> SubMetatype {
    if target.metatype is Struct {
        if target.flag(Datatype::NEEDS_RESOLUTION) {
            SubMetatype::Ptr
        } else {
            SubMetatype::PtrStruct
        }
    } else if target.metatype is Union {
        SubMetatype::PtrStruct
    } else {
        before
    }
}

/// The properties of a pointer to a data-type.
pub open spec fn pointer_flags(target: Datatype, before: u32) -> u32 {
    let first = if target.metatype is Array {
        before | Datatype::POINTER_TO_ARRAY
    } else {
        before
    };
    if target.flag(Datatype::NEEDS_RESOLUTION) && !(target.metatype is Ptr) {
        first | Datatype::NEEDS_RESOLUTION
    } else {
        first
    }
}

/// The properties that a copy of a data-type has beyond those of the data-type.
pub open spec fn clone_flags(d: Datatype, types: TypeFactory) -> u32 {
    match d.kind {
        TypeKind::Char => d.flags | Datatype::CHARTYPE,
        TypeKind::Void => d.flags | Datatype::CORETYPE,
        TypeKind::Struct(data) => if TypeFactory::fills(data.field@, d.size, types) {
            d.flags | Datatype::NEEDS_RESOLUTION
        } else {
            d.flags
        },
        _ => d.flags,
    }
}

impl TypeFactory {
    /// Whether a single field fills all the bytes.
    pub open spec fn fills(fd: Seq<TypeField>, size: i32, types: TypeFactory) -> bool {
        fd.len() == 1 && types.dt(fd[0].tp).size == size
    }

    /// Whether a single field fills all the bytes.
    pub fn single_field_fills(fd: &[TypeField], size: i32, types: &TypeFactory) -> (res: bool)
        requires
            fd@.len() == 1 ==> types.has(fd@[0].tp),
        ensures
            res == TypeFactory::fills(fd@, size, *types),
    {
        fd.len() == 1 && types.get(fd[0].tp).get_size() == size
    }
}

impl Datatype {
    /// A data-type that was just built.
    pub open spec fn fresh(
        self,
        size: i32,
        align: int,
        meta: TypeMetatype,
        sub: SubMetatype,
        flags: u32,
        name: Seq<char>,
    ) -> bool {
        self.made(0, size, align, meta, sub, flags, name)
    }

    /// A data-type that was just built and has got an id.
    pub open spec fn made(
        self,
        id: u64,
        size: i32,
        align: int,
        meta: TypeMetatype,
        sub: SubMetatype,
        flags: u32,
        name: Seq<char>,
    ) -> bool {
        &&& self.id == id
        &&& self.size == size
        &&& self.flags == flags
        &&& self.name@ == name
        &&& self.display_name@ == name
        &&& self.metatype == meta
        &&& self.submeta == sub
        &&& self.typedef_imm is None
        &&& self.alignment == align
        &&& self.align_size == size
    }

    /// The error for a negative size.
    pub open spec fn bad_size<T>(res: Result<T>) -> bool {
        res matches Err(e) && e.is_lowlevel("Bad data-type size"@)
    }

    /// A data-type of which only size, alignment and class are known.
    pub fn new(size_2: i32, align: i32, metatype_2: TypeMetatype) -> (res: Result<Datatype>)
        ensures
            size_2 < 0 ==> Datatype::bad_size(res),
            size_2 >= 0 ==> (res matches Ok(d) && d.fresh(
                size_2,
                align as int,
                metatype_2,
                crate::types::base_submeta(metatype_2),
                0,
                Seq::empty(),
            ) && d.kind is Base),
    {
        if size_2 < 0 {
            return Err(Error::lowlevel("Bad data-type size"));
        }
        Ok(
            Datatype {
                id: 0,
                size: size_2,
                flags: 0,
                name: String::new(),
                display_name: String::new(),
                metatype: metatype_2,
                submeta: base2sub(metatype_2),
                typedef_imm: None,
                alignment: align,
                align_size: size_2,
                kind: TypeKind::Base,
            },
        )
    }

    pub fn new_base(size: i32, metatype: TypeMetatype) -> (res: Result<Datatype>)
        ensures
            size < 0 ==> Datatype::bad_size(res),
            size >= 0 ==> (res matches Ok(d) && d.fresh(
                size,
                -1,
                metatype,
                crate::types::base_submeta(metatype),
                0,
                Seq::empty(),
            ) && d.kind is Base),
    {
        Datatype::new(size, -1, metatype)
    }

    pub fn new_base_named(size: i32, metatype: TypeMetatype, name: &str) -> (res: Result<Datatype>)
        ensures
            size < 0 ==> Datatype::bad_size(res),
            size >= 0 ==> (res matches Ok(d) && d.fresh(
                size,
                -1,
                metatype,
                crate::types::base_submeta(metatype),
                0,
                name@,
            ) && d.kind is Base),
    {
        let mut res = Datatype::new(size, -1, metatype)?;
        res.name = name.to_owned();
        res.display_name = name.to_owned();
        Ok(res)
    }

    /// A character of one byte.
    pub fn new_char(name: &str) -> (res: Result<Datatype>)
        ensures
            res matches Ok(d) && d.fresh(
                1,
                -1,
                TypeMetatype::Int,
                SubMetatype::IntChar,
                Datatype::CHARTYPE,
                name@,
            ) && d.kind is Char,
    {
        let mut res = Datatype::new_base_named(1, TypeMetatype::Int, name)?;
        res.kind = TypeKind::Char;
        res.flags = Datatype::CHARTYPE;
        res.submeta = SubMetatype::IntChar;
        Ok(res)
    }

    pub fn new_unicode_empty() -> (res: Result<Datatype>)
        ensures
            res matches Ok(d) && d.fresh(0, -1, TypeMetatype::Int, SubMetatype::IntPlain, 0, Seq::empty())
                && d.kind is Unicode,
    {
        let mut res = Datatype::new_base(0, TypeMetatype::Int)?;
        res.kind = TypeKind::Unicode;
        Ok(res)
    }

    /// A character of the given size.
    pub fn new_unicode(nm: &str, sz: i32, metatype: TypeMetatype) -> (res: Result<Datatype>)
        ensures
            sz < 0 ==> Datatype::bad_size(res),
            sz >= 0 ==> (res matches Ok(d) && d.fresh(
                sz,
                -1,
                metatype,
                if metatype is Int {
                    SubMetatype::IntUnicode
                } else {
                    SubMetatype::UintUnicode
                },
                Datatype::unicode_flags(sz),
                nm@,
            ) && d.kind is Unicode),
    {
        let mut res = Datatype::new_base_named(sz, metatype, nm)?;
        res.kind = TypeKind::Unicode;
        res.set_unicode_flags();
        assert(0u32 | Datatype::UTF16 == Datatype::UTF16 && 0u32 | Datatype::UTF32 == Datatype::UTF32 && 0u32
            | Datatype::CHARTYPE == Datatype::CHARTYPE) by (bit_vector);
        res.submeta = if metatype == TypeMetatype::Int {
            SubMetatype::IntUnicode
        } else {
            SubMetatype::UintUnicode
        };
        Ok(res)
    }

    pub fn new_void() -> (res: Result<Datatype>)
        ensures
            res matches Ok(d) && d.fresh(
                0,
                1,
                TypeMetatype::Void,
                SubMetatype::Void,
                Datatype::CORETYPE,
                "void"@,
            ) && d.kind is Void,
    {
        let mut res = Datatype::new(0, 1, TypeMetatype::Void)?;
        res.kind = TypeKind::Void;
        res.name = "void".to_owned();
        res.display_name = res.name.clone();
        res.flags = Datatype::CORETYPE;
        Ok(res)
    }

    pub fn new_pointer_empty() -> (res: Result<Datatype>)
        ensures
            res matches Ok(d) && d.fresh(0, -1, TypeMetatype::Ptr, SubMetatype::Ptr, 0, Seq::empty()) && d.kind
                == TypeKind::Pointer(
                TypePointerData { ptrto: None, spaceid: None, truncate: None, wordsize: 1 },
            ),
    {
        let mut res = Datatype::new(0, -1, TypeMetatype::Ptr)?;
        res.kind = TypeKind::Pointer(TypePointerData { ptrto: None, spaceid: None, truncate: None, wordsize: 1 });
        Ok(res)
    }

    /// The fine class and the properties of a pointer, from what it points to.
    pub fn calc_submeta(&mut self, types: &TypeFactory)
        requires
            old(self).is_pointer(),
            old(self).pointer().ptrto is Some,
            types.has(old(self).pointer().ptrto->0),
        ensures
            *final(self) == (Datatype {
                submeta: pointer_submeta(types.dt(old(self).pointer().ptrto->0), old(self).submeta),
                flags: pointer_flags(types.dt(old(self).pointer().ptrto->0), old(self).flags),
                ..*old(self)
            }),
    {
        let ptrto = types.get(self.get_ptr_to());
        let ptrto_meta = ptrto.get_metatype();
        let ptrto_needs_resolution = ptrto.needs_resolution();
        if ptrto_meta == TypeMetatype::Struct {
            if ptrto_needs_resolution {
                self.submeta = SubMetatype::Ptr;
            } else {
                self.submeta = SubMetatype::PtrStruct;
            }
        } else if ptrto_meta == TypeMetatype::Union {
            self.submeta = SubMetatype::PtrStruct;
        } else if ptrto_meta == TypeMetatype::Array {
            self.flags = self.flags | Datatype::POINTER_TO_ARRAY;
        }
        if ptrto_needs_resolution && ptrto_meta != TypeMetatype::Ptr {
            self.flags = self.flags | Datatype::NEEDS_RESOLUTION;
        }
    }

    /// A new pointer to a data-type.
    pub open spec fn is_new_pointer(self, size: i32, data: TypePointerData, target: Datatype) -> bool {
        self.is_made_pointer(0, Seq::empty(), size, data, target)
    }

    /// A new pointer to a data-type, with an id and a name.
    pub open spec fn is_made_pointer(
        self,
        id: u64,
        name: Seq<char>,
        size: i32,
        data: TypePointerData,
        target: Datatype,
    ) -> bool {
        self.made(
            id,
            size,
            -1,
            TypeMetatype::Ptr,
            pointer_submeta(target, SubMetatype::Ptr),
            pointer_flags(target, target.flags & (Datatype::CORETYPE | Datatype::WARNING_ISSUED)),
            name,
        ) && self.kind == TypeKind::Pointer(data)
    }

    pub fn new_pointer(size: i32, pt: TypeId, ws: u32, types: &TypeFactory) -> (res: Result<Datatype>)
        requires
            types.has(pt),
        ensures
            size < 0 ==> Datatype::bad_size(res),
            size >= 0 ==> (res matches Ok(d) && d.is_new_pointer(
                size,
                TypePointerData { ptrto: Some(pt), spaceid: None, truncate: None, wordsize: ws },
                types.dt(pt),
            )),
    {
        let mut res = Datatype::new(size, -1, TypeMetatype::Ptr)?;
        res.flags = types.get(pt).inherit_for_pointer();
        res.kind = TypeKind::Pointer(
            TypePointerData { ptrto: Some(pt), spaceid: None, truncate: None, wordsize: ws },
        );
        res.calc_submeta(types);
        Ok(res)
    }

    /// A pointer into a particular space.
    pub fn new_pointer_space(pt: TypeId, spc: &SpaceRef, types: &TypeFactory) -> (res: Result<Datatype>)
        requires
            types.has(pt),
            spc.valid(),
        ensures
            res matches Ok(d) && d.is_new_pointer(
                spc.addr_size as i32,
                TypePointerData {
                    ptrto: Some(pt),
                    spaceid: Some(*spc),
                    truncate: None,
                    wordsize: spc.word_size,
                },
                types.dt(pt),
            ),
    {
        let mut res = Datatype::new(spc.get_addr_size() as i32, -1, TypeMetatype::Ptr)?;
        res.flags = types.get(pt).inherit_for_pointer();
        res.kind = TypeKind::Pointer(
            TypePointerData {
                ptrto: Some(pt),
                spaceid: Some(spc.clone()),
                truncate: None,
                wordsize: spc.get_word_size(),
            },
        );
        res.calc_submeta(types);
        Ok(res)
    }

    pub fn new_array_empty() -> (res: Result<Datatype>)
        ensures
            res matches Ok(d) && d.fresh(0, -1, TypeMetatype::Array, SubMetatype::Array, 0, Seq::empty()) && d.kind
                == TypeKind::Array(TypeArrayData { arrayof: None, arraysize: 0 }),
    {
        let mut res = Datatype::new(0, -1, TypeMetatype::Array)?;
        res.kind = TypeKind::Array(TypeArrayData { arrayof: None, arraysize: 0 });
        Ok(res)
    }

    /// The bytes in an array.
    pub open spec fn array_bytes(count: i32, element: Datatype) -> i32 {
        count.wrapping_mul(element.align_size)
    }

    /// A new array.
    pub open spec fn is_new_array(self, count: i32, ao: TypeId, element: Datatype) -> bool {
        self.fresh(
            Datatype::array_bytes(count, element),
            element.alignment as int,
            TypeMetatype::Array,
            SubMetatype::Array,
            if count == 1 {
                Datatype::NEEDS_RESOLUTION
            } else {
                0
            },
            Seq::empty(),
        ) && self.kind == TypeKind::Array(TypeArrayData { arrayof: Some(ao), arraysize: count })
    }

    pub fn new_array(count: i32, ao: TypeId, types: &TypeFactory) -> (res: Result<Datatype>)
        requires
            types.has(ao),
        ensures
            Datatype::array_bytes(count, types.dt(ao)) < 0 ==> Datatype::bad_size(res),
            Datatype::array_bytes(count, types.dt(ao)) >= 0 ==> (res matches Ok(d) && d.is_new_array(
                count,
                ao,
                types.dt(ao),
            )),
    {
        let element = types.get(ao);
        let mut res = Datatype::new(
            count.wrapping_mul(element.get_align_size()),
            element.get_alignment(),
            TypeMetatype::Array,
        )?;
        res.kind = TypeKind::Array(TypeArrayData { arrayof: Some(ao), arraysize: count });
        if count == 1 {
            res.flags = Datatype::NEEDS_RESOLUTION;
        }
        Ok(res)
    }

    /// The class of the values of an enumeration.
    pub open spec fn enum_class(metatype: TypeMetatype) -> TypeMetatype {
        if metatype is EnumInt {
            TypeMetatype::Int
        } else {
            TypeMetatype::Uint
        }
    }

    /// A new enumeration without values.
    pub open spec fn is_new_enum(self, size: i32, metatype: TypeMetatype, name: Seq<char>) -> bool {
        self.fresh(
            size,
            -1,
            Datatype::enum_class(metatype),
            crate::types::base_submeta(metatype),
            Datatype::ENUMTYPE,
            name,
        ) && (self.kind matches TypeKind::Enum(data) && data.namemap.entries@.len() == 0)
    }

    pub fn new_enum(size: i32, metatype: TypeMetatype) -> (res: Result<Datatype>)
        ensures
            size < 0 ==> Datatype::bad_size(res),
            size >= 0 ==> (res matches Ok(d) && d.is_new_enum(size, metatype, Seq::empty())),
    {
        let mut res = Datatype::new_base(size, metatype)?;
        res.kind = TypeKind::Enum(TypeEnumData { namemap: NameMap::new() });
        res.flags = Datatype::ENUMTYPE;
        res.metatype = if metatype == TypeMetatype::EnumInt {
            TypeMetatype::Int
        } else {
            TypeMetatype::Uint
        };
        Ok(res)
    }

    pub fn new_enum_named(size: i32, metatype: TypeMetatype, nm: &str) -> (res: Result<Datatype>)
        ensures
            size < 0 ==> Datatype::bad_size(res),
            size >= 0 ==> (res matches Ok(d) && d.is_new_enum(size, metatype, nm@)),
    {
        let mut res = Datatype::new_base_named(size, metatype, nm)?;
        res.kind = TypeKind::Enum(TypeEnumData { namemap: NameMap::new() });
        res.flags = Datatype::ENUMTYPE;
        res.metatype = if metatype == TypeMetatype::EnumInt {
            TypeMetatype::Int
        } else {
            TypeMetatype::Uint
        };
        Ok(res)
    }

    /// A structure whose fields are not known yet.
    pub fn new_struct() -> (res: Result<Datatype>)
        ensures
            res matches Ok(d) && d.fresh(
                0,
                -1,
                TypeMetatype::Struct,
                SubMetatype::Struct,
                Datatype::TYPE_INCOMPLETE,
                Seq::empty(),
            ) && d.kind is Struct && d.fields().len() == 0 && d.bitfields().len() == 0,
    {
        let mut res = Datatype::new(0, -1, TypeMetatype::Struct)?;
        res.kind = TypeKind::Struct(TypeStructData { field: Vec::new(), bitfield: Vec::new() });
        res.flags = Datatype::TYPE_INCOMPLETE;
        Ok(res)
    }

    /// A union whose fields are not known yet.
    pub fn new_union() -> (res: Result<Datatype>)
        ensures
            res matches Ok(d) && d.fresh(
                0,
                -1,
                TypeMetatype::Union,
                SubMetatype::Union,
                Datatype::TYPE_INCOMPLETE | Datatype::NEEDS_RESOLUTION,
                Seq::empty(),
            ) && d.kind is Union && d.fields().len() == 0,
    {
        let mut res = Datatype::new(0, -1, TypeMetatype::Union)?;
        res.kind = TypeKind::Union(TypeUnionData { field: Vec::new() });
        res.flags = Datatype::TYPE_INCOMPLETE | Datatype::NEEDS_RESOLUTION;
        Ok(res)
    }

    /// A part of an enumeration.
    pub fn new_partial_enum(par: TypeId, off: i32, sz: i32, strip: TypeId, types: &TypeFactory) -> (res: Result<
        Datatype,
    >)
        requires
            types.has(par),
        ensures
            sz < 0 ==> Datatype::bad_size(res),
            sz >= 0 ==> (res matches Ok(d) && d.fresh(
                sz,
                -1,
                TypeMetatype::Uint,
                SubMetatype::UintPartialEnum,
                Datatype::ENUMTYPE | (types.dt(par).flags & Datatype::WARNING_ISSUED) | Datatype::HAS_STRIPPED,
                Seq::empty(),
            ) && (d.kind matches TypeKind::PartialEnum(data) && data.stripped == strip && data.parent == par
                && data.offset == off && data.enum_data.namemap.entries@.len() == 0)),
    {
        let mut res = Datatype::new_enum(sz, TypeMetatype::PartialEnum)?;
        res.flags = res.flags | types.get(par).inherit_for_partial();
        res.flags = res.flags | Datatype::HAS_STRIPPED;
        res.kind = TypeKind::PartialEnum(
            TypePartialEnumData {
                enum_data: TypeEnumData { namemap: NameMap::new() },
                stripped: strip,
                parent: par,
                offset: off,
            },
        );
        Ok(res)
    }

    /// A part of a union.
    pub fn new_partial_union(contain: TypeId, off: i32, sz: i32, strip: TypeId, types: &TypeFactory) -> (res: Result<
        Datatype,
    >)
        requires
            types.has(contain),
        ensures
            sz < 0 ==> Datatype::bad_size(res),
            sz >= 0 ==> (res matches Ok(d) && d.fresh(
                sz,
                1,
                TypeMetatype::PartialUnion,
                SubMetatype::PartialUnion,
                (types.dt(contain).flags & Datatype::WARNING_ISSUED) | (Datatype::NEEDS_RESOLUTION
                    | Datatype::HAS_STRIPPED),
                Seq::empty(),
            ) && d.kind == TypeKind::PartialUnion(
                TypePartialUnionData { stripped: strip, container: contain, offset: off },
            )),
    {
        let mut res = Datatype::new(sz, 1, TypeMetatype::PartialUnion)?;
        res.flags = types.get(contain).inherit_for_partial();
        res.flags = res.flags | (Datatype::NEEDS_RESOLUTION | Datatype::HAS_STRIPPED);
        res.kind = TypeKind::PartialUnion(
            TypePartialUnionData { stripped: strip, container: contain, offset: off },
        );
        Ok(res)
    }

    pub fn new_pointer_rel_empty() -> (res: Result<Datatype>)
        ensures
            res matches Ok(d) && d.fresh(0, -1, TypeMetatype::Ptr, SubMetatype::PtrRel, 0, Seq::empty()) && d.kind
                == TypeKind::PointerRel(
                TypePointerRelData {
                    pointer: TypePointerData { ptrto: None, spaceid: None, truncate: None, wordsize: 1 },
                    stripped: None,
                    parent: None,
                    offset: 0,
                },
            ),
    {
        let mut res = Datatype::new(0, -1, TypeMetatype::Ptr)?;
        res.kind = TypeKind::PointerRel(
            TypePointerRelData {
                pointer: TypePointerData { ptrto: None, spaceid: None, truncate: None, wordsize: 1 },
                stripped: None,
                parent: None,
                offset: 0,
            },
        );
        res.submeta = SubMetatype::PtrRel;
        Ok(res)
    }

    /// A new relative pointer.
    pub open spec fn is_new_pointer_rel(
        self,
        size: i32,
        pt: TypeId,
        ws: u32,
        par: TypeId,
        off: i32,
        target: Datatype,
    ) -> bool {
        self.is_made_pointer_rel(0, Seq::empty(), size, pt, ws, par, off, target)
    }

    /// A new relative pointer with an id and a name.
    pub open spec fn is_made_pointer_rel(
        self,
        id: u64,
        name: Seq<char>,
        size: i32,
        pt: TypeId,
        ws: u32,
        par: TypeId,
        off: i32,
        target: Datatype,
    ) -> bool {
        self.made(
            id,
            size,
            -1,
            TypeMetatype::Ptr,
            SubMetatype::PtrRel,
            pointer_flags(target, target.flags & (Datatype::CORETYPE | Datatype::WARNING_ISSUED))
                | Datatype::IS_PTRREL,
            name,
        ) && self.kind == TypeKind::PointerRel(
            TypePointerRelData {
                pointer: TypePointerData { ptrto: Some(pt), spaceid: None, truncate: None, wordsize: ws },
                stripped: None,
                parent: Some(par),
                offset: off,
            },
        )
    }

    /// A pointer that knows where in a parent it points.
    pub fn new_pointer_rel(sz: i32, pt: TypeId, ws: u32, par: TypeId, off: i32, types: &TypeFactory) -> (res: Result<
        Datatype,
    >)
        requires
            types.has(pt),
        ensures
            sz < 0 ==> Datatype::bad_size(res),
            sz >= 0 ==> (res matches Ok(d) && d.is_new_pointer_rel(sz, pt, ws, par, off, types.dt(pt))),
    {
        let mut res = Datatype::new_pointer(sz, pt, ws, types)?;
        res.kind = TypeKind::PointerRel(
            TypePointerRelData {
                pointer: TypePointerData { ptrto: Some(pt), spaceid: None, truncate: None, wordsize: ws },
                stripped: None,
                parent: Some(par),
                offset: off,
            },
        );
        res.flags = res.flags | Datatype::IS_PTRREL;
        res.submeta = SubMetatype::PtrRel;
        Ok(res)
    }

    /// Code whose prototype is not known yet.
    pub fn new_code() -> (res: Result<Datatype>)
        ensures
            res matches Ok(d) && d.fresh(
                1,
                1,
                TypeMetatype::Code,
                SubMetatype::Code,
                Datatype::TYPE_INCOMPLETE,
                Seq::empty(),
            ) && d.kind == TypeKind::Code(TypeCodeData { proto: None, signature: None, factory: false }),
    {
        let mut res = Datatype::new(1, 1, TypeMetatype::Code)?;
        res.kind = TypeKind::Code(TypeCodeData { proto: None, signature: None, factory: false });
        res.flags = Datatype::TYPE_INCOMPLETE;
        Ok(res)
    }

    pub fn new_spacebase_empty() -> (res: Result<Datatype>)
        ensures
            res matches Ok(d) && d.fresh(
                0,
                1,
                TypeMetatype::Spacebase,
                SubMetatype::Spacebase,
                0,
                Seq::empty(),
            ) && d.kind == TypeKind::Spacebase(TypeSpacebaseData { spaceid: None, scope_id: 0 }),
    {
        let mut res = Datatype::new(0, 1, TypeMetatype::Spacebase)?;
        res.kind = TypeKind::Spacebase(TypeSpacebaseData { spaceid: None, scope_id: 0 });
        Ok(res)
    }

    /// The symbols of a scope that live in a space, as one data-type.
    pub fn new_spacebase(id: &SpaceRef, scope: u64) -> (res: Result<Datatype>)
        ensures
            res matches Ok(d) && d.fresh(
                0,
                1,
                TypeMetatype::Spacebase,
                SubMetatype::Spacebase,
                0,
                Seq::empty(),
            ) && d.kind == TypeKind::Spacebase(TypeSpacebaseData { spaceid: Some(*id), scope_id: scope }),
    {
        let mut res = Datatype::new(0, 1, TypeMetatype::Spacebase)?;
        res.kind = TypeKind::Spacebase(TypeSpacebaseData { spaceid: Some(id.clone()), scope_id: scope });
        Ok(res)
    }

    /// A copy of the data-type.
    pub fn clone_type(&self, types: &TypeFactory) -> (res: Result<Datatype>)
        requires
            self.kind is Struct && self.fields().len() == 1 ==> types.has(self.fields()[0].tp),
        ensures
            res matches Ok(d) && d.alike(Datatype { flags: clone_flags(*self, *types), ..*self }),
    {
        let mut flags: u32 = self.flags;
        let kind = match &self.kind {
            TypeKind::Base => TypeKind::Base,
            TypeKind::Char => {
                flags = flags | Datatype::CHARTYPE;
                TypeKind::Char
            },
            TypeKind::Unicode => TypeKind::Unicode,
            TypeKind::Void => {
                flags = flags | Datatype::CORETYPE;
                TypeKind::Void
            },
            TypeKind::Pointer(pointer) => TypeKind::Pointer(pointer.copy()),
            TypeKind::Array(array) => TypeKind::Array(
                TypeArrayData { arrayof: array.arrayof, arraysize: array.arraysize },
            ),
            TypeKind::PointerRel(data) => TypeKind::PointerRel(
                TypePointerRelData {
                    pointer: data.pointer.copy(),
                    stripped: data.stripped,
                    parent: data.parent,
                    offset: data.offset,
                },
            ),
            TypeKind::Spacebase(data) => TypeKind::Spacebase(
                TypeSpacebaseData { spaceid: copy_space(&data.spaceid), scope_id: data.scope_id },
            ),
            TypeKind::Enum(data) => TypeKind::Enum(TypeEnumData { namemap: data.namemap.copy() }),
            TypeKind::Struct(data) => {
                if TypeFactory::single_field_fills(data.field.as_slice(), self.size, types) {
                    flags = flags | Datatype::NEEDS_RESOLUTION;
                }
                TypeKind::Struct(
                    TypeStructData {
                        field: copy_fields(data.field.as_slice()),
                        bitfield: copy_bitfields(data.bitfield.as_slice()),
                    },
                )
            },
            TypeKind::Union(data) => TypeKind::Union(
                TypeUnionData { field: copy_fields(data.field.as_slice()) },
            ),
            TypeKind::PartialEnum(data) => TypeKind::PartialEnum(
                TypePartialEnumData {
                    enum_data: TypeEnumData { namemap: data.enum_data.namemap.copy() },
                    stripped: data.stripped,
                    parent: data.parent,
                    offset: data.offset,
                },
            ),
            TypeKind::PartialStruct(data) => TypeKind::PartialStruct(
                TypePartialStructData {
                    stripped: data.stripped,
                    container: data.container,
                    offset: data.offset,
                },
            ),
            TypeKind::PartialUnion(data) => TypeKind::PartialUnion(
                TypePartialUnionData {
                    stripped: data.stripped,
                    container: data.container,
                    offset: data.offset,
                },
            ),
            TypeKind::Code(data) => TypeKind::Code(data.copy_data()?),
        };
        Ok(
            Datatype {
                id: self.id,
                size: self.size,
                flags,
                name: self.name.clone(),
                display_name: self.display_name.clone(),
                metatype: self.metatype,
                submeta: self.submeta,
                typedef_imm: self.typedef_imm,
                alignment: self.alignment,
                align_size: self.align_size,
                kind,
            },
        )
    }
}

} // verus!

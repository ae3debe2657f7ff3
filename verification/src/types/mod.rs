//! Data-types: what they are made of, how they are built and what can be read
//! from them directly.
use vstd::prelude::*;
use crate::architecture::Architecture;
use crate::address::BitRange;
use crate::fspec::FuncProto;
use crate::ids::TypeId;
use crate::space::SpaceRef;
use crate::types::names::NameMap;


pub mod decode;
pub mod document;
pub mod encode;
pub mod enums;
pub mod fields;
pub mod finish;
pub mod forget;
pub mod grow;
pub mod inside;
pub mod kinds;
pub mod labels;
pub mod layout;
pub mod make;
pub mod members;
pub mod model;
pub mod cache;
pub mod chain;
pub mod change;
pub mod code;
pub mod compare;
pub mod compose;
pub mod create;
pub mod factory;
pub mod names;
pub mod near;
pub mod nest;
pub mod order;
pub mod organize;
pub mod piece;
pub mod pointers;
pub mod print;
pub mod read;
pub mod resolve;
pub mod settle;
pub mod suit;
pub mod tend;
pub mod typedefs;
pub mod vet;
pub mod walk;

verus! {

/// The broad class of a data-type.
#[derive(Copy, Clone, Debug, PartialEq, Eq, PartialOrd, Ord, Hash, Structural)]
pub enum TypeMetatype {
    PartialUnion,
    PartialStruct,
    PartialEnum,
    Union,
    Struct,
    EnumInt,
    EnumUint,
    Array,
    PtrRel,
    Ptr,
    Float,
    Code,
    Bool,
    Uint,
    Int,
    Unknown,
    Spacebase,
    Void,
}

impl TypeMetatype {
    /// The position of the class in the order of classes.
    pub open spec fn rank(self) -> int {
        match self {
            TypeMetatype::PartialUnion => 0,
            TypeMetatype::PartialStruct => 1,
            TypeMetatype::PartialEnum => 2,
            TypeMetatype::Union => 3,
            TypeMetatype::Struct => 4,
            TypeMetatype::EnumInt => 5,
            TypeMetatype::EnumUint => 6,
            TypeMetatype::Array => 7,
            TypeMetatype::PtrRel => 8,
            TypeMetatype::Ptr => 9,
            TypeMetatype::Float => 10,
            TypeMetatype::Code => 11,
            TypeMetatype::Bool => 12,
            TypeMetatype::Uint => 13,
            TypeMetatype::Int => 14,
            TypeMetatype::Unknown => 15,
            TypeMetatype::Spacebase => 16,
            TypeMetatype::Void => 17,
        }
    }

    pub fn position(self) -> (res: i32)
        ensures
            res == self.rank(),
    {
        match self {
            TypeMetatype::PartialUnion => 0,
            TypeMetatype::PartialStruct => 1,
            TypeMetatype::PartialEnum => 2,
            TypeMetatype::Union => 3,
            TypeMetatype::Struct => 4,
            TypeMetatype::EnumInt => 5,
            TypeMetatype::EnumUint => 6,
            TypeMetatype::Array => 7,
            TypeMetatype::PtrRel => 8,
            TypeMetatype::Ptr => 9,
            TypeMetatype::Float => 10,
            TypeMetatype::Code => 11,
            TypeMetatype::Bool => 12,
            TypeMetatype::Uint => 13,
            TypeMetatype::Int => 14,
            TypeMetatype::Unknown => 15,
            TypeMetatype::Spacebase => 16,
            TypeMetatype::Void => 17,
        }
    }

    /// The row of the class in the cache of base data-types.
    pub fn cache_index(self) -> (res: usize)
        requires
            self.rank() >= TypeMetatype::Float.rank(),
        ensures
            res == self.rank() - TypeMetatype::Float.rank(),
            res < 8,
    {
        (self.position() - 10) as usize
    }
}

/// Classes in the same position are the same.
pub proof fn metatype_rank_injective(a: TypeMetatype, b: TypeMetatype)
    ensures
        a.rank() == b.rank() <==> a == b,
        0 <= a.rank() <= 17,
{
}

/// The fine class of a data-type, by which data-types are ordered.
#[derive(Copy, Clone, Debug, PartialEq, Eq, PartialOrd, Ord, Hash, Structural)]
pub enum SubMetatype {
    PartialUnion,
    Union,
    Struct,
    Array,
    PtrStruct,
    PtrRel,
    Ptr,
    PtrRelUnk,
    Float,
    Code,
    Bool,
    UintUnicode,
    IntUnicode,
    UintEnum,
    UintPartialEnum,
    IntEnum,
    UintPlain,
    IntPlain,
    UintChar,
    IntChar,
    PartialStruct,
    Unknown,
    Spacebase,
    Void,
}

impl SubMetatype {
    /// The position of the class in the order of classes.
    pub open spec fn rank(self) -> int {
        match self {
            SubMetatype::PartialUnion => 0,
            SubMetatype::Union => 1,
            SubMetatype::Struct => 2,
            SubMetatype::Array => 3,
            SubMetatype::PtrStruct => 4,
            SubMetatype::PtrRel => 5,
            SubMetatype::Ptr => 6,
            SubMetatype::PtrRelUnk => 7,
            SubMetatype::Float => 8,
            SubMetatype::Code => 9,
            SubMetatype::Bool => 10,
            SubMetatype::UintUnicode => 11,
            SubMetatype::IntUnicode => 12,
            SubMetatype::UintEnum => 13,
            SubMetatype::UintPartialEnum => 14,
            SubMetatype::IntEnum => 15,
            SubMetatype::UintPlain => 16,
            SubMetatype::IntPlain => 17,
            SubMetatype::UintChar => 18,
            SubMetatype::IntChar => 19,
            SubMetatype::PartialStruct => 20,
            SubMetatype::Unknown => 21,
            SubMetatype::Spacebase => 22,
            SubMetatype::Void => 23,
        }
    }

    pub fn position(self) -> (res: i32)
        ensures
            res == self.rank(),
    {
        match self {
            SubMetatype::PartialUnion => 0,
            SubMetatype::Union => 1,
            SubMetatype::Struct => 2,
            SubMetatype::Array => 3,
            SubMetatype::PtrStruct => 4,
            SubMetatype::PtrRel => 5,
            SubMetatype::Ptr => 6,
            SubMetatype::PtrRelUnk => 7,
            SubMetatype::Float => 8,
            SubMetatype::Code => 9,
            SubMetatype::Bool => 10,
            SubMetatype::UintUnicode => 11,
            SubMetatype::IntUnicode => 12,
            SubMetatype::UintEnum => 13,
            SubMetatype::UintPartialEnum => 14,
            SubMetatype::IntEnum => 15,
            SubMetatype::UintPlain => 16,
            SubMetatype::IntPlain => 17,
            SubMetatype::UintChar => 18,
            SubMetatype::IntChar => 19,
            SubMetatype::PartialStruct => 20,
            SubMetatype::Unknown => 21,
            SubMetatype::Spacebase => 22,
            SubMetatype::Void => 23,
        }
    }
}

/// Fine classes in the same position are the same.
pub proof fn submeta_rank_injective(a: SubMetatype, b: SubMetatype)
    ensures
        a.rank() == b.rank() <==> a == b,
        0 <= a.rank() <= 23,
{
}

/// The storage class that a data-type asks for.
#[derive(Copy, Clone, Debug, PartialEq, Eq, PartialOrd, Ord, Hash, Structural)]
pub enum TypeClass {
    General,
    Float,
    Ptr,
    HiddenRet,
    Vector,
    Class1,
    Class2,
    Class3,
    Class4,
}

/// The fine class of a data-type of which only the broad class is known.
pub open spec fn base_submeta(meta: TypeMetatype) -> SubMetatype {
    match meta {
        TypeMetatype::PartialUnion => SubMetatype::PartialUnion,
        TypeMetatype::PartialStruct => SubMetatype::PartialStruct,
        TypeMetatype::PartialEnum => SubMetatype::UintPartialEnum,
        TypeMetatype::Union => SubMetatype::Union,
        TypeMetatype::Struct => SubMetatype::Struct,
        TypeMetatype::EnumInt => SubMetatype::IntEnum,
        TypeMetatype::EnumUint => SubMetatype::UintEnum,
        TypeMetatype::Array => SubMetatype::Array,
        TypeMetatype::PtrRel => SubMetatype::PtrRel,
        TypeMetatype::Ptr => SubMetatype::Ptr,
        TypeMetatype::Float => SubMetatype::Float,
        TypeMetatype::Code => SubMetatype::Code,
        TypeMetatype::Bool => SubMetatype::Bool,
        TypeMetatype::Uint => SubMetatype::UintPlain,
        TypeMetatype::Int => SubMetatype::IntPlain,
        TypeMetatype::Unknown => SubMetatype::Unknown,
        TypeMetatype::Spacebase => SubMetatype::Spacebase,
        TypeMetatype::Void => SubMetatype::Void,
    }
}

pub fn base2sub(meta: TypeMetatype) -> (res: SubMetatype)
    ensures
        res == base_submeta(meta),
{
    match meta {
        TypeMetatype::PartialUnion => SubMetatype::PartialUnion,
        TypeMetatype::PartialStruct => SubMetatype::PartialStruct,
        TypeMetatype::PartialEnum => SubMetatype::UintPartialEnum,
        TypeMetatype::Union => SubMetatype::Union,
        TypeMetatype::Struct => SubMetatype::Struct,
        TypeMetatype::EnumInt => SubMetatype::IntEnum,
        TypeMetatype::EnumUint => SubMetatype::UintEnum,
        TypeMetatype::Array => SubMetatype::Array,
        TypeMetatype::PtrRel => SubMetatype::PtrRel,
        TypeMetatype::Ptr => SubMetatype::Ptr,
        TypeMetatype::Float => SubMetatype::Float,
        TypeMetatype::Code => SubMetatype::Code,
        TypeMetatype::Bool => SubMetatype::Bool,
        TypeMetatype::Uint => SubMetatype::UintPlain,
        TypeMetatype::Int => SubMetatype::IntPlain,
        TypeMetatype::Unknown => SubMetatype::Unknown,
        TypeMetatype::Spacebase => SubMetatype::Spacebase,
        TypeMetatype::Void => SubMetatype::Void,
    }
}

/// The nearest array found in a data-type.
#[derive(Clone, Copy, Debug, PartialEq, Eq, Structural)]
pub struct Nearest {
    pub distance: i64,
    pub offset: i64,
    pub el_size: i32,
}

/// A value written with the names of an enumeration.
#[derive(Debug)]
pub struct EnumRepresentation {
    pub matchname: Vec<String>,
    pub complement: bool,
    pub shift_amount: i32,
}

impl EnumRepresentation {
    pub fn new() -> (res: EnumRepresentation)
        ensures
            res.matchname@.len() == 0,
            !res.complement,
            res.shift_amount == 0,
    {
        EnumRepresentation { matchname: Vec::new(), complement: false, shift_amount: 0 }
    }
}

/// What is known of a structure while its fields are being decoded.
#[derive(Debug)]
pub struct FieldAccum {
    pub last_off: i32,
    pub calc_size: i32,
    pub calc_align: i32,
    pub warning: String,
}

#[derive(Debug)]
pub struct TypePointerData {
    pub ptrto: Option<TypeId>,
    pub spaceid: Option<SpaceRef>,
    pub truncate: Option<TypeId>,
    pub wordsize: u32,
}

#[derive(Debug)]
pub struct TypeArrayData {
    pub arrayof: Option<TypeId>,
    pub arraysize: i32,
}

#[derive(Debug)]
pub struct TypeEnumData {
    pub namemap: NameMap,
}

#[derive(Debug)]
pub struct TypeStructData {
    pub field: Vec<TypeField>,
    pub bitfield: Vec<TypeBitField>,
}

#[derive(Debug)]
pub struct TypeUnionData {
    pub field: Vec<TypeField>,
}

#[derive(Debug)]
pub struct TypePartialEnumData {
    pub enum_data: TypeEnumData,
    pub stripped: TypeId,
    pub parent: TypeId,
    pub offset: i32,
}

#[derive(Debug)]
pub struct TypePartialStructData {
    pub stripped: TypeId,
    pub container: TypeId,
    pub offset: i32,
}

#[derive(Debug)]
pub struct TypePartialUnionData {
    pub stripped: TypeId,
    pub container: TypeId,
    pub offset: i32,
}

#[derive(Debug)]
pub struct TypePointerRelData {
    pub pointer: TypePointerData,
    pub stripped: Option<TypeId>,
    pub parent: Option<TypeId>,
    pub offset: i32,
}

/// The part of a prototype by which code data-types are compared.
#[derive(Debug)]
pub struct CodeSignature {
    pub model_name: Option<String>,
    pub params: Vec<TypeId>,
    pub output: Option<TypeId>,
    pub comparable_flags: u32,
}

#[derive(Debug)]
pub struct TypeCodeData {
    pub proto: Option<FuncProto>,
    pub signature: Option<CodeSignature>,
    /// Whether the data-type can hand out a code data-type without a prototype.
    pub factory: bool,
}

#[derive(Debug)]
pub struct TypeSpacebaseData {
    pub spaceid: Option<SpaceRef>,
    pub scope_id: u64,
}

/// What is particular to one kind of data-type.
#[derive(Debug)]
pub enum TypeKind {
    Base,
    Char,
    Unicode,
    Void,
    Pointer(TypePointerData),
    Array(TypeArrayData),
    Enum(TypeEnumData),
    Struct(TypeStructData),
    Union(TypeUnionData),
    PartialEnum(TypePartialEnumData),
    PartialStruct(TypePartialStructData),
    PartialUnion(TypePartialUnionData),
    PointerRel(TypePointerRelData),
    Code(TypeCodeData),
    Spacebase(TypeSpacebaseData),
}

/// A data-type.
#[derive(Debug)]
pub struct Datatype {
    pub id: u64,
    pub size: i32,
    pub flags: u32,
    pub name: String,
    pub display_name: String,
    pub metatype: TypeMetatype,
    pub submeta: SubMetatype,
    pub typedef_imm: Option<TypeId>,
    pub alignment: i32,
    pub align_size: i32,
    pub kind: TypeKind,
}

/// A field of a structure or a union.
#[derive(Debug)]
pub struct TypeField {
    pub ident: i32,
    pub offset: i32,
    pub name: String,
    pub tp: TypeId,
}

/// A field that does not fill whole bytes.
#[derive(Debug)]
pub struct TypeBitField {
    pub name: String,
    pub tp: TypeId,
    pub bits: BitRange,
    pub ident: i32,
}

/// A bit field and where its structure lies.
#[derive(Clone, Copy, Debug, PartialEq, Eq, Structural)]
pub struct BitFieldTriple {
    pub immed_container: TypeId,
    pub bitfield: usize,
    pub offset: i32,
}

/// An entry of the index of data-types by name.
#[derive(Debug)]
pub struct NamedType {
    pub name: String,
    pub id: u64,
    pub tp: TypeId,
}

/// A warning about a data-type.
#[derive(Debug)]
pub struct TypeWarning {
    pub tp: TypeId,
    pub text: String,
}

/// The owner of all data-types.
pub struct TypeFactory {
    pub size_of_int: i32,
    pub size_of_long: i32,
    pub size_of_char: i32,
    pub size_of_wchar: i32,
    pub size_of_pointer: i32,
    pub size_of_alt_pointer: i32,
    pub enumsize: i32,
    pub enumtype: TypeMetatype,
    pub align_map: Vec<i32>,
    /// The data-types, each in the slot that its handle numbers.
    pub arena: Vec<Option<Datatype>>,
    /// The data-types in the order of `datatype_compare`.
    pub tree: Vec<TypeId>,
    /// The data-types with an id, by name and id.
    pub nametree: Vec<NamedType>,
    /// Base data-types by size (up to eight bytes) and class.
    pub typecache: Vec<Option<TypeId>>,
    pub typecache10: Option<TypeId>,
    pub typecache16: Option<TypeId>,
    pub type_nochar: Option<TypeId>,
    pub charcache: Vec<Option<TypeId>>,
    /// Data-types with a warning, and the warning.
    pub warnings: Vec<TypeWarning>,
    pub incomplete_typedef: Vec<TypeId>,
    pub default_data_space: Option<SpaceRef>,
    pub max_basetype_size: i32,
    /// How deep the containment of data-types in one another goes.
    pub depth: Ghost<Map<TypeId, nat>>,
    /// Whether all data-types can be walked into, with none that holds itself.
    pub firmness: Ghost<bool>,
}

/// The data-types of a program.
pub fn types_of(glb: &Architecture) -> (res: &TypeFactory)
    ensures
        *res == glb.types,
{
    &glb.types
}

/// The data-types of a program, to be changed.
pub fn types_of_mut(glb: &mut Architecture) -> (res: &mut TypeFactory)
    ensures
        *res == old(glb).types,
        *final(glb) == (Architecture { types: *final(res), ..*old(glb) }),
{
    &mut glb.types
}

} // verus!

//! What a valid collection of data-types looks like.
use vstd::prelude::*;
use crate::ids::TypeId;
use crate::types::{
    Datatype, TypeBitField, TypeFactory, TypeField, TypeKind, TypeMetatype, TypePointerData,
};

verus! {

impl Datatype {
    /// Whether a property bit is set.
    pub open spec fn flag(self, bits: u32) -> bool {
        (self.flags & bits) != 0
    }

    /// What a pointer, plain or relative, holds.
    pub open spec fn pointer(self) -> TypePointerData {
        match self.kind {
            TypeKind::Pointer(data) => data,
            TypeKind::PointerRel(data) => data.pointer,
            _ => arbitrary(),
        }
    }

    pub open spec fn is_pointer(self) -> bool {
        self.kind is Pointer || self.kind is PointerRel
    }

    /// The fields of a structure or a union.
    pub open spec fn fields(self) -> Seq<TypeField> {
        match self.kind {
            TypeKind::Struct(data) => data.field@,
            TypeKind::Union(data) => data.field@,
            _ => Seq::empty(),
        }
    }

    /// The bit fields of a structure.
    pub open spec fn bitfields(self) -> Seq<TypeBitField> {
        match self.kind {
            TypeKind::Struct(data) => data.bitfield@,
            _ => Seq::empty(),
        }
    }

    pub open spec fn is_partial(self) -> bool {
        self.kind is PartialEnum || self.kind is PartialStruct || self.kind is PartialUnion
    }

    /// Where a partial data-type starts inside the data-type it is a part of.
    pub open spec fn part_offset(self) -> i32 {
        match self.kind {
            TypeKind::PartialEnum(data) => data.offset,
            TypeKind::PartialStruct(data) => data.offset,
            TypeKind::PartialUnion(data) => data.offset,
            _ => arbitrary(),
        }
    }

    /// The data-type that a partial data-type is a part of.
    pub open spec fn part_of(self) -> TypeId {
        match self.kind {
            TypeKind::PartialEnum(data) => data.parent,
            TypeKind::PartialStruct(data) => data.container,
            TypeKind::PartialUnion(data) => data.container,
            _ => arbitrary(),
        }
    }

    /// The data-type that stands for this one where no detail is wanted.
    pub open spec fn stripped(self) -> Option<TypeId> {
        match self.kind {
            TypeKind::PartialEnum(data) => Some(data.stripped),
            TypeKind::PartialStruct(data) => Some(data.stripped),
            TypeKind::PartialUnion(data) => Some(data.stripped),
            TypeKind::PointerRel(data) => data.stripped,
            _ => None,
        }
    }

    /// A broad class that needs nothing beside it: parts of structures and unions are
    /// among them, as their contents can be left out.
    pub open spec fn plain_class(self) -> bool {
        self.metatype is Float || self.metatype is Bool || self.metatype is Uint || self.metatype is Int
            || self.metatype is Unknown || self.metatype is PartialStruct || self.metatype is PartialUnion
    }

    /// The broad class fits the kind.
    pub open spec fn class_fits(self) -> bool {
        match self.kind {
            TypeKind::Base | TypeKind::Char | TypeKind::Unicode => self.plain_class(),
            TypeKind::Void => self.metatype is Void,
            TypeKind::Pointer(_) => self.metatype is Ptr,
            TypeKind::Array(_) => self.metatype is Array,
            TypeKind::Enum(_) => self.metatype is Int || self.metatype is Uint,
            TypeKind::Struct(_) => self.metatype is Struct,
            TypeKind::Union(_) => self.metatype is Union,
            TypeKind::PartialEnum(_) => self.metatype is Int || self.metatype is Uint,
            TypeKind::PartialStruct(_) => self.metatype is PartialStruct,
            TypeKind::PartialUnion(_) => self.metatype is PartialUnion,
            TypeKind::PointerRel(_) => self.metatype is Ptr,
            TypeKind::Code(_) => self.metatype is Code,
            TypeKind::Spacebase(_) => self.metatype is Spacebase,
        }
    }

    /// A data-type of the class of parts says what it is a part of.
    pub open spec fn genuine(self) -> bool {
        &&& self.metatype is PartialStruct ==> self.kind is PartialStruct
        &&& self.metatype is PartialUnion ==> self.kind is PartialUnion
    }

    /// The fine class fits the kind.
    pub open spec fn submeta_fits(self) -> bool {
        match self.kind {
            TypeKind::Base => self.submeta == crate::types::base_submeta(self.metatype),
            TypeKind::Char => self.submeta is IntChar || self.submeta is UintChar,
            TypeKind::Unicode => self.submeta is IntUnicode || self.submeta is UintUnicode,
            TypeKind::Void => self.submeta is Void,
            TypeKind::Pointer(_) => self.submeta is Ptr || self.submeta is PtrStruct,
            TypeKind::Array(_) => self.submeta is Array,
            TypeKind::Enum(_) => self.submeta is IntEnum || self.submeta is UintEnum,
            TypeKind::Struct(_) => self.submeta is Struct,
            TypeKind::Union(_) => self.submeta is Union,
            TypeKind::PartialEnum(_) => self.submeta is UintPartialEnum,
            TypeKind::PartialStruct(_) => self.submeta is PartialStruct,
            TypeKind::PartialUnion(_) => self.submeta is PartialUnion,
            TypeKind::PointerRel(_) => self.submeta is PtrRel || self.submeta is PtrRelUnk,
            TypeKind::Code(_) => self.submeta is Code,
            TypeKind::Spacebase(_) => self.submeta is Spacebase,
        }
    }

    /// The properties that only some kinds can have.
    pub open spec fn flags_fit(self) -> bool {
        &&& self.flag(Datatype::HAS_STRIPPED) ==> self.stripped() is Some
        &&& self.flag(Datatype::ENUMTYPE) ==> self.kind is Enum || self.kind is PartialEnum
        &&& self.flag(Datatype::HAS_BITFIELDS) ==> self.kind is Struct || self.kind is PartialStruct
    }

    /// Two data-types with the same contents.
    pub open spec fn alike(self, other: Datatype) -> bool {
        &&& self.id == other.id
        &&& self.size == other.size
        &&& self.flags == other.flags
        &&& self.name@ == other.name@
        &&& self.display_name@ == other.display_name@
        &&& self.metatype == other.metatype
        &&& self.submeta == other.submeta
        &&& self.typedef_imm == other.typedef_imm
        &&& self.alignment == other.alignment
        &&& self.align_size == other.align_size
        &&& self.kind.alike(other.kind)
    }
}

impl TypeKind {
    /// Two kinds with the same contents.
    pub open spec fn alike(self, other: TypeKind) -> bool {
        match self {
            TypeKind::Base => other is Base,
            TypeKind::Char => other is Char,
            TypeKind::Unicode => other is Unicode,
            TypeKind::Void => other is Void,
            TypeKind::Pointer(data) => other matches TypeKind::Pointer(o) && o == data,
            TypeKind::Array(data) => other matches TypeKind::Array(o) && o == data,
            TypeKind::Enum(data) => other matches TypeKind::Enum(o) && o.namemap.entries@ == data.namemap.entries@,
            TypeKind::Struct(data) => other matches TypeKind::Struct(o) && o.field@ == data.field@ && o.bitfield@
                == data.bitfield@,
            TypeKind::Union(data) => other matches TypeKind::Union(o) && o.field@ == data.field@,
            TypeKind::PartialEnum(data) => other matches TypeKind::PartialEnum(o) && o.stripped == data.stripped
                && o.parent == data.parent && o.offset == data.offset && o.enum_data.namemap.entries@
                == data.enum_data.namemap.entries@,
            TypeKind::PartialStruct(data) => other matches TypeKind::PartialStruct(o) && o == data,
            TypeKind::PartialUnion(data) => other matches TypeKind::PartialUnion(o) && o == data,
            TypeKind::PointerRel(data) => other matches TypeKind::PointerRel(o) && o == data,
            TypeKind::Code(data) => other matches TypeKind::Code(o) && o.alike(data),
            TypeKind::Spacebase(data) => other matches TypeKind::Spacebase(o) && o == data,
        }
    }
}

impl crate::types::CodeSignature {
    pub open spec fn alike(self, other: crate::types::CodeSignature) -> bool {
        &&& self.model_name == other.model_name
        &&& self.params@ == other.params@
        &&& self.output == other.output
        &&& self.comparable_flags == other.comparable_flags
    }
}

impl crate::types::TypeCodeData {
    pub open spec fn alike(self, other: crate::types::TypeCodeData) -> bool {
        &&& (self.proto is Some) == (other.proto is Some)
        &&& self.proto is Some ==> self.proto->0.alike(other.proto->0)
        &&& (self.signature is Some) == (other.signature is Some)
        &&& self.signature is Some ==> self.signature->0.alike(other.signature->0)
        &&& self.factory == other.factory
    }
}

/// The greatest depth of the data-types of the first `n` fields, plus one.
pub open spec fn fields_depth(fields: Seq<TypeField>, depth: Map<TypeId, nat>, n: nat) -> nat
    decreases n,
{
    if n == 0 {
        0
    } else {
        let rest = fields_depth(fields, depth, (n - 1) as nat);
        let here = depth[fields[n - 1].tp] + 1;
        if here > rest { here } else { rest }
    }
}

/// Every field lies below that depth.
pub proof fn field_below(fields: Seq<TypeField>, depth: Map<TypeId, nat>, n: nat, i: int)
    requires
        0 <= i < n <= fields.len(),
    ensures
        depth[fields[i].tp] < fields_depth(fields, depth, n),
    decreases n,
{
    if i < n - 1 {
        field_below(fields, depth, (n - 1) as nat, i);
    }
}

impl TypeFactory {
    /// Whether a handle names a data-type.
    pub open spec fn has(self, id: TypeId) -> bool {
        id.0 < self.arena@.len() && self.arena@[id.0 as int] is Some
    }

    /// The data-type that a handle names.
    pub open spec fn dt(self, id: TypeId) -> Datatype {
        self.arena@[id.0 as int]->0
    }

    /// The size of the data-type that a handle names.
    pub open spec fn size_of(self, id: TypeId) -> int {
        self.dt(id).size as int
    }

    pub open spec fn has_option(self, id: Option<TypeId>) -> bool {
        id is Some ==> self.has(id->0)
    }

    /// The fields name data-types and do not start before their data-type does.
    pub open spec fn fields_known(self, fields: Seq<TypeField>) -> bool {
        forall|i: int| #![trigger fields[i]] 0 <= i < fields.len() ==> self.has(fields[i].tp) && 0 <= fields[i].offset
    }

    /// The fields name data-types and lie inside the given number of bytes.
    pub open spec fn fields_inside(self, fields: Seq<TypeField>, size: int) -> bool {
        forall|i: int| #![trigger fields[i]]
            0 <= i < fields.len() ==> {
                &&& self.has(fields[i].tp)
                &&& !(self.dt(fields[i].tp).kind is Spacebase)
                &&& 0 <= fields[i].offset
                &&& fields[i].offset + self.size_of(fields[i].tp) <= size
            }
    }

    /// The fields follow one another without overlap.
    pub open spec fn fields_in_order(self, fields: Seq<TypeField>) -> bool {
        forall|i: int, j: int| #![trigger fields[i], fields[j]]
            0 <= i < j < fields.len() ==> fields[i].offset + self.size_of(fields[i].tp) <= fields[j].offset
    }

    /// The bit fields name data-types and lie in a sensible place.
    pub open spec fn bitfields_valid(self, bits: Seq<TypeBitField>) -> bool {
        forall|i: int| #![trigger bits[i]]
            0 <= i < bits.len() ==> {
                &&& self.has(bits[i].tp)
                &&& 0 <= bits[i].bits.byte_offset
                &&& 0 <= bits[i].bits.byte_size
                &&& bits[i].bits.byte_offset + bits[i].bits.byte_size <= i32::MAX
            }
    }

    /// What the data of a pointer satisfies.
    pub open spec fn pointer_valid(self, data: TypePointerData) -> bool {
        &&& data.ptrto is Some
        &&& self.has(data.ptrto->0)
        &&& self.has_option(data.truncate)
        &&& data.truncate is Some ==> {
            &&& self.dt(data.truncate->0).is_pointer()
            &&& self.dt(data.truncate->0).pointer().truncate is None
        }
        &&& data.spaceid is Some ==> data.spaceid->0.valid()
    }

    /// A data-type that can stand for one of a size where no detail is wanted: it has no
    /// fields or symbols, and takes up room where the other one does.
    pub open spec fn stands_in(self, id: TypeId, size: int) -> bool {
        &&& !(self.dt(id).kind is Spacebase)
        &&& !(self.dt(id).kind is Struct)
        &&& !(self.dt(id).kind is Union)
        &&& size >= 1 ==> self.dt(id).align_size >= 1
    }

    /// What is particular to the kind of a data-type is sound.
    #[verifier::opaque]
    pub open spec fn kind_valid(self, d: Datatype) -> bool {
        match d.kind {
            TypeKind::Pointer(data) => self.pointer_valid(data),
            TypeKind::PointerRel(data) => {
                &&& self.pointer_valid(data.pointer)
                &&& data.parent is Some
                &&& self.has(data.parent->0)
                &&& self.has_option(data.stripped)
                &&& data.stripped is Some ==> self.stands_in(data.stripped->0, d.size as int)
            },
            TypeKind::Array(data) => {
                &&& data.arrayof is Some
                &&& self.has(data.arrayof->0)
                &&& data.arraysize >= 0
            },
            TypeKind::Enum(data) => data.namemap.sorted(),
            TypeKind::Struct(data) => {
                &&& self.fields_known(data.field@)
                &&& self.bitfields_valid(data.bitfield@)
                &&& data.field@.len() <= i32::MAX
                &&& data.bitfield@.len() <= i32::MAX
            },
            TypeKind::Union(data) => {
                &&& self.fields_known(data.field@)
                &&& data.field@.len() <= i32::MAX
            },
            TypeKind::PartialEnum(data) => {
                &&& self.has(data.parent)
                &&& self.has(data.stripped)
                &&& self.stands_in(data.stripped, d.size as int)
                &&& data.enum_data.namemap.sorted()
                &&& self.dt(data.parent).kind is Enum || self.dt(data.parent).kind is PartialEnum
            },
            TypeKind::PartialStruct(data) => {
                &&& self.has(data.container)
                &&& self.has(data.stripped)
                &&& self.stands_in(data.stripped, d.size as int)
                &&& !(self.dt(data.container).kind is Spacebase)
                &&& !(self.dt(data.container).kind is PartialStruct)
            },
            TypeKind::PartialUnion(data) => {
                &&& self.has(data.container)
                &&& self.has(data.stripped)
                &&& self.stands_in(data.stripped, d.size as int)
                &&& self.dt(data.container).kind is Union
            },
            TypeKind::Code(data) => {
                &&& data.factory ==> data.signature is Some
                &&& data.signature is Some ==> {
                    &&& forall|i: int| #![trigger data.signature->0.params@[i]]
                        0 <= i < data.signature->0.params@.len() ==> self.has(data.signature->0.params@[i])
                    &&& self.has_option(data.signature->0.output)
                }
            },
            TypeKind::Spacebase(data) => data.spaceid is Some && data.spaceid->0.valid(),
            _ => true,
        }
    }

    /// A data-type can be walked into: its fields lie inside it without overlap, and it holds
    /// no space of symbols.
    #[verifier::opaque]
    pub open spec fn firm_kind(self, d: Datatype) -> bool {
        match d.kind {
            TypeKind::Array(data) => !(self.dt(data.arrayof->0).kind is Spacebase),
            TypeKind::Struct(data) => self.fields_inside(data.field@, d.size as int) && self.fields_in_order(data.field@),
            TypeKind::Union(data) => self.fields_inside(data.field@, d.size as int),
            _ => true,
        }
    }

    /// All data-types can be walked into, and no walk leads back to where it came from: no
    /// data-type holds itself.
    pub open spec fn firm(self) -> bool {
        self.firmness@
    }

    /// A data-type that can be walked into in this factory.
    pub open spec fn rests(self, d: Datatype) -> bool {
        &&& self.sound()
        &&& self.firm()
        &&& self.valid(d)
        &&& self.firm_kind(d)
    }

    /// How deep the containment below a data-type goes.
    pub open spec fn depth_of(self, d: Datatype) -> nat {
        match d.kind {
            TypeKind::Pointer(data) => if data.truncate is Some { 1 } else { 0 },
            TypeKind::PointerRel(data) => if data.pointer.truncate is Some { 1 } else { 0 },
            TypeKind::Array(data) => self.depth@[data.arrayof->0] + 1,
            TypeKind::Struct(data) => fields_depth(data.field@, self.depth@, data.field@.len()),
            TypeKind::Union(data) => fields_depth(data.field@, self.depth@, data.field@.len()),
            TypeKind::PartialEnum(data) => self.depth@[data.parent] + 1,
            TypeKind::PartialStruct(data) => self.depth@[data.container] + 1,
            TypeKind::PartialUnion(data) => self.depth@[data.container] + 1,
            TypeKind::Code(data) => if data.factory { 1 } else { 0 },
            _ => 0,
        }
    }

    /// The depth that is kept free for what a data-type may come to contain.
    pub open spec fn reserve_of(self, d: Datatype) -> nat {
        if d.is_pointer() || d.kind is Code { 1 } else { 0 }
    }

    /// How far the chain of data-types goes that this one refers to by name.
    pub open spec fn chain_of(self, d: Datatype) -> nat {
        let meant: nat = match d.typedef_imm {
            Some(tp) => (tp.0 + 1) as nat,
            None => 0,
        };
        if self.chain_of_kind(d) > meant {
            self.chain_of_kind(d)
        } else {
            meant
        }
    }

    /// How far the chain of data-types goes that a kind refers to by name.
    pub open spec fn chain_of_kind(self, d: Datatype) -> nat {
        match d.kind {
            TypeKind::Pointer(data) => ((data.ptrto->0).0 + 1) as nat,
            TypeKind::PointerRel(data) => if (data.pointer.ptrto->0).0 > (data.parent->0).0 {
                ((data.pointer.ptrto->0).0 + 1) as nat
            } else {
                ((data.parent->0).0 + 1) as nat
            },
            TypeKind::Array(data) => ((data.arrayof->0).0 + 1) as nat,
            TypeKind::PartialEnum(data) => (data.parent.0 + 1) as nat,
            TypeKind::PartialStruct(data) => (data.container.0 + 1) as nat,
            TypeKind::PartialUnion(data) => (data.container.0 + 1) as nat,
            _ => 0,
        }
    }

    /// A data-type that may stand in this factory.
    pub open spec fn valid(self, d: Datatype) -> bool {
        &&& d.size >= 0
        &&& d.align_size >= d.size
        &&& d.class_fits()
        &&& d.submeta_fits()
        &&& self.kind_valid(d)
        &&& self.has_option(d.typedef_imm)
        &&& d.flags_fit()
    }

    /// The cached base data-type of a size and a class.
    pub open spec fn cached(self, size: int, meta: TypeMetatype) -> Option<TypeId> {
        self.typecache@[8 * size + meta.rank() - 10]
    }

    /// The tables of the factory name data-types that fit their place.
    #[verifier::opaque]
    pub open spec fn indexed(self) -> bool {
        &&& self.typecache@.len() == 72
        &&& self.charcache@.len() == 5
        &&& forall|size: int, meta: TypeMetatype| #![trigger self.cached(size, meta)]
            0 <= size < 9 && meta.rank() >= 10 && self.cached(size, meta) is Some ==> {
                &&& self.has(self.cached(size, meta)->0)
                &&& self.dt(self.cached(size, meta)->0).size == size
                &&& self.dt(self.cached(size, meta)->0).metatype == meta
            }
        &&& self.typecache10 is Some ==> self.has(self.typecache10->0) && self.dt(self.typecache10->0).size == 10
            && self.dt(self.typecache10->0).metatype is Float
        &&& self.typecache16 is Some ==> self.has(self.typecache16->0) && self.dt(self.typecache16->0).size == 16
            && self.dt(self.typecache16->0).metatype is Float
        &&& self.type_nochar is Some ==> self.has(self.type_nochar->0) && self.dt(self.type_nochar->0).size == 1
            && self.dt(self.type_nochar->0).metatype is Int
        &&& forall|i: int| #![trigger self.charcache@[i]]
            0 <= i < 5 && self.charcache@[i] is Some ==> {
                &&& self.has(self.charcache@[i]->0)
                &&& self.dt(self.charcache@[i]->0).size == i
                &&& self.dt(self.charcache@[i]->0).metatype is Int || self.dt(self.charcache@[i]->0).metatype is Uint
            }
        &&& forall|i: int| #![trigger self.tree@[i]] 0 <= i < self.tree@.len() ==> self.has(self.tree@[i])
        &&& forall|i: int| #![trigger self.nametree@[i]]
            0 <= i < self.nametree@.len() ==> self.has(self.nametree@[i].tp)
    }

    /// The data-types of the factory are valid, and the tables of the factory fit them. If the
    /// factory is firm, each can be walked into and has a depth above those of its parts.
    #[verifier::opaque]
    pub open spec fn sound(self) -> bool {
        &&& self.indexed()
        &&& self.arena@.len() <= u32::MAX
        &&& forall|id: TypeId| #![trigger self.dt(id)]
            self.has(id) ==> {
                &&& self.valid(self.dt(id))
                &&& self.firm() ==> self.firm_kind(self.dt(id)) && self.depth_of(self.dt(id)) <= self.depth@[id]
                    && self.reserve_of(self.dt(id)) <= self.depth@[id]
                &&& self.chain_of(self.dt(id)) <= id.0
            }
    }

    /// What holds of a data-type that another one refers to.
    pub open spec fn member(self, id: TypeId) -> bool {
        &&& self.has(id)
        &&& self.valid(self.dt(id))
        &&& self.chain_of(self.dt(id)) <= id.0
        &&& self.firm() ==> {
            &&& self.firm_kind(self.dt(id))
            &&& self.depth_of(self.dt(id)) <= self.depth@[id]
            &&& self.reserve_of(self.dt(id)) <= self.depth@[id]
        }
    }

    pub open spec fn member_option(self, id: Option<TypeId>) -> bool {
        id is Some ==> self.member(id->0)
    }

    /// The data-types that a data-type refers to are members themselves.
    pub open spec fn linked(self, d: Datatype) -> bool {
        match d.kind {
            TypeKind::Pointer(data) => {
                &&& self.pointer_valid(data)
                &&& self.member(data.ptrto->0)
                &&& self.member_option(data.truncate)
            },
            TypeKind::PointerRel(data) => {
                &&& self.pointer_valid(data.pointer)
                &&& self.member(data.pointer.ptrto->0)
                &&& self.member_option(data.pointer.truncate)
                &&& data.parent is Some
                &&& self.member(data.parent->0)
                &&& self.member_option(data.stripped)
                &&& data.stripped is Some ==> self.stands_in(data.stripped->0, d.size as int)
            },
            TypeKind::Array(data) => {
                &&& data.arrayof is Some
                &&& self.member(data.arrayof->0)
                &&& self.firm_kind(d) ==> !(self.dt(data.arrayof->0).kind is Spacebase)
                &&& data.arraysize >= 0
            },
            TypeKind::Enum(data) => data.namemap.sorted(),
            TypeKind::Struct(data) => {
                &&& self.fields_linked(data.field@, d)
                &&& self.firm_kind(d) ==> self.fields_in_order(data.field@)
                &&& self.bitfields_valid(data.bitfield@)
                &&& data.field@.len() <= i32::MAX
                &&& data.bitfield@.len() <= i32::MAX
            },
            TypeKind::Union(data) => {
                &&& self.fields_linked(data.field@, d)
                &&& data.field@.len() <= i32::MAX
            },
            TypeKind::PartialEnum(data) => {
                &&& self.member(data.parent)
                &&& self.member(data.stripped)
                &&& self.stands_in(data.stripped, d.size as int)
                &&& data.enum_data.namemap.sorted()
                &&& self.dt(data.parent).kind is Enum || self.dt(data.parent).kind is PartialEnum
            },
            TypeKind::PartialStruct(data) => {
                &&& self.member(data.container)
                &&& self.member(data.stripped)
                &&& self.stands_in(data.stripped, d.size as int)
                &&& !(self.dt(data.container).kind is Spacebase)
                &&& !(self.dt(data.container).kind is PartialStruct)
            },
            TypeKind::PartialUnion(data) => {
                &&& self.member(data.container)
                &&& self.member(data.stripped)
                &&& self.stands_in(data.stripped, d.size as int)
                &&& self.dt(data.container).kind is Union
            },
            TypeKind::Code(data) => {
                &&& data.factory ==> data.signature is Some
                &&& data.signature is Some ==> {
                    &&& forall|i: int| #![trigger data.signature->0.params@[i]]
                        0 <= i < data.signature->0.params@.len() ==> self.member(data.signature->0.params@[i])
                    &&& self.member_option(data.signature->0.output)
                }
            },
            TypeKind::Spacebase(data) => data.spaceid is Some && data.spaceid->0.valid(),
            _ => true,
        }
    }

    /// The fields name members, and lie inside and below a data-type that can be walked into.
    pub open spec fn fields_linked(self, fields: Seq<TypeField>, d: Datatype) -> bool {
        forall|i: int| #![trigger fields[i]]
            0 <= i < fields.len() ==> {
                &&& self.member(fields[i].tp)
                &&& 0 <= fields[i].offset
                &&& self.depth@[fields[i].tp] < self.depth_of(d)
                &&& self.firm_kind(d) ==> {
                    &&& !(self.dt(fields[i].tp).kind is Spacebase)
                    &&& fields[i].offset + self.size_of(fields[i].tp) <= d.size
                }
            }
    }

    /// A handle that names a data-type of a sound factory names a member.
    pub proof fn look(self, id: TypeId)
        requires
            self.sound(),
            self.has(id),
        ensures
            self.member(id),
    {
        reveal(TypeFactory::sound);
        let d = self.dt(id);
    }

    /// What a valid data-type refers to are members.
    pub proof fn parts(self, d: Datatype)
        requires
            self.sound(),
            self.valid(d),
        ensures
            self.linked(d),
    {
        reveal(TypeFactory::kind_valid);
        reveal(TypeFactory::firm_kind);
        match d.kind {
            TypeKind::Pointer(data) => {
                self.look(data.ptrto->0);
                if data.truncate is Some {
                    self.look(data.truncate->0);
                }
            },
            TypeKind::PointerRel(data) => {
                self.look(data.pointer.ptrto->0);
                if data.pointer.truncate is Some {
                    self.look(data.pointer.truncate->0);
                }
                self.look(data.parent->0);
                if data.stripped is Some {
                    self.look(data.stripped->0);
                }
            },
            TypeKind::Array(data) => {
                self.look(data.arrayof->0);
            },
            TypeKind::Struct(data) => {
                self.fields_are_linked(data.field@, d);
            },
            TypeKind::Union(data) => {
                self.fields_are_linked(data.field@, d);
            },
            TypeKind::PartialEnum(data) => {
                self.look(data.parent);
                self.look(data.stripped);
            },
            TypeKind::PartialStruct(data) => {
                self.look(data.container);
                self.look(data.stripped);
            },
            TypeKind::PartialUnion(data) => {
                self.look(data.container);
                self.look(data.stripped);
            },
            TypeKind::Code(data) => {
                if data.signature is Some {
                    let params = data.signature->0.params@;
                    assert forall|i: int| #![trigger params[i]] 0 <= i < params.len() implies self.member(
                        params[i],
                    ) by {
                        self.look(params[i]);
                    }
                    if data.signature->0.output is Some {
                        self.look(data.signature->0.output->0);
                    }
                }
            },
            _ => {},
        }
    }

    proof fn fields_are_linked(self, fields: Seq<TypeField>, d: Datatype)
        requires
            self.sound(),
            self.fields_known(fields),
            d.kind is Struct || d.kind is Union,
            d.fields() == fields,
            self.depth_of(d) == fields_depth(fields, self.depth@, fields.len()),
        ensures
            self.fields_linked(fields, d),
    {
        reveal(TypeFactory::firm_kind);
        assert forall|i: int| #![trigger fields[i]] 0 <= i < fields.len() implies {
            &&& self.member(fields[i].tp)
            &&& 0 <= fields[i].offset
            &&& self.depth@[fields[i].tp] < self.depth_of(d)
            &&& self.firm_kind(d) ==> {
                &&& !(self.dt(fields[i].tp).kind is Spacebase)
                &&& fields[i].offset + self.size_of(fields[i].tp) <= d.size
            }
        } by {
            self.look(fields[i].tp);
            field_below(fields, self.depth@, fields.len(), i);
        }
    }

    /// The rank of a data-type in walks into what it contains: a space of
    /// symbols comes above everything that a symbol can be.
    pub open spec fn above(self, d: Datatype) -> nat {
        if d.kind is Spacebase { 1 } else { 0 }
    }
}

} // verus!

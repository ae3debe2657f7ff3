//! Reading documents of data-types, which may be nested.
use vstd::prelude::*;
use crate::architecture::Architecture;
use crate::database::Database;
use crate::error::{Error, Result};
use crate::fspec::FuncProto;
use crate::ids::TypeId;
use crate::marshal::{Element, ELEM_VOID};
use crate::types::decode::{decode_pointer_attributes, read_last_signed, Fault};
use crate::types::document::{decode_enum_type, decode_plain, decode_void_type, read_class, take_in};
use crate::types::finish::{announce, finish_code, finish_struct, finish_typedef, finish_union, read_offset, read_typedef};
use crate::types::labels::{
    ATTRIB_ARRAYSIZE, ELEM_BITFIELD, ELEM_CORETYPES, ELEM_DEF, ELEM_FIELD, ELEM_TYPEGRP, ELEM_TYPEREF,
};
use crate::types::members::{read_field, StructFacts};
use crate::types::vet::malformed_type;
use crate::types::{
    Datatype, FieldAccum, SubMetatype, TypeArrayData, TypeBitField, TypeCodeData, TypeFactory, TypeField, TypeKind, TypeMetatype,
    TypePointerData, TypePointerRelData, TypeSpacebaseData, TypeUnionData,
};

verus! {

/// What is asked of a program whose data-types are read.
pub open spec fn readable(glb: Architecture) -> bool {
    &&& glb.types.ready()
    &&& glb.symboltab.valid()
    &&& glb.symboltab.global_scope is Some
    &&& glb.manager.default_data_space is Some
    &&& forall|i: int| 0 <= i < glb.symboltab.symbols@.len() ==> ((#[trigger] glb.symboltab.symbols@[i]).local_scope
        matches Some(local) ==> local.0 < glb.symboltab.scopes@.len())
}

/// What a document is read against, besides the data-types there are.
pub ghost struct Setting {
    pub db: Database,
    pub big_endian: bool,
}

pub open spec fn setting(glb: Architecture) -> Setting {
    Setting { db: glb.symboltab, big_endian: glb.manager.default_data_space->0.big_endian }
}

/// The prototypes that were read beforehand are of a size that can be.
pub open spec fn prototypes_fit(protos: Seq<FuncProto>) -> bool {
    forall|i: int| 0 <= i < protos.len() ==> (#[trigger] protos[i]).params@.len() <= i32::MAX
}

/// A pointer before anything is known of it.
pub open spec fn bare_pointer(bare: Datatype) -> bool {
    bare.fresh(0, -1, TypeMetatype::Ptr, SubMetatype::Ptr, 0, Seq::empty()) && bare.kind == TypeKind::Pointer(
        TypePointerData { ptrto: None, spaceid: None, truncate: None, wordsize: 1 },
    )
}

/// A relative pointer before anything is known of it.
pub open spec fn bare_relative(bare: Datatype) -> bool {
    bare.fresh(0, -1, TypeMetatype::Ptr, SubMetatype::PtrRel, 0u32 | Datatype::IS_PTRREL, Seq::empty()) && bare.kind
        == TypeKind::PointerRel(
        TypePointerRelData {
            pointer: TypePointerData { ptrto: None, spaceid: None, truncate: None, wordsize: 1 },
            stripped: None,
            parent: None,
            offset: 0,
        },
    )
}

/// An array before anything is known of it.
pub open spec fn bare_array(bare: Datatype) -> bool {
    bare.fresh(0, -1, TypeMetatype::Array, SubMetatype::Array, 0, Seq::empty()) && bare.kind == TypeKind::Array(
        TypeArrayData { arrayof: None, arraysize: 0 },
    )
}

/// A structure before anything is known of it.
pub open spec fn bare_struct(bare: Datatype) -> bool {
    bare.fresh(0, -1, TypeMetatype::Struct, SubMetatype::Struct, Datatype::TYPE_INCOMPLETE, Seq::empty())
        && bare.kind is Struct && bare.fields().len() == 0 && bare.bitfields().len() == 0
}

/// A union before anything is known of it.
pub open spec fn bare_union(bare: Datatype) -> bool {
    bare.fresh(
        0,
        -1,
        TypeMetatype::Union,
        SubMetatype::Union,
        Datatype::TYPE_INCOMPLETE | Datatype::NEEDS_RESOLUTION,
        Seq::empty(),
    ) && bare.kind is Union && bare.fields().len() == 0
}

/// Code before anything is known of it. Code with a prototype has a variable length.
pub open spec fn bare_code(bare: Datatype, elem: Element) -> bool {
    let flags = Datatype::TYPE_INCOMPLETE;
    bare.fresh(
        1,
        1,
        TypeMetatype::Code,
        SubMetatype::Code,
        if elem.children@.len() > 0 {
            flags | Datatype::VARIABLE_LENGTH
        } else {
            flags
        },
        Seq::empty(),
    ) && bare.kind == TypeKind::Code(TypeCodeData { proto: None, signature: None, factory: false })
}

/// A space of symbols before anything is known of it.
pub open spec fn bare_space(bare: Datatype) -> bool {
    bare.fresh(0, 1, TypeMetatype::Spacebase, SubMetatype::Spacebase, 0, Seq::empty()) && bare.kind
        == TypeKind::Spacebase(TypeSpacebaseData { spaceid: None, scope_id: 0 })
}

/// What reading a space of symbols does.
pub open spec fn reads_space(
    after: TypeFactory,
    before: TypeFactory,
    elem: Element,
    core: bool,
    around: Setting,
    res: Result<TypeId>,
) -> bool {
    exists|bare: Datatype, done: Datatype, r: Result<()>| #[trigger]
        done.takes_space(bare, elem, around.db, r) && bare_space(bare) && match r {
            Ok(()) => crate::types::document::takes_in(after, before, done, core, res),
            Err(e) => after == before && res == Err::<TypeId, Error>(e),
        }
}

/// What giving the data-type of nothing does.
pub open spec fn gives_void(after: TypeFactory, before: TypeFactory, res: Result<TypeId>) -> bool {
    if before.arena@.len() >= u32::MAX {
        after == before && crate::types::finish::rejects(res)
    } else {
        match before.cached(0, TypeMetatype::Void) {
            Some(ct) => after == before && res == Ok::<TypeId, Error>(ct),
            None => res == Ok::<TypeId, Error>(TypeId(before.arena@.len() as u32)) && exists|d: Datatype| #[trigger]
                TypeFactory::is_void(d) && after.voided(before, d),
        }
    }
}

fn give_void(types: &mut TypeFactory) -> (res: Result<TypeId>)
    requires
        old(types).ready(),
    ensures
        final(types).ready(),
        gives_void(*final(types), *old(types), res),
        res matches Ok(id) ==> final(types).has(id),
{
    if types.arena.len() >= 0xffff_ffff {
        return Err(malformed_type());
    }
    types.get_type_void()
}

/// A handle that still names a data-type.
pub open spec fn still_there(types: TypeFactory, r: Result<TypeId>, res: Result<TypeId>) -> bool {
    match r {
        Ok(id) => if types.has(id) {
            res == r
        } else {
            crate::types::finish::rejects(res)
        },
        Err(_) => res == r,
    }
}

/// An outcome of reading a data-type: data-types are in order, and a handle names one of
/// them.
pub open spec fn gives(types: TypeFactory, r: Result<TypeId>) -> bool {
    types.ready() && (r matches Ok(id) ==> types.has(id))
}

/// An outcome of reading the fields of a structure: data-types are in order.
pub open spec fn leaves(types: TypeFactory, facts: StructFacts) -> bool {
    types.ready()
}

/// An outcome of reading the fields of a union: data-types are in order.
pub open spec fn leaves_union(types: TypeFactory, facts: UnionFacts) -> bool {
    types.ready()
}

/// What reading a data-type, or a reference to one, does.
pub open spec fn reads_ref(
    after: TypeFactory,
    before: TypeFactory,
    elem: Element,
    around: Setting,
    protos: Seq<FuncProto>,
    res: Result<TypeId>,
) -> bool
    decreases elem, 2nat,
{
    if elem.id == ELEM_TYPEREF {
        after == before && before.refers(elem, res)
    } else {
        reads(after, before, elem, false, around, protos, res)
    }
}

/// What reading the data-type in a place of a list does.
pub open spec fn reads_at(
    after: TypeFactory,
    before: TypeFactory,
    list: Seq<Element>,
    i: int,
    around: Setting,
    protos: Seq<FuncProto>,
    res: Result<TypeId>,
) -> bool
    decreases list, 0nat,
{
    if !(0 <= i < list.len()) {
        after == before && (res matches Err(e) && Element::lacks(e))
    } else {
        reads_ref(after, before, list[i], around, protos, res)
    }
}

/// What reading a typedef does.
pub open spec fn reads_typedef(
    after: TypeFactory,
    before: TypeFactory,
    elem: Element,
    around: Setting,
    protos: Seq<FuncProto>,
    res: Result<TypeId>,
) -> bool
    decreases elem, 0nat,
{
    let told = crate::types::finish::typedef_told(elem);
    match told.fault {
        Some(fault) => crate::types::document::fails(after, before, fault, res),
        None => exists|mid: TypeFactory, r: Result<TypeId>| #[trigger]
                gives(mid, r) && reads_at(mid, before, elem.children@, 0, around, protos, r) && match r {
                Err(e) => after == mid && res == r,
                Ok(defed) => makes_typedef_read(after, mid, told, defed, res),
            },
    }
}

/// What making a typedef that was read does, if it stays.
pub open spec fn makes_typedef_read(
    after: TypeFactory,
    before: TypeFactory,
    told: crate::types::finish::NameFacts,
    defed: TypeId,
    res: Result<TypeId>,
) -> bool {
    exists|made: Result<TypeId>| #[trigger]
        crate::types::finish::finishes_typedef(after, before, told, defed, made) && still_there(after, made, res)
}

/// What attributes say of a pointer.
pub open spec fn pointer_told(elem: Element) -> crate::types::decode::PointerFacts {
    crate::types::decode::pointer_facts(
        elem.attributes@,
        0,
        crate::types::decode::PointerFacts { wordsize: 1, spaceid: None, fault: None },
    )
}

/// What is wrong with the attributes of a pointer.
pub open spec fn pointer_fault(bare: Datatype, elem: Element) -> Option<Fault> {
    if bare.basic_fault(elem) is Some {
        bare.basic_fault(elem)
    } else {
        pointer_told(elem).fault
    }
}

/// What reading a pointer does.
pub open spec fn reads_pointer(
    after: TypeFactory,
    before: TypeFactory,
    elem: Element,
    core: bool,
    around: Setting,
    protos: Seq<FuncProto>,
    res: Result<TypeId>,
) -> bool
    decreases elem, 0nat,
{
    exists|bare: Datatype, d: Datatype| #[trigger]
        d.takes_basics(bare, elem) && bare_pointer(bare) && match pointer_fault(bare, elem) {
            Some(fault) => crate::types::document::fails(after, before, fault, res),
            None => exists|mid: TypeFactory, r: Result<TypeId>| #[trigger]
                gives(mid, r) && reads_at(mid, before, elem.children@, 0, around, protos, r) && match r {
                    Err(e) => after == mid && res == r,
                    Ok(target) => crate::types::finish::finishes_pointer(
                        after,
                        mid,
                        crate::types::finish::pointer_to(d, target, pointer_told(elem).wordsize, pointer_told(elem).spaceid, mid),
                        core,
                        res,
                    ),
                },
        }
}

/// What reading an array does.
pub open spec fn reads_array(
    after: TypeFactory,
    before: TypeFactory,
    elem: Element,
    core: bool,
    around: Setting,
    protos: Seq<FuncProto>,
    res: Result<TypeId>,
) -> bool
    decreases elem, 0nat,
{
    let (count, fault) = crate::types::decode::last_signed(elem.attributes@, ATTRIB_ARRAYSIZE, 0, -1i32);
    exists|bare: Datatype, d: Datatype| #[trigger]
        d.takes_basics(bare, elem) && bare_array(bare) && if bare.basic_fault(elem) is Some {
            crate::types::document::fails(after, before, bare.basic_fault(elem)->0, res)
        } else if fault is Some {
            crate::types::document::fails(after, before, fault->0, res)
        } else {
            exists|mid: TypeFactory, r: Result<TypeId>| #[trigger]
                gives(mid, r) && reads_at(mid, before, elem.children@, 0, around, protos, r) && match r {
                    Err(e) => after == mid && res == r,
                    Ok(element) => crate::types::finish::finishes_array(after, mid, d, element, count, core, res),
                }
        }
}

/// What reading a relative pointer does.
pub open spec fn reads_relative(
    after: TypeFactory,
    before: TypeFactory,
    elem: Element,
    core: bool,
    around: Setting,
    protos: Seq<FuncProto>,
    res: Result<TypeId>,
) -> bool
    decreases elem, 0nat,
{
    exists|bare: Datatype, d: Datatype| #[trigger]
        d.takes_basics(bare, elem) && bare_relative(bare) && match pointer_fault(bare, elem) {
            Some(fault) => crate::types::document::fails(after, before, fault, res),
            None => exists|mid: TypeFactory, r: Result<TypeId>| #[trigger]
                gives(mid, r) && reads_at(mid, before, elem.children@, 0, around, protos, r) && match r {
                    Err(e) => after == mid && res == r,
                    Ok(target) => exists|mid2: TypeFactory, r2: Result<TypeId>| #[trigger]
                gives(mid2, r2) && reads_at(mid2, mid, elem.children@, 1, around, protos, r2) && match r2 {
                            Err(e) => after == mid2 && res == r2,
                            Ok(parent) => ends_relative(after, mid2, elem, d, target, parent, core, res),
                        },
                },
        }
}

/// What the end of reading a relative pointer does.
pub open spec fn ends_relative(
    after: TypeFactory,
    before: TypeFactory,
    elem: Element,
    d: Datatype,
    target: TypeId,
    parent: TypeId,
    core: bool,
    res: Result<TypeId>,
) -> bool {
    match crate::types::finish::offset_told(elem.children@) {
        Err(fault) => crate::types::document::fails(after, before, fault, res),
        Ok(offset) => crate::types::finish::finishes_relative(
            after,
            before,
            crate::types::finish::relative_to(d, target, parent, offset, pointer_told(elem).wordsize, pointer_told(elem).spaceid),
            core,
            res,
        ),
    }
}

/// What is known of a structure that no field has been read of.
pub open spec fn no_fields(flags: u32) -> StructFacts {
    StructFacts {
        fields: Seq::empty(),
        bits: Seq::empty(),
        flags,
        last_off: -1,
        calc_size: 0,
        calc_align: 1,
        warning: Seq::empty(),
        fault: None,
    }
}

/// What reading the fields of a structure does, from one of them on.
pub open spec fn reads_fields(
    after: TypeFactory,
    before: TypeFactory,
    list: Seq<Element>,
    i: nat,
    owner: Seq<char>,
    size: i32,
    known: StructFacts,
    around: Setting,
    protos: Seq<FuncProto>,
    next: StructFacts,
) -> bool
    decreases list, (1 + list.len() - i) as nat,
{
    let bits = list[i as int].id == ELEM_BITFIELD;
    let told = crate::types::members::field_told(list[i as int], bits);
    if i >= list.len() || known.fault is Some {
        after == before && next == known
    } else if !bits && list[i as int].id != ELEM_FIELD {
        after == before && next == (StructFacts {
            fault: Some(Fault::Decoder("Expecting <field> or <bitfield>"@)),
            ..known
        })
    } else if told.fault is Some {
        after == before && next == (StructFacts { fault: told.fault, ..known })
    } else {
        exists|mid: TypeFactory, r: Result<TypeId>| #[trigger]
                gives(mid, r) && reads_at(mid, before, list[i as int].children@, 0, around, protos, r) && match r {
                Err(e) => after == mid && next == (StructFacts { fault: Some(Fault::Passed(e)), ..known }),
                Ok(tp) => if bits {
                    match TypeBitField::fault_in(told) {
                        Some(fault) => after == mid && next == (StructFacts { fault: Some(fault), ..known }),
                        None => exists|bf: TypeBitField, mid2: TypeFactory, step: StructFacts|
                            #![trigger crate::types::members::takes_bitfield(mid2, mid, known, bf, owner, size, step)]
                            bf.is_told(told, tp, around.big_endian)
                                && crate::types::members::takes_bitfield(mid2, mid, known, bf, owner, size, step)
                                && reads_fields(after, mid2, list, i + 1, owner, size, step, around, protos, next),
                    }
                } else {
                    match TypeField::fault_in(told) {
                        Some(fault) => after == mid && next == (StructFacts { fault: Some(fault), ..known }),
                        None => exists|field: TypeField| #[trigger]
                            field.is_told(told, tp) && reads_fields(
                                after,
                                mid,
                                list,
                                i + 1,
                                owner,
                                size,
                                crate::types::members::with_field(known, field, owner, size, mid),
                                around,
                                protos,
                                next,
                            ),
                    }
                },
            }
    }
}

/// What reading a structure does.
pub open spec fn reads_struct(
    after: TypeFactory,
    before: TypeFactory,
    elem: Element,
    core: bool,
    around: Setting,
    protos: Seq<FuncProto>,
    res: Result<TypeId>,
) -> bool
    decreases elem, 0nat,
{
    exists|bare: Datatype, d: Datatype| #[trigger]
        d.takes_basics(bare, elem) && bare_struct(bare) && match bare.basic_fault(elem) {
            Some(fault) => crate::types::document::fails(after, before, fault, res),
            None => {
                let ts = crate::types::document::marked(d, core);
                exists|mid: TypeFactory, r: Result<TypeId>| #[trigger]
                    crate::types::finish::announces(mid, before, ts, TypeMetatype::Struct, r) && match r {
                        Err(e) => after == mid && res == r,
                        Ok(ct) => exists|mid2: TypeFactory, facts: StructFacts| #[trigger]
                            leaves(mid2, facts) && reads_fields(
                                mid2,
                                mid,
                                elem.children@,
                                0,
                                ts.name@,
                                ts.size,
                                no_fields(ts.flags),
                                around,
                                protos,
                                facts,
                            ) && match facts.fault {
                                Some(fault) => crate::types::document::fails(after, mid2, fault, res),
                                None => ends_struct(after, mid2, ts, facts, ct, res),
                            },
                    }
            },
        }
}

/// What the end of reading a structure does.
pub open spec fn ends_struct(
    after: TypeFactory,
    before: TypeFactory,
    ts: Datatype,
    facts: StructFacts,
    ct: TypeId,
    res: Result<TypeId>,
) -> bool {
    exists|full: Datatype, warning: String|
        #![trigger crate::types::finish::finishes_struct(after, before, full, facts.calc_align as i32, ct, warning, res)]
        {
            &&& full.kind is Struct
            &&& full.fields() == facts.fields
            &&& full.bitfields() == facts.bits
            &&& full == (Datatype { kind: full.kind, flags: facts.flags, ..ts })
            &&& warning@ == facts.warning
            &&& crate::types::finish::finishes_struct(after, before, full, facts.calc_align as i32, ct, warning, res)
        }
}

/// What is known of a union while its fields are read.
pub ghost struct UnionFacts {
    pub fields: Seq<TypeField>,
    pub calc_align: i32,
    pub fault: Option<Fault>,
}

/// What is known of a union once one more field is read.
pub open spec fn union_with(known: UnionFacts, field: TypeField, owner: Seq<char>, size: i32, types: TypeFactory) -> UnionFacts {
    let d = types.dt(field.tp);
    if field.offset + d.size > size {
        UnionFacts {
            fault: Some(Fault::Lowlevel("Field "@ + field.name@ + " does not fit in union "@ + owner)),
            ..known
        }
    } else {
        UnionFacts {
            fields: known.fields.push(field),
            calc_align: if d.alignment > known.calc_align {
                d.alignment
            } else {
                known.calc_align
            },
            ..known
        }
    }
}

/// What reading the fields of a union does, from one of them on.
pub open spec fn reads_alternatives(
    after: TypeFactory,
    before: TypeFactory,
    list: Seq<Element>,
    i: nat,
    owner: Seq<char>,
    size: i32,
    known: UnionFacts,
    around: Setting,
    protos: Seq<FuncProto>,
    next: UnionFacts,
) -> bool
    decreases list, (1 + list.len() - i) as nat,
{
    let told = crate::types::members::field_told(list[i as int], false);
    if i >= list.len() || known.fault is Some {
        after == before && next == known
    } else if crate::types::members::field_fault(list[i as int], false) is Some {
        after == before && next == (UnionFacts {
            fault: crate::types::members::field_fault(list[i as int], false),
            ..known
        })
    } else {
        exists|mid: TypeFactory, r: Result<TypeId>| #[trigger]
                gives(mid, r) && reads_at(mid, before, list[i as int].children@, 0, around, protos, r) && match r {
                Err(e) => after == mid && next == (UnionFacts { fault: Some(Fault::Passed(e)), ..known }),
                Ok(tp) => match TypeField::fault_in(told) {
                    Some(fault) => after == mid && next == (UnionFacts { fault: Some(fault), ..known }),
                    None => exists|field: TypeField| #[trigger]
                        field.is_told(told, tp) && reads_alternatives(
                            after,
                            mid,
                            list,
                            i + 1,
                            owner,
                            size,
                            union_with(known, field, owner, size, mid),
                            around,
                            protos,
                            next,
                        ),
                },
            }
    }
}

/// What reading a union does.
pub open spec fn reads_union(
    after: TypeFactory,
    before: TypeFactory,
    elem: Element,
    core: bool,
    around: Setting,
    protos: Seq<FuncProto>,
    res: Result<TypeId>,
) -> bool
    decreases elem, 0nat,
{
    exists|bare: Datatype, d: Datatype| #[trigger]
        d.takes_basics(bare, elem) && bare_union(bare) && match bare.basic_fault(elem) {
            Some(fault) => crate::types::document::fails(after, before, fault, res),
            None => {
                let tu = crate::types::document::marked(d, core);
                exists|mid: TypeFactory, r: Result<TypeId>| #[trigger]
                    crate::types::finish::announces(mid, before, tu, TypeMetatype::Union, r) && match r {
                        Err(e) => after == mid && res == r,
                        Ok(ct) => exists|mid2: TypeFactory, facts: UnionFacts| #[trigger]
                            leaves_union(mid2, facts) && reads_alternatives(
                                mid2,
                                mid,
                                elem.children@,
                                0,
                                tu.name@,
                                tu.size,
                                UnionFacts { fields: Seq::empty(), calc_align: 1, fault: None },
                                around,
                                protos,
                                facts,
                            ) && match facts.fault {
                                Some(fault) => crate::types::document::fails(after, mid2, fault, res),
                                None => ends_union(after, mid2, tu, facts, ct, res),
                            },
                    }
            },
        }
}

/// What the end of reading a union does.
pub open spec fn ends_union(
    after: TypeFactory,
    before: TypeFactory,
    tu: Datatype,
    facts: UnionFacts,
    ct: TypeId,
    res: Result<TypeId>,
) -> bool {
    exists|full: Datatype| #[trigger]
        crate::types::finish::finishes_union(after, before, full, facts.calc_align, ct, res) && full.kind is Union && full.fields()
            == facts.fields && full == (Datatype { kind: full.kind, ..tu })
}

/// What reading code does.
pub open spec fn reads_code(
    after: TypeFactory,
    before: TypeFactory,
    elem: Element,
    core: bool,
    protos: Seq<FuncProto>,
    res: Result<TypeId>,
) -> bool {
    exists|bare: Datatype, d: Datatype| #[trigger]
        d.takes_basics(bare, elem) && bare_code(bare, elem) && match bare.basic_fault(elem) {
            Some(fault) => crate::types::document::fails(after, before, fault, res),
            None => if d.metatype != TypeMetatype::Code {
                crate::types::document::fails(after, before, Fault::Lowlevel("Expecting metatype=\"code\""@), res)
            } else {
                exists|mid: TypeFactory, r: Result<TypeId>| #[trigger]
                    crate::types::finish::announces(mid, before, crate::types::document::marked(d, core), TypeMetatype::Code, r) && match r {
                        Err(e) => after == mid && res == r,
                        Ok(ct) => ends_code(after, mid, elem, crate::types::document::marked(d, core), ct, protos, res),
                    }
            },
        }
}

/// What the end of reading code does.
pub open spec fn ends_code(
    after: TypeFactory,
    before: TypeFactory,
    elem: Element,
    tc: Datatype,
    ct: TypeId,
    protos: Seq<FuncProto>,
    res: Result<TypeId>,
) -> bool {
    if elem.children@.len() == 0 {
        crate::types::finish::finishes_code(after, before, tc, ct, None, false, false, res)
    } else {
        match elem.children@[0].prototype {
            Some(n) => if n < protos.len() {
                exists|mid: TypeFactory, r: Result<TypeId>| #[trigger]
                    gives_void(mid, before, r) && match r {
                        Err(e) => after == mid && res == r,
                        Ok(_) => crate::types::finish::finishes_code(after, mid, tc, ct, Some(protos[n as int]), false, false, res),
                    }
            } else {
                crate::types::document::fails(after, before, Fault::Decoder("Expecting a prototype"@), res)
            },
            None => crate::types::document::fails(after, before, Fault::Decoder("Expecting a prototype"@), res),
        }
    }
}

/// What reading a data-type does.
pub open spec fn reads(
    after: TypeFactory,
    before: TypeFactory,
    elem: Element,
    core: bool,
    around: Setting,
    protos: Seq<FuncProto>,
    res: Result<TypeId>,
) -> bool
    decreases elem, 1nat,
{
    if elem.id == ELEM_VOID {
        gives_void(after, before, res)
    } else if elem.id == ELEM_DEF {
        reads_typedef(after, before, elem, around, protos, res)
    } else {
        match crate::types::document::class_told(elem) {
            Err(fault) => crate::types::document::fails(after, before, fault, res),
            Ok(meta) => match meta {
                TypeMetatype::Ptr => reads_pointer(after, before, elem, core, around, protos, res),
                TypeMetatype::PtrRel => reads_relative(after, before, elem, core, around, protos, res),
                TypeMetatype::Array => reads_array(after, before, elem, core, around, protos, res),
                TypeMetatype::EnumInt | TypeMetatype::EnumUint => crate::types::document::reads_enum(after, before, elem, core, res),
                TypeMetatype::Struct => reads_struct(after, before, elem, core, around, protos, res),
                TypeMetatype::Union => reads_union(after, before, elem, core, around, protos, res),
                TypeMetatype::Spacebase => reads_space(after, before, elem, core, around, res),
                TypeMetatype::Code => reads_code(after, before, elem, core, protos, res),
                TypeMetatype::Void => crate::types::document::reads_void(after, before, elem, res),
                _ => crate::types::document::reads_plain(after, before, elem, core, res),
            },
        }
    }
}

/// An outcome of reading a few data-types: data-types are in order.
pub open spec fn goes_on(types: TypeFactory, r: Result<()>) -> bool {
    types.ready()
}

/// What reading the first of a list of data-types does. The first that cannot be read ends it.
pub open spec fn reads_each(
    after: TypeFactory,
    before: TypeFactory,
    list: Seq<Element>,
    n: nat,
    core: bool,
    around: Setting,
    protos: Seq<FuncProto>,
    res: Result<()>,
) -> bool
    decreases n,
{
    if n == 0 {
        after == before && res == Ok::<(), Error>(())
    } else {
        exists|mid: TypeFactory, so_far: Result<()>| #[trigger]
            goes_on(mid, so_far) && reads_each(mid, before, list, (n - 1) as nat, core, around, protos, so_far)
                && match so_far {
                Err(_) => after == mid && res == so_far,
                Ok(()) => exists|r: Result<TypeId>| #[trigger]
                    gives(after, r) && reads(after, mid, list[n - 1], core, around, protos, r) && match r {
                        Ok(_) => res == Ok::<(), Error>(()),
                        Err(e) => res == Err::<(), Error>(e),
                    },
            }
    }
}

proof fn stays_ended(
    after: TypeFactory,
    before: TypeFactory,
    list: Seq<Element>,
    n: nat,
    m: nat,
    core: bool,
    around: Setting,
    protos: Seq<FuncProto>,
    res: Result<()>,
)
    requires
        reads_each(after, before, list, n, core, around, protos, res),
        res is Err,
        after.ready(),
        n <= m,
    ensures
        reads_each(after, before, list, m, core, around, protos, res),
    decreases m - n,
{
    if n < m {
        assert(goes_on(after, res));
        stays_ended(after, before, list, n + 1, m, core, around, protos, res);
    }
}

/// All data-types are gone, and the settings are as they were.
pub open spec fn is_cleared(after: TypeFactory, before: TypeFactory) -> bool {
    &&& after.ready()
    &&& after.arena@.len() == 0
    &&& after.tree@.len() == 0
    &&& after.nametree@.len() == 0
    &&& after.no_caches()
    &&& after.warnings@.len() == 0
    &&& after.incomplete_typedef@.len() == 0
    &&& after.same_settings(before)
}

/// What reading the core data-types does.
pub open spec fn reads_core(
    after: TypeFactory,
    before: TypeFactory,
    elem: Element,
    around: Setting,
    protos: Seq<FuncProto>,
    res: Result<()>,
) -> bool {
    exists|empty: TypeFactory| #[trigger]
        is_cleared(empty, before) && if elem.id != ELEM_CORETYPES {
            after == empty && (res matches Err(e) && e.is_decoder("Unexpected element"@))
        } else {
            exists|mid: TypeFactory, r: Result<()>| #[trigger]
                goes_on(mid, r) && reads_each(mid, empty, elem.children@, elem.children@.len(), true, around, protos, r)
                    && if r is Err {
                    after == mid && res == r
                } else {
                    res is Ok && after.caches() == mid.caches_upto(mid.tree@.len()) && after == (TypeFactory {
                        typecache: after.typecache,
                        typecache10: after.typecache10,
                        typecache16: after.typecache16,
                        type_nochar: after.type_nochar,
                        charcache: after.charcache,
                        ..mid
                    })
                }
        }
}

/// Only the data-types of a program are different.
pub open spec fn only_types(after: Architecture, before: Architecture) -> bool {
    after == (Architecture { types: after.types, ..before })
}

impl TypeFactory {
    /// Reads a data-type, or a reference to one.
    pub fn decode_type(glb: &mut Architecture, elem: &Element, protos: &Vec<FuncProto>) -> (res: Result<TypeId>)
        requires
            readable(*old(glb)),
            prototypes_fit(protos@),
        ensures
            readable(*final(glb)),
            only_types(*final(glb), *old(glb)),
            reads_ref(final(glb).types, old(glb).types, *elem, setting(*old(glb)), protos@, res),
            res matches Ok(id) ==> final(glb).types.has(id),
        decreases elem, 2nat,
    {
        if elem.id == ELEM_TYPEREF {
            return glb.types.decode_reference(elem);
        }
        TypeFactory::decode_type_no_ref(glb, elem, false, protos)
    }

    fn decode_at(glb: &mut Architecture, list: &Vec<Element>, i: usize, protos: &Vec<FuncProto>) -> (res: Result<TypeId>)
        requires
            readable(*old(glb)),
            prototypes_fit(protos@),
        ensures
            readable(*final(glb)),
            only_types(*final(glb), *old(glb)),
            reads_at(final(glb).types, old(glb).types, list@, i as int, setting(*old(glb)), protos@, res),
            res matches Ok(id) ==> final(glb).types.has(id),
        decreases list@, 0nat,
    {
        if i >= list.len() {
            return Err(Error::decoder("Attribute is missing"));
        }
        TypeFactory::decode_type(glb, &list[i], protos)
    }

    fn decode_typedef(glb: &mut Architecture, elem: &Element, protos: &Vec<FuncProto>) -> (res: Result<TypeId>)
        requires
            readable(*old(glb)),
            prototypes_fit(protos@),
        ensures
            readable(*final(glb)),
            only_types(*final(glb), *old(glb)),
            reads_typedef(final(glb).types, old(glb).types, *elem, setting(*old(glb)), protos@, res),
            res matches Ok(id) ==> final(glb).types.has(id),
        decreases elem, 0nat,
    {
        let read = match read_typedef(elem) {
            Ok(read) => read,
            Err(e) => {
                return Err(e);
            },
        };
        let r = TypeFactory::decode_at(glb, &elem.children, 0, protos);
        let ghost mid = glb.types;
        assert(gives(mid, r));
        assert(reads_at(mid, old(glb).types, elem.children@, 0, setting(*old(glb)), protos@, r));
        match r {
            Err(e) => Err(e),
            Ok(defed) => {
                let made = finish_typedef(&mut glb.types, read, defed);
                assert(crate::types::finish::finishes_typedef(glb.types, mid, crate::types::finish::typedef_told(*elem), defed, made));
                match made {
                    Ok(id) => if glb.types.knows(id) {
                        Ok(id)
                    } else {
                        Err(malformed_type())
                    },
                    Err(e) => Err(e),
                }
            },
        }
    }

    fn decode_pointer_type(glb: &mut Architecture, elem: &Element, core: bool, protos: &Vec<FuncProto>) -> (res: Result<
        TypeId,
    >)
        requires
            readable(*old(glb)),
            prototypes_fit(protos@),
        ensures
            readable(*final(glb)),
            only_types(*final(glb), *old(glb)),
            reads_pointer(final(glb).types, old(glb).types, *elem, core, setting(*old(glb)), protos@, res),
            res matches Ok(id) ==> final(glb).types.has(id),
        decreases elem, 0nat,
    {
        let bare = Datatype::new_pointer_empty()?;
        let mut tp = bare;
        let basic = tp.decode_basic(elem);
        assert(tp.takes_basics(bare, *elem));
        match basic {
            Ok(()) => {},
            Err(e) => {
                return Err(e);
            },
        }
        let read = match decode_pointer_attributes(elem, 1) {
            Ok(read) => read,
            Err(e) => {
                return Err(e);
            },
        };
        let r = TypeFactory::decode_at(glb, &elem.children, 0, protos);
        assert(gives(glb.types, r));
        assert(reads_at(glb.types, old(glb).types, elem.children@, 0, setting(*old(glb)), protos@, r));
        match r {
            Err(e) => Err(e),
            Ok(target) => Datatype::decode_pointer(tp, read, target, core, &mut glb.types),
        }
    }

    fn decode_array_type(glb: &mut Architecture, elem: &Element, core: bool, protos: &Vec<FuncProto>) -> (res: Result<
        TypeId,
    >)
        requires
            readable(*old(glb)),
            prototypes_fit(protos@),
        ensures
            readable(*final(glb)),
            only_types(*final(glb), *old(glb)),
            reads_array(final(glb).types, old(glb).types, *elem, core, setting(*old(glb)), protos@, res),
            res matches Ok(id) ==> final(glb).types.has(id),
        decreases elem, 0nat,
    {
        let bare = Datatype::new_array_empty()?;
        let mut ta = bare;
        let basic = ta.decode_basic(elem);
        assert(ta.takes_basics(bare, *elem));
        match basic {
            Ok(()) => {},
            Err(e) => {
                return Err(e);
            },
        }
        let count: i32 = match read_last_signed(elem, ATTRIB_ARRAYSIZE, -1) {
            Ok(count) => count,
            Err(e) => {
                return Err(e);
            },
        };
        let r = TypeFactory::decode_at(glb, &elem.children, 0, protos);
        assert(gives(glb.types, r));
        assert(reads_at(glb.types, old(glb).types, elem.children@, 0, setting(*old(glb)), protos@, r));
        match r {
            Err(e) => Err(e),
            Ok(element) => Datatype::decode_array(ta, count, element, core, &mut glb.types),
        }
    }

    fn decode_relative_type(glb: &mut Architecture, elem: &Element, core: bool, protos: &Vec<FuncProto>) -> (res: Result<
        TypeId,
    >)
        requires
            readable(*old(glb)),
            prototypes_fit(protos@),
        ensures
            readable(*final(glb)),
            only_types(*final(glb), *old(glb)),
            reads_relative(final(glb).types, old(glb).types, *elem, core, setting(*old(glb)), protos@, res),
            res matches Ok(id) ==> final(glb).types.has(id),
        decreases elem, 0nat,
    {
        let mut bare = Datatype::new_pointer_rel_empty()?;
        bare.flags = bare.flags | Datatype::IS_PTRREL;
        let mut tp = bare;
        let basic = tp.decode_basic(elem);
        assert(tp.takes_basics(bare, *elem));
        match basic {
            Ok(()) => {},
            Err(e) => {
                return Err(e);
            },
        }
        let read = match decode_pointer_attributes(elem, 1) {
            Ok(read) => read,
            Err(e) => {
                return Err(e);
            },
        };
        let r = TypeFactory::decode_at(glb, &elem.children, 0, protos);
        let ghost mid = glb.types;
        assert(gives(mid, r));
        assert(reads_at(mid, old(glb).types, elem.children@, 0, setting(*old(glb)), protos@, r));
        match r {
            Err(e) => Err(e),
            Ok(target) => {
                let r2 = TypeFactory::decode_at(glb, &elem.children, 1, protos);
                assert(gives(glb.types, r2));
                assert(reads_at(glb.types, mid, elem.children@, 1, setting(*old(glb)), protos@, r2));
                match r2 {
                    Err(e) => Err(e),
                    Ok(parent) => match read_offset(&elem.children) {
                        Err(e) => Err(e),
                        Ok(offset) => Datatype::decode_pointer_rel(
                            tp,
                            read,
                            target,
                            parent,
                            offset,
                            core,
                            &mut glb.types,
                        ),
                    },
                }
            },
        }
    }

    fn decode_space_type(glb: &mut Architecture, elem: &Element, core: bool) -> (res: Result<TypeId>)
        requires
            readable(*old(glb)),
        ensures
            readable(*final(glb)),
            only_types(*final(glb), *old(glb)),
            reads_space(final(glb).types, old(glb).types, *elem, core, setting(*old(glb)), res),
            res matches Ok(id) ==> final(glb).types.has(id),
    {
        let bare = Datatype::new_spacebase_empty()?;
        let mut tsb = bare;
        let r = tsb.decode_spacebase(elem, glb);
        assert(tsb.takes_space(bare, *elem, old(glb).symboltab, r));
        match r {
            Ok(()) => take_in(&mut glb.types, tsb, core),
            Err(e) => Err(e),
        }
    }

    fn decode_code(glb: &mut Architecture, elem: &Element, core: bool, protos: &Vec<FuncProto>) -> (res: Result<TypeId>)
        requires
            readable(*old(glb)),
            prototypes_fit(protos@),
        ensures
            readable(*final(glb)),
            only_types(*final(glb), *old(glb)),
            reads_code(final(glb).types, old(glb).types, *elem, core, protos@, res),
            res matches Ok(id) ==> final(glb).types.has(id),
    {
        let mut bare = Datatype::new_code()?;
        if elem.children.len() > 0 {
            bare.flags = bare.flags | Datatype::VARIABLE_LENGTH;
        }
        let mut tc = bare;
        let basic = tc.decode_basic(elem);
        let ghost d = tc;
        assert(d.takes_basics(bare, *elem));
        assert(bare_code(bare, *elem));
        match basic {
            Ok(()) => {},
            Err(e) => {
                return Err(e);
            },
        }
        if tc.get_metatype() != TypeMetatype::Code {
            return Err(Error::lowlevel("Expecting metatype=\"code\""));
        }
        if core {
            tc.flags = tc.flags | Datatype::CORETYPE;
        }
        assert(tc == crate::types::document::marked(d, core));
        let r = announce(&mut glb.types, &tc, TypeMetatype::Code);
        let ghost mid = glb.types;
        assert(crate::types::finish::announces(mid, old(glb).types, tc, TypeMetatype::Code, r));
        match r {
            Err(e) => Err(e),
            Ok(ct) => {
                if elem.children.len() == 0 {
                    return finish_code(&mut glb.types, tc, ct, None, false, false);
                }
                match elem.children[0].prototype {
                    Some(n) => {
                        if (n as usize) < protos.len() {
                            let v = give_void(&mut glb.types);
                            assert(gives_void(glb.types, mid, v));
                            match v {
                                Err(e) => {
                                    return Err(e);
                                },
                                Ok(_) => {},
                            }
                            return finish_code(&mut glb.types, tc, ct, Some(&protos[n as usize]), false, false);
                        }
                        Err(Error::decoder("Expecting a prototype"))
                    },
                    None => Err(Error::decoder("Expecting a prototype")),
                }
            },
        }
    }

    fn decode_fields_of(
        glb: &mut Architecture,
        list: &Vec<Element>,
        i: usize,
        ts: &mut Datatype,
        accum: &mut FieldAccum,
        protos: &Vec<FuncProto>,
    ) -> (res: Result<()>)
        requires
            readable(*old(glb)),
            prototypes_fit(protos@),
            i <= list@.len(),
            old(ts).kind is Struct,
        ensures
            readable(*final(glb)),
            only_types(*final(glb), *old(glb)),
            final(ts).kind is Struct,
            final(ts).differs_in_fields(*old(ts)),
            exists|next: StructFacts| #[trigger]
                reads_fields(
                    final(glb).types,
                    old(glb).types,
                    list@,
                    i as nat,
                    old(ts).name@,
                    old(ts).size,
                    old(ts).struct_facts(*old(accum), None),
                    setting(*old(glb)),
                    protos@,
                    next,
                ) && Fault::reported(next.fault, res) && (next.fault is None ==> final(ts).struct_facts(
                    *final(accum),
                    None,
                ) == next),
        decreases list@, (1 + list@.len() - i) as nat,
    {
        let ghost before = glb.types;
        let ghost around = setting(*glb);
        let ghost known = ts.struct_facts(*accum, None);
        let ghost owner = ts.name@;
        let ghost size = ts.size;
        if i >= list.len() {
            assert(reads_fields(before, before, list@, i as nat, owner, size, known, around, protos@, known));
            return Ok(());
        }
        let elem = &list[i];
        let bits = elem.id == ELEM_BITFIELD;
        if !bits && elem.id != ELEM_FIELD {
            let ghost next = StructFacts {
                fault: Some(Fault::Decoder("Expecting <field> or <bitfield>"@)),
                ..known
            };
            assert(reads_fields(before, before, list@, i as nat, owner, size, known, around, protos@, next));
            return Err(Error::decoder("Expecting <field> or <bitfield>"));
        }
        let ghost told = crate::types::members::field_told(*elem, bits);
        let read = match read_field(elem, bits) {
            Ok(read) => read,
            Err(e) => {
                let ghost next = StructFacts { fault: told.fault, ..known };
                assert(reads_fields(before, before, list@, i as nat, owner, size, known, around, protos@, next));
                return Err(e);
            },
        };
        let r = TypeFactory::decode_at(glb, &elem.children, 0, protos);
        let ghost mid = glb.types;
        assert(gives(mid, r));
        assert(reads_at(mid, before, list@[i as int].children@, 0, around, protos@, r));
        let tp = match r {
            Ok(tp) => tp,
            Err(e) => {
                let ghost next = StructFacts { fault: Some(Fault::Passed(e)), ..known };
                assert(reads_fields(mid, before, list@, i as nat, owner, size, known, around, protos@, next));
                return Err(e);
            },
        };
        if bits {
            let big_endian = glb.manager.default_data_space.as_ref().unwrap().big_endian;
            let bf = match TypeBitField::decode(read, tp, big_endian) {
                Ok(bf) => bf,
                Err(e) => {
                    let ghost next = StructFacts { fault: TypeBitField::fault_in(told), ..known };
                    assert(reads_fields(mid, before, list@, i as nat, owner, size, known, around, protos@, next));
                    return Err(e);
                },
            };
            let ghost bf_now = bf;
            assert(bf_now.is_told(told, tp, around.big_endian));
            let taken = ts.decode_bit_field(bf, &mut glb.types, accum);
            let ghost mid2 = glb.types;
            let ghost step = choose|step: StructFacts| #[trigger]
                crate::types::members::takes_bitfield(mid2, mid, known, bf_now, owner, size, step) && Fault::reported(
                    step.fault,
                    taken,
                ) && (step.fault is None ==> ts.struct_facts(*accum, None) == step);
            assert(crate::types::members::takes_bitfield(mid2, mid, known, bf_now, owner, size, step));
            match taken {
                Ok(()) => {},
                Err(e) => {
                    assert(reads_fields(mid2, mid2, list@, (i + 1) as nat, owner, size, step, around, protos@, step));
                    assert(reads_fields(mid2, before, list@, i as nat, owner, size, known, around, protos@, step));
                    return Err(e);
                },
            }
            let rest = TypeFactory::decode_fields_of(glb, list, i + 1, ts, accum, protos);
            let ghost next = choose|next: StructFacts| #[trigger]
                reads_fields(glb.types, mid2, list@, (i + 1) as nat, owner, size, step, around, protos@, next)
                    && Fault::reported(next.fault, rest) && (next.fault is None ==> ts.struct_facts(*accum, None) == next);
            assert(reads_fields(glb.types, mid2, list@, (i + 1) as nat, owner, size, step, around, protos@, next));
            assert(reads_fields(glb.types, before, list@, i as nat, owner, size, known, around, protos@, next));
            rest
        } else {
            let field = match TypeField::decode(read, tp) {
                Ok(field) => field,
                Err(e) => {
                    let ghost next = StructFacts { fault: TypeField::fault_in(told), ..known };
                    assert(reads_fields(mid, before, list@, i as nat, owner, size, known, around, protos@, next));
                    return Err(e);
                },
            };
            let ghost field_now = field;
            assert(field_now.is_told(told, tp));
            let ghost step = crate::types::members::with_field(known, field, owner, size, mid);
            match ts.decode_field(field, &glb.types, accum) {
                Ok(()) => {},
                Err(e) => {
                    assert(reads_fields(mid, mid, list@, (i + 1) as nat, owner, size, step, around, protos@, step));
                    assert(reads_fields(mid, before, list@, i as nat, owner, size, known, around, protos@, step));
                    return Err(e);
                },
            }
            let rest = TypeFactory::decode_fields_of(glb, list, i + 1, ts, accum, protos);
            let ghost next = choose|next: StructFacts| #[trigger]
                reads_fields(glb.types, mid, list@, (i + 1) as nat, owner, size, step, around, protos@, next)
                    && Fault::reported(next.fault, rest) && (next.fault is None ==> ts.struct_facts(*accum, None) == next);
            assert(reads_fields(glb.types, mid, list@, (i + 1) as nat, owner, size, step, around, protos@, next));
            assert(reads_fields(glb.types, before, list@, i as nat, owner, size, known, around, protos@, next));
            rest
        }
    }

    fn decode_struct(glb: &mut Architecture, elem: &Element, core: bool, protos: &Vec<FuncProto>) -> (res: Result<TypeId>)
        requires
            readable(*old(glb)),
            prototypes_fit(protos@),
        ensures
            readable(*final(glb)),
            only_types(*final(glb), *old(glb)),
            reads_struct(final(glb).types, old(glb).types, *elem, core, setting(*old(glb)), protos@, res),
            res matches Ok(id) ==> final(glb).types.has(id),
        decreases elem, 0nat,
    {
        let bare = Datatype::new_struct()?;
        let mut ts = bare;
        let basic = ts.decode_basic(elem);
        let ghost d = ts;
        assert(d.takes_basics(bare, *elem));
        assert(bare_struct(bare));
        match basic {
            Ok(()) => {},
            Err(e) => {
                return Err(e);
            },
        }
        if core {
            ts.flags = ts.flags | Datatype::CORETYPE;
        }
        let ghost named = ts;
        assert(named == crate::types::document::marked(d, core));
        let r = announce(&mut glb.types, &ts, TypeMetatype::Struct);
        let ghost mid = glb.types;
        assert(crate::types::finish::announces(mid, old(glb).types, named, TypeMetatype::Struct, r));
        let ct = match r {
            Ok(ct) => ct,
            Err(e) => {
                return Err(e);
            },
        };
        let mut accum = FieldAccum { last_off: -1, calc_size: 0, calc_align: 1, warning: String::new() };
        assert(named.fields() =~= Seq::<TypeField>::empty());
        assert(named.bitfields() =~= Seq::<TypeBitField>::empty());
        assert(accum.warning@ =~= Seq::<char>::empty());
        assert(named.struct_facts(accum, None) == no_fields(named.flags));
        let taken = TypeFactory::decode_fields_of(glb, &elem.children, 0, &mut ts, &mut accum, protos);
        let ghost mid2 = glb.types;
        let ghost facts = choose|facts: StructFacts| #[trigger]
            reads_fields(
                mid2,
                mid,
                elem.children@,
                0,
                named.name@,
                named.size,
                no_fields(named.flags),
                setting(*old(glb)),
                protos@,
                facts,
            ) && Fault::reported(facts.fault, taken) && (facts.fault is None ==> ts.struct_facts(accum, None) == facts);
        assert(reads_fields(
            mid2,
            mid,
            elem.children@,
            0,
            named.name@,
            named.size,
            no_fields(named.flags),
            setting(*old(glb)),
            protos@,
            facts,
        ));
        assert(leaves(mid2, facts));
        match taken {
            Ok(()) => {},
            Err(e) => {
                return Err(e);
            },
        }
        let ghost full = ts;
        let ghost warning = accum.warning;
        let res = finish_struct(&mut glb.types, ts, accum.calc_align, ct, accum.warning);
        assert(crate::types::finish::finishes_struct(
            glb.types,
            mid2,
            full,
            facts.calc_align as i32,
            ct,
            warning,
            res,
        ));
        assert(ends_struct(glb.types, mid2, named, facts, ct, res));
        res
    }

    fn decode_alternatives(
        glb: &mut Architecture,
        list: &Vec<Element>,
        i: usize,
        fields: &mut Vec<TypeField>,
        owner: &String,
        size: i32,
        calc_align: &mut i32,
        protos: &Vec<FuncProto>,
    ) -> (res: Result<()>)
        requires
            readable(*old(glb)),
            prototypes_fit(protos@),
            i <= list@.len(),
        ensures
            readable(*final(glb)),
            only_types(*final(glb), *old(glb)),
            exists|next: UnionFacts| #[trigger]
                reads_alternatives(
                    final(glb).types,
                    old(glb).types,
                    list@,
                    i as nat,
                    owner@,
                    size,
                    UnionFacts { fields: old(fields)@, calc_align: *old(calc_align), fault: None },
                    setting(*old(glb)),
                    protos@,
                    next,
                ) && Fault::reported(next.fault, res) && (next.fault is None ==> next == (UnionFacts {
                    fields: final(fields)@,
                    calc_align: *final(calc_align),
                    fault: None,
                })),
        decreases list@, (1 + list@.len() - i) as nat,
    {
        let ghost before = glb.types;
        let ghost around = setting(*glb);
        let ghost known = UnionFacts { fields: fields@, calc_align: *calc_align, fault: None };
        if i >= list.len() {
            assert(reads_alternatives(before, before, list@, i as nat, owner@, size, known, around, protos@, known));
            return Ok(());
        }
        let elem = &list[i];
        let ghost told = crate::types::members::field_told(*elem, false);
        let read = match read_field(elem, false) {
            Ok(read) => read,
            Err(e) => {
                let ghost next = UnionFacts { fault: crate::types::members::field_fault(*elem, false), ..known };
                assert(reads_alternatives(before, before, list@, i as nat, owner@, size, known, around, protos@, next));
                return Err(e);
            },
        };
        let r = TypeFactory::decode_at(glb, &elem.children, 0, protos);
        let ghost mid = glb.types;
        assert(gives(mid, r));
        assert(reads_at(mid, before, list@[i as int].children@, 0, around, protos@, r));
        let tp = match r {
            Ok(tp) => tp,
            Err(e) => {
                let ghost next = UnionFacts { fault: Some(Fault::Passed(e)), ..known };
                assert(reads_alternatives(mid, before, list@, i as nat, owner@, size, known, around, protos@, next));
                return Err(e);
            },
        };
        let field = match TypeField::decode(read, tp) {
            Ok(field) => field,
            Err(e) => {
                let ghost next = UnionFacts { fault: TypeField::fault_in(told), ..known };
                assert(reads_alternatives(mid, before, list@, i as nat, owner@, size, known, around, protos@, next));
                return Err(e);
            },
        };
        let ghost field_now = field;
        assert(field_now.is_told(told, tp));
        let ghost step = union_with(known, field_now, owner@, size, mid);
        let field_type = glb.types.get(tp);
        let align: i32 = field_type.get_alignment();
        if field.offset as i64 + field_type.get_size() as i64 > size as i64 {
            let mut text = "Field ".to_owned();
            text.push_str(field.name.as_str());
            text.push_str(" does not fit in union ");
            text.push_str(owner.as_str());
            assert(reads_alternatives(mid, mid, list@, (i + 1) as nat, owner@, size, step, around, protos@, step));
            assert(reads_alternatives(mid, before, list@, i as nat, owner@, size, known, around, protos@, step));
            return Err(Error::Lowlevel(text));
        }
        if align > *calc_align {
            *calc_align = align;
        }
        fields.push(field);
        assert(step == (UnionFacts { fields: fields@, calc_align: *calc_align, fault: None }));
        let rest = TypeFactory::decode_alternatives(glb, list, i + 1, fields, owner, size, calc_align, protos);
        let ghost next = choose|next: UnionFacts| #[trigger]
            reads_alternatives(glb.types, mid, list@, (i + 1) as nat, owner@, size, step, around, protos@, next)
                && Fault::reported(next.fault, rest) && (next.fault is None ==> next == (UnionFacts {
                fields: fields@,
                calc_align: *calc_align,
                fault: None,
            }));
        assert(reads_alternatives(glb.types, mid, list@, (i + 1) as nat, owner@, size, step, around, protos@, next));
        assert(reads_alternatives(glb.types, before, list@, i as nat, owner@, size, known, around, protos@, next));
        rest
    }

    fn decode_union(glb: &mut Architecture, elem: &Element, core: bool, protos: &Vec<FuncProto>) -> (res: Result<TypeId>)
        requires
            readable(*old(glb)),
            prototypes_fit(protos@),
        ensures
            readable(*final(glb)),
            only_types(*final(glb), *old(glb)),
            reads_union(final(glb).types, old(glb).types, *elem, core, setting(*old(glb)), protos@, res),
            res matches Ok(id) ==> final(glb).types.has(id),
        decreases elem, 0nat,
    {
        let bare = Datatype::new_union()?;
        let mut tu = bare;
        let basic = tu.decode_basic(elem);
        let ghost d = tu;
        assert(d.takes_basics(bare, *elem));
        assert(bare_union(bare));
        match basic {
            Ok(()) => {},
            Err(e) => {
                return Err(e);
            },
        }
        if core {
            tu.flags = tu.flags | Datatype::CORETYPE;
        }
        let ghost named = tu;
        assert(named == crate::types::document::marked(d, core));
        let r = announce(&mut glb.types, &tu, TypeMetatype::Union);
        let ghost mid = glb.types;
        assert(crate::types::finish::announces(mid, old(glb).types, named, TypeMetatype::Union, r));
        let ct = match r {
            Ok(ct) => ct,
            Err(e) => {
                return Err(e);
            },
        };
        let mut fields: Vec<TypeField> = Vec::new();
        let mut calc_align: i32 = 1;
        let ghost none = UnionFacts { fields: Seq::empty(), calc_align: 1, fault: None };
        assert(fields@ =~= Seq::<TypeField>::empty());
        let size: i32 = tu.get_size();
        let taken = TypeFactory::decode_alternatives(
            glb,
            &elem.children,
            0,
            &mut fields,
            &tu.name,
            size,
            &mut calc_align,
            protos,
        );
        let ghost mid2 = glb.types;
        let ghost facts = choose|facts: UnionFacts| #[trigger]
            reads_alternatives(
                mid2,
                mid,
                elem.children@,
                0,
                named.name@,
                named.size,
                none,
                setting(*old(glb)),
                protos@,
                facts,
            ) && Fault::reported(facts.fault, taken) && (facts.fault is None ==> facts == (UnionFacts {
                fields: fields@,
                calc_align,
                fault: None,
            }));
        assert(reads_alternatives(
            mid2,
            mid,
            elem.children@,
            0,
            named.name@,
            named.size,
            none,
            setting(*old(glb)),
            protos@,
            facts,
        ));
        assert(leaves_union(mid2, facts));
        match taken {
            Ok(()) => {},
            Err(e) => {
                return Err(e);
            },
        }
        tu.kind = TypeKind::Union(TypeUnionData { field: fields });
        let ghost full = tu;
        let res = finish_union(&mut glb.types, tu, calc_align, ct);
        assert(crate::types::finish::finishes_union(glb.types, mid2, full, facts.calc_align, ct, res));
        assert(ends_union(glb.types, mid2, named, facts, ct, res));
        res
    }

    fn decode_type_no_ref(glb: &mut Architecture, elem: &Element, core: bool, protos: &Vec<FuncProto>) -> (res: Result<TypeId>)
        requires
            readable(*old(glb)),
            prototypes_fit(protos@),
        ensures
            readable(*final(glb)),
            only_types(*final(glb), *old(glb)),
            reads(final(glb).types, old(glb).types, *elem, core, setting(*old(glb)), protos@, res),
            res matches Ok(id) ==> final(glb).types.has(id),
        decreases elem, 1nat,
    {
        if elem.id == ELEM_VOID {
            return give_void(&mut glb.types);
        }
        if elem.id == ELEM_DEF {
            return TypeFactory::decode_typedef(glb, elem, protos);
        }
        let meta = match read_class(elem) {
            Ok(meta) => meta,
            Err(e) => {
                return Err(e);
            },
        };
        match meta {
            TypeMetatype::Ptr => TypeFactory::decode_pointer_type(glb, elem, core, protos),
            TypeMetatype::PtrRel => TypeFactory::decode_relative_type(glb, elem, core, protos),
            TypeMetatype::Array => TypeFactory::decode_array_type(glb, elem, core, protos),
            TypeMetatype::EnumInt | TypeMetatype::EnumUint => decode_enum_type(&mut glb.types, elem, core),
            TypeMetatype::Struct => TypeFactory::decode_struct(glb, elem, core, protos),
            TypeMetatype::Union => TypeFactory::decode_union(glb, elem, core, protos),
            TypeMetatype::Spacebase => TypeFactory::decode_space_type(glb, elem, core),
            TypeMetatype::Code => TypeFactory::decode_code(glb, elem, core, protos),
            TypeMetatype::Void => decode_void_type(&mut glb.types, elem),
            _ => decode_plain(&mut glb.types, elem, core),
        }
    }

    fn decode_each(glb: &mut Architecture, list: &Vec<Element>, core: bool, protos: &Vec<FuncProto>) -> (res: Result<()>)
        requires
            readable(*old(glb)),
            prototypes_fit(protos@),
        ensures
            readable(*final(glb)),
            only_types(*final(glb), *old(glb)),
            reads_each(final(glb).types, old(glb).types, list@, list@.len(), core, setting(*old(glb)), protos@, res),
    {
        let ghost around = setting(*glb);
        let mut i: usize = 0;
        while i < list.len()
            invariant
                i <= list@.len(),
                readable(*glb),
                prototypes_fit(protos@),
                only_types(*glb, *old(glb)),
                around == setting(*old(glb)),
                reads_each(glb.types, old(glb).types, list@, i as nat, core, around, protos@, Ok(())),
            decreases list@.len() - i,
        {
            let ghost mid = glb.types;
            let ghost so_far: Result<()> = Ok(());
            assert(reads_each(mid, old(glb).types, list@, i as nat, core, around, protos@, so_far));
            assert(goes_on(mid, so_far));
            let r = TypeFactory::decode_type_no_ref(glb, &list[i], core, protos);
            assert(gives(glb.types, r));
            assert(reads(glb.types, mid, list@[i as int], core, around, protos@, r));
            match r {
                Ok(_) => {},
                Err(e) => {
                    let ghost end: Result<()> = Err(e);
                    assert(reads_each(glb.types, old(glb).types, list@, (i + 1) as nat, core, around, protos@, end));
                    proof {
                        stays_ended(
                            glb.types,
                            old(glb).types,
                            list@,
                            (i + 1) as nat,
                            list@.len(),
                            core,
                            around,
                            protos@,
                            end,
                        );
                    }
                    return Err(e);
                },
            }
            i = i + 1;
        }
        Ok(())
    }

    /// Reads a group of data-types.
    pub fn decode(glb: &mut Architecture, elem: &Element, protos: &Vec<FuncProto>) -> (res: Result<()>)
        requires
            readable(*old(glb)),
            prototypes_fit(protos@),
        ensures
            readable(*final(glb)),
            only_types(*final(glb), *old(glb)),
            if elem.id != ELEM_TYPEGRP {
                *final(glb) == *old(glb) && (res matches Err(e) && e.is_decoder("Unexpected element"@))
            } else {
                reads_each(
                    final(glb).types,
                    old(glb).types,
                    elem.children@,
                    elem.children@.len(),
                    false,
                    setting(*old(glb)),
                    protos@,
                    res,
                )
            },
    {
        match elem.expect(ELEM_TYPEGRP) {
            Ok(()) => {},
            Err(e) => {
                return Err(e);
            },
        }
        TypeFactory::decode_each(glb, &elem.children, false, protos)
    }

    /// Reads the core data-types, in place of all data-types there are.
    pub fn decode_core_types(glb: &mut Architecture, elem: &Element, protos: &Vec<FuncProto>) -> (res: Result<()>)
        requires
            readable(*old(glb)),
            prototypes_fit(protos@),
        ensures
            readable(*final(glb)),
            only_types(*final(glb), *old(glb)),
            reads_core(final(glb).types, old(glb).types, *elem, setting(*old(glb)), protos@, res),
    {
        glb.types.clear();
        let ghost empty = glb.types;
        assert(is_cleared(empty, old(glb).types));
        match elem.expect(ELEM_CORETYPES) {
            Ok(()) => {},
            Err(e) => {
                return Err(e);
            },
        }
        let r = TypeFactory::decode_each(glb, &elem.children, true, protos);
        let ghost mid = glb.types;
        assert(goes_on(mid, r));
        assert(reads_each(mid, empty, elem.children@, elem.children@.len(), true, setting(*old(glb)), protos@, r));
        match r {
            Ok(()) => {},
            Err(e) => {
                return Err(e);
            },
        }
        glb.types.cache_core_types()
    }

    /// Reads a pointer to code that a constructor or a destructor is known by. The attributes
    /// of an element are read one by one and are not read twice unless they are rewound: here
    /// they have all been read for the pointer, so that none is left to tell a size, and a
    /// pointer that is well-formed so far is reported for its size.
    pub fn decode_type_with_code_flags(
        glb: &mut Architecture,
        elem: &Element,
        is_constructor: bool,
        is_destructor: bool,
    ) -> (res: Result<TypeId>)
        ensures
            *final(glb) == *old(glb),
            exists|bare: Datatype, d: Datatype| #[trigger]
                d.takes_basics(bare, *elem) && bare_pointer(bare) && match bare.basic_fault(*elem) {
                    Some(fault) => res matches Err(e) && fault.is_report(e),
                    None => if d.metatype != TypeMetatype::Ptr {
                        res matches Err(e) && e.is_lowlevel("Special type decode does not see pointer"@)
                    } else {
                        res matches Err(e) && e.is_lowlevel("Bad size for type "@)
                    },
                },
    {
        let bare = Datatype::new_pointer_empty()?;
        let mut tp = bare;
        let basic = tp.decode_basic(elem);
        assert(tp.takes_basics(bare, *elem));
        match basic {
            Ok(()) => {},
            Err(e) => {
                return Err(e);
            },
        }
        if tp.get_metatype() != TypeMetatype::Ptr {
            return Err(Error::lowlevel("Special type decode does not see pointer"));
        }
        Err(Error::lowlevel("Bad size for type "))
    }
}

} // verus!

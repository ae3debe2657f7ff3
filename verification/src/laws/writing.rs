//! What is read of the documents that are written of data-types.
use vstd::prelude::*;
use crate::architecture::Architecture;
use crate::error::{Error, Result};
use crate::ids::TypeId;
use crate::marshal::{
    Element, Written, ATTRIB_ID, ATTRIB_NAME, ATTRIB_OFFSET, ATTRIB_SIZE, ATTRIB_SPACE, ATTRIB_VALUE, ATTRIB_WORDSIZE, ELEM_VAL,
    ELEM_VOID,
};
use crate::types::labels::{ATTRIB_ARRAYSIZE, ATTRIB_CHAR, ATTRIB_UTF, ELEM_BITFIELD, ELEM_DEF, ELEM_FIELD, ELEM_TYPE, ELEM_TYPEREF};
use crate::types::{Datatype, TypeBitField, TypeField, TypeKind, TypeMetatype};

verus! {

/// A part of a document that belongs to the start of an element.
pub open spec fn is_attribute(token: Written) -> bool {
    match token {
        Written::Open(_) | Written::Close(_) | Written::Prototype(_, _, _, _) => false,
        _ => true,
    }
}

/// An element has the tag and the attributes of the first element of a document.
pub open spec fn is_first_element(elem: Element, tokens: Seq<Written>) -> bool {
    let n = elem.attributes@.len() as int;
    &&& tokens.len() > n + 1
    &&& tokens[0] == Written::Open(elem.id)
    &&& forall|i: int| 0 <= i < n ==> crate::laws::says(#[trigger] elem.attributes@[i], tokens[i + 1])
    &&& !is_attribute(tokens[n + 1])
}

/// A document goes on with another element after some start.
pub open spec fn goes_on(start: Seq<Written>, tokens: Seq<Written>) -> bool {
    &&& tokens.len() > start.len()
    &&& forall|i: int| 0 <= i < start.len() ==> #[trigger] tokens[i] == start[i]
    &&& tokens[start.len() as int] is Open
}

/// A document has not been changed but for what has been added.
pub open spec fn only_added(start: Seq<Written>, tokens: Seq<Written>) -> bool {
    &&& tokens.len() >= start.len()
    &&& forall|i: int| 0 <= i < start.len() ==> #[trigger] tokens[i] == start[i]
    &&& tokens.len() > start.len() ==> tokens[start.len() as int] is Open
}

proof fn first_element_holds(elem: Element, tokens: Seq<Written>, head: Seq<Written>)
    requires
        is_first_element(elem, tokens),
        tokens.len() > head.len() >= 1,
        forall|i: int| 0 <= i < head.len() ==> #[trigger] tokens[i] == head[i],
        forall|i: int| 1 <= i < head.len() ==> is_attribute(#[trigger] head[i]),
        !is_attribute(tokens[head.len() as int]),
    ensures
        head[0] == Written::Open(elem.id),
        elem.attributes@.len() + 1 == head.len(),
        forall|i: int| 0 <= i < elem.attributes@.len() ==> crate::laws::says(#[trigger] elem.attributes@[i], head[i + 1]),
{
    let n = elem.attributes@.len() as int;
    if n + 1 < head.len() {
        assert(tokens[n + 1] == head[n + 1]);
        assert(is_attribute(head[n + 1]));
    }
    if n + 1 > head.len() {
        let i = head.len() - 1;
        assert(crate::laws::says(elem.attributes@[i], tokens[i + 1]));
    }
    assert(tokens[0] == head[0]);
    assert forall|i: int| 0 <= i < elem.attributes@.len() implies crate::laws::says(
        #[trigger] elem.attributes@[i],
        head[i + 1],
    ) by {
        assert(tokens[i + 1] == head[i + 1]);
    }
}

proof fn basics_added(start: Seq<Written>, d: Datatype, meta: TypeMetatype, align: i32)
    ensures
        ({
            let after = crate::types::encode::basic_written(start, d, meta, align);
            let alone = crate::types::encode::basic_written(Seq::empty(), d, meta, align);
            &&& after.error == alone.error
            &&& after.tokens == start + alone.tokens
            &&& alone.tokens.len() > 0
            &&& forall|i: int| 0 <= i < alone.tokens.len() ==> is_attribute(#[trigger] alone.tokens[i])
        }),
{
    let none: Seq<Written> = Seq::empty();
    let after = crate::types::encode::basic_written(start, d, meta, align);
    let alone = crate::types::encode::basic_written(none, d, meta, align);
    assert(start.push(Written::Text(ATTRIB_NAME, d.name@)) =~= start + none.push(Written::Text(ATTRIB_NAME, d.name@)));
    assert(after.tokens =~= start + alone.tokens);
}

proof fn values_added(start: Seq<Written>, list: Seq<crate::types::names::NamedValue>, i: nat)
    ensures
        only_added(start, crate::types::encode::values_written(start, list, i)),
    decreases list.len() - i,
{
    if i < list.len() {
        let next = start.push(Written::Open(ELEM_VAL)).push(Written::Text(ATTRIB_NAME, list[i as int].name@)).push(
            Written::Unsigned(ATTRIB_VALUE, list[i as int].value),
        ).push(Written::Close(ELEM_VAL));
        values_added(next, list, i + 1);
        let all = crate::types::encode::values_written(start, list, i);
        assert forall|k: int| 0 <= k < start.len() implies #[trigger] all[k] == start[k] by {
            assert(next[k] == start[k]);
        }
        assert(next[start.len() as int] == Written::Open(ELEM_VAL));
    }
}

/// What a data-type has of its own starts with a tag and attributes.
proof fn head_added(start: Seq<Written>, d: Datatype, glb: Architecture)
    requires
        crate::types::encode::head_written(start, d, glb).error is None,
    ensures
        goes_on(start, crate::types::encode::head_written(start, d, glb).tokens),
        crate::types::encode::head_written(start, d, glb).tokens[start.len() as int] == Written::Open(ELEM_TYPE),
{
    let meta = match d.kind {
        TypeKind::Enum(_) => if d.metatype == TypeMetatype::Int {
            TypeMetatype::EnumInt
        } else {
            TypeMetatype::EnumUint
        },
        TypeKind::PartialEnum(_) => TypeMetatype::PartialEnum,
        TypeKind::PointerRel(_) => TypeMetatype::PtrRel,
        _ => d.metatype,
    };
    let align = if d.kind is Struct || d.kind is Union {
        d.alignment
    } else {
        -1i32
    };
    let opened = start.push(Written::Open(ELEM_TYPE));
    basics_added(opened, d, meta, align);
    let basics = crate::types::encode::basic_written(opened, d, meta, align).tokens;
    assert(basics[start.len() as int] == Written::Open(ELEM_TYPE));
    let all = crate::types::encode::head_written(start, d, glb).tokens;
    match d.kind {
        TypeKind::Enum(data) => {
            values_added(basics, data.namemap.entries@, 0);
            assert(all[start.len() as int] == basics[start.len() as int]);
            assert forall|k: int| 0 <= k < start.len() implies #[trigger] all[k] == start[k] by {
                assert(all[k] == basics[k]);
            }
        },
        TypeKind::Spacebase(data) => {
            let spaced = basics.push(Written::Space(ATTRIB_SPACE, data.spaceid->0));
            assert forall|k: int| 0 <= k < basics.len() implies #[trigger] all[k] == basics[k] by {
                assert(spaced[k] == basics[k]);
            }
        },
        _ => {},
    }
}

proof fn reference_added(start: Seq<Written>, d: Datatype, glb: Architecture, steps: nat)
    requires
        crate::types::encode::referred(start, d, glb, steps) matches Some(doc) && doc.error is None,
    ensures
        goes_on(start, crate::types::encode::referred(start, d, glb, steps)->0.tokens),
    decreases steps, 1nat, 0nat,
{
    if crate::types::encode::goes_by_name(d) {
        let all = crate::types::encode::name_written(start, d);
        assert(all[start.len() as int] == Written::Open(ELEM_TYPEREF));
    } else {
        description_added(start, d, glb, steps);
    }
}

proof fn typedef_added(start: Seq<Written>, d: Datatype, glb: Architecture, steps: nat)
    requires
        crate::types::encode::typedef_written(start, d, glb, steps) matches Some(doc) && doc.error is None,
    ensures
        goes_on(start, crate::types::encode::typedef_written(start, d, glb, steps)->0.tokens),
    decreases steps, 2nat, 0nat,
{
    let head = crate::types::encode::format_written(
        start.push(Written::Open(ELEM_DEF)).push(Written::Text(ATTRIB_NAME, d.name@)).push(
            Written::Unsigned(ATTRIB_ID, d.id),
        ),
        d,
    ).tokens;
    assert(head[start.len() as int] == Written::Open(ELEM_DEF));
    assert(forall|k: int| 0 <= k < start.len() ==> #[trigger] head[k] == start[k]);
    reference_added(head, glb.types.dt(d.typedef_imm->0), glb, steps);
    let all = crate::types::encode::typedef_written(start, d, glb, steps)->0.tokens;
    assert(forall|k: int| 0 <= k < head.len() ==> #[trigger] all[k] == head[k]);
    assert(all[start.len() as int] == head[start.len() as int]);
}

proof fn field_added(start: Seq<Written>, field: TypeField, glb: Architecture, steps: nat)
    requires
        crate::types::encode::field_written(start, field, glb, steps) matches Some(doc) && doc.error is None,
    ensures
        goes_on(start, crate::types::encode::field_written(start, field, glb, steps)->0.tokens),
    decreases steps, 2nat, 0nat,
{
    let head = start.push(Written::Open(ELEM_FIELD)).push(Written::Text(ATTRIB_NAME, field.name@)).push(
        Written::Signed(ATTRIB_OFFSET, field.offset as i64),
    );
    let whole = crate::types::encode::put_if(
        head,
        field.ident != field.offset,
        Written::Signed(ATTRIB_ID, field.ident as i64),
    );
    assert(whole[start.len() as int] == Written::Open(ELEM_FIELD));
    assert(forall|k: int| 0 <= k < start.len() ==> #[trigger] whole[k] == start[k]);
    reference_added(whole, glb.types.dt(field.tp), glb, steps);
    let all = crate::types::encode::field_written(start, field, glb, steps)->0.tokens;
    assert(forall|k: int| 0 <= k < whole.len() ==> #[trigger] all[k] == whole[k]);
    assert(all[start.len() as int] == whole[start.len() as int]);
}

proof fn bitfield_added(start: Seq<Written>, field: TypeBitField, glb: Architecture, steps: nat)
    requires
        crate::types::encode::bitfield_written(start, field, glb, steps) matches Some(doc) && doc.error is None,
    ensures
        goes_on(start, crate::types::encode::bitfield_written(start, field, glb, steps)->0.tokens),
    decreases steps, 2nat, 0nat,
{
    let head = start.push(Written::Open(ELEM_BITFIELD)).push(Written::Text(ATTRIB_NAME, field.name@)).push(
        Written::Signed(ATTRIB_OFFSET, field.bits.byte_offset as i64),
    ).push(Written::Signed(ATTRIB_SIZE, field.bits.num_bits as i64)).push(
        Written::Signed(crate::marshal::ATTRIB_FIRST, field.bits.least_sig_bit as i64),
    );
    assert(head[start.len() as int] == Written::Open(ELEM_BITFIELD));
    assert(forall|k: int| 0 <= k < start.len() ==> #[trigger] head[k] == start[k]);
    reference_added(head, glb.types.dt(field.tp), glb, steps);
    let all = crate::types::encode::bitfield_written(start, field, glb, steps)->0.tokens;
    assert(forall|k: int| 0 <= k < head.len() ==> #[trigger] all[k] == head[k]);
    assert(all[start.len() as int] == head[start.len() as int]);
}

proof fn fields_added(
    start: Seq<Written>,
    fields: Seq<TypeField>,
    bits: Seq<TypeBitField>,
    i: nat,
    j: nat,
    glb: Architecture,
    steps: nat,
)
    requires
        crate::types::encode::fields_written(start, fields, bits, i, j, glb, steps) matches Some(doc) && doc.error is None,
    ensures
        only_added(start, crate::types::encode::fields_written(start, fields, bits, i, j, glb, steps)->0.tokens),
    decreases steps, 3nat, (fields.len() - i) + (bits.len() - j),
{
    let field_next = i < fields.len() && (j >= bits.len() || fields[i as int].offset < bits[j as int].bits.byte_offset);
    let all = crate::types::encode::fields_written(start, fields, bits, i, j, glb, steps)->0.tokens;
    if field_next && j <= bits.len() {
        field_added(start, fields[i as int], glb, steps);
        let next = crate::types::encode::field_written(start, fields[i as int], glb, steps)->0.tokens;
        fields_added(next, fields, bits, i + 1, j, glb, steps);
        assert forall|k: int| 0 <= k <= start.len() implies #[trigger] all[k] == next[k] by {}
    } else if j < bits.len() && i <= fields.len() {
        bitfield_added(start, bits[j as int], glb, steps);
        let next = crate::types::encode::bitfield_written(start, bits[j as int], glb, steps)->0.tokens;
        fields_added(next, fields, bits, i, j + 1, glb, steps);
        assert forall|k: int| 0 <= k <= start.len() implies #[trigger] all[k] == next[k] by {}
    }
}

/// What is inside a data-type comes after what it has of its own.
proof fn description_added(start: Seq<Written>, d: Datatype, glb: Architecture, steps: nat)
    requires
        crate::types::encode::described(start, d, glb, steps) matches Some(doc) && doc.error is None,
    ensures
        goes_on(start, crate::types::encode::described(start, d, glb, steps)->0.tokens),
        !crate::types::encode::written_as_typedef(d) && !(d.kind is Void) ==> {
            let head = crate::types::encode::head_written(start, d, glb);
            let all = crate::types::encode::described(start, d, glb, steps)->0.tokens;
            &&& head.error is None
            &&& all.len() > head.tokens.len()
            &&& forall|k: int| 0 <= k < head.tokens.len() ==> #[trigger] all[k] == head.tokens[k]
            &&& !is_attribute(all[head.tokens.len() as int])
        },
    decreases steps, 0nat, 0nat,
{
    let all = crate::types::encode::described(start, d, glb, steps)->0.tokens;
    if crate::types::encode::written_as_typedef(d) {
        typedef_added(start, d, glb, (steps - 1) as nat);
    } else if d.kind is Void {
        assert(all[start.len() as int] == Written::Open(ELEM_VOID));
    } else {
        head_added(start, d, glb);
        let types = glb.types;
        let less = (steps - 1) as nat;
        let tokens = crate::types::encode::head_written(start, d, glb).tokens;
        match d.kind {
            TypeKind::Pointer(data) => reference_added(tokens, types.dt(data.ptrto->0), glb, less),
            TypeKind::Array(data) => reference_added(tokens, types.dt(data.arrayof->0), glb, less),
            TypeKind::Struct(data) => fields_added(tokens, data.field@, data.bitfield@, 0, 0, glb, less),
            TypeKind::Union(data) => fields_added(tokens, data.field@, Seq::empty(), 0, 0, glb, less),
            TypeKind::PartialEnum(data) => reference_added(tokens, types.dt(data.parent), glb, less),
            TypeKind::PartialUnion(data) => reference_added(tokens, types.dt(data.container), glb, less),
            TypeKind::PointerRel(data) => {
                description_added(tokens, types.dt(data.pointer.ptrto->0), glb, less);
                let first = crate::types::encode::described(tokens, types.dt(data.pointer.ptrto->0), glb, less)->0.tokens;
                reference_added(first, types.dt(data.parent->0), glb, less);
                let second = crate::types::encode::referred(first, types.dt(data.parent->0), glb, less)->0.tokens;
                assert forall|k: int| 0 <= k < tokens.len() + 1 implies #[trigger] all[k] == first[k] by {
                    assert(second[k] == first[k]);
                }
            },
            _ => {},
        }
        assert(all[start.len() as int] == tokens[start.len() as int]);
        assert forall|k: int| 0 <= k < start.len() implies #[trigger] all[k] == start[k] by {
            assert(all[k] == tokens[k]);
        }
    }
}

/// An element that a data-type was written as holds what the data-type has of its own, with some
/// attributes more.
proof fn element_holds_head(elem: Element, d: Datatype, glb: Architecture, steps: nat, more: Seq<Written>)
    requires
        crate::types::encode::described(Seq::empty(), d, glb, steps) matches Some(doc) && doc.error is None
            && is_first_element(elem, doc.tokens),
        !crate::types::encode::written_as_typedef(d),
        !(d.kind is Void) && !(d.kind is Enum) && !(d.kind is PartialEnum) && !(d.kind is PointerRel) && !(d.kind is Struct)
            && !(d.kind is Union) && !(d.kind is Code) && !(d.kind is Spacebase),
        crate::types::encode::head_written(Seq::empty(), d, glb).tokens == crate::types::encode::type_opened(
            Seq::empty(),
            d,
            d.metatype,
            -1i32,
        ).tokens + more,
        forall|i: int| 0 <= i < more.len() ==> is_attribute(#[trigger] more[i]),
    ensures
        elem.id == ELEM_TYPE,
        crate::types::encode::basic_written(Seq::empty(), d, d.metatype, -1i32).error is None,
        ({
            let basics = crate::types::encode::basic_written(Seq::empty(), d, d.metatype, -1i32).tokens;
            &&& elem.attributes@.len() == basics.len() + more.len()
            &&& forall|i: int| 0 <= i < basics.len() ==> crate::laws::says(#[trigger] elem.attributes@[i], basics[i])
            &&& forall|i: int| 0 <= i < more.len() ==> crate::laws::says(
                #[trigger] elem.attributes@[basics.len() + i],
                more[i],
            )
        }),
{
    let none: Seq<Written> = Seq::empty();
    let tokens = crate::types::encode::described(none, d, glb, steps)->0.tokens;
    description_added(none, d, glb, steps);
    let opened = none.push(Written::Open(ELEM_TYPE));
    basics_added(opened, d, d.metatype, -1i32);
    let basics = crate::types::encode::basic_written(none, d, d.metatype, -1i32).tokens;
    let head = crate::types::encode::head_written(none, d, glb).tokens;
    assert(head == opened + basics + more);
    assert forall|i: int| 1 <= i < head.len() implies is_attribute(#[trigger] head[i]) by {
        if i < 1 + basics.len() {
            assert(head[i] == basics[i - 1]);
        } else {
            assert(head[i] == more[i - 1 - basics.len()]);
        }
    }
    first_element_holds(elem, tokens, head);
    assert forall|i: int| 0 <= i < basics.len() implies crate::laws::says(#[trigger] elem.attributes@[i], basics[i]) by {
        assert(head[i + 1] == basics[i]);
    }
    assert forall|i: int| 0 <= i < more.len() implies crate::laws::says(
        #[trigger] elem.attributes@[basics.len() + i],
        more[i],
    ) by {
        assert(head[basics.len() + i + 1] == more[i]);
    }
}

proof fn number_told_last(list: Seq<crate::marshal::Attribute>, id: u32, i: nat, known: i32, n: i32)
    requires
        i < list.len(),
        forall|k: int| i <= k < list.len() - 1 ==> (#[trigger] list[k]).id != id,
        list[list.len() - 1].id == id,
        list[list.len() - 1].value.signed() == Some(n as i64),
    ensures
        crate::types::decode::last_signed(list, id, i, known) == (n, None::<crate::types::decode::Fault>),
    decreases list.len() - i,
{
    if i + 1 < list.len() {
        assert(list[i as int].id != id);
        number_told_last(list, id, i + 1, known, n);
    } else {
        assert(crate::types::decode::last_signed(list, id, i + 1, n) == (n, None::<crate::types::decode::Fault>));
    }
}

/// The attributes that all data-types have are none of those that tell of one kind of data-type.
proof fn basics_tell_no_kind(d: Datatype, meta: TypeMetatype, align: i32, attrib: crate::marshal::Attribute, i: int)
    requires
        0 <= i < crate::types::encode::basic_written(Seq::empty(), d, meta, align).tokens.len(),
        crate::laws::says(attrib, crate::types::encode::basic_written(Seq::empty(), d, meta, align).tokens[i]),
    ensures
        attrib.id != ATTRIB_ARRAYSIZE,
        attrib.id != ATTRIB_WORDSIZE,
        attrib.id != ATTRIB_SPACE,
        attrib.id != ATTRIB_CHAR,
        attrib.id != ATTRIB_UTF,
        attrib.id != ATTRIB_OFFSET,
{
}

/// An array that is written is read with as many elements as it has, and with its name, its size
/// and its class.
pub proof fn array_length_reads_back(elem: Element, d: Datatype, bare: Datatype, glb: Architecture, steps: nat)
    requires
        crate::types::encode::described(Seq::empty(), d, glb, steps) matches Some(doc) && doc.error is None
            && is_first_element(elem, doc.tokens),
        !crate::types::encode::written_as_typedef(d),
        d.kind is Array,
        d.metatype is Array,
        d.size >= 0,
        bare.flags == 0,
    ensures
        elem.id == ELEM_TYPE,
        crate::types::decode::last_signed(elem.attributes@, ATTRIB_ARRAYSIZE, 0, -1i32) == (
            d.kind->Array_0.arraysize,
            None::<crate::types::decode::Fault>,
        ),
        bare.basic_fault(elem) is None,
        bare.told(elem).name == d.name@,
        bare.told(elem).size == d.size,
        bare.told(elem).meta is Array,
        bare.told(elem).id == d.unsized_id(),
{
    let none: Seq<Written> = Seq::empty();
    let n = d.kind->Array_0.arraysize;
    let opened = crate::types::encode::type_opened(none, d, d.metatype, -1i32).tokens;
    description_added(none, d, glb, steps);
    let more = seq![Written::Signed(ATTRIB_ARRAYSIZE, n as i64)];
    assert(opened.push(Written::Signed(ATTRIB_ARRAYSIZE, n as i64)) =~= opened + more);
    element_holds_head(elem, d, glb, steps, more);
    let list = elem.attributes@;
    let basics = crate::types::encode::basic_written(none, d, d.metatype, -1i32).tokens;
    assert(crate::laws::says(list[basics.len() as int], more[0]));
    assert forall|k: int| 0 <= k < list.len() - 1 implies (#[trigger] list[k]).id != ATTRIB_ARRAYSIZE by {
        basics_tell_no_kind(d, d.metatype, -1i32, list[k], k);
    }
    number_told_last(list, ATTRIB_ARRAYSIZE, 0, -1i32, n);
    crate::laws::basics_read_back(d, bare, elem, d.metatype, -1i32);
}

/// The size that is written of an array is the number of elements that is written times the room
/// that an element takes up, so that reading it does not refuse it.
pub proof fn array_size_fits_its_length(
    elem: Element,
    d: Datatype,
    element: TypeId,
    count: i32,
    bare: Datatype,
    glb: Architecture,
    steps: nat,
)
    requires
        crate::types::encode::described(Seq::empty(), d, glb, steps) matches Some(doc) && doc.error is None
            && is_first_element(elem, doc.tokens),
        d.is_new_array(count, element, glb.types.dt(element)),
        d.size >= 0,
        bare.flags == 0,
    ensures
        ({
            let (told, fault) = crate::types::decode::last_signed(elem.attributes@, ATTRIB_ARRAYSIZE, 0, -1i32);
            &&& fault is None
            &&& told == count
            &&& told.wrapping_mul(glb.types.dt(element).align_size) == bare.told(elem).size
        }),
{
    array_length_reads_back(elem, d, bare, glb, steps);
}

/// Reading what was written of an array asks the factory for an array of as many elements and of
/// the same size, of the data-type that is read of what is inside.
pub proof fn array_reads_back(
    after: crate::types::TypeFactory,
    before: crate::types::TypeFactory,
    elem: Element,
    d: Datatype,
    glb: Architecture,
    steps: nat,
    core: bool,
    around: crate::types::nest::Setting,
    protos: Seq<crate::fspec::FuncProto>,
    id: TypeId,
) -> (asked: Datatype)
    requires
        crate::types::encode::described(Seq::empty(), d, glb, steps) matches Some(doc) && doc.error is None
            && is_first_element(elem, doc.tokens),
        !crate::types::encode::written_as_typedef(d),
        d.kind is Array,
        d.metatype is Array,
        d.size >= 0,
        crate::types::nest::reads_array(after, before, elem, core, around, protos, Ok::<TypeId, Error>(id)),
        after.arena@.len() <= u32::MAX,
    ensures
        asked.kind is Array,
        asked.kind->Array_0.arraysize == d.kind->Array_0.arraysize,
        asked.size == d.size,
        asked.name@ == d.name@,
        after.dt(id).size == d.size,
        after.dt(id).submeta == asked.submeta,
{
    let (count, fault) = crate::types::decode::last_signed(elem.attributes@, ATTRIB_ARRAYSIZE, 0, -1i32);
    let (bare, read) = choose|bare: Datatype, read: Datatype| #[trigger]
        read.takes_basics(bare, elem) && crate::types::nest::bare_array(bare) && if bare.basic_fault(elem) is Some {
            crate::types::document::fails(after, before, bare.basic_fault(elem)->0, Ok::<TypeId, Error>(id))
        } else if fault is Some {
            crate::types::document::fails(after, before, fault->0, Ok::<TypeId, Error>(id))
        } else {
            exists|mid: crate::types::TypeFactory, r: Result<TypeId>| #[trigger]
                crate::types::nest::gives(mid, r) && crate::types::nest::reads_at(
                    mid,
                    before,
                    elem.children@,
                    0,
                    around,
                    protos,
                    r,
                ) && match r {
                    Err(e) => after == mid && Ok::<TypeId, Error>(id) == r,
                    Ok(element) => crate::types::finish::finishes_array(
                        after,
                        mid,
                        read,
                        element,
                        count,
                        core,
                        Ok::<TypeId, Error>(id),
                    ),
                }
        };
    array_length_reads_back(elem, d, bare, glb, steps);
    let (mid, r) = choose|mid: crate::types::TypeFactory, r: Result<TypeId>| #[trigger]
        crate::types::nest::gives(mid, r) && crate::types::nest::reads_at(mid, before, elem.children@, 0, around, protos, r)
            && match r {
            Err(e) => after == mid && Ok::<TypeId, Error>(id) == r,
            Ok(element) => crate::types::finish::finishes_array(
                after,
                mid,
                read,
                element,
                count,
                core,
                Ok::<TypeId, Error>(id),
            ),
        };
    let asked = crate::types::document::marked(
        crate::types::finish::array_of_read(read, r->Ok_0, count, mid),
        core,
    );
    crate::laws::spreading::given_size_is_asked_size(mid, after, asked, id);
    crate::types::submeta_rank_injective(after.dt(id).submeta, asked.submeta);
    asked
}

/// A pointer that is written is read with the units that it counts in, its space, its name, its
/// size and its class.
#[verifier::spinoff_prover]
#[verifier::rlimit(40)]
pub proof fn pointer_reads_back(elem: Element, d: Datatype, bare: Datatype, glb: Architecture, steps: nat)
    requires
        crate::types::encode::described(Seq::empty(), d, glb, steps) matches Some(doc) && doc.error is None
            && is_first_element(elem, doc.tokens),
        !crate::types::encode::written_as_typedef(d),
        d.kind is Pointer,
        d.metatype is Ptr,
        d.size >= 0,
        bare.flags == 0,
    ensures
        elem.id == ELEM_TYPE,
        crate::types::nest::pointer_told(elem) == (crate::types::decode::PointerFacts {
            wordsize: d.kind->Pointer_0.wordsize,
            spaceid: d.kind->Pointer_0.spaceid,
            fault: None,
        }),
        bare.basic_fault(elem) is None,
        bare.told(elem).name == d.name@,
        bare.told(elem).size == d.size,
        bare.told(elem).meta is Ptr,
        bare.told(elem).id == d.unsized_id(),
{
    let none: Seq<Written> = Seq::empty();
    let data = d.kind->Pointer_0;
    let opened = crate::types::encode::type_opened(none, d, d.metatype, -1i32).tokens;
    description_added(none, d, glb, steps);
    let units = Written::Unsigned(ATTRIB_WORDSIZE, data.wordsize as u64);
    let first = crate::types::encode::put_if(none, data.wordsize != 1, units);
    let more = match data.spaceid {
        Some(spc) => first.push(Written::Space(ATTRIB_SPACE, spc)),
        None => first,
    };
    assert(crate::types::encode::head_written(none, d, glb).tokens =~= opened + more);
    element_holds_head(elem, d, glb, steps, more);
    let list = elem.attributes@;
    let basics = crate::types::encode::basic_written(none, d, d.metatype, -1i32).tokens;
    let start = crate::types::decode::PointerFacts { wordsize: 1, spaceid: None, fault: None };
    assert forall|k: int| 0 <= k < basics.len() implies (#[trigger] list[k]).id != ATTRIB_WORDSIZE && list[k].id
        != ATTRIB_SPACE by {
        basics_tell_no_kind(d, d.metatype, -1i32, list[k], k);
    }
    pointer_facts_later(list, 0, basics.len(), start);
    assert forall|i: int| basics.len() <= i < list.len() implies crate::laws::is_foreign(#[trigger] list[i]) && crate::laws::says(
        list[i],
        more[i - basics.len()],
    ) by {
        assert(crate::laws::says(list[basics.len() + (i - basics.len())], more[i - basics.len()]));
    }
    pointer_facts_end(list, basics.len(), data, more);
    crate::laws::basics_read_back(d, bare, elem, d.metatype, -1i32);
}

proof fn pointer_facts_end(
    list: Seq<crate::marshal::Attribute>,
    n: nat,
    data: crate::types::TypePointerData,
    more: Seq<Written>,
)
    requires
        more == (match data.spaceid {
            Some(spc) => crate::types::encode::put_if(
                Seq::empty(),
                data.wordsize != 1,
                Written::Unsigned(ATTRIB_WORDSIZE, data.wordsize as u64),
            ).push(Written::Space(ATTRIB_SPACE, spc)),
            None => crate::types::encode::put_if(
                Seq::empty(),
                data.wordsize != 1,
                Written::Unsigned(ATTRIB_WORDSIZE, data.wordsize as u64),
            ),
        }),
        list.len() == n + more.len(),
        forall|i: int| n <= i < list.len() ==> crate::laws::says(#[trigger] list[i], more[i - n]),
    ensures
        crate::types::decode::pointer_facts(
            list,
            n,
            crate::types::decode::PointerFacts { wordsize: 1, spaceid: None, fault: None },
        ) == (crate::types::decode::PointerFacts { wordsize: data.wordsize, spaceid: data.spaceid, fault: None }),
{
    if more.len() > 0 {
        assert(crate::laws::says(list[n as int], more[0]));
        if more.len() > 1 {
            assert(crate::laws::says(list[n as int + 1], more[1]));
        }
    }
    reveal_with_fuel(crate::types::decode::pointer_facts, 3);
}

proof fn pointer_facts_later(
    list: Seq<crate::marshal::Attribute>,
    i: nat,
    n: nat,
    known: crate::types::decode::PointerFacts,
)
    requires
        i <= n <= list.len(),
        known.fault is None,
        forall|k: int| i <= k < n ==> (#[trigger] list[k]).id != ATTRIB_WORDSIZE && list[k].id != ATTRIB_SPACE,
    ensures
        crate::types::decode::pointer_facts(list, i, known) == crate::types::decode::pointer_facts(list, n, known),
    decreases n - i,
{
    if i < n {
        assert(list[i as int].id != ATTRIB_WORDSIZE);
        pointer_facts_later(list, i + 1, n, known);
    }
}

/// A base data-type that is written is read as the kind of character that it is, or as none, and
/// with its name, its size and its class.
pub proof fn letters_read_back(elem: Element, d: Datatype, bare: Datatype, glb: Architecture, steps: nat)
    requires
        crate::types::encode::described(Seq::empty(), d, glb, steps) matches Some(doc) && doc.error is None
            && is_first_element(elem, doc.tokens),
        !crate::types::encode::written_as_typedef(d),
        d.kind is Base || d.kind is Char || d.kind is Unicode,
        !(d.metatype is PartialEnum),
        d.size >= 0,
        bare.flags == 0,
    ensures
        elem.id == ELEM_TYPE,
        crate::types::document::letters_from(elem.attributes@, 0) == Ok::<
            crate::types::document::Letters,
            crate::types::decode::Fault,
        >(
            if d.kind is Char {
                crate::types::document::Letters::Char
            } else if d.kind is Unicode {
                crate::types::document::Letters::Wide
            } else {
                crate::types::document::Letters::Plain
            },
        ),
        bare.basic_fault(elem) is None,
        bare.told(elem).name == d.name@,
        bare.told(elem).size == d.size,
        bare.told(elem).meta == d.metatype,
        bare.told(elem).id == d.unsized_id(),
{
    let none: Seq<Written> = Seq::empty();
    let opened = crate::types::encode::type_opened(none, d, d.metatype, -1i32).tokens;
    description_added(none, d, glb, steps);
    let more = if d.kind is Char {
        none.push(Written::Bool(ATTRIB_CHAR, true))
    } else if d.kind is Unicode {
        none.push(Written::Bool(ATTRIB_UTF, true))
    } else {
        none
    };
    assert(crate::types::encode::head_written(none, d, glb).tokens =~= opened + more);
    element_holds_head(elem, d, glb, steps, more);
    let list = elem.attributes@;
    let basics = crate::types::encode::basic_written(none, d, d.metatype, -1i32).tokens;
    assert forall|k: int| 0 <= k < basics.len() implies (#[trigger] list[k]).id != ATTRIB_CHAR && list[k].id
        != ATTRIB_UTF by {
        basics_tell_no_kind(d, d.metatype, -1i32, list[k], k);
    }
    letters_later(list, 0, basics.len());
    if more.len() > 0 {
        assert(crate::laws::says(list[basics.len() as int], more[0]));
    }
    reveal_with_fuel(crate::types::document::letters_from, 2);
    crate::laws::basics_read_back(d, bare, elem, d.metatype, -1i32);
}

proof fn letters_later(list: Seq<crate::marshal::Attribute>, i: nat, n: nat)
    requires
        i <= n <= list.len(),
        forall|k: int| i <= k < n ==> (#[trigger] list[k]).id != ATTRIB_CHAR && list[k].id != ATTRIB_UTF,
    ensures
        crate::types::document::letters_from(list, i) == crate::types::document::letters_from(list, n),
    decreases n - i,
{
    if i < n {
        assert(list[i as int].id != ATTRIB_CHAR);
        letters_later(list, i + 1, n);
    }
}

/// A reference that is written names the data-type when it is read.
pub proof fn name_reads_back(elem: Element, d: Datatype)
    requires
        is_first_element(elem, crate::types::encode::name_written(Seq::empty(), d)),
        d.unsized_id() != 0,
        d.flag(Datatype::VARIABLE_LENGTH) ==> d.size > 0,
    ensures
        elem.id == ELEM_TYPEREF,
        ({
            let told = crate::types::finish::reference_told(elem);
            &&& told.fault is None
            &&& told.name == d.name@
            &&& d.id == if told.size > 0 {
                crate::types::read::size_hash(told.id, told.size)
            } else {
                told.id
            }
        }),
{
    let tokens = crate::types::encode::name_written(Seq::empty(), d);
    let head = tokens.drop_last();
    first_element_holds(elem, tokens, head);
    let inner = if d.flag(Datatype::VARIABLE_LENGTH) {
        seq![
            Written::Text(ATTRIB_NAME, d.name@),
            Written::Unsigned(ATTRIB_ID, crate::types::read::size_hash(d.id, d.size)),
            Written::Signed(ATTRIB_SIZE, d.size as i64),
        ]
    } else {
        seq![Written::Text(ATTRIB_NAME, d.name@), Written::Unsigned(ATTRIB_ID, d.id)]
    };
    assert(head.len() == inner.len() + 1);
    assert forall|i: int| 0 <= i < inner.len() implies crate::laws::says(#[trigger] elem.attributes@[i], inner[i]) by {
        assert(head[i + 1] == inner[i]);
    }
    crate::laws::reference_reads_back(d, elem);
}

/// A field that is written is read with its name, its place and its number.
pub proof fn written_field_reads_back(elem: Element, field: TypeField, glb: Architecture, steps: nat)
    requires
        crate::types::encode::field_written(Seq::empty(), field, glb, steps) matches Some(doc) && doc.error is None
            && is_first_element(elem, doc.tokens),
        field.name@.len() > 0,
        field.offset >= 0,
        field.ident >= 0,
    ensures
        elem.id == ELEM_FIELD,
        crate::types::members::field_fault(elem, false) is None,
        TypeField::fault_in(crate::types::members::field_told(elem, false)) is None,
        forall|read: TypeField| #[trigger]
            read.is_told(crate::types::members::field_told(elem, false), field.tp) ==> read.name@ == field.name@
                && read.offset == field.offset && read.ident == field.ident && read.tp == field.tp,
{
    let none: Seq<Written> = Seq::empty();
    let inner = crate::types::encode::put_if(
        none.push(Written::Text(ATTRIB_NAME, field.name@)).push(Written::Signed(ATTRIB_OFFSET, field.offset as i64)),
        field.ident != field.offset,
        Written::Signed(ATTRIB_ID, field.ident as i64),
    );
    let head = crate::types::encode::put_if(
        none.push(Written::Open(ELEM_FIELD)).push(Written::Text(ATTRIB_NAME, field.name@)).push(
            Written::Signed(ATTRIB_OFFSET, field.offset as i64),
        ),
        field.ident != field.offset,
        Written::Signed(ATTRIB_ID, field.ident as i64),
    );
    let tokens = crate::types::encode::field_written(none, field, glb, steps)->0.tokens;
    reference_added(head, glb.types.dt(field.tp), glb, steps);
    let inside = crate::types::encode::referred(head, glb.types.dt(field.tp), glb, steps)->0.tokens;
    assert(forall|k: int| 0 <= k < inside.len() ==> #[trigger] tokens[k] == inside[k]);
    first_element_holds(elem, tokens, head);
    assert(head.len() == inner.len() + 1);
    assert forall|i: int| 0 <= i < inner.len() implies crate::laws::says(#[trigger] elem.attributes@[i], inner[i]) by {
        assert(head[i + 1] == inner[i]);
    }
    crate::laws::field_reads_back(field, elem);
}

/// A field of bits that is written is read with its name, its place, its number of bits and its
/// lowest bit.
pub proof fn written_bitfield_reads_back(elem: Element, field: TypeBitField, glb: Architecture, steps: nat)
    requires
        crate::types::encode::bitfield_written(Seq::empty(), field, glb, steps) matches Some(doc) && doc.error is None
            && is_first_element(elem, doc.tokens),
    ensures
        elem.id == ELEM_BITFIELD,
        ({
            let told = crate::types::members::field_told(elem, true);
            &&& told.fault is None
            &&& told.name == field.name@
            &&& told.offset == field.bits.byte_offset
            &&& told.size == field.bits.num_bits
            &&& told.first == field.bits.least_sig_bit
        }),
{
    let none: Seq<Written> = Seq::empty();
    let head = none.push(Written::Open(ELEM_BITFIELD)).push(Written::Text(ATTRIB_NAME, field.name@)).push(
        Written::Signed(ATTRIB_OFFSET, field.bits.byte_offset as i64),
    ).push(Written::Signed(ATTRIB_SIZE, field.bits.num_bits as i64)).push(
        Written::Signed(crate::marshal::ATTRIB_FIRST, field.bits.least_sig_bit as i64),
    );
    let tokens = crate::types::encode::bitfield_written(none, field, glb, steps)->0.tokens;
    reference_added(head, glb.types.dt(field.tp), glb, steps);
    let inside = crate::types::encode::referred(head, glb.types.dt(field.tp), glb, steps)->0.tokens;
    assert(forall|k: int| 0 <= k < inside.len() ==> #[trigger] tokens[k] == inside[k]);
    first_element_holds(elem, tokens, head);
    let list = elem.attributes@;
    assert(list.len() == 4);
    assert(crate::laws::says(list[0], head[1]));
    assert(crate::laws::says(list[1], head[2]));
    assert(crate::laws::says(list[2], head[3]));
    assert(crate::laws::says(list[3], head[4]));
    reveal_with_fuel(crate::types::members::field_facts, 5);
}

/// The values of an enumeration are written in order, each with its name.
pub proof fn values_are_written_in_order(
    start: Seq<Written>,
    list: Seq<crate::types::names::NamedValue>,
    i: nat,
    k: int,
)
    requires
        i <= k < list.len(),
    ensures
        ({
            let all = crate::types::encode::values_written(start, list, i);
            let at = start.len() + 4 * (k - i);
            &&& all.len() == start.len() + 4 * (list.len() - i)
            &&& all[at] == Written::Open(ELEM_VAL)
            &&& all[at + 1] == Written::Text(ATTRIB_NAME, list[k].name@)
            &&& all[at + 2] == Written::Unsigned(ATTRIB_VALUE, list[k].value)
            &&& all[at + 3] == Written::Close(ELEM_VAL)
        }),
    decreases list.len() - i,
{
    let next = start.push(Written::Open(ELEM_VAL)).push(Written::Text(ATTRIB_NAME, list[i as int].name@)).push(
        Written::Unsigned(ATTRIB_VALUE, list[i as int].value),
    ).push(Written::Close(ELEM_VAL));
    if i < k {
        values_are_written_in_order(next, list, i + 1, k);
    } else {
        let all = crate::types::encode::values_written(next, list, i + 1);
        values_added(next, list, i + 1);
        values_counted(next, list, i + 1);
        assert(all[start.len() as int] == next[start.len() as int]);
        assert(all[start.len() as int + 1] == next[start.len() as int + 1]);
        assert(all[start.len() as int + 2] == next[start.len() as int + 2]);
        assert(all[start.len() as int + 3] == next[start.len() as int + 3]);
    }
}

proof fn values_counted(start: Seq<Written>, list: Seq<crate::types::names::NamedValue>, i: nat)
    requires
        i <= list.len(),
    ensures
        crate::types::encode::values_written(start, list, i).len() == start.len() + 4 * (list.len() - i),
    decreases list.len() - i,
{
    if i < list.len() {
        let next = start.push(Written::Open(ELEM_VAL)).push(Written::Text(ATTRIB_NAME, list[i as int].name@)).push(
            Written::Unsigned(ATTRIB_VALUE, list[i as int].value),
        ).push(Written::Close(ELEM_VAL));
        values_counted(next, list, i + 1);
    }
}

/// A typedef that is written is read with its name and its id.
pub proof fn typedef_reads_back(elem: Element, d: Datatype, glb: Architecture, steps: nat)
    requires
        crate::types::encode::typedef_written(Seq::empty(), d, glb, steps) matches Some(doc) && doc.error is None
            && is_first_element(elem, doc.tokens),
        d.id != 0,
        (d.flags & Datatype::FORCE_FORMAT) >> 12 == 0,
    ensures
        elem.id == ELEM_DEF,
        crate::types::finish::typedef_told(elem).fault is None,
        crate::types::finish::typedef_told(elem).name == d.name@,
        crate::types::finish::typedef_told(elem).id == d.id,
{
    let none: Seq<Written> = Seq::empty();
    let head = none.push(Written::Open(ELEM_DEF)).push(Written::Text(ATTRIB_NAME, d.name@)).push(
        Written::Unsigned(ATTRIB_ID, d.id),
    );
    let tokens = crate::types::encode::typedef_written(none, d, glb, steps)->0.tokens;
    let target = glb.types.dt(d.typedef_imm->0);
    reference_added(head, target, glb, steps);
    let inside = crate::types::encode::referred(head, target, glb, steps)->0.tokens;
    assert(forall|k: int| 0 <= k < inside.len() ==> #[trigger] tokens[k] == inside[k]);
    first_element_holds(elem, tokens, head);
    let list = elem.attributes@;
    assert(list.len() == 2);
    assert(crate::laws::says(list[0], head[1]));
    assert(crate::laws::says(list[1], head[2]));
    reveal_with_fuel(crate::types::finish::typedef_from, 3);
}

} // verus!

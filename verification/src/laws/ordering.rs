//! Which of two data-types is the more specific, and so comes first.
use vstd::prelude::*;
use crate::ids::TypeId;
use crate::types::{Datatype, SubMetatype, TypeFactory, TypeKind, TypeMetatype};

verus! {

/// Data-types are ordered by their fine class before all else.
pub proof fn finer_class_comes_first(a: Datatype, b: Datatype, level: int, types: TypeFactory)
    requires
        a.submeta.rank() != b.submeta.rank(),
    ensures
        (crate::types::compare::type_order_at(a, b, level, types) < 0) == (a.submeta.rank() < b.submeta.rank()),
        (crate::types::compare::type_order_at(a, b, level, types) > 0) == (a.submeta.rank() > b.submeta.rank()),
{
}

/// Of two data-types of one fine class the larger one comes first.
pub proof fn larger_comes_first(a: Datatype, b: Datatype, level: int, types: TypeFactory)
    requires
        a.submeta.rank() == b.submeta.rank(),
        a.size >= 0,
        b.size >= 0,
        a.size != b.size,
    ensures
        (crate::types::compare::type_order_at(a, b, level, types) < 0) == (a.size > b.size),
        (crate::types::compare::type_order_at(a, b, level, types) > 0) == (a.size < b.size),
{
}

/// The fine classes in order, the most specific first: what has fields or elements, then
/// pointers, then numbers by how much is known of them, and what nothing is known of at the end.
pub proof fn classes_in_order()
    ensures
        SubMetatype::PartialUnion.rank() < SubMetatype::Union.rank() < SubMetatype::Struct.rank()
            < SubMetatype::Array.rank() < SubMetatype::PtrStruct.rank() < SubMetatype::PtrRel.rank()
            < SubMetatype::Ptr.rank() < SubMetatype::PtrRelUnk.rank() < SubMetatype::Float.rank()
            < SubMetatype::Code.rank() < SubMetatype::Bool.rank() < SubMetatype::UintUnicode.rank()
            < SubMetatype::IntUnicode.rank() < SubMetatype::UintEnum.rank() < SubMetatype::UintPartialEnum.rank()
            < SubMetatype::IntEnum.rank() < SubMetatype::UintPlain.rank() < SubMetatype::IntPlain.rank()
            < SubMetatype::UintChar.rank() < SubMetatype::IntChar.rank() < SubMetatype::PartialStruct.rank()
            < SubMetatype::Unknown.rank() < SubMetatype::Spacebase.rank() < SubMetatype::Void.rank(),
        TypeMetatype::PartialUnion.rank() < TypeMetatype::PartialStruct.rank() < TypeMetatype::PartialEnum.rank()
            < TypeMetatype::Union.rank() < TypeMetatype::Struct.rank() < TypeMetatype::EnumInt.rank()
            < TypeMetatype::EnumUint.rank() < TypeMetatype::Array.rank() < TypeMetatype::PtrRel.rank()
            < TypeMetatype::Ptr.rank() < TypeMetatype::Float.rank() < TypeMetatype::Code.rank()
            < TypeMetatype::Bool.rank() < TypeMetatype::Uint.rank() < TypeMetatype::Int.rank()
            < TypeMetatype::Unknown.rank() < TypeMetatype::Spacebase.rank() < TypeMetatype::Void.rank(),
{
}

/// Two plain pointers that agree in all but what they point to.
pub open spec fn pointers_alike(a: Datatype, b: Datatype) -> bool {
    match (a.kind, b.kind) {
        (TypeKind::Pointer(x), TypeKind::Pointer(y)) => {
            &&& a.submeta == b.submeta
            &&& a.size == b.size
            &&& x.wordsize == y.wordsize
            &&& x.spaceid == y.spaceid
        },
        _ => false,
    }
}

/// Pointers that agree otherwise are ordered as what they point to, one reference less deep.
pub proof fn pointers_order_as_their_targets(a: Datatype, b: Datatype, level: int, types: TypeFactory)
    requires
        pointers_alike(a, b),
        level >= 1,
    ensures
        crate::types::compare::type_order_at(a, b, level, types) == crate::types::compare::type_order_at(
            types.dt(a.pointer().ptrto->0),
            types.dt(b.pointer().ptrto->0),
            level - 1,
            types,
        ),
{
    assert(b.size.wrapping_sub(a.size) == 0);
}

/// Of pointers that agree otherwise, the one to the data-type of the more specific class comes
/// first, and among data-types of one class the one to the larger.
pub proof fn pointer_to_the_more_specific_comes_first(a: Datatype, b: Datatype, level: int, types: TypeFactory)
    requires
        pointers_alike(a, b),
        level >= 1,
    ensures
        ({
            let x = types.dt(a.pointer().ptrto->0);
            let y = types.dt(b.pointer().ptrto->0);
            let order = crate::types::compare::type_order_at(a, b, level, types);
            &&& x.submeta.rank() < y.submeta.rank() ==> order < 0
            &&& x.submeta.rank() > y.submeta.rank() ==> order > 0
            &&& x.submeta == y.submeta && x.size > y.size >= 0 ==> order < 0
            &&& x.submeta == y.submeta && y.size > x.size >= 0 ==> order > 0
        }),
{
    pointers_order_as_their_targets(a, b, level, types);
    let x = types.dt(a.pointer().ptrto->0);
    let y = types.dt(b.pointer().ptrto->0);
    if x.submeta.rank() != y.submeta.rank() {
        finer_class_comes_first(x, y, level - 1, types);
    } else if x.size >= 0 && y.size >= 0 && x.size != y.size {
        larger_comes_first(x, y, level - 1, types);
    }
}

/// Relative pointers that agree otherwise are ordered as what they point to.
pub proof fn relative_pointers_order_as_their_targets(a: Datatype, b: Datatype, level: int, types: TypeFactory)
    requires
        a.kind is PointerRel,
        b.kind is PointerRel,
        a.submeta == b.submeta,
        a.size == b.size,
        a.pointer().wordsize == b.pointer().wordsize,
        a.pointer().spaceid == b.pointer().spaceid,
        (a.kind->PointerRel_0.stripped is Some) == (b.kind->PointerRel_0.stripped is Some),
        level >= 1,
    ensures
        crate::types::compare::type_order_at(a, b, level, types) == crate::types::compare::type_order_at(
            types.dt(a.pointer().ptrto->0),
            types.dt(b.pointer().ptrto->0),
            level - 1,
            types,
        ),
{
    assert(b.size.wrapping_sub(a.size) == 0);
}

/// Arrays of one size are ordered as their elements.
pub proof fn arrays_order_as_their_elements(a: Datatype, b: Datatype, level: int, types: TypeFactory)
    requires
        a.kind is Array,
        b.kind is Array,
        a.submeta == b.submeta,
        a.size == b.size,
        level >= 1,
    ensures
        crate::types::compare::type_order_at(a, b, level, types) == crate::types::compare::type_order_at(
            types.dt(a.kind->Array_0.arrayof->0),
            types.dt(b.kind->Array_0.arrayof->0),
            level - 1,
            types,
        ),
{
    assert(b.size.wrapping_sub(a.size) == 0);
}

/// Parts of one size and class are ordered by where they start, and then as what they are
/// parts of.
pub proof fn parts_order_by_place(a: Datatype, b: Datatype, level: int, types: TypeFactory)
    requires
        a.is_partial(),
        b.is_partial(),
        a.submeta == b.submeta,
        a.size == b.size,
        level >= 1,
    ensures
        a.part_offset() < b.part_offset() ==> crate::types::compare::type_order_at(a, b, level, types) < 0,
        a.part_offset() > b.part_offset() ==> crate::types::compare::type_order_at(a, b, level, types) > 0,
        a.part_offset() == b.part_offset() ==> crate::types::compare::type_order_at(a, b, level, types)
            == crate::types::compare::type_order_at(types.dt(a.part_of()), types.dt(b.part_of()), level - 1, types),
{
    assert(b.size.wrapping_sub(a.size) == 0);
}

/// Whichever structure has a field at the first place where two structures of one size and as
/// many fields differ that lies further ahead comes first; where the places agree, the names
/// decide.
pub proof fn structures_order_by_their_first_difference(a: Datatype, b: Datatype, level: int, types: TypeFactory, k: int)
    requires
        a.kind is Struct,
        b.kind is Struct,
        a.submeta == b.submeta,
        a.size == b.size,
        a.fields().len() == b.fields().len(),
        0 <= k < a.fields().len(),
        forall|i: int| 0 <= i < k ==> {
            let x = #[trigger] a.fields()[i];
            let y = b.fields()[i];
            x.offset == y.offset && x.name@ == y.name@ && types.dt(x.tp).metatype == types.dt(y.tp).metatype
        },
        a.fields()[k].offset != b.fields()[k].offset || a.fields()[k].name@ != b.fields()[k].name@,
    ensures
        ({
            let x = a.fields()[k];
            let y = b.fields()[k];
            let order = crate::types::compare::type_order_at(a, b, level, types);
            &&& x.offset < y.offset ==> order < 0
            &&& x.offset > y.offset ==> order > 0
            &&& x.offset == y.offset ==> (order < 0) == (crate::text::text_order(x.name@, y.name@) < 0) && order != 0
        }),
{
    assert(b.size.wrapping_sub(a.size) == 0);
    first_difference(a.fields(), b.fields(), types, 0, k);
}

proof fn first_difference(
    a: Seq<crate::types::TypeField>,
    b: Seq<crate::types::TypeField>,
    types: TypeFactory,
    i: int,
    k: int,
)
    requires
        a.len() == b.len(),
        0 <= i <= k < a.len(),
        forall|j: int| 0 <= j < k ==> {
            let x = #[trigger] a[j];
            let y = b[j];
            x.offset == y.offset && x.name@ == y.name@ && types.dt(x.tp).metatype == types.dt(y.tp).metatype
        },
        a[k].offset != b[k].offset || a[k].name@ != b[k].name@,
    ensures
        crate::types::compare::fields_order(a, b, types, i) == a[k].order(b[k], types),
        a[k].order(b[k], types) != 0,
    decreases k - i,
{
    if i < k {
        first_difference(a, b, types, i + 1, k);
        assert(a[i].order(b[i], types) == 0);
    }
}

/// No data-type is more or less specific than itself.
pub proof fn no_type_precedes_itself(a: Datatype, level: int, types: TypeFactory)
    ensures
        crate::types::compare::type_order_at(a, a, level, types) == 0,
    decreases (if level < 0 {
        0
    } else {
        level
    }), 0nat,
{
    assert(a.size.wrapping_sub(a.size) == 0);
    assert(crate::types::compare::surface_order(a, a, types) == 0) by {
        surface_of_itself(a, types);
    }
    if level >= 1 && crate::types::compare::has_references(a, a) {
        match a.kind {
            TypeKind::Pointer(data) => no_type_precedes_itself(types.dt(data.ptrto->0), level - 1, types),
            TypeKind::PointerRel(data) => no_type_precedes_itself(types.dt(data.pointer.ptrto->0), level - 1, types),
            TypeKind::Array(data) => no_type_precedes_itself(types.dt(data.arrayof->0), level - 1, types),
            TypeKind::Struct(data) => {
                no_member_precedes_itself(
                    crate::types::compare::field_types(data.field@),
                    types,
                    (level - 1) as nat,
                    true,
                    0,
                );
                no_member_precedes_itself(
                    crate::types::compare::bit_types(data.bitfield@),
                    types,
                    (level - 1) as nat,
                    true,
                    0,
                );
            },
            TypeKind::Union(data) => {
                no_member_precedes_itself(
                    crate::types::compare::field_types(data.field@),
                    types,
                    (level - 1) as nat,
                    true,
                    0,
                );
            },
            TypeKind::PartialEnum(_) | TypeKind::PartialStruct(_) | TypeKind::PartialUnion(_) => {
                no_type_precedes_itself(types.dt(a.part_of()), level - 1, types)
            },
            TypeKind::Code(_) => {
                no_member_precedes_itself(a.signature()->0.params@, types, (level - 1) as nat, false, 0);
                if a.signature()->0.output is Some {
                    no_type_precedes_itself(types.dt(a.signature()->0.output->0), level - 1, types);
                }
            },
            _ => {},
        }
    }
}

proof fn no_member_precedes_itself(a: Seq<TypeId>, types: TypeFactory, level: nat, skip_same: bool, i: int)
    ensures
        crate::types::compare::members_order(a, a, types, level, skip_same, i) == 0,
    decreases
            level,
            (if 0 <= i <= a.len() {
                1 + a.len() - i
            } else {
                1
            }) as nat,
{
    if 0 <= i < a.len() {
        if !skip_same {
            no_type_precedes_itself(types.dt(a[i]), level as int, types);
        }
        no_member_precedes_itself(a, types, level, skip_same, i + 1);
    }
}

proof fn surface_of_itself(a: Datatype, types: TypeFactory)
    ensures
        crate::types::compare::surface_order(a, a, types) == 0,
{
    assert(a.size.wrapping_sub(a.size) == 0);
    match a.kind {
        TypeKind::Struct(data) => {
            fields_of_itself(data.field@, types, 0);
            bits_of_itself(data.bitfield@, types, 0);
        },
        TypeKind::Union(data) => union_of_itself(data.field@, types, 0),
        TypeKind::Enum(data) => names_of_itself(data.namemap, 0),
        _ => {},
    }
}

proof fn fields_of_itself(a: Seq<crate::types::TypeField>, types: TypeFactory, i: int)
    ensures
        crate::types::compare::fields_order(a, a, types, i) == 0,
    decreases a.len() - i,
{
    if 0 <= i < a.len() {
        fields_of_itself(a, types, i + 1);
    }
}

proof fn bits_of_itself(a: Seq<crate::types::TypeBitField>, types: TypeFactory, i: int)
    ensures
        crate::types::compare::bits_order(a, a, types, i) == 0,
    decreases a.len() - i,
{
    if 0 <= i < a.len() {
        bits_of_itself(a, types, i + 1);
    }
}

proof fn union_of_itself(a: Seq<crate::types::TypeField>, types: TypeFactory, i: int)
    ensures
        crate::types::compare::union_order(a, a, types, i) == 0,
    decreases a.len() - i,
{
    if 0 <= i < a.len() {
        union_of_itself(a, types, i + 1);
    }
}

proof fn names_of_itself(a: crate::types::names::NameMap, i: int)
    ensures
        crate::types::compare::names_order(a, a, i) == 0,
    decreases a.entries@.len() - i,
{
    if 0 <= i < a.entries@.len() {
        names_of_itself(a, i + 1);
    }
}

/// In the order that counts for formal parameters, parts of unions come behind all else, and truth
/// values behind all but those; the rest is ordered as ever.
pub proof fn formal_order_puts_truth_last(first: TypeId, second: TypeId, types: TypeFactory)
    ensures
        first == second ==> Datatype::formal_order(first, second, types) == 0,
        first != second ==> ({
            let a = types.dt(first).metatype;
            let b = types.dt(second).metatype;
            let order = Datatype::formal_order(first, second, types);
            &&& !(a is PartialUnion) && b is PartialUnion ==> order < 0
            &&& a is PartialUnion ==> order > 0
            &&& !(a is PartialUnion) && !(a is Bool) && b is Bool ==> order < 0
            &&& a is Bool && !(b is PartialUnion) ==> order > 0
            &&& !(a is PartialUnion || a is Bool || b is PartialUnion || b is Bool) ==> order
                == crate::types::compare::type_order_at(types.dt(first), types.dt(second), 10, types)
        }),
{
}

} // verus!

//! What is said of values when data-types spread along operations.
use vstd::prelude::*;
use crate::architecture::Architecture;
use crate::error::{Error, Result};
use crate::funcdata::Funcdata;
use crate::ids::{OpId, TypeId, VarnodeId};
use crate::opcodes::OpCode;
use crate::types::{Datatype, TypeFactory, TypeKind, TypePointerData};

verus! {

/// Data-types that the factory does not tell apart have one size and one fine class.
pub proof fn not_told_apart_is_same_size(a: Datatype, b: Datatype)
    requires
        crate::types::compare::dependency_order(a, b) == 0,
    ensures
        a.size == b.size,
        a.submeta.rank() == b.submeta.rank(),
{
    assert(crate::types::compare::size_order(a, b) == 0);
    assert(b.size.wrapping_sub(a.size) == 0);
}

/// Who asks the factory for a data-type is given one of the size and the fine class asked for.
pub proof fn given_size_is_asked_size(before: TypeFactory, after: TypeFactory, asked: Datatype, id: TypeId)
    requires
        after.adds(before, asked, Ok::<TypeId, Error>(id)),
        after.arena@.len() <= u32::MAX,
    ensures
        after.dt(id).size == asked.size,
        after.dt(id).submeta.rank() == asked.submeta.rank(),
{
    let existing = if asked.name@.len() > 0 {
        before.by_name(asked.name@, asked.id)
    } else {
        before.found(asked)
    };
    if existing is Some {
        not_told_apart_is_same_size(after.dt(id), asked);
    } else {
        let d = choose|d: Datatype| #[trigger]
            before.completes(d, asked) && after.inserts(before, d, Ok::<TypeId, Error>(id));
        assert(after.arena@.last() == Some(d));
    }
}

proof fn adding_extends(before: TypeFactory, after: TypeFactory, asked: Datatype, res: Result<TypeId>)
    requires
        after.adds(before, asked, res),
    ensures
        after.arena@.len() >= before.arena@.len(),
        forall|i: int| 0 <= i < before.arena@.len() ==> #[trigger] after.arena@[i] == before.arena@[i],
{
    if after != before {
        let d = choose|d: Datatype| #[trigger] before.completes(d, asked) && after.inserts(before, d, res);
    }
}

/// Who asks for a pointer without a name is given one of the size asked for.
pub proof fn given_pointer_has_asked_size(
    before: TypeFactory,
    after: TypeFactory,
    size: i32,
    data: TypePointerData,
    ptr: TypeId,
)
    requires
        before.sound(),
        after.makes_pointer(before, size, data, Seq::empty(), 0, Ok::<TypeId, Error>(ptr)),
        after.has(ptr),
        after.arena@.len() <= u32::MAX,
    ensures
        after.dt(ptr).size == size,
{
    let (tmp, mid, r) = choose|tmp: Datatype, mid: TypeFactory, r: Result<TypeId>| #[trigger]
        before.is_named_pointer(tmp, size, data, Seq::empty(), 0) && #[trigger] mid.adds(before, tmp, r) && match r {
            Err(e) => after == mid && Ok::<TypeId, Error>(ptr) == Err::<TypeId, Error>(e),
            Ok(p) => exists|t: Result<()>| #[trigger]
                after.truncates(mid, p, t) && match t {
                    Ok(_) => Ok::<TypeId, Error>(ptr) == Ok::<TypeId, Error>(p),
                    Err(e) => Ok::<TypeId, Error>(ptr) == Err::<TypeId, Error>(e),
                },
        };
    let d = mid.dt(ptr);
    let t = choose|t: Result<()>| #[trigger]
        after.truncates(mid, r->Ok_0, t) && match t {
            Ok(_) => Ok::<TypeId, Error>(ptr) == Ok::<TypeId, Error>(r->Ok_0),
            Err(e) => Ok::<TypeId, Error>(ptr) == Err::<TypeId, Error>(e),
        };
    assert(t is Ok && r->Ok_0 == ptr);
    if d.pointer().truncate is Some || d.size != mid.size_of_alt_pointer {
        given_size_is_asked_size(before, mid, tmp, ptr);
    } else {
        let (short, r2) = choose|short: TypeFactory, r2: Result<TypeId>| #[trigger]
            mid.short_form(short, d, r2) && match r2 {
                Ok(cut) => t is Ok && after.retouched(
                    short,
                    ptr,
                    d.with_truncation(cut, mid.default_data_space->0.big_endian),
                ),
                Err(e) => after == short && t == Err::<(), Error>(e),
            };
        if mid.size_of_pointer >= 0 {
            let tmp2 = choose|tmp2: Datatype| #[trigger]
                mid.is_pointer_to(
                    tmp2,
                    mid.size_of_pointer,
                    mid.plain_form(d.pointer().ptrto->0),
                    d.pointer().wordsize,
                    Seq::empty(),
                    0,
                ) && short.adds(mid, tmp2, r2);
            adding_extends(mid, short, tmp2, r2);
        }
        assert(r2 is Ok);
        let cut = d.with_truncation(r2->Ok_0, mid.default_data_space->0.big_endian);
        assert(after.retouched(short, ptr, cut));
        if before.found(tmp) is Some && tmp.name@.len() == 0 {
            before.tree_names_members(before.place(tmp, 0) as int);
        }
        assert(ptr.0 < short.arena@.len());
        assert(after.arena@[ptr.0 as int] == Some(cut));
        assert(cut.size == d.size);
        given_size_is_asked_size(before, mid, tmp, ptr);
    }
}

proof fn walked_piece_has_size(
    cur: TypeId,
    off: i64,
    size: i32,
    last: Option<(TypeId, i64)>,
    types: TypeFactory,
)
    requires
        types.walkable(),
        types.member(cur),
    ensures
        crate::types::piece::exact_walk(cur, off, size, last, types).0 matches Some(found) ==> types.dt(found).size == size,
    decreases types.above(types.dt(cur)), types.depth_of(types.dt(cur)),
{
    let d = types.dt(cur);
    if d.size < (size as i64).wrapping_add(off) {
    } else if d.size == size {
    } else {
        let (sub, newoff) = crate::types::inside::step_into(d, off, off, types, None);
        if sub is Some && types.below(sub->0, d) {
            walked_piece_has_size(sub->0, newoff, size, Some((cur, off)), types);
        }
    }
}

/// A piece of a data-type has the size that was asked for.
pub proof fn piece_has_asked_size(
    after: TypeFactory,
    before: TypeFactory,
    ct: TypeId,
    offset: i32,
    size: i32,
    found: TypeId,
)
    requires
        before.walkable(),
        before.member(ct),
        after.makes_piece(before, ct, offset, size, Ok::<Option<TypeId>, Error>(Some(found))),
        after.arena@.len() <= u32::MAX,
    ensures
        after.dt(found).size == size,
{
    walked_piece_has_size(ct, offset as i64, size, None, before);
    let (whole, last) = crate::types::piece::exact_walk(ct, offset as i64, size, None, before);
    if whole is None {
        let tp = (last->0).0;
        let off = (last->0).1;
        let r = choose|r: Result<TypeId>| #[trigger]
            after.makes_part(before, tp, off, size, r) && match r {
                Ok(part) => Ok::<Option<TypeId>, Error>(Some(found)) == Ok::<Option<TypeId>, Error>(Some(part)),
                Err(e) => Ok::<Option<TypeId>, Error>(Some(found)) == Err::<Option<TypeId>, Error>(e),
            };
        match before.dt(tp).kind {
            TypeKind::Union(_) => part_of_union_has_size(after, before, tp, off as i32, size, found),
            TypeKind::PartialUnion(data) => part_of_union_has_size(
                after,
                before,
                data.container,
                off.wrapping_add(data.offset as i64) as i32,
                size,
                found,
            ),
            TypeKind::Enum(_) | TypeKind::PartialEnum(_) => part_of_enum_has_size(after, before, tp, off as i32, size, found),
            _ => part_of_structure_has_size(after, before, tp, off as i32, size, found),
        }
    }
}

/// A part of a union has the size that was asked for.
pub proof fn part_of_union_has_size(
    after: TypeFactory,
    before: TypeFactory,
    contain: TypeId,
    off: i32,
    size: i32,
    found: TypeId,
)
    requires
        after.makes_partial_union(before, contain, off, size, Ok::<TypeId, Error>(found)),
        after.arena@.len() <= u32::MAX,
    ensures
        after.dt(found).size == size,
{
    let (mid, r) = choose|mid: TypeFactory, r: Result<TypeId>| #[trigger]
        mid.makes_base(before, size, crate::types::TypeMetatype::Unknown, r) && match r {
            Err(e) => after == mid && Ok::<TypeId, Error>(found) == Err::<TypeId, Error>(e),
            Ok(strip) => exists|tmp: Datatype| #[trigger]
                TypeFactory::is_partial_union(tmp, contain, off, size, strip, mid) && after.adds(
                    mid,
                    tmp,
                    Ok::<TypeId, Error>(found),
                ),
        };
    let tmp = choose|tmp: Datatype| #[trigger]
        TypeFactory::is_partial_union(tmp, contain, off, size, r->Ok_0, mid) && after.adds(
            mid,
            tmp,
            Ok::<TypeId, Error>(found),
        );
    given_size_is_asked_size(mid, after, tmp, found);
}

/// A part of an enumeration has the size that was asked for.
pub proof fn part_of_enum_has_size(
    after: TypeFactory,
    before: TypeFactory,
    contain: TypeId,
    off: i32,
    size: i32,
    found: TypeId,
)
    requires
        after.makes_partial_enum(before, contain, off, size, Ok::<TypeId, Error>(found)),
        after.arena@.len() <= u32::MAX,
    ensures
        after.dt(found).size == size,
{
    let (mid, r) = choose|mid: TypeFactory, r: Result<TypeId>| #[trigger]
        mid.makes_base(before, size, crate::types::TypeMetatype::Unknown, r) && match r {
            Err(e) => after == mid && Ok::<TypeId, Error>(found) == Err::<TypeId, Error>(e),
            Ok(strip) => exists|tmp: Datatype| #[trigger]
                TypeFactory::is_partial_enum(tmp, contain, off, size, strip, mid) && after.adds(
                    mid,
                    tmp,
                    Ok::<TypeId, Error>(found),
                ),
        };
    let tmp = choose|tmp: Datatype| #[trigger]
        TypeFactory::is_partial_enum(tmp, contain, off, size, r->Ok_0, mid) && after.adds(
            mid,
            tmp,
            Ok::<TypeId, Error>(found),
        );
    given_size_is_asked_size(mid, after, tmp, found);
}

/// A part of a structure or an array has the size that was asked for.
pub proof fn part_of_structure_has_size(
    after: TypeFactory,
    before: TypeFactory,
    contain: TypeId,
    off: i32,
    size: i32,
    found: TypeId,
)
    requires
        after.makes_partial_struct(before, contain, off, size, Ok::<TypeId, Error>(found)),
        after.arena@.len() <= u32::MAX,
    ensures
        after.dt(found).size == size,
{
    let (mid, r) = choose|mid: TypeFactory, r: Result<TypeId>| #[trigger]
        mid.makes_base(before, size, crate::types::TypeMetatype::Unknown, r) && match r {
            Err(e) => after == mid && Ok::<TypeId, Error>(found) == Err::<TypeId, Error>(e),
            Ok(strip) => exists|tmp: Datatype| #[trigger]
                tmp.is_new_partial_struct(contain, off, size, strip, mid) && after.adds(
                    mid,
                    tmp,
                    Ok::<TypeId, Error>(found),
                ),
        };
    let tmp = choose|tmp: Datatype| #[trigger]
        tmp.is_new_partial_struct(contain, off, size, r->Ok_0, mid) && after.adds(
            mid,
            tmp,
            Ok::<TypeId, Error>(found),
        );
    given_size_is_asked_size(mid, after, tmp, found);
}

/// What is read or written through a pointer gets a data-type of the size that is read or
/// written, if it gets any; the target of the pointer if that has the size and a fixed length.
/// Nothing but a pointer says anything of it.
pub proof fn what_a_pointer_reads(
    after: Architecture,
    before: Architecture,
    dt: TypeId,
    size: i32,
    res: Result<Option<TypeId>>,
)
    requires
        before.workable(),
        before.types.has(dt),
        after.grew(before),
        crate::typeop::propagate::spreads_from_pointer(after, before, dt, size, res),
    ensures
        res matches Ok(Some(tp)) ==> after.types.dt(tp).size == size && before.types.dt(dt).is_pointer(),
        before.types.dt(dt).is_pointer() && ({
            let target = before.types.dt(before.types.dt(dt).pointer().ptrto->0);
            target.size == size && !target.flag(Datatype::VARIABLE_LENGTH)
        }) ==> res == Ok::<Option<TypeId>, Error>(before.types.dt(dt).pointer().ptrto) && after == before,
        before.types.dt(dt).is_pointer() && before.types.dt(before.types.dt(dt).pointer().ptrto->0).flag(
            Datatype::VARIABLE_LENGTH,
        ) ==> res == Ok::<Option<TypeId>, Error>(None),
{
    let types = before.types;
    let d = types.dt(dt);
    types.look(dt);
    types.parts(d);
    after.types.cache_sizes();
    if d.is_pointer() && types.dt(d.pointer().ptrto->0).size != size && (res matches Ok(Some(_))) {
        let found = (res->Ok_0)->0;
        if d.kind is PointerRel {
            let rel = d.kind->PointerRel_0;
            types.look(rel.parent->0);
            piece_has_asked_size(after.types, types, rel.parent->0, rel.offset, size, found);
        } else {
            part_of_enum_has_size(after.types, types, d.pointer().ptrto->0, 0, size, found);
        }
    }
}

/// What a data-type that is read or written says of the pointer: that it has the size of the
/// value that is the pointer.
pub proof fn what_is_read_says_of_its_pointer(
    after: Architecture,
    before: Architecture,
    dt: TypeId,
    size: i32,
    ws: u32,
    ptr: TypeId,
)
    requires
        before.workable(),
        before.types.has(dt),
        !before.types.dt(dt).is_pointer(),
        after.grew(before),
        after.types.has(ptr),
        crate::typeop::propagate::spreads_to_pointer(after, before, dt, size, ws, Ok::<TypeId, Error>(ptr)),
    ensures
        after.types.dt(ptr).size == size,
{
    after.types.cache_sizes();
    given_pointer_has_asked_size(
        before.types,
        after.types,
        size,
        crate::types::pointers::plain_pointer(
            before.types.plain_form(crate::typeop::propagate::pointed_part(dt, before.types)),
            ws,
        ),
        ptr,
    );
}

/// What a load or a store says of the value that it reads or writes through a pointer, or of the
/// pointer: a data-type that has the size of what it is said of.
pub proof fn loads_and_stores_keep_sizes(
    after: Funcdata,
    after_glb: Architecture,
    before: Funcdata,
    before_glb: Architecture,
    opcode: OpCode,
    near: i32,
    far: i32,
    alttype: TypeId,
    op: OpId,
    invn: VarnodeId,
    outvn: VarnodeId,
    inslot: i32,
    outslot: i32,
    found: TypeId,
)
    requires
        opcode is Load || opcode is Store,
        before_glb.workable(),
        before_glb.types.has(alttype),
        after_glb.grew(before_glb),
        after_glb.types.has(found),
        !before_glb.types.dt(alttype).is_pointer() || inslot == 1,
        crate::typeop::spread::spreads(
            after,
            after_glb,
            before,
            before_glb,
            opcode,
            near,
            far,
            alttype,
            op,
            invn,
            outvn,
            inslot,
            outslot,
            Ok::<Option<TypeId>, Error>(Some(found)),
        ),
    ensures
        after_glb.types.dt(found).size == before.value(outvn).size,
{
    let size = before.value(outvn).size;
    let said = Ok::<Option<TypeId>, Error>(Some(found));
    if inslot == (if opcode is Load {
        -1int
    } else {
        2
    }) {
        let ws = crate::typeop::spread::named_space(before.operation(op).inrefs@[0], before, before_glb).word_size;
        let r = choose|r: Result<TypeId>| #[trigger]
            crate::typeop::propagate::spreads_to_pointer(after_glb, before_glb, alttype, size, ws, r) && match r {
                Ok(tp) => said == Ok::<Option<TypeId>, Error>(Some(tp)),
                Err(e) => said == Err::<Option<TypeId>, Error>(e),
            };
        what_is_read_says_of_its_pointer(after_glb, before_glb, alttype, size, ws, found);
    } else {
        what_a_pointer_reads(after_glb, before_glb, alttype, size, said);
    }
}

/// What a load through a pointer says of the value that is read: that it is what the pointer
/// points to, if that has the size of the value and a fixed length.
pub proof fn a_load_reads_the_target(
    after: Funcdata,
    after_glb: Architecture,
    before: Funcdata,
    before_glb: Architecture,
    near: i32,
    far: i32,
    ptr: TypeId,
    op: OpId,
    invn: VarnodeId,
    outvn: VarnodeId,
    res: Result<Option<TypeId>>,
)
    requires
        before_glb.workable(),
        before_glb.types.has(ptr),
        after_glb.grew(before_glb),
        before_glb.types.dt(ptr).is_pointer(),
        before_glb.types.dt(before_glb.types.dt(ptr).pointer().ptrto->0).size == before.value(outvn).size,
        !before_glb.types.dt(before_glb.types.dt(ptr).pointer().ptrto->0).flag(Datatype::VARIABLE_LENGTH),
        !before.value(invn).flag(crate::varnode::Varnode::SPACEBASE),
        crate::typeop::spread::spreads(
            after,
            after_glb,
            before,
            before_glb,
            OpCode::Load,
            near,
            far,
            ptr,
            op,
            invn,
            outvn,
            1,
            -1i32,
            res,
        ),
    ensures
        res == Ok::<Option<TypeId>, Error>(before_glb.types.dt(ptr).pointer().ptrto),
        after == before,
        after_glb == before_glb,
{
    what_a_pointer_reads(after_glb, before_glb, ptr, before.value(outvn).size, res);
}

/// What a store through a pointer says of the value that is written: that it is what the pointer
/// points to, if that has the size of the value and a fixed length.
pub proof fn a_store_writes_the_target(
    after: Funcdata,
    after_glb: Architecture,
    before: Funcdata,
    before_glb: Architecture,
    near: i32,
    far: i32,
    ptr: TypeId,
    op: OpId,
    invn: VarnodeId,
    outvn: VarnodeId,
    res: Result<Option<TypeId>>,
)
    requires
        before_glb.workable(),
        before_glb.types.has(ptr),
        after_glb.grew(before_glb),
        before_glb.types.dt(ptr).is_pointer(),
        before_glb.types.dt(before_glb.types.dt(ptr).pointer().ptrto->0).size == before.value(outvn).size,
        !before_glb.types.dt(before_glb.types.dt(ptr).pointer().ptrto->0).flag(Datatype::VARIABLE_LENGTH),
        !before.value(invn).flag(crate::varnode::Varnode::SPACEBASE),
        crate::typeop::spread::spreads(
            after,
            after_glb,
            before,
            before_glb,
            OpCode::Store,
            near,
            far,
            ptr,
            op,
            invn,
            outvn,
            1,
            2,
            res,
        ),
    ensures
        res == Ok::<Option<TypeId>, Error>(before_glb.types.dt(ptr).pointer().ptrto),
        after == before,
        after_glb == before_glb,
{
    what_a_pointer_reads(after_glb, before_glb, ptr, before.value(outvn).size, res);
}

proof fn component_has_size(cur: TypeId, off: i64, size: i32, glb: Architecture)
    requires
        glb.workable(),
        glb.types.member(cur),
    ensures
        crate::typeop::spread::component_of_size(cur, off, size, glb) matches Some(found) ==> glb.types.dt(found).size
            == size,
    decreases glb.types.above(glb.types.dt(cur)), glb.types.depth_of(glb.types.dt(cur)),
{
    let d = glb.types.dt(cur);
    if !(off == 0 && d.size == size) {
        let (sub, newoff) = crate::types::inside::step_into(d, off, off, glb.types, Some(&glb));
        if sub is Some && glb.types.below(sub->0, d) {
            component_has_size(sub->0, newoff, size, glb);
        }
    }
}

/// What a concatenation says of a part that it reads has the size of the part, and what a
/// comparison of signed integers says of one side is what is known of the other.
pub proof fn parts_and_sides(
    after: Funcdata,
    after_glb: Architecture,
    before: Funcdata,
    before_glb: Architecture,
    opcode: OpCode,
    near: i32,
    far: i32,
    alttype: TypeId,
    op: OpId,
    invn: VarnodeId,
    outvn: VarnodeId,
    inslot: i32,
    outslot: i32,
    found: TypeId,
)
    requires
        before_glb.workable(),
        before_glb.types.has(alttype),
        crate::typeop::spread::spreads(
            after,
            after_glb,
            before,
            before_glb,
            opcode,
            near,
            far,
            alttype,
            op,
            invn,
            outvn,
            inslot,
            outslot,
            Ok::<Option<TypeId>, Error>(Some(found)),
        ),
    ensures
        opcode is Piece && !before_glb.types.dt(alttype).is_pointer() ==> before_glb.types.dt(found).size == before.value(
            outvn,
        ).size && inslot == -1,
        opcode is IntSless || opcode is IntSlessequal ==> found == alttype && before_glb.types.dt(alttype).metatype is Int
            && inslot != -1 && outslot != -1,
        (opcode is Copy || opcode is Multiequal || opcode is Indirect || opcode is IntXor || opcode is IntAnd || opcode
            is IntOr) && !before.value(invn).flag(crate::varnode::Varnode::SPACEBASE) ==> found == alttype && after_glb
            == before_glb,
        opcode is Copy || opcode is Multiequal || opcode is Indirect ==> inslot == -1 || outslot == -1,
        (opcode is IntEqual || opcode is IntNotequal || opcode is IntLess || opcode is IntLessequal) && !before.value(
            invn,
        ).flag(crate::varnode::Varnode::SPACEBASE) && !(before_glb.types.dt(alttype).kind is PointerRel) ==> found
            == alttype && inslot != -1 && outslot != -1,
{
    before_glb.types.look(alttype);
    if opcode is Piece && !before_glb.types.dt(alttype).is_pointer() {
        component_has_size(
            alttype,
            crate::typeop::ops::TypeOpPiece::placed_at(op, outslot, before) as i64,
            before.value(outvn).size,
            before_glb,
        );
    }
}

/// Who asks for an array is given one of as many elements, each with the room that it takes up.
pub proof fn given_array_has_asked_size(before: TypeFactory, after: TypeFactory, count: i32, ao: TypeId, id: TypeId)
    requires
        after.makes_array(before, count, ao, Ok::<TypeId, Error>(id)),
        after.arena@.len() <= u32::MAX,
    ensures
        after.dt(id).size == count.wrapping_mul(before.dt(before.plain_form(ao)).align_size),
        after.dt(id).submeta is Array,
{
    let element = before.plain_form(ao);
    let tmp = choose|tmp: Datatype| #[trigger]
        tmp.is_new_array(count, element, before.dt(element)) && after.adds(before, tmp, Ok::<TypeId, Error>(id));
    given_size_is_asked_size(before, after, tmp, id);
    crate::types::submeta_rank_injective(after.dt(id).submeta, tmp.submeta);
}

/// Who asks for a base data-type is given one of the size asked for.
pub proof fn given_base_has_asked_size(
    before: TypeFactory,
    after: TypeFactory,
    size: i32,
    meta: crate::types::TypeMetatype,
    id: TypeId,
)
    requires
        before.sound(),
        after.makes_base(before, size, meta, Ok::<TypeId, Error>(id)),
        after.arena@.len() <= u32::MAX,
        size <= before.max_basetype_size,
        !(meta is Float),
    ensures
        after.dt(id).size == size,
{
    if 0 <= size < 9 && meta.rank() >= 10 && before.cached(size as int, meta) is Some {
        before.cache_fits(size as int, meta);
    } else {
        let tmp = choose|tmp: Datatype| #[trigger]
            TypeFactory::is_base(tmp, size, meta, Seq::empty(), 0) && after.adds(before, tmp, Ok::<TypeId, Error>(id));
        given_size_is_asked_size(before, after, tmp, id);
    }
}

/// The value that an operation reads or writes is wished to have a data-type of its own size.
pub proof fn wishes_have_the_size_of_values(
    after: Architecture,
    before: Architecture,
    opcode: OpCode,
    meta: Option<crate::typeop::TypeOpMeta>,
    op: OpId,
    slot: i32,
    data: Funcdata,
    userops: crate::userop::UserOpManage,
    at_address: Option<TypeId>,
    id: TypeId,
)
    requires
        before.types.sound(),
        after.types.arena@.len() <= u32::MAX,
        meta is Some,
        !(meta->0.metain is Float),
        opcode is IntEqual || opcode is IntNotequal || opcode is IntSless || opcode is IntSlessequal || opcode is IntLess
            || opcode is IntLessequal || opcode is IntZext || opcode is IntSext || opcode is IntAdd || opcode is IntSub
            || opcode is IntCarry || opcode is IntScarry || opcode is IntSborrow || opcode is Int2comp || opcode is IntNegate
            || opcode is IntXor || opcode is IntAnd || opcode is IntOr || opcode is IntMult || opcode is IntDiv || opcode
            is IntSdiv || opcode is IntRem || opcode is IntSrem || opcode is BoolNegate || opcode is BoolXor || opcode
            is BoolAnd || opcode is BoolOr || opcode is Piece || opcode is Subpiece || opcode is Popcount || opcode
            is Lzcount,
        data.value(data.operation(op).inrefs@[slot as int]).size <= before.types.max_basetype_size,
        crate::typeop::local::gives_input(
            after,
            before,
            opcode,
            meta,
            op,
            slot,
            data,
            userops,
            at_address,
            Ok::<TypeId, Error>(id),
        ),
    ensures
        after.types.dt(id).size == data.value(data.operation(op).inrefs@[slot as int]).size,
{
    given_base_has_asked_size(
        before.types,
        after.types,
        data.value(data.operation(op).inrefs@[slot as int]).size,
        meta->0.metain,
        id,
    );
}

} // verus!

//! Finishing data-types that were read, once what they refer to is known.
use vstd::prelude::*;
use crate::error::{Error, Result};
use crate::fspec::FuncProto;
use crate::ids::TypeId;
use crate::marshal::{Attribute, Element, ATTRIB_CONTENT, ATTRIB_FORMAT, ATTRIB_ID, ATTRIB_NAME, ATTRIB_SIZE, ELEM_OFF};
use crate::space::SpaceRef;
use crate::text::is_empty_text;
use crate::types::create::{copy_bitfields, copy_fields};
use crate::types::decode::{Fault, PointerAttributes};
use crate::types::document::{take_in, warn_of};
use crate::types::vet::malformed_type;
use crate::types::{
    Datatype, SubMetatype, TypeArrayData, TypeBitField, TypeCodeData, TypeFactory, TypeField, TypeKind, TypeMetatype,
    TypePointerData, TypePointerRelData,
};

verus! {

/// An outcome that reports a data-type that cannot stand in a factory.
pub open spec fn rejects(res: Result<TypeId>) -> bool {
    res matches Err(e) && crate::types::vet::malformed(e)
}

/// What giving a pointer its truncated form does.
pub open spec fn shortens(after: TypeFactory, before: TypeFactory, d: Datatype, done: Datatype, res: Result<()>) -> bool {
    if d.pointer().truncate is Some || d.size != before.size_of_alt_pointer {
        res is Ok && after == before && done == d
    } else {
        exists|r: Result<TypeId>| #[trigger]
            before.short_form(after, d, r) && match r {
                Ok(t) => res is Ok && done == d.with_truncation(t, before.default_data_space->0.big_endian),
                Err(e) => done == d && res == Err::<(), Error>(e),
            }
    }
}

/// A pointer that was read, with what it points to.
pub open spec fn pointer_to(mid: Datatype, target: TypeId, wordsize: u32, spaceid: Option<SpaceRef>, types: TypeFactory) -> Datatype {
    let flags = crate::types::create::pointer_flags(types.dt(target), mid.flags);
    Datatype {
        kind: TypeKind::Pointer(TypePointerData { ptrto: Some(target), spaceid, truncate: None, wordsize }),
        submeta: crate::types::create::pointer_submeta(types.dt(target), mid.submeta),
        flags: if mid.name@.len() == 0 {
            flags | (types.dt(target).flags & (Datatype::CORETYPE | Datatype::WARNING_ISSUED))
        } else {
            flags
        },
        ..mid
    }
}

/// What finishing a pointer does.
pub open spec fn finishes_pointer(
    after: TypeFactory,
    before: TypeFactory,
    d: Datatype,
    core: bool,
    res: Result<TypeId>,
) -> bool {
    if !before.valid(d) || !(before.arena@.len() < u32::MAX && (d.size == before.size_of_alt_pointer
        ==> before.can_truncate())) {
        after == before && rejects(res)
    } else {
        exists|mid: TypeFactory, done: Datatype, r: Result<()>| #[trigger]
            shortens(mid, before, d, done, r) && match r {
                Ok(()) => crate::types::document::takes_in(after, mid, done, core, res),
                Err(e) => after == mid && res == Err::<TypeId, Error>(e),
            }
    }
}

impl Datatype {
    /// Finishes a pointer whose attributes have been read, given what it points to.
    pub fn decode_pointer(
        mid: Datatype,
        read: PointerAttributes,
        target: TypeId,
        core: bool,
        types: &mut TypeFactory,
    ) -> (res: Result<TypeId>)
        requires
            old(types).ready(),
            old(types).has(target),
            mid.kind is Pointer,
        ensures
            final(types).ready(),
            finishes_pointer(
                *final(types),
                *old(types),
                pointer_to(mid, target, read.wordsize, read.spaceid, *old(types)),
                core,
                res,
            ),
            res matches Ok(id) ==> final(types).has(id),
    {
        let mut tp = mid;
        tp.kind = TypeKind::Pointer(
            TypePointerData { ptrto: Some(target), spaceid: read.spaceid, truncate: None, wordsize: read.wordsize },
        );
        tp.calc_submeta(types);
        if is_empty_text(tp.name.as_str()) {
            tp.flags = tp.flags | types.get(target).inherit_for_pointer();
        }
        let ghost d = tp;
        if !types.is_valid(&tp) || !types.can_shorten(tp.size) {
            return Err(malformed_type());
        }
        let r = tp.calc_truncate_local(types);
        assert(shortens(*types, *old(types), d, tp, r));
        match r {
            Ok(()) => take_in(types, tp, core),
            Err(e) => Err(e),
        }
    }
}

/// An array that was read, with its elements.
pub open spec fn array_of_read(mid: Datatype, element: TypeId, count: i32, types: TypeFactory) -> Datatype {
    Datatype {
        kind: TypeKind::Array(TypeArrayData { arrayof: Some(element), arraysize: count }),
        alignment: types.dt(element).alignment,
        flags: if count == 1 {
            mid.flags | Datatype::NEEDS_RESOLUTION
        } else {
            mid.flags
        },
        ..mid
    }
}

/// What finishing an array does.
pub open spec fn finishes_array(
    after: TypeFactory,
    before: TypeFactory,
    mid: Datatype,
    element: TypeId,
    count: i32,
    core: bool,
    res: Result<TypeId>,
) -> bool {
    let d = before.dt(element);
    if count <= 0 || Datatype::array_bytes(count, d) != mid.size {
        after == before && (res matches Err(e) && e.is_lowlevel("Bad size for array of type "@ + d.name@))
    } else {
        crate::types::document::takes_in(after, before, array_of_read(mid, element, count, before), core, res)
    }
}

impl Datatype {
    /// Finishes an array whose attributes have been read, given its elements.
    pub fn decode_array(mid: Datatype, arraysize: i32, arrayof: TypeId, core: bool, types: &mut TypeFactory) -> (res: Result<
        TypeId,
    >)
        requires
            old(types).ready(),
            old(types).has(arrayof),
        ensures
            final(types).ready(),
            finishes_array(*final(types), *old(types), mid, arrayof, arraysize, core, res),
            res matches Ok(id) ==> final(types).has(id),
    {
        let element = types.get(arrayof);
        if arraysize <= 0 || arraysize.wrapping_mul(element.get_align_size()) != mid.size {
            let mut text = "Bad size for array of type ".to_owned();
            text.push_str(element.get_name());
            return Err(Error::Lowlevel(text));
        }
        let mut ta = mid;
        ta.kind = TypeKind::Array(TypeArrayData { arrayof: Some(arrayof), arraysize });
        ta.alignment = element.get_alignment();
        if arraysize == 1 {
            ta.flags = ta.flags | Datatype::NEEDS_RESOLUTION;
        }
        take_in(types, ta, core)
    }
}

/// The offset that an element gives for a relative pointer, or what is wrong with it.
pub open spec fn offset_told(children: Seq<Element>) -> std::result::Result<i32, Fault> {
    if children.len() < 3 || children[2].id != ELEM_OFF {
        Err(Fault::Decoder("Unexpected element"@))
    } else {
        match crate::types::organize::signed_attribute(children[2], ATTRIB_CONTENT) {
            Err(fault) => Err(fault),
            Ok(n) => if n as i32 == 0 {
                Err(Fault::Lowlevel("For metatype=\"ptrstruct\", <off> tag must not be zero"@))
            } else {
                Ok(n as i32)
            },
        }
    }
}

pub fn read_offset(children: &Vec<Element>) -> (res: Result<i32>)
    ensures
        match offset_told(children@) {
            Ok(off) => res == Ok::<i32, Error>(off),
            Err(fault) => res matches Err(e) && fault.is_report(e),
        },
{
    if children.len() < 3 {
        return Err(Error::decoder("Unexpected element"));
    }
    match children[2].expect(ELEM_OFF) {
        Ok(()) => {},
        Err(e) => {
            return Err(e);
        },
    }
    match children[2].read_signed_attr(ATTRIB_CONTENT) {
        Ok(n) => {
            let off: i32 = n as i32;
            if off == 0 {
                Err(Error::lowlevel("For metatype=\"ptrstruct\", <off> tag must not be zero"))
            } else {
                Ok(off)
            }
        },
        Err(e) => Err(e),
    }
}

/// A relative pointer that was read, with what it points to and into.
pub open spec fn relative_to(
    mid: Datatype,
    target: TypeId,
    parent: TypeId,
    offset: i32,
    wordsize: u32,
    spaceid: Option<SpaceRef>,
) -> Datatype {
    Datatype {
        kind: TypeKind::PointerRel(
            TypePointerRelData {
                pointer: TypePointerData { ptrto: Some(target), spaceid, truncate: None, wordsize },
                stripped: None,
                parent: Some(parent),
                offset,
            },
        ),
        metatype: TypeMetatype::Ptr,
        submeta: SubMetatype::PtrRel,
        ..mid
    }
}

/// What finishing a relative pointer does. One without a name gets a plain form.
pub open spec fn finishes_relative(
    after: TypeFactory,
    before: TypeFactory,
    d: Datatype,
    core: bool,
    res: Result<TypeId>,
) -> bool {
    if d.name@.len() > 0 {
        crate::types::document::takes_in(after, before, d, core, res)
    } else if !before.valid(d) || !before.can_make_full_pointer(d.size, d.pointer().ptrto->0, d.pointer().wordsize) {
        after == before && rejects(res)
    } else {
        exists|mid: TypeFactory, done: Datatype, r: Result<()>| #[trigger]
            crate::types::pointers::marks(before, mid, d, done, r) && match r {
                Ok(()) => crate::types::document::takes_in(after, mid, done, core, res),
                Err(e) => after == mid && res == Err::<TypeId, Error>(e),
            }
    }
}

impl Datatype {
    /// Finishes a relative pointer whose attributes have been read, given what it points to
    /// and the composite that it points into.
    pub fn decode_pointer_rel(
        mid: Datatype,
        read: PointerAttributes,
        ptrto: TypeId,
        parent: TypeId,
        offset: i32,
        core: bool,
        types: &mut TypeFactory,
    ) -> (res: Result<TypeId>)
        requires
            old(types).ready(),
        ensures
            final(types).ready(),
            finishes_relative(
                *final(types),
                *old(types),
                relative_to(mid, ptrto, parent, offset, read.wordsize, read.spaceid),
                core,
                res,
            ),
            res matches Ok(id) ==> final(types).has(id),
    {
        let wordsize: u32 = read.wordsize;
        let mut tp = mid;
        tp.metatype = TypeMetatype::Ptr;
        tp.kind = TypeKind::PointerRel(
            TypePointerRelData {
                pointer: TypePointerData { ptrto: Some(ptrto), spaceid: read.spaceid, truncate: None, wordsize },
                stripped: None,
                parent: Some(parent),
                offset,
            },
        );
        tp.submeta = SubMetatype::PtrRel;
        let ghost d = tp;
        assert(d == relative_to(mid, ptrto, parent, offset, read.wordsize, read.spaceid));
        if is_empty_text(tp.name.as_str()) {
            if !types.is_valid(&tp) || !types.can_give_pointer(tp.size, ptrto, wordsize) {
                return Err(malformed_type());
            }
            let r = tp.mark_ephemeral(types);
            assert(crate::types::pointers::marks(*old(types), *types, d, tp, r));
            match r {
                Ok(()) => {},
                Err(e) => {
                    return Err(e);
                },
            }
        }
        take_in(types, tp, core)
    }
}

/// What announcing a data-type that is completed later does: one that is known already is
/// not announced again.
pub open spec fn announces(
    after: TypeFactory,
    before: TypeFactory,
    d: Datatype,
    meta: TypeMetatype,
    res: Result<TypeId>,
) -> bool {
    match before.by_name(d.name@, d.id) {
        None => crate::types::document::takes_in(after, before, d, false, res),
        Some(ct) => after == before && if before.dt(ct).metatype != meta {
            res matches Err(e) && e.is_lowlevel("Trying to redefine type: "@ + d.name@)
        } else {
            res == Ok::<TypeId, Error>(ct)
        },
    }
}

/// Announces a data-type. The copy that is handed in stays with the factory.
pub fn announce(types: &mut TypeFactory, d: &Datatype, meta: TypeMetatype) -> (res: Result<TypeId>)
    requires
        old(types).ready(),
    ensures
        final(types).ready(),
        announces(*final(types), *old(types), *d, meta, res),
        res matches Ok(id) ==> final(types).has(id),
{
    match types.find_by_id_local(d.name.as_str(), d.id) {
        None => {
            if !types.can_take(d) {
                return Err(malformed_type());
            }
            types.find_add(d)
        },
        Some(ct) => {
            if types.get(ct).get_metatype() != meta {
                let mut text = "Trying to redefine type: ".to_owned();
                text.push_str(d.name.as_str());
                return Err(Error::Lowlevel(text));
            }
            Ok(ct)
        },
    }
}

/// What completing the typedefs that wait for a data-type does.
pub open spec fn settles_typedefs(after: TypeFactory, before: TypeFactory, ct: TypeId, res: Result<TypeId>) -> bool {
    if !(before.typedefs_await() && before.signed()) {
        after == before && rejects(res)
    } else {
        exists|r: Result<()>| #[trigger]
            crate::types::typedefs::typedefs_resolved(before, after, r) && match r {
                Ok(()) => if after.has(ct) {
                    res == Ok::<TypeId, Error>(ct)
                } else {
                    rejects(res)
                },
                Err(e) => res == Err::<TypeId, Error>(e),
            }
    }
}

fn settle_typedefs(types: &mut TypeFactory, ct: TypeId) -> (res: Result<TypeId>)
    requires
        old(types).ready(),
    ensures
        final(types).ready(),
        settles_typedefs(*final(types), *old(types), ct, res),
        res matches Ok(id) ==> final(types).has(id),
{
    if !types.can_resolve_typedefs() {
        return Err(malformed_type());
    }
    let r = types.resolve_incomplete_typedefs();
    assert(crate::types::typedefs::typedefs_resolved(*old(types), *types, r));
    match r {
        Ok(()) => if types.knows(ct) {
            Ok(ct)
        } else {
            Err(malformed_type())
        },
        Err(e) => Err(e),
    }
}

/// What the end of reading a data-type that was announced before does.
pub open spec fn closes(after: TypeFactory, before: TypeFactory, ct: TypeId, warning: String, res: Result<TypeId>) -> bool {
    if !before.has(ct) {
        after == before && rejects(res)
    } else {
        exists|mid: TypeFactory, r: Result<TypeId>| #[trigger]
            crate::types::document::warns_of(mid, before, ct, warning, r) && match r {
                Ok(id) => settles_typedefs(after, mid, ct, res),
                Err(e) => after == mid && res == Err::<TypeId, Error>(e),
            }
    }
}

fn close(types: &mut TypeFactory, ct: TypeId, warning: String) -> (res: Result<TypeId>)
    requires
        old(types).ready(),
    ensures
        final(types).ready(),
        closes(*final(types), *old(types), ct, warning, res),
        res matches Ok(id) ==> final(types).has(id),
{
    if !types.knows(ct) {
        return Err(malformed_type());
    }
    let r = warn_of(types, ct, warning);
    assert(crate::types::document::warns_of(*types, *old(types), ct, warning, r));
    match r {
        Ok(_) => settle_typedefs(types, ct),
        Err(e) => Err(e),
    }
}

/// The flags of a structure once its fields are known.
pub open spec fn struct_flags(flags: u32, size: i32, fields: Seq<TypeField>, bits: Seq<TypeBitField>, types: TypeFactory) -> u32 {
    let first = if size == 0 {
        flags | Datatype::TYPE_INCOMPLETE
    } else {
        flags
    };
    let second = if fields.len() > 0 || bits.len() > 0 {
        first & !Datatype::TYPE_INCOMPLETE
    } else {
        first
    };
    let third = if bits.len() > 0 {
        second | Datatype::HAS_BITFIELDS
    } else {
        second
    };
    if TypeFactory::fills(fields, size, types) {
        third | Datatype::NEEDS_RESOLUTION
    } else {
        third
    }
}

/// An alignment, or else what the fields call for.
pub open spec fn settled_align(given: i32, called_for: i32) -> i32 {
    if given < 1 {
        called_for
    } else {
        given
    }
}

impl Datatype {
    /// A structure all of whose fields have been read.
    pub open spec fn is_struct_read(self, ts: Datatype, calc_align: i32, types: TypeFactory) -> bool {
        &&& self.kind == ts.kind
        &&& self == (Datatype {
            flags: struct_flags(ts.flags, ts.size, ts.fields(), ts.bitfields(), types),
            alignment: settled_align(ts.alignment, calc_align),
            align_size: self.align_size,
            ..ts
        })
        &&& self.align_size == crate::types::read::aligned(
            ts.size as int,
            settled_align(ts.alignment, calc_align) as int,
        )
    }

    /// The end of a structure can be worked out.
    pub open spec fn can_end(self, calc_align: i32) -> bool {
        &&& self.size >= 0
        &&& calc_align >= 1
        &&& crate::types::read::aligned(self.size as int, settled_align(self.alignment, calc_align) as int) <= i32::MAX
    }

    fn can_be_ended(&self, calc_align: i32) -> (res: bool)
        ensures
            res == self.can_end(calc_align),
    {
        let align: i32 = if self.alignment < 1 {
            calc_align
        } else {
            self.alignment
        };
        self.size >= 0 && calc_align >= 1 && crate::types::vet::vet_alignment(self.size, align)
    }

    /// Works out what follows for a structure from its fields.
    pub fn decode_fields_struct(&mut self, calc_align: i32, types: &TypeFactory)
        requires
            old(self).kind is Struct,
            old(self).can_end(calc_align),
            old(self).fields().len() == 1 ==> types.has(old(self).fields()[0].tp),
        ensures
            final(self).is_struct_read(*old(self), calc_align, *types),
    {
        let ghost before = *self;
        let mut has_fields = false;
        let mut has_bits = false;
        let mut single_fill = false;
        if let TypeKind::Struct(data) = &self.kind {
            has_fields = data.field.len() > 0 || data.bitfield.len() > 0;
            has_bits = data.bitfield.len() > 0;
            single_fill = TypeFactory::single_field_fills(data.field.as_slice(), self.size, types);
        }
        if self.size == 0 {
            self.flags = self.flags | Datatype::TYPE_INCOMPLETE;
        }
        if has_fields {
            self.mark_complete();
        }
        if has_bits {
            self.flags = self.flags | Datatype::HAS_BITFIELDS;
        }
        if single_fill {
            self.flags = self.flags | Datatype::NEEDS_RESOLUTION;
        }
        if self.alignment < 1 {
            self.alignment = calc_align;
        }
        self.align_size = Datatype::calc_align_size(self.size, self.alignment);
    }

    /// A union all of whose fields have been read.
    pub open spec fn is_union_read(self, tu: Datatype, calc_align: i32) -> bool {
        let first = if tu.size == 0 {
            tu.flags | Datatype::TYPE_INCOMPLETE
        } else {
            tu.flags
        };
        &&& self == (Datatype {
            flags: (if tu.fields().len() > 0 {
                first & !Datatype::TYPE_INCOMPLETE
            } else {
                first
            }),
            alignment: settled_align(tu.alignment, calc_align),
            align_size: self.align_size,
            ..tu
        })
        &&& self.align_size == crate::types::read::aligned(
            tu.size as int,
            settled_align(tu.alignment, calc_align) as int,
        )
    }

    /// Works out what follows for a union from its fields.
    pub fn decode_fields_union(&mut self, calc_align: i32)
        requires
            old(self).kind is Union,
            old(self).can_end(calc_align),
        ensures
            final(self).is_union_read(*old(self), calc_align),
    {
        let mut has_fields = false;
        if let TypeKind::Union(data) = &self.kind {
            has_fields = data.field.len() > 0;
        }
        if self.size == 0 {
            self.flags = self.flags | Datatype::TYPE_INCOMPLETE;
        }
        if has_fields {
            self.mark_complete();
        }
        if self.alignment < 1 {
            self.alignment = calc_align;
        }
        self.align_size = Datatype::calc_align_size(self.size, self.alignment);
    }
}

/// What finishing a structure does: one that is complete already has to be the same, and
/// one that is not is completed.
pub open spec fn finishes_struct(
    after: TypeFactory,
    before: TypeFactory,
    ts: Datatype,
    calc_align: i32,
    ct: TypeId,
    warning: String,
    res: Result<TypeId>,
) -> bool {
    let lost = !before.has(ct) || !(before.dt(ct).kind is Struct) || !ts.can_end(calc_align) || (ts.fields().len() == 1
        && !before.has(ts.fields()[0].tp));
    if lost {
        after == before && rejects(res)
    } else {
        exists|done: Datatype| #[trigger]
            done.is_struct_read(ts, calc_align, before) && if !before.dt(ct).flag(Datatype::TYPE_INCOMPLETE) {
                if crate::types::compare::dependency_order(before.dt(ct), done) != 0 {
                    after == before && (res matches Err(e) && e.is_lowlevel("Redefinition of structure: "@ + ts.name@))
                } else {
                    closes(after, before, ct, warning, res)
                }
            } else if !before.struct_suits(done.fields(), done.bitfields(), done.size, done.alignment) {
                after == before && rejects(res)
            } else {
                completes_and_closes(after, before, done, ct, warning, res)
            }
    }
}

/// What giving a structure its fields does.
pub open spec fn completes_and_closes(
    after: TypeFactory,
    before: TypeFactory,
    done: Datatype,
    ct: TypeId,
    warning: String,
    res: Result<TypeId>,
) -> bool {
    exists|mid: TypeFactory, r: Result<()>| #[trigger]
        mid.completes_struct(
            before,
            done.fields(),
            done.bitfields(),
            ct,
            done.size,
            done.alignment,
            done.flags,
            r,
        ) && match r {
            Ok(()) => closes(after, mid, ct, warning, res),
            Err(e) => after == mid && res == Err::<TypeId, Error>(e),
        }
}

pub fn finish_struct(types: &mut TypeFactory, mut ts: Datatype, calc_align: i32, ct: TypeId, warning: String) -> (res: Result<
    TypeId,
>)
    requires
        old(types).ready(),
        ts.kind is Struct,
    ensures
        final(types).ready(),
        finishes_struct(*final(types), *old(types), ts, calc_align, ct, warning, res),
        res matches Ok(id) ==> final(types).has(id),
{
    let ghost start = ts;
    let ghost before = *types;
    if !types.knows(ct) || !ts.can_be_ended(calc_align) {
        return Err(malformed_type());
    }
    let known_struct = match &types.get(ct).kind {
        TypeKind::Struct(_) => true,
        _ => false,
    };
    let single_known = match &ts.kind {
        TypeKind::Struct(data) => data.field.len() != 1 || types.knows(data.field[0].tp),
        _ => true,
    };
    if !known_struct || !single_known {
        return Err(malformed_type());
    }
    ts.decode_fields_struct(calc_align, types);
    assert(ts.is_struct_read(start, calc_align, before));
    if !types.get(ct).is_incomplete() {
        if types.get(ct).compare_dependency(&ts, types) != 0 {
            let mut text = "Redefinition of structure: ".to_owned();
            text.push_str(ts.name.as_str());
            return Err(Error::Lowlevel(text));
        }
        return close(types, ct, warning);
    }
    match &ts.kind {
        TypeKind::Struct(data) => {
            assert(ts.fields() == data.field@ && ts.bitfields() == data.bitfield@);
            if !types.can_be_struct(&data.field, &data.bitfield, ts.size, ts.alignment) {
                return Err(malformed_type());
            }
            let r = types.set_fields_struct(
                data.field.as_slice(),
                data.bitfield.as_slice(),
                ct,
                ts.size,
                ts.alignment,
                ts.flags,
            );
            assert(types.completes_struct(
                before,
                ts.fields(),
                ts.bitfields(),
                ct,
                ts.size,
                ts.alignment,
                ts.flags,
                r,
            ));
            match r {
                Ok(()) => close(types, ct, warning),
                Err(e) => Err(e),
            }
        },
        _ => Err(malformed_type()),
    }
}

/// What finishing a union does.
pub open spec fn finishes_union(
    after: TypeFactory,
    before: TypeFactory,
    tu: Datatype,
    calc_align: i32,
    ct: TypeId,
    res: Result<TypeId>,
) -> bool {
    if !before.has(ct) || !(before.dt(ct).kind is Union) || !tu.can_end(calc_align) {
        after == before && rejects(res)
    } else {
        exists|done: Datatype| #[trigger]
            done.is_union_read(tu, calc_align) && if !before.dt(ct).flag(Datatype::TYPE_INCOMPLETE) {
                if crate::types::compare::dependency_order(before.dt(ct), done) != 0 {
                    after == before && (res matches Err(e) && e.is_lowlevel("Redefinition of union: "@ + tu.name@))
                } else {
                    settles_typedefs(after, before, ct, res)
                }
            } else if !before.fields_suit(done.fields(), done.size, done.alignment) {
                after == before && rejects(res)
            } else {
                completes_and_settles(after, before, done, ct, res)
            }
    }
}

/// What giving a union its fields does.
pub open spec fn completes_and_settles(
    after: TypeFactory,
    before: TypeFactory,
    done: Datatype,
    ct: TypeId,
    res: Result<TypeId>,
) -> bool {
    exists|mid: TypeFactory, r: Result<()>| #[trigger]
        mid.completes_union(before, done.fields(), ct, done.size, done.alignment, done.flags, r) && match r {
            Ok(()) => settles_typedefs(after, mid, ct, res),
            Err(e) => after == mid && res == Err::<TypeId, Error>(e),
        }
}

pub fn finish_union(types: &mut TypeFactory, mut tu: Datatype, calc_align: i32, ct: TypeId) -> (res: Result<TypeId>)
    requires
        old(types).ready(),
        tu.kind is Union,
    ensures
        final(types).ready(),
        finishes_union(*final(types), *old(types), tu, calc_align, ct, res),
        res matches Ok(id) ==> final(types).has(id),
{
    let ghost start = tu;
    let ghost before = *types;
    if !types.knows(ct) || !tu.can_be_ended(calc_align) {
        return Err(malformed_type());
    }
    let known_union = match &types.get(ct).kind {
        TypeKind::Union(_) => true,
        _ => false,
    };
    if !known_union {
        return Err(malformed_type());
    }
    tu.decode_fields_union(calc_align);
    assert(tu.is_union_read(start, calc_align));
    if !types.get(ct).is_incomplete() {
        if types.get(ct).compare_dependency(&tu, types) != 0 {
            let mut text = "Redefinition of union: ".to_owned();
            text.push_str(tu.name.as_str());
            return Err(Error::Lowlevel(text));
        }
        return settle_typedefs(types, ct);
    }
    match &tu.kind {
        TypeKind::Union(data) => {
            assert(tu.fields() == data.field@);
            if !types.can_have_fields(&data.field, tu.size, tu.alignment) {
                return Err(malformed_type());
            }
            let r = types.set_fields_union(data.field.as_slice(), ct, tu.size, tu.alignment, tu.flags);
            assert(types.completes_union(before, tu.fields(), ct, tu.size, tu.alignment, tu.flags, r));
            match r {
                Ok(()) => settle_typedefs(types, ct),
                Err(e) => Err(e),
            }
        },
        _ => Err(malformed_type()),
    }
}

/// A prototype that was read, as that of a constructor or a destructor if it is one.
pub open spec fn marked_proto(proto: FuncProto, is_constructor: bool, is_destructor: bool) -> u32 {
    let first = if is_constructor {
        proto.flags | FuncProto::IS_CONSTRUCTOR
    } else {
        proto.flags & !FuncProto::IS_CONSTRUCTOR
    };
    if is_destructor {
        first | FuncProto::IS_DESTRUCTOR
    } else {
        first & !FuncProto::IS_DESTRUCTOR
    }
}

impl Datatype {
    /// Code with the prototype that was read, if there was one.
    pub open spec fn is_code_read(
        self,
        tc: Datatype,
        proto: Option<FuncProto>,
        is_constructor: bool,
        is_destructor: bool,
    ) -> bool {
        &&& self == (Datatype { kind: self.kind, flags: tc.flags & !Datatype::TYPE_INCOMPLETE, ..tc })
        &&& match proto {
            None => self.kind == tc.kind,
            Some(proto) => self.kind matches TypeKind::Code(data) && data.factory && (data.proto matches Some(kept)
                && kept.model_name == proto.model_name && kept.params@ == proto.params@ && kept.output == proto.output
                && kept.flags == marked_proto(proto, is_constructor, is_destructor) && (data.signature matches Some(sig)
                && crate::types::code::is_signature(sig, kept))),
        }
    }

    /// Gives code the prototype that was read, if there was one.
    pub fn decode_prototype(&mut self, proto: Option<&FuncProto>, is_constructor: bool, is_destructor: bool)
        requires
            old(self).kind is Code,
            proto matches Some(p) ==> p.params@.len() <= i32::MAX,
        ensures
            final(self).is_code_read(
                *old(self),
                match proto {
                    Some(p) => Some(*p),
                    None => None,
                },
                is_constructor,
                is_destructor,
            ),
    {
        if let Some(read) = proto {
            let mut kept = read.copy();
            kept.set_constructor(is_constructor);
            kept.set_destructor(is_destructor);
            let signature = Datatype::compute_code_signature(&kept);
            self.kind = TypeKind::Code(
                TypeCodeData { proto: Some(kept), signature: Some(signature), factory: true },
            );
        }
        self.mark_complete();
    }
}

/// What finishing code does.
pub open spec fn finishes_code(
    after: TypeFactory,
    before: TypeFactory,
    tc: Datatype,
    ct: TypeId,
    proto: Option<FuncProto>,
    is_constructor: bool,
    is_destructor: bool,
    res: Result<TypeId>,
) -> bool {
    if !before.has(ct) || !(before.dt(ct).kind is Code) {
        after == before && rejects(res)
    } else {
        exists|done: Datatype| #[trigger]
            done.is_code_read(tc, proto, is_constructor, is_destructor) && if !before.dt(ct).flag(
                Datatype::TYPE_INCOMPLETE,
            ) {
                if crate::types::compare::dependency_order(before.dt(ct), done) != 0 {
                    after == before && (res matches Err(e) && e.is_lowlevel(
                        "Redefinition of code data-type: "@ + tc.name@,
                    ))
                } else {
                    settles_typedefs(after, before, ct, res)
                }
            } else if !before.prototype_suits(done.kind->Code_0) {
                after == before && rejects(res)
            } else {
                exists|mid: TypeFactory, r: Result<()>| #[trigger]
                    mid.completes_code(before, done.kind->Code_0, ct, done.flags, r) && match r {
                        Ok(()) => settles_typedefs(after, mid, ct, res),
                        Err(e) => after == mid && res == Err::<TypeId, Error>(e),
                    }
            }
    }
}

pub fn finish_code(
    types: &mut TypeFactory,
    mut tc: Datatype,
    ct: TypeId,
    proto: Option<&FuncProto>,
    is_constructor: bool,
    is_destructor: bool,
) -> (res: Result<TypeId>)
    requires
        old(types).ready(),
        tc.kind is Code,
        proto matches Some(p) ==> p.params@.len() <= i32::MAX,
    ensures
        final(types).ready(),
        finishes_code(
            *final(types),
            *old(types),
            tc,
            ct,
            match proto {
                Some(p) => Some(*p),
                None => None,
            },
            is_constructor,
            is_destructor,
            res,
        ),
        res matches Ok(id) ==> final(types).has(id),
{
    let ghost start = tc;
    let ghost before = *types;
    let ghost given = match proto {
        Some(p) => Some(*p),
        None => None,
    };
    if !types.knows(ct) {
        return Err(malformed_type());
    }
    let known_code = match &types.get(ct).kind {
        TypeKind::Code(_) => true,
        _ => false,
    };
    if !known_code {
        return Err(malformed_type());
    }
    tc.decode_prototype(proto, is_constructor, is_destructor);
    assert(tc.is_code_read(start, given, is_constructor, is_destructor));
    if !types.get(ct).is_incomplete() {
        if types.get(ct).compare_dependency(&tc, types) != 0 {
            let mut text = "Redefinition of code data-type: ".to_owned();
            text.push_str(tc.name.as_str());
            return Err(Error::Lowlevel(text));
        }
        return settle_typedefs(types, ct);
    }
    let flags: u32 = tc.flags;
    match tc.kind {
        TypeKind::Code(data) => {
            if !types.can_have_prototype(&data) {
                return Err(malformed_type());
            }
            let ghost fp = data;
            let r = types.set_prototype(data, ct, flags);
            assert(types.completes_code(before, fp, ct, flags, r));
            match r {
                Ok(()) => settle_typedefs(types, ct),
                Err(e) => Err(e),
            }
        },
        _ => Err(malformed_type()),
    }
}

/// What attributes say of a name for a data-type.
pub ghost struct NameFacts {
    pub id: u64,
    pub size: i32,
    pub name: Seq<char>,
    pub format: u32,
    pub fault: Option<Fault>,
}

/// What is known of a reference once one more attribute is read.
pub open spec fn reference_with(known: NameFacts, attrib: Attribute) -> NameFacts {
    if attrib.id == ATTRIB_ID {
        match attrib.value.unsigned() {
            Some(id) => NameFacts { id, ..known },
            None => NameFacts { fault: Some(Fault::Decoder("Expecting unsigned integer attribute"@)), ..known },
        }
    } else if attrib.id == ATTRIB_SIZE {
        match attrib.value.signed() {
            Some(n) => NameFacts { size: n as i32, ..known },
            None => NameFacts { fault: Some(Fault::Decoder("Expecting signed integer attribute"@)), ..known },
        }
    } else {
        known
    }
}

/// What attributes say of a reference, from one of them on.
pub open spec fn reference_from(list: Seq<Attribute>, i: nat, known: NameFacts) -> NameFacts
    decreases list.len() - i,
{
    if i >= list.len() || known.fault is Some {
        known
    } else {
        reference_from(list, i + 1, reference_with(known, list[i as int]))
    }
}

/// What an element says of a reference.
pub open spec fn reference_told(elem: Element) -> NameFacts {
    let facts = reference_from(
        elem.attributes@,
        0,
        NameFacts { id: 0, size: -1i32, name: Seq::empty(), format: 0, fault: None },
    );
    if facts.fault is Some {
        facts
    } else {
        match crate::types::document::text_attribute(elem, ATTRIB_NAME) {
            Err(fault) => NameFacts { fault: Some(fault), ..facts },
            Ok(name) => NameFacts {
                name,
                id: if facts.id == 0 {
                    crate::types::read::name_hash(name)
                } else {
                    facts.id
                },
                ..facts
            },
        }
    }
}

impl TypeFactory {
    /// The data-type that a reference names, or the error.
    pub open spec fn refers(self, elem: Element, res: Result<TypeId>) -> bool {
        let told = reference_told(elem);
        match told.fault {
            Some(fault) => res matches Err(e) && fault.is_report(e),
            None => match self.by_name(
                told.name,
                if told.size > 0 {
                    crate::types::read::size_hash(told.id, told.size)
                } else {
                    told.id
                },
            ) {
                Some(ct) => res == Ok::<TypeId, Error>(ct),
                None => res matches Err(e) && e.is_lowlevel("Unable to resolve type: "@ + told.name),
            },
        }
    }

    /// Finds the data-type that a reference names.
    pub fn decode_reference(&self, elem: &Element) -> (res: Result<TypeId>)
        requires
            self.sound(),
        ensures
            self.refers(*elem, res),
            res matches Ok(id) ==> self.has(id),
    {
        let mut newid: u64 = 0;
        let mut size: i32 = -1;
        let ghost start = NameFacts { id: 0, size: -1i32, name: Seq::empty(), format: 0, fault: None };
        let mut i: usize = 0;
        while i < elem.attributes.len()
            invariant
                i <= elem.attributes@.len(),
                start == (NameFacts { id: 0, size: -1i32, name: Seq::empty(), format: 0, fault: None }),
                reference_from(elem.attributes@, i as nat, NameFacts { id: newid, size, ..start }) == reference_from(
                    elem.attributes@,
                    0,
                    start,
                ),
            decreases elem.attributes@.len() - i,
        {
            let attrib = &elem.attributes[i];
            let ghost next = reference_with(NameFacts { id: newid, size, ..start }, *attrib);
            assert(next.fault is Some ==> reference_from(elem.attributes@, (i + 1) as nat, next) == next);
            if attrib.id == ATTRIB_ID {
                match attrib.value.read_unsigned_integer() {
                    Ok(n) => {
                        newid = n;
                    },
                    Err(e) => {
                        return Err(e);
                    },
                }
            } else if attrib.id == ATTRIB_SIZE {
                match attrib.value.read_signed_integer() {
                    Ok(n) => {
                        size = n as i32;
                    },
                    Err(e) => {
                        return Err(e);
                    },
                }
            }
            i = i + 1;
        }
        let newname = match elem.read_string_attr(ATTRIB_NAME) {
            Ok(name) => name,
            Err(e) => {
                return Err(e);
            },
        };
        if newid == 0 {
            newid = Datatype::hash_name(newname.as_str());
        }
        match self.find_by_id(newname.as_str(), newid, size) {
            Some(ct) => Ok(ct),
            None => {
                let mut text = "Unable to resolve type: ".to_owned();
                text.push_str(newname.as_str());
                Err(Error::Lowlevel(text))
            },
        }
    }
}

/// What is known of a typedef once one more attribute is read.
pub open spec fn typedef_with(known: NameFacts, attrib: Attribute) -> NameFacts {
    let expecting_text = NameFacts { fault: Some(Fault::Decoder("Expecting string attribute"@)), ..known };
    if attrib.id == ATTRIB_ID {
        match attrib.value.unsigned() {
            Some(id) => NameFacts { id, ..known },
            None => NameFacts { fault: Some(Fault::Decoder("Expecting unsigned integer attribute"@)), ..known },
        }
    } else if attrib.id == ATTRIB_NAME {
        match attrib.value.text() {
            Some(name) => NameFacts { name, ..known },
            None => expecting_text,
        }
    } else if attrib.id == ATTRIB_FORMAT {
        match attrib.value.text() {
            Some(text) => match crate::types::print::named_format(text) {
                Some(format) => NameFacts { format, ..known },
                None => NameFacts { fault: Some(Fault::Lowlevel("Unrecognized integer format: "@ + text)), ..known },
            },
            None => expecting_text,
        }
    } else {
        known
    }
}

/// What attributes say of a typedef, from one of them on.
pub open spec fn typedef_from(list: Seq<Attribute>, i: nat, known: NameFacts) -> NameFacts
    decreases list.len() - i,
{
    if i >= list.len() || known.fault is Some {
        known
    } else {
        typedef_from(list, i + 1, typedef_with(known, list[i as int]))
    }
}

/// What an element says of a typedef.
pub open spec fn typedef_told(elem: Element) -> NameFacts {
    let facts = typedef_from(
        elem.attributes@,
        0,
        NameFacts { id: 0, size: 0, name: Seq::empty(), format: 0, fault: None },
    );
    NameFacts {
        id: if facts.id == 0 {
            crate::types::read::name_hash(facts.name)
        } else {
            facts.id
        },
        ..facts
    }
}

/// What was read of a typedef.
#[derive(Debug)]
pub struct TypedefAttributes {
    pub id: u64,
    pub name: String,
    pub format: u32,
}

impl TypedefAttributes {
    pub open spec fn facts(self, fault: Option<Fault>) -> NameFacts {
        NameFacts { id: self.id, size: 0, name: self.name@, format: self.format, fault }
    }

    fn read_attribute(&mut self, attrib: &Attribute) -> (res: Result<()>)
        ensures
            ({
                let next = typedef_with(old(self).facts(None), *attrib);
                final(self).facts(next.fault) == next && Fault::reported(next.fault, res)
            }),
    {
        if attrib.id == ATTRIB_ID {
            self.id = attrib.value.read_unsigned_integer()?;
        } else if attrib.id == ATTRIB_NAME {
            self.name = attrib.value.read_string()?;
        } else if attrib.id == ATTRIB_FORMAT {
            let text = attrib.value.read_string()?;
            self.format = Datatype::encode_integer_format(text.as_str())?;
        }
        Ok(())
    }
}

/// Reads the attributes of a typedef.
pub fn read_typedef(elem: &Element) -> (res: Result<TypedefAttributes>)
    ensures
        match typedef_told(*elem).fault {
            None => res matches Ok(read) && read.facts(None) == typedef_told(*elem),
            Some(fault) => res matches Err(e) && fault.is_report(e),
        },
{
    let mut read = TypedefAttributes { id: 0, name: String::new(), format: 0 };
    let ghost start = NameFacts { id: 0, size: 0, name: Seq::empty(), format: 0, fault: None };
    assert(read.name@ =~= Seq::empty());
    let mut i: usize = 0;
    while i < elem.attributes.len()
        invariant
            i <= elem.attributes@.len(),
            start == (NameFacts { id: 0, size: 0, name: Seq::empty(), format: 0, fault: None }),
            typedef_from(elem.attributes@, i as nat, read.facts(None)) == typedef_from(elem.attributes@, 0, start),
        decreases elem.attributes@.len() - i,
    {
        let ghost next = typedef_with(read.facts(None), elem.attributes@[i as int]);
        assert(next.fault is Some ==> typedef_from(elem.attributes@, (i + 1) as nat, next) == next);
        match read.read_attribute(&elem.attributes[i]) {
            Ok(()) => {},
            Err(e) => {
                return Err(e);
            },
        }
        i = i + 1;
    }
    if read.id == 0 {
        read.id = Datatype::hash_name(read.name.as_str());
    }
    Ok(read)
}

/// What giving fields to a typedef that was made before its definition was complete does.
pub open spec fn catches_up(after: TypeFactory, before: TypeFactory, prev: TypeId, defed: TypeId, res: Result<TypeId>) -> bool {
    let p = before.dt(prev);
    let f = before.dt(defed);
    if p.fields().len() == f.fields().len() {
        after == before && res == Ok::<TypeId, Error>(prev)
    } else if p.kind is Struct && f.kind is Struct {
        if p.flag(Datatype::TYPE_INCOMPLETE) && !before.struct_suits(f.fields(), f.bitfields(), f.size, f.alignment) {
            after == before && rejects(res)
        } else {
            exists|r: Result<()>| #[trigger]
                after.completes_struct(before, f.fields(), f.bitfields(), prev, f.size, f.alignment, f.flags, r) && res
                    == caught(prev, r)
        }
    } else if p.kind is Union && f.kind is Union {
        if p.flag(Datatype::TYPE_INCOMPLETE) && !before.fields_suit(f.fields(), f.size, f.alignment) {
            after == before && rejects(res)
        } else {
            exists|r: Result<()>| #[trigger]
                after.completes_union(before, f.fields(), prev, f.size, f.alignment, f.flags, r) && res == caught(prev, r)
        }
    } else {
        after == before && rejects(res)
    }
}

/// A handle, unless something failed.
pub open spec fn caught(prev: TypeId, r: Result<()>) -> Result<TypeId> {
    match r {
        Ok(()) => Ok(prev),
        Err(e) => Err(e),
    }
}

/// What making a typedef that was read does.
pub open spec fn finishes_typedef(
    after: TypeFactory,
    before: TypeFactory,
    told: NameFacts,
    defed: TypeId,
    res: Result<TypeId>,
) -> bool {
    let f = before.dt(defed);
    let id = if f.flag(Datatype::VARIABLE_LENGTH) {
        crate::types::read::size_hash(told.id, f.size)
    } else {
        told.id
    };
    let prev = before.by_name(told.name, id);
    if (f.metatype == TypeMetatype::Struct || f.metatype == TypeMetatype::Union) && prev is Some {
        if before.dt(prev->0).typedef_imm != Some(defed) {
            after == before && (res matches Err(e) && e.is_lowlevel(
                "Trying to create typedef of existing type: "@ + before.dt(prev->0).name@,
            ))
        } else {
            catches_up(after, before, prev->0, defed, res)
        }
    } else if before.arena@.len() >= u32::MAX || told.format >= 8 {
        after == before && rejects(res)
    } else {
        after.makes_typedef(before, defed, told.name, id, told.format, res)
    }
}

fn catch_up(types: &mut TypeFactory, prev: TypeId, defed: TypeId) -> (res: Result<TypeId>)
    requires
        old(types).ready(),
        old(types).has(prev),
        old(types).has(defed),
    ensures
        final(types).ready(),
        catches_up(*final(types), *old(types), prev, defed, res),
{
    let ghost before = *types;
    let p = types.get(prev);
    let f = types.get(defed);
    let (size, alignment, flags) = (f.size, f.alignment, f.flags);
    let waits = p.is_incomplete();
    match (&p.kind, &f.kind) {
        (TypeKind::Struct(old_data), TypeKind::Struct(data)) => {
            if old_data.field.len() == data.field.len() {
                return Ok(prev);
            }
            let fields = copy_fields(data.field.as_slice());
            let bits = copy_bitfields(data.bitfield.as_slice());
            if waits && !types.can_be_struct(&fields, &bits, size, alignment) {
                return Err(malformed_type());
            }
            let r = types.set_fields_struct(fields.as_slice(), bits.as_slice(), prev, size, alignment, flags);
            assert(types.completes_struct(
                before,
                before.dt(defed).fields(),
                before.dt(defed).bitfields(),
                prev,
                size,
                alignment,
                flags,
                r,
            ));
            match r {
                Ok(()) => Ok(prev),
                Err(e) => Err(e),
            }
        },
        (TypeKind::Union(old_data), TypeKind::Union(data)) => {
            if old_data.field.len() == data.field.len() {
                return Ok(prev);
            }
            let fields = copy_fields(data.field.as_slice());
            if waits && !types.can_have_fields(&fields, size, alignment) {
                return Err(malformed_type());
            }
            let r = types.set_fields_union(fields.as_slice(), prev, size, alignment, flags);
            assert(types.completes_union(before, before.dt(defed).fields(), prev, size, alignment, flags, r));
            match r {
                Ok(()) => Ok(prev),
                Err(e) => Err(e),
            }
        },
        _ => {
            if types.get(prev).num_fields() == types.get(defed).num_fields() {
                return Ok(prev);
            }
            Err(malformed_type())
        },
    }
}

impl Datatype {
    fn num_fields(&self) -> (res: usize)
        ensures
            res == self.fields().len(),
    {
        match &self.kind {
            TypeKind::Struct(data) => data.field.len(),
            TypeKind::Union(data) => data.field.len(),
            _ => 0,
        }
    }
}

/// Makes a typedef that was read, given what it stands for.
pub fn finish_typedef(types: &mut TypeFactory, read: TypedefAttributes, defed: TypeId) -> (res: Result<TypeId>)
    requires
        old(types).ready(),
        old(types).has(defed),
    ensures
        final(types).ready(),
        finishes_typedef(*final(types), *old(types), read.facts(None), defed, res),
{
    let f = types.get(defed);
    let mut id: u64 = read.id;
    if f.is_variable_length() {
        id = Datatype::hash_size(id, f.size);
    }
    let meta = f.get_metatype();
    if meta == TypeMetatype::Struct || meta == TypeMetatype::Union {
        if let Some(prev) = types.find_by_id_local(read.name.as_str(), id) {
            let prev_dt = types.get(prev);
            if prev_dt.get_typedef() != Some(defed) {
                let mut text = "Trying to create typedef of existing type: ".to_owned();
                text.push_str(prev_dt.get_name());
                return Err(Error::Lowlevel(text));
            }
            return catch_up(types, prev, defed);
        }
    }
    if types.arena.len() >= 0xffff_ffff || read.format >= 8 {
        return Err(malformed_type());
    }
    types.get_typedef(defed, read.name.as_str(), id, read.format)
}

} // verus!

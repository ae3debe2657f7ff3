//! Data-types that are derived from others: pieces, other sizes, and what a
//! pointer that is moved points to.
use vstd::prelude::*;
use crate::error::{Error, Result};
use crate::ids::TypeId;
use crate::types::{Datatype, TypeFactory, TypeKind, TypeMetatype};

verus! {

/// The data-type of exactly the given bytes of a data-type, if there is one, and
/// otherwise the smallest that holds them, with where they start in it.
pub open spec fn exact_walk(cur: TypeId, off: i64, size: i32, last: Option<(TypeId, i64)>, types: TypeFactory) -> (
    Option<TypeId>,
    Option<(TypeId, i64)>,
)
    decreases types.above(types.dt(cur)), types.depth_of(types.dt(cur)),
    when types.walkable() && types.member(cur)
{
    let d = types.dt(cur);
    if d.size < (size as i64).wrapping_add(off) {
        (None, last)
    } else if d.size == size {
        (Some(cur), last)
    } else {
        let (sub, newoff) = crate::types::inside::step_into(d, off, off, types, None);
        match sub {
            Some(next) => if types.below(next, d) {
                exact_walk(next, newoff, size, Some((cur, off)), types)
            } else {
                (None, Some((cur, off)))
            },
            None => (None, Some((cur, off))),
        }
    }
}

impl TypeFactory {
    /// What asking for a piece of a data-type does.
    pub open spec fn makes_piece(
        self,
        before: TypeFactory,
        ct: TypeId,
        offset: i32,
        size: i32,
        res: Result<Option<TypeId>>,
    ) -> bool {
        let (found, last) = exact_walk(ct, offset as i64, size, None, before);
        let d = before.dt((last->0).0);
        if found is Some {
            self == before && res == Ok::<Option<TypeId>, Error>(found)
        } else if last is None || !has_parts(d) {
            self == before && res == Ok::<Option<TypeId>, Error>(None)
        } else {
            self.makes_some_part(before, (last->0).0, (last->0).1, size, res)
        }
    }

    /// What asking for a part of a data-type does, where there might be none.
    pub open spec fn makes_some_part(
        self,
        before: TypeFactory,
        tp: TypeId,
        off: i64,
        size: i32,
        res: Result<Option<TypeId>>,
    ) -> bool {
        exists|r: Result<TypeId>| #[trigger]
            self.makes_part(before, tp, off, size, r) && match r {
                Ok(part) => res == Ok::<Option<TypeId>, Error>(Some(part)),
                Err(e) => res == Err::<Option<TypeId>, Error>(e),
            }
    }

    /// What asking for a part of a data-type does.
    pub open spec fn makes_part(self, before: TypeFactory, tp: TypeId, off: i64, size: i32, res: Result<TypeId>) -> bool {
        let d = before.dt(tp);
        match d.kind {
            TypeKind::Union(_) => self.makes_partial_union(before, tp, off as i32, size, res),
            TypeKind::PartialUnion(data) => self.makes_partial_union(
                before,
                data.container,
                off.wrapping_add(data.offset as i64) as i32,
                size,
                res,
            ),
            TypeKind::Enum(_) | TypeKind::PartialEnum(_) => self.makes_partial_enum(before, tp, off as i32, size, res),
            _ => self.makes_partial_struct(before, tp, off as i32, size, res),
        }
    }

    /// A piece can be made, where one has to be made: its size can be padded, and its bits can
    /// be counted if it is cut out of a structure with bit fields.
    pub open spec fn can_cut(self, ct: TypeId, offset: i32, size: i32) -> bool {
        let (found, last) = exact_walk(ct, offset as i64, size, None, self);
        found is None && last is Some && has_parts(self.dt((last->0).0)) ==> {
            &&& self.pads_twice(size)
            &&& self.can_fill(size)
            &&& self.can_count((last->0).0, size)
        }
    }

    /// The data-type of some bytes of a data-type.
    pub fn get_exact_piece(&mut self, ct: TypeId, offset: i32, size: i32) -> (res: Result<Option<TypeId>>)
        requires
            old(self).walkable(),
            old(self).ready(),
            old(self).has(ct),
            old(self).arena@.len() < u32::MAX - 1,
            old(self).can_cut(ct, offset, size),
            !(old(self).dt(ct).kind is Spacebase),
            forall|id: TypeId| #![trigger old(self).dt(id)] old(self).has(id) ==> old(self).dt(id).genuine(),
        ensures
            final(self).ready(),
            final(self).extends(*old(self)),
            old(self).firm() ==> final(self).firm(),
            final(self).makes_piece(*old(self), ct, offset, size, res),
            res matches Ok(Some(tp)) ==> final(self).member(tp),
    {
        let ghost before = *self;
        let mut last_type: Option<TypeId> = None;
        let mut last_off: i64 = 0;
        let mut cur_off: i64 = offset as i64;
        let mut cur = ct;
        proof {
            self.look(ct);
            crate::types::pointers::extending_keeps(before, before);
        }
        loop
            invariant_except_break
                exact_walk(
                    cur,
                    cur_off,
                    size,
                    match last_type {
                        Some(tp) => Some((tp, last_off)),
                        None => None,
                    },
                    before,
                ) == exact_walk(ct, offset as i64, size, None, before),
            invariant
                *self == before,
                before == *old(self),
                before.walkable(),
                before.ready(),
                before.member(cur),
                !(before.dt(cur).kind is Spacebase),
                last_type is Some ==> before.member(last_type->0) && !(before.dt(last_type->0).kind is Spacebase),
            ensures
                *self == before,
                last_type is Some ==> before.member(last_type->0) && !(before.dt(last_type->0).kind is Spacebase),
                exact_walk(ct, offset as i64, size, None, before) == (
                    None::<TypeId>,
                    match last_type {
                        Some(tp) => Some((tp, last_off)),
                        None => None,
                    },
                ),
            decreases before.above(before.dt(cur)), before.depth_of(before.dt(cur)),
        {
            let dt = self.get(cur);
            if (dt.get_size() as i64) < (size as i64).wrapping_add(cur_off) {
                break;
            }
            if dt.get_size() == size {
                return Ok(Some(cur));
            }
            last_type = Some(cur);
            last_off = cur_off;
            let mut newoff: i64 = cur_off;
            let next = dt.sub_type(cur_off, &mut newoff, self, None);
            cur_off = newoff;
            match next {
                Some(next) => {
                    cur = next;
                },
                None => {
                    break;
                },
            }
        }
        if let Some(last) = last_type {
            proof {
                self.parts(self.dt(last));
                assert(exact_walk(ct, offset as i64, size, None, before) == (None::<TypeId>, Some((last, last_off))));
            }
            let last_dt = self.get(last);
            let meta = last_dt.get_metatype();
            if meta == TypeMetatype::Struct || meta == TypeMetatype::Array || meta == TypeMetatype::PartialStruct {
                let made = self.get_type_partial_struct(last, last_off as i32, size);
                assert(self.makes_part(before, last, last_off, size, made));
                let res = match made {
                    Ok(tp) => Ok(Some(tp)),
                    Err(e) => Err(e),
                };
                assert(self.makes_some_part(before, last, last_off, size, res));
                assert(self.makes_piece(before, ct, offset, size, res));
                return res;
            } else if meta == TypeMetatype::Union {
                let made = self.get_type_partial_union(last, last_off as i32, size);
                assert(self.makes_part(before, last, last_off, size, made));
                return match made {
                    Ok(tp) => Ok(Some(tp)),
                    Err(e) => Err(e),
                };
            } else if meta == TypeMetatype::PartialUnion {
                let parent = last_dt.get_parent_union();
                let partial_offset: i32 = last_dt.get_offset();
                let made = self.get_type_partial_union(
                    parent,
                    last_off.wrapping_add(partial_offset as i64) as i32,
                    size,
                );
                assert(self.makes_part(before, last, last_off, size, made));
                return match made {
                    Ok(tp) => Ok(Some(tp)),
                    Err(e) => Err(e),
                };
            } else if last_dt.is_enum_type() && !last_dt.has_stripped() {
                let made = self.get_type_partial_enum(last, last_off as i32, size);
                proof {
                    assert(has_parts(before.dt(last)));
                    assert(self.makes_part(before, last, last_off, size, made));
                }
                return match made {
                    Ok(tp) => Ok(Some(tp)),
                    Err(e) => Err(e),
                };
            }
        }
        Ok(None)
    }
}

/// Whether a data-type has parts that are data-types of their own.
pub open spec fn has_parts(d: Datatype) -> bool {
    ||| d.metatype is Struct
    ||| d.metatype is Array
    ||| d.metatype is PartialStruct
    ||| d.metatype is Union
    ||| d.metatype is PartialUnion
    ||| d.flag(Datatype::ENUMTYPE) && !d.flag(Datatype::HAS_STRIPPED)
}

impl TypeFactory {
    /// An integer of another size and the same class.
    pub fn resize_integer(&mut self, ct: TypeId, new_size: i32) -> (res: Result<TypeId>)
        requires
            old(self).ready(),
            old(self).has(ct),
            old(self).can_make_base(new_size, TypeMetatype::Uint),
        ensures
            final(self).ready(),
            final(self).extends(*old(self)),
            old(self).firm() ==> final(self).firm(),
            ({
                let d = old(self).dt(ct);
                let meta = if d.metatype is Int {
                    TypeMetatype::Int
                } else {
                    TypeMetatype::Uint
                };
                if new_size == d.size {
                    *final(self) == *old(self) && res == Ok::<TypeId, Error>(ct)
                } else if !d.flag(
                    Datatype::CHARTYPE | Datatype::UTF16 | Datatype::UTF32 | Datatype::OPAQUE_STRING,
                ) && new_size == 1 && meta is Int && old(self).type_nochar is Some {
                    *final(self) == *old(self) && res == Ok::<TypeId, Error>(old(self).type_nochar->0)
                } else {
                    final(self).makes_base(*old(self), new_size, meta, res)
                }
            }),
            res matches Ok(id) ==> final(self).member(id),
    {
        proof {
            self.look(ct);
        }
        let dt = self.get(ct);
        if new_size == dt.get_size() {
            return Ok(ct);
        }
        let mut meta = dt.get_metatype();
        if meta != TypeMetatype::Int && meta != TypeMetatype::Uint {
            meta = TypeMetatype::Uint;
        }
        if dt.is_char_print() {
            return self.get_base(new_size, meta);
        }
        self.get_base_no_char(new_size, meta)
    }

    /// A data-type that a variable can have: an unknown byte in place of code.
    pub fn concretize(&mut self, ct: TypeId) -> (res: Result<TypeId>)
        requires
            old(self).ready(),
            old(self).has(ct),
            old(self).can_make_base(1, TypeMetatype::Unknown),
        ensures
            final(self).ready(),
            final(self).extends(*old(self)),
            old(self).firm() ==> final(self).firm(),
            if !(old(self).dt(ct).metatype is Code) {
                *final(self) == *old(self) && res == Ok::<TypeId, Error>(ct)
            } else if old(self).dt(ct).size != 1 {
                *final(self) == *old(self) && (res matches Err(e) && e.is_lowlevel(
                    "Primitive code data-type that is not size 1"@,
                ))
            } else {
                final(self).makes_base(*old(self), 1, TypeMetatype::Unknown, res)
            },
            res matches Ok(id) ==> final(self).member(id),
    {
        proof {
            self.look(ct);
        }
        let dt = self.get(ct);
        if dt.get_metatype() == TypeMetatype::Code {
            if dt.get_size() != 1 {
                return Err(Error::lowlevel("Primitive code data-type that is not size 1"));
            }
            return self.get_base(1, TypeMetatype::Unknown);
        }
        Ok(ct)
    }
}

/// The component that starts exactly at an offset into a data-type, as deep down
/// as needed.
pub open spec fn component_at(cur: TypeId, off: i64, types: TypeFactory) -> Option<TypeId>
    decreases types.above(types.dt(cur)), types.depth_of(types.dt(cur)),
    when types.walkable() && types.member(cur)
{
    let (sub, newoff) = crate::types::inside::step_into(types.dt(cur), off, off, types, None);
    match sub {
        Some(next) => if newoff == 0 || !types.below(next, types.dt(cur)) {
            Some(next)
        } else {
            component_at(next, newoff, types)
        },
        None => None,
    }
}

impl Datatype {
    /// What a relative pointer points to: the component at its offset in the
    /// parent, or an unknown byte.
    pub fn get_ptr_to_from_parent(base: TypeId, off: i32, types: &mut TypeFactory) -> (res: Result<TypeId>)
        requires
            old(types).walkable(),
            old(types).has(base),
            !(old(types).dt(base).kind is Spacebase),
            old(types).can_make_base(1, TypeMetatype::Unknown),
        ensures
            final(types).ready(),
            final(types).extends(*old(types)),
            old(types).firm() ==> final(types).firm(),
            if off > 0 && component_at(base, off as i64, *old(types)) is Some {
                *final(types) == *old(types) && res == Ok::<TypeId, Error>(
                    component_at(base, off as i64, *old(types))->0,
                )
            } else {
                final(types).makes_base(*old(types), 1, TypeMetatype::Unknown, res)
            },
            res matches Ok(id) ==> final(types).member(id),
    {
        if off > 0 {
            let mut curoff: i64 = off as i64;
            let mut current = base;
            proof {
                types.look(base);
            }
            loop
                invariant
                    *types == *old(types),
                    off > 0,
                    types.ready(),
                    types.walkable(),
                    types.member(current),
                    !(types.dt(current).kind is Spacebase),
                    component_at(current, curoff, *types) == component_at(base, off as i64, *types),
                ensures
                    *types == *old(types),
                    component_at(base, off as i64, *types) is None,
                decreases types.above(types.dt(current)), types.depth_of(types.dt(current)),
            {
                let mut newoff: i64 = curoff;
                match types.get(current).sub_type(curoff, &mut newoff, types, None) {
                    Some(next) => {
                        if newoff == 0 {
                            return Ok(next);
                        }
                        current = next;
                        curoff = newoff;
                    },
                    None => {
                        break;
                    },
                }
            }
        }
        types.get_base(1, TypeMetatype::Unknown)
    }
}

} // verus!

//! Following a pointer down into what it points to.
use vstd::prelude::*;
use crate::address::{calc_mask, sign_extend};
use crate::architecture::Architecture;
use crate::error::{Error, Result};
use crate::ids::TypeId;
use crate::types::{Datatype, TypeFactory, TypeKind, TypeMetatype};

verus! {

/// Where a pointer that is moved leads.
pub ghost enum Lead {
    /// To nothing that is known.
    Nowhere,
    /// To another element of the array that the pointer runs through.
    Same,
    /// To a byte of an enumeration.
    Byte,
    /// To a component. A component that is an array and no element of an array is
    /// taken for its elements.
    Component(TypeId, bool),
}

/// A pointer that has been moved: where it leads, what is left of the offset,
/// and the composite that it leads into, if there is one.
pub ghost struct Moved {
    pub lead: Lead,
    pub off: i64,
    pub into: bool,
    pub into_off: i64,
}

/// An offset brought back into one element, as if the pointer ran through an array.
pub open spec fn into_element(off: i64, size: i32, element: i32) -> i64 {
    let rem = crate::space::trunc_rem(crate::address::extended(off, size * 8 - 1) as int, element as int);
    (if rem < 0 {
        rem + element
    } else {
        rem
    }) as i64
}

/// Where a pointer leads if an offset is added to it.
pub open spec fn moved(d: Datatype, off: i64, wrap: bool, types: TypeFactory, glb: Option<&Architecture>) -> Moved {
    let target = types.dt(d.pointer().ptrto->0);
    let outside = (off < 0 || off >= target.align_size) && target.align_size != 0 && !target.flag(
        Datatype::VARIABLE_LENGTH,
    );
    let inner = if outside && wrap {
        into_element(off, d.size, target.align_size)
    } else {
        off
    };
    if outside && !wrap {
        Moved { lead: Lead::Nowhere, off, into: false, into_off: 0 }
    } else if outside && inner == 0 {
        Moved { lead: Lead::Same, off: 0, into: false, into_off: 0 }
    } else if target.flag(Datatype::ENUMTYPE) {
        Moved { lead: Lead::Byte, off: inner, into: false, into_off: 0 }
    } else {
        let (sub, newoff) = crate::types::inside::step_into(target, inner, inner, types, glb);
        Moved {
            lead: match sub {
                Some(pt) => Lead::Component(pt, !(target.metatype is Array)),
                None => Lead::Nowhere,
            },
            off: newoff,
            into: target.metatype is Array || target.metatype is Struct,
            into_off: inner,
        }
    }
}

impl Moved {
    /// The pointer into a composite that was last followed.
    pub open spec fn parent(self, ct: TypeId, before: Option<TypeId>) -> Option<TypeId> {
        if self.into {
            Some(ct)
        } else {
            before
        }
    }

    /// The offset of the pointer into a composite that was last followed.
    pub open spec fn parent_off(self, before: i64) -> i64 {
        if self.into {
            self.into_off
        } else {
            before
        }
    }
}

/// What asking for the pointer that a moved pointer leads to does.
pub open spec fn leads(
    before: TypeFactory,
    after: TypeFactory,
    ct: TypeId,
    d: Datatype,
    m: Moved,
    res: Result<Option<TypeId>>,
) -> bool {
    match m.lead {
        Lead::Nowhere => after == before && res == Ok::<Option<TypeId>, Error>(None),
        Lead::Same => after == before && res == Ok::<Option<TypeId>, Error>(Some(ct)),
        Lead::Byte => exists|mid: TypeFactory, b: Result<TypeId>| #[trigger]
            mid.makes_base(before, 1, TypeMetatype::Uint, b) && match b {
                Err(e) => after == mid && res == Err::<Option<TypeId>, Error>(e),
                Ok(byte) => leads_to(mid, after, d, mid.plain_form(byte), res),
            },
        Lead::Component(pt, elements) => leads_to(
            before,
            after,
            d,
            if elements {
                before.element_form(pt)
            } else {
                before.plain_form(pt)
            },
            res,
        ),
    }
}

/// What asking for a pointer of the same size to another data-type does.
pub open spec fn leads_to(
    before: TypeFactory,
    after: TypeFactory,
    d: Datatype,
    target: TypeId,
    res: Result<Option<TypeId>>,
) -> bool {
    exists|r: Result<TypeId>| #[trigger]
        after.makes_pointer(
            before,
            d.size,
            crate::types::pointers::plain_pointer(target, d.pointer().wordsize),
            Seq::empty(),
            0,
            r,
        ) && match r {
            Ok(ptr) => res == Ok::<Option<TypeId>, Error>(Some(ptr)),
            Err(e) => res == Err::<Option<TypeId>, Error>(e),
        }
}

impl Architecture {
    /// Pointers can be followed down and the pointers that they lead to can be made.
    pub open spec fn can_follow(self, d: Datatype) -> bool {
        let ptrto = d.pointer().ptrto->0;
        &&& self.sound()
        &&& self.types.walkable()
        &&& self.types.ready()
        &&& self.types.can_make_full_pointer(d.size, ptrto, d.pointer().wordsize)
        &&& self.types.can_make_base(1, TypeMetatype::Uint)
        &&& self.types.arena@.len() < u32::MAX - 4
        &&& crate::types::inside::supports(self.types.dt(ptrto), self.types, Some(&self))
        &&& 1 <= d.size <= 8
    }

    /// The rest of the program is as it was.
    pub open spec fn same_program(self, before: Architecture) -> bool {
        self == (Architecture { types: self.types, ..before })
    }
}

/// A program whose data-types are kept stays sound.
pub proof fn kept_program_is_sound(before: Architecture, after: Architecture)
    requires
        before.sound(),
        after.same_program(before),
        after.types.sound(),
        after.types.keeps(before.types),
    ensures
        after.sound(),
        before.types.code_is_bare() ==> after.types.code_is_bare(),
        before.types.bytes_packed() ==> after.types.bytes_packed(),
{
    if before.types.cached(1, TypeMetatype::Unknown) is Some {
        let unknown = before.types.cached(1, TypeMetatype::Unknown)->0;
        before.types.cache_fits(1, TypeMetatype::Unknown);
        before.types.parts(before.types.dt(unknown));
        assert(after.types.has(unknown));
    }
    if before.types.cached(1, TypeMetatype::Code) is Some {
        before.types.cache_fits(1, TypeMetatype::Code);
        assert(after.types.has(before.types.cached(1, TypeMetatype::Code)->0));
    }
    assert forall|i: int| #![trigger after.symboltab.symbols@[i]]
        0 <= i < after.symboltab.symbols@.len() implies after.symbol_type_valid(after.symboltab.symbols@[i].tp) by {
        let tp = before.symboltab.symbols@[i].tp;
        assert(before.symbol_type_valid(tp));
        if tp is Some {
            assert(after.types.has(tp->0));
        }
    }
}

/// What following a pointer down does. A relative pointer that leaves its target
/// is followed from its parent.
pub open spec fn follows_down(
    after: Architecture,
    before: Architecture,
    ct: TypeId,
    allow_array_wrap: bool,
    off: i64,
    new_off: i64,
    par: Option<TypeId>,
    new_par: Option<TypeId>,
    par_off: i64,
    new_par_off: i64,
    res: Result<Option<TypeId>>,
) -> bool {
    let types = before.types;
    let d = types.dt(ct);
    let rel = d.kind->PointerRel_0;
    if d.kind is Pointer || d.stays_in_target(off, types) {
        let m = moved(d, off, allow_array_wrap, types, Some(&before));
        &&& leads(types, after.types, ct, d, m, res)
        &&& m.lead is Byte && res is Ok ==> new_off == 0
        &&& !(m.lead is Byte) ==> new_off == m.off
        &&& new_par == m.parent(ct, par)
        &&& new_par_off == m.parent_off(par_off)
    } else if d.parent_offset(off) < 0 || d.parent_offset(off) >= types.dt(
        rel.parent->0,
    ).size {
        &&& after == before
        &&& res == Ok::<Option<TypeId>, Error>(None)
        &&& new_off == off
        &&& new_par == par
        &&& new_par_off == par_off
    } else {
        exists|mid: TypeFactory, r: Result<TypeId>| #[trigger]
            mid.makes_pointer(
                types,
                d.size,
                crate::types::pointers::plain_pointer(types.plain_form(rel.parent->0), rel.pointer.wordsize),
                Seq::empty(),
                0,
                r,
            ) && match r {
                Err(e) => {
                    &&& after.types == mid
                    &&& res == Err::<Option<TypeId>, Error>(e)
                    &&& new_par == par
                    &&& new_par_off == par_off
                },
                Ok(orig) => if d.parent_offset(off) == 0 && rel.offset != 0 {
                    &&& after.types == mid
                    &&& res == Ok::<Option<TypeId>, Error>(Some(orig))
                    &&& new_off == 0
                    &&& new_par == par
                    &&& new_par_off == par_off
                } else {
                    let between = Architecture { types: mid, ..before };
                    let m = moved(
                        mid.dt(orig),
                        d.parent_offset(off),
                        allow_array_wrap,
                        mid,
                        Some(&between),
                    );
                    &&& leads(mid, after.types, orig, mid.dt(orig), m, res)
                    &&& m.lead is Byte && res is Ok ==> new_off == 0
                    &&& !(m.lead is Byte) ==> new_off == m.off
                    &&& new_par == m.parent(orig, par)
                    &&& new_par_off == m.parent_off(par_off)
                },
            }
    }

}

/// A pointer to something that is made of other things.
pub open spec fn enters(p: TypeId, types: TypeFactory) -> bool {
    let d = types.dt(p);
    let target = d.pointer().ptrto->0;
    &&& types.has(p)
    &&& d.is_pointer()
    &&& types.has(target)
    &&& types.dt(target).kind is Array || types.dt(target).kind is Struct
}

pub proof fn enters_later(p: TypeId, after: TypeFactory, before: TypeFactory)
    requires
        enters(p, before),
        after.keeps(before),
    ensures
        enters(p, after),
{
    let target = before.dt(p).pointer().ptrto->0;
    assert(after.has(p));
    assert(after.has(target));
}

impl Datatype {
    fn pointer_down_chain(
        ct: TypeId,
        off: &mut i64,
        par: &mut Option<TypeId>,
        par_off: &mut i64,
        allow_array_wrap: bool,
        glb: &mut Architecture,
    ) -> (res: Result<Option<TypeId>>)
        requires
            old(glb).types.has(ct),
            old(glb).types.dt(ct).is_pointer(),
            old(glb).can_follow(old(glb).types.dt(ct)),
        ensures
            final(glb).sound(),
            final(glb).types.ready(),
            final(glb).types.keeps(old(glb).types),
            final(glb).same_program(*old(glb)),
            ({
                let d = old(glb).types.dt(ct);
                let m = moved(d, *old(off), allow_array_wrap, old(glb).types, Some(old(glb)));
                &&& leads(old(glb).types, final(glb).types, ct, d, m, res)
                &&& m.lead is Byte && res is Ok ==> *final(off) == 0
                &&& !(m.lead is Byte) ==> *final(off) == m.off
                &&& *final(par) == m.parent(ct, *old(par))
                &&& *final(par_off) == m.parent_off(*old(par_off))
            }),
            res matches Ok(Some(tp)) ==> final(glb).types.dt(tp).is_pointer() && final(glb).types.dt(tp).size == old(
                glb,
            ).types.dt(ct).size,
            res matches Ok(Some(tp)) ==> final(glb).types.member(tp),
            *final(par) == *old(par) || (*final(par) == Some(ct) && enters(ct, old(glb).types)),
            1 <= old(glb).types.size_of_pointer <= 8 ==> final(glb).types.only_modest(old(glb).types),
    {
        let ghost before = *glb;
        proof {
            glb.types.look(ct);
            glb.types.parts(glb.types.dt(ct));
            crate::types::pointers::extending_keeps(before.types, before.types);
        }
        let dt = glb.types.get(ct);
        let ghost d = *dt;
        let size: i32 = dt.size;
        let wordsize: u32 = dt.get_word_size();
        let ptrto = dt.get_ptr_to();
        let ptrto_dt = glb.types.get(ptrto);
        let ptrto_size: i32 = ptrto_dt.get_align_size();
        if (*off < 0 || *off >= ptrto_size as i64) && ptrto_size != 0 && !ptrto_dt.is_variable_length() {
            if !allow_array_wrap {
                return Ok(None);
            }
            let mut sign_off: i64 = sign_extend(*off, size * 8 - 1);
            sign_off = sign_off % (ptrto_size as i64);
            if sign_off < 0 {
                sign_off = sign_off + ptrto_size as i64;
            }
            *off = sign_off;
            if *off == 0 {
                return Ok(Some(ct));
            }
        }
        if ptrto_dt.is_enum_type() {
            let made = glb.types.get_base(1, TypeMetatype::Uint);
            let ghost mid = glb.types;
            proof {
                assert(mid.makes_base(before.types, 1, TypeMetatype::Uint, made));
                crate::types::pointers::extending_keeps(before.types, mid);
                kept_program_is_sound(before, *glb);
                crate::types::suit::base_modest(mid, before.types, 1, TypeMetatype::Uint, made);
            }
            let tmp = made?;
            *off = 0;
            let made_pointer = glb.types.get_type_pointer(size, tmp, wordsize);
            proof {
                if 1 <= before.types.size_of_pointer <= 8 {
                    crate::types::suit::pointer_modest(
                        glb.types,
                        mid,
                        size,
                        crate::types::pointers::plain_pointer(mid.plain_form(tmp), wordsize),
                        Seq::empty(),
                        0,
                        made_pointer,
                    );
                    crate::types::suit::modest_twice(glb.types, mid, before.types);
                }
                crate::types::pointers::keeping_twice(before.types, mid, glb.types);
                kept_program_is_sound(before, *glb);
                assert(leads_to(
                    mid,
                    glb.types,
                    d,
                    mid.plain_form(tmp),
                    match made_pointer {
                        Ok(ptr) => Ok::<Option<TypeId>, Error>(Some(ptr)),
                        Err(e) => Err::<Option<TypeId>, Error>(e),
                    },
                ));
            }
            return match made_pointer {
                Ok(ptr) => Ok(Some(ptr)),
                Err(e) => Err(e),
            };
        }
        let meta = ptrto_dt.get_metatype();
        let is_array = meta == TypeMetatype::Array;
        if is_array || meta == TypeMetatype::Struct {
            *par = Some(ct);
            *par_off = *off;
        }
        let mut newoff: i64 = *off;
        let pt = ptrto_dt.sub_type(*off, &mut newoff, &glb.types, Some(&*glb));
        *off = newoff;
        let Some(pt) = pt else {
            return Ok(None);
        };
        let made_pointer = if !is_array {
            glb.types.get_type_pointer_strip_array(size, pt, wordsize)
        } else {
            glb.types.get_type_pointer(size, pt, wordsize)
        };
        proof {
            if 1 <= before.types.size_of_pointer <= 8 {
                crate::types::suit::pointer_modest(
                    glb.types,
                    before.types,
                    size,
                    crate::types::pointers::plain_pointer(
                        if !is_array {
                            before.types.element_form(pt)
                        } else {
                            before.types.plain_form(pt)
                        },
                        wordsize,
                    ),
                    Seq::empty(),
                    0,
                    made_pointer,
                );
            }
            kept_program_is_sound(before, *glb);
            assert(leads_to(
                before.types,
                glb.types,
                d,
                if !is_array {
                    before.types.element_form(pt)
                } else {
                    before.types.plain_form(pt)
                },
                match made_pointer {
                    Ok(ptr) => Ok::<Option<TypeId>, Error>(Some(ptr)),
                    Err(e) => Err::<Option<TypeId>, Error>(e),
                },
            ));
        }
        match made_pointer {
            Ok(ptr) => Ok(Some(ptr)),
            Err(e) => Err(e),
        }
    }

    /// The offset of a relative pointer into its parent.
    pub open spec fn parent_offset(self, off: i64) -> i64 {
        (off.wrapping_add(self.kind->PointerRel_0.offset as i64) as u64 & crate::address::mask_of(
            self.size as int,
        )) as i64
    }

    /// Whether an offset from a relative pointer stays in what it points to itself.
    pub open spec fn stays_in_target(self, off: i64, types: TypeFactory) -> bool {
        let target = types.dt(self.pointer().ptrto->0);
        0 <= off < target.size && (target.metatype is Struct || target.metatype is Array)
    }

    /// The pointer that a pointer leads to if an offset is added to it. An offset
    /// from a relative pointer that leads out of its target is taken from the
    /// parent.
    #[verifier::spinoff_prover]
    #[verifier::rlimit(80)]
    pub fn down_chain(
        ct: TypeId,
        off: &mut i64,
        par: &mut Option<TypeId>,
        par_off: &mut i64,
        allow_array_wrap: bool,
        glb: &mut Architecture,
    ) -> (res: Result<Option<TypeId>>)
        requires
            old(glb).types.has(ct),
            old(glb).types.dt(ct).is_pointer(),
            old(glb).can_follow(old(glb).types.dt(ct)),
            old(glb).types.arena@.len() < u32::MAX - 8,
            old(glb).types.dt(ct).kind matches TypeKind::PointerRel(data) ==> {
                &&& crate::types::inside::supports(
                    old(glb).types.dt(old(glb).types.plain_form(data.parent->0)),
                    old(glb).types,
                    Some(old(glb)),
                )
                &&& !(old(glb).types.dt(old(glb).types.plain_form(data.parent->0)).kind is Spacebase)
            },
        ensures
            final(glb).sound(),
            final(glb).types.ready(),
            final(glb).types.keeps(old(glb).types),
            final(glb).same_program(*old(glb)),
            follows_down(
                *final(glb),
                *old(glb),
                ct,
                allow_array_wrap,
                *old(off),
                *final(off),
                *old(par),
                *final(par),
                *old(par_off),
                *final(par_off),
                res,
            ),
            res matches Ok(Some(tp)) ==> final(glb).types.dt(tp).is_pointer() && final(glb).types.dt(tp).size == old(
                glb,
            ).types.dt(ct).size,
            res matches Ok(Some(tp)) ==> final(glb).types.member(tp),
            *final(par) == *old(par) || (*final(par) matches Some(p) && enters(p, final(glb).types)),
            1 <= old(glb).types.size_of_pointer <= 8 ==> final(glb).types.only_modest(old(glb).types),
    {
        let ghost before = *glb;
        proof {
            glb.types.look(ct);
            glb.types.parts(glb.types.dt(ct));
            crate::types::pointers::extending_keeps(before.types, before.types);
        }
        let dt = glb.types.get(ct);
        if let TypeKind::PointerRel(data) = &dt.kind {
            let ptrto = data.pointer.ptrto.unwrap();
            let parent = data.parent.unwrap();
            let offset: i32 = data.offset;
            let wordsize: u32 = data.pointer.wordsize;
            let size: i32 = dt.size;
            let ptrto_dt = glb.types.get(ptrto);
            let ptrto_meta = ptrto_dt.get_metatype();
            if *off >= 0 && *off < ptrto_dt.get_size() as i64 && (ptrto_meta == TypeMetatype::Struct || ptrto_meta
                == TypeMetatype::Array) {
                let res = Datatype::pointer_down_chain(ct, off, par, par_off, allow_array_wrap, glb);
                proof {
                    if enters(ct, before.types) {
                        enters_later(ct, glb.types, before.types);
                    }
                }
                return res;
            }
            let rel_off: i64 = (off.wrapping_add(offset as i64) as u64 & calc_mask(size)) as i64;
            if rel_off < 0 || rel_off >= glb.types.get(parent).get_size() as i64 {
                return Ok(None);
            }
            let made = glb.types.get_type_pointer(size, parent, wordsize);
            let ghost mid = glb.types;
            let ghost between = *glb;
            proof {
                assert(mid.makes_pointer(
                    before.types,
                    size,
                    crate::types::pointers::plain_pointer(before.types.plain_form(parent), wordsize),
                    Seq::empty(),
                    0,
                    made,
                ));
                crate::types::suit::pointer_steady(
                    mid,
                    before.types,
                    size,
                    crate::types::pointers::plain_pointer(before.types.plain_form(parent), wordsize),
                    made,
                );
                if 1 <= before.types.size_of_pointer <= 8 {
                    crate::types::suit::pointer_modest(
                        mid,
                        before.types,
                        size,
                        crate::types::pointers::plain_pointer(before.types.plain_form(parent), wordsize),
                        Seq::empty(),
                        0,
                        made,
                    );
                }
                kept_program_is_sound(before, *glb);
            }
            let orig_pointer = made?;
            *off = rel_off;
            if rel_off == 0 && offset != 0 {
                return Ok(Some(orig_pointer));
            }
            proof {
                mid.look(orig_pointer);
                mid.parts(mid.dt(orig_pointer));
                before.types.look(parent);
                before.types.parts(before.types.dt(parent));
                assert(mid.has(before.types.plain_form(parent)));
            }
            let res = Datatype::pointer_down_chain(orig_pointer, off, par, par_off, allow_array_wrap, glb);
            proof {
                if 1 <= before.types.size_of_pointer <= 8 {
                    crate::types::suit::modest_twice(glb.types, mid, before.types);
                }
                crate::types::pointers::keeping_twice(before.types, mid, glb.types);
                let m = moved(mid.dt(orig_pointer), rel_off, allow_array_wrap, mid, Some(&between));
                assert(leads(mid, glb.types, orig_pointer, mid.dt(orig_pointer), m, res));
                if enters(orig_pointer, mid) {
                    enters_later(orig_pointer, glb.types, mid);
                }
            }
            return res;
        }
        let res = Datatype::pointer_down_chain(ct, off, par, par_off, allow_array_wrap, glb);
        proof {
            if enters(ct, before.types) {
                enters_later(ct, glb.types, before.types);
            }
        }
        res
    }
}

} // verus!

//! Walking into data-types: what lies at an offset.
use vstd::prelude::*;
use crate::address::Address;
use crate::architecture::{Architecture, SpaceManager};
use crate::error::{Error, Result};
use crate::ids::{ScopeId, TypeId};
use crate::space::AddrSpace;
use crate::types::{Datatype, TypeFactory, TypeKind, TypeMetatype};

verus! {

impl TypeFactory {
    /// The elements of an array take up room and are no spaces of symbols, and the units of a
    /// pointer take up room.
    pub open spec fn steady(self, d: Datatype) -> bool {
        &&& d.kind matches TypeKind::Array(data) ==> self.has(data.arrayof->0) && self.dt(data.arrayof->0).align_size >= 1
            && !(self.dt(data.arrayof->0).kind is Spacebase)
        &&& d.is_pointer() ==> d.pointer().wordsize >= 1
    }

    /// Spaces of symbols have no size of their own: that is how they are made, and only a
    /// document can give one a size.
    pub open spec fn spaces_sizeless(self) -> bool {
        forall|id: TypeId| #![trigger self.dt(id)] self.has(id) && self.dt(id).kind is Spacebase ==> self.dt(id).size == 0
    }

    /// An unknown byte takes up one byte.
    pub open spec fn bytes_packed(self) -> bool {
        self.cached(1, TypeMetatype::Unknown) is Some ==> self.dt(
            self.plain_form(self.cached(1, TypeMetatype::Unknown)->0),
        ).align_size == 1
    }

    /// All data-types can be walked into, the elements of all arrays take up room, and the
    /// units of all pointers do.
    pub open spec fn all_steady(self) -> bool {
        &&& self.firm()
        &&& forall|id: TypeId| #![trigger self.dt(id)] self.has(id) ==> self.steady(self.dt(id))
    }

    /// The factory is sound, has base data-types, and every walk down ends: elements take up
    /// room, and code that is cached leads to no further code.
    pub open spec fn walkable(self) -> bool {
        &&& self.sound()
        &&& self.max_basetype_size >= 1
        &&& self.code_is_bare()
        &&& self.all_steady()
    }

    /// Whether a walk that leads to a data-type has got further down.
    pub open spec fn below(self, id: TypeId, d: Datatype) -> bool {
        &&& self.member(id)
        &&& self.above(self.dt(id)) < self.above(d) || (self.above(self.dt(id)) == self.above(d) && self.depth_of(
            self.dt(id),
        ) < self.depth_of(d))
    }
}

/// The program gives what walks into a data-type need.
pub open spec fn supports(d: Datatype, types: TypeFactory, glb: Option<&Architecture>) -> bool {
    d.kind matches TypeKind::Spacebase(data) ==> {
        &&& glb is Some
        &&& glb->0.sound()
        &&& glb->0.types == types
        &&& glb->0.symboltab.resolved(data.scope_id) is Some
    }
}

impl Datatype {
    /// The scope and the address that an offset into a space of symbols stands for.
    pub open spec fn place_in_space(self, off: i64, glb: Architecture) -> (ScopeId, Address) {
        let data = self.kind->Spacebase_0;
        (
            glb.symboltab.resolved(data.scope_id)->0,
            SpaceManager::resolved(data.spaceid->0, (off as u64) / (data.spaceid->0.word_size as u64)),
        )
    }

    /// What an offset into a space of symbols leads to: the symbol stored there,
    /// or an unknown byte if the scope owns the place.
    pub open spec fn step_into_space(self, off: i64, before: i64, glb: Architecture) -> (Option<TypeId>, i64) {
        let (scope, addr) = self.place_in_space(off, glb);
        match glb.symboltab.container(scope, addr, 1) {
            None => if !glb.symboltab.scope(scope).owns(addr, 1, glb.symboltab.scope(scope).ranges@.len()) {
                (None, before)
            } else {
                (glb.types.base_existing(1, TypeMetatype::Unknown), 0)
            },
            Some(entry_id) => {
                let entry = glb.symboltab.entry(entry_id);
                (
                    glb.symboltab.symbol(entry.symbol).tp,
                    (addr.offset.wrapping_sub(entry.addr.offset) as i64).wrapping_add(entry.offset as i64),
                )
            },
        }
    }
}

/// The component of a data-type at an offset, and the offset into the component.
/// The last value that was known for the offset is kept where nothing is said.
pub open spec fn step_into(d: Datatype, off: i64, before: i64, types: TypeFactory, glb: Option<&Architecture>) -> (
    Option<TypeId>,
    i64,
)
    decreases types.above(d), types.depth_of(d), 0nat,
    when types.walkable() && types.rests(d)
{
    proof {
        types.parts(d);
    }
    match d.kind {
        TypeKind::Pointer(_) | TypeKind::PointerRel(_) => {
            let truncate = d.pointer().truncate;
            let low = if d.flag(Datatype::TRUNCATE_BIGENDIAN) {
                d.size - types.size_of(truncate->0)
            } else {
                0
            };
            if truncate is Some && low <= off < low + types.size_of(truncate->0) {
                (truncate, (off - low) as i64)
            } else {
                (None, off)
            }
        },
        TypeKind::Array(data) => if off >= d.size {
            (None, off)
        } else {
            (
                data.arrayof,
                crate::space::trunc_rem(off as int, types.dt(data.arrayof->0).align_size as int) as i64,
            )
        },
        TypeKind::Struct(data) => {
            let index = crate::types::fields::field_holding(data.field@, (off as i32) as int, types);
            if index < 0 {
                (None, off)
            } else {
                (Some(data.field@[index].tp), off.wrapping_sub(data.field@[index].offset as i64))
            }
        },
        TypeKind::PartialStruct(data) => descend(
            data.container,
            off.wrapping_add(data.offset as i64),
            before,
            (d.size as i64).wrapping_sub(off),
            types,
            glb,
        ),
        TypeKind::Code(data) => if !data.factory {
            (None, before)
        } else {
            (types.base_existing(1, TypeMetatype::Code), 0)
        },
        TypeKind::Spacebase(_) => d.step_into_space(off, before, *glb->0),
        _ => (None, off),
    }
}

/// Steps into components, starting at a data-type, until one fits into the bytes
/// that are left.
pub open spec fn descend(
    current: TypeId,
    off: i64,
    before: i64,
    size_left: i64,
    types: TypeFactory,
    glb: Option<&Architecture>,
) -> (Option<TypeId>, i64)
    decreases types.above(types.dt(current)), types.depth_of(types.dt(current)), 1nat,
    when types.walkable() && types.member(current)
{
    let (ct, newoff) = step_into(types.dt(current), off, before, types, glb);
    match ct {
        None => (None, newoff),
        Some(next) => if (types.dt(next).size as i64).wrapping_sub(newoff) <= size_left {
            (Some(next), newoff)
        } else if types.below(next, types.dt(current)) {
            descend(next, newoff, newoff, size_left, types, glb)
        } else {
            (None, newoff)
        },
    }
}

/// A step leads further down.
pub proof fn step_goes_down(d: Datatype, off: i64, before: i64, types: TypeFactory, glb: Option<&Architecture>)
    requires
        types.walkable(),
        types.rests(d),
        supports(d, types, glb),
        step_into(d, off, before, types, glb).0 is Some,
    ensures
        types.below(step_into(d, off, before, types, glb).0->0, d),
        !(types.dt(step_into(d, off, before, types, glb).0->0).kind is Spacebase),
    decreases types.above(d), types.depth_of(d), 0nat,
{
    types.parts(d);
    match d.kind {
        TypeKind::Struct(data) => {
            crate::types::fields::holder_holds(data.field@, (off as i32) as int, types, data.field@.len());
        },
        TypeKind::PartialStruct(data) => {
            descent_goes_down(
                data.container,
                off.wrapping_add(data.offset as i64),
                before,
                (d.size as i64).wrapping_sub(off),
                types,
                glb,
            );
        },
        TypeKind::Code(data) => {
            types.existing_code_is_bare();
        },
        TypeKind::Spacebase(_) => {
            let arch = *glb->0;
            let (scope, addr) = d.place_in_space(off, arch);
            match arch.symboltab.container(scope, addr, 1) {
                None => {
                    existing_unknown_is_member(types);
                },
                Some(entry_id) => {
                    scope_is_inside(arch.symboltab, d.kind->Spacebase_0.scope_id, arch.symboltab.scopes@.len());
                    container_is_entry(
                        arch.symboltab,
                        scope,
                        addr,
                        1,
                        arch.symboltab.scope(scope).entries@.len(),
                    );
                    let entry = arch.symboltab.entry(entry_id);
                    let symbol = arch.symboltab.symbols@[entry.symbol.0 as int];
                    assert(arch.symbol_type_valid(symbol.tp));
                    types.look(symbol.tp->0);
                },
            }
        },
        _ => {},
    }
}

proof fn existing_unknown_is_member(types: TypeFactory)
    requires
        types.walkable(),
        types.base_existing(1, TypeMetatype::Unknown) is Some,
    ensures
        types.member(types.base_existing(1, TypeMetatype::Unknown)->0),
        !(types.dt(types.base_existing(1, TypeMetatype::Unknown)->0).kind is Spacebase),
{
    if types.cached(1, TypeMetatype::Unknown) is Some {
        types.cache_fits(1, TypeMetatype::Unknown);
    } else {
        let place = types.place(crate::types::factory::plain_type(1, TypeMetatype::Unknown), 0);
        types.tree_names_members(place as int);
        let d = types.dt(types.tree@[place as int]);
        assert(d.submeta.rank() == crate::types::SubMetatype::Unknown.rank());
    }
}

pub proof fn scope_is_inside(db: crate::database::Database, id: u64, n: nat)
    requires
        db.valid(),
        n <= db.scopes@.len(),
        db.scope_numbered(id, n) is Some,
    ensures
        (db.scope_numbered(id, n)->0).0 < db.scopes@.len(),
    decreases n,
{
    if n > 0 && db.scope_numbered(id, (n - 1) as nat) is Some {
        scope_is_inside(db, id, (n - 1) as nat);
    }
}

pub proof fn container_is_entry(db: crate::database::Database, scope: ScopeId, addr: Address, size: int, n: nat)
    requires
        db.valid(),
        scope.0 < db.scopes@.len(),
        n <= db.scope(scope).entries@.len(),
        db.smallest_cover(scope, addr, size, n) is Some,
    ensures
        (db.smallest_cover(scope, addr, size, n)->0).0 < db.entries@.len(),
    decreases n,
{
    if n > 0 {
        let e = db.scopes@[scope.0 as int].entries@[n - 1];
        if db.smallest_cover(scope, addr, size, (n - 1) as nat) is Some {
            container_is_entry(db, scope, addr, size, (n - 1) as nat);
        }
    }
}

/// A descent leads further down.
pub proof fn descent_goes_down(
    current: TypeId,
    off: i64,
    before: i64,
    size_left: i64,
    types: TypeFactory,
    glb: Option<&Architecture>,
)
    requires
        types.walkable(),
        types.member(current),
        !(types.dt(current).kind is Spacebase),
        descend(current, off, before, size_left, types, glb).0 is Some,
    ensures
        types.below(descend(current, off, before, size_left, types, glb).0->0, types.dt(current)),
        !(types.dt(descend(current, off, before, size_left, types, glb).0->0).kind is Spacebase),
    decreases types.above(types.dt(current)), types.depth_of(types.dt(current)), 1nat,
{
    let d = types.dt(current);
    let (ct, newoff) = step_into(d, off, before, types, glb);
    if ct is Some {
        step_goes_down(d, off, before, types, glb);
        let next = ct->0;
        if (types.dt(next).size as i64).wrapping_sub(newoff) > size_left {
            descent_goes_down(next, newoff, newoff, size_left, types, glb);
        }
    }
}

impl Datatype {
    /// The scope that a space of symbols belongs to.
    pub fn get_map(&self, glb: &Architecture) -> (res: Result<ScopeId>)
        requires
            self.kind is Spacebase,
            glb.symboltab.valid(),
        ensures
            match glb.symboltab.resolved(self.kind->Spacebase_0.scope_id) {
                Some(scope) => res == Ok::<ScopeId, Error>(scope) && scope.0 < glb.symboltab.scopes@.len(),
                None => res matches Err(e) && e.is_lowlevel(
                    "Trying to get scope from unattached Typespacebase"@,
                ),
            },
    {
        let TypeKind::Spacebase(data) = &self.kind else {
            return vstd::pervasive::unreached();
        };
        match glb.symboltab.resolve_scope(data.scope_id) {
            Some(scope) => Ok(scope),
            None => Err(Error::lowlevel("Trying to get scope from unattached Typespacebase")),
        }
    }

    /// The address that an offset into the space stands for.
    pub fn get_address(&self, off: u64, glb: &Architecture) -> (res: Address)
        requires
            self.kind is Spacebase,
            self.kind->Spacebase_0.spaceid is Some,
        ensures
            res == SpaceManager::resolved(self.kind->Spacebase_0.spaceid->0, off),
    {
        let TypeKind::Spacebase(data) = &self.kind else {
            return vstd::pervasive::unreached();
        };
        match &data.spaceid {
            Some(spc) => glb.manager.resolve_constant(spc, off),
            None => vstd::pervasive::unreached(),
        }
    }

    pub fn spacebase_resolve(&self, off: i64, glb: &Architecture) -> (res: (ScopeId, Address))
        requires
            glb.sound(),
            glb.types.rests(*self),
            self.kind is Spacebase,
            supports(*self, glb.types, Some(glb)),
        ensures
            res == self.place_in_space(off, *glb),
            res.0.0 < glb.symboltab.scopes@.len(),
    {
        proof {
            glb.types.parts(*self);
        }
        let TypeKind::Spacebase(data) = &self.kind else {
            return vstd::pervasive::unreached();
        };
        match (&data.spaceid, glb.symboltab.resolve_scope(data.scope_id)) {
            (Some(spc), Some(scope)) => {
                let addr_off: u64 = AddrSpace::byte_to_address(off as u64, spc.get_word_size());
                (scope, glb.manager.resolve_constant(spc, addr_off))
            },
            _ => vstd::pervasive::unreached(),
        }
    }

    fn spacebase_sub_type(&self, off: i64, newoff: &mut i64, glb: &Architecture) -> (res: Option<TypeId>)
        requires
            glb.sound(),
            glb.types.walkable(),
            glb.types.rests(*self),
            self.kind is Spacebase,
            supports(*self, glb.types, Some(glb)),
        ensures
            (res, *final(newoff)) == self.step_into_space(off, *old(newoff), *glb),
    {
        let (scope, addr) = self.spacebase_resolve(off, glb);
        let db = &glb.symboltab;
        match db.scope_query_container(scope, &addr, 1) {
            None => {
                if !db.get_scope(scope).in_scope(&addr, 1) {
                    return None;
                }
                *newoff = 0;
                glb.types.find_base_existing(1, TypeMetatype::Unknown)
            },
            Some(entry_id) => {
                let entry = db.get_entry(entry_id);
                *newoff = (addr.get_offset().wrapping_sub(entry.addr.get_offset()) as i64).wrapping_add(
                    entry.get_offset() as i64,
                );
                assert(db.entries@[entry_id.0 as int].symbol.0 < db.symbols@.len());
                db.get_symbol(entry.get_symbol()).get_type()
            },
        }
    }

    /// The component of the data-type at an offset.
    pub fn sub_type(&self, off: i64, newoff: &mut i64, types: &TypeFactory, glb: Option<&Architecture>) -> (res:
        Option<TypeId>)
        requires
            types.walkable(),
            types.rests(*self),
            types.steady(*self),
            supports(*self, *types, glb),
        ensures
            (res, *final(newoff)) == step_into(*self, off, *old(newoff), *types, glb),
            res is Some ==> types.below(res->0, *self) && !(types.dt(res->0).kind is Spacebase),
        decreases types.above(*self), types.depth_of(*self),
    {
        proof {
            types.parts(*self);
            if step_into(*self, off, *newoff, *types, glb).0 is Some {
                step_goes_down(*self, off, *newoff, *types, glb);
            }
        }
        match &self.kind {
            TypeKind::Pointer(_) | TypeKind::PointerRel(_) => {
                let data = self.pointer_data();
                if let Some(truncate) = data.truncate {
                    let trunc_size: i64 = types.get(truncate).get_size() as i64;
                    let min: i64 = if (self.flags & Datatype::TRUNCATE_BIGENDIAN) != 0 {
                        self.size as i64 - trunc_size
                    } else {
                        0
                    };
                    if off >= min && off < min + trunc_size {
                        *newoff = off - min;
                        return Some(truncate);
                    }
                }
                *newoff = off;
                None
            },
            TypeKind::Array(data) => {
                if off >= self.size as i64 {
                    *newoff = off;
                    return None;
                }
                let arrayof = data.arrayof.unwrap();
                *newoff = off % (types.get(arrayof).get_align_size() as i64);
                Some(arrayof)
            },
            TypeKind::Struct(data) => {
                let index: i32 = self.get_field_iter(off as i32, types);
                if index < 0 {
                    *newoff = off;
                    return None;
                }
                let curfield = &data.field[index as usize];
                *newoff = off.wrapping_sub(curfield.offset as i64);
                Some(curfield.tp)
            },
            TypeKind::PartialStruct(data) => {
                let size_left: i64 = (self.size as i64).wrapping_sub(off);
                let mut cur_off: i64 = off.wrapping_add(data.offset as i64);
                let mut current = data.container;
                let ghost before = *newoff;
                loop
                    invariant
                        before == *old(newoff),
                        types.walkable(),
                        types.member(current),
                        !(types.dt(current).kind is Spacebase),
                        types.depth_of(types.dt(current)) < types.depth_of(*self),
                        types.above(*self) == 0,
                        descend(current, cur_off, *newoff, size_left, *types, glb) == step_into(
                            *self,
                            off,
                            before,
                            *types,
                            glb,
                        ),
                        step_into(*self, off, before, *types, glb).0 is Some ==> types.below(
                            step_into(*self, off, before, *types, glb).0->0,
                            *self,
                        ) && !(types.dt(step_into(*self, off, before, *types, glb).0->0).kind is Spacebase),
                    decreases types.depth_of(types.dt(current)),
                {
                    match types.get(current).sub_type(cur_off, newoff, types, glb) {
                        None => {
                            return None;
                        },
                        Some(next) => {
                            cur_off = *newoff;
                            if (types.get(next).get_size() as i64).wrapping_sub(cur_off) <= size_left {
                                return Some(next);
                            }
                            current = next;
                        },
                    }
                }
            },
            TypeKind::Code(data) => {
                if !data.factory {
                    return None;
                }
                *newoff = 0;
                types.find_base_existing(1, TypeMetatype::Code)
            },
            TypeKind::Spacebase(_) => match glb {
                Some(arch) => self.spacebase_sub_type(off, newoff, arch),
                None => vstd::pervasive::unreached(),
            },
            _ => {
                *newoff = off;
                None
            },
        }
    }

    /// The component of the data-type at an offset, with the symbols of the program.
    pub fn get_sub_type(&self, off: i64, newoff: &mut i64, glb: &Architecture) -> (res: Option<TypeId>)
        requires
            glb.types.walkable(),
            glb.types.rests(*self),
            glb.types.steady(*self),
            supports(*self, glb.types, Some(glb)),
        ensures
            (res, *final(newoff)) == step_into(*self, off, *old(newoff), glb.types, Some(glb)),
            res is Some ==> glb.types.below(res->0, *self) && !(glb.types.dt(res->0).kind is Spacebase),
    {
        self.sub_type(off, newoff, &glb.types, Some(glb))
    }

    /// The component of the data-type at an offset, without symbols.
    pub fn get_sub_type_local(&self, off: i64, newoff: &mut i64, types: &TypeFactory) -> (res: Option<TypeId>)
        requires
            types.walkable(),
            types.rests(*self),
            types.steady(*self),
            !(self.kind is Spacebase),
        ensures
            (res, *final(newoff)) == step_into(*self, off, *old(newoff), *types, None),
            res is Some ==> types.below(res->0, *self) && !(types.dt(res->0).kind is Spacebase),
    {
        self.sub_type(off, newoff, types, None)
    }
}

} // verus!

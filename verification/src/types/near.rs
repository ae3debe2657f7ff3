//! Looking for arrays near an offset into a data-type.
use vstd::prelude::*;
use crate::address::Address;
use crate::architecture::Architecture;
use crate::ids::{ScopeId, TypeId};
use crate::types::{Datatype, Nearest, TypeFactory, TypeKind, TypeMetatype};

verus! {

/// The symbols of the program all have data-types.
pub open spec fn symbols_typed(glb: Architecture) -> bool {
    forall|i: int| #![trigger glb.symboltab.symbols@[i]]
        0 <= i < glb.symboltab.symbols@.len() ==> glb.symboltab.symbols@[i].tp is Some
}

/// The program gives what looking for arrays in a data-type needs.
pub open spec fn supports_search(d: Datatype, types: TypeFactory, glb: Option<&Architecture>) -> bool {
    crate::types::inside::supports(d, types, glb) && (d.kind is Spacebase ==> symbols_typed(*glb->0))
}

/// A bound for the symbols that a search in a space of symbols passes, or for
/// the fields that a search in a structure passes.
pub open spec fn breadth(d: Datatype) -> nat {
    if d.kind is Spacebase {
        0x1_0000_0000_0000_0001
    } else {
        d.fields().len() + 1
    }
}

/// The data-type of a symbol.
pub open spec fn entry_type(glb: Architecture, entry: crate::ids::EntryId) -> TypeId {
    glb.symboltab.symbol(glb.symboltab.entry(entry).symbol).tp->0
}

/// Whether there is an array at or after an offset, and the nearest one.
pub open spec fn near_forward(d: Datatype, off: i64, res: Nearest, types: TypeFactory, glb: Option<&Architecture>) -> (
    bool,
    Nearest,
)
    decreases types.above(d), types.depth_of(d), breadth(d),
    when types.rests(d) && supports_search(d, types, glb)
{
    proof {
        types.parts(d);
    }
    match d.kind {
        TypeKind::Array(data) => if off > 0 {
            (false, res)
        } else {
            (
                true,
                Nearest {
                    distance: 0i64.wrapping_sub(off),
                    offset: off,
                    el_size: types.dt(data.arrayof->0).align_size,
                },
            )
        },
        TypeKind::Struct(data) => {
            let index = crate::types::fields::field_starting(data.field@, (off as i32) as int);
            if index < 0 {
                fields_forward(d, 0, off, 0, res, types, glb)
            } else {
                fields_forward(
                    d,
                    index as nat,
                    off,
                    off.wrapping_sub(data.field@[index].offset as i64),
                    res,
                    types,
                    glb,
                )
            }
        },
        TypeKind::Union(_) => union_forward(d, 0, off, res, types, glb),
        TypeKind::Spacebase(_) => space_forward(d, off, res, types, glb),
        _ => (false, res),
    }
}

/// The search in the fields of a structure from a position on. The first field
/// is searched from the offset `remain`, the others from their start.
pub open spec fn fields_forward(
    d: Datatype,
    i: nat,
    off: i64,
    remain: i64,
    res: Nearest,
    types: TypeFactory,
    glb: Option<&Architecture>,
) -> (bool, Nearest)
    decreases types.above(d), types.depth_of(d), (if i <= d.fields().len() { d.fields().len() - i } else { 0 }) as nat,
    when types.rests(d) && (d.kind is Struct || d.kind is Union)
{
    proof {
        types.parts(d);
    }
    if i < d.fields().len() {
        let field = d.fields()[i as int];
        let diff = (field.offset as i64).wrapping_sub(off);
        let (found, next) = near_forward(types.dt(field.tp), remain, res, types, glb);
        if found {
            (
                true,
                Nearest {
                    distance: next.distance.wrapping_add(diff.wrapping_add(remain)),
                    offset: 0i64.wrapping_sub(diff),
                    el_size: next.el_size,
                },
            )
        } else {
            fields_forward(d, i + 1, off, 0, next, types, glb)
        }
    } else {
        (false, res)
    }
}

/// The search in the fields of a union from a position on.
pub open spec fn union_forward(
    d: Datatype,
    i: nat,
    off: i64,
    res: Nearest,
    types: TypeFactory,
    glb: Option<&Architecture>,
) -> (bool, Nearest)
    decreases types.above(d), types.depth_of(d), (if i <= d.fields().len() { d.fields().len() - i } else { 0 }) as nat,
    when types.rests(d) && (d.kind is Struct || d.kind is Union)
{
    proof {
        types.parts(d);
    }
    if i < d.fields().len() {
        let (found, next) = near_forward(types.dt(d.fields()[i as int].tp), off, res, types, glb);
        if found {
            (true, next)
        } else {
            union_forward(d, i + 1, off, next, types, glb)
        }
    } else {
        (false, res)
    }
}

/// The search in a space of symbols: first in the symbol at the place, then in
/// the symbols after it.
pub open spec fn space_forward(
    d: Datatype,
    off: i64,
    res: Nearest,
    types: TypeFactory,
    glb: Option<&Architecture>,
) -> (bool, Nearest)
    decreases types.above(d), types.depth_of(d), 0x1_0000_0000_0000_0000nat,
    when types.rests(d) && supports_search(d, types, glb) && d.kind is Spacebase
{
    let arch = *glb->0;
    let (scope, addr) = d.place_in_space(off, arch);
    proof {
        crate::types::near::types_of_entries(d, off, arch);
    }
    match arch.symboltab.container(scope, addr, 1) {
        Some(e) if arch.symboltab.entry(e).offset == 0 => {
            let struct_off = addr.offset.wrapping_sub(arch.symboltab.entry(e).addr.offset) as i64;
            let (found, next) = near_forward(types.dt(entry_type(arch, e)), struct_off, res, types, glb);
            if found {
                (true, Nearest { offset: struct_off, ..next })
            } else {
                symbols_forward(d, scope, addr, addr, next, types, glb)
            }
        },
        _ => symbols_forward(d, scope, addr, addr, res, types, glb),
    }
}

/// The search in the symbols after a place.
pub open spec fn symbols_forward(
    d: Datatype,
    scope: ScopeId,
    addr: Address,
    from: Address,
    res: Nearest,
    types: TypeFactory,
    glb: Option<&Architecture>,
) -> (bool, Nearest)
    decreases types.above(d), types.depth_of(d), (u64::MAX - from.offset) as nat,
    when types.rests(d) && supports_search(d, types, glb) && d.kind is Spacebase && scope.0
        < glb->0.symboltab.scopes@.len()
{
    let arch = *glb->0;
    proof {
        if arch.symboltab.entry_after(scope, from) is Some {
            crate::types::near::entry_after_typed(arch, scope, from);
        }
    }
    match arch.symboltab.entry_after(scope, from) {
        None => (false, res),
        Some(e) => {
            let entry = arch.symboltab.entry(e);
            if entry.offset != 0 {
                (false, res)
            } else {
                let tp = entry_type(arch, e);
                let struct_off = addr.offset.wrapping_sub(entry.addr.offset) as i64;
                let (found, inner) = near_forward(types.dt(tp), 0, res, types, glb);
                let next = if found {
                    Nearest {
                        distance: inner.distance.wrapping_sub(struct_off),
                        offset: struct_off,
                        el_size: inner.el_size,
                    }
                } else {
                    inner
                };
                if found && next.distance > Datatype::MAX_ARRAY_SLACK_FORWARD {
                    (false, next)
                } else if found && (next.distance <= types.dt(tp).size || types.dt(tp).metatype is Array) {
                    (true, next)
                } else if entry.addr.offset.wrapping_sub(addr.offset) >= Datatype::MAX_ARRAY_SLACK_FORWARD {
                    (false, next)
                } else {
                    symbols_forward(d, scope, addr, entry.addr, next, types, glb)
                }
            }
        },
    }
}

/// The data-type of the symbol at a place is no space of symbols.
pub proof fn types_of_entries(d: Datatype, off: i64, arch: Architecture)
    requires
        arch.types.sound(),
        arch.types.rests(d),
        supports_search(d, arch.types, Some(&arch)),
        d.kind is Spacebase,
    ensures
        d.place_in_space(off, arch).0.0 < arch.symboltab.scopes@.len(),
        arch.symboltab.container(d.place_in_space(off, arch).0, d.place_in_space(off, arch).1, 1) matches Some(e) ==> {
            &&& arch.types.member(entry_type(arch, e))
            &&& !(arch.types.dt(entry_type(arch, e)).kind is Spacebase)
        },
{
    let (scope, addr) = d.place_in_space(off, arch);
    let db = arch.symboltab;
    crate::types::inside::scope_is_inside(db, d.kind->Spacebase_0.scope_id, db.scopes@.len());
    if db.container(scope, addr, 1) is Some {
        crate::types::inside::container_is_entry(db, scope, addr, 1, db.scope(scope).entries@.len());
        let e = db.container(scope, addr, 1)->0;
        entry_is_typed(arch, e);
    }
}

proof fn entry_is_typed(arch: Architecture, e: crate::ids::EntryId)
    requires
        arch.sound(),
        symbols_typed(arch),
        e.0 < arch.symboltab.entries@.len(),
    ensures
        arch.types.member(entry_type(arch, e)),
        !(arch.types.dt(entry_type(arch, e)).kind is Spacebase),
{
    let db = arch.symboltab;
    assert(db.entries@[e.0 as int].symbol.0 < db.symbols@.len());
    let symbol = db.symbols@[db.entry(e).symbol.0 as int];
    assert(arch.symbol_type_valid(symbol.tp));
    arch.types.look(symbol.tp->0);
}

/// The symbol after a place has a data-type that is no space of symbols.
pub proof fn entry_after_typed(arch: Architecture, scope: ScopeId, from: Address)
    requires
        arch.sound(),
        symbols_typed(arch),
        scope.0 < arch.symboltab.scopes@.len(),
        arch.symboltab.entry_after(scope, from) is Some,
    ensures
        (arch.symboltab.entry_after(scope, from)->0).0 < arch.symboltab.entries@.len(),
        arch.symboltab.entry(arch.symboltab.entry_after(scope, from)->0).addr.offset > from.offset,
        arch.types.member(entry_type(arch, arch.symboltab.entry_after(scope, from)->0)),
        !(arch.types.dt(entry_type(arch, arch.symboltab.entry_after(scope, from)->0)).kind is Spacebase),
{
    after_is_entry(arch.symboltab, scope, from, arch.symboltab.scope(scope).entries@.len());
    entry_is_typed(arch, arch.symboltab.entry_after(scope, from)->0);
}

proof fn after_is_entry(db: crate::database::Database, scope: ScopeId, from: Address, n: nat)
    requires
        db.valid(),
        scope.0 < db.scopes@.len(),
        n <= db.scope(scope).entries@.len(),
        db.nearest_after(scope, from, n) is Some,
    ensures
        (db.nearest_after(scope, from, n)->0).0 < db.entries@.len(),
        db.entry(db.nearest_after(scope, from, n)->0).addr.offset > from.offset,
    decreases n,
{
    if n > 0 {
        let e = db.scopes@[scope.0 as int].entries@[n - 1];
        if db.nearest_after(scope, from, (n - 1) as nat) is Some {
            after_is_entry(db, scope, from, (n - 1) as nat);
        }
    }
}

/// The symbol before a place has a data-type that is no space of symbols.
pub proof fn entry_before_typed(arch: Architecture, scope: ScopeId, from: Address)
    requires
        arch.sound(),
        symbols_typed(arch),
        scope.0 < arch.symboltab.scopes@.len(),
        arch.symboltab.entry_before(scope, from) is Some,
    ensures
        (arch.symboltab.entry_before(scope, from)->0).0 < arch.symboltab.entries@.len(),
        arch.symboltab.entry(arch.symboltab.entry_before(scope, from)->0).addr.offset < from.offset,
        arch.types.member(entry_type(arch, arch.symboltab.entry_before(scope, from)->0)),
        !(arch.types.dt(entry_type(arch, arch.symboltab.entry_before(scope, from)->0)).kind is Spacebase),
{
    before_is_entry(arch.symboltab, scope, from, arch.symboltab.scope(scope).entries@.len());
    entry_is_typed(arch, arch.symboltab.entry_before(scope, from)->0);
}

proof fn before_is_entry(db: crate::database::Database, scope: ScopeId, from: Address, n: nat)
    requires
        db.valid(),
        scope.0 < db.scopes@.len(),
        n <= db.scope(scope).entries@.len(),
        db.nearest_before(scope, from, n) is Some,
    ensures
        (db.nearest_before(scope, from, n)->0).0 < db.entries@.len(),
        db.entry(db.nearest_before(scope, from, n)->0).addr.offset < from.offset,
    decreases n,
{
    if n > 0 {
        let e = db.scopes@[scope.0 as int].entries@[n - 1];
        if db.nearest_before(scope, from, (n - 1) as nat) is Some {
            before_is_entry(db, scope, from, (n - 1) as nat);
        }
    }
}

/// Whether there is an array at or before an offset, and the nearest one.
pub open spec fn near_backward(d: Datatype, off: i64, res: Nearest, types: TypeFactory, glb: Option<&Architecture>) -> (
    bool,
    Nearest,
)
    decreases types.above(d), types.depth_of(d), breadth(d),
    when types.rests(d) && supports_search(d, types, glb)
{
    proof {
        types.parts(d);
        crate::types::fields::starter_starts(d.fields(), (off as i32) as int, d.fields().len());
    }
    match d.kind {
        TypeKind::Array(data) => if off < 0 {
            (false, res)
        } else {
            (
                true,
                Nearest {
                    distance: (if off < d.size { 0 } else { off - d.size }) as i64,
                    offset: off,
                    el_size: types.dt(data.arrayof->0).align_size,
                },
            )
        },
        TypeKind::Struct(data) => {
            let first = crate::types::fields::field_starting(data.field@, (off as i32) as int);
            if first < 0 {
                (false, res)
            } else {
                fields_backward(d, first as nat, first as nat, off, res, types, glb)
            }
        },
        TypeKind::Union(_) => union_backward(d, 0, off, res, types, glb),
        TypeKind::Spacebase(_) => space_backward(d, off, res, types, glb),
        _ => (false, res),
    }
}

/// The search in the fields of a structure from a position down. The first field
/// is searched from the offset, the others from their end.
pub open spec fn fields_backward(
    d: Datatype,
    i: nat,
    first: nat,
    off: i64,
    res: Nearest,
    types: TypeFactory,
    glb: Option<&Architecture>,
) -> (bool, Nearest)
    decreases types.above(d), types.depth_of(d), i,
    when types.rests(d) && (d.kind is Struct || d.kind is Union) && i < d.fields().len()
{
    proof {
        types.parts(d);
    }
    let field = d.fields()[i as int];
    let diff = off.wrapping_sub(field.offset as i64);
    let remain = if i == first {
        diff
    } else {
        types.dt(field.tp).size as i64
    };
    let (found, next) = near_backward(types.dt(field.tp), remain, res, types, glb);
    if found {
        (
            true,
            Nearest {
                distance: next.distance.wrapping_add(diff.wrapping_sub(remain)),
                offset: diff,
                el_size: next.el_size,
            },
        )
    } else if i == 0 {
        (false, next)
    } else {
        fields_backward(d, (i - 1) as nat, first, off, next, types, glb)
    }
}

/// The search in the fields of a union from a position on.
pub open spec fn union_backward(
    d: Datatype,
    i: nat,
    off: i64,
    res: Nearest,
    types: TypeFactory,
    glb: Option<&Architecture>,
) -> (bool, Nearest)
    decreases types.above(d), types.depth_of(d), (if i <= d.fields().len() { d.fields().len() - i } else { 0 }) as nat,
    when types.rests(d) && (d.kind is Struct || d.kind is Union)
{
    proof {
        types.parts(d);
    }
    if i < d.fields().len() {
        let (found, next) = near_backward(types.dt(d.fields()[i as int].tp), off, res, types, glb);
        if found {
            (true, next)
        } else {
            union_backward(d, i + 1, off, next, types, glb)
        }
    } else {
        (false, res)
    }
}

/// The search in a space of symbols: first in the symbol at the place, then in
/// the symbols before it. It goes less far back if a symbol starts at the place.
pub open spec fn space_backward(
    d: Datatype,
    off: i64,
    res: Nearest,
    types: TypeFactory,
    glb: Option<&Architecture>,
) -> (bool, Nearest)
    decreases types.above(d), types.depth_of(d), 0x1_0000_0000_0000_0000nat,
    when types.rests(d) && supports_search(d, types, glb) && d.kind is Spacebase
{
    let arch = *glb->0;
    let (scope, addr) = d.place_in_space(off, arch);
    proof {
        crate::types::near::types_of_entries(d, off, arch);
    }
    match arch.symboltab.container(scope, addr, 1) {
        Some(e) if arch.symboltab.entry(e).offset == 0 => {
            let struct_off = addr.offset.wrapping_sub(arch.symboltab.entry(e).addr.offset) as i64;
            let (found, next) = near_backward(types.dt(entry_type(arch, e)), struct_off, res, types, glb);
            if found {
                (true, Nearest { offset: struct_off, ..next })
            } else {
                symbols_backward(
                    d,
                    scope,
                    addr,
                    addr,
                    Datatype::MAX_ARRAY_SLACK_BACKWARD as int,
                    next,
                    types,
                    glb,
                )
            }
        },
        _ => symbols_backward(d, scope, addr, addr, Datatype::MAX_ARRAY_SLACK_FORWARD as int, res, types, glb),
    }
}

/// The search in the symbols before a place.
pub open spec fn symbols_backward(
    d: Datatype,
    scope: ScopeId,
    addr: Address,
    from: Address,
    max: int,
    res: Nearest,
    types: TypeFactory,
    glb: Option<&Architecture>,
) -> (bool, Nearest)
    decreases types.above(d), types.depth_of(d), from.offset as nat,
    when types.rests(d) && supports_search(d, types, glb) && d.kind is Spacebase && scope.0
        < glb->0.symboltab.scopes@.len()
{
    let arch = *glb->0;
    proof {
        if arch.symboltab.entry_before(scope, from) is Some {
            crate::types::near::entry_before_typed(arch, scope, from);
        }
    }
    match arch.symboltab.entry_before(scope, from) {
        None => (false, res),
        Some(e) => {
            let entry = arch.symboltab.entry(e);
            if entry.offset != 0 {
                (false, res)
            } else {
                let tp = entry_type(arch, e);
                let struct_off = addr.offset.wrapping_sub(entry.addr.offset) as i64;
                let (found, inner) = near_backward(types.dt(tp), types.dt(tp).size as i64, res, types, glb);
                let next = if found {
                    Nearest {
                        distance: inner.distance.wrapping_add(struct_off).wrapping_sub(
                            types.dt(tp).size as i64,
                        ),
                        offset: struct_off,
                        el_size: inner.el_size,
                    }
                } else {
                    inner
                };
                if found && next.distance > max {
                    (false, next)
                } else if found && (next.distance <= types.dt(tp).size || types.dt(tp).metatype is Array) {
                    (true, next)
                } else if addr.offset.wrapping_sub(entry.addr.offset) >= max {
                    (false, next)
                } else {
                    symbols_backward(d, scope, addr, entry.addr, max, next, types, glb)
                }
            }
        },
    }
}

impl Datatype {
    /// Looks for an array at or after an offset.
    pub fn nearest_forward(&self, off: i64, res: &mut Nearest, types: &TypeFactory, glb: Option<&Architecture>) -> (
        found: bool)
        requires
            types.sound(),
            types.rests(*self),
            supports_search(*self, *types, glb),
        ensures
            (found, *final(res)) == near_forward(*self, off, *old(res), *types, glb),
        decreases types.above(*self), types.depth_of(*self), 1nat,
    {
        proof {
            types.parts(*self);
        }
        match &self.kind {
            TypeKind::Array(data) => {
                if off > 0 {
                    return false;
                }
                res.offset = off;
                res.el_size = types.get(data.arrayof.unwrap()).get_align_size();
                res.distance = 0i64.wrapping_sub(off);
                true
            },
            TypeKind::Struct(data) => {
                let start: i32 = self.get_lower_bound_field(off as i32, types);
                let mut index: usize = 0;
                let mut remain: i64 = 0;
                if start >= 0 {
                    index = start as usize;
                    remain = off.wrapping_sub(data.field[index].offset as i64);
                }
                while index < data.field.len()
                    invariant
                        types.sound(),
                        types.rests(*self),
                        types.linked(*self),
                        self.kind is Struct,
                        data.field@ == self.fields(),
                        types.above(*self) == 0,
                        index <= data.field@.len(),
                        fields_forward(*self, index as nat, off, remain, *res, *types, glb) == near_forward(
                            *self,
                            off,
                            *old(res),
                            *types,
                            glb,
                        ),
                    decreases data.field@.len() - index,
                {
                    let subfield = &data.field[index];
                    let diff: i64 = (subfield.offset as i64).wrapping_sub(off);
                    let subtype = types.get(subfield.tp);
                    if subtype.nearest_forward(remain, res, types, glb) {
                        res.distance = res.distance.wrapping_add(diff.wrapping_add(remain));
                        res.offset = 0i64.wrapping_sub(diff);
                        return true;
                    }
                    index = index + 1;
                    remain = 0;
                }
                false
            },
            TypeKind::Union(data) => {
                let mut index: usize = 0;
                while index < data.field.len()
                    invariant
                        types.sound(),
                        types.rests(*self),
                        types.linked(*self),
                        self.kind is Union,
                        data.field@ == self.fields(),
                        types.above(*self) == 0,
                        index <= data.field@.len(),
                        union_forward(*self, index as nat, off, *res, *types, glb) == near_forward(
                            *self,
                            off,
                            *old(res),
                            *types,
                            glb,
                        ),
                    decreases data.field@.len() - index,
                {
                    if types.get(data.field[index].tp).nearest_forward(off, res, types, glb) {
                        return true;
                    }
                    index = index + 1;
                }
                false
            },
            TypeKind::Spacebase(_) => match glb {
                Some(arch) => self.spacebase_nearest_forward(off, res, arch),
                None => vstd::pervasive::unreached(),
            },
            _ => false,
        }
    }

    fn spacebase_nearest_forward(&self, off: i64, res: &mut Nearest, glb: &Architecture) -> (found: bool)
        requires
            glb.types.sound(),
            glb.types.rests(*self),
            self.kind is Spacebase,
            supports_search(*self, glb.types, Some(glb)),
        ensures
            (found, *final(res)) == space_forward(*self, off, *old(res), glb.types, Some(glb)),
        decreases glb.types.above(*self), glb.types.depth_of(*self), 0nat,
    {
        proof {
            types_of_entries(*self, off, *glb);
        }
        let (scope, addr) = self.spacebase_resolve(off, glb);
        let db = &glb.symboltab;
        let types = &glb.types;
        if let Some(entry_id) = db.scope_query_container(scope, &addr, 1) {
            let entry = db.get_entry(entry_id);
            if entry.get_offset() == 0 {
                proof {
                    entry_is_typed(*glb, entry_id);
                    assert(db.entries@[entry_id.0 as int].symbol.0 < db.symbols@.len());
                }
                let symbol_type = db.get_symbol(entry.get_symbol()).get_type().unwrap();
                let struct_off: i64 = addr.get_offset().wrapping_sub(entry.addr.get_offset()) as i64;
                if types.get(symbol_type).nearest_forward(struct_off, res, types, Some(glb)) {
                    res.offset = struct_off;
                    return true;
                }
            }
        }
        let mut next_addr = addr.copy();
        loop
            invariant
                glb.sound(),
                *types == glb.types,
                *db == glb.symboltab,
                types.rests(*self),
                self.kind is Spacebase,
                types.above(*self) == 1,
                supports_search(*self, *types, Some(glb)),
                scope.0 < db.scopes@.len(),
                symbols_forward(*self, scope, addr, next_addr, *res, *types, Some(glb)) == space_forward(
                    *self,
                    off,
                    *old(res),
                    *types,
                    Some(glb),
                ),
            decreases u64::MAX - next_addr.offset,
        {
            let Some(entry_id) = db.scope_find_symbol_after(scope, &next_addr) else {
                return false;
            };
            let entry = db.get_entry(entry_id);
            if entry.get_offset() != 0 {
                return false;
            }
            proof {
                entry_is_typed(*glb, entry_id);
                assert(db.entries@[entry_id.0 as int].symbol.0 < db.symbols@.len());
            }
            next_addr = entry.addr.copy();
            let symbol_type = db.get_symbol(entry.get_symbol()).get_type().unwrap();
            let struct_off: i64 = addr.get_offset().wrapping_sub(next_addr.get_offset()) as i64;
            let symbol_dt = types.get(symbol_type);
            if symbol_dt.nearest_forward(0, res, types, Some(glb)) {
                res.distance = res.distance.wrapping_sub(struct_off);
                res.offset = struct_off;
                if res.distance > Datatype::MAX_ARRAY_SLACK_FORWARD as i64 {
                    return false;
                }
                if res.distance <= symbol_dt.get_size() as i64 || symbol_dt.get_metatype() == TypeMetatype::Array {
                    return true;
                }
            }
            if next_addr.get_offset().wrapping_sub(addr.get_offset()) >= Datatype::MAX_ARRAY_SLACK_FORWARD as u64 {
                return false;
            }
        }
    }

    /// Looks for an array at or before an offset.
    pub fn nearest_backward(&self, off: i64, res: &mut Nearest, types: &TypeFactory, glb: Option<&Architecture>) -> (
        found: bool)
        requires
            types.sound(),
            types.rests(*self),
            supports_search(*self, *types, glb),
        ensures
            (found, *final(res)) == near_backward(*self, off, *old(res), *types, glb),
        decreases types.above(*self), types.depth_of(*self), 1nat,
    {
        proof {
            types.parts(*self);
        }
        match &self.kind {
            TypeKind::Array(data) => {
                if off < 0 {
                    return false;
                }
                res.offset = off;
                res.el_size = types.get(data.arrayof.unwrap()).get_align_size();
                if off < self.size as i64 {
                    res.distance = 0;
                } else {
                    res.distance = off - self.size as i64;
                }
                true
            },
            TypeKind::Struct(data) => {
                let first_index: i32 = self.get_lower_bound_field(off as i32, types);
                let mut index: i32 = first_index;
                while index >= 0
                    invariant
                        types.sound(),
                        types.rests(*self),
                        types.linked(*self),
                        self.kind is Struct,
                        data.field@ == self.fields(),
                        types.above(*self) == 0,
                        -1 <= index < data.field@.len(),
                        index >= 0 ==> first_index >= 0 && fields_backward(
                            *self,
                            index as nat,
                            first_index as nat,
                            off,
                            *res,
                            *types,
                            glb,
                        ) == near_backward(*self, off, *old(res), *types, glb),
                        index < 0 ==> (false, *res) == near_backward(*self, off, *old(res), *types, glb),
                    decreases index + 1,
                {
                    let subfield = &data.field[index as usize];
                    let diff: i64 = off.wrapping_sub(subfield.offset as i64);
                    let subtype = types.get(subfield.tp);
                    let remain: i64 = if index == first_index {
                        diff
                    } else {
                        subtype.get_size() as i64
                    };
                    if subtype.nearest_backward(remain, res, types, glb) {
                        res.distance = res.distance.wrapping_add(diff.wrapping_sub(remain));
                        res.offset = diff;
                        return true;
                    }
                    index = index - 1;
                }
                false
            },
            TypeKind::Union(data) => {
                let mut index: usize = 0;
                while index < data.field.len()
                    invariant
                        types.sound(),
                        types.rests(*self),
                        types.linked(*self),
                        self.kind is Union,
                        data.field@ == self.fields(),
                        types.above(*self) == 0,
                        index <= data.field@.len(),
                        union_backward(*self, index as nat, off, *res, *types, glb) == near_backward(
                            *self,
                            off,
                            *old(res),
                            *types,
                            glb,
                        ),
                    decreases data.field@.len() - index,
                {
                    if types.get(data.field[index].tp).nearest_backward(off, res, types, glb) {
                        return true;
                    }
                    index = index + 1;
                }
                false
            },
            TypeKind::Spacebase(_) => match glb {
                Some(arch) => self.spacebase_nearest_backward(off, res, arch),
                None => vstd::pervasive::unreached(),
            },
            _ => false,
        }
    }

    fn spacebase_nearest_backward(&self, off: i64, res: &mut Nearest, glb: &Architecture) -> (found: bool)
        requires
            glb.types.sound(),
            glb.types.rests(*self),
            self.kind is Spacebase,
            supports_search(*self, glb.types, Some(glb)),
        ensures
            (found, *final(res)) == space_backward(*self, off, *old(res), glb.types, Some(glb)),
        decreases glb.types.above(*self), glb.types.depth_of(*self), 0nat,
    {
        proof {
            types_of_entries(*self, off, *glb);
        }
        let (scope, addr) = self.spacebase_resolve(off, glb);
        let db = &glb.symboltab;
        let types = &glb.types;
        let mut max: i32 = Datatype::MAX_ARRAY_SLACK_FORWARD;
        if let Some(entry_id) = db.scope_query_container(scope, &addr, 1) {
            let entry = db.get_entry(entry_id);
            if entry.get_offset() == 0 {
                max = Datatype::MAX_ARRAY_SLACK_BACKWARD;
                proof {
                    entry_is_typed(*glb, entry_id);
                    assert(db.entries@[entry_id.0 as int].symbol.0 < db.symbols@.len());
                }
                let symbol_type = db.get_symbol(entry.get_symbol()).get_type().unwrap();
                let struct_off: i64 = addr.get_offset().wrapping_sub(entry.addr.get_offset()) as i64;
                if types.get(symbol_type).nearest_backward(struct_off, res, types, Some(glb)) {
                    res.offset = struct_off;
                    return true;
                }
            }
        }
        let mut next_addr = addr.copy();
        loop
            invariant
                glb.sound(),
                *types == glb.types,
                *db == glb.symboltab,
                types.rests(*self),
                self.kind is Spacebase,
                types.above(*self) == 1,
                supports_search(*self, *types, Some(glb)),
                scope.0 < db.scopes@.len(),
                0 <= max <= 128,
                symbols_backward(*self, scope, addr, next_addr, max as int, *res, *types, Some(glb))
                    == space_backward(*self, off, *old(res), *types, Some(glb)),
            decreases next_addr.offset,
        {
            let Some(entry_id) = db.scope_find_symbol_before(scope, &next_addr) else {
                return false;
            };
            let entry = db.get_entry(entry_id);
            if entry.get_offset() != 0 {
                return false;
            }
            proof {
                entry_is_typed(*glb, entry_id);
                assert(db.entries@[entry_id.0 as int].symbol.0 < db.symbols@.len());
            }
            let symbol_type = db.get_symbol(entry.get_symbol()).get_type().unwrap();
            next_addr = entry.addr.copy();
            let struct_off: i64 = addr.get_offset().wrapping_sub(next_addr.get_offset()) as i64;
            let symbol_dt = types.get(symbol_type);
            if symbol_dt.nearest_backward(symbol_dt.get_size() as i64, res, types, Some(glb)) {
                res.distance = res.distance.wrapping_add(struct_off).wrapping_sub(symbol_dt.get_size() as i64);
                res.offset = struct_off;
                if res.distance > max as i64 {
                    return false;
                }
                if res.distance <= symbol_dt.get_size() as i64 || symbol_dt.get_metatype() == TypeMetatype::Array {
                    return true;
                }
            }
            if addr.get_offset().wrapping_sub(next_addr.get_offset()) >= max as u64 {
                return false;
            }
        }
    }

    pub fn nearest_arrayed_component_forward(&self, off: i64, res: &mut Nearest, glb: &Architecture) -> (found: bool)
        requires
            glb.types.sound(),
            glb.types.rests(*self),
            supports_search(*self, glb.types, Some(glb)),
        ensures
            (found, *final(res)) == near_forward(*self, off, *old(res), glb.types, Some(glb)),
    {
        self.nearest_forward(off, res, &glb.types, Some(glb))
    }

    pub fn nearest_arrayed_component_backward(&self, off: i64, res: &mut Nearest, glb: &Architecture) -> (found: bool)
        requires
            glb.types.sound(),
            glb.types.rests(*self),
            supports_search(*self, glb.types, Some(glb)),
        ensures
            (found, *final(res)) == near_backward(*self, off, *old(res), glb.types, Some(glb)),
    {
        self.nearest_backward(off, res, &glb.types, Some(glb))
    }

    /// Whether an offset beside the data-type can be an index into an array of it.
    pub open spec fn slack(self, off: i64, types: TypeFactory, glb: Option<&Architecture>) -> bool {
        self.metatype is Array || (if off < 0 {
            near_forward(self, off, Nearest { distance: 0, offset: 0, el_size: 0 }, types, glb).0
        } else {
            near_backward(self, off, Nearest { distance: 0, offset: 0, el_size: 0 }, types, glb).0
        })
    }

    pub fn array_slack(&self, off: i64, types: &TypeFactory, glb: Option<&Architecture>) -> (res: bool)
        requires
            types.sound(),
            types.rests(*self),
            supports_search(*self, *types, glb),
        ensures
            res == self.slack(off, *types, glb),
    {
        if self.metatype == TypeMetatype::Array {
            return true;
        }
        let mut near = Nearest { distance: 0, offset: 0, el_size: 0 };
        if off < 0 {
            return self.nearest_forward(off, &mut near, types, glb);
        }
        self.nearest_backward(off, &mut near, types, glb)
    }

    pub fn test_for_array_slack(&self, off: i64, glb: &Architecture) -> (res: bool)
        requires
            glb.types.sound(),
            glb.types.rests(*self),
            supports_search(*self, glb.types, Some(glb)),
        ensures
            res == self.slack(off, glb.types, Some(glb)),
    {
        self.array_slack(off, &glb.types, Some(glb))
    }

    /// The offset into the nearest array around an offset: the one whose
    /// elements have the expected size, or the one that the offset leads into,
    /// or else the nearer one.
    pub open spec fn near_array(
        self,
        off: i64,
        array_hint: u32,
        newoff: i64,
        types: TypeFactory,
        glb: Option<&Architecture>,
    ) -> (bool, i64) {
        let none = Nearest { distance: 0, offset: 0, el_size: 0 };
        let (has_before, before) = near_backward(self, off, none, types, glb);
        let (has_after, after) = near_forward(self, off, none, types, glb);
        if !has_before && !has_after {
            (false, newoff)
        } else if !has_before {
            (true, after.offset)
        } else if !has_after {
            (true, before.offset)
        } else if array_hint != 1 && before.el_size != after.el_size && before.el_size as u32 == array_hint {
            (true, before.offset)
        } else if array_hint != 1 && before.el_size != after.el_size && after.el_size as u32 == array_hint {
            (true, after.offset)
        } else {
            let (inner, inner_off) = crate::types::inside::step_into(self, off, newoff, types, glb);
            if inner is Some && (inner_off == before.offset || inner_off == after.offset) {
                (true, inner_off)
            } else if after.distance <= before.distance {
                (true, after.offset)
            } else {
                (true, before.offset)
            }
        }
    }

    pub fn nearest_arrayed_component(&self, off: i64, array_hint: u32, newoff: &mut i64, glb: &Architecture) -> (res:
        bool)
        requires
            glb.types.walkable(),
            glb.types.rests(*self),
            glb.types.steady(*self),
            supports_search(*self, glb.types, Some(glb)),
        ensures
            (res, *final(newoff)) == self.near_array(off, array_hint, *old(newoff), glb.types, Some(glb)),
    {
        let types = &glb.types;
        let mut before = Nearest { distance: 0, offset: 0, el_size: 0 };
        let mut after = Nearest { distance: 0, offset: 0, el_size: 0 };
        let type_before = self.nearest_backward(off, &mut before, types, Some(glb));
        let type_after = self.nearest_forward(off, &mut after, types, Some(glb));
        if !type_before && !type_after {
            return false;
        }
        if !type_before {
            *newoff = after.offset;
            return true;
        }
        if !type_after {
            *newoff = before.offset;
            return true;
        }
        if array_hint != 1 && before.el_size != after.el_size {
            if before.el_size as u32 == array_hint {
                *newoff = before.offset;
                return true;
            }
            if after.el_size as u32 == array_hint {
                *newoff = after.offset;
                return true;
            }
        }
        if self.sub_type(off, newoff, types, Some(glb)).is_some() && (*newoff == before.offset || *newoff
            == after.offset) {
            return true;
        }
        *newoff = if after.distance <= before.distance {
            after.offset
        } else {
            before.offset
        };
        true
    }
}

} // verus!

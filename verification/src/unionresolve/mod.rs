//! Which field of a union a value is read or written as.
pub mod cache;
pub mod fit;
pub mod judge;
pub mod pick;
pub mod score;
pub mod tables;

pub use crate::unionresolve::cache::{ResolveCache, ResolveCacheRecord};
pub use crate::unionresolve::judge::{Trial, TrialDirection};
pub use crate::unionresolve::score::{ScoreUnionFields, VisitMark};
use vstd::prelude::*;
use crate::address::Address;
use crate::architecture::Architecture;
use crate::error::{Error, Result};
use crate::fspec::FuncProto;
use crate::funcdata::Funcdata;
use crate::ids::{OpId, TypeId, VarnodeId};
use crate::types::{TypeFactory, TypeKind, TypeMetatype};

verus! {

/// How a value is read or written: as which data-type, and as which field of a union.
#[derive(Copy, Clone, Debug, PartialEq, Eq, Structural)]
pub struct ResolvedUnion {
    pub resolve: TypeId,
    pub base_type: TypeId,
    pub field_num: i32,
    pub lock: bool,
}

/// Where a union is read or written.
#[derive(Copy, Clone, Debug, PartialEq, Eq, Structural)]
pub struct ResolveEdge {
    pub type_id: u64,
    pub op_time: u32,
    pub encoding: i32,
}

/// The union behind a data-type: what a pointer points to, what a part is a part of.
pub open spec fn union_behind(tp: TypeId, types: TypeFactory) -> TypeId {
    match types.dt(tp).kind {
        TypeKind::Pointer(_) | TypeKind::PointerRel(_) => types.dt(tp).pointer().ptrto->0,
        TypeKind::PartialUnion(data) => data.container,
        _ => tp,
    }
}

pub fn union_of(tp: TypeId, types: &TypeFactory) -> (res: TypeId)
    requires
        types.sound(),
        types.has(tp),
        types.dt(tp).genuine(),
    ensures
        res == union_behind(tp, *types),
        types.member(res),
{
    proof {
        types.look(tp);
        types.parts(types.dt(tp));
    }
    let dt = types.get(tp);
    if dt.get_metatype() == TypeMetatype::Ptr {
        dt.get_ptr_to()
    } else if dt.get_metatype() == TypeMetatype::PartialUnion {
        dt.get_parent_union()
    } else {
        tp
    }
}

/// What finding out how a field of a union is read as a data-type does.
pub open spec fn resolves_field(
    after: Architecture,
    before: Architecture,
    tp: TypeId,
    fld_num: i32,
    res: Result<TypeId>,
) -> bool {
    let d = before.types.dt(tp);
    let field = crate::types::walk::component(before.types.dt(union_behind(tp, before.types)), fld_num as int, before.types);
    match d.kind {
        TypeKind::PartialUnion(data) => if fld_num < 0 {
            after == before && res == Ok::<TypeId, Error>(data.stripped)
        } else {
            &&& after.same_program(before)
            &&& exists|made: Result<Option<TypeId>>| #[trigger]
                after.types.makes_piece(before.types, field->0, data.offset, d.size, made) && match made {
                    Ok(Some(piece)) => res == Ok::<TypeId, Error>(piece),
                    Ok(None) => res == Ok::<TypeId, Error>(data.stripped),
                    Err(e) => res == Err::<TypeId, Error>(e),
                }
        },
        TypeKind::Pointer(_) | TypeKind::PointerRel(_) => if fld_num < 0 {
            after == before && res == Ok::<TypeId, Error>(tp)
        } else {
            &&& after.same_program(before)
            &&& after.types.makes_pointer(
                before.types,
                d.size,
                crate::types::pointers::plain_pointer(
                    before.types.element_form(field->0),
                    d.pointer().wordsize,
                ),
                Seq::empty(),
                0,
                res,
            )
        },
        _ => after == before && res == Ok::<TypeId, Error>(
            if fld_num < 0 {
                tp
            } else {
                field->0
            },
        ),
    }
}

/// A field number that a data-type can be read by.
pub open spec fn has_component(tp: TypeId, fld_num: i32, types: TypeFactory) -> bool {
    let d = types.dt(union_behind(tp, types));
    fld_num >= 0 ==> {
        &&& fld_num < crate::types::walk::component_count(d, types)
        &&& crate::types::walk::component(d, fld_num as int, types) is Some
    }
}

impl ResolvedUnion {
    /// The resolution of a union that leaves it as it is.
    pub open spec fn unresolved(tp: TypeId, types: TypeFactory) -> ResolvedUnion {
        ResolvedUnion { resolve: tp, base_type: union_behind(tp, types), field_num: -1i32, lock: false }
    }

    pub fn new(unres_type: TypeId, types: &TypeFactory) -> (res: ResolvedUnion)
        requires
            types.sound(),
            types.has(unres_type),
            types.dt(unres_type).genuine(),
        ensures
            res == ResolvedUnion::unresolved(unres_type, *types),
            types.member(res.base_type),
    {
        ResolvedUnion { resolve: unres_type, base_type: union_of(unres_type, types), field_num: -1, lock: false }
    }

    /// The resolution of a union as one of its fields.
    pub fn new_field(unres_type: TypeId, fld_num: i32, glb: &mut Architecture) -> (res: Result<ResolvedUnion>)
        requires
            old(glb).workable(),
            old(glb).roomy(3),
            old(glb).types.has(unres_type),
            old(glb).types.dt(unres_type).kind is PartialUnion ==> old(glb).types.dt(unres_type).size < 0x1000_0000,
            has_component(unres_type, fld_num, old(glb).types),
        ensures
            final(glb).grew(*old(glb)),
            exists|resolve: Result<TypeId>| #[trigger]
                resolves_field(*final(glb), *old(glb), unres_type, fld_num, resolve) && match resolve {
                    Ok(tp) => final(glb).types.has(tp) && res == Ok::<ResolvedUnion, Error>(
                        ResolvedUnion {
                            resolve: tp,
                            base_type: union_behind(unres_type, old(glb).types),
                            field_num: fld_num,
                            lock: false,
                        },
                    ),
                    Err(e) => res == Err::<ResolvedUnion, Error>(e),
                },
    {
        let ghost before = *glb;
        proof {
            glb.types.look(unres_type);
            glb.types.parts(glb.types.dt(unres_type));
            crate::types::suit::grew_never(*glb);
            assert(glb.suits(glb.types.dt(unres_type)));
        }
        let base_type = union_of(unres_type, &glb.types);
        let dt = glb.types.get(unres_type);
        let meta = dt.get_metatype();
        let resolve: Result<TypeId> = if meta == TypeMetatype::PartialUnion {
            let stripped = dt.get_stripped().unwrap();
            if fld_num < 0 {
                Ok(stripped)
            } else {
                let offset: i32 = dt.get_offset();
                let size: i32 = dt.get_size();
                proof {
                    glb.types.parts(glb.types.dt(base_type));
                }
                let field_type = glb.types.get(base_type).get_field(fld_num).tp;
                proof {
                    crate::types::suit::cuts_easily(*glb, field_type, offset, size);
                }
                let made = glb.piece_of(field_type, offset, size);
                proof {
                    assert(glb.types.makes_piece(before.types, field_type, offset, size, made));
                    assert(glb.types.has(stripped));
                }
                match made {
                    Ok(Some(piece)) => Ok(piece),
                    Ok(None) => Ok(stripped),
                    Err(e) => Err(e),
                }
            }
        } else if meta == TypeMetatype::Ptr {
            if fld_num < 0 {
                Ok(unres_type)
            } else {
                let size: i32 = dt.get_size();
                let wordsize: u32 = dt.get_word_size();
                assert(glb.suits(glb.types.dt(unres_type)));
                let field = glb.types.get(base_type).get_depend(fld_num, &glb.types).unwrap();
                glb.element_pointer(size, field, wordsize)
            }
        } else {
            if fld_num < 0 {
                Ok(unres_type)
            } else {
                Ok(dt.get_depend(fld_num, &glb.types).unwrap())
            }
        };
        assert(resolves_field(*glb, before, unres_type, fld_num, resolve));
        match resolve {
            Ok(tp) => Ok(ResolvedUnion { resolve: tp, base_type, field_num: fld_num, lock: false }),
            Err(e) => Err(e),
        }
    }

    pub fn new_resolved(op: &ResolvedUnion, res: TypeId) -> (out: ResolvedUnion)
        ensures
            out == (ResolvedUnion { resolve: res, ..*op }),
    {
        ResolvedUnion { resolve: res, base_type: op.base_type, field_num: op.field_num, lock: op.lock }
    }

    pub fn get_datatype(&self) -> (res: TypeId)
        ensures
            res == self.resolve,
    {
        self.resolve
    }

    pub fn get_base(&self) -> (res: TypeId)
        ensures
            res == self.base_type,
    {
        self.base_type
    }

    pub fn get_field_num(&self) -> (res: i32)
        ensures
            res == self.field_num,
    {
        self.field_num
    }

    pub fn is_locked(&self) -> (res: bool)
        ensures
            res == self.lock,
    {
        self.lock
    }

    /// A resolution once another has been taken over. A locked one keeps its field.
    pub open spec fn updated(self, op: ResolvedUnion) -> ResolvedUnion {
        if self.lock && self.field_num != op.field_num {
            self
        } else {
            ResolvedUnion { field_num: op.field_num, resolve: op.resolve, ..self }
        }
    }

    /// Takes another resolution over. Whether anything changed.
    pub fn update(&mut self, op: &ResolvedUnion) -> (res: bool)
        ensures
            *final(self) == old(self).updated(*op),
            res == (*final(self) != *old(self)),
    {
        if self.lock && self.field_num != op.field_num {
            return false;
        }
        if self.field_num == op.field_num && self.resolve == op.resolve {
            return false;
        }
        self.field_num = op.field_num;
        self.resolve = op.resolve;
        true
    }

    pub fn set_resolve(&mut self, res: TypeId)
        ensures
            *final(self) == (ResolvedUnion { resolve: res, ..*old(self) }),
    {
        self.resolve = res;
    }

    pub fn set_lock(&mut self, val: bool)
        ensures
            *final(self) == (ResolvedUnion { lock: val, ..*old(self) }),
    {
        self.lock = val;
    }
}

/// What settling a data-type as one of its components does. A negative number leaves it as it is.
pub open spec fn settles(
    after: Architecture,
    before: Architecture,
    tp: TypeId,
    fld_num: i32,
    res: Result<ResolvedUnion>,
) -> bool {
    if !before.roomy(3) {
        after == before && (res matches Err(e) && fit::out_of_room(e))
    } else {
        exists|resolve: Result<TypeId>| #[trigger]
            resolves_field(after, before, tp, fld_num, resolve) && match resolve {
                Ok(made) => res == Ok::<ResolvedUnion, Error>(
                    ResolvedUnion {
                        resolve: made,
                        base_type: union_behind(tp, before.types),
                        field_num: fld_num,
                        lock: false,
                    },
                ),
                Err(e) => res == Err::<ResolvedUnion, Error>(e),
            }
    }
}

/// Settles a data-type as one of its components.
pub fn settle_field(tp: TypeId, fld_num: i32, glb: &mut Architecture) -> (res: Result<ResolvedUnion>)
    requires
        old(glb).workable(),
        old(glb).types.has(tp),
        old(glb).types.dt(tp).kind is PartialUnion ==> old(glb).types.dt(tp).size < 0x1000_0000,
        has_component(tp, fld_num, old(glb).types),
    ensures
        final(glb).grew(*old(glb)),
        settles(*final(glb), *old(glb), tp, fld_num, res),
        res matches Ok(r) ==> final(glb).types.has(r.resolve) && final(glb).types.has(r.base_type),
{
    let ghost before = *glb;
    proof {
        crate::types::suit::grew_never(*glb);
        glb.types.look(tp);
        glb.types.parts(glb.types.dt(tp));
    }
    if !glb.has_room_for(3) {
        return Err(fit::too_many_types());
    }
    let res = ResolvedUnion::new_field(tp, fld_num, glb);
    proof {
        assert(before.types.has(union_behind(tp, before.types)));
        assert(glb.types.has(union_behind(tp, before.types)));
    }
    res
}

impl ResolveEdge {
    /// The place where an operation reads or writes a union through a slot.
    pub open spec fn at(tp: TypeId, op: OpId, slot: i32, data: Funcdata, types: TypeFactory) -> ResolveEdge {
        ResolveEdge {
            type_id: types.dt(union_behind(tp, types)).id,
            op_time: data.operation(op).time,
            encoding: if types.dt(tp).is_pointer() {
                slot.wrapping_add(0x1000)
            } else {
                slot
            },
        }
    }

    /// The place where a union is read or written at an address.
    pub open spec fn at_address(tp: TypeId, addr: Address, types: TypeFactory) -> ResolveEdge {
        ResolveEdge {
            type_id: types.dt(union_behind(tp, types)).id,
            op_time: addr.offset as u32,
            encoding: 0x2000,
        }
    }

    pub fn new(unres_type: TypeId, op: OpId, slot: i32, data: &Funcdata, types: &TypeFactory) -> (res: ResolveEdge)
        requires
            types.sound(),
            types.has(unres_type),
            types.dt(unres_type).genuine(),
            data.has_op(op),
        ensures
            res == ResolveEdge::at(unres_type, op, slot, *data, *types),
    {
        proof {
            types.look(unres_type);
        }
        let mut encoding: i32 = slot;
        if types.get(unres_type).get_metatype() == TypeMetatype::Ptr {
            encoding = encoding.wrapping_add(0x1000);
        }
        ResolveEdge {
            type_id: types.get(union_of(unres_type, types)).get_id(),
            op_time: data.op(op).get_time(),
            encoding,
        }
    }

    pub fn new_address(unres_type: TypeId, addr: &Address, _slot: i32, types: &TypeFactory) -> (res: ResolveEdge)
        requires
            types.sound(),
            types.has(unres_type),
            types.dt(unres_type).genuine(),
        ensures
            res == ResolveEdge::at_address(unres_type, *addr, *types),
    {
        ResolveEdge {
            type_id: types.get(union_of(unres_type, types)).get_id(),
            op_time: addr.get_offset() as u32,
            encoding: 0x2000,
        }
    }

    /// Whether one place comes before another: by union, then by slot, then by time.
    pub open spec fn comes_before(self, op2: ResolveEdge) -> bool {
        if self.type_id != op2.type_id {
            self.type_id < op2.type_id
        } else if self.encoding != op2.encoding {
            self.encoding < op2.encoding
        } else {
            self.op_time < op2.op_time
        }
    }

    pub fn before(&self, op2: &ResolveEdge) -> (res: bool)
        ensures
            res == self.comes_before(*op2),
    {
        if self.type_id != op2.type_id {
            return self.type_id < op2.type_id;
        }
        if self.encoding != op2.encoding {
            return self.encoding < op2.encoding;
        }
        self.op_time < op2.op_time
    }

    /// Of two different places one comes before the other.
    pub proof fn places_are_ordered(self, op2: ResolveEdge)
        ensures
            self == op2 || self.comes_before(op2) || op2.comes_before(self),
            !(self.comes_before(op2) && op2.comes_before(self)),
    {
    }
}

/// What the first `n` entries of a list say of a place.
pub open spec fn entry_for(list: Seq<(ResolveEdge, ResolvedUnion)>, edge: ResolveEdge, i: nat) -> Option<ResolvedUnion>
    decreases list.len() - i,
{
    if i >= list.len() {
        None
    } else if list[i as int].0 == edge {
        Some(list[i as int].1)
    } else {
        entry_for(list, edge, i + 1)
    }
}

/// A list in which a place has got a resolution. The first entry for the place changes, or one is added.
pub open spec fn with_entry(
    list: Seq<(ResolveEdge, ResolvedUnion)>,
    edge: ResolveEdge,
    resolve: ResolvedUnion,
    i: nat,
) -> Seq<(ResolveEdge, ResolvedUnion)>
    decreases list.len() - i,
{
    if i >= list.len() {
        list.push((edge, resolve))
    } else if list[i as int].0 == edge {
        list.update(i as int, (edge, resolve))
    } else {
        with_entry(list, edge, resolve, i + 1)
    }
}

impl Funcdata {
    /// How a union is read or written by an operation, if that is known.
    pub open spec fn union_field(self, tp: TypeId, op: OpId, slot: i32, types: TypeFactory) -> Option<ResolvedUnion> {
        entry_for(self.union_map@, ResolveEdge::at(tp, op, slot, self, types), 0)
    }

    fn find_union(&self, edge: ResolveEdge) -> (res: Option<ResolvedUnion>)
        ensures
            res == entry_for(self.union_map@, edge, 0),
            res is Some ==> exists|k: int| 0 <= k < self.union_map@.len() && (#[trigger] self.union_map@[k]).1 == res->0,
    {
        let mut i: usize = 0;
        while i < self.union_map.len()
            invariant
                i <= self.union_map@.len(),
                entry_for(self.union_map@, edge, i as nat) == entry_for(self.union_map@, edge, 0),
            decreases self.union_map@.len() - i,
        {
            if self.union_map[i].0 == edge {
                assert(self.union_map@[i as int].1 == self.union_map@[i as int].1);
                return Some(self.union_map[i].1);
            }
            i = i + 1;
        }
        None
    }

    fn put_union(&mut self, edge: ResolveEdge, resolve: ResolvedUnion)
        ensures
            *final(self) == (Funcdata { union_map: final(self).union_map, ..*old(self) }),
            final(self).union_map@ == with_entry(old(self).union_map@, edge, resolve, 0),
    {
        let mut i: usize = 0;
        while i < self.union_map.len()
            invariant
                i <= self.union_map@.len(),
                *self == *old(self),
                with_entry(self.union_map@, edge, resolve, i as nat) == with_entry(self.union_map@, edge, resolve, 0),
            decreases self.union_map@.len() - i,
        {
            if self.union_map[i].0 == edge {
                self.union_map.set(i, (edge, resolve));
                return;
            }
            i = i + 1;
        }
        self.union_map.push((edge, resolve));
    }

    /// The data-types that values and resolutions have are those of the program.
    pub open spec fn typed_in(self, types: TypeFactory) -> bool {
        &&& forall|vn: VarnodeId| #![trigger self.value(vn)] self.has_vn(vn) ==> types.has(self.value(vn).tp)
        &&& entries_typed(self.union_map@, types)
        &&& proto_typed(self.proto, types)
        &&& forall|i: int| #![trigger self.calls@[i]]
            0 <= i < self.calls@.len() ==> proto_typed(self.calls@[i].proto, types)
    }

    /// How an operation reads or writes a union, if that is known. What is noted for a part of
    /// the union, or for a pointer to it, is noted under the union itself.
    pub fn get_union_field(&self, parent: TypeId, op: OpId, slot: i32, types: &TypeFactory) -> (res: Option<ResolvedUnion>)
        requires
            types.sound(),
            types.has(parent),
            types.dt(parent).genuine(),
            self.has_op(op),
            self.typed_in(*types),
        ensures
            res == self.union_field(parent, op, slot, *types),
            res is Some ==> types.has(res->0.resolve) && types.has(res->0.base_type),
    {
        self.find_union(ResolveEdge::new(parent, op, slot, self, types))
    }

    /// How a union is read or written at an address, if that is known.
    pub open spec fn address_field(self, tp: TypeId, addr: Address, types: TypeFactory) -> Option<ResolvedUnion> {
        entry_for(self.union_map@, ResolveEdge::at_address(tp, addr, types), 0)
    }

    pub fn get_address_based_union_field(&self, parent: TypeId, addr: &Address, slot: i32, types: &TypeFactory) -> (res:
        Option<ResolvedUnion>)
        requires
            types.sound(),
            types.has(parent),
            types.dt(parent).genuine(),
            self.typed_in(*types),
        ensures
            res == self.address_field(parent, *addr, *types),
            res is Some ==> types.has(res->0.resolve) && types.has(res->0.base_type),
    {
        self.find_union(ResolveEdge::new_address(parent, addr, slot, types))
    }

    /// A resolution is noted: it updates one that is there.
    pub open spec fn noted_union(
        self,
        before: Funcdata,
        tp: TypeId,
        op: OpId,
        slot: i32,
        resolve: ResolvedUnion,
        types: TypeFactory,
    ) -> bool {
        let edge = ResolveEdge::at(tp, op, slot, before, types);
        &&& self == (Funcdata { union_map: self.union_map, ..before })
        &&& self.union_map@ == with_entry(
            before.union_map@,
            edge,
            match entry_for(before.union_map@, edge, 0) {
                Some(there) => there.updated(resolve),
                None => resolve,
            },
            0,
        )
    }

    pub fn set_union_field(&mut self, parent: TypeId, op: OpId, slot: i32, resolve: &ResolvedUnion, types: &TypeFactory)
        requires
            types.sound(),
            types.has(parent),
            types.dt(parent).genuine(),
            old(self).has_op(op),
            old(self).typed_in(*types),
            types.has(resolve.resolve),
            types.has(resolve.base_type),
        ensures
            final(self).noted_union(*old(self), parent, op, slot, *resolve, *types),
            final(self).typed_in(*types),
    {
        let edge = ResolveEdge::new(parent, op, slot, self, types);
        match self.find_union(edge) {
            Some(there) => {
                let mut now = there;
                let _ = now.update(resolve);
                self.put_union(edge, now);
                proof {
                    entry_typed(old(self).union_map@, edge, now, 0, *types);
            still_typed(*self, *old(self), *types);
                }
            },
            None => {
                self.put_union(edge, *resolve);
                proof {
                    entry_typed(old(self).union_map@, edge, *resolve, 0, *types);
            still_typed(*self, *old(self), *types);
                }
            },
        }
    }

    /// The data-type of a resolution is settled. One that is not there comes about.
    pub open spec fn settled_union(
        self,
        before: Funcdata,
        tp: TypeId,
        op: OpId,
        slot: i32,
        resolve: TypeId,
        types: TypeFactory,
    ) -> bool {
        let edge = ResolveEdge::at(tp, op, slot, before, types);
        &&& self == (Funcdata { union_map: self.union_map, ..before })
        &&& self.union_map@ == with_entry(
            before.union_map@,
            edge,
            ResolvedUnion {
                resolve,
                ..match entry_for(before.union_map@, edge, 0) {
                    Some(there) => there,
                    None => ResolvedUnion::unresolved(tp, types),
                }
            },
            0,
        )
    }

    pub fn update_union_field(&mut self, parent: TypeId, op: OpId, slot: i32, resolve: TypeId, types: &TypeFactory)
        requires
            types.sound(),
            types.has(parent),
            types.dt(parent).genuine(),
            old(self).has_op(op),
            old(self).typed_in(*types),
            types.has(resolve),
        ensures
            final(self).settled_union(*old(self), parent, op, slot, resolve, *types),
            final(self).typed_in(*types),
    {
        let edge = ResolveEdge::new(parent, op, slot, self, types);
        let mut now = match self.find_union(edge) {
            Some(there) => there,
            None => ResolvedUnion::new(parent, types),
        };
        now.set_resolve(resolve);
        self.put_union(edge, now);
        proof {
            entry_typed(old(self).union_map@, edge, now, 0, *types);
            still_typed(*self, *old(self), *types);
        }
    }
}

/// The data-types of a prototype are those of the program.
pub open spec fn proto_typed(proto: FuncProto, types: TypeFactory) -> bool {
    &&& proto.params@.len() <= i32::MAX
    &&& forall|i: int| #![trigger proto.params@[i]] 0 <= i < proto.params@.len() ==> types.has(proto.params@[i].tp)
    &&& proto.output is Some ==> types.has(proto.output->0.tp)
}

/// What is typed stays typed if only new data-types come.
pub proof fn typed_later(data: Funcdata, after: TypeFactory, before: TypeFactory)
    requires
        data.typed_in(before),
        after.keeps(before),
    ensures
        data.typed_in(after),
{
    assert forall|vn: VarnodeId| #![trigger data.value(vn)] data.has_vn(vn) implies after.has(data.value(vn).tp) by {
        assert(before.has(data.value(vn).tp));
    }
}

proof fn still_typed(after: Funcdata, before: Funcdata, types: TypeFactory)
    requires
        after.varnodes == before.varnodes,
        after.calls == before.calls,
        after.proto == before.proto,
        before.typed_in(types),
        entries_typed(after.union_map@, types),
    ensures
        after.typed_in(types),
{
    assert forall|vn: VarnodeId| #![trigger after.value(vn)] after.has_vn(vn) implies types.has(after.value(vn).tp) by {
        assert(types.has(before.value(vn).tp));
    }
}

/// The data-types of the resolutions in a list are those of the program.
pub open spec fn entries_typed(list: Seq<(ResolveEdge, ResolvedUnion)>, types: TypeFactory) -> bool {
    forall|k: int| #![trigger list[k]]
        0 <= k < list.len() ==> types.has(list[k].1.resolve) && types.has(list[k].1.base_type)
}

proof fn entry_typed(
    list: Seq<(ResolveEdge, ResolvedUnion)>,
    edge: ResolveEdge,
    resolve: ResolvedUnion,
    i: nat,
    types: TypeFactory,
)
    requires
        types.has(resolve.resolve),
        types.has(resolve.base_type),
        entries_typed(list, types),
    ensures
        entries_typed(with_entry(list, edge, resolve, i), types),
    decreases list.len() - i,
{
    let after = with_entry(list, edge, resolve, i);
    if i < list.len() && list[i as int].0 != edge {
        entry_typed(list, edge, resolve, i + 1, types);
    } else {
        assert forall|k: int| #![trigger after[k]] 0 <= k < after.len() implies types.has(after[k].1.resolve)
            && types.has(after[k].1.base_type) by {
            if k < list.len() {
                assert(types.has(list[k].1.resolve));
            }
        }
    }
}

} // verus!

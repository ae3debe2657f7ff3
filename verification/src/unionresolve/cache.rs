//! Resolutions that are carried from one operation to another.
use vstd::prelude::*;
use crate::architecture::Architecture;
use crate::error::{Error, Result};
use crate::funcdata::Funcdata;
use crate::ids::{OpId, TypeId, VarnodeId};
use crate::types::{Datatype, TypeFactory};
use crate::unionresolve::fit::too_many_types;
use crate::unionresolve::{settle_field, union_of, ResolvedUnion};
use crate::variable::HighVariable;
use crate::varnode::Varnode;

verus! {

/// A resolution of a union, under a key.
#[derive(Copy, Clone, Debug, PartialEq, Eq, Structural)]
pub struct ResolveCacheRecord {
    pub base_type: TypeId,
    pub field_num: i32,
    pub key: i32,
}

impl ResolveCacheRecord {
    pub fn new(key: i32, dt: TypeId, fld_num: i32) -> (res: ResolveCacheRecord)
        ensures
            res == (ResolveCacheRecord { base_type: dt, field_num: fld_num, key }),
    {
        ResolveCacheRecord { base_type: dt, field_num: fld_num, key }
    }

    pub fn matches(&self, key: i32, dt: TypeId) -> (res: bool)
        ensures
            res == (self.key == key && self.base_type == dt),
    {
        self.key == key && self.base_type == dt
    }
}

#[derive(Debug)]
pub struct ResolveCache {
    pub resolve_list: Vec<ResolveCacheRecord>,
}

/// The first record for a union under a key, from a place on.
pub open spec fn record_for(list: Seq<ResolveCacheRecord>, key: i32, dt: TypeId, i: nat) -> Option<ResolveCacheRecord>
    decreases list.len() - i,
{
    if i >= list.len() {
        None
    } else if list[i as int].key == key && list[i as int].base_type == dt {
        Some(list[i as int])
    } else {
        record_for(list, key, dt, i + 1)
    }
}

impl Funcdata {
    /// A value has got a data-type, unless its own is locked. A variable that it
    /// belongs to has to find out its data-type again.
    pub open spec fn retyped(self, before: Funcdata, vn: VarnodeId, ct: TypeId) -> bool {
        let v = before.value(vn);
        if v.tp == ct || v.flag(Varnode::TYPELOCK) {
            self == before
        } else {
            &&& self == (Funcdata { varnodes: self.varnodes, highs: self.highs, ..before })
            &&& self.varnodes.slots@ == before.varnodes.with(vn.0, Varnode { tp: ct, ..v })
            &&& match v.high {
                Some(high) => self.highs.slots@ == before.highs.with(
                    high.0,
                    HighVariable {
                        highflags: before.variable(high).highflags | HighVariable::TYPEDIRTY,
                        ..before.variable(high)
                    },
                ),
                None => self.highs == before.highs,
            }
        }
    }

    pub fn vn_update_type(&mut self, vn: VarnodeId, ct: TypeId)
        requires
            old(self).has_vn(vn),
            old(self).value(vn).high matches Some(high) ==> old(self).has_high(high),
        ensures
            final(self).retyped(*old(self), vn, ct),
    {
        if self.vn(vn).get_type() == ct || self.vn(vn).is_type_lock() {
            return;
        }
        let high = self.vn(vn).get_high_option();
        self.vn_mut(vn).tp = ct;
        if let Some(high) = high {
            self.high_mut(high).type_dirty();
        }
    }
}

/// An error where a record is for another data-type than it is used for.
pub open spec fn misfit(e: Error) -> bool {
    e.is_lowlevel("Resolution does not fit data-type"@)
}

/// What settling a piece as one of its components, and giving it to a value, does.
pub open spec fn gives(
    after: Funcdata,
    after_glb: Architecture,
    before: Funcdata,
    before_glb: Architecture,
    piece: TypeId,
    field_num: i32,
    vn: VarnodeId,
    op: OpId,
    slot: i32,
    res: Result<()>,
) -> bool {
    if !crate::unionresolve::has_component(piece, field_num, before_glb.types) || before_glb.types.dt(piece).size
        >= 0x1000_0000 {
        after == before && after_glb == before_glb && (res matches Err(e) && misfit(e))
    } else {
        exists|r: Result<ResolvedUnion>| #[trigger]
            crate::unionresolve::settles(after_glb, before_glb, piece, field_num, r) && match r {
                Ok(resolve) => res == Ok::<(), Error>(()) && notes_and_types(
                    after,
                    before,
                    piece,
                    resolve,
                    vn,
                    op,
                    slot,
                    after_glb.types,
                ),
                Err(e) => after == before && res == Err::<(), Error>(e),
            }
    }
}

/// A resolution is noted, and a value gets the data-type that was resolved.
pub open spec fn notes_and_types(
    after: Funcdata,
    before: Funcdata,
    piece: TypeId,
    resolve: ResolvedUnion,
    vn: VarnodeId,
    op: OpId,
    slot: i32,
    types: TypeFactory,
) -> bool {
    exists|mid: Funcdata| #[trigger]
        mid.noted_union(before, piece, op, slot, resolve, types) && after.retyped(mid, vn, piece)
}

/// What carrying a resolution over to a value does.
pub open spec fn inherits(
    after: Funcdata,
    after_glb: Architecture,
    before: Funcdata,
    before_glb: Architecture,
    record: Option<ResolveCacheRecord>,
    dt: TypeId,
    off: i32,
    vn: VarnodeId,
    op: OpId,
    slot: i32,
    res: Result<()>,
) -> bool {
    if !before_glb.types.dt(dt).flag(Datatype::NEEDS_RESOLUTION) || record is None {
        after == before && after_glb == before_glb && res == Ok::<(), Error>(())
    } else if !before_glb.roomy(3) {
        after == before && after_glb == before_glb && (res matches Err(e) && crate::unionresolve::fit::out_of_room(e))
    } else {
        exists|mid_glb: Architecture, piece: Result<Option<TypeId>>| #[trigger]
            takes_piece(mid_glb, before_glb, dt, off, before.value(vn).size, piece) && match piece {
                Ok(Some(tp)) => gives(
                    after,
                    after_glb,
                    before,
                    mid_glb,
                    tp,
                    record->0.field_num,
                    vn,
                    op,
                    slot,
                    res,
                ),
                Ok(None) => after == before && after_glb == mid_glb && res == Ok::<(), Error>(()),
                Err(e) => after == before && after_glb == mid_glb && res == Err::<(), Error>(e),
            }
    }
}

pub open spec fn takes_piece(
    after: Architecture,
    before: Architecture,
    dt: TypeId,
    off: i32,
    size: i32,
    piece: Result<Option<TypeId>>,
) -> bool {
    after.same_program(before) && after.types.makes_piece(before.types, dt, off, size, piece)
}

impl ResolveCache {
    pub fn new() -> (res: ResolveCache)
        ensures
            res.resolve_list@.len() == 0,
    {
        ResolveCache { resolve_list: Vec::new() }
    }

    /// Takes up what is known of how an operation reads a data-type.
    pub fn add_resolution(&mut self, key: i32, dt: TypeId, op: OpId, slot: i32, data: &Funcdata, glb: &Architecture)
        requires
            glb.types.sound(),
            glb.types.has(dt),
            glb.types.dt(dt).genuine(),
            data.has_op(op),
            data.typed_in(glb.types),
        ensures
            final(self).resolve_list@ == (match data.union_field(dt, op, slot, glb.types) {
                Some(res) => if glb.types.dt(dt).flag(Datatype::NEEDS_RESOLUTION) {
                    old(self).resolve_list@.push(
                        ResolveCacheRecord { base_type: res.base_type, field_num: res.field_num, key },
                    )
                } else {
                    old(self).resolve_list@
                },
                None => old(self).resolve_list@,
            }),
    {
        if !glb.types.get(dt).needs_resolution() {
            return;
        }
        let Some(res) = data.get_union_field(dt, op, slot, &glb.types) else {
            return;
        };
        self.resolve_list.push(ResolveCacheRecord::new(key, res.get_base(), res.get_field_num()));
    }

    fn find(&self, key: i32, dt: TypeId) -> (res: Option<ResolveCacheRecord>)
        ensures
            res == record_for(self.resolve_list@, key, dt, 0),
    {
        let mut i: usize = 0;
        while i < self.resolve_list.len()
            invariant
                i <= self.resolve_list@.len(),
                record_for(self.resolve_list@, key, dt, i as nat) == record_for(self.resolve_list@, key, dt, 0),
            decreases self.resolve_list@.len() - i,
        {
            if self.resolve_list[i].matches(key, dt) {
                return Some(self.resolve_list[i]);
            }
            i = i + 1;
        }
        None
    }

    /// What a data-type is taken for under a key.
    pub open spec fn taken(self, key: i32, dt: TypeId, types: TypeFactory) -> TypeId {
        match record_for(self.resolve_list@, key, dt, 0) {
            Some(record) => if record.field_num < 0 {
                dt
            } else {
                crate::types::walk::component(types.dt(dt), record.field_num as int, types)->0
            },
            None => dt,
        }
    }

    pub fn resolve(&self, key: i32, dt: TypeId, types: &TypeFactory) -> (res: TypeId)
        requires
            types.sound(),
            types.has(dt),
            record_for(self.resolve_list@, key, dt, 0) matches Some(record) ==> record.field_num >= 0 ==> {
                &&& record.field_num < crate::types::walk::component_count(types.dt(dt), *types)
                &&& crate::types::walk::component(types.dt(dt), record.field_num as int, *types) is Some
            },
        ensures
            res == self.taken(key, dt, *types),
    {
        proof {
            types.look(dt);
        }
        match self.find(key, dt) {
            Some(record) => {
                if record.field_num < 0 {
                    return dt;
                }
                types.get(dt).get_depend(record.field_num, types).unwrap()
            },
            None => dt,
        }
    }

    /// Carries a resolution over to some bytes of a data-type that a value holds.
    pub fn inherit_resolution(
        &self,
        key: i32,
        dt: TypeId,
        off: i32,
        vn: VarnodeId,
        op: OpId,
        slot: i32,
        data: &mut Funcdata,
        glb: &mut Architecture,
    ) -> (res: Result<()>)
        requires
            crate::unionresolve::score::scorable(*old(data), *old(glb)),
            old(glb).types.has(dt),
            !(old(glb).types.dt(dt).kind is Spacebase),
            old(data).has_vn(vn),
            old(data).has_op(op),
            old(data).value(vn).high matches Some(high) ==> old(data).has_high(high),
        ensures
            final(glb).grew(*old(glb)),
            inherits(
                *final(data),
                *final(glb),
                *old(data),
                *old(glb),
                record_for(
                    self.resolve_list@,
                    key,
                    crate::unionresolve::union_behind(dt, old(glb).types),
                    0,
                ),
                dt,
                off,
                vn,
                op,
                slot,
                res,
            ),
    {
        let ghost before = *data;
        let ghost before_glb = *glb;
        proof {
            crate::types::suit::grew_never(*glb);
        }
        if !glb.types.get(dt).needs_resolution() {
            return Ok(());
        }
        let parent = union_of(dt, &glb.types);
        let Some(record) = self.find(key, parent) else {
            return Ok(());
        };
        if !glb.has_room_for(3) {
            return Err(too_many_types());
        }
        let vn_size: i32 = data.vn(vn).get_size();
        proof {
            crate::types::suit::cuts_easily(*glb, dt, off, vn_size);
        }
        let piece = glb.piece_of(dt, off, vn_size);
        let ghost mid_glb = *glb;
        proof {
            assert(takes_piece(mid_glb, before_glb, dt, off, vn_size, piece));
            crate::unionresolve::score::scorable_later(*data, mid_glb, before_glb);
        }
        match piece {
            Ok(Some(tp)) => {
                let res = Self::give(tp, record.field_num, vn, op, slot, data, glb);
                proof {
                    crate::types::suit::grew_twice(*glb, mid_glb, before_glb);
                }
                res
            },
            Ok(None) => Ok(()),
            Err(e) => Err(e),
        }
    }

    fn give(tp: TypeId, field_num: i32, vn: VarnodeId, op: OpId, slot: i32, data: &mut Funcdata, glb: &mut Architecture) -> (res:
        Result<()>)
        requires
            crate::unionresolve::score::scorable(*old(data), *old(glb)),
            old(glb).types.has(tp),
            old(data).has_vn(vn),
            old(data).has_op(op),
            old(data).value(vn).high matches Some(high) ==> old(data).has_high(high),
        ensures
            final(glb).grew(*old(glb)),
            gives(*final(data), *final(glb), *old(data), *old(glb), tp, field_num, vn, op, slot, res),
    {
        let ghost before = *data;
        let ghost before_glb = *glb;
        proof {
            crate::types::suit::grew_never(*glb);
            glb.types.look(tp);
        }
        let behind = union_of(tp, &glb.types);
        let fits = if field_num < 0 {
            true
        } else {
            let dt = glb.types.get(behind);
            field_num < dt.num_depend(&glb.types) && dt.get_depend(field_num, &glb.types).is_some()
        };
        if !fits || glb.types.get(tp).get_size() >= 0x1000_0000 {
            return Err(Error::lowlevel("Resolution does not fit data-type"));
        }
        let new_res = settle_field(tp, field_num, glb);
        proof {
            crate::unionresolve::score::scorable_later(*data, *glb, before_glb);
            assert(glb.types.has(tp));
            assert(crate::unionresolve::settles(*glb, before_glb, tp, field_num, new_res));
        }
        match new_res {
            Ok(new_res) => {
                data.set_union_field(tp, op, slot, &new_res, &glb.types);
                let ghost mid = *data;
                data.vn_update_type(vn, tp);
                assert(mid.noted_union(before, tp, op, slot, new_res, glb.types) && data.retyped(mid, vn, tp));
                Ok(())
            },
            Err(e) => Err(e),
        }
    }

    pub fn inherit_resolution_varnode(
        &self,
        key: i32,
        vn: VarnodeId,
        op: OpId,
        slot: i32,
        data: &mut Funcdata,
        glb: &mut Architecture,
    ) -> (res: Result<()>)
        requires
            crate::unionresolve::score::scorable(*old(data), *old(glb)),
            old(data).has_vn(vn),
            !(old(glb).types.dt(old(data).value(vn).tp).kind is Spacebase),
            old(data).has_op(op),
            old(data).value(vn).high matches Some(high) ==> old(data).has_high(high),
        ensures
            final(glb).grew(*old(glb)),
            inherits(
                *final(data),
                *final(glb),
                *old(data),
                *old(glb),
                record_for(
                    self.resolve_list@,
                    key,
                    crate::unionresolve::union_behind(old(data).value(vn).tp, old(glb).types),
                    0,
                ),
                old(data).value(vn).tp,
                0,
                vn,
                op,
                slot,
                res,
            ),
    {
        assert(glb.types.has(data.value(vn).tp));
        let dt = data.vn(vn).get_type();
        self.inherit_resolution(key, dt, 0, vn, op, slot, data, glb)
    }
}

} // verus!

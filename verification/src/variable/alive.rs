//! Where variables are alive.
use vstd::prelude::*;
use crate::cover::Cover;
use crate::funcdata::Funcdata;
use crate::ids::HighId;
use crate::variable::{HighVariable, PieceEntry, VariablePiece};

verus! {

impl Funcdata {
    /// The varnodes of a variable exist, and where they are alive is known.
    pub open spec fn instances_known(self, high: HighVariable) -> bool {
        &&& high.inst@.len() > 0
        &&& forall|i: int| #![trigger high.inst@[i]]
            0 <= i < high.inst@.len() ==> self.has_vn(high.inst@[i]) && (self.value(high.inst@[0]).coverable()
                ==> self.value(high.inst@[i]).cover is Some)
    }

    /// Where the first `n` varnodes of a variable are alive.
    pub open spec fn instance_stretches(self, high: HighVariable, n: nat) -> Seq<crate::cover::Stretch>
        decreases n,
    {
        if n == 0 {
            Seq::empty()
        } else {
            self.instance_stretches(high, (n - 1) as nat) + self.value(high.inst@[n - 1]).cover->0.stretches@
        }
    }

    /// Where a variable is alive.
    pub open spec fn alive(self, high: HighVariable) -> Seq<crate::cover::Stretch> {
        if !high.note(HighVariable::COVERDIRTY) {
            high.internal_cover.stretches@
        } else if self.value(high.inst@[0]).coverable() {
            self.instance_stretches(high, high.inst@.len())
        } else {
            Seq::empty()
        }
    }

    /// A variable for which it has been found where it is alive.
    pub open spec fn refreshed(self, before: HighVariable, after: HighVariable) -> bool {
        if before.note(HighVariable::COVERDIRTY) {
            &&& after == (HighVariable {
                internal_cover: after.internal_cover,
                highflags: before.highflags & !HighVariable::COVERDIRTY,
                ..before
            })
            &&& after.internal_cover.stretches@ == self.alive(before)
        } else {
            after == before
        }
    }

    /// Finds where a variable is alive, if that is not known.
    pub fn high_update_internal_cover(&mut self, high: HighId)
        requires
            old(self).has_high(high),
            old(self).instances_known(old(self).variable(high)),
        ensures
            final(self).same_but_highs(*old(self)),
            final(self).highs.slots@ == old(self).highs.with(high.0, final(self).variable(high)),
            old(self).refreshed(old(self).variable(high), final(self).variable(high)),
    {
        let ghost before = *self;
        if (self.high(high).highflags & HighVariable::COVERDIRTY) == 0 {
            assert(self.highs.slots@ =~= self.highs.with(high.0, self.variable(high)));
            return;
        }
        let mut cover = Cover::new();
        let data = self.high(high);
        if self.vn(data.inst[0]).has_cover() {
            let mut i: usize = 0;
            while i < data.inst.len()
                invariant
                    i <= data.inst@.len(),
                    *self == before,
                    before == *old(self),
                    *data == before.variable(high),
                    before.instances_known(*data),
                    before.value(data.inst@[0]).coverable(),
                    cover.stretches@ == before.instance_stretches(*data, i as nat),
                decreases data.inst@.len() - i,
            {
                match &self.vn(data.inst[i]).cover {
                    Some(vn_cover) => {
                        cover.merge(vn_cover);
                    },
                    None => {
                        assert(self.has_vn(data.inst@[i as int]));
                        vstd::pervasive::unreached()
                    },
                }
                i = i + 1;
            }
        }
        assert(cover.stretches@ =~= before.alive(before.variable(high)));
        let high_data = self.high_mut(high);
        high_data.internal_cover = cover;
        high_data.highflags = high_data.highflags & !HighVariable::COVERDIRTY;
    }

    /// The pieces of a group, of the first `n`, that share storage with another piece.
    pub open spec fn sharing(self, list: Seq<PieceEntry>, high: HighId, n: nat) -> Seq<HighId>
        decreases n,
    {
        if n == 0 {
            Seq::empty()
        } else {
            let rest = self.sharing(list, high, (n - 1) as nat);
            let other = list[n - 1].high;
            let own = self.variable(high).piece->0;
            let piece = self.variable(other).piece->0;
            if other != high && own.group_offset + own.size > piece.group_offset && own.group_offset
                < piece.group_offset + piece.size {
                rest.push(other)
            } else {
                rest
            }
        }
    }

    /// A variable is a piece of a group all of whose pieces are known.
    pub open spec fn piece_known(self, high: HighId) -> bool {
        let group = self.variable(high).piece->0.group;
        &&& self.has_high(high)
        &&& self.variable(high).piece is Some
        &&& self.has_group(group)
        &&& forall|i: int| #![trigger self.group(group).piece_set@[i]]
            0 <= i < self.group(group).piece_set@.len() ==> self.has_high(self.group(group).piece_set@[i].high)
                && self.variable(self.group(group).piece_set@[i].high).piece is Some
    }

    /// The intersections of a piece have been found.
    pub open spec fn intersected(self, before: Funcdata, high: HighId) -> bool {
        let old_high = before.variable(high);
        let new_high = self.variable(high);
        let list = before.group(old_high.piece->0.group).piece_set@;
        if old_high.note(HighVariable::INTERSECTDIRTY) {
            &&& self.same_but(before, high)
            &&& new_high.piece is Some
            &&& new_high == (HighVariable {
                piece: Some(VariablePiece { intersection: new_high.piece->0.intersection, ..old_high.piece->0 }),
                highflags: old_high.highflags & !HighVariable::INTERSECTDIRTY,
                ..old_high
            })
            &&& new_high.piece->0.intersection@ == before.sharing(list, high, list.len())
        } else {
            self == before
        }
    }
}

impl VariablePiece {
    /// Finds the pieces that share storage with a piece, if they are not known.
    pub fn update_intersections(data: &mut Funcdata, high: HighId)
        requires
            old(data).piece_known(high),
        ensures
            final(data).intersected(*old(data), high),
    {
        if (data.high(high).highflags & HighVariable::INTERSECTDIRTY) == 0 {
            return;
        }
        let ghost before = *data;
        let mut intersection: Vec<HighId> = Vec::new();
        match &data.high(high).piece {
            Some(piece) => {
                let group_offset: i64 = piece.group_offset as i64;
                let end_offset: i64 = group_offset + piece.size as i64;
                let list = &data.groups.get(piece.group.0).piece_set;
                let mut i: usize = 0;
                while i < list.len()
                    invariant
                        i <= list@.len(),
                        *data == before,
                        before.piece_known(high),
                        before.variable(high).piece == Some(*piece),
                        list@ == before.group(piece.group).piece_set@,
                        group_offset == piece.group_offset,
                        end_offset == piece.group_offset + piece.size,
                        intersection@ == before.sharing(list@, high, i as nat),
                    decreases list@.len() - i,
                {
                    let other_high = list[i].high;
                    assert(before.group(piece.group).piece_set@[i as int].high == other_high);
                    i = i + 1;
                    if other_high == high {
                        continue;
                    }
                    match &data.high(other_high).piece {
                        Some(other) => {
                            if end_offset <= other.group_offset as i64 {
                                continue;
                            }
                            let other_end: i64 = other.group_offset as i64 + other.size as i64;
                            if group_offset >= other_end {
                                continue;
                            }
                            intersection.push(other_high);
                        },
                        None => {
                            vstd::pervasive::unreached()
                        },
                    }
                }
            },
            None => {
                vstd::pervasive::unreached()
            },
        }
        let high_data = data.high_mut(high);
        match &mut high_data.piece {
            Some(piece) => {
                piece.intersection = intersection;
            },
            None => {},
        }
        high_data.highflags = high_data.highflags & !HighVariable::INTERSECTDIRTY;
    }

    /// Finds where a piece, together with what shares storage with it, is alive.
    pub fn update_cover(data: &mut Funcdata, high: HighId)
        requires
            old(data).has_high(high),
            old(data).variable(high).piece is Some,
            old(data).covers_known(high),
        ensures
            final(data).covered(*old(data), high),
    {
        if (data.high(high).highflags & (HighVariable::COVERDIRTY | HighVariable::EXTENDCOVERDIRTY)) == 0 {
            return;
        }
        let ghost before = *data;
        let ghost list = before.variable(high).piece->0.intersection@;
        data.high_update_internal_cover(high);
        let mut cover = data.high(high).internal_cover.copy();
        let count: usize = match &data.high(high).piece {
            Some(piece) => piece.intersection.len(),
            None => vstd::pervasive::unreached(),
        };
        proof {
            before.refreshed_once(before.variable(high), data.variable(high));
            assert(cover.stretches@ =~= before.alive(before.variable(high)) + before.shared_stretches(list, 0));
            assert(data.refreshes(before, high, 0));
        }
        let mut i: usize = 0;
        while i < count
            invariant
                i <= count,
                count == list.len(),
                before == *old(data),
                before.has_high(high),
                before.variable(high).piece is Some,
                list == before.variable(high).piece->0.intersection@,
                before.covers_known(high),
                data.refreshes(before, high, i as int),
                cover.stretches@ == before.alive(before.variable(high)) + before.shared_stretches(list, i as nat),
            decreases count - i,
        {
            let ghost mid = *data;
            proof {
                assert(data.highs.slots@[high.0 as int] is Some);
            }
            let other: HighId = match &data.high(high).piece {
                Some(piece) => piece.intersection[i],
                None => vstd::pervasive::unreached(),
            };
            proof {
                assert(other == list[i as int]);
                assert(data.highs.slots@[other.0 as int] is Some);
                before.known_stays(before.variable(other), mid.variable(other), mid);
            }
            data.high_update_internal_cover(other);
            cover.merge(&data.high(other).internal_cover);
            proof {
                mid.same_alive(before, mid.variable(other));
                before.refreshed_twice(before.variable(other), mid.variable(other), data.variable(other));
                assert forall|h: u32| #![trigger data.highs.slots@[h as int]]
                    h < data.highs.slots@.len() implies if before.highs.has(h) && (h == high.0
                    || crate::variable::piece::named(list, h, i + 1)) {
                    data.highs.has(h) && before.refreshed(before.highs.item(h), data.highs.item(h))
                } else {
                    data.highs.slots@[h as int] == before.highs.slots@[h as int]
                } by {
                    crate::variable::piece::named_next(list, h, i as int);
                    assert(mid.highs.slots@[h as int] == mid.highs.slots@[h as int]);
                    assert(data.highs.slots@[h as int] == if h == other.0 {
                        Some(data.variable(other))
                    } else {
                        mid.highs.slots@[h as int]
                    });
                }
                assert(cover.stretches@ =~= before.alive(before.variable(high)) + before.shared_stretches(
                    list,
                    (i + 1) as nat,
                ));
            }
            i = i + 1;
        }
        let ghost mid = *data;
        assert(data.highs.slots@[high.0 as int] is Some);
        let high_data = data.high_mut(high);
        match &mut high_data.piece {
            Some(piece) => {
                piece.cover = cover;
            },
            None => {},
        }
        high_data.highflags = high_data.highflags & !HighVariable::EXTENDCOVERDIRTY;
        proof {
            assert(mid.refreshes(before, high, list.len() as int));
            assert(data.highs.slots@ == mid.highs.with(high.0, data.variable(high)));
        }
    }
}

impl Funcdata {
    /// The varnodes of a piece and of what shares storage with it are known.
    pub open spec fn covers_known(self, high: HighId) -> bool {
        let list = self.variable(high).piece->0.intersection@;
        &&& self.instances_known(self.variable(high))
        &&& forall|i: int| #![trigger list[i]]
            0 <= i < list.len() ==> self.has_high(list[i]) && self.instances_known(self.variable(list[i]))
    }

    /// The varnodes of a piece and of all that may share storage with it are known.
    pub open spec fn reach_known(self, high: HighId) -> bool {
        let list = self.group(self.variable(high).piece->0.group).piece_set@;
        &&& self.piece_known(high)
        &&& self.covers_known(high)
        &&& forall|i: int| #![trigger list[i]]
            0 <= i < list.len() ==> self.instances_known(self.variable(list[i].high))
    }

    pub proof fn sharing_listed(self, list: Seq<PieceEntry>, high: HighId, n: nat, i: int)
        requires
            n <= list.len(),
            0 <= i < self.sharing(list, high, n).len(),
        ensures
            exists|k: int| 0 <= k < n && (#[trigger] list[k]).high == self.sharing(list, high, n)[i] && list[k].high
                != high,
        decreases n,
    {
        if n > 0 {
            let rest = self.sharing(list, high, (n - 1) as nat);
            if i < rest.len() {
                self.sharing_listed(list, high, (n - 1) as nat, i);
                let k = choose|k: int| 0 <= k < n - 1 && (#[trigger] list[k]).high == rest[i] && list[k].high != high;
                assert(list[k].high == self.sharing(list, high, n)[i]);
            } else {
                assert(list[n - 1].high == self.sharing(list, high, n)[i]);
            }
        }
    }

    proof fn sharing_known(self, mid: Funcdata, high: HighId)
        requires
            self.reach_known(high),
            mid.intersected(self, high),
        ensures
            mid.has_high(high),
            mid.variable(high).piece is Some,
            mid.covers_known(high),
    {
        let old_high = self.variable(high);
        if old_high.note(HighVariable::INTERSECTDIRTY) {
            let list = self.group(old_high.piece->0.group).piece_set@;
            let shared = mid.variable(high).piece->0.intersection@;
            mid.same_known(self, old_high, mid.variable(high));
            assert forall|i: int| #![trigger shared[i]] 0 <= i < shared.len() implies mid.has_high(shared[i])
                && mid.instances_known(mid.variable(shared[i])) by {
                self.sharing_listed(list, high, list.len(), i);
                let k = choose|k: int| 0 <= k < list.len() && (#[trigger] list[k]).high == shared[i] && list[k].high
                    != high;
                mid.same_known(self, self.variable(shared[i]), mid.variable(shared[i]));
            }
        }
    }

    proof fn same_known(self, before: Funcdata, old_high: HighVariable, high: HighVariable)
        requires
            self.same_but_highs(before),
            before.instances_known(old_high),
            high.inst == old_high.inst,
        ensures
            self.instances_known(high),
    {
        assert forall|i: int| #![trigger high.inst@[i]] 0 <= i < high.inst@.len() implies self.has_vn(high.inst@[i])
            && (self.value(high.inst@[0]).coverable() ==> self.value(high.inst@[i]).cover is Some) by {
            assert(old_high.inst@[i] == high.inst@[i]);
        }
    }

    /// Where the first `n` variables of a list are alive.
    pub open spec fn shared_stretches(self, list: Seq<HighId>, n: nat) -> Seq<crate::cover::Stretch>
        decreases n,
    {
        if n == 0 {
            Seq::empty()
        } else {
            self.shared_stretches(list, (n - 1) as nat) + self.alive(self.variable(list[n - 1]))
        }
    }

    /// It has been found where a piece and the first `n` that share storage with it are alive.
    pub open spec fn refreshes(self, before: Funcdata, high: HighId, n: int) -> bool {
        let list = before.variable(high).piece->0.intersection@;
        &&& self.same_but_highs(before)
        &&& self.highs.slots@.len() == before.highs.slots@.len()
        &&& forall|h: u32| #![trigger self.highs.slots@[h as int]]
            h < self.highs.slots@.len() ==> if before.highs.has(h) && (h == high.0 || crate::variable::piece::named(
                list,
                h,
                n,
            )) {
                self.highs.has(h) && before.refreshed(before.highs.item(h), self.highs.item(h))
            } else {
                self.highs.slots@[h as int] == before.highs.slots@[h as int]
            }
    }

    /// It has been found where a piece, together with what shares storage with it, is alive.
    pub open spec fn covered(self, before: Funcdata, high: HighId) -> bool {
        let list = before.variable(high).piece->0.intersection@;
        let old_high = before.variable(high);
        let new_high = self.variable(high);
        if old_high.note(HighVariable::COVERDIRTY | HighVariable::EXTENDCOVERDIRTY) {
            exists|mid: Funcdata| #[trigger]
                mid.refreshes(before, high, list.len() as int) && self.same_but(mid, high) && new_high.piece is Some
                    && new_high == (HighVariable {
                    piece: Some(
                        VariablePiece { cover: new_high.piece->0.cover, ..mid.variable(high).piece->0 },
                    ),
                    highflags: mid.variable(high).highflags & !HighVariable::EXTENDCOVERDIRTY,
                    ..mid.variable(high)
                }) && new_high.piece->0.cover.stretches@ == before.alive(old_high) + before.shared_stretches(
                    list,
                    list.len(),
                )
        } else {
            self == before
        }
    }

    proof fn refreshed_once(self, before: HighVariable, after: HighVariable)
        requires
            self.refreshed(before, after),
        ensures
            after.internal_cover.stretches@ == self.alive(before),
            after.piece == before.piece,
    {
    }

    proof fn clear_note(flags: u32)
        ensures
            (flags & !HighVariable::COVERDIRTY) & HighVariable::COVERDIRTY == 0,
    {
        assert((flags & !0x8u32) & 0x8u32 == 0) by (bit_vector);
    }

    proof fn refreshed_twice(self, first: HighVariable, second: HighVariable, third: HighVariable)
        requires
            second == first || self.refreshed(first, second),
            self.refreshed(second, third),
        ensures
            self.refreshed(first, third),
            third.internal_cover.stretches@ == self.alive(first),
    {
        Funcdata::clear_note(first.highflags);
    }

    proof fn known_stays(self, before: HighVariable, after: HighVariable, mid: Funcdata)
        requires
            self.instances_known(before),
            after == before || self.refreshed(before, after),
            mid.same_but_highs(self),
        ensures
            mid.instances_known(after),
    {
        assert forall|i: int| #![trigger after.inst@[i]] 0 <= i < after.inst@.len() implies mid.has_vn(after.inst@[i])
            && (mid.value(after.inst@[0]).coverable() ==> mid.value(after.inst@[i]).cover is Some) by {
            assert(before.inst@[i] == after.inst@[i]);
        }
    }

    /// Where a variable is alive depends on the varnodes alone.
    proof fn same_stretches(self, before: Funcdata, high: HighVariable, n: nat)
        requires
            self.same_but_highs(before),
        ensures
            self.instance_stretches(high, n) == before.instance_stretches(high, n),
        decreases n,
    {
        if n > 0 {
            self.same_stretches(before, high, (n - 1) as nat);
        }
    }

    proof fn same_alive(self, before: Funcdata, high: HighVariable)
        requires
            self.same_but_highs(before),
        ensures
            self.alive(high) == before.alive(high),
            forall|after: HighVariable| self.refreshed(high, after) == before.refreshed(high, after),
    {
        self.same_stretches(before, high, high.inst@.len());
    }

    /// Finds where a variable, together with what shares storage with it, is alive.
    pub fn high_update_cover(&mut self, high: HighId)
        requires
            old(self).has_high(high),
            old(self).variable(high).piece is None ==> old(self).instances_known(old(self).variable(high)),
            old(self).variable(high).piece is Some ==> old(self).reach_known(high),
        ensures
            if old(self).variable(high).piece is Some {
                exists|mid: Funcdata| #[trigger]
                    mid.intersected(*old(self), high) && final(self).covered(mid, high)
            } else {
                &&& final(self).same_but_highs(*old(self))
                &&& final(self).highs.slots@ == old(self).highs.with(high.0, final(self).variable(high))
                &&& old(self).refreshed(old(self).variable(high), final(self).variable(high))
            },
    {
        if self.high(high).piece.is_none() {
            self.high_update_internal_cover(high);
        } else {
            VariablePiece::update_intersections(self, high);
            let ghost mid = *self;
            proof {
                old(self).sharing_known(mid, high);
            }
            VariablePiece::update_cover(self, high);
            assert(mid.intersected(*old(self), high) && self.covered(mid, high));
        }
    }
}

} // verus!

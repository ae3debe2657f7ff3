//! Merging the varnodes of two variables.
use vstd::prelude::*;
use crate::arena::Arena;
use crate::error::{Error, Result};
use crate::funcdata::Funcdata;
use crate::ids::{HighId, VarnodeId};
use crate::variable::{HighVariable, VariablePiece};
use crate::varnode::Varnode;

verus! {

/// How much of a list is left from a place on.
pub open spec fn left(len: nat, i: nat) -> nat {
    if i < len {
        (len - i) as nat
    } else {
        0
    }
}

/// Whether a varnode is among the first `n` of a list.
pub open spec fn holds_vn(list: Seq<VarnodeId>, vn: u32, n: int) -> bool {
    exists|i: int| 0 <= i < n && (#[trigger] list[i]).0 == vn
}

pub proof fn holds_next(list: Seq<VarnodeId>, vn: u32, n: int)
    requires
        0 <= n < list.len(),
    ensures
        holds_vn(list, vn, n + 1) == (holds_vn(list, vn, n) || list[n].0 == vn),
{
    if holds_vn(list, vn, n) {
        let i = choose|i: int| 0 <= i < n && (#[trigger] list[i]).0 == vn;
        assert(list[i].0 == vn && i < n + 1);
    }
    if list[n].0 == vn {
        assert(list[n].0 == vn && n < n + 1);
    }
    if holds_vn(list, vn, n + 1) && !holds_vn(list, vn, n) {
        let i = choose|i: int| 0 <= i < n + 1 && (#[trigger] list[i]).0 == vn;
        assert(i == n);
    }
}

/// The first `n` varnodes of a list have been given to a variable, their merge groups raised.
pub open spec fn rehomed(
    after: Arena<Varnode>,
    before: Arena<Varnode>,
    list: Seq<VarnodeId>,
    high: HighId,
    raise: i16,
    n: int,
) -> bool {
    &&& after.slots@.len() == before.slots@.len()
    &&& forall|v: u32| #![trigger after.slots@[v as int]]
        v < after.slots@.len() ==> after.slots@[v as int] == if before.has(v) && holds_vn(list, v, n) {
            Some(
                Varnode {
                    high: Some(high),
                    merge_group: before.item(v).merge_group.wrapping_add(raise),
                    ..before.item(v)
                },
            )
        } else {
            before.slots@[v as int]
        }
}

impl Funcdata {
    /// The first place of a variable, from the given one on, where a varnode can
    /// stand so that what is stored before it comes before it.
    pub open spec fn loc_place(self, inst: Seq<VarnodeId>, vn: VarnodeId, i: nat) -> nat
        decreases inst.len() - i,
    {
        if i < inst.len() && HighVariable::stored_before(self.value(inst[i as int]), self.value(vn)) {
            self.loc_place(inst, vn, i + 1)
        } else {
            i
        }
    }

    fn high_lower_bound(&self, high: HighId, vn: VarnodeId) -> (res: usize)
        requires
            self.has_high(high),
            self.instances_exist(self.variable(high)),
            self.has_vn(vn),
        ensures
            res == self.loc_place(self.variable(high).inst@, vn, 0),
            res <= self.variable(high).inst@.len(),
    {
        let target = self.vn(vn);
        let inst = &self.high(high).inst;
        let mut i: usize = 0;
        while i < inst.len()
            invariant
                i <= inst@.len(),
                inst@ == self.variable(high).inst@,
                self.instances_exist(self.variable(high)),
                *target == self.value(vn),
                self.loc_place(inst@, vn, i as nat) == self.loc_place(inst@, vn, 0),
            decreases inst@.len() - i,
        {
            assert(self.has_vn(self.variable(high).inst@[i as int]));
            if !HighVariable::compare_just_loc(self.vn(inst[i]), target) {
                return i;
            }
            i = i + 1;
        }
        i
    }

    /// The first place of a list, from the given one on, that holds a varnode,
    /// or the length of the list.
    pub open spec fn found_from(inst: Seq<VarnodeId>, vn: VarnodeId, i: nat) -> nat
        decreases inst.len() - i,
    {
        if i >= inst.len() {
            inst.len()
        } else if inst[i as int] == vn {
            i
        } else {
            Funcdata::found_from(inst, vn, i + 1)
        }
    }

    /// The notes of a variable that has lost a varnode.
    pub open spec fn notes_on_loss(highflags: u32, mapped: bool) -> u32 {
        let dirty = highflags | (HighVariable::FLAGSDIRTY | HighVariable::NAMEREPDIRTY | HighVariable::COVERDIRTY
            | HighVariable::TYPEDIRTY);
        if mapped {
            dirty | HighVariable::SYMBOLDIRTY
        } else {
            dirty
        }
    }

    /// A variable has lost a varnode.
    pub open spec fn lost(self, before: Funcdata, high: HighId, vn: VarnodeId, place: nat) -> bool {
        let old_high = before.variable(high);
        &&& self.same_but(before, high)
        &&& self.variable(high) == (HighVariable {
            inst: self.variable(high).inst,
            highflags: Funcdata::notes_on_loss(old_high.highflags, before.value(vn).mapentry is Some),
            ..old_high
        })
        &&& self.variable(high).inst@ == old_high.inst@.remove(place as int)
    }

    /// What taking a varnode out of a variable does. Nothing, if it is not there.
    pub open spec fn removed(self, before: Funcdata, high: HighId, vn: VarnodeId) -> bool {
        let inst = before.variable(high).inst@;
        let place = Funcdata::found_from(inst, vn, before.loc_place(inst, vn, 0));
        if place >= inst.len() {
            self == before
        } else {
            exists|mid: Funcdata| #[trigger]
                mid.lost(before, high, vn, place) && if before.variable(high).piece is Some {
                    self.same_but_highs(mid) && crate::variable::piece::marks_extended(mid.highs, self.highs, high)
                } else {
                    self == mid
                }
        }
    }

    /// Takes a varnode out of a variable.
    pub fn high_remove(&mut self, high: HighId, vn: VarnodeId)
        requires
            old(self).has_high(high),
            old(self).instances_exist(old(self).variable(high)),
            old(self).has_vn(vn),
        ensures
            final(self).removed(*old(self), high, vn),
    {
        let ghost before = *self;
        let start: usize = self.high_lower_bound(high, vn);
        let has_entry = self.vn(vn).get_symbol_entry().is_some();
        let mut place: usize = start;
        let count: usize = self.high(high).inst.len();
        while place < count && self.high(high).inst[place] != vn
            invariant
                *self == before,
                before.has_high(high),
                count == before.variable(high).inst@.len(),
                place <= count,
                Funcdata::found_from(before.variable(high).inst@, vn, place as nat) == Funcdata::found_from(
                    before.variable(high).inst@,
                    vn,
                    start as nat,
                ),
            decreases count - place,
        {
            place = place + 1;
        }
        if place >= count {
            return;
        }
        let high_data = self.high_mut(high);
        high_data.inst.remove(place);
        high_data.highflags = high_data.highflags | (HighVariable::FLAGSDIRTY | HighVariable::NAMEREPDIRTY
            | HighVariable::COVERDIRTY | HighVariable::TYPEDIRTY);
        if has_entry {
            high_data.highflags = high_data.highflags | HighVariable::SYMBOLDIRTY;
        }
        let ghost mid = *self;
        assert(Funcdata::found_from(before.variable(high).inst@, vn, place as nat) == place);
        assert(mid.lost(before, high, vn, place as nat));
        assert(before.loc_place(before.variable(high).inst@, vn, 0) == start as nat);
        if self.high(high).piece.is_some() {
            VariablePiece::mark_extend_cover_dirty(&mut self.highs, high);
        }
    }

    /// Puts a varnode into a variable.
    pub fn high_insert(&mut self, high: HighId, newvn: VarnodeId, merge_group: i16)
        requires
            old(self).has_high(high),
            old(self).instances_exist(old(self).variable(high)),
            old(self).has_vn(newvn),
        ensures
            *final(self) == (Funcdata { highs: final(self).highs, varnodes: final(self).varnodes, ..*old(self) }),
            final(self).highs.slots@ == old(self).highs.with(high.0, final(self).variable(high)),
            final(self).variable(high) == (HighVariable {
                inst: final(self).variable(high).inst,
                ..old(self).variable(high)
            }),
            final(self).variable(high).inst@ == old(self).variable(high).inst@.insert(
                old(self).loc_place(old(self).variable(high).inst@, newvn, 0) as int,
                newvn,
            ),
            final(self).varnodes.slots@ == old(self).varnodes.with(
                newvn.0,
                Varnode { high: Some(high), merge_group, ..old(self).value(newvn) },
            ),
    {
        let position: usize = self.high_lower_bound(high, newvn);
        self.high_mut(high).inst.insert(position, newvn);
        self.vn_mut(newvn).set_high(Some(high), merge_group);
    }

    /// Two lists of varnodes brought together by where they are stored, from the
    /// given places on. Of varnodes stored at the same place those of the first come first.
    pub open spec fn by_storage(self, first: Seq<VarnodeId>, second: Seq<VarnodeId>, i: nat, j: nat) -> Seq<VarnodeId>
        decreases left(first.len(), i) + left(second.len(), j),
    {
        if i < first.len() && j < second.len() {
            if HighVariable::stored_before(self.value(second[j as int]), self.value(first[i as int])) {
                seq![second[j as int]] + self.by_storage(first, second, i, j + 1)
            } else {
                seq![first[i as int]] + self.by_storage(first, second, i + 1, j)
            }
        } else if i < first.len() {
            seq![first[i as int]] + self.by_storage(first, second, i + 1, j)
        } else if j < second.len() {
            seq![second[j as int]] + self.by_storage(first, second, i, j + 1)
        } else {
            Seq::empty()
        }
    }

    fn merge_lists(&self, first: &Vec<VarnodeId>, second: &Vec<VarnodeId>) -> (res: Vec<VarnodeId>)
        requires
            forall|i: int| #![trigger first@[i]] 0 <= i < first@.len() ==> self.has_vn(first@[i]),
            forall|i: int| #![trigger second@[i]] 0 <= i < second@.len() ==> self.has_vn(second@[i]),
        ensures
            res@ == self.by_storage(first@, second@, 0, 0),
    {
        let mut merged: Vec<VarnodeId> = Vec::new();
        let mut i: usize = 0;
        let mut j: usize = 0;
        assert(merged@ + self.by_storage(first@, second@, 0, 0) =~= self.by_storage(first@, second@, 0, 0));
        while i < first.len() || j < second.len()
            invariant
                i <= first@.len(),
                j <= second@.len(),
                forall|k: int| #![trigger first@[k]] 0 <= k < first@.len() ==> self.has_vn(first@[k]),
                forall|k: int| #![trigger second@[k]] 0 <= k < second@.len() ==> self.has_vn(second@[k]),
                merged@ + self.by_storage(first@, second@, i as nat, j as nat) == self.by_storage(
                    first@,
                    second@,
                    0,
                    0,
                ),
            decreases first@.len() - i + second@.len() - j,
        {
            let ghost sofar = merged@;
            let take_second = i >= first.len() || (j < second.len() && HighVariable::compare_just_loc(
                self.vn(second[j]),
                self.vn(first[i]),
            ));
            let ghost rest = self.by_storage(first@, second@, i as nat, j as nat);
            if take_second {
                merged.push(second[j]);
                j = j + 1;
            } else {
                merged.push(first[i]);
                i = i + 1;
            }
            assert(sofar + rest =~= merged@ + self.by_storage(first@, second@, i as nat, j as nat));
        }
        assert(merged@ + Seq::<VarnodeId>::empty() =~= merged@);
        merged
    }

    /// What a variable takes over from another at once: the notes that follow and the symbol.
    pub open spec fn absorbing(first: HighVariable, second: HighVariable) -> HighVariable {
        let noted = HighVariable {
            highflags: first.highflags | (HighVariable::FLAGSDIRTY | HighVariable::NAMEREPDIRTY
                | HighVariable::TYPEDIRTY),
            ..first
        };
        if second.symbol is Some && !second.note(HighVariable::SYMBOLDIRTY) {
            HighVariable {
                symbol: second.symbol,
                symboloffset: second.symboloffset,
                highflags: noted.highflags & !HighVariable::SYMBOLDIRTY,
                ..noted
            }
        } else {
            noted
        }
    }

    /// The varnodes of one variable have been merged into another.
    pub open spec fn united(self, before: Funcdata, high: HighId, tv2: HighId, speculative: bool) -> bool {
        let first = before.variable(high);
        let second = before.variable(tv2);
        let absorbed = Funcdata::absorbing(first, second);
        let covers = !absorbed.note(HighVariable::COVERDIRTY) && !second.note(HighVariable::COVERDIRTY);
        let now = self.variable(high);
        let emptied = self.variable(tv2);
        &&& self == (Funcdata { highs: self.highs, varnodes: self.varnodes, ..before })
        &&& rehomed(
            self.varnodes,
            before.varnodes,
            second.inst@,
            high,
            if speculative {
                first.num_merge_classes as i16
            } else {
                0
            },
            second.inst@.len() as int,
        )
        &&& self.highs.slots@ == before.highs.slots@.update(high.0 as int, Some(now)).update(
            tv2.0 as int,
            Some(emptied),
        )
        &&& now == (HighVariable {
            inst: now.inst,
            internal_cover: now.internal_cover,
            num_merge_classes: if speculative {
                first.num_merge_classes.wrapping_add(second.num_merge_classes)
            } else {
                first.num_merge_classes
            },
            highflags: if covers {
                absorbed.highflags
            } else {
                absorbed.highflags | HighVariable::COVERDIRTY
            },
            ..absorbed
        })
        &&& now.inst@ == before.by_storage(first.inst@, second.inst@, 0, 0)
        &&& now.internal_cover.stretches@ == if covers {
            first.internal_cover.stretches@ + second.internal_cover.stretches@
        } else {
            first.internal_cover.stretches@
        }
        &&& emptied == (HighVariable { inst: emptied.inst, ..second })
        &&& emptied.inst@.len() == 0
    }

    /// What merging one variable into another does, apart from groups: it fails if
    /// the merge is no guess but guesses have been made before.
    pub open spec fn merged_internal(
        self,
        before: Funcdata,
        high: HighId,
        tv2: HighId,
        speculative: bool,
        res: Result<()>,
    ) -> bool {
        let first = before.variable(high);
        let second = before.variable(tv2);
        if !speculative && (first.num_merge_classes != 1 || second.num_merge_classes != 1) {
            &&& self.same_but_highs(before)
            &&& self.highs.slots@ == before.highs.with(high.0, Funcdata::absorbing(first, second))
            &&& res matches Err(e) && e.is_lowlevel(
                "Making a non-speculative merge after speculative merges have occurred"@,
            )
        } else {
            &&& res is Ok
            &&& exists|mid: Funcdata| #[trigger]
                mid.united(before, high, tv2, speculative) && self.destroyed(mid, tv2)
        }
    }

    /// Two variables can be merged.
    pub open spec fn can_merge(self, high: HighId, tv2: HighId, speculative: bool) -> bool {
        &&& high != tv2
        &&& self.has_high(high)
        &&& self.has_high(tv2)
        &&& self.instances_exist(self.variable(high))
        &&& self.instances_exist(self.variable(tv2))
        &&& self.variable(tv2).piece matches Some(piece) ==> self.has_group(piece.group)
        &&& speculative ==> self.variable(tv2).inst@.no_duplicates()
    }

    /// Gives the varnodes of a list to a variable and raises their merge groups.
    fn rehome(&mut self, list: &Vec<VarnodeId>, high: HighId, raise: i16)
        requires
            forall|i: int| #![trigger list@[i]] 0 <= i < list@.len() ==> old(self).has_vn(list@[i]),
            raise == 0 || list@.no_duplicates(),
        ensures
            *final(self) == (Funcdata { varnodes: final(self).varnodes, ..*old(self) }),
            rehomed(final(self).varnodes, old(self).varnodes, list@, high, raise, list@.len() as int),
    {
        let ghost before = self.varnodes;
        let mut i: usize = 0;
        while i < list.len()
            invariant
                i <= list@.len(),
                before == old(self).varnodes,
                forall|k: int| #![trigger list@[k]] 0 <= k < list@.len() ==> old(self).has_vn(list@[k]),
                raise == 0 || list@.no_duplicates(),
                *self == (Funcdata { varnodes: self.varnodes, ..*old(self) }),
                rehomed(self.varnodes, before, list@, high, raise, i as int),
            decreases list@.len() - i,
        {
            let vn = list[i];
            let ghost mid = self.varnodes;
            proof {
                assert(before.has(list@[i as int].0));
                assert(mid.slots@[vn.0 as int] is Some);
            }
            let group: i16 = self.vn(vn).get_merge_group().wrapping_add(raise);
            self.vn_mut(vn).set_high(Some(high), group);
            proof {
                assert forall|v: u32| #![trigger self.varnodes.slots@[v as int]]
                    v < self.varnodes.slots@.len() implies self.varnodes.slots@[v as int] == if before.has(v)
                    && holds_vn(list@, v, i + 1) {
                    Some(
                        Varnode {
                            high: Some(high),
                            merge_group: before.item(v).merge_group.wrapping_add(raise),
                            ..before.item(v)
                        },
                    )
                } else {
                    before.slots@[v as int]
                } by {
                    holds_next(list@, v, i as int);
                    assert(mid.slots@[v as int] == mid.slots@[v as int]);
                    if v == vn.0 && holds_vn(list@, v, i as int) {
                        let k = choose|k: int| 0 <= k < i && (#[trigger] list@[k]).0 == v;
                        assert(list@[k] == list@[i as int]);
                        assert(raise == 0);
                    }
                }
            }
            i = i + 1;
        }
    }

    /// A copy of the varnodes of a variable.
    fn instances(&self, high: HighId) -> (res: Vec<VarnodeId>)
        requires
            self.has_high(high),
        ensures
            res@ == self.variable(high).inst@,
    {
        let inst = &self.high(high).inst;
        let mut res: Vec<VarnodeId> = Vec::new();
        let mut i: usize = 0;
        while i < inst.len()
            invariant
                i <= inst@.len(),
                res@ =~= inst@.take(i as int),
            decreases inst@.len() - i,
        {
            res.push(inst[i]);
            i = i + 1;
        }
        res
    }

    /// Merges the varnodes of one variable into another, which then vanishes.
    pub fn high_merge_internal(&mut self, high: HighId, tv2: HighId, isspeculative: bool) -> (res: Result<()>)
        requires
            old(self).can_merge(high, tv2, isspeculative),
        ensures
            final(self).merged_internal(*old(self), high, tv2, isspeculative, res),
    {
        let ghost before = *self;
        let ghost first = before.variable(high);
        let ghost second = before.variable(tv2);
        let tv2_symbol = self.high(tv2).symbol;
        let tv2_flags: u32 = self.high(tv2).highflags;
        let tv2_offset: i32 = self.high(tv2).symboloffset;
        let tv2_classes: i32 = self.high(tv2).num_merge_classes;
        let high_data = self.high_mut(high);
        high_data.highflags = high_data.highflags | (HighVariable::FLAGSDIRTY | HighVariable::NAMEREPDIRTY
            | HighVariable::TYPEDIRTY);
        if tv2_symbol.is_some() && (tv2_flags & HighVariable::SYMBOLDIRTY) == 0 {
            high_data.symbol = tv2_symbol;
            high_data.symboloffset = tv2_offset;
            high_data.highflags = high_data.highflags & !HighVariable::SYMBOLDIRTY;
        }
        let ghost absorbed = *self;
        assert(absorbed.variable(tv2) == second);
        assert(absorbed.variable(high) == Funcdata::absorbing(first, second));
        let classes: i32 = self.high(high).num_merge_classes;
        if !isspeculative && (classes != 1 || tv2_classes != 1) {
            return Err(
                Error::lowlevel("Making a non-speculative merge after speculative merges have occurred"),
            );
        }
        let tv2_inst = self.instances(tv2);
        let instcopy = self.instances(high);
        proof {
            assert forall|i: int| #![trigger tv2_inst@[i]] 0 <= i < tv2_inst@.len() implies self.has_vn(tv2_inst@[i]) by {
                assert(before.has_vn(second.inst@[i]));
            }
            assert forall|i: int| #![trigger instcopy@[i]] 0 <= i < instcopy@.len() implies self.has_vn(instcopy@[i]) by {
                assert(before.has_vn(first.inst@[i]));
            }
        }
        let merged = self.merge_lists(&instcopy, &tv2_inst);
        proof {
            self.same_storage(before, instcopy@, tv2_inst@, 0, 0);
        }
        if isspeculative {
            self.rehome(&tv2_inst, high, classes as i16);
            self.high_mut(high).num_merge_classes = classes.wrapping_add(tv2_classes);
        } else {
            self.rehome(&tv2_inst, high, 0);
        }
        self.high_mut(high).inst = merged;
        self.high_mut(tv2).inst = Vec::new();
        if (self.high(high).highflags & HighVariable::COVERDIRTY) == 0 && (self.high(tv2).highflags
            & HighVariable::COVERDIRTY) == 0 {
            let tv2_cover = self.high(tv2).internal_cover.copy();
            self.high_mut(high).internal_cover.merge(&tv2_cover);
        } else {
            let high_data = self.high_mut(high);
            high_data.highflags = high_data.highflags | HighVariable::COVERDIRTY;
        }
        let ghost mid = *self;
        proof {
            assert(self.highs.slots@ =~= before.highs.slots@.update(high.0 as int, Some(self.variable(high))).update(
                tv2.0 as int,
                Some(self.variable(tv2)),
            ));
            assert(mid.united(before, high, tv2, isspeculative));
        }
        self.high_destroy(tv2);
        Ok(())
    }

    proof fn same_storage(self, before: Funcdata, first: Seq<VarnodeId>, second: Seq<VarnodeId>, i: nat, j: nat)
        requires
            self.same_but_highs(before),
        ensures
            self.by_storage(first, second, i, j) == before.by_storage(first, second, i, j),
        decreases left(first.len(), i) + left(second.len(), j),
    {
        if i < first.len() || j < second.len() {
            if i < first.len() {
                self.same_storage(before, first, second, i + 1, j);
            }
            if j < second.len() {
                self.same_storage(before, first, second, i, j + 1);
            }
        }
    }
}

} // verus!

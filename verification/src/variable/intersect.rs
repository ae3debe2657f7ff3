//! Testing variables for intersection, with what is known from before.
use vstd::prelude::*;
use crate::cover::AffectingOp;
use crate::error::{Error, Result};
use crate::funcdata::Funcdata;
use crate::ids::HighId;
use crate::variable::edges::{HighEdge, HighIntersectTest};
use crate::variable::HighVariable;
use crate::varnode::Varnode;

verus! {

impl Funcdata {
    /// A variable has varnodes of which it is known where they are alive.
    pub open spec fn attached(self, high: HighId) -> bool {
        self.instances_alive(high) && self.variable(high).inst@.len() > 0
    }

    /// All that testing a variable looks at is known.
    pub open spec fn testable(self, high: HighId) -> bool {
        &&& self.attached(high)
        &&& self.variable(high).piece matches Some(piece) ==> {
            let list = self.group(piece.group).piece_set@;
            &&& self.has_group(piece.group)
            &&& forall|i: int| #![trigger list[i]]
                0 <= i < list.len() ==> self.attached(list[i].high) && self.variable(list[i].high).piece is Some
            &&& forall|i: int| #![trigger piece.intersection@[i]]
                0 <= i < piece.intersection@.len() ==> self.attached(piece.intersection@[i]) && self.variable(
                    piece.intersection@[i],
                ).piece is Some
        }
    }

    /// Of the variables nothing has changed but where they are alive and, for
    /// one, what shares storage with it.
    pub open spec fn reshaped(self, before: Funcdata, high: HighId) -> bool {
        &&& self.same_but_highs(before)
        &&& self.highs.slots@.len() == before.highs.slots@.len()
        &&& forall|h: u32| #![trigger self.highs.slots@[h as int]]
            h < self.highs.slots@.len() ==> {
                let old_high = before.highs.item(h);
                let new_high = self.highs.item(h);
                &&& self.highs.has(h) == before.highs.has(h)
                &&& before.highs.has(h) ==> {
                    &&& new_high.inst == old_high.inst
                    &&& (new_high.piece is Some) == (old_high.piece is Some)
                    &&& old_high.piece is Some ==> {
                        &&& new_high.piece->0.group == old_high.piece->0.group
                        &&& h != high.0 ==> new_high.piece->0.intersection == old_high.piece->0.intersection
                    }
                }
            }
        &&& before.variable(high).piece matches Some(piece) ==> forall|i: int|
            #![trigger self.variable(high).piece->0.intersection@[i]]
            0 <= i < self.variable(high).piece->0.intersection@.len() ==> {
                let other = self.variable(high).piece->0.intersection@[i];
                ||| piece.intersection@.contains(other)
                ||| crate::variable::piece::listed(
                    before.group(piece.group).piece_set@,
                    other.0,
                    before.group(piece.group).piece_set@.len() as int,
                )
            }
    }

    proof fn reshaped_attached(self, before: Funcdata, high: HighId, other: HighId)
        requires
            self.reshaped(before, high),
            before.attached(other),
        ensures
            self.attached(other),
            (self.variable(other).piece is Some) == (before.variable(other).piece is Some),
    {
        assert(self.highs.slots@[other.0 as int] is Some);
        let inst = self.variable(other).inst@;
        assert forall|i: int| #![trigger inst[i]] 0 <= i < inst.len() implies self.has_vn(inst[i]) && self.value(
            inst[i],
        ).cover is Some by {
            assert(before.has_vn(before.variable(other).inst@[i]));
        }
    }

    pub(crate) proof fn reshaped_testable(self, before: Funcdata, high: HighId, other: HighId)
        requires
            self.reshaped(before, high),
            before.testable(high),
            before.testable(other),
        ensures
            self.testable(other),
    {
        self.reshaped_attached(before, high, other);
        if self.variable(other).piece is Some {
            let old_piece = before.variable(other).piece->0;
            let piece = self.variable(other).piece->0;
            let list = before.group(old_piece.group).piece_set@;
            assert forall|i: int| #![trigger list[i]] 0 <= i < list.len() implies self.attached(list[i].high)
                && self.variable(list[i].high).piece is Some by {
                self.reshaped_attached(before, high, list[i].high);
            }
            assert forall|i: int| #![trigger piece.intersection@[i]]
                0 <= i < piece.intersection@.len() implies self.attached(piece.intersection@[i]) && self.variable(
                piece.intersection@[i],
            ).piece is Some by {
                let sharer = piece.intersection@[i];
                if other == high {
                    let own = self.variable(high).piece->0.intersection@[i];
                    if old_piece.intersection@.contains(sharer) {
                        let k = choose|k: int|
                            0 <= k < old_piece.intersection@.len() && old_piece.intersection@[k] == sharer;
                        assert(before.attached(old_piece.intersection@[k]));
                    } else {
                        let k = choose|k: int| 0 <= k < list.len() && (#[trigger] list[k]).high.0 == sharer.0;
                        assert(list[k].high == sharer);
                    }
                } else {
                    assert(before.attached(old_piece.intersection@[i]));
                }
                self.reshaped_attached(before, high, sharer);
            }
        }
    }

    proof fn reshaped_twice(self, mid: Funcdata, before: Funcdata, high: HighId)
        requires
            mid.reshaped(before, high),
            self.reshaped(mid, high),
            before.has_high(high),
            forall|i: int| #![trigger self.variable(high).piece->0.intersection@[i]]
                self.variable(high).piece is Some && 0 <= i < self.variable(high).piece->0.intersection@.len()
                    ==> self.variable(high).piece->0.intersection@ == mid.variable(high).piece->0.intersection@,
        ensures
            self.reshaped(before, high),
    {
        assert(mid.highs.slots@[high.0 as int] is Some);
        assert forall|h: u32| #![trigger self.highs.slots@[h as int]] h < self.highs.slots@.len() implies {
            let old_high = before.highs.item(h);
            let new_high = self.highs.item(h);
            &&& self.highs.has(h) == before.highs.has(h)
            &&& before.highs.has(h) ==> {
                &&& new_high.inst == old_high.inst
                &&& (new_high.piece is Some) == (old_high.piece is Some)
                &&& old_high.piece is Some ==> {
                    &&& new_high.piece->0.group == old_high.piece->0.group
                    &&& h != high.0 ==> new_high.piece->0.intersection == old_high.piece->0.intersection
                }
            }
        } by {
            assert(mid.highs.slots@[h as int] == mid.highs.slots@[h as int]);
        }
        if before.variable(high).piece is Some {
            let piece = before.variable(high).piece->0;
            assert forall|i: int| #![trigger self.variable(high).piece->0.intersection@[i]]
                0 <= i < self.variable(high).piece->0.intersection@.len() implies {
                let other = self.variable(high).piece->0.intersection@[i];
                ||| piece.intersection@.contains(other)
                ||| crate::variable::piece::listed(
                    before.group(piece.group).piece_set@,
                    other.0,
                    before.group(piece.group).piece_set@.len() as int,
                )
            } by {
                let other = mid.variable(high).piece->0.intersection@[i];
            }
        }
    }

    proof fn intersected_reshapes(self, before: Funcdata, high: HighId)
        requires
            before.has_high(high),
            before.variable(high).piece is Some,
            self.intersected(before, high),
        ensures
            self.reshaped(before, high),
    {
        let old_high = before.variable(high);
        let list = before.group(old_high.piece->0.group).piece_set@;
        assert forall|i: int| #![trigger self.variable(high).piece->0.intersection@[i]]
            0 <= i < self.variable(high).piece->0.intersection@.len() implies {
            let other = self.variable(high).piece->0.intersection@[i];
            ||| old_high.piece->0.intersection@.contains(other)
            ||| crate::variable::piece::listed(list, other.0, list.len() as int)
        } by {
            if old_high.note(HighVariable::INTERSECTDIRTY) {
                before.sharing_listed(list, high, list.len(), i);
                let k = choose|k: int|
                    0 <= k < list.len() && (#[trigger] list[k]).high == before.sharing(list, high, list.len())[i]
                        && list[k].high != high;
                assert(list[k].high.0 == self.variable(high).piece->0.intersection@[i].0);
            } else {
                assert(old_high.piece->0.intersection@[i] == self.variable(high).piece->0.intersection@[i]);
            }
        }
    }

    proof fn covered_reshapes(self, before: Funcdata, high: HighId)
        requires
            before.has_high(high),
            before.variable(high).piece is Some,
            self.covered(before, high),
        ensures
            self.reshaped(before, high),
            self.variable(high).piece->0.intersection == before.variable(high).piece->0.intersection,
    {
        let old_high = before.variable(high);
        let list = old_high.piece->0.intersection@;
        if old_high.note(HighVariable::COVERDIRTY | HighVariable::EXTENDCOVERDIRTY) {
            let mid = choose|mid: Funcdata| #[trigger]
                mid.refreshes(before, high, list.len() as int) && self.same_but(mid, high);
            assert(mid.highs.slots@[high.0 as int] is Some);
            assert forall|h: u32| #![trigger self.highs.slots@[h as int]] h < self.highs.slots@.len() implies {
                let o = before.highs.item(h);
                let n = self.highs.item(h);
                &&& self.highs.has(h) == before.highs.has(h)
                &&& before.highs.has(h) ==> {
                    &&& n.inst == o.inst
                    &&& (n.piece is Some) == (o.piece is Some)
                    &&& o.piece is Some ==> {
                        &&& n.piece->0.group == o.piece->0.group
                        &&& h != high.0 ==> n.piece->0.intersection == o.piece->0.intersection
                    }
                }
            } by {
                assert(mid.highs.slots@[h as int] == mid.highs.slots@[h as int]);
            }
        }
        assert forall|i: int| #![trigger self.variable(high).piece->0.intersection@[i]]
            0 <= i < self.variable(high).piece->0.intersection@.len() implies {
            let other = self.variable(high).piece->0.intersection@[i];
            ||| list.contains(other)
            ||| crate::variable::piece::listed(
                before.group(old_high.piece->0.group).piece_set@,
                other.0,
                before.group(old_high.piece->0.group).piece_set@.len() as int,
            )
        } by {
            assert(list[i] == self.variable(high).piece->0.intersection@[i]);
        }
    }

    /// It has been found where a variable, together with what shares storage with it, is alive.
    pub open spec fn cover_found(self, before: Funcdata, high: HighId) -> bool {
        if before.variable(high).piece is Some {
            exists|mid: Funcdata| #[trigger] mid.intersected(before, high) && self.covered(mid, high)
        } else {
            &&& self.same_but_highs(before)
            &&& self.highs.slots@ == before.highs.with(high.0, self.variable(high))
            &&& before.refreshed(before.variable(high), self.variable(high))
        }
    }

    pub(crate) proof fn found_reshapes(self, before: Funcdata, high: HighId)
        requires
            before.testable(high),
            self.cover_found(before, high),
        ensures
            self.reshaped(before, high),
    {
        if before.variable(high).piece is Some {
            let mid = choose|mid: Funcdata| #[trigger] mid.intersected(before, high) && self.covered(mid, high);
            mid.intersected_reshapes(before, high);
            assert(mid.highs.slots@[high.0 as int] is Some);
            self.covered_reshapes(mid, high);
            self.reshaped_twice(mid, before, high);
        }
    }

    proof fn testable_reach(self, high: HighId)
        requires
            self.testable(high),
        ensures
            self.instances_known(self.variable(high)),
            self.variable(high).piece is Some ==> self.reach_known(high),
    {
        self.attached_known(high);
        if self.variable(high).piece is Some {
            let piece = self.variable(high).piece->0;
            let list = self.group(piece.group).piece_set@;
            assert forall|i: int| #![trigger list[i]] 0 <= i < list.len() implies self.instances_known(
                self.variable(list[i].high),
            ) by {
                self.attached_known(list[i].high);
            }
            assert forall|i: int| #![trigger piece.intersection@[i]]
                0 <= i < piece.intersection@.len() implies self.has_high(piece.intersection@[i])
                && self.instances_known(self.variable(piece.intersection@[i])) by {
                self.attached_known(piece.intersection@[i]);
            }
        }
    }

    proof fn attached_known(self, high: HighId)
        requires
            self.attached(high),
        ensures
            self.instances_known(self.variable(high)),
    {
        let v = self.variable(high);
        assert forall|i: int| #![trigger v.inst@[i]] 0 <= i < v.inst@.len() implies self.has_vn(v.inst@[i]) && (
        self.value(v.inst@[0]).coverable() ==> self.value(v.inst@[i]).cover is Some) by {
            assert(self.has_vn(self.variable(high).inst@[i]));
        }
    }
}

/// What bringing a variable up to date does: if it was not, what is known of it is forgotten.
pub open spec fn updates_high(
    tests: Map<HighEdge, bool>,
    data: Funcdata,
    old_tests: Map<HighEdge, bool>,
    old_data: Funcdata,
    high: HighId,
    res: bool,
) -> bool {
    if old_data.variable(high).note(HighVariable::COVERDIRTY | HighVariable::EXTENDCOVERDIRTY) {
        !res && data.cover_found(old_data, high) && tests == crate::variable::edges::purged(old_tests, high)
    } else {
        res && data == old_data && tests == old_tests
    }
}

/// Whether two variables clash in one of the blocks where they are alive together.
pub open spec fn clash_somewhere(data: Funcdata, first: HighId, second: HighId) -> bool {
    let list = data.variable(first).full_cover().stretches@;
    let other = data.variable(second).full_cover().stretches@;
    let blocks = crate::cover::meeting_blocks(list, other, 2, list.len());
    exists|k: int| 0 <= k < blocks.len() && data.meet_in_block(first, second, #[trigger] blocks[k])
}

/// What the test of two variables that are up to date finds: that they clash, or
/// that one is tied to storage that an operation may change where the other is alive.
pub open spec fn tests_pair(
    data: Funcdata,
    old_data: Funcdata,
    ops: Seq<AffectingOp>,
    first: HighId,
    second: HighId,
    res: Result<bool>,
) -> bool {
    if clash_somewhere(old_data, first, second) {
        data == old_data && res == Ok::<bool, Error>(true)
    } else {
        exists|one: Funcdata, two: Funcdata|
            #![trigger one.flagged(old_data, first), two.flagged(one, second)]
            {
                let a_tied = (one.variable(first).flags & Varnode::ADDRTIED) != 0;
                let b_tied = (two.variable(second).flags & Varnode::ADDRTIED) != 0;
                &&& one.flagged(old_data, first)
                &&& two.flagged(one, second)
                &&& if a_tied == b_tied {
                    data == two && res == Ok::<bool, Error>(false)
                } else if a_tied {
                    data.flagged(two, first) && data.untied_outcome(ops, first, second, res)
                } else {
                    data.flagged(two, second) && data.untied_outcome(ops, second, first, res)
                }
            }
    }
}

/// What testing two variables does: what is known is taken, else it is found and noted.
pub open spec fn tests_intersection(
    tests: Map<HighEdge, bool>,
    data: Funcdata,
    old_tests: Map<HighEdge, bool>,
    old_data: Funcdata,
    ops: Seq<AffectingOp>,
    first: HighId,
    second: HighId,
    res: Result<bool>,
) -> bool {
    let edge = HighEdge { first, second };
    if first == second {
        tests == old_tests && data == old_data && res == Ok::<bool, Error>(false)
    } else {
        exists|
            tests1: Map<HighEdge, bool>,
            data1: Funcdata,
            ares: bool,
            tests2: Map<HighEdge, bool>,
            data2: Funcdata,
            bres: bool,
        |
            #![trigger updates_high(tests1, data1, old_tests, old_data, first, ares), updates_high(
                tests2,
                data2,
                tests1,
                data1,
                second,
                bres,
            )]
            {
                &&& updates_high(tests1, data1, old_tests, old_data, first, ares)
                &&& updates_high(tests2, data2, tests1, data1, second, bres)
                &&& if ares && bres && tests2.contains_key(edge) {
                    tests == tests2 && data == data2 && res == Ok::<bool, Error>(tests2[edge])
                } else {
                    &&& tests_pair(data, data2, ops, first, second, res)
                    &&& match res {
                        Ok(outcome) => tests == tests2.insert(edge, outcome).insert(
                            crate::variable::edges::turned(edge),
                            outcome,
                        ),
                        Err(_) => tests == tests2,
                    }
                }
            }
    }
}

impl HighIntersectTest {
    /// Brings a variable up to date. Whether it was.
    pub fn update_high(&mut self, data: &mut Funcdata, first: HighId) -> (res: bool)
        requires
            old(data).testable(first),
        ensures
            updates_high(final(self)@, *final(data), old(self)@, *old(data), first, res),
            final(data).reshaped(*old(data), first),
            old(self).listed_once() ==> final(self).listed_once(),
    {
        if !data.high(first).is_cover_dirty() {
            proof {
                let piece = data.variable(first).piece->0;
                assert forall|i: int| #![trigger data.variable(first).piece->0.intersection@[i]]
                    data.variable(first).piece is Some && 0 <= i < data.variable(
                        first,
                    ).piece->0.intersection@.len() implies piece.intersection@.contains(
                    data.variable(first).piece->0.intersection@[i],
                ) by {
                    assert(piece.intersection@[i] == data.variable(first).piece->0.intersection@[i]);
                }
            }
            return true;
        }
        proof {
            data.testable_reach(first);
        }
        data.high_update_cover(first);
        proof {
            assert(data.cover_found(*old(data), first));
            data.found_reshapes(*old(data), first);
        }
        self.purge_high(first);
        false
    }

    fn find_clash(&self, data: &Funcdata, first: HighId, second: HighId) -> (res: bool)
        requires
            data.testable(first),
            data.testable(second),
        ensures
            res == clash_somewhere(*data, first, second),
    {
        let a_cover = data.high(first).get_cover();
        let blocks = a_cover.intersect_list(data.high(second).get_cover(), 2);
        let mut k: usize = 0;
        while k < blocks.len()
            invariant
                k <= blocks@.len(),
                data.testable(first),
                data.testable(second),
                blocks@ == crate::cover::meeting_blocks(
                    data.variable(first).full_cover().stretches@,
                    data.variable(second).full_cover().stretches@,
                    2,
                    data.variable(first).full_cover().stretches@.len(),
                ),
                forall|i: int| #![trigger blocks@[i]]
                    0 <= i < k ==> !data.meet_in_block(first, second, blocks@[i]),
            decreases blocks@.len() - k,
        {
            if self.block_intersection(data, first, second, blocks[k]) {
                assert(data.meet_in_block(first, second, blocks@[k as int]));
                return true;
            }
            k = k + 1;
        }
        false
    }

    fn test_pair(
        &self,
        data: &mut Funcdata,
        affecting_ops: &Vec<AffectingOp>,
        first: HighId,
        second: HighId,
    ) -> (res: Result<bool>)
        requires
            old(data).testable(first),
            old(data).testable(second),
            first != second,
        ensures
            tests_pair(*final(data), *old(data), affecting_ops@, first, second, res),
    {
        if self.find_clash(data, first, second) {
            return Ok(true);
        }
        let ghost before = *data;
        proof {
            before.attached_exists(first);
            before.attached_exists(second);
        }
        let a_tied = data.high_is_addr_tied(first);
        let ghost one = *data;
        proof {
            one.flagged_exists(before, first, first);
            one.flagged_exists(before, first, second);
        }
        let b_tied = data.high_is_addr_tied(second);
        let ghost two = *data;
        proof {
            two.flagged_exists(one, second, first);
            two.flagged_exists(one, second, second);
            assert(one.flagged(before, first) && two.flagged(one, second));
        }
        if a_tied != b_tied {
            if a_tied {
                self.test_untied_call_intersection(data, affecting_ops, first, second)
            } else {
                self.test_untied_call_intersection(data, affecting_ops, second, first)
            }
        } else {
            Ok(false)
        }
    }

    /// Tests two variables for intersection.
    pub fn intersection(
        &mut self,
        data: &mut Funcdata,
        affecting_ops: &Vec<AffectingOp>,
        first: HighId,
        second: HighId,
    ) -> (res: Result<bool>)
        requires
            first != second ==> old(data).testable(first) && old(data).testable(second),
        ensures
            tests_intersection(
                final(self)@,
                *final(data),
                old(self)@,
                *old(data),
                affecting_ops@,
                first,
                second,
                res,
            ),
            old(self).listed_once() ==> final(self).listed_once(),
            first != second && !old(self)@.contains_key(HighEdge { first, second }) && crate::laws::meeting::cover_current(
                *old(data),
                old(data).variable(first),
            ) && crate::laws::meeting::cover_current(*old(data), old(data).variable(second)) ==> {
                &&& crate::laws::meeting::differ_at_once(*old(data), first, second) ==> res == Ok::<bool, Error>(true)
                &&& old(data).variable(first).piece is None && old(data).variable(second).piece is None
                    && crate::laws::meeting::shows(*old(data), old(data).variable(first), Varnode::ADDRTIED)
                    == crate::laws::meeting::shows(*old(data), old(data).variable(second), Varnode::ADDRTIED)
                    && !crate::laws::meeting::differ_at_once(*old(data), first, second) ==> res == Ok::<bool, Error>(false)
            },
    {
        if first == second {
            return Ok(false);
        }
        let ghost before = *data;
        let ghost tests0 = self@;
        let ares = self.update_high(data, first);
        let ghost data1 = *data;
        let ghost tests1 = self@;
        proof {
            data1.reshaped_testable(before, first, first);
            data1.reshaped_testable(before, first, second);
        }
        let bres = self.update_high(data, second);
        let ghost data2 = *data;
        let ghost tests2 = self@;
        proof {
            data2.reshaped_testable(data1, second, first);
            data2.reshaped_testable(data1, second, second);
            assert(updates_high(tests1, data1, tests0, before, first, ares));
            assert(updates_high(tests2, data2, tests1, data1, second, bres));
        }
        if ares && bres {
            if let Some(res) = self.known_test(HighEdge::new(first, second)) {
                return Ok(res);
            }
        }
        let tested = self.test_pair(data, affecting_ops, first, second);
        match tested {
            Ok(res) => {
                self.insert_test(HighEdge::new(first, second), res);
                self.insert_test(HighEdge::new(second, first), res);
            },
            Err(_) => {},
        }
        proof {
            assert(tests_intersection(self@, *data, tests0, before, affecting_ops@, first, second, tested));
            if !tests0.contains_key(HighEdge { first, second }) && crate::laws::meeting::cover_current(
                before,
                before.variable(first),
            ) && crate::laws::meeting::cover_current(before, before.variable(second)) {
                crate::laws::meeting::intersection_tells_difference(
                    self@,
                    *data,
                    tests0,
                    before,
                    affecting_ops@,
                    first,
                    second,
                    tested,
                );
            }
        }
        tested
    }
}

impl Funcdata {
    proof fn attached_exists(self, high: HighId)
        requires
            self.attached(high),
        ensures
            self.instances_exist(self.variable(high)),
    {
        let v = self.variable(high);
        assert forall|i: int| #![trigger v.inst@[i]] 0 <= i < v.inst@.len() implies self.has_vn(v.inst@[i]) by {
            assert(self.has_vn(self.variable(high).inst@[i]));
        }
    }

    proof fn flagged_exists(self, before: Funcdata, high: HighId, other: HighId)
        requires
            before.has_high(high),
            before.has_high(other),
            before.instances_exist(before.variable(other)),
            self.flagged(before, high),
        ensures
            self.has_high(other),
            self.instances_exist(self.variable(other)),
    {
        assert(self.highs.slots@[other.0 as int] is Some);
        let v = self.variable(other);
        assert forall|i: int| #![trigger v.inst@[i]] 0 <= i < v.inst@.len() implies self.has_vn(v.inst@[i]) by {
            assert(before.has_vn(before.variable(other).inst@[i]));
        }
    }
}

} // verus!

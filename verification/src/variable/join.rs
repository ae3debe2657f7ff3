//! Merging and grouping variables.
use vstd::prelude::*;
use crate::error::{Error, Result};
use crate::funcdata::Funcdata;
use crate::ids::{GroupId, HighId};
use crate::variable::edges::{HighEdge, HighIntersectTest};
use crate::variable::{HighVariable, PieceEntry, VariablePiece};

verus! {

/// A list of variables with one put in the place of another.
pub open spec fn renamed(list: Seq<HighId>, from: HighId, to: HighId) -> Seq<HighId> {
    list.map_values(|h: HighId| if h == from { to } else { h })
}

/// A variable that has got the piece of another, or has lost it.
pub open spec fn handed(before: Funcdata, high: HighId, tv2: HighId, h: HighId) -> HighVariable {
    let moved = HighVariable::INTERSECTDIRTY | HighVariable::EXTENDCOVERDIRTY;
    let piece = before.variable(tv2).piece->0;
    if h == high {
        HighVariable {
            piece: Some(VariablePiece { high, ..piece }),
            highflags: before.variable(high).highflags | (before.variable(tv2).highflags & moved),
            ..before.variable(high)
        }
    } else if h == tv2 {
        HighVariable { piece: None, highflags: before.variable(tv2).highflags & !moved, ..before.variable(tv2) }
    } else {
        before.variable(h)
    }
}

/// A variable in whose intersections one variable has been put in the place of another.
pub open spec fn reshared(after: HighVariable, before: HighVariable, from: HighId, to: HighId) -> bool {
    match before.piece {
        Some(piece) => {
            &&& after.piece is Some
            &&& after == (HighVariable {
                piece: Some(VariablePiece { intersection: after.piece->0.intersection, ..piece }),
                ..before
            })
            &&& after.piece->0.intersection@ == renamed(piece.intersection@, from, to)
        },
        None => after == before,
    }
}

/// The intersections of the first `n` pieces of a list name one variable in the place of another.
pub open spec fn reshares(
    after: Funcdata,
    before: Funcdata,
    list: Seq<PieceEntry>,
    from: HighId,
    to: HighId,
    n: int,
) -> bool {
    &&& after.same_but_highs(before)
    &&& after.highs.slots@.len() == before.highs.slots@.len()
    &&& forall|h: u32| #![trigger after.highs.slots@[h as int]]
        h < after.highs.slots@.len() ==> if before.highs.has(h) && crate::variable::piece::listed(list, h, n) {
            after.highs.has(h) && reshared(after.highs.item(h), before.highs.item(h), from, to)
        } else {
            after.highs.slots@[h as int] == before.highs.slots@[h as int]
        }
}

/// What handing the piece of one variable to another does.
pub open spec fn hands_piece(after: Funcdata, before: Funcdata, high: HighId, tv2: HighId) -> bool {
    exists|mid: Funcdata| #[trigger]
        piece_handed(mid, before, high, tv2) && reshares(
            after,
            mid,
            mid.group(before.variable(tv2).piece->0.group).piece_set@,
            tv2,
            high,
            mid.group(before.variable(tv2).piece->0.group).piece_set@.len() as int,
        )
}

/// The piece of one variable is that of another, and the group knows it.
pub open spec fn piece_handed(after: Funcdata, before: Funcdata, high: HighId, tv2: HighId) -> bool {
    let piece = before.variable(tv2).piece->0;
    let group = piece.group;
    &&& after.same_code(before)
    &&& after.highs.slots@ == before.highs.slots@.update(
        high.0 as int,
        Some(handed(before, high, tv2, high)),
    ).update(tv2.0 as int, Some(handed(before, high, tv2, tv2)))
    &&& after.has_group(group)
    &&& after.groups.slots@ == before.groups.with(group.0, after.group(group))
    &&& after.group(group).piece_set@ == crate::variable::group::with_piece(
        before.group(group).piece_set@,
        PieceEntry { offset: piece.group_offset, size: piece.size, high },
    )
    &&& after.group(group).size == before.group(group).size
    &&& after.group(group).symbol_offset == before.group(group).symbol_offset
}

proof fn renamed_twice(list: Seq<HighId>, from: HighId, to: HighId)
    requires
        from != to,
    ensures
        renamed(renamed(list, from, to), from, to) == renamed(list, from, to),
{
    assert(renamed(renamed(list, from, to), from, to) =~= renamed(list, from, to));
}

impl Funcdata {
    /// The piece of one variable can be handed to another.
    pub open spec fn can_hand(self, high: HighId, tv2: HighId) -> bool {
        let group = self.variable(tv2).piece->0.group;
        &&& high != tv2
        &&& self.has_high(high)
        &&& self.has_high(tv2)
        &&& self.variable(tv2).piece is Some
        &&& self.has_group(group)
        &&& self.group(group).settled(group, self.highs)
    }

    fn put_sharer(&mut self, member: HighId, from: HighId, to: HighId)
        requires
            old(self).has_high(member),
        ensures
            final(self).same_but(*old(self), member),
            reshared(final(self).variable(member), old(self).variable(member), from, to),
    {
        let ghost before = *self;
        let high_data = self.high_mut(member);
        match &mut high_data.piece {
            Some(piece) => {
                let ghost list = piece.intersection@;
                let mut i: usize = 0;
                while i < piece.intersection.len()
                    invariant
                        i <= list.len(),
                        piece.intersection@.len() == list.len(),
                        *piece == (VariablePiece { intersection: piece.intersection, ..before.variable(member).piece->0 }),
                        forall|k: int| #![trigger piece.intersection@[k]]
                            0 <= k < list.len() ==> piece.intersection@[k] == if k < i {
                                renamed(list, from, to)[k]
                            } else {
                                list[k]
                            },
                    decreases list.len() - i,
                {
                    if piece.intersection[i] == from {
                        piece.intersection.set(i, to);
                    }
                    i = i + 1;
                }
                assert(piece.intersection@ =~= renamed(list, from, to));
            },
            None => {},
        }
    }

    /// Hands the piece of one variable to another.
    pub fn high_transfer_piece(&mut self, high: HighId, tv2: HighId)
        requires
            old(self).can_hand(high, tv2),
        ensures
            hands_piece(*final(self), *old(self), high, tv2),
    {
        let ghost before = *self;
        let moved: u32 = HighVariable::INTERSECTDIRTY | HighVariable::EXTENDCOVERDIRTY;
        let moved_flags: u32 = self.high(tv2).highflags & moved;
        let tv2_data = self.high_mut(tv2);
        tv2_data.highflags = tv2_data.highflags & !moved;
        let taken = tv2_data.piece.take();
        match taken {
            Some(mut piece) => {
                piece.set_high(high);
                let group = piece.group;
                let entry = PieceEntry { offset: piece.group_offset, size: piece.size, high };
                let high_data = self.high_mut(high);
                high_data.piece = Some(piece);
                high_data.highflags = high_data.highflags | moved_flags;
                self.groups.get_mut(group.0).put_piece(entry);
                let ghost mid = *self;
                proof {
                    assert(mid.highs.slots@ =~= before.highs.slots@.update(
                        high.0 as int,
                        Some(handed(before, high, tv2, high)),
                    ).update(tv2.0 as int, Some(handed(before, high, tv2, tv2))));
                    assert(piece_handed(mid, before, high, tv2));
                    members_exist(mid, before, high, tv2);
                }
                let members = self.groups.get(group.0).pieces();
                let mut i: usize = 0;
                while i < members.len()
                    invariant
                        i <= members@.len(),
                        high != tv2,
                        members@ == mid.group(group).piece_set@,
                        forall|k: int| #![trigger members@[k]]
                            0 <= k < members@.len() ==> mid.has_high(members@[k].high),
                        reshares(*self, mid, members@, tv2, high, i as int),
                    decreases members@.len() - i,
                {
                    let member = members[i].high;
                    let ghost sofar = *self;
                    proof {
                        assert(mid.has_high(members@[i as int].high));
                        assert(sofar.highs.slots@[member.0 as int] is Some);
                    }
                    self.put_sharer(member, tv2, high);
                    proof {
                        assert forall|h: u32| #![trigger self.highs.slots@[h as int]]
                            h < self.highs.slots@.len() implies if mid.highs.has(h) && crate::variable::piece::listed(
                            members@,
                            h,
                            i + 1,
                        ) {
                            self.highs.has(h) && reshared(self.highs.item(h), mid.highs.item(h), tv2, high)
                        } else {
                            self.highs.slots@[h as int] == mid.highs.slots@[h as int]
                        } by {
                            crate::variable::piece::listed_next(members@, h, i as int);
                            assert(sofar.highs.slots@[h as int] == sofar.highs.slots@[h as int]);
                            assert(self.highs.slots@[h as int] == if h == member.0 {
                                Some(self.variable(member))
                            } else {
                                sofar.highs.slots@[h as int]
                            });
                            if h == member.0 && mid.highs.item(h).piece is Some {
                                renamed_twice(mid.highs.item(h).piece->0.intersection@, tv2, high);
                            }
                        }
                    }
                    i = i + 1;
                }
            },
            None => {},
        }
    }
}

/// The pieces of a group that has taken a variable in the place of another exist.
proof fn members_exist(mid: Funcdata, before: Funcdata, high: HighId, tv2: HighId)
    requires
        before.can_hand(high, tv2),
        piece_handed(mid, before, high, tv2),
    ensures
        forall|k: int| #![trigger mid.group(before.variable(tv2).piece->0.group).piece_set@[k]]
            0 <= k < mid.group(before.variable(tv2).piece->0.group).piece_set@.len() ==> mid.has_high(
                mid.group(before.variable(tv2).piece->0.group).piece_set@[k].high,
            ),
{
    let piece = before.variable(tv2).piece->0;
    let list = before.group(piece.group).piece_set@;
    let more = mid.group(piece.group).piece_set@;
    let place = crate::variable::group::piece_place(list, piece.group_offset as int, piece.size as int, 0);
    crate::variable::group::place_in_list(list, piece.group_offset as int, piece.size as int, 0);
    assert forall|k: int| #![trigger more[k]] 0 <= k < more.len() implies mid.has_high(more[k].high) by {
        if k != place {
            let o = if k < place || more.len() == list.len() {
                k
            } else {
                k - 1
            };
            assert(more[k] == list[o]);
            assert(before.highs.has(list[o].high.0));
        }
    }
}

/// The outcomes of tests are those of pairs of different variables that exist,
/// both ways round.
pub open spec fn tests_sound(known: Map<HighEdge, bool>, data: Funcdata) -> bool {
    forall|edge: HighEdge| #![trigger known.contains_key(edge)]
        known.contains_key(edge) ==> {
            &&& edge.first != edge.second
            &&& edge.first.0 != u32::MAX
            &&& edge.second.0 != u32::MAX
            &&& data.has_high(edge.first)
            &&& data.has_high(edge.second)
            &&& known.contains_key(crate::variable::edges::turned(edge))
        }
}

/// Moving the outcomes of a variable to another leaves none that name it.
proof fn moved_sound(known: Map<HighEdge, bool>, data: Funcdata, high1: HighId, high2: HighId)
    requires
        tests_sound(known, data),
        high1 != high2,
        data.has_high(high1),
        high1.0 != u32::MAX,
    ensures
        tests_sound(crate::variable::edges::moved_tests(known, data, high1, high2), data),
        forall|edge: HighEdge| #![trigger crate::variable::edges::moved_tests(known, data, high1, high2).contains_key(edge)]
            crate::variable::edges::moved_tests(known, data, high1, high2).contains_key(edge) ==> edge.first != high2
                && edge.second != high2,
{
    let moved = crate::variable::edges::moved_tests(known, data, high1, high2);
    assert forall|edge: HighEdge| #![trigger moved.contains_key(edge)] moved.contains_key(edge) implies {
        &&& edge.first != edge.second
        &&& edge.first.0 != u32::MAX
        &&& edge.second.0 != u32::MAX
        &&& data.has_high(edge.first)
        &&& data.has_high(edge.second)
        &&& edge.first != high2
        &&& edge.second != high2
        &&& moved.contains_key(crate::variable::edges::turned(edge))
    } by {
        let back = crate::variable::edges::turned(edge);
        assert(crate::variable::edges::turned(back) == edge);
        if crate::variable::edges::takes_over(known, high1, high2, edge) {
            let other = if edge.first == high1 && crate::variable::edges::tested(
                known,
                high2,
                high1,
                true,
                edge.second,
            ) {
                edge.second
            } else {
                edge.first
            };
            assert(known.contains_key(HighEdge { first: high2, second: other }));
            assert(crate::variable::edges::takes_over(known, high1, high2, back));
        } else {
            let rest = crate::variable::edges::left_of_first(known, data, high1, high2);
            assert(rest.contains_key(edge));
            assert(known.contains_key(edge));
            assert(known.contains_key(back));
            if edge.first == high2 || edge.second == high2 {
                assert(crate::variable::edges::touches(edge, known, high2));
            }
            assert(!crate::variable::edges::touches(back, known, high2));
            assert(rest.contains_key(back));
        }
    }
}

proof fn sound_elsewhere(known: Map<HighEdge, bool>, data: Funcdata, next: Funcdata, gone: HighId)
    requires
        tests_sound(known, data),
        forall|edge: HighEdge| #![trigger known.contains_key(edge)]
            known.contains_key(edge) ==> edge.first != gone && edge.second != gone,
        forall|h: HighId| #![trigger next.has_high(h)] data.has_high(h) && h != gone ==> next.has_high(h),
    ensures
        tests_sound(known, next),
{
    assert forall|edge: HighEdge| #![trigger known.contains_key(edge)] known.contains_key(edge) implies next.has_high(
        edge.first,
    ) && next.has_high(edge.second) by {
        assert(data.has_high(edge.first) && data.has_high(edge.second));
    }
}

/// What merging variables two by two, from a place of a list on, does. It stops
/// where a merge fails.
pub open spec fn merges_pairs(
    tests: Map<HighEdge, bool>,
    data: Funcdata,
    old_tests: Map<HighEdge, bool>,
    old_data: Funcdata,
    pairs: Seq<HighId>,
    i: int,
    res: Result<()>,
) -> bool
    decreases pairs.len() - i,
{
    if i < 0 || i + 1 >= pairs.len() {
        tests == old_tests && data == old_data && res is Ok
    } else {
        exists|one: Funcdata, next: Funcdata, merged: Result<()>|
            #![trigger crate::variable::edges::unmarked(one, old_data, old_tests, pairs[i], pairs[i + 1]), next.merged_internal(one, pairs[i], pairs[i + 1], false, merged)]
            {
                let moved = crate::variable::edges::moved_tests(old_tests, old_data, pairs[i], pairs[i + 1]);
                &&& crate::variable::edges::unmarked(one, old_data, old_tests, pairs[i], pairs[i + 1])
                &&& next.merged_internal(one, pairs[i], pairs[i + 1], false, merged)
                &&& match merged {
                    Ok(_) => merges_pairs(tests, data, moved, next, pairs, i + 2, res),
                    Err(_) => tests == moved && data == next && res == merged,
                }
            }
    }
}

/// The variables of a list, from a place on, can be merged two by two.
pub open spec fn pairs_ready(data: Funcdata, pairs: Seq<HighId>, i: int) -> bool {
    &&& pairs.len() % 2 == 0
    &&& i % 2 == 0
    &&& forall|k: int| #![trigger pairs[k]]
        i <= k < pairs.len() ==> {
            &&& data.has_high(pairs[k])
            &&& pairs[k].0 != u32::MAX
            &&& data.instances_exist(data.variable(pairs[k]))
            &&& k % 2 == 1 ==> data.variable(pairs[k]).piece is None
        }
    &&& forall|k: int, j: int| #![trigger pairs[k], pairs[j]]
        i <= k < pairs.len() && i <= j < pairs.len() && j != k && k % 2 == 1 ==> pairs[k] != pairs[j]
}

/// Merging one variable, which is no piece, into another leaves all others as they were.
pub open spec fn others_kept(data: Funcdata, next: Funcdata, high: HighId, tv2: HighId) -> bool {
    &&& next.groups == data.groups
    &&& next.highs.slots@.len() == data.highs.slots@.len()
    &&& forall|h: u32| #![trigger next.highs.slots@[h as int]]
        h < next.highs.slots@.len() && h != high.0 && h != tv2.0 ==> next.highs.slots@[h as int]
            == data.highs.slots@[h as int]
    &&& next.has_high(high)
    &&& next.variable(high).piece == data.variable(high).piece
    &&& forall|v: crate::ids::VarnodeId| #![trigger next.has_vn(v)] next.has_vn(v) == data.has_vn(v)
    &&& next.instances_exist(next.variable(high))
}

proof fn storage_exists(
    data: Funcdata,
    first: Seq<crate::ids::VarnodeId>,
    second: Seq<crate::ids::VarnodeId>,
    i: nat,
    j: nat,
    k: int,
)
    requires
        forall|n: int| #![trigger first[n]] 0 <= n < first.len() ==> data.has_vn(first[n]),
        forall|n: int| #![trigger second[n]] 0 <= n < second.len() ==> data.has_vn(second[n]),
        0 <= k < data.by_storage(first, second, i, j).len(),
    ensures
        data.has_vn(data.by_storage(first, second, i, j)[k]),
    decreases crate::variable::merge::left(first.len(), i) + crate::variable::merge::left(second.len(), j),
{
    if i < first.len() || j < second.len() {
        let takes_second = i >= first.len() || (j < second.len() && HighVariable::stored_before(
            data.value(second[j as int]),
            data.value(first[i as int]),
        ));
        if k > 0 {
            if takes_second {
                storage_exists(data, first, second, i, j + 1, k - 1);
            } else {
                storage_exists(data, first, second, i + 1, j, k - 1);
            }
        }
    }
}

proof fn merge_keeps_others(data: Funcdata, next: Funcdata, high: HighId, tv2: HighId)
    requires
        data.can_merge(high, tv2, false),
        data.variable(tv2).piece is None,
        next.merged_internal(data, high, tv2, false, Ok(())),
    ensures
        others_kept(data, next, high, tv2),
{
    let mid = choose|mid: Funcdata| #[trigger] mid.united(data, high, tv2, false) && next.destroyed(mid, tv2);
    assert(mid.piece_gone(mid, tv2));
    let first = data.variable(high).inst@;
    let second = data.variable(tv2).inst@;
    assert forall|v: crate::ids::VarnodeId| #![trigger next.has_vn(v)] next.has_vn(v) == data.has_vn(v) by {
        assert(mid.varnodes.slots@.len() == data.varnodes.slots@.len());
        if v.0 < mid.varnodes.slots@.len() {
            assert(mid.varnodes.slots@[v.0 as int] == mid.varnodes.slots@[v.0 as int]);
        }
    }
    let inst = next.variable(high).inst@;
    assert(inst == data.by_storage(first, second, 0, 0));
    let merged = next.variable(high);
    assert forall|k: int| #![trigger merged.inst@[k]] 0 <= k < merged.inst@.len() implies next.has_vn(merged.inst@[k]) by {
        storage_exists(data, first, second, 0, 0, k);
    }
}

proof fn ready_after(data: Funcdata, next: Funcdata, pairs: Seq<HighId>, i: int)
    requires
        pairs_ready(data, pairs, i),
        0 <= i,
        i + 1 < pairs.len(),
        others_kept(data, next, pairs[i], pairs[i + 1]),
    ensures
        pairs_ready(next, pairs, i + 2),
        forall|h: HighId| #![trigger next.has_high(h)] data.has_high(h) && h != pairs[i + 1] ==> next.has_high(h),
{
    let high = pairs[i];
    let tv2 = pairs[i + 1];
    assert forall|h: HighId| #![trigger next.has_high(h)] data.has_high(h) && h != tv2 implies next.has_high(h) by {
        if h != high {
            assert(next.highs.slots@[h.0 as int] == data.highs.slots@[h.0 as int]);
        }
    }
    assert forall|k: int| #![trigger pairs[k]] i + 2 <= k < pairs.len() implies {
        &&& next.has_high(pairs[k])
        &&& pairs[k].0 != u32::MAX
        &&& next.instances_exist(next.variable(pairs[k]))
        &&& k % 2 == 1 ==> next.variable(pairs[k]).piece is None
    } by {
        assert(pairs[k] != tv2) by {
            assert(pairs[i + 1] != pairs[k]);
        }
        assert(next.has_high(pairs[k]));
        if pairs[k] != high {
            assert(next.highs.slots@[pairs[k].0 as int] == data.highs.slots@[pairs[k].0 as int]);
            let v = next.variable(pairs[k]);
            assert forall|n: int| #![trigger v.inst@[n]] 0 <= n < v.inst@.len() implies next.has_vn(v.inst@[n]) by {
                assert(data.has_vn(data.variable(pairs[k]).inst@[n]));
            }
        } else {
            assert(k % 2 == 1 ==> pairs[k] != pairs[i]);
        }
    }
}

proof fn unmarked_ready(
    data: Funcdata,
    one: Funcdata,
    known: Map<HighEdge, bool>,
    pairs: Seq<HighId>,
    i: int,
    high1: HighId,
    high2: HighId,
)
    requires
        crate::variable::edges::unmarked(one, data, known, high1, high2),
        pairs_ready(data, pairs, i),
        0 <= i,
    ensures
        pairs_ready(one, pairs, i),
        forall|h: HighId| #![trigger one.has_high(h)] one.has_high(h) == data.has_high(h),
{
    assert forall|h: HighId| #![trigger one.has_high(h)] one.has_high(h) == data.has_high(h) by {
        if h.0 < one.highs.slots@.len() {
            assert(one.highs.slots@[h.0 as int] == one.highs.slots@[h.0 as int]);
        }
    }
    assert forall|k: int| #![trigger pairs[k]] i <= k < pairs.len() implies {
        &&& one.has_high(pairs[k])
        &&& pairs[k].0 != u32::MAX
        &&& one.instances_exist(one.variable(pairs[k]))
        &&& k % 2 == 1 ==> one.variable(pairs[k]).piece is None
    } by {
        assert(one.has_high(pairs[k]));
        assert(one.highs.slots@[pairs[k].0 as int] is Some);
        let v = one.variable(pairs[k]);
        assert forall|n: int| #![trigger v.inst@[n]] 0 <= n < v.inst@.len() implies one.has_vn(v.inst@[n]) by {
            assert(data.has_vn(data.variable(pairs[k]).inst@[n]));
        }
    }
}

/// A variable stays a piece of a group that exists.
pub open spec fn keeps_piece(after: Funcdata, before: Funcdata, high: HighId) -> bool {
    before.has_high(high) && before.variable(high).piece is Some ==> after.has_high(high) && after.variable(high).piece
        == before.variable(high).piece
}

impl Funcdata {
    fn merge_pairs_from(
        &mut self,
        tests: &mut HighIntersectTest,
        pairs: &Vec<HighId>,
        i: usize,
        keep: HighId,
    ) -> (res: Result<()>)
        requires
            i <= pairs@.len(),
            pairs_ready(*old(self), pairs@, i as int),
            tests_sound(old(tests)@, *old(self)),
            forall|k: int| #![trigger pairs@[k]] i <= k < pairs@.len() && k % 2 == 1 ==> pairs@[k] != keep,
        ensures
            merges_pairs(final(tests)@, *final(self), old(tests)@, *old(self), pairs@, i as int, res),
            res is Ok ==> keeps_piece(*final(self), *old(self), keep) && final(self).groups == old(self).groups,
        decreases pairs@.len() - i,
    {
        if i >= pairs.len() {
            return Ok(());
        }
        let ghost before = *self;
        let ghost known = tests@;
        assert(i + 1 < pairs@.len());
        let high1 = pairs[i];
        let high2 = pairs[i + 1];
        proof {
            assert(before.has_high(pairs@[i as int]) && before.has_high(pairs@[i + 1]));
            assert(pairs@[i + 1] != pairs@[i as int]);
            assert forall|edge: HighEdge| #![trigger known.contains_key(edge)]
                known.contains_key(edge) implies edge.second.0 == u32::MAX || before.has_high(edge.second) by {}
        }
        tests.move_intersect_tests(self, high1, high2);
        let ghost one = *self;
        proof {
            moved_sound(known, before, high1, high2);
            unmarked_ready(before, one, known, pairs@, i as int, high1, high2);
            assert(one.has_high(high1) && one.has_high(high2));
            assert(one.instances_exist(one.variable(pairs@[i as int])));
            assert(one.instances_exist(one.variable(pairs@[i + 1])));
        }
        let merged = self.high_merge_internal(high1, high2, false);
        let ghost next = *self;
        assert(next.merged_internal(one, high1, high2, false, merged));
        match merged {
            Ok(_) => {
                proof {
                    merge_keeps_others(one, next, high1, high2);
                    ready_after(one, next, pairs@, i as int);
                    sound_elsewhere(tests@, before, next, high2);
                    if before.has_high(keep) && before.variable(keep).piece is Some {
                        assert(keep != high2) by {
                            assert(pairs@[i + 1] != keep);
                        }
                        assert(one.highs.slots@[keep.0 as int] is Some);
                        if keep != high1 {
                            assert(next.highs.slots@[keep.0 as int] == one.highs.slots@[keep.0 as int]);
                        }
                    }
                }
                let res = self.merge_pairs_from(tests, pairs, i + 2, keep);
                res
            },
            Err(e) => Err(e),
        }
    }
}

/// What merging two variables does, once what is known of the second has been moved to the first.
pub open spec fn merges_from(
    tests: Map<HighEdge, bool>,
    data: Funcdata,
    known: Map<HighEdge, bool>,
    one: Funcdata,
    high: HighId,
    tv2: HighId,
    speculative: bool,
    res: Result<()>,
) -> bool {
    if one.variable(tv2).piece is None {
        tests == known && if one.variable(high).piece is None {
            data.merged_internal(one, high, tv2, speculative, res)
        } else {
            exists|two: Funcdata| #[trigger]
                extends_cover(two, one, high) && data.merged_internal(two, high, tv2, speculative, res)
        }
    } else if one.variable(high).piece is None {
        tests == known && exists|two: Funcdata, three: Funcdata|
            #![trigger hands_piece(two, one, high, tv2), extends_cover(three, two, high)]
            hands_piece(two, one, high, tv2) && extends_cover(three, two, high) && data.merged_internal(
                three,
                high,
                tv2,
                speculative,
                res,
            )
    } else if speculative {
        tests == known && data == one && (res matches Err(e) && e.is_lowlevel(
            "Trying speculatively merge variables in separate groups"@,
        ))
    } else {
        exists|two: Funcdata, pairs: Seq<HighId>, joined: Result<()>| #[trigger]
            VariablePiece::merged_groups(two, one, high, tv2, pairs, joined) && match joined {
                Err(_) => tests == known && data == two && res == joined,
                Ok(_) => exists|three: Funcdata, merged: Result<()>| #[trigger]
                    merges_pairs(tests, three, known, two, pairs, 0, merged) && match merged {
                        Err(_) => data == three && res == merged,
                        Ok(_) => res is Ok && unsettles_group(data, three, high),
                    },
            }
    }
}

/// It has to be found anew where a piece is alive.
pub open spec fn extends_cover(after: Funcdata, before: Funcdata, high: HighId) -> bool {
    after.same_but_highs(before) && crate::variable::piece::marks_extended(before.highs, after.highs, high)
}

/// The intersections of the pieces of the group of a variable have to be found anew.
pub open spec fn unsettles_group(after: Funcdata, before: Funcdata, high: HighId) -> bool {
    let list = before.group(before.variable(high).piece->0.group).piece_set@;
    after.same_but_highs(before) && crate::variable::piece::unsettles(
        list,
        before.highs,
        after.highs,
        list.len() as int,
    )
}

/// What merging two variables does.
pub open spec fn merges(
    tests: Map<HighEdge, bool>,
    data: Funcdata,
    known: Map<HighEdge, bool>,
    before: Funcdata,
    high: HighId,
    tv2: HighId,
    speculative: bool,
    res: Result<()>,
) -> bool {
    if tv2 == high {
        tests == known && data == before && res is Ok
    } else {
        exists|one: Funcdata| #[trigger]
            crate::variable::edges::unmarked(one, before, known, high, tv2) && merges_from(
                tests,
                data,
                crate::variable::edges::moved_tests(known, before, high, tv2),
                one,
                high,
                tv2,
                speculative,
                res,
            )
    }
}

/// Two variables, with what is known of them, can be merged.
pub open spec fn mergeable(tests: Map<HighEdge, bool>, data: Funcdata, high: HighId, tv2: HighId, speculative: bool) -> bool {
    &&& tests_sound(tests, data)
    &&& high.0 != u32::MAX
    &&& data.highs.slots@.len() <= u32::MAX
    &&& data.can_merge(high, tv2, speculative)
    &&& data.variable(high).piece matches Some(piece) ==> data.has_group(piece.group)
    &&& data.variable(high).piece is None && data.variable(tv2).piece is Some ==> data.can_hand(high, tv2)
    &&& data.variable(high).piece is Some && data.variable(tv2).piece is Some && !speculative ==> {
        &&& VariablePiece::can_merge_groups(data, high, tv2)
        &&& forall|h: u32| #![trigger data.highs.slots@[h as int]]
            data.highs.has(h) && data.highs.item(h).piece is Some ==> data.instances_exist(data.highs.item(h))
    }
}

/// The variables that exist, their varnodes and their pieces are the same.
pub open spec fn same_pieces(after: Funcdata, before: Funcdata) -> bool {
    &&& after.same_but_highs(before)
    &&& after.highs.slots@.len() == before.highs.slots@.len()
    &&& forall|h: u32| #![trigger after.highs.slots@[h as int]]
        h < after.highs.slots@.len() ==> after.highs.has(h) == before.highs.has(h) && (before.highs.has(h)
            ==> after.highs.item(h).piece == before.highs.item(h).piece && after.highs.item(h).inst
            == before.highs.item(h).inst && after.highs.item(h).num_merge_classes == before.highs.item(
            h,
        ).num_merge_classes)
}

proof fn same_settled(after: Funcdata, before: Funcdata, group: GroupId)
    requires
        same_pieces(after, before),
        before.group(group).settled(group, before.highs),
    ensures
        after.group(group).settled(group, after.highs),
{
    let list = before.group(group).piece_set@;
    assert forall|i: int| #![trigger list[i]] 0 <= i < list.len() implies after.highs.has(list[i].high.0)
        && after.highs.item(list[i].high.0).piece == before.highs.item(list[i].high.0).piece by {
        assert(before.highs.has(list[i].high.0));
        assert(after.highs.slots@[list[i].high.0 as int] == after.highs.slots@[list[i].high.0 as int]);
    }
}

proof fn same_exist(after: Funcdata, before: Funcdata, high: HighId)
    requires
        same_pieces(after, before),
        before.has_high(high),
        before.instances_exist(before.variable(high)),
    ensures
        after.has_high(high),
        after.instances_exist(after.variable(high)),
        after.variable(high).piece == before.variable(high).piece,
        after.variable(high).inst == before.variable(high).inst,
{
    assert(after.highs.slots@[high.0 as int] is Some);
    let v = after.variable(high);
    assert forall|n: int| #![trigger v.inst@[n]] 0 <= n < v.inst@.len() implies after.has_vn(v.inst@[n]) by {
        assert(before.has_vn(before.variable(high).inst@[n]));
    }
}

proof fn unmarked_same(
    one: Funcdata,
    before: Funcdata,
    known: Map<HighEdge, bool>,
    high: HighId,
    tv2: HighId,
)
    requires
        crate::variable::edges::unmarked(one, before, known, high, tv2),
    ensures
        same_pieces(one, before),
{
}

/// Noting that it has to be found anew where a piece is alive keeps the pieces.
proof fn extended_same(after: Funcdata, before: Funcdata, high: HighId)
    requires
        extends_cover(after, before, high),
    ensures
        same_pieces(after, before),
{
}

proof fn handed_exist(after: Funcdata, before: Funcdata, high: HighId, tv2: HighId)
    requires
        before.can_hand(high, tv2),
        before.can_merge(high, tv2, false),
        hands_piece(after, before, high, tv2),
    ensures
        after.can_merge(high, tv2, false),
        after.variable(high).piece is Some,
        after.variable(tv2).piece is None,
        after.variable(tv2).inst == before.variable(tv2).inst,
{
    let group = before.variable(tv2).piece->0.group;
    let mid = choose|mid: Funcdata| #[trigger]
        piece_handed(mid, before, high, tv2) && reshares(
            after,
            mid,
            mid.group(group).piece_set@,
            tv2,
            high,
            mid.group(group).piece_set@.len() as int,
        );
    assert(after.highs.slots@[high.0 as int] == after.highs.slots@[high.0 as int]);
    assert(after.highs.slots@[tv2.0 as int] == after.highs.slots@[tv2.0 as int]);
    let v = after.variable(high);
    assert forall|n: int| #![trigger v.inst@[n]] 0 <= n < v.inst@.len() implies after.has_vn(v.inst@[n]) by {
        assert(before.has_vn(before.variable(high).inst@[n]));
    }
    let w = after.variable(tv2);
    assert forall|n: int| #![trigger w.inst@[n]] 0 <= n < w.inst@.len() implies after.has_vn(w.inst@[n]) by {
        assert(before.has_vn(before.variable(tv2).inst@[n]));
    }
}

proof fn same_can_merge_groups(after: Funcdata, before: Funcdata, high: HighId, tv2: HighId)
    requires
        same_pieces(after, before),
        VariablePiece::can_merge_groups(before, high, tv2),
    ensures
        VariablePiece::can_merge_groups(after, high, tv2),
{
    assert(after.highs.slots@[high.0 as int] is Some);
    assert(after.highs.slots@[tv2.0 as int] is Some);
    same_settled(after, before, before.variable(high).piece->0.group);
    same_settled(after, before, before.variable(tv2).piece->0.group);
}

impl Funcdata {
    /// Merges two variables that are pieces of different groups: the groups are
    /// joined, and pieces that come to the same place are merged.
    fn merge_pieces(&mut self, high: HighId, tv2: HighId, test_cache: &mut HighIntersectTest) -> (res: Result<()>)
        requires
            VariablePiece::can_merge_groups(*old(self), high, tv2),
            tests_sound(old(test_cache)@, *old(self)),
            old(self).highs.slots@.len() <= u32::MAX,
            forall|h: u32| #![trigger old(self).highs.slots@[h as int]]
                old(self).highs.has(h) && old(self).highs.item(h).piece is Some ==> old(self).instances_exist(
                    old(self).highs.item(h),
                ),
        ensures
            merges_from(
                final(test_cache)@,
                *final(self),
                old(test_cache)@,
                *old(self),
                high,
                tv2,
                false,
                res,
            ),
    {
        let ghost one = *self;
        let ghost known = test_cache@;
        let mut merge_pairs: Vec<HighId> = Vec::new();
        let ghost empty = merge_pairs@;
        let joined = VariablePiece::merge_groups(self, high, tv2, &mut merge_pairs);
        let ghost two = *self;
        proof {
            let pairs = choose|pairs: Seq<HighId>|
                merge_pairs@ == empty + pairs && #[trigger] VariablePiece::merged_groups(
                    two,
                    one,
                    high,
                    tv2,
                    pairs,
                    joined,
                ) && crate::variable::combine::pairs_apart(two, pairs) && crate::variable::combine::were_pieces(one, pairs);
            assert(merge_pairs@ =~= pairs);
            assert forall|k: int| #![trigger merge_pairs@[k]] 0 <= k < merge_pairs@.len() implies one.has_high(
                merge_pairs@[k],
            ) && one.instances_exist(one.variable(merge_pairs@[k])) by {
                assert(one.has_high(pairs[k]));
                assert(one.highs.slots@[pairs[k].0 as int] is Some);
            }
            assert(VariablePiece::merged_groups(two, one, high, tv2, merge_pairs@, joined));
        }
        match joined {
            Err(e) => Err(e),
            Ok(_) => {
                proof {
                    apart_ready(two, one, merge_pairs@, one.variable(high).piece->0.group, high);
                    assert forall|edge: HighEdge| #![trigger known.contains_key(edge)]
                        known.contains_key(edge) implies two.has_high(edge.first) && two.has_high(edge.second) by {
                        assert(two.highs.slots@[edge.first.0 as int] == two.highs.slots@[edge.first.0 as int]);
                        assert(two.highs.slots@[edge.second.0 as int] == two.highs.slots@[edge.second.0 as int]);
                    }
                }
                let merged = self.merge_pairs_from(test_cache, &merge_pairs, 0, high);
                let ghost three = *self;
                assert(merges_pairs(test_cache@, three, known, two, merge_pairs@, 0, merged));
                match merged {
                    Err(e) => Err(e),
                    Ok(_) => {
                        VariablePiece::mark_intersection_dirty(&mut self.highs, &self.groups, high);
                        assert(unsettles_group(*self, three, high));
                        Ok(())
                    },
                }
            },
        }
    }

    /// Merges two variables.
    pub fn high_merge(
        &mut self,
        high: HighId,
        tv2: HighId,
        test_cache: &mut HighIntersectTest,
        isspeculative: bool,
    ) -> (res: Result<()>)
        requires
            tv2 == high || mergeable(old(test_cache)@, *old(self), high, tv2, isspeculative),
        ensures
            merges(
                final(test_cache)@,
                *final(self),
                old(test_cache)@,
                *old(self),
                high,
                tv2,
                isspeculative,
                res,
            ),
    {
        if tv2 == high {
            return Ok(());
        }
        let ghost before = *self;
        let ghost known = test_cache@;
        test_cache.move_intersect_tests(self, high, tv2);
        let ghost one = *self;
        let ghost moved = test_cache@;
        proof {
            unmarked_same(one, before, known, high, tv2);
            moved_sound(known, before, high, tv2);
            same_exist(one, before, high);
            same_exist(one, before, tv2);
            assert(crate::variable::edges::unmarked(one, before, known, high, tv2));
        }
        let this_has_piece = self.high(high).piece.is_some();
        let tv2_has_piece = self.high(tv2).piece.is_some();
        if !tv2_has_piece {
            if this_has_piece {
                VariablePiece::mark_extend_cover_dirty(&mut self.highs, high);
                let ghost two = *self;
                proof {
                    assert(extends_cover(two, one, high));
                    extended_same(two, one, high);
                    same_exist(two, one, high);
                    same_exist(two, one, tv2);
                }
                let res = self.high_merge_internal(high, tv2, isspeculative);
                assert(merges_from(test_cache@, *self, moved, one, high, tv2, isspeculative, res));
                return res;
            }
            let res = self.high_merge_internal(high, tv2, isspeculative);
            assert(merges_from(test_cache@, *self, moved, one, high, tv2, isspeculative, res));
            return res;
        }
        if !this_has_piece {
            proof {
                same_settled(one, before, before.variable(tv2).piece->0.group);
            }
            self.high_transfer_piece(high, tv2);
            let ghost two = *self;
            proof {
                assert(hands_piece(two, one, high, tv2));
                handed_exist(two, one, high, tv2);
            }
            VariablePiece::mark_extend_cover_dirty(&mut self.highs, high);
            let ghost three = *self;
            proof {
                assert(extends_cover(three, two, high));
                extended_same(three, two, high);
                same_exist(three, two, high);
                same_exist(three, two, tv2);
            }
            let res = self.high_merge_internal(high, tv2, isspeculative);
            assert(merges_from(test_cache@, *self, moved, one, high, tv2, isspeculative, res));
            return res;
        }
        if isspeculative {
            return Err(Error::lowlevel("Trying speculatively merge variables in separate groups"));
        }
        proof {
            same_can_merge_groups(one, before, high, tv2);
            assert(tests_sound(moved, one)) by {
                assert forall|edge: HighEdge| #![trigger moved.contains_key(edge)]
                    moved.contains_key(edge) implies one.has_high(edge.first) && one.has_high(edge.second) by {
                    assert(one.highs.slots@[edge.first.0 as int] == one.highs.slots@[edge.first.0 as int]);
                    assert(one.highs.slots@[edge.second.0 as int] == one.highs.slots@[edge.second.0 as int]);
                }
            }
            assert forall|h: u32| #![trigger one.highs.slots@[h as int]]
                one.highs.has(h) && one.highs.item(h).piece is Some implies one.instances_exist(one.highs.item(h)) by {
                assert(before.highs.slots@[h as int] == before.highs.slots@[h as int]);
                assert(before.highs.has(h));
                same_exist(one, before, HighId(h));
            }
        }
        self.merge_pieces(high, tv2, test_cache)
    }
}

/// Variables that joining groups leaves to be merged can be merged.
proof fn apart_ready(two: Funcdata, one: Funcdata, pairs: Seq<HighId>, group: GroupId, high: HighId)
    requires
        crate::variable::combine::pairs_apart(two, pairs),
        crate::variable::combine::stays_grouped(two, one, group),
        two.has_group(group),
        one.has_high(high),
        one.variable(high).piece is Some,
        one.variable(high).piece->0.group == group,
        one.highs.slots@.len() <= u32::MAX,
        forall|k: int| #![trigger pairs[k]]
            0 <= k < pairs.len() ==> one.has_high(pairs[k]) && one.instances_exist(one.variable(pairs[k])),
    ensures
        pairs_ready(two, pairs, 0),
        two.has_high(high),
        two.variable(high).piece is Some,
        two.variable(high).piece->0.group == group,
        forall|k: int| #![trigger pairs[k]] 0 <= k < pairs.len() && k % 2 == 1 ==> pairs[k] != high,
{
    assert(two.highs.slots@[high.0 as int] == two.highs.slots@[high.0 as int]);
    assert forall|k: int| #![trigger pairs[k]] 0 <= k < pairs.len() implies {
        &&& two.has_high(pairs[k])
        &&& pairs[k].0 != u32::MAX
        &&& two.instances_exist(two.variable(pairs[k]))
        &&& k % 2 == 1 ==> two.variable(pairs[k]).piece is None
    } by {
        assert(two.highs.slots@[pairs[k].0 as int] == two.highs.slots@[pairs[k].0 as int]);
        let v = two.variable(pairs[k]);
        assert forall|n: int| #![trigger v.inst@[n]] 0 <= n < v.inst@.len() implies two.has_vn(v.inst@[n]) by {
            assert(one.has_vn(one.variable(pairs[k]).inst@[n]));
        }
    }
}

} // verus!

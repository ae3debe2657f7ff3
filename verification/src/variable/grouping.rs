//! Making two variables pieces of one thing.
use vstd::prelude::*;
use crate::error::Result;
use crate::funcdata::Funcdata;
use crate::ids::{GroupId, HighId};
use crate::variable::combine::move_group;
use crate::variable::{HighVariable, VariableGroup, VariablePiece};

verus! {

/// A variable can be made a piece: it has a varnode, which ends inside the numbers.
pub open spec fn can_be_piece(data: Funcdata, high: HighId, offset: int) -> bool {
    &&& data.has_high(high)
    &&& data.variable(high).inst@.len() > 0
    &&& data.has_vn(data.variable(high).inst@[0])
    &&& i32::MIN <= offset <= i32::MAX
    &&& i32::MIN <= offset + data.value(data.variable(high).inst@[0]).size <= i32::MAX
}

/// A variable is a piece of a group that exists.
pub open spec fn is_piece(data: Funcdata, high: HighId) -> bool {
    &&& data.has_high(high)
    &&& data.variable(high).piece is Some
    &&& data.has_group(data.variable(high).piece->0.group)
}

/// Two variables can be grouped.
pub open spec fn can_group(data: Funcdata, high: HighId, off: i32, hi2: HighId) -> bool {
    let first = data.variable(high).piece;
    let second = data.variable(hi2).piece;
    &&& high != hi2
    &&& data.has_high(high)
    &&& data.has_high(hi2)
    &&& first is None && second is None ==> {
        &&& can_be_piece(data, hi2, 0)
        &&& can_be_piece(data, high, off as int)
        &&& data.groups.slots@.len() < u32::MAX
    }
    &&& first is None && second is Some ==> {
        &&& is_piece(data, hi2)
        &&& can_be_piece(data, high, off + second->0.group_offset)
    }
    &&& first is Some && second is None ==> {
        let hi2_off = first->0.group_offset - off;
        &&& is_piece(data, high)
        &&& i32::MIN < hi2_off <= i32::MAX
        &&& hi2_off < 0 ==> crate::variable::combine::can_move(data, first->0.group, -hi2_off)
        &&& can_be_piece(
            data,
            hi2,
            if hi2_off < 0 {
                0
            } else {
                hi2_off
            },
        )
    }
    &&& first is Some && second is Some ==> {
        let diff = second->0.group_offset + off - first->0.group_offset;
        &&& is_piece(data, high)
        &&& is_piece(data, hi2)
        &&& first->0.group != second->0.group
        &&& i32::MIN <= second->0.group_offset + off <= i32::MAX
        &&& i32::MIN <= diff <= i32::MAX
        &&& crate::variable::combine::can_move(data, first->0.group, diff)
        &&& data.group(second->0.group).settled(second->0.group, data.highs)
    }
}

/// The intersections of the pieces of a variable's group have to be found anew,
/// unless that is known already.
pub open spec fn stirs(after: Funcdata, before: Funcdata, high: HighId) -> bool {
    if before.variable(high).note(HighVariable::INTERSECTDIRTY) {
        after == before
    } else {
        crate::variable::join::unsettles_group(after, before, high)
    }
}

/// A variable is noted to need its intersections found.
pub open spec fn noted(after: Funcdata, before: Funcdata, high: HighId) -> bool {
    after.same_but_highs(before) && after.highs.slots@ == before.highs.with(
        high.0,
        HighVariable {
            highflags: crate::variable::piece::unsettled(before.variable(high).highflags),
            ..before.variable(high)
        },
    )
}

/// What grouping two variables does where neither is a piece: the second starts
/// a group, the first joins it.
pub open spec fn groups_new(after: Funcdata, before: Funcdata, high: HighId, off: i32, hi2: HighId, res: Result<()>) -> bool {
    exists|one: Funcdata, two: Funcdata, made: Result<()>|
        #![trigger VariablePiece::created(one, before, hi2, 0, None, Ok(())), VariablePiece::created(two, one, high, off, Some(hi2), made)]
        {
            &&& VariablePiece::created(one, before, hi2, 0, None, Ok(()))
            &&& VariablePiece::created(two, one, high, off, Some(hi2), made)
            &&& match made {
                Ok(_) => res is Ok && crate::variable::join::unsettles_group(after, two, hi2),
                Err(_) => after == two && res == made,
            }
        }
}

/// What grouping two variables does where the second is a piece: the first joins its group.
pub open spec fn groups_first(after: Funcdata, before: Funcdata, high: HighId, off: i32, hi2: HighId, res: Result<()>) -> bool {
    exists|one: Funcdata, two: Funcdata|
        #![trigger stirs(one, before, hi2), noted(two, one, high)]
        {
            &&& stirs(one, before, hi2)
            &&& noted(two, one, high)
            &&& VariablePiece::created(
                after,
                two,
                high,
                (off + before.variable(hi2).piece->0.group_offset) as i32,
                Some(hi2),
                res,
            )
        }
}

/// What grouping two variables does where the first is a piece: the second joins
/// its group, which is moved if the second would start before it.
pub open spec fn groups_second(after: Funcdata, before: Funcdata, high: HighId, off: i32, hi2: HighId, res: Result<()>) -> bool {
    let piece = before.variable(high).piece->0;
    let hi2_off = piece.group_offset - off;
    exists|zero: Funcdata, one: Funcdata, two: Funcdata|
        #![trigger stirs(one, zero, high), noted(two, one, hi2)]
        {
            &&& if hi2_off < 0 {
                crate::variable::combine::moves_group(zero, before, piece.group, -hi2_off)
            } else {
                zero == before
            }
            &&& stirs(one, zero, high)
            &&& noted(two, one, hi2)
            &&& VariablePiece::created(
                after,
                two,
                hi2,
                if hi2_off < 0 {
                    0
                } else {
                    hi2_off as i32
                },
                Some(high),
                res,
            )
        }
}

/// What grouping two variables does where both are pieces: the group of the first
/// is moved into place and joined to that of the second.
pub open spec fn groups_both(after: Funcdata, before: Funcdata, high: HighId, off: i32, hi2: HighId, res: Result<()>) -> bool {
    let first = before.variable(high).piece->0;
    let second = before.variable(hi2).piece->0;
    let diff = second.group_offset + off - first.group_offset;
    exists|one: Funcdata, two: Funcdata, joined: Result<()>| #[trigger]
        crate::variable::combine::moves_over(
            two,
            one,
            one.group(first.group).piece_set@,
            0,
            second.group,
            joined,
        ) && {
            &&& if diff != 0 {
                crate::variable::combine::moves_group(one, before, first.group, diff)
            } else {
                one == before
            }
            &&& match joined {
                Ok(_) => res is Ok && crate::variable::join::unsettles_group(after, two, hi2),
                Err(_) => after == two && res == joined,
            }
        }
}

/// What grouping two variables does.
pub open spec fn groups_with(after: Funcdata, before: Funcdata, high: HighId, off: i32, hi2: HighId, res: Result<()>) -> bool {
    if before.variable(high).piece is None {
        if before.variable(hi2).piece is None {
            groups_new(after, before, high, off, hi2, res)
        } else {
            groups_first(after, before, high, off, hi2, res)
        }
    } else if before.variable(hi2).piece is None {
        groups_second(after, before, high, off, hi2, res)
    } else {
        groups_both(after, before, high, off, hi2, res)
    }
}

impl Funcdata {
    fn stir(&mut self, high: HighId)
        requires
            is_piece(*old(self), high),
        ensures
            stirs(*final(self), *old(self), high),
            final(self).groups == old(self).groups,
            crate::variable::join::same_pieces(*final(self), *old(self)),
    {
        if (self.high(high).highflags & HighVariable::INTERSECTDIRTY) == 0 {
            VariablePiece::mark_intersection_dirty(&mut self.highs, &self.groups, high);
        }
    }

    fn note_unsettled(&mut self, high: HighId)
        requires
            old(self).has_high(high),
        ensures
            noted(*final(self), *old(self), high),
    {
        let high_data = self.high_mut(high);
        high_data.highflags = high_data.highflags | (HighVariable::INTERSECTDIRTY | HighVariable::EXTENDCOVERDIRTY);
    }

    /// Makes two variables pieces of one thing, the first some bytes behind the second.
    pub fn high_group_with(&mut self, high: HighId, off: i32, hi2: HighId) -> (res: Result<()>)
        requires
            can_group(*old(self), high, off, hi2),
        ensures
            groups_with(*final(self), *old(self), high, off, hi2, res),
    {
        let ghost before = *self;
        let this_piece: Option<(GroupId, i32)> = match &self.high(high).piece {
            Some(piece) => Some((piece.get_group(), piece.get_offset())),
            None => None,
        };
        let hi2_piece: Option<(GroupId, i32)> = match &self.high(hi2).piece {
            Some(piece) => Some((piece.get_group(), piece.get_offset())),
            None => None,
        };
        match this_piece {
            None => match hi2_piece {
                None => {
                    let first = VariablePiece::create(self, hi2, 0, None);
                    let ghost one = *self;
                    proof {
                        assert(VariablePiece::created(one, before, hi2, 0, None, Ok(())));
                        assert(one.highs.slots@[high.0 as int] == before.highs.slots@[high.0 as int]);
                    }
                    let made = VariablePiece::create(self, high, off, Some(hi2));
                    let ghost two = *self;
                    proof {
                        assert(VariablePiece::created(two, one, high, off, Some(hi2), made));
                        assert(two.highs.slots@[hi2.0 as int] == one.highs.slots@[hi2.0 as int]);
                    }
                    match made {
                        Ok(_) => {
                            VariablePiece::mark_intersection_dirty(&mut self.highs, &self.groups, hi2);
                            assert(crate::variable::join::unsettles_group(*self, two, hi2));
                            Ok(())
                        },
                        Err(e) => Err(e),
                    }
                },
                Some((_, hi2_offset)) => {
                    self.stir(hi2);
                    let ghost one = *self;
                    proof {
                        assert(one.highs.slots@[high.0 as int] is Some);
                        assert(one.highs.slots@[hi2.0 as int] is Some);
                    }
                    self.note_unsettled(high);
                    let ghost two = *self;
                    proof {
                        assert(stirs(one, before, hi2) && noted(two, one, high));
                        assert(two.highs.slots@[hi2.0 as int] == one.highs.slots@[hi2.0 as int]);
                    }
                    VariablePiece::create(self, high, off + hi2_offset, Some(hi2))
                },
            },
            Some((this_group, this_offset)) => match hi2_piece {
                None => {
                    let mut hi2_off: i32 = this_offset - off;
                    if hi2_off < 0 {
                        move_group(self, this_group, -hi2_off);
                        hi2_off = 0;
                    }
                    let ghost zero = *self;
                    proof {
                        moved_piece(zero, before, high, hi2, this_group, off);
                    }
                    self.stir(high);
                    let ghost one = *self;
                    proof {
                        assert(one.highs.slots@[high.0 as int] is Some);
                        assert(one.highs.slots@[hi2.0 as int] is Some);
                    }
                    self.note_unsettled(hi2);
                    let ghost two = *self;
                    proof {
                        assert(stirs(one, zero, high) && noted(two, one, hi2));
                        assert(two.highs.slots@[high.0 as int] == one.highs.slots@[high.0 as int]);
                    }
                    VariablePiece::create(self, hi2, hi2_off, Some(high))
                },
                Some((hi2_group, hi2_offset)) => {
                    let off_diff: i32 = ((hi2_offset as i64) + (off as i64) - (this_offset as i64)) as i32;
                    if off_diff != 0 {
                        move_group(self, this_group, off_diff);
                        proof {
                            crate::variable::combine::moved_elsewhere(
                                *self,
                                before,
                                this_group,
                                off_diff as int,
                                hi2_group,
                            );
                        }
                    }
                    let ghost one = *self;
                    proof {
                        stays_piece(one, before, hi2, this_group, off_diff as int);
                        if off_diff == 0 {
                            let list = one.group(this_group).piece_set@;
                            assert forall|k: int| #![trigger list[k]] 0 <= k < list.len() implies i32::MIN
                                <= list[k].offset + list[k].size <= i32::MAX by {
                                assert(i32::MIN <= list[k].offset + off_diff + list[k].size <= i32::MAX);
                            }
                        }
                    }
                    proof {
                        crate::variable::combine::whole_left(one, this_group);
                    }
                    let joined = VariableGroup::combine_groups(self, hi2_group, this_group);
                    let ghost two = *self;
                    proof {
                        let list = one.group(this_group).piece_set@;
                        assert(crate::variable::combine::moves_over(two, one, list, 0, hi2_group, joined));
                        over_keeps(two, one, list, 0, this_group, hi2_group, hi2, joined);
                    }
                    match joined {
                        Ok(_) => {
                            VariablePiece::mark_intersection_dirty(&mut self.highs, &self.groups, hi2);
                            assert(crate::variable::join::unsettles_group(*self, two, hi2));
                            Ok(())
                        },
                        Err(e) => Err(e),
                    }
                },
            },
        }
    }
}

/// Moving a group keeps its pieces, and variables that are none.
proof fn moved_piece(zero: Funcdata, before: Funcdata, high: HighId, hi2: HighId, group: GroupId, off: i32)
    requires
        can_group(before, high, off, hi2),
        before.variable(high).piece is Some,
        before.variable(high).piece->0.group == group,
        before.variable(hi2).piece is None,
        ({
            let hi2_off = before.variable(high).piece->0.group_offset - off;
            if hi2_off < 0 {
                crate::variable::combine::moves_group(zero, before, group, -hi2_off)
            } else {
                zero == before
            }
        }),
    ensures
        is_piece(zero, high),
        zero.has_high(hi2),
        zero.variable(hi2) == before.variable(hi2),
        zero.varnodes == before.varnodes,
        zero.variable(high).piece->0.group == group,
{
    let hi2_off = before.variable(high).piece->0.group_offset - off;
    if hi2_off < 0 {
        let list = before.group(group).piece_set@;
        assert(!before.group(group).lists(hi2.0, list.len() as int)) by {
            if before.group(group).lists(hi2.0, list.len() as int) {
                let k = choose|k: int|
                    0 <= k < list.len() && (#[trigger] before.group(group).piece_set@[k]).high.0 == hi2.0;
                assert(before.highs.has(before.group(group).piece_set@[k].high.0));
            }
        }
        assert(zero.highs.slots@[hi2.0 as int] == before.highs.slots@[hi2.0 as int]);
        assert(zero.highs.slots@[high.0 as int] is Some);
    }
}

/// Moving one group keeps the pieces of another.
proof fn stays_piece(one: Funcdata, before: Funcdata, hi2: HighId, group: GroupId, diff: int)
    requires
        is_piece(before, hi2),
        before.variable(hi2).piece->0.group != group,
        before.has_group(group),
        before.group(group).settled(group, before.highs),
        if diff != 0 {
            crate::variable::combine::moves_group(one, before, group, diff)
        } else {
            one == before
        },
    ensures
        is_piece(one, hi2),
        one.variable(hi2) == before.variable(hi2),
{
    if diff != 0 {
        let list = before.group(group).piece_set@;
        assert(!before.group(group).lists(hi2.0, list.len() as int)) by {
            if before.group(group).lists(hi2.0, list.len() as int) {
                let k = choose|k: int|
                    0 <= k < list.len() && (#[trigger] before.group(group).piece_set@[k]).high.0 == hi2.0;
                assert(before.highs.has(before.group(group).piece_set@[k].high.0));
            }
        }
        assert(one.highs.slots@[hi2.0 as int] == before.highs.slots@[hi2.0 as int]);
        let other = before.variable(hi2).piece->0.group;
        assert(one.groups.slots@[other.0 as int] == before.groups.slots@[other.0 as int]);
    }
}

/// Moving the pieces of one group to another keeps a piece of the other.
proof fn over_keeps(
    after: Funcdata,
    before: Funcdata,
    list: Seq<crate::variable::PieceEntry>,
    i: int,
    group: GroupId,
    target: GroupId,
    hi2: HighId,
    res: Result<()>,
)
    requires
        crate::variable::combine::moves_over(after, before, list, i, target, res),
        crate::variable::combine::left_over(before, group, list, i),
        before.has_group(target),
        group != target,
        before.has_high(hi2),
        before.variable(hi2).piece is Some,
        before.variable(hi2).piece->0.group == target,
    ensures
        after.has_high(hi2),
        after.variable(hi2).piece is Some,
        after.variable(hi2).piece->0.group == target,
        after.has_group(target),
    decreases list.len() - i,
{
    if 0 <= i < list.len() {
        let (mid, moved) = choose|mid: Funcdata, moved: Result<()>| #[trigger]
            VariablePiece::transferred(mid, before, list[i].high, target, moved) && match moved {
                Ok(_) => crate::variable::combine::moves_over(after, mid, list, i + 1, target, res),
                Err(e) => after == mid && res == moved,
            };
        assert(list[i].high != hi2);
        assert(mid.highs.slots@[hi2.0 as int] == before.highs.slots@[hi2.0 as int]);
        if moved is Ok {
            crate::variable::combine::transfer_leaves(before, mid, group, list, i, target, moved);
            over_keeps(after, mid, list, i + 1, group, target, hi2, res);
        }
    }
}

} // verus!

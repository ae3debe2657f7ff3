//! Pieces of groups of variables.
use vstd::prelude::*;
use crate::arena::Arena;
use crate::cover::Cover;
use crate::error::Result;
use crate::funcdata::Funcdata;
use crate::ids::{GroupId, HighId};
use crate::variable::{HighVariable, PieceEntry, VariableGroup, VariablePiece};

verus! {

/// What a piece is when it is made.
pub open spec fn is_new_piece(piece: VariablePiece, group: GroupId, high: HighId, offset: i32, size: i32) -> bool {
    &&& piece.group == group
    &&& piece.high == high
    &&& piece.group_offset == offset
    &&& piece.size == size
    &&& piece.intersection@.len() == 0
    &&& piece.cover.stretches@.len() == 0
}

/// The notes of a variable whose intersections have to be found anew.
pub open spec fn unsettled(highflags: u32) -> u32 {
    highflags | (HighVariable::INTERSECTDIRTY | HighVariable::EXTENDCOVERDIRTY)
}

proof fn unsettled_twice(highflags: u32)
    ensures
        unsettled(unsettled(highflags)) == unsettled(highflags),
        (highflags | HighVariable::EXTENDCOVERDIRTY) | HighVariable::EXTENDCOVERDIRTY == highflags
            | HighVariable::EXTENDCOVERDIRTY,
{
    assert((highflags | (0x200u32 | 0x400u32)) | (0x200u32 | 0x400u32) == highflags | (0x200u32 | 0x400u32) && (
    highflags | 0x400u32) | 0x400u32 == highflags | 0x400u32) by (bit_vector);
}

/// The variables once the intersections of the first `n` pieces of a list have to be found anew.
pub open spec fn unsettles(
    list: Seq<PieceEntry>,
    before: Arena<HighVariable>,
    after: Arena<HighVariable>,
    n: int,
) -> bool {
    &&& after.slots@.len() == before.slots@.len()
    &&& forall|h: u32| #![trigger after.slots@[h as int]]
        h < after.slots@.len() ==> after.slots@[h as int] == if before.has(h) && listed(list, h, n) {
            Some(HighVariable { highflags: unsettled(before.item(h).highflags), ..before.item(h) })
        } else {
            before.slots@[h as int]
        }
}

/// Whether a variable is among the first `n` pieces of a list.
pub open spec fn listed(list: Seq<PieceEntry>, high: u32, n: int) -> bool {
    exists|i: int| 0 <= i < n && (#[trigger] list[i]).high.0 == high
}

pub proof fn listed_next(list: Seq<PieceEntry>, high: u32, n: int)
    requires
        0 <= n < list.len(),
    ensures
        listed(list, high, n + 1) == (listed(list, high, n) || list[n].high.0 == high),
{
    if listed(list, high, n) {
        let i = choose|i: int| 0 <= i < n && (#[trigger] list[i]).high.0 == high;
        assert(list[i].high.0 == high && i < n + 1);
    }
    if list[n].high.0 == high {
        assert(list[n].high.0 == high && n < n + 1);
    }
    if listed(list, high, n + 1) && !listed(list, high, n) {
        let i = choose|i: int| 0 <= i < n + 1 && (#[trigger] list[i]).high.0 == high;
        assert(i == n);
    }
}

/// Whether a variable is among the first `n` of a list.
pub open spec fn named(list: Seq<HighId>, high: u32, n: int) -> bool {
    exists|i: int| 0 <= i < n && (#[trigger] list[i]).0 == high
}

pub proof fn named_next(list: Seq<HighId>, high: u32, n: int)
    requires
        0 <= n < list.len(),
    ensures
        named(list, high, n + 1) == (named(list, high, n) || list[n].0 == high),
{
    if named(list, high, n) {
        let i = choose|i: int| 0 <= i < n && (#[trigger] list[i]).0 == high;
        assert(list[i].0 == high && i < n + 1);
    }
    if list[n].0 == high {
        assert(list[n].0 == high && n < n + 1);
    }
    if named(list, high, n + 1) && !named(list, high, n) {
        let i = choose|i: int| 0 <= i < n + 1 && (#[trigger] list[i]).0 == high;
        assert(i == n);
    }
}

/// The variables once it has to be found anew where the first `n` of a list are alive.
pub open spec fn widens(list: Seq<HighId>, before: Arena<HighVariable>, after: Arena<HighVariable>, n: int) -> bool {
    &&& after.slots@.len() == before.slots@.len()
    &&& forall|h: u32| #![trigger after.slots@[h as int]]
        h < after.slots@.len() ==> after.slots@[h as int] == if before.has(h) && named(list, h, n) {
            Some(
                HighVariable {
                    highflags: before.item(h).highflags | HighVariable::EXTENDCOVERDIRTY,
                    ..before.item(h)
                },
            )
        } else {
            before.slots@[h as int]
        }
}

/// What it means that it has to be found anew where a piece, and what shares
/// storage with it, is alive: nothing, if the intersections are not known.
pub open spec fn marks_extended(before: Arena<HighVariable>, after: Arena<HighVariable>, high: HighId) -> bool {
    if before.item(high.0).note(HighVariable::INTERSECTDIRTY) {
        after == before
    } else {
        let list = before.item(high.0).piece->0.intersection@.push(high);
        widens(list, before, after, list.len() as int)
    }
}

impl VariablePiece {
    /// What making a variable a piece does. Without a variable to go by, the
    /// piece is the first of a group of its own.
    pub open spec fn created(
        after: Funcdata,
        before: Funcdata,
        high: HighId,
        offset: i32,
        grp: Option<HighId>,
        res: Result<()>,
    ) -> bool {
        let size = before.value(before.variable(high).inst@[0]).size;
        let piece = after.variable(high).piece->0;
        &&& after.same_code(before)
        &&& after.variable(high).piece is Some
        &&& after.highs.slots@ == before.highs.with(
            high.0,
            HighVariable { piece: Some(piece), ..before.variable(high) },
        )
        &&& match grp {
            Some(other) => {
                let group = before.variable(other).piece->0.group;
                let list = before.group(group).piece_set@;
                &&& is_new_piece(piece, group, high, offset, size)
                &&& if crate::variable::group::has_piece(list, offset as int, size as int) {
                    after.groups == before.groups && (res matches Err(e) && e.is_lowlevel("Duplicate VariablePiece"@))
                } else {
                    &&& res is Ok
                    &&& after.groups.slots@ == before.groups.with(group.0, after.group(group))
                    &&& after.group(group).with_added(before.group(group), piece, high)
                }
            },
            None => {
                let group = GroupId(before.groups.slots@.len() as u32);
                &&& is_new_piece(piece, group, high, offset, size)
                &&& res is Ok
                &&& after.groups.slots@ == before.groups.slots@.push(Some(after.group(group)))
                &&& after.group(group).piece_set@ == seq![PieceEntry { offset, size, high }]
                &&& after.group(group).size == if offset + size > 0 {
                    (offset + size) as i32
                } else {
                    0
                }
                &&& after.group(group).symbol_offset == 0
            },
        }
    }

    /// Makes a variable a piece: of the group of another variable, or of a new group.
    pub fn create(data: &mut Funcdata, high: HighId, offset: i32, grp: Option<HighId>) -> (res: Result<()>)
        requires
            old(data).has_high(high),
            old(data).variable(high).inst@.len() > 0,
            old(data).has_vn(old(data).variable(high).inst@[0]),
            i32::MIN <= offset + old(data).value(old(data).variable(high).inst@[0]).size <= i32::MAX,
            grp matches Some(other) ==> old(data).has_high(other) && old(data).variable(other).piece is Some
                && old(data).has_group(old(data).variable(other).piece->0.group),
            grp is None ==> old(data).groups.slots@.len() < u32::MAX,
        ensures
            VariablePiece::created(*final(data), *old(data), high, offset, grp, res),
    {
        let first = data.high(high).get_instance(0);
        let size: i32 = data.vn(first).get_size();
        let ghost before = *data;
        let group: GroupId = match grp {
            Some(grp_high) => match &data.high(grp_high).piece {
                Some(piece) => piece.get_group(),
                None => vstd::pervasive::unreached(),
            },
            None => GroupId(data.groups.put(VariableGroup::new())),
        };
        let high_data = data.highs.get_mut(high.0);
        high_data.piece = Some(
            VariablePiece {
                group,
                high,
                group_offset: offset,
                size,
                intersection: Vec::new(),
                cover: Cover::new(),
            },
        );
        let ghost piece = data.highs.item(high.0).piece->0;
        let res = VariableGroup::add_piece(&mut data.groups, &mut data.highs, group, high);
        proof {
            assert(data.highs.slots@ =~= before.highs.with(
                high.0,
                HighVariable { piece: Some(piece), ..before.variable(high) },
            ));
            if grp is None {
                assert(data.groups.slots@ =~= before.groups.slots@.push(Some(data.group(group))));
                assert(data.group(group).piece_set@ =~= seq![PieceEntry { offset, size, high }]);
            }
        }
        res
    }

    /// Notes that the intersections of the pieces of a group have to be found anew.
    pub fn mark_group_intersection_dirty(
        highs: &mut Arena<HighVariable>,
        groups: &Arena<VariableGroup>,
        group: GroupId,
    )
        requires
            groups.has(group.0),
        ensures
            ({
                let list = groups.item(group.0).piece_set@;
                unsettles(list, *old(highs), *final(highs), list.len() as int)
            }),
    {
        let pieces = &groups.get(group.0).piece_set;
        let ghost before = *highs;
        let ghost list = pieces@;
        let mut i: usize = 0;
        while i < pieces.len()
            invariant
                i <= list.len(),
                list == pieces@,
                unsettles(list, before, *highs, i as int),
            decreases list.len() - i,
        {
            let piece_high = pieces[i].high;
            let ghost mid = *highs;
            if highs.contains(piece_high.0) {
                let high = highs.get_mut(piece_high.0);
                high.highflags = high.highflags | (HighVariable::INTERSECTDIRTY | HighVariable::EXTENDCOVERDIRTY);
            }
            proof {
                assert forall|h: u32| #![trigger highs.slots@[h as int]]
                    h < highs.slots@.len() implies highs.slots@[h as int] == if before.has(h) && listed(
                    list,
                    h,
                    i + 1,
                ) {
                    Some(HighVariable { highflags: unsettled(before.item(h).highflags), ..before.item(h) })
                } else {
                    before.slots@[h as int]
                } by {
                    listed_next(list, h, i as int);
                    assert(mid.slots@[h as int] == if before.has(h) && listed(list, h, i as int) {
                        Some(HighVariable { highflags: unsettled(before.item(h).highflags), ..before.item(h) })
                    } else {
                        before.slots@[h as int]
                    });
                    unsettled_twice(before.item(h).highflags);
                }
            }
            i = i + 1;
        }
    }

    pub fn mark_intersection_dirty(highs: &mut Arena<HighVariable>, groups: &Arena<VariableGroup>, high: HighId)
        requires
            old(highs).has(high.0),
            old(highs).item(high.0).piece is Some,
            groups.has(old(highs).item(high.0).piece->0.group.0),
        ensures
            ({
                let list = groups.item(old(highs).item(high.0).piece->0.group.0).piece_set@;
                unsettles(list, *old(highs), *final(highs), list.len() as int)
            }),
    {
        let group: GroupId = match &highs.get(high.0).piece {
            Some(piece) => piece.group,
            None => vstd::pervasive::unreached(),
        };
        VariablePiece::mark_group_intersection_dirty(highs, groups, group);
    }

    /// Notes that it has to be found anew where a piece is alive.
    pub fn mark_extend_cover_dirty(highs: &mut Arena<HighVariable>, high: HighId)
        requires
            old(highs).has(high.0),
            old(highs).item(high.0).piece is Some,
        ensures
            marks_extended(*old(highs), *final(highs), high),
    {
        if (highs.get(high.0).highflags & HighVariable::INTERSECTDIRTY) != 0 {
            return;
        }
        let ghost before = *highs;
        let ghost list = before.item(high.0).piece->0.intersection@.push(high);
        let count: usize = match &highs.get(high.0).piece {
            Some(piece) => piece.intersection.len(),
            None => vstd::pervasive::unreached(),
        };
        let mut i: usize = 0;
        while i < count
            invariant
                i <= count,
                list == before.item(high.0).piece->0.intersection@.push(high),
                count == list.len() - 1,
                before.has(high.0),
                before.item(high.0).piece is Some,
                widens(list, before, *highs, i as int),
            decreases count - i,
        {
            proof {
                assert(highs.slots@[high.0 as int] is Some);
            }
            let other: HighId = match &highs.get(high.0).piece {
                Some(piece) => piece.intersection[i],
                None => vstd::pervasive::unreached(),
            };
            assert(other == list[i as int]);
            let ghost mid = *highs;
            if highs.contains(other.0) {
                let other_high = highs.get_mut(other.0);
                other_high.highflags = other_high.highflags | HighVariable::EXTENDCOVERDIRTY;
            }
            proof {
                widens_next(list, before, mid, *highs, i as int);
            }
            i = i + 1;
        }
        let ghost mid = *highs;
        proof {
            assert(highs.slots@[high.0 as int] is Some);
            assert(list[count as int] == high);
        }
        let own = highs.get_mut(high.0);
        own.highflags = own.highflags | HighVariable::EXTENDCOVERDIRTY;
        proof {
            widens_next(list, before, mid, *highs, count as int);
        }
    }

    /// What giving a piece up does: the group loses it, and vanishes with its last piece.
    pub open spec fn released(after: Funcdata, before: Funcdata, piece: VariablePiece) -> bool {
        let group = piece.group;
        let rest = crate::variable::group::without_piece(
            before.group(group).piece_set@,
            piece.group_offset as int,
            piece.size as int,
        );
        &&& after.same_code(before)
        &&& if rest.len() == 0 {
            after.highs == before.highs && after.groups.slots@ == before.groups.slots@.update(group.0 as int, None)
        } else {
            &&& after.groups.slots@ == before.groups.with(group.0, after.group(group))
            &&& after.group(group).piece_set@ == rest
            &&& after.group(group).size == before.group(group).size
            &&& after.group(group).symbol_offset == before.group(group).symbol_offset
            &&& unsettles(rest, before.highs, after.highs, rest.len() as int)
        }
    }

    pub fn release(data: &mut Funcdata, piece: VariablePiece)
        requires
            old(data).has_group(piece.group),
        ensures
            VariablePiece::released(*final(data), *old(data), piece),
    {
        let group = piece.group;
        data.groups.get_mut(group.0).remove_piece(&piece);
        if data.groups.get(group.0).empty() {
            let ghost mid = *data;
            data.groups.remove(group.0);
            assert(data.groups.slots@ =~= old(data).groups.slots@.update(group.0 as int, None));
        } else {
            VariablePiece::mark_group_intersection_dirty(&mut data.highs, &data.groups, group);
        }
    }

    /// The variable stops being a piece.
    pub fn destroy(data: &mut Funcdata, high: HighId)
        requires
            old(data).has_high(high),
            old(data).variable(high).piece matches Some(piece) ==> old(data).has_group(piece.group),
        ensures
            match old(data).variable(high).piece {
                Some(piece) => exists|mid: Funcdata| #[trigger]
                    mid.detached(*old(data), high) && VariablePiece::released(*final(data), mid, piece),
                None => *final(data) == *old(data),
            },
    {
        let ghost before = *data;
        if data.high(high).piece.is_none() {
            return;
        }
        let high_data = data.highs.get_mut(high.0);
        match high_data.piece.take() {
            Some(piece) => {
                let ghost mid = *data;
                assert(mid.detached(before, high));
                VariablePiece::release(data, piece);
            },
            None => {},
        }
    }

    /// What moving a piece to another group does: the old group loses it, and
    /// vanishes with its last piece.
    pub open spec fn transferred(
        after: Funcdata,
        before: Funcdata,
        high: HighId,
        new_group: GroupId,
        res: Result<()>,
    ) -> bool {
        let piece = before.variable(high).piece->0;
        let rest = crate::variable::group::without_piece(
            before.group(piece.group).piece_set@,
            piece.group_offset as int,
            piece.size as int,
        );
        let list = before.group(new_group).piece_set@;
        &&& after.same_code(before)
        &&& after.highs.slots@ == before.highs.with(
            high.0,
            HighVariable { piece: Some(VariablePiece { group: new_group, ..piece }), ..before.variable(high) },
        )
        &&& after.groups.slots@.len() == before.groups.slots@.len()
        &&& forall|g: u32| #![trigger after.groups.slots@[g as int]]
            g < after.groups.slots@.len() && g != piece.group.0 && g != new_group.0 ==> after.groups.slots@[g as int]
                == before.groups.slots@[g as int]
        &&& if rest.len() == 0 {
            after.groups.slots@[piece.group.0 as int] is None
        } else {
            &&& after.has_group(piece.group)
            &&& after.group(piece.group).piece_set@ == rest
            &&& after.group(piece.group).size == before.group(piece.group).size
            &&& after.group(piece.group).symbol_offset == before.group(piece.group).symbol_offset
        }
        &&& after.has_group(new_group)
        &&& if crate::variable::group::has_piece(list, piece.group_offset as int, piece.size as int) {
            &&& after.group(new_group) == before.group(new_group)
            &&& res matches Err(e) && e.is_lowlevel("Duplicate VariablePiece"@)
        } else {
            &&& after.group(new_group).with_added(before.group(new_group), piece, high)
            &&& res is Ok
        }
    }

    /// Moves a piece to another group.
    pub fn transfer_group(data: &mut Funcdata, high: HighId, new_group: GroupId) -> (res: Result<()>)
        requires
            old(data).has_high(high),
            old(data).variable(high).piece is Some,
            old(data).has_group(old(data).variable(high).piece->0.group),
            old(data).has_group(new_group),
            old(data).variable(high).piece->0.group != new_group,
            i32::MIN <= old(data).variable(high).piece->0.group_offset + old(data).variable(high).piece->0.size
                <= i32::MAX,
        ensures
            VariablePiece::transferred(*final(data), *old(data), high, new_group, res),
    {
        let (group, offset, size): (GroupId, i32, i32) = match &data.high(high).piece {
            Some(piece) => (piece.group, piece.group_offset, piece.size),
            None => vstd::pervasive::unreached(),
        };
        data.groups.get_mut(group.0).drop_piece(offset, size);
        if data.groups.get(group.0).empty() {
            data.groups.remove(group.0);
        }
        VariableGroup::add_piece(&mut data.groups, &mut data.highs, new_group, high)
    }
}

proof fn widens_next(
    list: Seq<HighId>,
    before: Arena<HighVariable>,
    mid: Arena<HighVariable>,
    after: Arena<HighVariable>,
    i: int,
)
    requires
        0 <= i < list.len(),
        widens(list, before, mid, i),
        if mid.has(list[i].0) {
            after.slots@ == mid.with(
                list[i].0,
                HighVariable {
                    highflags: mid.item(list[i].0).highflags | HighVariable::EXTENDCOVERDIRTY,
                    ..mid.item(list[i].0)
                },
            )
        } else {
            after == mid
        },
    ensures
        widens(list, before, after, i + 1),
{
    assert forall|h: u32| #![trigger after.slots@[h as int]]
        h < after.slots@.len() implies after.slots@[h as int] == if before.has(h) && named(list, h, i + 1) {
        Some(
            HighVariable {
                highflags: before.item(h).highflags | HighVariable::EXTENDCOVERDIRTY,
                ..before.item(h)
            },
        )
    } else {
        before.slots@[h as int]
    } by {
        named_next(list, h, i);
        assert(mid.slots@[h as int] == if before.has(h) && named(list, h, i) {
            Some(
                HighVariable {
                    highflags: before.item(h).highflags | HighVariable::EXTENDCOVERDIRTY,
                    ..before.item(h)
                },
            )
        } else {
            before.slots@[h as int]
        });
        unsettled_twice(before.item(h).highflags);
    }
}

impl Funcdata {
    /// A variable has stopped being a piece.
    pub open spec fn detached(self, before: Funcdata, high: HighId) -> bool {
        &&& self.same_but_highs(before)
        &&& self.highs.slots@ == before.highs.with(high.0, HighVariable { piece: None, ..before.variable(high) })
    }
}

impl HighVariable {
    /// Notes that it has to be found anew where a variable is alive.
    pub fn cover_dirty(highs: &mut Arena<HighVariable>, high: HighId)
        requires
            old(highs).has(high.0),
        ensures
            ({
                let dirty = HighVariable {
                    highflags: old(highs).item(high.0).highflags | HighVariable::COVERDIRTY,
                    ..old(highs).item(high.0)
                };
                if old(highs).item(high.0).piece is Some {
                    exists|mid: Arena<HighVariable>|
                        mid.slots@ == old(highs).with(high.0, dirty) && #[trigger] marks_extended(
                            mid,
                            *final(highs),
                            high,
                        )
                } else {
                    final(highs).slots@ == old(highs).with(high.0, dirty)
                }
            }),
    {
        let high_data = highs.get_mut(high.0);
        high_data.highflags = high_data.highflags | HighVariable::COVERDIRTY;
        let ghost mid = *highs;
        if highs.get(high.0).piece.is_some() {
            VariablePiece::mark_extend_cover_dirty(highs, high);
            assert(marks_extended(mid, *highs, high));
        }
    }
}

} // verus!

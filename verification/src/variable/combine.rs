//! Joining groups of variables.
use vstd::prelude::*;
use crate::error::Result;
use crate::funcdata::Funcdata;
use crate::ids::{GroupId, HighId};
use crate::variable::{HighVariable, PieceEntry, VariableGroup, VariablePiece};

verus! {

/// The pieces of a list, from a place on, are what is left of a group, and they
/// can be moved elsewhere.
pub open spec fn left_over(data: Funcdata, group: GroupId, list: Seq<PieceEntry>, i: int) -> bool {
    &&& 0 <= i <= list.len()
    &&& i < list.len() ==> data.has_group(group) && data.group(group).piece_set@ == list.subrange(
        i,
        list.len() as int,
    )
    &&& forall|k: int| #![trigger list[k]]
        i <= k < list.len() ==> {
            let high = list[k].high;
            &&& data.has_high(high)
            &&& data.variable(high).piece is Some
            &&& data.variable(high).piece->0.group == group
            &&& data.variable(high).piece->0.group_offset == list[k].offset
            &&& data.variable(high).piece->0.size == list[k].size
            &&& i32::MIN <= list[k].offset + list[k].size <= i32::MAX
        }
    &&& forall|k: int, j: int| #![trigger list[k], list[j]]
        0 <= k < j < list.len() ==> crate::variable::group::before(list[j].offset as int, list[j].size as int, list[k])
}

/// Pieces that end inside the numbers.
pub open spec fn ends_fit(list: Seq<PieceEntry>) -> bool {
    forall|k: int| #![trigger list[k]] 0 <= k < list.len() ==> i32::MIN <= list[k].offset + list[k].size <= i32::MAX
}

/// What moving the pieces of a list, from a place on, to a group does: it goes
/// on until a piece is there already.
pub open spec fn moves_over(
    after: Funcdata,
    before: Funcdata,
    list: Seq<PieceEntry>,
    i: int,
    group: GroupId,
    res: Result<()>,
) -> bool
    decreases list.len() - i,
{
    if i < 0 || i >= list.len() {
        after == before && res is Ok
    } else {
        exists|mid: Funcdata, moved: Result<()>| #[trigger]
            VariablePiece::transferred(mid, before, list[i].high, group, moved) && match moved {
                Ok(_) => moves_over(after, mid, list, i + 1, group, res),
                Err(e) => after == mid && res == moved,
            }
    }
}

/// What joining the pieces of a list, from a place on, to a group does: a piece
/// that is there already gives its place up and is to be merged, any other moves.
pub open spec fn joins(
    after: Funcdata,
    before: Funcdata,
    list: Seq<PieceEntry>,
    i: int,
    group: GroupId,
    pairs: Seq<HighId>,
    res: Result<()>,
) -> bool
    decreases list.len() - i,
{
    if i < 0 || i >= list.len() {
        after == before && res is Ok && pairs.len() == 0
    } else {
        let entry = list[i];
        match crate::variable::group::piece_at(
            before.group(group).piece_set@,
            entry.offset as int,
            entry.size as int,
        ) {
            Some(matched) => exists|mid: Funcdata, next: Funcdata|
                #![trigger mid.detached(before, entry.high), VariablePiece::released(
                    next,
                    mid,
                    before.variable(entry.high).piece->0,
                )]
                {
                    &&& mid.detached(before, entry.high)
                    &&& VariablePiece::released(next, mid, before.variable(entry.high).piece->0)
                    &&& pairs.len() >= 2
                    &&& pairs[0] == matched
                    &&& pairs[1] == entry.high
                    &&& joins(after, next, list, i + 1, group, pairs.skip(2), res)
                },
            None => exists|next: Funcdata, moved: Result<()>| #[trigger]
                VariablePiece::transferred(next, before, entry.high, group, moved) && match moved {
                    Ok(_) => joins(after, next, list, i + 1, group, pairs, res),
                    Err(e) => after == next && res == moved && pairs.len() == 0,
                },
        }
    }
}

/// The first piece that is left over is the first of its group.
proof fn first_left(data: Funcdata, group: GroupId, list: Seq<PieceEntry>, i: int)
    requires
        left_over(data, group, list, i),
        i < list.len(),
    ensures
        crate::variable::group::without_piece(
            data.group(group).piece_set@,
            list[i].offset as int,
            list[i].size as int,
        ) == list.subrange(i + 1, list.len() as int),
{
    let rest = list.subrange(i, list.len() as int);
    assert(rest[0] == list[i]);
    assert(rest.remove(0) =~= list.subrange(i + 1, list.len() as int));
}

/// Pieces of one group that stand at different places are different variables.
proof fn others_differ(data: Funcdata, group: GroupId, list: Seq<PieceEntry>, i: int, k: int)
    requires
        left_over(data, group, list, i),
        i < k < list.len(),
    ensures
        list[k].high != list[i].high,
{
    assert(crate::variable::group::before(list[k].offset as int, list[k].size as int, list[i]));
}

pub proof fn transfer_leaves(
    data: Funcdata,
    next: Funcdata,
    group: GroupId,
    list: Seq<PieceEntry>,
    i: int,
    target: GroupId,
    res: Result<()>,
)
    requires
        left_over(data, group, list, i),
        i < list.len(),
        group != target,
        VariablePiece::transferred(next, data, list[i].high, target, res),
        data.has_group(target),
    ensures
        left_over(next, group, list, i + 1),
{
    first_left(data, group, list, i);
    assert forall|k: int| #![trigger list[k]] i + 1 <= k < list.len() implies {
        let high = list[k].high;
        &&& next.has_high(high)
        &&& next.variable(high).piece is Some
        &&& next.variable(high).piece->0.group == group
        &&& next.variable(high).piece->0.group_offset == list[k].offset
        &&& next.variable(high).piece->0.size == list[k].size
        &&& i32::MIN <= list[k].offset + list[k].size <= i32::MAX
    } by {
        others_differ(data, group, list, i, k);
        assert(next.highs.slots@[list[k].high.0 as int] == data.highs.slots@[list[k].high.0 as int]);
    }
}

proof fn release_leaves(
    data: Funcdata,
    mid: Funcdata,
    next: Funcdata,
    group: GroupId,
    list: Seq<PieceEntry>,
    i: int,
    target: GroupId,
)
    requires
        left_over(data, group, list, i),
        i < list.len(),
        group != target,
        data.has_group(target),
        mid.detached(data, list[i].high),
        VariablePiece::released(next, mid, data.variable(list[i].high).piece->0),
    ensures
        left_over(next, group, list, i + 1),
        next.has_group(target),
        next.group(target) == data.group(target),
{
    first_left(data, group, list, i);
    assert(next.groups.slots@[target.0 as int] == data.groups.slots@[target.0 as int]);
    assert forall|k: int| #![trigger list[k]] i + 1 <= k < list.len() implies {
        let high = list[k].high;
        &&& next.has_high(high)
        &&& next.variable(high).piece is Some
        &&& next.variable(high).piece->0.group == group
        &&& next.variable(high).piece->0.group_offset == list[k].offset
        &&& next.variable(high).piece->0.size == list[k].size
        &&& i32::MIN <= list[k].offset + list[k].size <= i32::MAX
    } by {
        others_differ(data, group, list, i, k);
        let h = list[k].high.0;
        assert(mid.highs.slots@[h as int] == data.highs.slots@[h as int]);
        assert(next.highs.slots@[h as int] is Some);
    }
}

/// A group whose pieces know their places is left over as a whole.
pub proof fn whole_left(data: Funcdata, group: GroupId)
    requires
        data.has_group(group),
        data.group(group).settled(group, data.highs),
        ends_fit(data.group(group).piece_set@),
    ensures
        left_over(data, group, data.group(group).piece_set@, 0),
{
    let list = data.group(group).piece_set@;
    assert(list.subrange(0, list.len() as int) =~= list);
}

/// Groups have been rearranged: no variable has vanished or lost a varnode, none
/// has become a piece, and pieces of a group that is joined to stay there.
pub open spec fn regrouped(after: Funcdata, before: Funcdata, group: GroupId, op2: GroupId) -> bool {
    &&& after.same_code(before)
    &&& after.highs.slots@.len() == before.highs.slots@.len()
    &&& forall|h: u32| #![trigger after.highs.slots@[h as int]]
        h < after.highs.slots@.len() ==> {
            let old_high = before.highs.item(h);
            let new_high = after.highs.item(h);
            &&& after.highs.has(h) == before.highs.has(h)
            &&& before.highs.has(h) ==> {
                &&& new_high.inst == old_high.inst
                &&& new_high.num_merge_classes == old_high.num_merge_classes
                &&& old_high.piece is None ==> new_high.piece is None
                &&& old_high.piece is Some && old_high.piece->0.group == group ==> new_high.piece is Some
                    && new_high.piece->0.group == group
                &&& new_high.piece is Some && new_high.piece->0.group == op2 ==> old_high.piece is Some
                    && old_high.piece->0.group == op2
            }
        }
}

/// The variables of a list that are to be merged two by two. The second of each
/// two was a piece of a group, and is none any more. It occurs only once.
pub open spec fn paired(after: Funcdata, before: Funcdata, pairs: Seq<HighId>, op2: GroupId) -> bool {
    &&& pairs.len() % 2 == 0
    &&& forall|k: int| #![trigger pairs[k]]
        0 <= k < pairs.len() ==> before.has_high(pairs[k]) && before.variable(pairs[k]).piece is Some
    &&& forall|k: int| #![trigger pairs[k]]
        0 <= k < pairs.len() && k % 2 == 1 ==> before.variable(pairs[k]).piece->0.group == op2 && after.variable(
            pairs[k],
        ).piece is None
    &&& forall|k: int, j: int| #![trigger pairs[k], pairs[j]]
        0 <= k < pairs.len() && 0 <= j < pairs.len() && j != k && k % 2 == 1 ==> pairs[k] != pairs[j]
}

/// The variables of a list that are to be merged two by two exist. The second of
/// each two is no piece, and occurs only once.
pub open spec fn pairs_apart(data: Funcdata, pairs: Seq<HighId>) -> bool {
    &&& pairs.len() % 2 == 0
    &&& forall|k: int| #![trigger pairs[k]]
        0 <= k < pairs.len() ==> data.has_high(pairs[k]) && (k % 2 == 1 ==> data.variable(pairs[k]).piece is None)
    &&& forall|k: int, j: int| #![trigger pairs[k], pairs[j]]
        0 <= k < pairs.len() && 0 <= j < pairs.len() && j != k && k % 2 == 1 ==> pairs[k] != pairs[j]
}

/// No variable has vanished or lost a varnode, and pieces of a group stay there.
pub open spec fn stays_grouped(after: Funcdata, before: Funcdata, group: GroupId) -> bool {
    &&& after.same_code(before)
    &&& after.highs.slots@.len() == before.highs.slots@.len()
    &&& forall|h: u32| #![trigger after.highs.slots@[h as int]]
        h < after.highs.slots@.len() ==> {
            let old_high = before.highs.item(h);
            let new_high = after.highs.item(h);
            &&& after.highs.has(h) == before.highs.has(h)
            &&& before.highs.has(h) ==> {
                &&& new_high.inst == old_high.inst
                &&& old_high.piece is Some && old_high.piece->0.group == group ==> new_high.piece is Some
                    && new_high.piece->0.group == group
            }
        }
}

proof fn regrouped_twice(after: Funcdata, next: Funcdata, before: Funcdata, group: GroupId, op2: GroupId)
    requires
        regrouped(after, next, group, op2),
        regrouped(next, before, group, op2),
    ensures
        regrouped(after, before, group, op2),
{
    assert forall|h: u32| #![trigger after.highs.slots@[h as int]] h < after.highs.slots@.len() implies {
        let old_high = before.highs.item(h);
        let new_high = after.highs.item(h);
        &&& after.highs.has(h) == before.highs.has(h)
        &&& before.highs.has(h) ==> {
            &&& new_high.inst == old_high.inst
            &&& new_high.num_merge_classes == old_high.num_merge_classes
            &&& old_high.piece is None ==> new_high.piece is None
            &&& old_high.piece is Some && old_high.piece->0.group == group ==> new_high.piece is Some
                && new_high.piece->0.group == group
            &&& new_high.piece is Some && new_high.piece->0.group == op2 ==> old_high.piece is Some
                && old_high.piece->0.group == op2
        }
    } by {
        assert(next.highs.slots@[h as int] == next.highs.slots@[h as int]);
    }
}

proof fn pairs_kept(
    after: Funcdata,
    next: Funcdata,
    before: Funcdata,
    pairs: Seq<HighId>,
    group: GroupId,
    op2: GroupId,
)
    requires
        paired(after, next, pairs, op2),
        regrouped(next, before, group, op2),
    ensures
        paired(after, before, pairs, op2),
{
    assert forall|k: int| #![trigger pairs[k]] 0 <= k < pairs.len() implies before.has_high(pairs[k])
        && before.variable(pairs[k]).piece is Some && (k % 2 == 1 ==> before.variable(pairs[k]).piece->0.group == op2) by {
        assert(next.highs.slots@[pairs[k].0 as int] is Some);
    }
}

proof fn pair_added(
    after: Funcdata,
    next: Funcdata,
    before: Funcdata,
    rest: Seq<HighId>,
    matched: HighId,
    taken: HighId,
    group: GroupId,
    op2: GroupId,
)
    requires
        paired(after, next, rest, op2),
        regrouped(next, before, group, op2),
        regrouped(after, next, group, op2),
        before.has_high(matched),
        before.variable(matched).piece is Some,
        before.variable(matched).piece->0.group == group,
        before.has_high(taken),
        before.variable(taken).piece is Some,
        before.variable(taken).piece->0.group == op2,
        next.variable(taken).piece is None,
        group != op2,
    ensures
        paired(after, before, seq![matched, taken] + rest, op2),
{
    let pairs = seq![matched, taken] + rest;
    pairs_kept(after, next, before, rest, group, op2);
    assert(next.highs.slots@[matched.0 as int] is Some);
    assert(next.highs.slots@[taken.0 as int] is Some);
    assert(after.highs.slots@[taken.0 as int] is Some);
    assert forall|k: int| #![trigger pairs[k]] 0 <= k < pairs.len() implies before.has_high(pairs[k])
        && before.variable(pairs[k]).piece is Some && (k % 2 == 1 ==> before.variable(pairs[k]).piece->0.group == op2
        && after.variable(pairs[k]).piece is None) by {
        if k >= 2 {
            assert(pairs[k] == rest[k - 2]);
        }
    }
    assert forall|k: int, j: int| #![trigger pairs[k], pairs[j]]
        0 <= k < pairs.len() && 0 <= j < pairs.len() && j != k && k % 2 == 1 implies pairs[k] != pairs[j] by {
        if k >= 2 {
            assert(pairs[k] == rest[k - 2]);
        }
        if j >= 2 {
            assert(pairs[j] == rest[j - 2]);
        }
    }
}

proof fn transfer_regroups(
    data: Funcdata,
    next: Funcdata,
    op2: GroupId,
    list: Seq<PieceEntry>,
    i: int,
    target: GroupId,
    res: Result<()>,
)
    requires
        left_over(data, op2, list, i),
        i < list.len(),
        op2 != target,
        data.has_group(target),
        data.group(target).settled(target, data.highs),
        VariablePiece::transferred(next, data, list[i].high, target, res),
    ensures
        regrouped(next, data, target, op2),
        res is Ok ==> next.group(target).settled(target, next.highs),
        next.has_group(target),
{
    let high = list[i].high;
    assert(next.highs.slots@[high.0 as int] is Some);
    if res is Ok {
        let old_list = data.group(target).piece_set@;
        let piece = data.variable(high).piece->0;
        let entry = PieceEntry { offset: piece.group_offset, size: piece.size, high };
        settled_added(data.group(target), next.group(target), target, data, next, entry);
    }
}

/// A group that gets a piece at its place stays in order.
proof fn settled_added(
    before_group: VariableGroup,
    after_group: VariableGroup,
    id: GroupId,
    data: Funcdata,
    next: Funcdata,
    entry: PieceEntry,
)
    requires
        before_group.settled(id, data.highs),
        !crate::variable::group::has_piece(before_group.piece_set@, entry.offset as int, entry.size as int),
        after_group.piece_set@ == crate::variable::group::with_piece(before_group.piece_set@, entry),
        next.has_high(entry.high),
        next.variable(entry.high).piece is Some,
        next.variable(entry.high).piece->0.group == id,
        next.variable(entry.high).piece->0.group_offset == entry.offset,
        next.variable(entry.high).piece->0.size == entry.size,
        data.has_high(entry.high),
        data.variable(entry.high).piece is Some ==> data.variable(entry.high).piece->0.group != id,
        next.highs.slots@ == data.highs.with(entry.high.0, next.variable(entry.high)),
    ensures
        after_group.settled(id, next.highs),
{
    let list = before_group.piece_set@;
    let place = crate::variable::group::piece_place(list, entry.offset as int, entry.size as int, 0);
    place_splits(list, entry.offset as int, entry.size as int, 0);
    let more = after_group.piece_set@;
    assert(more == list.insert(place as int, entry));
    assert forall|k: int| #![trigger more[k]] 0 <= k < more.len() implies {
        let e = more[k];
        &&& next.highs.has(e.high.0)
        &&& next.highs.item(e.high.0).piece is Some
        &&& next.highs.item(e.high.0).piece->0.group == id
        &&& next.highs.item(e.high.0).piece->0.group_offset == e.offset
        &&& next.highs.item(e.high.0).piece->0.size == e.size
    } by {
        if k != place {
            let o = if k < place {
                k
            } else {
                k - 1
            };
            assert(more[k] == list[o]);
            assert(list[o].high != entry.high);
            assert(next.highs.slots@[list[o].high.0 as int] == data.highs.slots@[list[o].high.0 as int]);
        }
    }
    assert forall|k: int, j: int| #![trigger more[k], more[j]]
        0 <= k < j < more.len() implies crate::variable::group::before(
        more[j].offset as int,
        more[j].size as int,
        more[k],
    ) by {
        let a = if k < place {
            k
        } else {
            k - 1
        };
        let b = if j < place {
            j
        } else {
            j - 1
        };
        if k != place && j != place {
            assert(more[k] == list[a] && more[j] == list[b]);
        } else if j == place {
            assert(more[k] == list[k]);
        } else {
            assert(more[j] == list[j - 1]);
            assert(list[place as int] == list[place as int]);
            if j - 1 > place {
                assert(crate::variable::group::before(
                    list[j - 1].offset as int,
                    list[j - 1].size as int,
                    list[place as int],
                ));
            }
        }
    }
}

/// What stands before the place of a piece comes before it, what stands there does not.
proof fn place_splits(list: Seq<PieceEntry>, offset: int, size: int, i: nat)
    requires
        i <= list.len(),
    ensures
        ({
            let place = crate::variable::group::piece_place(list, offset, size, i);
            &&& i <= place <= list.len()
            &&& forall|k: int| i <= k < place ==> crate::variable::group::before(offset, size, #[trigger] list[k])
            &&& place < list.len() ==> !crate::variable::group::before(offset, size, list[place as int])
        }),
    decreases list.len() - i,
{
    if i < list.len() && crate::variable::group::before(offset, size, list[i as int]) {
        place_splits(list, offset, size, i + 1);
    }
}

proof fn release_regroups(
    data: Funcdata,
    mid: Funcdata,
    next: Funcdata,
    op2: GroupId,
    list: Seq<PieceEntry>,
    i: int,
    target: GroupId,
)
    requires
        left_over(data, op2, list, i),
        i < list.len(),
        op2 != target,
        data.has_group(target),
        data.group(target).settled(target, data.highs),
        mid.detached(data, list[i].high),
        VariablePiece::released(next, mid, data.variable(list[i].high).piece->0),
    ensures
        regrouped(next, data, target, op2),
        next.group(target).settled(target, next.highs),
        next.variable(list[i].high).piece is None,
{
    release_leaves(data, mid, next, op2, list, i, target);
    let high = list[i].high;
    assert(mid.highs.slots@[high.0 as int] is Some);
    assert forall|h: u32| #![trigger next.highs.slots@[h as int]] h < next.highs.slots@.len() implies {
        let old_high = data.highs.item(h);
        let new_high = next.highs.item(h);
        &&& next.highs.has(h) == data.highs.has(h)
        &&& data.highs.has(h) ==> {
            &&& new_high.inst == old_high.inst
            &&& new_high.num_merge_classes == old_high.num_merge_classes
            &&& h != high.0 ==> new_high.piece == old_high.piece
            &&& h == high.0 ==> new_high.piece is None
        }
    } by {
        assert(mid.highs.slots@[h as int] == if h == high.0 {
            Some(HighVariable { piece: None, ..data.variable(high) })
        } else {
            data.highs.slots@[h as int]
        });
    }
    assert(next.highs.slots@[high.0 as int] is Some);
    let kept = data.group(target).piece_set@;
    assert forall|k: int| #![trigger kept[k]] 0 <= k < kept.len() implies {
        let e = kept[k];
        &&& next.highs.has(e.high.0)
        &&& next.highs.item(e.high.0).piece is Some
        &&& next.highs.item(e.high.0).piece->0.group == target
        &&& next.highs.item(e.high.0).piece->0.group_offset == e.offset
        &&& next.highs.item(e.high.0).piece->0.size == e.size
    } by {
        assert(next.highs.slots@[kept[k].high.0 as int] is Some);
    }
}

proof fn align_stays(after: Funcdata, before: Funcdata, high: HighId, op2: HighId)
    requires
        VariablePiece::can_merge_groups(before, high, op2),
        aligns(after, before, high, op2),
    ensures
        stays_grouped(after, before, before.variable(high).piece->0.group),
{
    let first = before.variable(high).piece->0;
    let second = before.variable(op2).piece->0;
    let diff = first.group_offset - second.group_offset;
    if diff != 0 {
        let group = if diff > 0 {
            second.group
        } else {
            first.group
        };
        let list = before.group(group).piece_set@;
        assert forall|h: u32| #![trigger after.highs.slots@[h as int]]
            h < after.highs.slots@.len() && before.group(group).lists(h, list.len() as int) implies before.highs.has(h)
            && before.highs.item(h).piece is Some by {
            let k = choose|k: int| 0 <= k < list.len() && (#[trigger] before.group(group).piece_set@[k]).high.0 == h;
            assert(before.highs.has(before.group(group).piece_set@[k].high.0));
        }
    }
}

/// The variables of a list are pieces.
pub open spec fn were_pieces(data: Funcdata, pairs: Seq<HighId>) -> bool {
    forall|k: int| #![trigger pairs[k]]
        0 <= k < pairs.len() ==> data.has_high(pairs[k]) && data.variable(pairs[k]).piece is Some
}

proof fn pieces_before(after: Funcdata, before: Funcdata, high: HighId, op2: HighId, pairs: Seq<HighId>)
    requires
        VariablePiece::can_merge_groups(before, high, op2),
        aligns(after, before, high, op2),
        were_pieces(after, pairs),
    ensures
        were_pieces(before, pairs),
{
    let first = before.variable(high).piece->0;
    let second = before.variable(op2).piece->0;
    let diff = first.group_offset - second.group_offset;
    if diff != 0 {
        let group = if diff > 0 {
            second.group
        } else {
            first.group
        };
        let list = before.group(group).piece_set@;
        assert forall|k: int| #![trigger pairs[k]] 0 <= k < pairs.len() implies before.has_high(pairs[k])
            && before.variable(pairs[k]).piece is Some by {
            let h = pairs[k].0;
            assert(after.highs.slots@[h as int] == after.highs.slots@[h as int]);
            if before.group(group).lists(h, list.len() as int) {
                let n = choose|n: int|
                    0 <= n < list.len() && (#[trigger] before.group(group).piece_set@[n]).high.0 == h;
                assert(before.highs.has(before.group(group).piece_set@[n].high.0));
            }
        }
    }
}

proof fn grouped_after(after: Funcdata, mid: Funcdata, before: Funcdata, group: GroupId, op2: GroupId)
    requires
        stays_grouped(mid, before, group),
        regrouped(after, mid, group, op2),
    ensures
        stays_grouped(after, before, group),
        forall|pairs: Seq<HighId>| #[trigger] paired(after, mid, pairs, op2) ==> pairs_apart(after, pairs),
{
    assert forall|h: u32| #![trigger after.highs.slots@[h as int]] h < after.highs.slots@.len() implies {
        let old_high = before.highs.item(h);
        let new_high = after.highs.item(h);
        &&& after.highs.has(h) == before.highs.has(h)
        &&& before.highs.has(h) ==> {
            &&& new_high.inst == old_high.inst
            &&& old_high.piece is Some && old_high.piece->0.group == group ==> new_high.piece is Some
                && new_high.piece->0.group == group
        }
    } by {
        assert(mid.highs.slots@[h as int] == mid.highs.slots@[h as int]);
    }
    assert forall|pairs: Seq<HighId>| #[trigger] paired(after, mid, pairs, op2) implies pairs_apart(after, pairs) by {
        assert forall|k: int| #![trigger pairs[k]] 0 <= k < pairs.len() implies after.has_high(pairs[k]) && (k % 2
            == 1 ==> after.variable(pairs[k]).piece is None) by {
            assert(after.highs.slots@[pairs[k].0 as int] == after.highs.slots@[pairs[k].0 as int]);
        }
    }
}

impl VariableGroup {
    fn combine_from(data: &mut Funcdata, pieces: &Vec<PieceEntry>, i: usize, group: GroupId, op2: GroupId) -> (res:
        Result<()>)
        requires
            left_over(*old(data), op2, pieces@, i as int),
            old(data).has_group(group),
            group != op2,
        ensures
            moves_over(*final(data), *old(data), pieces@, i as int, group, res),
        decreases pieces@.len() - i,
    {
        if i >= pieces.len() {
            return Ok(());
        }
        let ghost before = *data;
        let moved = VariablePiece::transfer_group(data, pieces[i].high, group);
        let ghost mid = *data;
        assert(VariablePiece::transferred(mid, before, pieces@[i as int].high, group, moved));
        match moved {
            Ok(_) => {
                proof {
                    transfer_leaves(before, mid, op2, pieces@, i as int, group, moved);
                }
                VariableGroup::combine_from(data, pieces, i + 1, group, op2)
            },
            Err(e) => Err(e),
        }
    }

    /// Moves all pieces of one group to another.
    pub fn combine_groups(data: &mut Funcdata, group: GroupId, op2: GroupId) -> (res: Result<()>)
        requires
            old(data).has_group(group),
            old(data).has_group(op2),
            group != op2,
            old(data).group(op2).settled(op2, old(data).highs),
            ends_fit(old(data).group(op2).piece_set@),
        ensures
            moves_over(*final(data), *old(data), old(data).group(op2).piece_set@, 0, group, res),
    {
        let pieces = data.groups.get(op2.0).pieces();
        proof {
            whole_left(*data, op2);
        }
        VariableGroup::combine_from(data, &pieces, 0, group, op2)
    }

    /// A copy of the list of pieces.
    pub fn pieces(&self) -> (res: Vec<PieceEntry>)
        ensures
            res@ == self.piece_set@,
    {
        let mut res: Vec<PieceEntry> = Vec::new();
        let mut i: usize = 0;
        while i < self.piece_set.len()
            invariant
                i <= self.piece_set@.len(),
                res@ =~= self.piece_set@.take(i as int),
            decreases self.piece_set@.len() - i,
        {
            res.push(self.piece_set[i]);
            i = i + 1;
        }
        res
    }
}

/// Which way two groups are moved so that two pieces come to start at the same place.
pub open spec fn aligns(after: Funcdata, before: Funcdata, high: HighId, op2: HighId) -> bool {
    let first = before.variable(high).piece->0;
    let second = before.variable(op2).piece->0;
    let diff = first.group_offset - second.group_offset;
    if diff > 0 {
        moves_group(after, before, second.group, diff)
    } else if diff < 0 {
        moves_group(after, before, first.group, -diff)
    } else {
        after == before
    }
}

/// All pieces of a group are moved by a number of bytes.
pub open spec fn moves_group(after: Funcdata, before: Funcdata, group: GroupId, amt: int) -> bool {
    &&& after.same_code(before)
    &&& after.has_group(group)
    &&& after.groups.slots@ == before.groups.with(group.0, after.group(group))
    &&& after.group(group).piece_set@ == crate::variable::group::moved_pieces(before.group(group).piece_set@, amt)
    &&& after.group(group).size == before.group(group).size + amt
    &&& after.group(group).symbol_offset == before.group(group).symbol_offset
    &&& before.group(group).shifts(amt, before.highs, after.highs, before.group(group).piece_set@.len() as int)
}

/// A group can be moved by a number of bytes, and its pieces still end inside the numbers.
pub open spec fn can_move(data: Funcdata, group: GroupId, amt: int) -> bool {
    let list = data.group(group).piece_set@;
    &&& data.has_group(group)
    &&& data.group(group).settled(group, data.highs)
    &&& i32::MIN <= data.group(group).size + amt <= i32::MAX
    &&& forall|i: int| #![trigger list[i]]
        0 <= i < list.len() ==> i32::MIN <= list[i].offset + amt <= i32::MAX && i32::MIN <= list[i].offset + amt
            + list[i].size <= i32::MAX
}

/// Moves all pieces of a group by a number of bytes.
pub fn move_group(data: &mut Funcdata, group: GroupId, amt: i32)
    requires
        can_move(*old(data), group, amt as int),
    ensures
        moves_group(*final(data), *old(data), group, amt as int),
        final(data).group(group).settled(group, final(data).highs),
        ends_fit(final(data).group(group).piece_set@),
{
    VariableGroup::adjust_offsets(&mut data.groups, &mut data.highs, group, amt);
    proof {
        let list = old(data).group(group).piece_set@;
        assert forall|k: int| #![trigger data.group(group).piece_set@[k]]
            0 <= k < data.group(group).piece_set@.len() implies i32::MIN <= data.group(group).piece_set@[k].offset
            + data.group(group).piece_set@[k].size <= i32::MAX by {
            assert(list[k].size == data.group(group).piece_set@[k].size);
        }
    }
}

/// Moving one group does not touch the pieces of another.
pub proof fn moved_elsewhere(after: Funcdata, before: Funcdata, group: GroupId, amt: int, other: GroupId)
    requires
        moves_group(after, before, group, amt),
        group != other,
        before.has_group(group),
        before.has_group(other),
        before.group(group).settled(group, before.highs),
        before.group(other).settled(other, before.highs),
    ensures
        after.has_group(other),
        after.group(other) == before.group(other),
        after.group(other).settled(other, after.highs),
{
    assert(after.groups.slots@[other.0 as int] == before.groups.slots@[other.0 as int]);
    let list = before.group(other).piece_set@;
    assert forall|i: int| #![trigger list[i]] 0 <= i < list.len() implies after.highs.slots@[list[i].high.0 as int]
        == before.highs.slots@[list[i].high.0 as int] by {
        let h = list[i].high.0;
        if before.group(group).lists(h, before.group(group).piece_set@.len() as int) {
            let k = choose|k: int| 0 <= k < before.group(group).piece_set@.len() && (#[trigger] before.group(
                group,
            ).piece_set@[k]).high.0 == h;
            assert(before.group(group).piece_set@[k].high.0 == h);
        }
        assert(after.highs.slots@[h as int] == before.highs.slots@[h as int]);
    }
}

impl VariablePiece {
    fn join_from(
        data: &mut Funcdata,
        pieces: &Vec<PieceEntry>,
        i: usize,
        group: GroupId,
        op2: GroupId,
        merge_pairs: &mut Vec<HighId>,
    ) -> (res: Result<()>)
        requires
            left_over(*old(data), op2, pieces@, i as int),
            old(data).has_group(group),
            old(data).group(group).settled(group, old(data).highs),
            group != op2,
        ensures
            exists|pairs: Seq<HighId>|
                final(merge_pairs)@ == old(merge_pairs)@ + pairs && #[trigger] joins(
                    *final(data),
                    *old(data),
                    pieces@,
                    i as int,
                    group,
                    pairs,
                    res,
                ) && paired(*final(data), *old(data), pairs, op2),
            regrouped(*final(data), *old(data), group, op2),
            final(data).has_group(group),
        decreases pieces@.len() - i,
    {
        let ghost before = *data;
        let ghost pairs0 = merge_pairs@;
        if i >= pieces.len() {
            assert(merge_pairs@ =~= pairs0 + Seq::<HighId>::empty());
            assert(joins(*data, before, pieces@, i as int, group, Seq::empty(), Ok(())));
            assert(paired(*data, before, Seq::empty(), op2));
            return Ok(());
        }
        let entry = pieces[i];
        match data.groups.get(group.0).find_piece(entry.offset, entry.size) {
            Some(match_high) => {
                merge_pairs.push(match_high);
                merge_pairs.push(entry.high);
                let high_data = data.highs.get_mut(entry.high.0);
                match high_data.piece.take() {
                    Some(piece) => {
                        let ghost mid = *data;
                        assert(mid.detached(before, entry.high));
                        VariablePiece::release(data, piece);
                        let ghost next = *data;
                        proof {
                            release_leaves(before, mid, next, op2, pieces@, i as int, group);
                            release_regroups(before, mid, next, op2, pieces@, i as int, group);
                            let list = before.group(group).piece_set@;
                            let at = crate::variable::group::piece_place(
                                list,
                                entry.offset as int,
                                entry.size as int,
                                0,
                            );
                            assert(list[at as int].high == match_high);
                        }
                        let res = VariablePiece::join_from(data, pieces, i + 1, group, op2, merge_pairs);
                        proof {
                            let rest = choose|rest: Seq<HighId>|
                                merge_pairs@ == pairs0.push(match_high).push(entry.high) + rest && #[trigger] joins(
                                    *data,
                                    next,
                                    pieces@,
                                    i + 1,
                                    group,
                                    rest,
                                    res,
                                ) && paired(*data, next, rest, op2);
                            let pairs = seq![match_high, entry.high] + rest;
                            assert(pairs.skip(2) =~= rest);
                            assert(merge_pairs@ =~= pairs0 + pairs);
                            assert(VariablePiece::released(next, mid, before.variable(entry.high).piece->0));
                            assert(joins(*data, before, pieces@, i as int, group, pairs, res));
                            regrouped_twice(*data, next, before, group, op2);
                            pair_added(*data, next, before, rest, match_high, entry.high, group, op2);
                        }
                        res
                    },
                    None => vstd::pervasive::unreached(),
                }
            },
            None => {
                let moved = VariablePiece::transfer_group(data, entry.high, group);
                let ghost next = *data;
                assert(VariablePiece::transferred(next, before, entry.high, group, moved));
                match moved {
                    Ok(_) => {
                        proof {
                            transfer_leaves(before, next, op2, pieces@, i as int, group, moved);
                            transfer_regroups(before, next, op2, pieces@, i as int, group, moved);
                        }
                        let res = VariablePiece::join_from(data, pieces, i + 1, group, op2, merge_pairs);
                        proof {
                            let pairs = choose|pairs: Seq<HighId>|
                                merge_pairs@ == pairs0 + pairs && #[trigger] joins(
                                    *data,
                                    next,
                                    pieces@,
                                    i + 1,
                                    group,
                                    pairs,
                                    res,
                                ) && paired(*data, next, pairs, op2);
                            assert(joins(*data, before, pieces@, i as int, group, pairs, res));
                            regrouped_twice(*data, next, before, group, op2);
                            pairs_kept(*data, next, before, pairs, group, op2);
                        }
                        res
                    },
                    Err(e) => {
                        proof {
                            assert(merge_pairs@ =~= pairs0 + Seq::<HighId>::empty());
                            assert(joins(*data, before, pieces@, i as int, group, Seq::empty(), moved));
                            assert(paired(*data, before, Seq::empty(), op2));
                            transfer_regroups(before, next, op2, pieces@, i as int, group, moved);
                        }
                        Err(e)
                    },
                }
            },
        }
    }

    /// What joining the groups of two pieces does, and which variables are then to be merged.
    pub open spec fn merged_groups(
        after: Funcdata,
        before: Funcdata,
        high: HighId,
        op2: HighId,
        pairs: Seq<HighId>,
        res: Result<()>,
    ) -> bool {
        exists|mid: Funcdata| #[trigger]
            aligns(mid, before, high, op2) && joins(
                after,
                mid,
                mid.group(before.variable(op2).piece->0.group).piece_set@,
                0,
                before.variable(high).piece->0.group,
                pairs,
                res,
            )
    }

    /// The groups of two pieces can be joined.
    pub open spec fn can_merge_groups(data: Funcdata, high: HighId, op2: HighId) -> bool {
        let first = data.variable(high).piece->0;
        let second = data.variable(op2).piece->0;
        let diff = first.group_offset - second.group_offset;
        &&& data.has_high(high)
        &&& data.has_high(op2)
        &&& data.variable(high).piece is Some
        &&& data.variable(op2).piece is Some
        &&& first.group != second.group
        &&& data.has_group(first.group)
        &&& data.has_group(second.group)
        &&& data.group(first.group).settled(first.group, data.highs)
        &&& data.group(second.group).settled(second.group, data.highs)
        &&& ends_fit(data.group(second.group).piece_set@)
        &&& diff > 0 ==> can_move(data, second.group, diff)
        &&& diff < 0 ==> can_move(data, first.group, -diff)
        &&& i32::MIN < diff <= i32::MAX
    }

    /// Joins the groups of two pieces, moved so that the two start at the same place.
    pub fn merge_groups(data: &mut Funcdata, high: HighId, op2: HighId, merge_pairs: &mut Vec<HighId>) -> (res:
        Result<()>)
        requires
            VariablePiece::can_merge_groups(*old(data), high, op2),
        ensures
            exists|pairs: Seq<HighId>|
                final(merge_pairs)@ == old(merge_pairs)@ + pairs && #[trigger] VariablePiece::merged_groups(
                    *final(data),
                    *old(data),
                    high,
                    op2,
                    pairs,
                    res,
                ) && pairs_apart(*final(data), pairs) && were_pieces(*old(data), pairs),
            stays_grouped(*final(data), *old(data), old(data).variable(high).piece->0.group),
            final(data).has_group(old(data).variable(high).piece->0.group),
    {
        let ghost before = *data;
        let ghost pairs0 = merge_pairs@;
        let (this_group, this_offset): (GroupId, i32) = match &data.high(high).piece {
            Some(piece) => (piece.group, piece.group_offset),
            None => vstd::pervasive::unreached(),
        };
        let (op2_group, op2_offset): (GroupId, i32) = match &data.high(op2).piece {
            Some(piece) => (piece.group, piece.group_offset),
            None => vstd::pervasive::unreached(),
        };
        let diff: i32 = this_offset - op2_offset;
        if diff > 0 {
            move_group(data, op2_group, diff);
            proof {
                moved_elsewhere(*data, before, op2_group, diff as int, this_group);
            }
        } else if diff < 0 {
            move_group(data, this_group, -diff);
            proof {
                moved_elsewhere(*data, before, this_group, -(diff as int), op2_group);
            }
        }
        let ghost mid = *data;
        proof {
            assert(aligns(mid, before, high, op2));
            whole_left(mid, op2_group);
        }
        let pieces = data.groups.get(op2_group.0).pieces();
        let res = VariablePiece::join_from(data, &pieces, 0, this_group, op2_group, merge_pairs);
        proof {
            let pairs = choose|pairs: Seq<HighId>|
                merge_pairs@ == pairs0 + pairs && #[trigger] joins(*data, mid, pieces@, 0, this_group, pairs, res)
                    && paired(*data, mid, pairs, op2_group);
            align_stays(mid, before, high, op2);
            grouped_after(*data, mid, before, this_group, op2_group);
            pieces_before(mid, before, high, op2, pairs);
            assert(VariablePiece::merged_groups(*data, before, high, op2, pairs, res));
        }
        res
    }
}

} // verus!

//! When variables intersect: when they are alive at once and hold different values.
use vstd::prelude::*;
use crate::cover::{AffectingOp, Cover, Stretch};
use crate::error::{Error, Result};
use crate::funcdata::Funcdata;
use crate::ids::{HighId, VarnodeId};
use crate::variable::edges::HighEdge;
use crate::variable::HighVariable;
use crate::varnode::Varnode;

verus! {

/// Two stretches of one block have more in common than the place where one of them ends.
pub open spec fn stretches_overlap(s: Stretch, t: Stretch) -> bool {
    s.block == t.block && s.start < t.stop && t.start < s.stop
}

/// A stretch of one cover overlaps one of another.
pub open spec fn alive_at_once(a: Cover, b: Cover) -> bool {
    exists|i: int, j: int|
        #![trigger a.stretches@[i], b.stretches@[j]]
        0 <= i < a.stretches@.len() && 0 <= j < b.stretches@.len() && stretches_overlap(a.stretches@[i], b.stretches@[j])
}

/// A stretch of one cover overlaps one of another in a block.
pub open spec fn alive_at_once_in(a: Seq<Stretch>, b: Seq<Stretch>, block: int) -> bool {
    exists|i: int, j: int|
        #![trigger a[i], b[j]]
        0 <= i < a.len() && 0 <= j < b.len() && a[i].block == block && stretches_overlap(a[i], b[j])
}

proof fn one_met(list: Seq<Stretch>, one: Stretch, block: int, n: nat)
    requires
        n <= list.len(),
    ensures
        crate::cover::meets_one(list, one, block, n) <= 2,
        (crate::cover::meets_one(list, one, block, n) >= 2) == (exists|i: int|
            0 <= i < n && (#[trigger] list[i]).block == block && stretches_overlap(list[i], one)),
    decreases n,
{
    if n > 0 {
        one_met(list, one, block, (n - 1) as nat);
        let last = list[n - 1];
    }
}

proof fn all_met(list: Seq<Stretch>, other: Seq<Stretch>, block: int, n: nat)
    requires
        n <= other.len(),
    ensures
        crate::cover::meets_all(list, other, block, n) <= 2,
        (crate::cover::meets_all(list, other, block, n) >= 2) == (exists|i: int, j: int|
            #![trigger list[i], other[j]]
            0 <= i < list.len() && 0 <= j < n && list[i].block == block && stretches_overlap(list[i], other[j])),
    decreases n,
{
    if n > 0 {
        all_met(list, other, block, (n - 1) as nat);
        one_met(list, other[n - 1], block, list.len());
    }
}

/// Covers meet inside a block where stretches of the two in that block overlap, and nowhere
/// else.
pub proof fn overlapping_covers_meet(a: Cover, b: Cover, block: i32)
    ensures
        a.meeting_in(block as int, b) <= 2,
        (a.meeting_in(block as int, b) == 2) == alive_at_once_in(a.stretches@, b.stretches@, block as int),
{
    all_met(a.stretches@, b.stretches@, block as int, b.stretches@.len());
}

proof fn meeting_block_listed(list: Seq<Stretch>, other: Seq<Stretch>, n: nat, block: i32)
    requires
        n <= list.len(),
    ensures
        crate::cover::meeting_blocks(list, other, 2, n).contains(block) == (crate::cover::meets_all(
            list,
            other,
            block as int,
            other.len(),
        ) >= 2 && exists|i: int| 0 <= i < n && (#[trigger] list[i]).block == block),
    decreases n,
{
    if n > 0 {
        meeting_block_listed(list, other, (n - 1) as nat, block);
        let rest = crate::cover::meeting_blocks(list, other, 2, (n - 1) as nat);
        let here = list[n - 1].block;
        let all = crate::cover::meeting_blocks(list, other, 2, n);
        if all.len() == rest.len() + 1 {
            assert(all[rest.len() as int] == here);
            if rest.contains(block) {
                let k = choose|k: int| 0 <= k < rest.len() && rest[k] == block;
                assert(all[k] == block);
            }
            if all.contains(block) {
                let k = choose|k: int| 0 <= k < all.len() && all[k] == block;
                if k < rest.len() {
                    assert(rest[k] == block);
                }
            }
        }
    }
}

/// Of two covers, those blocks are listed where stretches of the two overlap.
pub proof fn overlapping_blocks_are_listed(a: Cover, b: Cover, block: i32)
    ensures
        crate::cover::meeting_blocks(a.stretches@, b.stretches@, 2, a.stretches@.len()).contains(block)
            == alive_at_once_in(a.stretches@, b.stretches@, block as int),
{
    all_met(a.stretches@, b.stretches@, block as int, b.stretches@.len());
    meeting_block_listed(a.stretches@, b.stretches@, a.stretches@.len(), block);
}

/// Neither of two varnodes is said to copy the other, wholly where they have one size, at the
/// same place where they do not.
pub open spec fn hold_different_values(data: Funcdata, vn: VarnodeId, other: VarnodeId) -> bool {
    if data.value(vn).size == data.value(other).size {
        &&& vn != other
        &&& forall|k: int| #![trigger data.copy_shadows@[k]]
            0 <= k < data.copy_shadows@.len() ==> data.copy_shadows@[k] != (vn, other) && data.copy_shadows@[k] != (other, vn)
    } else {
        forall|k: int| #![trigger data.partial_shadows@[k]]
            0 <= k < data.partial_shadows@.len() ==> data.partial_shadows@[k] != (vn, other, 0i32)
    }
}

/// A varnode of one variable and one of another are alive at once and hold different values.
pub open spec fn differ_at_once(data: Funcdata, first: HighId, second: HighId) -> bool {
    exists|i: int, j: int|
        #![trigger data.variable(first).inst@[i], data.variable(second).inst@[j]]
        0 <= i < data.variable(first).inst@.len() && 0 <= j < data.variable(second).inst@.len() && alive_at_once(
            data.value(data.variable(first).inst@[i]).cover->0,
            data.value(data.variable(second).inst@[j]).cover->0,
        ) && hold_different_values(data, data.variable(first).inst@[i], data.variable(second).inst@[j])
}

/// A list of stretches has all stretches where the varnodes of a variable are alive.
pub open spec fn holds_life(data: Funcdata, high: HighVariable, list: Seq<Stretch>) -> bool {
    forall|i: int, k: int|
        #![trigger data.value(high.inst@[i]).cover->0.stretches@[k]]
        0 <= i < high.inst@.len() && 0 <= k < data.value(high.inst@[i]).cover->0.stretches@.len() ==> list.contains(
            data.value(high.inst@[i]).cover->0.stretches@[k],
        )
}

/// The own cover of a variable has all stretches where its varnodes are alive, or is to be found
/// anew from them.
pub open spec fn own_cover_current(data: Funcdata, high: HighVariable) -> bool {
    if high.note(HighVariable::COVERDIRTY) {
        data.value(high.inst@[0]).coverable()
    } else {
        holds_life(data, high, high.internal_cover.stretches@)
    }
}

/// The cover that counts for a variable has all stretches where its varnodes are alive, or is to
/// be found anew from them.
pub open spec fn cover_current(data: Funcdata, high: HighVariable) -> bool {
    if high.piece is Some && !high.note(HighVariable::EXTENDCOVERDIRTY) {
        !high.note(HighVariable::COVERDIRTY) && holds_life(data, high, high.full_cover().stretches@)
    } else {
        own_cover_current(data, high)
    }
}

proof fn notes_apart(flags: u32)
    ensures
        (flags & (HighVariable::COVERDIRTY | HighVariable::EXTENDCOVERDIRTY) != 0) == (flags & HighVariable::COVERDIRTY
            != 0 || flags & HighVariable::EXTENDCOVERDIRTY != 0),
        (flags & !HighVariable::COVERDIRTY) & HighVariable::COVERDIRTY == 0,
        (flags & !HighVariable::COVERDIRTY) & HighVariable::EXTENDCOVERDIRTY == flags & HighVariable::EXTENDCOVERDIRTY,
        (flags & !HighVariable::INTERSECTDIRTY) & HighVariable::COVERDIRTY == flags & HighVariable::COVERDIRTY,
        (flags & !HighVariable::INTERSECTDIRTY) & HighVariable::EXTENDCOVERDIRTY == flags & HighVariable::EXTENDCOVERDIRTY,
        (flags & !HighVariable::COVERDIRTY) & HighVariable::FLAGSDIRTY == flags & HighVariable::FLAGSDIRTY,
        (flags & !HighVariable::INTERSECTDIRTY) & HighVariable::FLAGSDIRTY == flags & HighVariable::FLAGSDIRTY,
        (flags & !HighVariable::EXTENDCOVERDIRTY) & HighVariable::FLAGSDIRTY == flags & HighVariable::FLAGSDIRTY,
{
    assert(((flags & (0x8u32 | 0x400u32)) != 0) == ((flags & 0x8u32) != 0 || (flags & 0x400u32) != 0) && (flags
        & !0x8u32) & 0x8u32 == 0 && (flags & !0x8u32) & 0x400u32 == flags & 0x400u32 && (flags & !0x200u32) & 0x8u32
        == flags & 0x8u32 && (flags & !0x200u32) & 0x400u32 == flags & 0x400u32 && (flags & !0x8u32) & 0x1u32
        == flags & 0x1u32 && (flags & !0x200u32) & 0x1u32 == flags & 0x1u32 && (flags & !0x400u32) & 0x1u32 == flags
        & 0x1u32) by (bit_vector);
}

proof fn stretches_gathered(data: Funcdata, high: HighVariable, n: nat, i: int, k: int)
    requires
        0 <= i < n <= high.inst@.len(),
        0 <= k < data.value(high.inst@[i]).cover->0.stretches@.len(),
    ensures
        data.instance_stretches(high, n).contains(data.value(high.inst@[i]).cover->0.stretches@[k]),
    decreases n,
{
    let rest = data.instance_stretches(high, (n - 1) as nat);
    let all = data.instance_stretches(high, n);
    let one = data.value(high.inst@[i]).cover->0.stretches@[k];
    if i < n - 1 {
        stretches_gathered(data, high, (n - 1) as nat, i, k);
        let m = choose|m: int| 0 <= m < rest.len() && rest[m] == one;
        assert(all[m] == one);
    } else {
        assert(all[rest.len() + k] == one);
    }
}

proof fn found_alive(data: Funcdata, high: HighVariable)
    requires
        own_cover_current(data, high),
    ensures
        holds_life(data, high, data.alive(high)),
{
    if high.note(HighVariable::COVERDIRTY) {
        assert forall|i: int, k: int|
            #![trigger data.value(high.inst@[i]).cover->0.stretches@[k]]
            0 <= i < high.inst@.len() && 0 <= k < data.value(
                high.inst@[i],
            ).cover->0.stretches@.len() implies data.alive(high).contains(
            data.value(high.inst@[i]).cover->0.stretches@[k],
        ) by {
            stretches_gathered(data, high, high.inst@.len(), i, k);
        }
    }
}

proof fn refreshed_is_current(data: Funcdata, before: HighVariable, after: HighVariable)
    requires
        data.refreshed(before, after),
    ensures
        own_cover_current(data, before) ==> holds_life(data, after, after.internal_cover.stretches@)
            && own_cover_current(data, after),
        cover_current(data, before) ==> cover_current(data, after),
        before.piece is Some && holds_life(data, before, before.full_cover().stretches@) ==> holds_life(
            data,
            after,
            after.full_cover().stretches@,
        ),
        after.inst == before.inst,
        after.piece == before.piece,
{
    notes_apart(before.highflags);
    if own_cover_current(data, before) {
        found_alive(data, before);
        assert(holds_life(data, after, data.alive(before)));
    }
}

proof fn same_life(data: Funcdata, before: Funcdata, high: HighVariable, list: Seq<Stretch>)
    requires
        data.same_but_highs(before),
    ensures
        holds_life(data, high, list) == holds_life(before, high, list),
        own_cover_current(data, high) == own_cover_current(before, high),
        cover_current(data, high) == cover_current(before, high),
{
    assert forall|i: int| #![trigger high.inst@[i]] data.value(high.inst@[i]) == before.value(high.inst@[i]) by {}
    assert forall|any: Seq<Stretch>| holds_life(data, high, any) == holds_life(before, high, any) by {
        if holds_life(data, high, any) {
            assert forall|i: int, k: int|
                #![trigger before.value(high.inst@[i]).cover->0.stretches@[k]]
                0 <= i < high.inst@.len() && 0 <= k < before.value(
                    high.inst@[i],
                ).cover->0.stretches@.len() implies any.contains(
                before.value(high.inst@[i]).cover->0.stretches@[k],
            ) by {
                assert(any.contains(data.value(high.inst@[i]).cover->0.stretches@[k]));
            }
        }
        if holds_life(before, high, any) {
            assert forall|i: int, k: int|
                #![trigger data.value(high.inst@[i]).cover->0.stretches@[k]]
                0 <= i < high.inst@.len() && 0 <= k < data.value(
                    high.inst@[i],
                ).cover->0.stretches@.len() implies any.contains(data.value(high.inst@[i]).cover->0.stretches@[k]) by {
                assert(any.contains(before.value(high.inst@[i]).cover->0.stretches@[k]));
            }
        }
    }
}

/// Bringing a variable up to date makes its cover hold the life of its varnodes, and spoils no
/// other cover.
proof fn update_is_current(
    tests: Map<HighEdge, bool>,
    data: Funcdata,
    old_tests: Map<HighEdge, bool>,
    old_data: Funcdata,
    high: HighId,
    other: HighId,
    res: bool,
)
    requires
        old_data.testable(high),
        old_data.testable(other),
        high != other,
        crate::variable::intersect::updates_high(tests, data, old_tests, old_data, high, res),
        cover_current(old_data, old_data.variable(high)),
    ensures
        data.testable(high),
        data.testable(other),
        data.same_but_highs(old_data),
        data.variable(high).inst == old_data.variable(high).inst,
        data.variable(other).inst == old_data.variable(other).inst,
        (data.variable(high).piece is Some) == (old_data.variable(high).piece is Some),
        (data.variable(other).piece is Some) == (old_data.variable(other).piece is Some),
        data.variable(high).flags == old_data.variable(high).flags,
        data.variable(other).flags == old_data.variable(other).flags,
        data.variable(high).note(HighVariable::FLAGSDIRTY) == old_data.variable(high).note(HighVariable::FLAGSDIRTY),
        data.variable(other).note(HighVariable::FLAGSDIRTY) == old_data.variable(other).note(HighVariable::FLAGSDIRTY),
        holds_life(data, data.variable(high), data.variable(high).full_cover().stretches@),
        cover_current(old_data, old_data.variable(other)) ==> cover_current(data, data.variable(other)),
        holds_life(old_data, old_data.variable(other), old_data.variable(other).full_cover().stretches@) ==> holds_life(
            data,
            data.variable(other),
            data.variable(other).full_cover().stretches@,
        ),
        forall|edge: HighEdge| #[trigger] tests.contains_key(edge) ==> old_tests.contains_key(edge),
{
    let old_high = old_data.variable(high);
    let old_other = old_data.variable(other);
    notes_apart(old_high.highflags);
    notes_apart(old_other.highflags);
    if old_high.note(HighVariable::COVERDIRTY | HighVariable::EXTENDCOVERDIRTY) {
        data.found_reshapes(old_data, high);
        data.reshaped_testable(old_data, high, high);
        data.reshaped_testable(old_data, high, other);
        if old_high.piece is Some {
            let mid = choose|mid: Funcdata| #[trigger] mid.intersected(old_data, high) && data.covered(mid, high);
            let mid_high = mid.variable(high);
            let list = mid_high.piece->0.intersection@;
            notes_apart(mid_high.highflags);
            let after = choose|after: Funcdata| #[trigger]
                after.refreshes(mid, high, list.len() as int) && data.same_but(after, high)
                    && data.variable(high).piece is Some && data.variable(high) == (HighVariable {
                    piece: Some(
                        crate::variable::VariablePiece {
                            cover: data.variable(high).piece->0.cover,
                            ..after.variable(high).piece->0
                        },
                    ),
                    highflags: after.variable(high).highflags & !HighVariable::EXTENDCOVERDIRTY,
                    ..after.variable(high)
                }) && data.variable(high).piece->0.cover.stretches@ == mid.alive(mid_high) + mid.shared_stretches(
                    list,
                    list.len(),
                );
            notes_apart(after.variable(high).highflags);
            assert(after.highs.slots@[high.0 as int] is Some);
            assert(after.highs.slots@[other.0 as int] is Some);
            assert(mid.variable(other) == old_other);
            assert(own_cover_current(old_data, old_high));
            assert(own_cover_current(mid, mid_high));
            found_alive(mid, mid_high);
            let own = mid.alive(mid_high);
            let whole = data.variable(high).piece->0.cover.stretches@;
            assert forall|i: int, k: int|
                #![trigger data.value(data.variable(high).inst@[i]).cover->0.stretches@[k]]
                0 <= i < data.variable(high).inst@.len() && 0 <= k < data.value(
                    data.variable(high).inst@[i],
                ).cover->0.stretches@.len() implies whole.contains(
                data.value(data.variable(high).inst@[i]).cover->0.stretches@[k],
            ) by {
                let one = mid.value(mid_high.inst@[i]).cover->0.stretches@[k];
                assert(own.contains(one));
                let m = choose|m: int| 0 <= m < own.len() && own[m] == one;
                assert(whole[m] == one);
            }
            same_life(mid, old_data, old_other, old_other.full_cover().stretches@);
            let new_other = data.variable(other);
            same_life(data, mid, new_other, new_other.full_cover().stretches@);
            if after.variable(other) != old_other {
                refreshed_is_current(mid, old_other, after.variable(other));
            }
        } else {
            refreshed_is_current(old_data, old_high, data.variable(high));
            same_life(data, old_data, data.variable(high), data.variable(high).full_cover().stretches@);
            same_life(data, old_data, old_other, old_other.full_cover().stretches@);
            assert(data.variable(other) == old_other);
        }
    }
}

proof fn meeting_varnode_listed(data: Funcdata, high: HighId, blk: i32, cover: Cover, n: nat, i: int) -> (place: int)
    requires
        0 <= i < n,
        data.value(data.variable(high).inst@[i]).cover->0.meeting_in(blk as int, cover) > 1,
    ensures
        0 <= place < data.meeting_varnodes(high, blk, cover, n).len(),
        data.meeting_varnodes(high, blk, cover, n)[place] == data.variable(high).inst@[i],
    decreases n,
{
    let rest = data.meeting_varnodes(high, blk, cover, (n - 1) as nat);
    if i == n - 1 {
        rest.len() as int
    } else {
        meeting_varnode_listed(data, high, blk, cover, (n - 1) as nat, i)
    }
}

proof fn listed_varnode_meets(data: Funcdata, high: HighId, blk: i32, cover: Cover, n: nat, place: int) -> (i: int)
    requires
        0 <= place < data.meeting_varnodes(high, blk, cover, n).len(),
    ensures
        0 <= i < n,
        data.meeting_varnodes(high, blk, cover, n)[place] == data.variable(high).inst@[i],
    decreases n,
{
    if n == 0 {
        0
    } else {
        let rest = data.meeting_varnodes(high, blk, cover, (n - 1) as nat);
        if place < rest.len() {
            listed_varnode_meets(data, high, blk, cover, (n - 1) as nat, place)
        } else {
            n - 1
        }
    }
}

/// A pair of varnodes that clash in a block are alive at once and hold different values.
proof fn clash_means_difference(data: Funcdata, vn: VarnodeId, other: VarnodeId, blk: i32)
    ensures
        data.clash(vn, other, blk, 0) == (alive_at_once_in(
            data.value(other).cover->0.stretches@,
            data.value(vn).cover->0.stretches@,
            blk as int,
        ) && hold_different_values(data, vn, other)),
{
    overlapping_covers_meet(data.value(other).cover->0, data.value(vn).cover->0, blk);
    if data.copy_shadows@.contains((vn, other)) {
        let k = choose|k: int| 0 <= k < data.copy_shadows@.len() && data.copy_shadows@[k] == (vn, other);
        assert(data.copy_shadows@[k] == (vn, other));
    }
    if data.copy_shadows@.contains((other, vn)) {
        let k = choose|k: int| 0 <= k < data.copy_shadows@.len() && data.copy_shadows@[k] == (other, vn);
        assert(data.copy_shadows@[k] == (other, vn));
    }
    if data.partial_shadows@.contains((vn, other, 0i32)) {
        let k = choose|k: int| 0 <= k < data.partial_shadows@.len() && data.partial_shadows@[k] == (vn, other, 0i32);
        assert(data.partial_shadows@[k] == (vn, other, 0i32));
    }
}

proof fn difference_is_a_clash(data: Funcdata, first: HighId, second: HighId)
    requires
        differ_at_once(data, first, second),
        holds_life(data, data.variable(first), data.variable(first).full_cover().stretches@),
        holds_life(data, data.variable(second), data.variable(second).full_cover().stretches@),
    ensures
        crate::variable::intersect::clash_somewhere(data, first, second),
{
    let mine = data.variable(first).inst@;
    let theirs = data.variable(second).inst@;
    let (i, j) = choose|i: int, j: int|
        #![trigger data.variable(first).inst@[i], data.variable(second).inst@[j]]
        0 <= i < data.variable(first).inst@.len() && 0 <= j < data.variable(second).inst@.len() && alive_at_once(
            data.value(data.variable(first).inst@[i]).cover->0,
            data.value(data.variable(second).inst@[j]).cover->0,
        ) && hold_different_values(data, data.variable(first).inst@[i], data.variable(second).inst@[j]);
    let vn = mine[i];
    let other = theirs[j];
    let a = data.value(vn).cover->0.stretches@;
    let b = data.value(other).cover->0.stretches@;
    let (k, m) = choose|k: int, m: int|
        #![trigger a[k], b[m]]
        0 <= k < a.len() && 0 <= m < b.len() && stretches_overlap(a[k], b[m]);
    let blk = a[k].block;
    let whole = data.variable(first).full_cover();
    let wholes = data.variable(second).full_cover();
    assert(whole.stretches@.contains(data.value(data.variable(first).inst@[i]).cover->0.stretches@[k]));
    assert(wholes.stretches@.contains(data.value(data.variable(second).inst@[j]).cover->0.stretches@[m]));
    let p = choose|p: int| 0 <= p < whole.stretches@.len() && whole.stretches@[p] == a[k];
    let q = choose|q: int| 0 <= q < wholes.stretches@.len() && wholes.stretches@[q] == b[m];
    assert(stretches_overlap(whole.stretches@[p], wholes.stretches@[q]));
    overlapping_blocks_are_listed(whole, wholes, blk);
    assert(stretches_overlap(b[m], a[k]));
    assert(alive_at_once_in(b, a, blk as int));
    clash_means_difference(data, vn, other, blk);
    assert(stretches_overlap(b[m], whole.stretches@[p]));
    overlapping_covers_meet(data.value(other).cover->0, whole, blk);
    assert(stretches_overlap(a[k], wholes.stretches@[q]));
    overlapping_covers_meet(data.value(vn).cover->0, wholes, blk);
    let place = meeting_varnode_listed(data, second, blk, whole, theirs.len(), j);
    let blist = data.meeting_varnodes(second, blk, whole, theirs.len());
    assert(data.variable(first).inst@[i] == vn && blist[place] == other);
    assert(data.clashes(first, blk, wholes, 0, blist, mine.len() as int));
    assert(data.meet_in_block(first, second, blk));
    let blocks = crate::cover::meeting_blocks(whole.stretches@, wholes.stretches@, 2, whole.stretches@.len());
    let n = choose|n: int| 0 <= n < blocks.len() && blocks[n] == blk;
    assert(data.meet_in_block(first, second, blocks[n]));
}

proof fn clash_is_a_difference(data: Funcdata, first: HighId, second: HighId)
    requires
        data.variable(first).piece is None,
        data.variable(second).piece is None,
        crate::variable::intersect::clash_somewhere(data, first, second),
    ensures
        differ_at_once(data, first, second),
{
    let whole = data.variable(first).full_cover();
    let wholes = data.variable(second).full_cover();
    let blocks = crate::cover::meeting_blocks(whole.stretches@, wholes.stretches@, 2, whole.stretches@.len());
    let n = choose|n: int| 0 <= n < blocks.len() && data.meet_in_block(first, second, #[trigger] blocks[n]);
    let blk = blocks[n];
    let blist = data.meeting_varnodes(second, blk, whole, data.variable(second).inst@.len());
    assert(data.clashes(first, blk, wholes, 0, blist, data.variable(first).inst@.len() as int));
    let (i, place) = choose|i: int, place: int|
        #![trigger data.variable(first).inst@[i], blist[place]]
        0 <= i < data.variable(first).inst@.len() && 0 <= place < blist.len() && data.value(
            data.variable(first).inst@[i],
        ).cover->0.meeting_in(blk as int, wholes) >= 2 && data.clash(
            data.variable(first).inst@[i],
            blist[place],
            blk,
            0,
        );
    let j = listed_varnode_meets(data, second, blk, whole, data.variable(second).inst@.len(), place);
    let vn = data.variable(first).inst@[i];
    let other = data.variable(second).inst@[j];
    clash_means_difference(data, vn, other, blk);
    let a = data.value(vn).cover->0.stretches@;
    let b = data.value(other).cover->0.stretches@;
    let (m, k) = choose|m: int, k: int|
        #![trigger b[m], a[k]]
        0 <= m < b.len() && 0 <= k < a.len() && b[m].block == blk && stretches_overlap(b[m], a[k]);
    assert(stretches_overlap(a[k], b[m]));
    assert(alive_at_once(data.value(vn).cover->0, data.value(other).cover->0));
}

proof fn difference_stays(data: Funcdata, before: Funcdata, first: HighId, second: HighId)
    requires
        data.same_but_highs(before),
        data.variable(first).inst == before.variable(first).inst,
        data.variable(second).inst == before.variable(second).inst,
    ensures
        differ_at_once(data, first, second) == differ_at_once(before, first, second),
{
    assert(data.copy_shadows == before.copy_shadows && data.partial_shadows == before.partial_shadows);
    if differ_at_once(before, first, second) {
        let (i, j) = choose|i: int, j: int|
            #![trigger before.variable(first).inst@[i], before.variable(second).inst@[j]]
            0 <= i < before.variable(first).inst@.len() && 0 <= j < before.variable(second).inst@.len() && alive_at_once(
                before.value(before.variable(first).inst@[i]).cover->0,
                before.value(before.variable(second).inst@[j]).cover->0,
            ) && hold_different_values(before, before.variable(first).inst@[i], before.variable(second).inst@[j]);
        assert(hold_different_values(data, data.variable(first).inst@[i], data.variable(second).inst@[j]));
    }
    if differ_at_once(data, first, second) {
        let (i, j) = choose|i: int, j: int|
            #![trigger data.variable(first).inst@[i], data.variable(second).inst@[j]]
            0 <= i < data.variable(first).inst@.len() && 0 <= j < data.variable(second).inst@.len() && alive_at_once(
                data.value(data.variable(first).inst@[i]).cover->0,
                data.value(data.variable(second).inst@[j]).cover->0,
            ) && hold_different_values(data, data.variable(first).inst@[i], data.variable(second).inst@[j]);
        assert(hold_different_values(before, before.variable(first).inst@[i], before.variable(second).inst@[j]));
    }
}

/// The test of two variables that is not answered from memory, with the covers brought up to date.
proof fn test_of_current(
    tests: Map<HighEdge, bool>,
    data: Funcdata,
    old_tests: Map<HighEdge, bool>,
    old_data: Funcdata,
    ops: Seq<AffectingOp>,
    first: HighId,
    second: HighId,
    res: Result<bool>,
) -> (mid: Funcdata)
    requires
        first != second,
        old_data.testable(first),
        old_data.testable(second),
        !old_tests.contains_key(HighEdge { first, second }),
        cover_current(old_data, old_data.variable(first)),
        cover_current(old_data, old_data.variable(second)),
        crate::variable::intersect::tests_intersection(tests, data, old_tests, old_data, ops, first, second, res),
    ensures
        mid.same_but_highs(old_data),
        mid.has_high(first),
        mid.has_high(second),
        mid.variable(first).inst == old_data.variable(first).inst,
        mid.variable(second).inst == old_data.variable(second).inst,
        (mid.variable(first).piece is Some) == (old_data.variable(first).piece is Some),
        (mid.variable(second).piece is Some) == (old_data.variable(second).piece is Some),
        mid.variable(first).flags == old_data.variable(first).flags,
        mid.variable(second).flags == old_data.variable(second).flags,
        mid.variable(first).note(HighVariable::FLAGSDIRTY) == old_data.variable(first).note(HighVariable::FLAGSDIRTY),
        mid.variable(second).note(HighVariable::FLAGSDIRTY) == old_data.variable(second).note(HighVariable::FLAGSDIRTY),
        holds_life(mid, mid.variable(first), mid.variable(first).full_cover().stretches@),
        holds_life(mid, mid.variable(second), mid.variable(second).full_cover().stretches@),
        crate::variable::intersect::tests_pair(data, mid, ops, first, second, res),
        differ_at_once(mid, first, second) == differ_at_once(old_data, first, second),
{
    let edge = HighEdge { first, second };
    let (tests1, data1, ares, tests2, data2, bres) = choose|
        tests1: Map<HighEdge, bool>,
        data1: Funcdata,
        ares: bool,
        tests2: Map<HighEdge, bool>,
        data2: Funcdata,
        bres: bool,
    |
        #![trigger crate::variable::intersect::updates_high(tests1, data1, old_tests, old_data, first, ares), crate::variable::intersect::updates_high(
            tests2,
            data2,
            tests1,
            data1,
            second,
            bres,
        )]
        {
            &&& crate::variable::intersect::updates_high(tests1, data1, old_tests, old_data, first, ares)
            &&& crate::variable::intersect::updates_high(tests2, data2, tests1, data1, second, bres)
            &&& if ares && bres && tests2.contains_key(edge) {
                tests == tests2 && data == data2 && res == Ok::<bool, Error>(tests2[edge])
            } else {
                crate::variable::intersect::tests_pair(data, data2, ops, first, second, res)
            }
        };
    update_is_current(tests1, data1, old_tests, old_data, first, second, ares);
    update_is_current(tests2, data2, tests1, data1, second, first, bres);
    difference_stays(data2, old_data, first, second);
    data2
}

/// Two variables of which a varnode of one and a varnode of the other are alive at once and hold
/// different values intersect.
pub proof fn different_values_at_once_intersect(
    tests: Map<HighEdge, bool>,
    data: Funcdata,
    old_tests: Map<HighEdge, bool>,
    old_data: Funcdata,
    ops: Seq<AffectingOp>,
    first: HighId,
    second: HighId,
    res: Result<bool>,
)
    requires
        first != second,
        old_data.testable(first),
        old_data.testable(second),
        !old_tests.contains_key(HighEdge { first, second }),
        cover_current(old_data, old_data.variable(first)),
        cover_current(old_data, old_data.variable(second)),
        crate::variable::intersect::tests_intersection(tests, data, old_tests, old_data, ops, first, second, res),
        differ_at_once(old_data, first, second),
    ensures
        res == Ok::<bool, Error>(true),
{
    let mid = test_of_current(tests, data, old_tests, old_data, ops, first, second, res);
    difference_is_a_clash(mid, first, second);
}

/// A variable has a property: one of its varnodes has it, or it is known to have it.
pub open spec fn shows(data: Funcdata, high: HighVariable, bits: u32) -> bool {
    if high.note(HighVariable::FLAGSDIRTY) {
        exists|i: int| 0 <= i < high.inst@.len() && data.value(#[trigger] high.inst@[i]).flags & bits != 0
    } else {
        high.flags & bits != 0
    }
}

proof fn shown_jointly(data: Funcdata, high: HighVariable, n: nat, bits: u32)
    requires
        n <= high.inst@.len(),
    ensures
        (data.joint_flags(high, n) & bits != 0) == (exists|i: int|
            0 <= i < n && data.value(#[trigger] high.inst@[i]).flags & bits != 0),
    decreases n,
{
    if n == 0 {
        assert(0u32 & bits == 0) by (bit_vector);
    } else {
        shown_jointly(data, high, (n - 1) as nat, bits);
        let rest = data.joint_flags(high, (n - 1) as nat);
        let last = data.value(high.inst@[n - 1]).flags;
        assert(((rest | last) & bits != 0) == (rest & bits != 0 || last & bits != 0)) by (bit_vector);
    }
}

/// The properties that are found are those that are shown.
proof fn flagged_shows(data: Funcdata, before: Funcdata, high: HighId)
    requires
        before.has_high(high),
        data.flagged(before, high),
    ensures
        (data.variable(high).flags & Varnode::ADDRTIED != 0) == shows(before, before.variable(high), Varnode::ADDRTIED),
        (data.variable(high).flags & Varnode::PERSIST != 0) == shows(before, before.variable(high), Varnode::PERSIST),
        data.same_but_highs(before),
        data.variable(high).inst == before.variable(high).inst,
        data.variable(high).full_cover() == before.variable(high).full_cover(),
        !data.variable(high).note(HighVariable::FLAGSDIRTY),
        forall|h: HighId| h != high && before.has_high(h) ==> #[trigger] data.variable(h) == before.variable(h)
            && data.has_high(h),
        data.has_high(high),
{
    let old_high = before.variable(high);
    let n = old_high.inst@.len();
    shown_jointly(before, old_high, n, Varnode::ADDRTIED);
    shown_jointly(before, old_high, n, Varnode::PERSIST);
    let own = old_high.flags;
    let joint = before.joint_flags(old_high, n);
    let notes = old_high.highflags;
    assert((((own & (0x1u32 | 0x100u32)) | (joint & !(0x1u32 | 0x80000u32 | 0x100u32))) & 0x8000u32 != 0) == (joint
        & 0x8000u32 != 0) && (((own & (0x1u32 | 0x100u32)) | (joint & !(0x1u32 | 0x80000u32 | 0x100u32))) & 0x4000u32 != 0)
        == (joint & 0x4000u32 != 0) && (notes & !0x1u32) & 0x1u32 == 0) by (bit_vector);
}

/// Variables that are no pieces of a group, and either both or neither of which are tied to
/// their storage, intersect if and only if a varnode of one and a varnode of the other are alive
/// at once and hold different values.
pub proof fn only_different_values_intersect(
    tests: Map<HighEdge, bool>,
    data: Funcdata,
    old_tests: Map<HighEdge, bool>,
    old_data: Funcdata,
    ops: Seq<AffectingOp>,
    first: HighId,
    second: HighId,
    res: Result<bool>,
)
    requires
        first != second,
        old_data.testable(first),
        old_data.testable(second),
        !old_tests.contains_key(HighEdge { first, second }),
        cover_current(old_data, old_data.variable(first)),
        cover_current(old_data, old_data.variable(second)),
        old_data.variable(first).piece is None,
        old_data.variable(second).piece is None,
        shows(old_data, old_data.variable(first), Varnode::ADDRTIED) == shows(
            old_data,
            old_data.variable(second),
            Varnode::ADDRTIED,
        ),
        crate::variable::intersect::tests_intersection(tests, data, old_tests, old_data, ops, first, second, res),
    ensures
        res == Ok::<bool, Error>(differ_at_once(old_data, first, second)),
{
    let mid = test_of_current(tests, data, old_tests, old_data, ops, first, second, res);
    if differ_at_once(mid, first, second) {
        difference_is_a_clash(mid, first, second);
    } else {
        if crate::variable::intersect::clash_somewhere(mid, first, second) {
            clash_is_a_difference(mid, first, second);
        }
        let (one, two) = tied_test(data, mid, ops, first, second, res);
        same_shown(mid, old_data, mid.variable(first), old_data.variable(first));
        same_shown(mid, old_data, mid.variable(second), old_data.variable(second));
    }
}

/// Both directions of what tells that variables intersect.
pub proof fn intersection_tells_difference(
    tests: Map<HighEdge, bool>,
    data: Funcdata,
    old_tests: Map<HighEdge, bool>,
    old_data: Funcdata,
    ops: Seq<AffectingOp>,
    first: HighId,
    second: HighId,
    res: Result<bool>,
)
    requires
        first != second,
        old_data.testable(first),
        old_data.testable(second),
        !old_tests.contains_key(HighEdge { first, second }),
        cover_current(old_data, old_data.variable(first)),
        cover_current(old_data, old_data.variable(second)),
        crate::variable::intersect::tests_intersection(tests, data, old_tests, old_data, ops, first, second, res),
    ensures
        differ_at_once(old_data, first, second) ==> res == Ok::<bool, Error>(true),
        old_data.variable(first).piece is None && old_data.variable(second).piece is None && shows(
            old_data,
            old_data.variable(first),
            Varnode::ADDRTIED,
        ) == shows(old_data, old_data.variable(second), Varnode::ADDRTIED) && !differ_at_once(old_data, first, second)
            ==> res == Ok::<bool, Error>(false),
{
    if differ_at_once(old_data, first, second) {
        different_values_at_once_intersect(tests, data, old_tests, old_data, ops, first, second, res);
    } else if old_data.variable(first).piece is None && old_data.variable(second).piece is None && shows(
        old_data,
        old_data.variable(first),
        Varnode::ADDRTIED,
    ) == shows(old_data, old_data.variable(second), Varnode::ADDRTIED) {
        only_different_values_intersect(tests, data, old_tests, old_data, ops, first, second, res);
    }
}

proof fn same_shown(data: Funcdata, before: Funcdata, high: HighVariable, old_high: HighVariable)
    requires
        data.same_but_highs(before),
        high.inst == old_high.inst,
        high.flags == old_high.flags,
        high.note(HighVariable::FLAGSDIRTY) == old_high.note(HighVariable::FLAGSDIRTY),
    ensures
        forall|bits: u32| #[trigger] shows(data, high, bits) == shows(before, old_high, bits),
{
    assert forall|bits: u32| #[trigger] shows(data, high, bits) == shows(before, old_high, bits) by {
        if shows(data, high, bits) && high.note(HighVariable::FLAGSDIRTY) {
            let i = choose|i: int| 0 <= i < high.inst@.len() && data.value(#[trigger] high.inst@[i]).flags & bits != 0;
            assert(before.value(old_high.inst@[i]).flags & bits != 0);
        }
        if shows(before, old_high, bits) && high.note(HighVariable::FLAGSDIRTY) {
            let i = choose|i: int|
                0 <= i < old_high.inst@.len() && before.value(#[trigger] old_high.inst@[i]).flags & bits != 0;
            assert(data.value(high.inst@[i]).flags & bits != 0);
        }
    }
}

/// What is left to find where no varnodes clash: whether just one of the variables is tied.
proof fn tied_test(
    data: Funcdata,
    mid: Funcdata,
    ops: Seq<AffectingOp>,
    first: HighId,
    second: HighId,
    res: Result<bool>,
) -> (states: (Funcdata, Funcdata))
    requires
        first != second,
        mid.has_high(first),
        mid.has_high(second),
        !crate::variable::intersect::clash_somewhere(mid, first, second),
        crate::variable::intersect::tests_pair(data, mid, ops, first, second, res),
    ensures
        states.1.same_but_highs(mid),
        states.1.has_high(first),
        states.1.has_high(second),
        states.1.variable(first).inst == mid.variable(first).inst,
        states.1.variable(second).inst == mid.variable(second).inst,
        states.1.variable(first).full_cover() == mid.variable(first).full_cover(),
        states.1.variable(second).full_cover() == mid.variable(second).full_cover(),
        !states.1.variable(first).note(HighVariable::FLAGSDIRTY),
        !states.1.variable(second).note(HighVariable::FLAGSDIRTY),
        forall|bits: u32| bits == Varnode::ADDRTIED || bits == Varnode::PERSIST ==> (#[trigger] (states.1.variable(first).flags
            & bits) != 0) == shows(mid, mid.variable(first), bits),
        forall|bits: u32| bits == Varnode::ADDRTIED || bits == Varnode::PERSIST ==> (#[trigger] (states.1.variable(second).flags
            & bits) != 0) == shows(mid, mid.variable(second), bits),
        ({
            let a_tied = shows(mid, mid.variable(first), Varnode::ADDRTIED);
            let b_tied = shows(mid, mid.variable(second), Varnode::ADDRTIED);
            if a_tied == b_tied {
                data == states.1 && res == Ok::<bool, Error>(false)
            } else if a_tied {
                data == states.1 && data.untied_outcome(ops, first, second, res)
            } else {
                data == states.1 && data.untied_outcome(ops, second, first, res)
            }
        }),
{
    let (one, two) = choose|one: Funcdata, two: Funcdata|
        #![trigger one.flagged(mid, first), two.flagged(one, second)]
        {
            let a_tied = (one.variable(first).flags & Varnode::ADDRTIED) != 0;
            let b_tied = (two.variable(second).flags & Varnode::ADDRTIED) != 0;
            &&& one.flagged(mid, first)
            &&& two.flagged(one, second)
            &&& if a_tied == b_tied {
                data == two && res == Ok::<bool, Error>(false)
            } else if a_tied {
                data.flagged(two, first) && data.untied_outcome(ops, first, second, res)
            } else {
                data.flagged(two, second) && data.untied_outcome(ops, second, first, res)
            }
        };
    flagged_shows(one, mid, first);
    flagged_shows(two, one, second);
    assert(one.variable(second) == mid.variable(second));
    assert(two.variable(first) == one.variable(first));
    assert(one.has_high(second));
    same_shown(one, mid, one.variable(second), mid.variable(second));
    (one, two)
}

/// The varnode of a variable that is listed first among those tied to their storage.
pub open spec fn is_first_tied(data: Funcdata, high: HighVariable, vn: VarnodeId) -> bool {
    exists|i: int|
        0 <= i < high.inst@.len() && #[trigger] high.inst@[i] == vn && data.value(vn).flags & Varnode::ADDRTIED != 0
            && forall|k: int| 0 <= k < i ==> data.value(#[trigger] high.inst@[k]).flags & Varnode::ADDRTIED == 0
}

/// An operation that may change a varnode has its place strictly inside one of a list of
/// stretches.
pub open spec fn changed_inside(ops: Seq<AffectingOp>, vn: VarnodeId, list: Seq<Stretch>) -> bool {
    exists|n: int, k: int|
        #![trigger ops[n], list[k]]
        0 <= n < ops.len() && 0 <= k < list.len() && ops[n].affects@.contains(vn) && ops[n].block == list[k].block
            && list[k].start < ops[n].position < list[k].stop
}

proof fn first_tied_is_found(data: Funcdata, high: HighVariable, vn: VarnodeId, i: int, from: nat)
    requires
        from <= i < high.inst@.len(),
        high.inst@[i] == vn,
        data.value(vn).flags & Varnode::ADDRTIED != 0,
        forall|k: int| 0 <= k < i ==> data.value(#[trigger] high.inst@[k]).flags & Varnode::ADDRTIED == 0,
    ensures
        data.first_with(high, Varnode::ADDRTIED, from) == Some(vn),
    decreases i - from,
{
    if from < i {
        assert(data.value(high.inst@[from as int]).flags & Varnode::ADDRTIED == 0);
        first_tied_is_found(data, high, vn, i, from + 1);
    }
}

proof fn place_inside(cover: Cover, block: int, position: int, n: nat)
    requires
        n <= cover.stretches@.len(),
    ensures
        cover.inside(block, position, n) == exists|k: int|
            0 <= k < n && (#[trigger] cover.stretches@[k]).block == block && cover.stretches@[k].start < position
                < cover.stretches@[k].stop,
    decreases n,
{
    if n > 0 {
        place_inside(cover, block, position, (n - 1) as nat);
    }
}

proof fn affected_inside(cover: Cover, ops: Seq<AffectingOp>, vn: VarnodeId, n: nat)
    requires
        n <= ops.len(),
    ensures
        cover.affected(ops, vn, n) == changed_inside(ops.take(n as int), vn, cover.stretches@),
    decreases n,
{
    let list = cover.stretches@;
    if n > 0 {
        affected_inside(cover, ops, vn, (n - 1) as nat);
        let op = ops[n - 1];
        place_inside(cover, op.block as int, op.position as int, list.len());
        let some = ops.take(n - 1);
        let all = ops.take(n as int);
        assert(all[n - 1] == op);
        if changed_inside(some, vn, list) {
            let (m, k) = choose|m: int, k: int|
                #![trigger some[m], list[k]]
                0 <= m < some.len() && 0 <= k < list.len() && some[m].affects@.contains(vn) && some[m].block
                    == list[k].block && list[k].start < some[m].position < list[k].stop;
            assert(all[m] == some[m]);
        }
        if changed_inside(all, vn, list) {
            let (m, k) = choose|m: int, k: int|
                #![trigger all[m], list[k]]
                0 <= m < all.len() && 0 <= k < list.len() && all[m].affects@.contains(vn) && all[m].block
                    == list[k].block && list[k].start < all[m].position < list[k].stop;
            if m < n - 1 {
                assert(all[m] == some[m]);
            }
        }
    }
}

/// A variable that is tied to its storage and one that is not, no pieces of a group and without
/// different values at once, intersect if the storage can be reached in other ways, does not
/// persist, and an operation that may change it has its place strictly inside where the other
/// variable is alive.
pub proof fn changed_storage_intersects(
    tests: Map<HighEdge, bool>,
    data: Funcdata,
    old_tests: Map<HighEdge, bool>,
    old_data: Funcdata,
    ops: Seq<AffectingOp>,
    first: HighId,
    second: HighId,
    tied: HighId,
    untied: HighId,
    vn: VarnodeId,
    res: Result<bool>,
)
    requires
        first != second,
        (tied == first && untied == second) || (tied == second && untied == first),
        old_data.testable(first),
        old_data.testable(second),
        !old_tests.contains_key(HighEdge { first, second }),
        cover_current(old_data, old_data.variable(first)),
        cover_current(old_data, old_data.variable(second)),
        old_data.variable(first).piece is None,
        old_data.variable(second).piece is None,
        shows(old_data, old_data.variable(tied), Varnode::ADDRTIED),
        !shows(old_data, old_data.variable(untied), Varnode::ADDRTIED),
        is_first_tied(old_data, old_data.variable(tied), vn),
        !differ_at_once(old_data, first, second),
        crate::variable::intersect::tests_intersection(tests, data, old_tests, old_data, ops, first, second, res),
    ensures
        res == Ok::<bool, Error>(
            !shows(old_data, old_data.variable(tied), Varnode::PERSIST) && old_data.value(vn).flags & Varnode::NOLOCALALIAS
                == 0 && changed_inside(ops, vn, data.variable(untied).full_cover().stretches@),
        ),
        holds_life(old_data, old_data.variable(untied), data.variable(untied).full_cover().stretches@),
{
    let mid = test_of_current(tests, data, old_tests, old_data, ops, first, second, res);
    if crate::variable::intersect::clash_somewhere(mid, first, second) {
        clash_is_a_difference(mid, first, second);
    }
    let (one, two) = tied_test(data, mid, ops, first, second, res);
    same_shown(mid, old_data, mid.variable(first), old_data.variable(first));
    same_shown(mid, old_data, mid.variable(second), old_data.variable(second));
    let high = old_data.variable(tied);
    let i = choose|i: int|
        0 <= i < high.inst@.len() && #[trigger] high.inst@[i] == vn && old_data.value(vn).flags & Varnode::ADDRTIED != 0
            && forall|k: int| 0 <= k < i ==> old_data.value(#[trigger] high.inst@[k]).flags & Varnode::ADDRTIED == 0;
    let now = data.variable(tied);
    assert(data.varnodes == old_data.varnodes);
    assert forall|k: int| 0 <= k < i implies data.value(#[trigger] now.inst@[k]).flags & Varnode::ADDRTIED == 0 by {
        assert(old_data.value(high.inst@[k]).flags & Varnode::ADDRTIED == 0);
    }
    assert(now.inst@[i] == vn);
    first_tied_is_found(data, now, vn, i, 0);
    let cover = data.variable(untied).full_cover();
    affected_inside(cover, ops, vn, ops.len());
    assert(ops.take(ops.len() as int) =~= ops);
    same_life(data, mid, mid.variable(untied), cover.stretches@);
    same_life(mid, old_data, mid.variable(untied), cover.stretches@);
    let before = old_data.variable(untied);
    let after = mid.variable(untied);
    assert forall|k: int, m: int|
        #![trigger old_data.value(before.inst@[k]).cover->0.stretches@[m]]
        0 <= k < before.inst@.len() && 0 <= m < old_data.value(
            before.inst@[k],
        ).cover->0.stretches@.len() implies cover.stretches@.contains(
        old_data.value(before.inst@[k]).cover->0.stretches@[m],
    ) by {
        assert(after.inst@[k] == before.inst@[k]);
        assert(cover.stretches@.contains(old_data.value(after.inst@[k]).cover->0.stretches@[m]));
    }
    assert((now.flags & Varnode::PERSIST) != 0 == shows(mid, mid.variable(tied), Varnode::PERSIST));
}

} // verus!

//! Groups of variables that are pieces of one thing.
use vstd::prelude::*;
use crate::arena::Arena;
use crate::error::{Error, Result};
use crate::ids::{GroupId, HighId};
use crate::variable::{HighVariable, PieceEntry, VariableGroup, VariablePiece};

verus! {

/// Whether one place comes before another: by where it starts, then by how long it is.
pub open spec fn before(offset: int, size: int, entry: PieceEntry) -> bool {
    entry.offset < offset || (entry.offset == offset && entry.size < size)
}

/// The first place in a list, from the given one on, that a piece does not come after.
pub open spec fn piece_place(list: Seq<PieceEntry>, offset: int, size: int, i: nat) -> nat
    decreases list.len() - i,
{
    if i < list.len() && before(offset, size, list[i as int]) {
        piece_place(list, offset, size, i + 1)
    } else {
        i
    }
}

/// Whether a list has a piece at a place.
pub open spec fn has_piece(list: Seq<PieceEntry>, offset: int, size: int) -> bool {
    let i = piece_place(list, offset, size, 0);
    i < list.len() && list[i as int].offset == offset && list[i as int].size == size
}

/// The piece that a list has at a place.
pub open spec fn piece_at(list: Seq<PieceEntry>, offset: int, size: int) -> Option<HighId> {
    if has_piece(list, offset, size) {
        Some(list[piece_place(list, offset, size, 0) as int].high)
    } else {
        None
    }
}

/// A list with a piece put at its place.
pub open spec fn with_piece(list: Seq<PieceEntry>, entry: PieceEntry) -> Seq<PieceEntry> {
    let i = piece_place(list, entry.offset as int, entry.size as int, 0);
    if has_piece(list, entry.offset as int, entry.size as int) {
        list.update(i as int, entry)
    } else {
        list.insert(i as int, entry)
    }
}

/// A list without the piece at a place.
pub open spec fn without_piece(list: Seq<PieceEntry>, offset: int, size: int) -> Seq<PieceEntry> {
    if has_piece(list, offset, size) {
        list.remove(piece_place(list, offset, size, 0) as int)
    } else {
        list
    }
}

/// A list moved by a number of bytes.
pub open spec fn moved_pieces(list: Seq<PieceEntry>, amt: int) -> Seq<PieceEntry> {
    list.map_values(|e: PieceEntry| PieceEntry { offset: (e.offset + amt) as i32, ..e })
}

pub proof fn place_in_list(list: Seq<PieceEntry>, offset: int, size: int, i: nat)
    requires
        i <= list.len(),
    ensures
        i <= piece_place(list, offset, size, i) <= list.len(),
    decreases list.len() - i,
{
    if i < list.len() && before(offset, size, list[i as int]) {
        place_in_list(list, offset, size, i + 1);
    }
}

impl VariableGroup {
    pub fn new() -> (res: VariableGroup)
        ensures
            res.piece_set@.len() == 0,
            res.size == 0,
            res.symbol_offset == 0,
    {
        VariableGroup { piece_set: Vec::new(), size: 0, symbol_offset: 0 }
    }

    pub fn empty(&self) -> (res: bool)
        ensures
            res == (self.piece_set@.len() == 0),
    {
        self.piece_set.len() == 0
    }

    pub fn get_size(&self) -> (res: i32)
        ensures
            res == self.size,
    {
        self.size
    }

    pub fn set_symbol_offset(&mut self, val: i32)
        ensures
            *final(self) == (VariableGroup { symbol_offset: val, ..*old(self) }),
    {
        self.symbol_offset = val;
    }

    pub fn get_symbol_offset(&self) -> (res: i32)
        ensures
            res == self.symbol_offset,
    {
        self.symbol_offset
    }

    /// The place of a piece in the list.
    fn place(&self, offset: i32, size: i32) -> (res: usize)
        ensures
            res == piece_place(self.piece_set@, offset as int, size as int, 0),
            res <= self.piece_set@.len(),
    {
        let mut i: usize = 0;
        while i < self.piece_set.len() && (self.piece_set[i].offset < offset || (self.piece_set[i].offset == offset
            && self.piece_set[i].size < size))
            invariant
                i <= self.piece_set@.len(),
                piece_place(self.piece_set@, offset as int, size as int, i as nat) == piece_place(
                    self.piece_set@,
                    offset as int,
                    size as int,
                    0,
                ),
            decreases self.piece_set@.len() - i,
        {
            i = i + 1;
        }
        i
    }

    /// The piece at a place.
    pub fn find_piece(&self, offset: i32, size: i32) -> (res: Option<HighId>)
        ensures
            res == piece_at(self.piece_set@, offset as int, size as int),
    {
        let i: usize = self.place(offset, size);
        if i < self.piece_set.len() && self.piece_set[i].offset == offset && self.piece_set[i].size == size {
            Some(self.piece_set[i].high)
        } else {
            None
        }
    }

    /// Puts a piece at its place.
    pub fn put_piece(&mut self, entry: PieceEntry)
        ensures
            final(self).piece_set@ == with_piece(old(self).piece_set@, entry),
            final(self).size == old(self).size,
            final(self).symbol_offset == old(self).symbol_offset,
    {
        let i: usize = self.place(entry.offset, entry.size);
        if i < self.piece_set.len() && self.piece_set[i].offset == entry.offset && self.piece_set[i].size
            == entry.size {
            self.piece_set.set(i, entry);
        } else {
            self.piece_set.insert(i, entry);
        }
    }

    /// Removes the piece at a place.
    pub fn drop_piece(&mut self, offset: i32, size: i32)
        ensures
            final(self).piece_set@ == without_piece(old(self).piece_set@, offset as int, size as int),
            final(self).size == old(self).size,
            final(self).symbol_offset == old(self).symbol_offset,
    {
        let i: usize = self.place(offset, size);
        if i < self.piece_set.len() && self.piece_set[i].offset == offset && self.piece_set[i].size == size {
            self.piece_set.remove(i);
        }
    }

    pub fn remove_piece(&mut self, piece: &VariablePiece)
        ensures
            final(self).piece_set@ == without_piece(
                old(self).piece_set@,
                piece.group_offset as int,
                piece.size as int,
            ),
            final(self).size == old(self).size,
            final(self).symbol_offset == old(self).symbol_offset,
    {
        self.drop_piece(piece.group_offset, piece.size);
    }

    /// A group once a piece has been added to it.
    pub open spec fn with_added(self, before: VariableGroup, piece: VariablePiece, high: HighId) -> bool {
        &&& self.piece_set@ == with_piece(
            before.piece_set@,
            PieceEntry { offset: piece.group_offset, size: piece.size, high },
        )
        &&& self.size == if piece.group_offset + piece.size > before.size {
            (piece.group_offset + piece.size) as i32
        } else {
            before.size
        }
        &&& self.symbol_offset == before.symbol_offset
    }

    /// Adds the piece that a variable is to a group.
    pub fn add_piece(
        groups: &mut Arena<VariableGroup>,
        highs: &mut Arena<HighVariable>,
        group: GroupId,
        piece_high: HighId,
    ) -> (res: Result<()>)
        requires
            old(groups).has(group.0),
            old(highs).has(piece_high.0),
            old(highs).item(piece_high.0).piece is Some,
            ({
                let piece = old(highs).item(piece_high.0).piece->0;
                i32::MIN <= piece.group_offset + piece.size <= i32::MAX
            }),
        ensures
            ({
                let high = old(highs).item(piece_high.0);
                let piece = high.piece->0;
                &&& final(highs).slots@ == old(highs).with(
                    piece_high.0,
                    HighVariable { piece: Some(VariablePiece { group, ..piece }), ..high },
                )
                &&& match res {
                    Ok(_) => {
                        &&& !has_piece(
                            old(groups).item(group.0).piece_set@,
                            piece.group_offset as int,
                            piece.size as int,
                        )
                        &&& final(groups).slots@ == old(groups).with(group.0, final(groups).item(group.0))
                        &&& final(groups).item(group.0).with_added(old(groups).item(group.0), piece, piece_high)
                    },
                    Err(e) => {
                        &&& has_piece(
                            old(groups).item(group.0).piece_set@,
                            piece.group_offset as int,
                            piece.size as int,
                        )
                        &&& *final(groups) == *old(groups)
                        &&& e.is_lowlevel("Duplicate VariablePiece"@)
                    },
                }
            }),
    {
        let high = highs.get_mut(piece_high.0);
        let offset: i32;
        let size: i32;
        match &mut high.piece {
            Some(piece) => {
                piece.group = group;
                offset = piece.group_offset;
                size = piece.size;
            },
            None => {
                offset = 0;
                size = 0;
                vstd::pervasive::unreached()
            },
        }
        if groups.get(group.0).find_piece(offset, size).is_some() {
            return Err(Error::lowlevel("Duplicate VariablePiece"));
        }
        let group_data = groups.get_mut(group.0);
        group_data.put_piece(PieceEntry { offset, size, high: piece_high });
        if offset + size > group_data.size {
            group_data.size = offset + size;
        }
        Ok(())
    }

    /// The pieces of a group are variables that know where they are in it, and
    /// the list of them is in order.
    pub open spec fn settled(self, id: GroupId, highs: Arena<HighVariable>) -> bool {
        &&& forall|i: int| #![trigger self.piece_set@[i]]
            0 <= i < self.piece_set@.len() ==> {
                let entry = self.piece_set@[i];
                &&& highs.has(entry.high.0)
                &&& highs.item(entry.high.0).piece is Some
                &&& highs.item(entry.high.0).piece->0.group == id
                &&& highs.item(entry.high.0).piece->0.group_offset == entry.offset
                &&& highs.item(entry.high.0).piece->0.size == entry.size
            }
        &&& forall|i: int, j: int| #![trigger self.piece_set@[i], self.piece_set@[j]]
            0 <= i < j < self.piece_set@.len() ==> before(
                self.piece_set@[j].offset as int,
                self.piece_set@[j].size as int,
                self.piece_set@[i],
            )
    }

    /// Whether a variable is among the first `n` pieces.
    pub open spec fn lists(self, high: u32, n: int) -> bool {
        exists|i: int| 0 <= i < n && (#[trigger] self.piece_set@[i]).high.0 == high
    }

    /// A variable whose piece is moved by a number of bytes.
    pub open spec fn shifted(high: HighVariable, amt: int) -> HighVariable {
        HighVariable {
            piece: Some(
                VariablePiece { group_offset: (high.piece->0.group_offset + amt) as i32, ..high.piece->0 },
            ),
            ..high
        }
    }

    /// The variables once the first `n` pieces of the group have been moved.
    pub open spec fn shifts(self, amt: int, old_highs: Arena<HighVariable>, highs: Arena<HighVariable>, n: int) -> bool {
        &&& highs.slots@.len() == old_highs.slots@.len()
        &&& forall|h: u32| #![trigger highs.slots@[h as int]]
            h < highs.slots@.len() ==> highs.slots@[h as int] == if self.lists(h, n) {
                Some(VariableGroup::shifted(old_highs.item(h), amt))
            } else {
                old_highs.slots@[h as int]
            }
    }

    /// Moves all pieces of a group by a number of bytes.
    pub fn adjust_offsets(
        groups: &mut Arena<VariableGroup>,
        highs: &mut Arena<HighVariable>,
        group: GroupId,
        amt: i32,
    )
        requires
            old(groups).has(group.0),
            old(groups).item(group.0).settled(group, *old(highs)),
            i32::MIN <= old(groups).item(group.0).size + amt <= i32::MAX,
            forall|i: int| #![trigger old(groups).item(group.0).piece_set@[i]]
                0 <= i < old(groups).item(group.0).piece_set@.len() ==> i32::MIN <= old(groups).item(
                    group.0,
                ).piece_set@[i].offset + amt <= i32::MAX,
        ensures
            final(groups).slots@ == old(groups).with(group.0, final(groups).item(group.0)),
            final(groups).item(group.0).piece_set@ == moved_pieces(old(groups).item(group.0).piece_set@, amt as int),
            final(groups).item(group.0).size == old(groups).item(group.0).size + amt,
            final(groups).item(group.0).symbol_offset == old(groups).item(group.0).symbol_offset,
            old(groups).item(group.0).shifts(
                amt as int,
                *old(highs),
                *final(highs),
                old(groups).item(group.0).piece_set@.len() as int,
            ),
            final(groups).item(group.0).settled(group, *final(highs)),
    {
        let ghost before_group = groups.item(group.0);
        let ghost list = before_group.piece_set@;
        let ghost before_highs = *highs;
        let group_data = groups.get_mut(group.0);
        let mut i: usize = 0;
        while i < group_data.piece_set.len()
            invariant
                i <= list.len(),
                list == before_group.piece_set@,
                group_data.piece_set@.len() == list.len(),
                group_data.size == before_group.size,
                group_data.symbol_offset == before_group.symbol_offset,
                before_group.settled(group, before_highs),
                before_group.shifts(amt as int, before_highs, *highs, i as int),
                forall|k: int| #![trigger list[k]]
                    0 <= k < list.len() ==> i32::MIN <= list[k].offset + amt <= i32::MAX,
                forall|k: int| #![trigger group_data.piece_set@[k]]
                    0 <= k < list.len() ==> group_data.piece_set@[k] == if k < i {
                        (PieceEntry { offset: (list[k].offset + amt) as i32, ..list[k] })
                    } else {
                        list[k]
                    },
            decreases list.len() - i,
        {
            let entry = group_data.piece_set[i];
            let ghost mid = *highs;
            proof {
                assert(entry == list[i as int]);
                assert(!before_group.lists(entry.high.0, i as int)) by {
                    if before_group.lists(entry.high.0, i as int) {
                        let k = choose|k: int| 0 <= k < i && (#[trigger] before_group.piece_set@[k]).high.0
                            == entry.high.0;
                        assert(before(list[i as int].offset as int, list[i as int].size as int, list[k]));
                    }
                }
                assert(highs.slots@[entry.high.0 as int] == before_highs.slots@[entry.high.0 as int]);
            }
            let high = highs.get_mut(entry.high.0);
            match &mut high.piece {
                Some(piece) => {
                    piece.group_offset = piece.group_offset + amt;
                },
                None => {},
            }
            group_data.piece_set.set(i, PieceEntry { offset: entry.offset + amt, ..entry });
            proof {
                assert forall|h: u32| #![trigger highs.slots@[h as int]]
                    h < highs.slots@.len() implies highs.slots@[h as int] == if before_group.lists(h, i + 1) {
                    Some(VariableGroup::shifted(before_highs.item(h), amt as int))
                } else {
                    before_highs.slots@[h as int]
                } by {
                    assert(mid.slots@[h as int] == if before_group.lists(h, i as int) {
                        Some(VariableGroup::shifted(before_highs.item(h), amt as int))
                    } else {
                        before_highs.slots@[h as int]
                    });
                    if before_group.lists(h, i as int) {
                        let k = choose|k: int| 0 <= k < i && (#[trigger] before_group.piece_set@[k]).high.0 == h;
                        assert(before_group.piece_set@[k].high.0 == h && k < i + 1);
                        assert(before_group.lists(h, i + 1));
                    }
                    if h == entry.high.0 {
                        assert(before_group.piece_set@[i as int].high.0 == h);
                        assert(before_group.lists(h, i + 1));
                    }
                    if before_group.lists(h, i + 1) && !before_group.lists(h, i as int) {
                        let k = choose|k: int| 0 <= k < i + 1 && (#[trigger] before_group.piece_set@[k]).high.0 == h;
                        assert(k == i);
                    }
                }
            }
            i = i + 1;
        }
        group_data.size = group_data.size + amt;
        proof {
            assert(group_data.piece_set@ =~= moved_pieces(list, amt as int));
            assert forall|k: int| #![trigger group_data.piece_set@[k]] 0 <= k < list.len() implies {
                let entry = group_data.piece_set@[k];
                &&& highs.has(entry.high.0)
                &&& highs.item(entry.high.0).piece is Some
                &&& highs.item(entry.high.0).piece->0.group == group
                &&& highs.item(entry.high.0).piece->0.group_offset == entry.offset
                &&& highs.item(entry.high.0).piece->0.size == entry.size
            } by {
                let h = list[k].high.0;
                assert(before_group.lists(h, list.len() as int));
                assert(highs.slots@[h as int] is Some);
            }
            assert forall|k: int, j: int| #![trigger group_data.piece_set@[k], group_data.piece_set@[j]]
                0 <= k < j < list.len() implies before(
                group_data.piece_set@[j].offset as int,
                group_data.piece_set@[j].size as int,
                group_data.piece_set@[k],
            ) by {
                assert(before(list[j].offset as int, list[j].size as int, list[k]));
            }
        }
    }
}

} // verus!

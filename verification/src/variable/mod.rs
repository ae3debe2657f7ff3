//! High-level variables: varnodes that are merged into one variable, and the
//! groups of variables that are pieces of one thing.
use vstd::prelude::*;
use crate::cover::Cover;
use crate::ids::{GroupId, HighId, SymbolId, TypeId, VarnodeId};
use crate::varnode::Varnode;

pub mod encode;
pub mod alive;
pub mod combine;
pub mod edges;
pub mod expression;
pub mod group;
pub mod grouping;
pub mod highs;
pub mod intersect;
pub mod join;
pub mod meet;
pub mod merge;
pub mod names;
pub mod piece;
pub mod symbols;

verus! {

/// A piece of a group: where it starts, how long it is and the variable that it is.
#[derive(Copy, Clone, Debug, PartialEq, Eq, Structural)]
pub struct PieceEntry {
    pub offset: i32,
    pub size: i32,
    pub high: HighId,
}

/// Variables that are pieces of one thing, in the order of where they start and
/// how long they are.
#[derive(Debug)]
pub struct VariableGroup {
    pub piece_set: Vec<PieceEntry>,
    pub size: i32,
    pub symbol_offset: i32,
}

/// What makes a variable a piece of a group.
#[derive(Debug)]
pub struct VariablePiece {
    pub group: GroupId,
    pub high: HighId,
    pub group_offset: i32,
    pub size: i32,
    /// The pieces of the group that share storage with this one.
    pub intersection: Vec<HighId>,
    /// Where the piece, or one that shares storage with it, is alive.
    pub cover: Cover,
}

/// A variable: the varnodes that are merged into it, and what follows from them.
#[derive(Debug)]
pub struct HighVariable {
    pub inst: Vec<VarnodeId>,
    pub num_merge_classes: i32,
    pub highflags: u32,
    pub flags: u32,
    pub tp: Option<TypeId>,
    pub name_representative: Option<VarnodeId>,
    pub internal_cover: Cover,
    pub piece: Option<VariablePiece>,
    pub symbol: Option<SymbolId>,
    pub symboloffset: i32,
}

impl VariablePiece {
    pub fn get_high(&self) -> (res: HighId)
        ensures
            res == self.high,
    {
        self.high
    }

    pub fn get_group(&self) -> (res: GroupId)
        ensures
            res == self.group,
    {
        self.group
    }

    pub fn get_offset(&self) -> (res: i32)
        ensures
            res == self.group_offset,
    {
        self.group_offset
    }

    pub fn get_size(&self) -> (res: i32)
        ensures
            res == self.size,
    {
        self.size
    }

    pub fn get_cover(&self) -> (res: &Cover)
        ensures
            *res == self.cover,
    {
        &self.cover
    }

    pub fn num_intersection(&self) -> (res: i32)
        requires
            self.intersection@.len() <= i32::MAX,
        ensures
            res == self.intersection@.len(),
    {
        self.intersection.len() as i32
    }

    pub fn get_intersection(&self, index: i32) -> (res: HighId)
        requires
            0 <= index < self.intersection@.len(),
        ensures
            res == self.intersection@[index as int],
    {
        self.intersection[index as usize]
    }

    pub fn set_high(&mut self, new_high: HighId)
        ensures
            *final(self) == (VariablePiece { high: new_high, ..*old(self) }),
    {
        self.high = new_high;
    }
}

impl HighVariable {
    pub const FLAGSDIRTY: u32 = 0x1;
    pub const NAMEREPDIRTY: u32 = 0x2;
    pub const TYPEDIRTY: u32 = 0x4;
    pub const COVERDIRTY: u32 = 0x8;
    pub const SYMBOLDIRTY: u32 = 0x10;
    pub const COPY_IN1: u32 = 0x20;
    pub const COPY_IN2: u32 = 0x40;
    pub const TYPE_FINALIZED: u32 = 0x80;
    pub const UNMERGED: u32 = 0x100;
    pub const INTERSECTDIRTY: u32 = 0x200;
    pub const EXTENDCOVERDIRTY: u32 = 0x400;

    pub open spec fn note(self, bits: u32) -> bool {
        (self.highflags & bits) != 0
    }

    /// The first place, from the given one on, where a varnode is merged.
    pub open spec fn place_from(self, vn: VarnodeId, i: nat) -> int
        decreases self.inst@.len() - i,
    {
        if i >= self.inst@.len() {
            -1
        } else if self.inst@[i as int] == vn {
            i as int
        } else {
            self.place_from(vn, i + 1)
        }
    }

    pub fn instance_index(&self, vn: VarnodeId) -> (res: i32)
        requires
            self.inst@.len() <= i32::MAX,
        ensures
            res == self.place_from(vn, 0),
    {
        let mut i: usize = 0;
        while i < self.inst.len()
            invariant
                i <= self.inst@.len() <= i32::MAX,
                self.place_from(vn, i as nat) == self.place_from(vn, 0),
            decreases self.inst@.len() - i,
        {
            if self.inst[i] == vn {
                return i as i32;
            }
            i = i + 1;
        }
        -1
    }

    pub fn set_copy_in1(&mut self)
        ensures
            *final(self) == (HighVariable { highflags: old(self).highflags | HighVariable::COPY_IN1, ..*old(self) }),
    {
        self.highflags = self.highflags | HighVariable::COPY_IN1;
    }

    pub fn set_copy_in2(&mut self)
        ensures
            *final(self) == (HighVariable { highflags: old(self).highflags | HighVariable::COPY_IN2, ..*old(self) }),
    {
        self.highflags = self.highflags | HighVariable::COPY_IN2;
    }

    pub fn clear_copy_ins(&mut self)
        ensures
            *final(self) == (HighVariable { highflags: old(self).highflags & !(HighVariable::COPY_IN1 | HighVariable::COPY_IN2), ..*old(self) }),
    {
        self.highflags = self.highflags & !(HighVariable::COPY_IN1 | HighVariable::COPY_IN2);
    }

    pub fn flags_dirty(&mut self)
        ensures
            *final(self) == (HighVariable { highflags: old(self).highflags | (HighVariable::FLAGSDIRTY | HighVariable::NAMEREPDIRTY), ..*old(self) }),
    {
        self.highflags = self.highflags | (HighVariable::FLAGSDIRTY | HighVariable::NAMEREPDIRTY);
    }

    pub fn type_dirty(&mut self)
        ensures
            *final(self) == (HighVariable { highflags: old(self).highflags | HighVariable::TYPEDIRTY, ..*old(self) }),
    {
        self.highflags = self.highflags | HighVariable::TYPEDIRTY;
    }

    pub fn symbol_dirty(&mut self)
        ensures
            *final(self) == (HighVariable { highflags: old(self).highflags | HighVariable::SYMBOLDIRTY, ..*old(self) }),
    {
        self.highflags = self.highflags | HighVariable::SYMBOLDIRTY;
    }

    pub fn set_unmerged(&mut self)
        ensures
            *final(self) == (HighVariable { highflags: old(self).highflags | HighVariable::UNMERGED, ..*old(self) }),
    {
        self.highflags = self.highflags | HighVariable::UNMERGED;
    }

    pub fn set_mark(&mut self)
        ensures
            *final(self) == (HighVariable { flags: old(self).flags | Varnode::MARK, ..*old(self) }),
    {
        self.flags = self.flags | Varnode::MARK;
    }

    pub fn clear_mark(&mut self)
        ensures
            *final(self) == (HighVariable { flags: old(self).flags & !Varnode::MARK, ..*old(self) }),
    {
        self.flags = self.flags & !Varnode::MARK;
    }

    pub fn has_copy_in1(&self) -> (res: bool)
        ensures
            res == ((self.highflags & HighVariable::COPY_IN1) != 0),
    {
        (self.highflags & HighVariable::COPY_IN1) != 0
    }

    pub fn has_copy_in2(&self) -> (res: bool)
        ensures
            res == ((self.highflags & HighVariable::COPY_IN2) != 0),
    {
        (self.highflags & HighVariable::COPY_IN2) != 0
    }

    pub fn is_cover_dirty(&self) -> (res: bool)
        ensures
            res == ((self.highflags & (HighVariable::COVERDIRTY | HighVariable::EXTENDCOVERDIRTY)) != 0),
    {
        (self.highflags & (HighVariable::COVERDIRTY | HighVariable::EXTENDCOVERDIRTY)) != 0
    }

    pub fn is_mark(&self) -> (res: bool)
        ensures
            res == ((self.flags & Varnode::MARK) != 0),
    {
        (self.flags & Varnode::MARK) != 0
    }

    pub fn is_unmerged(&self) -> (res: bool)
        ensures
            res == ((self.highflags & HighVariable::UNMERGED) != 0),
    {
        (self.highflags & HighVariable::UNMERGED) != 0
    }

    pub fn set_symbol_reference(&mut self, sym: SymbolId, off: i32)
        ensures
            *final(self) == (HighVariable {
                symbol: Some(sym),
                symboloffset: off,
                highflags: old(self).highflags & !HighVariable::SYMBOLDIRTY,
                ..*old(self)
            }),
    {
        self.symbol = Some(sym);
        self.symboloffset = off;
        self.highflags = self.highflags & !HighVariable::SYMBOLDIRTY;
    }

    /// Where the variable is alive, together with what shares its storage.
    pub open spec fn full_cover(self) -> Cover {
        match self.piece {
            Some(piece) => piece.cover,
            None => self.internal_cover,
        }
    }

    pub fn get_cover(&self) -> (res: &Cover)
        ensures
            *res == self.full_cover(),
    {
        match &self.piece {
            None => &self.internal_cover,
            Some(piece) => piece.get_cover(),
        }
    }

    pub fn get_symbol_offset(&self) -> (res: i32)
        ensures
            res == self.symboloffset,
    {
        self.symboloffset
    }

    pub fn num_instances(&self) -> (res: i32)
        requires
            self.inst@.len() <= i32::MAX,
        ensures
            res == self.inst@.len(),
    {
        self.inst.len() as i32
    }

    pub fn get_instance(&self, index: i32) -> (res: VarnodeId)
        requires
            0 <= index < self.inst@.len(),
        ensures
            res == self.inst@[index as int],
    {
        self.inst[index as usize]
    }

    pub fn get_num_merge_classes(&self) -> (res: i32)
        ensures
            res == self.num_merge_classes,
    {
        self.num_merge_classes
    }

    /// Whether two variables are pieces of the same group.
    pub fn is_same_group(&self, op2: &HighVariable) -> (res: bool)
        ensures
            res == (self.piece is Some && op2.piece is Some && self.piece->0.group == op2.piece->0.group),
    {
        match &self.piece {
            Some(piece) => match &op2.piece {
                Some(other) => piece.get_group() == other.get_group(),
                None => false,
            },
            None => false,
        }
    }

    pub fn is_unattached(&self) -> (res: bool)
        ensures
            res == (self.inst@.len() == 0),
    {
        self.inst.len() == 0
    }

    /// Whether one varnode is stored before another.
    pub open spec fn stored_before(first: Varnode, second: Varnode) -> bool {
        let i = crate::space::space_index(first.loc.base);
        let j = crate::space::space_index(second.loc.base);
        i < j || (i == j && first.loc.offset < second.loc.offset)
    }

    pub fn compare_just_loc(first: &Varnode, second: &Varnode) -> (res: bool)
        ensures
            res == HighVariable::stored_before(*first, *second),
    {
        let i: i64 = crate::space::space_order_index(&first.loc.base);
        let j: i64 = crate::space::space_order_index(&second.loc.base);
        i < j || (i == j && first.loc.offset < second.loc.offset)
    }

    /// What a listing says of where the variable is alive.
    pub open spec fn cover_text(self) -> Seq<char> {
        if self.note(HighVariable::COVERDIRTY) {
            "Cover dirty"@
        } else {
            self.internal_cover.listing(self.internal_cover.stretches@.len())
        }
    }

    pub fn print_cover(&self, out: &mut String)
        ensures
            final(out)@ == old(out)@ + self.cover_text(),
    {
        if (self.highflags & HighVariable::COVERDIRTY) == 0 {
            self.internal_cover.print(out);
        } else {
            out.push_str("Cover dirty");
        }
    }
}

} // verus!

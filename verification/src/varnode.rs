//! Varnodes: the values that p-code operations read and write.
use vstd::prelude::*;
use crate::address::Address;
use crate::cover::Cover;
use crate::ids::{EntryId, HighId, OpId, TypeId};
use crate::space::SpaceRef;

verus! {

/// A value: where it is stored, what writes it and what reads it.
#[derive(Debug)]
pub struct Varnode {
    pub flags: u32,
    pub size: i32,
    pub loc: Address,
    pub def: Option<OpId>,
    pub descend: Vec<OpId>,
    pub high: Option<HighId>,
    pub merge_group: i16,
    pub tp: TypeId,
    /// The data-type that is being tried on the value.
    pub temp_type: Option<TypeId>,
    /// The bits that might be set.
    pub nz_mask: u64,
    pub mapentry: Option<EntryId>,
    pub create_index: u32,
    /// Where the value is alive, if that makes sense for it.
    pub cover: Option<Cover>,
    /// How the value is written in a raw listing.
    pub label: String,
}

impl Varnode {
    pub const MARK: u32 = 0x1;
    pub const CONSTANT: u32 = 0x2;
    pub const ANNOTATION: u32 = 0x4;
    pub const INPUT: u32 = 0x8;
    pub const WRITTEN: u32 = 0x10;
    pub const INSERT: u32 = 0x20;
    pub const IMPLIED: u32 = 0x40;
    pub const EXPLICIT: u32 = 0x80;
    pub const TYPELOCK: u32 = 0x100;
    pub const NAMELOCK: u32 = 0x200;
    pub const NOLOCALALIAS: u32 = 0x400;
    pub const PERSIST: u32 = 0x4000;
    pub const ADDRTIED: u32 = 0x8000;
    pub const UNAFFECTED: u32 = 0x10000;
    pub const SPACEBASE: u32 = 0x20000;
    pub const INDIRECTONLY: u32 = 0x40000;
    pub const DIRECTWRITE: u32 = 0x80000;
    pub const MAPPED: u32 = 0x200000;
    pub const INDIRECT_CREATION: u32 = 0x400000;
    pub const PROTO_PARTIAL: u32 = 0x80000000;

    pub open spec fn flag(self, bits: u32) -> bool {
        (self.flags & bits) != 0
    }

    pub fn is_constant(&self) -> (res: bool)
        ensures
            res == self.flag(Varnode::CONSTANT),
    {
        (self.flags & Varnode::CONSTANT) != 0
    }

    pub fn is_annotation(&self) -> (res: bool)
        ensures
            res == self.flag(Varnode::ANNOTATION),
    {
        (self.flags & Varnode::ANNOTATION) != 0
    }

    pub fn is_input(&self) -> (res: bool)
        ensures
            res == self.flag(Varnode::INPUT),
    {
        (self.flags & Varnode::INPUT) != 0
    }

    pub fn is_written(&self) -> (res: bool)
        ensures
            res == self.flag(Varnode::WRITTEN),
    {
        (self.flags & Varnode::WRITTEN) != 0
    }

    pub fn is_implied(&self) -> (res: bool)
        ensures
            res == self.flag(Varnode::IMPLIED),
    {
        (self.flags & Varnode::IMPLIED) != 0
    }

    pub fn is_explicit(&self) -> (res: bool)
        ensures
            res == self.flag(Varnode::EXPLICIT),
    {
        (self.flags & Varnode::EXPLICIT) != 0
    }

    pub fn is_type_lock(&self) -> (res: bool)
        ensures
            res == self.flag(Varnode::TYPELOCK),
    {
        (self.flags & Varnode::TYPELOCK) != 0
    }

    pub fn is_name_lock(&self) -> (res: bool)
        ensures
            res == self.flag(Varnode::NAMELOCK),
    {
        (self.flags & Varnode::NAMELOCK) != 0
    }

    pub fn has_no_local_alias(&self) -> (res: bool)
        ensures
            res == self.flag(Varnode::NOLOCALALIAS),
    {
        (self.flags & Varnode::NOLOCALALIAS) != 0
    }

    pub fn is_persist(&self) -> (res: bool)
        ensures
            res == self.flag(Varnode::PERSIST),
    {
        (self.flags & Varnode::PERSIST) != 0
    }

    pub fn is_addr_tied(&self) -> (res: bool)
        ensures
            res == self.flag(Varnode::ADDRTIED),
    {
        (self.flags & Varnode::ADDRTIED) != 0
    }

    pub fn is_unaffected(&self) -> (res: bool)
        ensures
            res == self.flag(Varnode::UNAFFECTED),
    {
        (self.flags & Varnode::UNAFFECTED) != 0
    }

    pub fn is_spacebase(&self) -> (res: bool)
        ensures
            res == self.flag(Varnode::SPACEBASE),
    {
        (self.flags & Varnode::SPACEBASE) != 0
    }

    pub fn is_indirect_only(&self) -> (res: bool)
        ensures
            res == self.flag(Varnode::INDIRECTONLY),
    {
        (self.flags & Varnode::INDIRECTONLY) != 0
    }

    pub fn is_proto_partial(&self) -> (res: bool)
        ensures
            res == self.flag(Varnode::PROTO_PARTIAL),
    {
        (self.flags & Varnode::PROTO_PARTIAL) != 0
    }

    /// Whether it makes sense to ask where the value is alive.
    pub open spec fn coverable(self) -> bool {
        (self.flags & (Varnode::CONSTANT | Varnode::ANNOTATION | Varnode::INSERT)) == Varnode::INSERT
    }

    pub fn has_cover(&self) -> (res: bool)
        ensures
            res == self.coverable(),
    {
        (self.flags & (Varnode::CONSTANT | Varnode::ANNOTATION | Varnode::INSERT)) == Varnode::INSERT
    }

    /// An input that no parameter accounts for.
    pub fn is_illegal_input(&self) -> (res: bool)
        ensures
            res == ((self.flags & (Varnode::INPUT | Varnode::DIRECTWRITE)) == Varnode::INPUT),
    {
        (self.flags & (Varnode::INPUT | Varnode::DIRECTWRITE)) == Varnode::INPUT
    }

    pub fn get_flags(&self) -> (res: u32)
        ensures
            res == self.flags,
    {
        self.flags
    }

    pub fn get_size(&self) -> (res: i32)
        ensures
            res == self.size,
    {
        self.size
    }

    pub fn get_addr(&self) -> (res: &Address)
        ensures
            *res == self.loc,
    {
        &self.loc
    }

    pub fn get_offset(&self) -> (res: u64)
        ensures
            res == self.loc.offset,
    {
        self.loc.offset
    }

    pub fn get_space(&self) -> (res: Option<&SpaceRef>)
        ensures
            res == (match self.loc.base {
                Some(spc) => Some(&spc),
                None => None,
            }),
    {
        self.loc.get_space()
    }

    pub fn get_def(&self) -> (res: Option<OpId>)
        ensures
            res == self.def,
    {
        self.def
    }

    /// The only operation that reads the value, if there is only one.
    pub fn lone_descend(&self) -> (res: Option<OpId>)
        ensures
            res == (if self.descend@.len() == 1 {
                Some(self.descend@[0])
            } else {
                None
            }),
    {
        if self.descend.len() == 1 {
            Some(self.descend[0])
        } else {
            None
        }
    }

    pub fn get_type(&self) -> (res: TypeId)
        ensures
            res == self.tp,
    {
        self.tp
    }

    pub fn get_temp_type(&self) -> (res: Option<TypeId>)
        ensures
            res == self.temp_type,
    {
        self.temp_type
    }

    pub fn get_nz_mask(&self) -> (res: u64)
        ensures
            res == self.nz_mask,
    {
        self.nz_mask
    }

    pub fn get_high_option(&self) -> (res: Option<HighId>)
        ensures
            res == self.high,
    {
        self.high
    }

    pub fn get_merge_group(&self) -> (res: i16)
        ensures
            res == self.merge_group,
    {
        self.merge_group
    }

    pub fn get_symbol_entry(&self) -> (res: Option<EntryId>)
        ensures
            res == self.mapentry,
    {
        self.mapentry
    }

    pub fn get_create_index(&self) -> (res: u32)
        ensures
            res == self.create_index,
    {
        self.create_index
    }

    pub fn set_high(&mut self, high: Option<HighId>, merge_group: i16)
        ensures
            *final(self) == (Varnode { high, merge_group, ..*old(self) }),
    {
        self.high = high;
        self.merge_group = merge_group;
    }
}

} // verus!

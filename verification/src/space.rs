//! Address spaces and the arithmetic between addresses and bytes.
use vstd::prelude::*;
use std::sync::Arc;

verus! {

/// The role of an address space.
#[derive(Copy, Clone, Debug, PartialEq, Eq, Structural)]
pub enum SpaceType {
    Constant,
    Processor,
    Spacebase,
    Internal,
    Fspec,
    Iop,
    Join,
}

/// An address space.
#[derive(Debug)]
pub struct AddrSpace {
    pub name: String,
    pub index: i32,
    pub kind: SpaceType,
    /// Bytes in an address of the space.
    pub addr_size: u32,
    /// Bytes in the unit that an address counts.
    pub word_size: u32,
    pub big_endian: bool,
    /// The last byte of the space.
    pub highest: u64,
    /// The bounds of the values that are taken for pointers into the space.
    pub pointer_lower_bound: u64,
    pub pointer_upper_bound: u64,
}

/// A shared address space.
pub type SpaceRef = Arc<AddrSpace>;

/// Division that rounds toward zero.
pub open spec fn trunc_div(a: int, b: int) -> int {
    if a >= 0 {
        a / b
    } else {
        -((-a) / b)
    }
}

/// The remainder that belongs to `trunc_div`: it has the sign of the dividend.
pub open spec fn trunc_rem(a: int, b: int) -> int {
    if a >= 0 {
        a % b
    } else {
        -((-a) % b)
    }
}

impl AddrSpace {
    /// What every address space satisfies.
    pub open spec fn valid(self) -> bool {
        self.word_size >= 1 && self.addr_size <= 0x7fff_ffff
    }

    pub fn get_name(&self) -> (res: &str)
        ensures
            res@ == self.name@,
    {
        self.name.as_str()
    }

    pub fn get_index(&self) -> (res: i32)
        ensures
            res == self.index,
    {
        self.index
    }

    pub fn get_type(&self) -> (res: SpaceType)
        ensures
            res == self.kind,
    {
        self.kind
    }

    pub fn get_addr_size(&self) -> (res: u32)
        ensures
            res == self.addr_size,
    {
        self.addr_size
    }

    pub fn get_word_size(&self) -> (res: u32)
        ensures
            res == self.word_size,
    {
        self.word_size
    }

    pub fn is_big_endian(&self) -> (res: bool)
        ensures
            res == self.big_endian,
    {
        self.big_endian
    }

    pub fn get_pointer_lower_bound(&self) -> (res: u64)
        ensures
            res == self.pointer_lower_bound,
    {
        self.pointer_lower_bound
    }

    pub fn get_pointer_upper_bound(&self) -> (res: u64)
        ensures
            res == self.pointer_upper_bound,
    {
        self.pointer_upper_bound
    }

    /// The offset that a byte offset stands for once it is wrapped into the space.
    pub open spec fn wrapped(self, off: u64) -> u64 {
        if off <= self.highest {
            off
        } else {
            (off % ((self.highest + 1) as u64)) as u64
        }
    }

    pub fn wrap_offset(&self, off: u64) -> (res: u64)
        ensures
            res == self.wrapped(off),
    {
        if off <= self.highest {
            off
        } else {
            off % (self.highest + 1)
        }
    }

    /// Scales an offset in units of the space to bytes, modulo 2^64.
    pub fn address_to_byte(val: u64, ws: u32) -> (res: u64)
        ensures
            res == val.wrapping_mul(ws as u64),
    {
        val.wrapping_mul(ws as u64)
    }

    /// Scales a byte offset to units of the space.
    pub fn byte_to_address(val: u64, ws: u32) -> (res: u64)
        requires
            ws != 0,
        ensures
            res == val / (ws as u64),
    {
        val / (ws as u64)
    }

    /// Scales a signed offset in units of the space to bytes, modulo 2^64.
    pub fn address_to_byte_int(val: i64, ws: u32) -> (res: i64)
        ensures
            res == val.wrapping_mul(ws as i64),
    {
        val.wrapping_mul(ws as i64)
    }

    /// Scales a signed byte offset to units of the space, toward zero.
    pub fn byte_to_address_int(val: i64, ws: u32) -> (res: i64)
        requires
            ws != 0,
        ensures
            res == trunc_div(val as int, ws as int),
    {
        val / (ws as i64)
    }
}

/// The position of an optional address space: its index, or -1 for none.
pub open spec fn space_index(space: Option<SpaceRef>) -> int {
    match space {
        Some(spc) => spc.index as int,
        None => -1,
    }
}

pub fn space_order_index(space: &Option<SpaceRef>) -> (res: i64)
    ensures
        res == space_index(*space),
{
    match space {
        Some(spc) => spc.index as i64,
        None => -1,
    }
}

/// A copy of an optional space.
pub fn copy_space(space: &Option<SpaceRef>) -> (res: Option<SpaceRef>)
    ensures
        res == *space,
{
    match space {
        Some(spc) => Some(spc.clone()),
        None => None,
    }
}

} // verus!

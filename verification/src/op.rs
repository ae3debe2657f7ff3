//! P-code operations.
use vstd::prelude::*;
use crate::address::Address;
use crate::ids::{BlockId, VarnodeId};
use crate::opcodes::OpCode;

verus! {

/// An operation: what it does, what it reads and what it writes.
#[derive(Debug)]
pub struct PcodeOp {
    pub opcode: OpCode,
    pub flags: u32,
    pub addlflags: u32,
    pub addr: Address,
    /// When the operation came about.
    pub time: u32,
    pub output: Option<VarnodeId>,
    pub inrefs: Vec<VarnodeId>,
    pub parent: Option<BlockId>,
}

impl PcodeOp {
    pub const STARTBASIC: u32 = 0x1;
    pub const BRANCH: u32 = 0x2;
    pub const CALL: u32 = 0x4;
    pub const RETURNS: u32 = 0x8;
    pub const NOCOLLAPSE: u32 = 0x10;
    pub const MARKER: u32 = 0x40;
    pub const BOOLOUTPUT: u32 = 0x80;
    pub const BOOLEAN_FLIP: u32 = 0x100;
    pub const CODEREF: u32 = 0x800;
    pub const COMMUTATIVE: u32 = 0x4000;
    pub const UNARY: u32 = 0x8000;
    pub const BINARY: u32 = 0x10000;
    pub const SPECIAL: u32 = 0x20000;
    pub const TERNARY: u32 = 0x40000;
    pub const RETURN_COPY: u32 = 0x80000;
    pub const INDIRECT_CREATION: u32 = 0x8000000;
    pub const HAS_CALLSPEC: u32 = 0x20000000;
    /// Of the additional properties: data-types spread in a way of their own.
    pub const SPECIAL_PROP: u32 = 1;
    /// Of the additional properties: the operation is printed in a way of its own.
    pub const SPECIAL_PRINT: u32 = 2;

    pub open spec fn flag(self, bits: u32) -> bool {
        (self.flags & bits) != 0
    }

    pub fn is_call(&self) -> (res: bool)
        ensures
            res == self.flag(PcodeOp::CALL),
    {
        (self.flags & PcodeOp::CALL) != 0
    }

    pub fn is_marker(&self) -> (res: bool)
        ensures
            res == self.flag(PcodeOp::MARKER),
    {
        (self.flags & PcodeOp::MARKER) != 0
    }

    pub fn is_boolean_flip(&self) -> (res: bool)
        ensures
            res == self.flag(PcodeOp::BOOLEAN_FLIP),
    {
        (self.flags & PcodeOp::BOOLEAN_FLIP) != 0
    }

    pub fn is_indirect_creation(&self) -> (res: bool)
        ensures
            res == self.flag(PcodeOp::INDIRECT_CREATION),
    {
        (self.flags & PcodeOp::INDIRECT_CREATION) != 0
    }

    pub fn does_special_printing(&self) -> (res: bool)
        ensures
            res == ((self.addlflags & PcodeOp::SPECIAL_PRINT) != 0),
    {
        (self.addlflags & PcodeOp::SPECIAL_PRINT) != 0
    }

    pub fn does_special_propagation(&self) -> (res: bool)
        ensures
            res == ((self.addlflags & PcodeOp::SPECIAL_PROP) != 0),
    {
        (self.addlflags & PcodeOp::SPECIAL_PROP) != 0
    }

    pub fn code(&self) -> (res: OpCode)
        ensures
            res == self.opcode,
    {
        self.opcode
    }

    pub fn get_addr(&self) -> (res: &Address)
        ensures
            *res == self.addr,
    {
        &self.addr
    }

    pub fn get_time(&self) -> (res: u32)
        ensures
            res == self.time,
    {
        self.time
    }

    pub fn get_out(&self) -> (res: Option<VarnodeId>)
        ensures
            res == self.output,
    {
        self.output
    }

    pub fn num_input(&self) -> (res: i32)
        requires
            self.inrefs@.len() <= i32::MAX,
        ensures
            res == self.inrefs@.len(),
    {
        self.inrefs.len() as i32
    }

    pub fn get_in(&self, slot: i32) -> (res: VarnodeId)
        requires
            0 <= slot < self.inrefs@.len(),
        ensures
            res == self.inrefs@[slot as int],
    {
        self.inrefs[slot as usize]
    }

    pub fn get_in_option(&self, slot: i32) -> (res: Option<VarnodeId>)
        ensures
            res == (if 0 <= slot < self.inrefs@.len() {
                Some(self.inrefs@[slot as int])
            } else {
                None
            }),
    {
        if slot >= 0 && (slot as usize) < self.inrefs.len() {
            Some(self.inrefs[slot as usize])
        } else {
            None
        }
    }

    pub fn get_parent(&self) -> (res: Option<BlockId>)
        ensures
            res == self.parent,
    {
        self.parent
    }

    /// The first place, from the given one on, where the operation reads a value.
    pub open spec fn slot_from(self, vn: VarnodeId, i: nat) -> nat
        decreases self.inrefs@.len() - i,
    {
        if i < self.inrefs@.len() && self.inrefs@[i as int] != vn {
            self.slot_from(vn, i + 1)
        } else {
            i
        }
    }

    /// The place where the operation reads a value, or the number of its inputs.
    pub open spec fn slot(self, vn: VarnodeId) -> nat {
        self.slot_from(vn, 0)
    }

    /// An input that an operation has is found where it stands.
    pub proof fn slot_is_there(self, vn: VarnodeId, i: nat)
        requires
            exists|k: int| i <= k < self.inrefs@.len() && self.inrefs@[k] == vn,
        ensures
            i <= self.slot_from(vn, i) < self.inrefs@.len(),
            self.inrefs@[self.slot_from(vn, i) as int] == vn,
        decreases self.inrefs@.len() - i,
    {
        if self.inrefs@[i as int] != vn {
            self.slot_is_there(vn, i + 1);
        }
    }

    pub fn get_slot(&self, vn: VarnodeId) -> (res: i32)
        requires
            self.inrefs@.len() <= i32::MAX,
        ensures
            res == self.slot(vn),
            0 <= res <= self.inrefs@.len(),
            self.inrefs@.contains(vn) ==> res < self.inrefs@.len() && self.inrefs@[res as int] == vn,
    {
        let mut i: usize = 0;
        while i < self.inrefs.len() && self.inrefs[i] != vn
            invariant
                i <= self.inrefs@.len(),
                self.slot_from(vn, i as nat) == self.slot(vn),
                forall|k: int| 0 <= k < i ==> self.inrefs@[k] != vn,
            decreases self.inrefs@.len() - i,
        {
            i = i + 1;
        }
        i as i32
    }
}

} // verus!

//! Addresses, bit ranges and masks.
use vstd::prelude::*;
use crate::space::SpaceRef;

verus! {

/// A location: a byte offset in an address space, or no location at all.
#[derive(Debug)]
pub struct Address {
    pub base: Option<SpaceRef>,
    pub offset: u64,
}

impl Address {
    pub fn invalid() -> (res: Address)
        ensures
            res.base is None,
            res.offset == 0,
    {
        Address { base: None, offset: 0 }
    }

    pub fn new(base: &SpaceRef, offset: u64) -> (res: Address)
        ensures
            res == (Address { base: Some(*base), offset }),
    {
        Address { base: Some(base.clone()), offset }
    }

    pub fn copy(&self) -> (res: Address)
        ensures
            res == *self,
    {
        Address { base: crate::space::copy_space(&self.base), offset: self.offset }
    }

    pub fn get_offset(&self) -> (res: u64)
        ensures
            res == self.offset,
    {
        self.offset
    }

    pub fn get_space(&self) -> (res: Option<&SpaceRef>)
        ensures
            res == (match self.base {
                Some(spc) => Some(&spc),
                None => None,
            }),
    {
        match &self.base {
            Some(spc) => Some(spc),
            None => None,
        }
    }

    pub fn is_invalid(&self) -> (res: bool)
        ensures
            res == (self.base is None),
    {
        self.base.is_none()
    }

    /// Whether two addresses name the same location.
    pub open spec fn same(self, other: Address) -> bool {
        crate::space::space_index(self.base) == crate::space::space_index(other.base)
            && self.offset == other.offset
    }

    pub fn same_as(&self, other: &Address) -> (res: bool)
        ensures
            res == self.same(*other),
    {
        crate::space::space_order_index(&self.base) == crate::space::space_order_index(&other.base)
            && self.offset == other.offset
    }

    /// Where an address, some bytes on, lies in a range that starts at another
    /// address, or -1.
    pub open spec fn place_in(self, skip: i32, op: Address, size: i32) -> i32 {
        if self.base is None || op.base is None || crate::space::space_index(self.base) != crate::space::space_index(
            op.base,
        ) {
            -1i32
        } else {
            let dist = op.base->0.wrapped(self.offset.wrapping_add(skip as u64).wrapping_sub(op.offset));
            if size < 0 || dist >= size {
                -1i32
            } else {
                dist as i32
            }
        }
    }

    pub fn overlap_join(&self, skip: i32, op: &Address, size: i32) -> (res: i32)
        ensures
            res == self.place_in(skip, *op, size),
    {
        match &op.base {
            Some(space) => {
                if self.base.is_none() || crate::space::space_order_index(&self.base)
                    != crate::space::space_order_index(&op.base) {
                    return -1;
                }
                let dist: u64 = space.wrap_offset(
                    self.offset.wrapping_add(skip as u64).wrapping_sub(op.offset),
                );
                if size < 0 || dist >= size as u64 {
                    return -1;
                }
                dist as i32
            },
            None => -1,
        }
    }
}

/// The mask that covers a value of the given number of bytes.
pub open spec fn mask_of(size: int) -> u64 {
    if size == 0 { 0 }
    else if size == 1 { 0xff }
    else if size == 2 { 0xffff }
    else if size == 3 { 0xff_ffff }
    else if size == 4 { 0xffff_ffff }
    else if size == 5 { 0xff_ffff_ffff }
    else if size == 6 { 0xffff_ffff_ffff }
    else if size == 7 { 0xff_ffff_ffff_ffff }
    else { 0xffff_ffff_ffff_ffff }
}

pub fn calc_mask(size: i32) -> (res: u64)
    ensures
        res == mask_of(size as int),
{
    match size {
        0 => 0,
        1 => 0xff,
        2 => 0xffff,
        3 => 0xff_ffff,
        4 => 0xffff_ffff,
        5 => 0xff_ffff_ffff,
        6 => 0xffff_ffff_ffff,
        7 => 0xff_ffff_ffff_ffff,
        _ => 0xffff_ffff_ffff_ffff,
    }
}

/// A run of one bits from the least significant one that covers the value and
/// nothing above its most significant one bit.
pub open spec fn covers(mask: u64, val: u64) -> bool {
    &&& mask & ((mask + 1) as u64) == 0
    &&& mask >= val
    &&& (val == 0 ==> mask == 0)
    &&& (val > 0 ==> mask / 2 < val)
}

/// The smallest run of one bits that covers a value.
pub fn coveringmask(val: u64) -> (res: u64)
    ensures
        covers(res, val),
{
    let a: u64 = val | (val >> 1);
    let b: u64 = a | (a >> 2);
    let c: u64 = b | (b >> 4);
    let d: u64 = c | (c >> 8);
    let e: u64 = d | (d >> 16);
    let f: u64 = e | (e >> 32);
    assert(f & ((f + 1) as u64) == 0 && f >= val && (val == 0 ==> f == 0) && (val > 0 ==> f / 2
        < val)) by (bit_vector)
        requires
            a == val | (val >> 1),
            b == a | (a >> 2),
            c == b | (b >> 4),
            d == c | (c >> 8),
            e == d | (d >> 16),
            f == e | (e >> 32),
    ;
    f
}

/// No two runs of one bits cover a value.
pub proof fn covering_is_unique(val: u64, m: u64, n: u64)
    requires
        covers(m, val),
        covers(n, val),
    ensures
        m == n,
{
    assert(m == n) by (bit_vector)
        requires
            m & ((m + 1) as u64) == 0,
            n & ((n + 1) as u64) == 0,
            m >= val,
            n >= val,
            val == 0 ==> m == 0,
            val == 0 ==> n == 0,
            val > 0 ==> m / 2 < val,
            val > 0 ==> n / 2 < val,
    ;
}

/// Extends the bit at the given position over all higher bits.
pub open spec fn extended(val: i64, bit: int) -> i64 {
    (val << ((63 - bit) as u32)) >> ((63 - bit) as u32)
}

pub fn sign_extend(val: i64, bit: i32) -> (res: i64)
    requires
        0 <= bit < 64,
    ensures
        res == extended(val, bit as int),
{
    let sa: u32 = (63 - bit) as u32;
    (val << sa) >> sa
}

/// How often two neighbouring bits differ, of the bits from a position up to a limit.
pub open spec fn transitions(val: u64, i: u32, limit: u32) -> int
    decreases limit - i,
{
    if i >= limit || i < 1 {
        0
    } else {
        (if (val >> i) & 1 != (val >> ((i - 1) as u32)) & 1 {
            1int
        } else {
            0int
        }) + transitions(val, (i + 1) as u32, limit)
    }
}

/// How often neighbouring bits of a value of some bytes differ.
pub fn bit_transitions(val: u64, size: i32) -> (res: i32)
    requires
        1 <= size <= 8,
    ensures
        res == transitions(val, 1, (8 * size) as u32),
{
    let limit: u32 = (8 * size) as u32;
    let mut res: i32 = 0;
    let mut i: u32 = 1;
    while i < limit
        invariant
            1 <= i <= limit <= 64,
            0 <= res <= i,
            res + transitions(val, i, limit) == transitions(val, 1, limit),
        decreases limit - i,
    {
        if (val >> i) & 1 != (val >> (i - 1)) & 1 {
            res = res + 1;
        }
        i = i + 1;
    }
    res
}

/// A contiguous range of bits inside a range of bytes.
#[derive(Copy, Clone, Debug, PartialEq, Eq, Structural)]
pub struct BitRange {
    /// Offset of the first byte of the container.
    pub byte_offset: i32,
    /// Bytes in the container.
    pub byte_size: i32,
    /// Position of the least significant bit inside the container.
    pub least_sig_bit: i32,
    /// Bits in the range.
    pub num_bits: i32,
    /// Whether the container is encoded big endian.
    pub is_big_endian: bool,
}

impl BitRange {
    /// The first bit of the range, counting through memory.
    pub open spec fn first(self) -> int {
        if self.is_big_endian {
            8 * self.byte_offset + 8 * self.byte_size - self.least_sig_bit - self.num_bits
        } else {
            8 * self.byte_offset + self.least_sig_bit
        }
    }

    /// The bit after the last bit of the range, counting through memory.
    pub open spec fn end(self) -> int {
        self.first() + self.num_bits
    }

    /// A range that describes nothing yet.
    pub fn unset() -> (res: BitRange)
        ensures
            res == (BitRange {
                byte_offset: -1i32,
                byte_size: 0,
                least_sig_bit: -1i32,
                num_bits: -1i32,
                is_big_endian: false,
            }),
    {
        BitRange { byte_offset: -1, byte_size: 0, least_sig_bit: -1, num_bits: -1, is_big_endian: false }
    }

    pub fn new(byte_offset: i32, byte_size: i32, least_sig_bit: i32, num_bits: i32, is_big_endian: bool) -> (res:
        BitRange)
        ensures
            res == (BitRange { byte_offset, byte_size, least_sig_bit, num_bits, is_big_endian }),
    {
        BitRange { byte_offset, byte_size, least_sig_bit, num_bits, is_big_endian }
    }

    /// The range of all bits of a range of bytes.
    pub fn new_bytes(byte_offset: i32, byte_size: i32, is_big_endian: bool) -> (res: BitRange)
        requires
            -0x1000_0000 <= byte_size < 0x1000_0000,
        ensures
            res == BitRange::bytes(byte_offset, byte_size, is_big_endian),
    {
        BitRange { byte_offset, byte_size, least_sig_bit: 0, num_bits: byte_size * 8, is_big_endian }
    }

    pub open spec fn bytes(byte_offset: i32, byte_size: i32, is_big_endian: bool) -> BitRange {
        BitRange {
            byte_offset,
            byte_size,
            least_sig_bit: 0,
            num_bits: (byte_size * 8) as i32,
            is_big_endian,
        }
    }

    /// The order of two ranges: by container, then by position, then by length.
    pub open spec fn order(self, op2: BitRange) -> int {
        if self.byte_offset != op2.byte_offset {
            if self.byte_offset < op2.byte_offset { -1 } else { 1 }
        } else if self.byte_size != op2.byte_size {
            if self.byte_size < op2.byte_size { -1 } else { 1 }
        } else if self.least_sig_bit != op2.least_sig_bit {
            if self.least_sig_bit < op2.least_sig_bit { -1 } else { 1 }
        } else if self.num_bits != op2.num_bits {
            if self.num_bits < op2.num_bits { -1 } else { 1 }
        } else {
            0
        }
    }

    pub fn compare(&self, op2: &BitRange) -> (res: i32)
        ensures
            res == self.order(*op2),
    {
        if self.byte_offset != op2.byte_offset {
            return if self.byte_offset < op2.byte_offset { -1 } else { 1 };
        }
        if self.byte_size != op2.byte_size {
            return if self.byte_size < op2.byte_size { -1 } else { 1 };
        }
        if self.least_sig_bit != op2.least_sig_bit {
            return if self.least_sig_bit < op2.least_sig_bit { -1 } else { 1 };
        }
        if self.num_bits != op2.num_bits {
            return if self.num_bits < op2.num_bits { -1 } else { 1 };
        }
        0
    }

    /// How two ranges lie: -1 if the first one ends before the second one
    /// starts, 1 if it starts after the second one ends, 0 if they hold the same
    /// bits and 2 if they share some bits only.
    pub open spec fn overlap(self, op2: BitRange) -> int {
        if self.end() <= op2.first() {
            -1
        } else if op2.end() <= self.first() {
            1
        } else if self.first() == op2.first() && self.end() == op2.end() {
            0
        } else {
            2
        }
    }

    fn first_bit(&self) -> (res: i64)
        ensures
            res == self.first(),
            -0x10_0000_0000 <= res <= 0x10_0000_0000,
    {
        if self.is_big_endian {
            8 * (self.byte_offset as i64) + 8 * (self.byte_size as i64) - (self.least_sig_bit as i64) - (
            self.num_bits as i64)
        } else {
            8 * (self.byte_offset as i64) + (self.least_sig_bit as i64)
        }
    }

    pub fn overlap_test(&self, op2: &BitRange) -> (res: i32)
        ensures
            res == self.overlap(*op2),
    {
        let first1: i64 = self.first_bit();
        let end1: i64 = first1 + self.num_bits as i64;
        let first2: i64 = op2.first_bit();
        let end2: i64 = first2 + op2.num_bits as i64;
        if end1 <= first2 {
            -1
        } else if end2 <= first1 {
            1
        } else if first1 == first2 && end1 == end2 {
            0
        } else {
            2
        }
    }

    /// Whether the range holds whole bytes of its container.
    pub open spec fn whole_bytes(self) -> bool {
        self.least_sig_bit % 8 == 0 && self.num_bits % 8 == 0
    }

    pub fn is_byte_range(&self) -> (res: bool)
        requires
            self.least_sig_bit >= 0,
            self.num_bits >= 0,
        ensures
            res == self.whole_bytes(),
    {
        self.least_sig_bit % 8 == 0 && self.num_bits % 8 == 0
    }

    /// The same bits in the smallest container that holds them.
    pub open spec fn minimized(self) -> BitRange {
        let low = self.least_sig_bit / 8;
        let lsb = self.least_sig_bit % 8;
        let size = (lsb + self.num_bits + 7) / 8;
        BitRange {
            byte_offset: (if self.is_big_endian {
                self.byte_offset + self.byte_size - low - size
            } else {
                self.byte_offset + low
            }) as i32,
            byte_size: size as i32,
            least_sig_bit: lsb as i32,
            num_bits: self.num_bits,
            is_big_endian: self.is_big_endian,
        }
    }

    pub fn minimize_container(&mut self)
        requires
            old(self).least_sig_bit >= 0,
            old(self).num_bits >= 0,
            old(self).least_sig_bit + old(self).num_bits + 7 <= i32::MAX,
            old(self).byte_offset >= 0,
            old(self).byte_size >= 0,
            old(self).byte_offset + old(self).byte_size <= i32::MAX,
            old(self).least_sig_bit + old(self).num_bits <= 8 * old(self).byte_size,
        ensures
            *final(self) == old(self).minimized(),
            final(self).first() == old(self).first(),
            final(self).end() == old(self).end(),
    {
        let low: i32 = self.least_sig_bit / 8;
        let lsb: i32 = self.least_sig_bit % 8;
        let size: i32 = (lsb + self.num_bits + 7) / 8;
        if self.is_big_endian {
            self.byte_offset = self.byte_offset + (self.byte_size - low - size);
        } else {
            self.byte_offset = self.byte_offset + low;
        }
        self.byte_size = size;
        self.least_sig_bit = lsb;
    }
}

/// Exchanging the two ranges turns the overlap test around, unless one is empty.
pub proof fn overlap_is_symmetric(a: BitRange, b: BitRange)
    requires
        a.num_bits > 0,
        b.num_bits > 0,
    ensures
        a.overlap(b) == -1 <==> b.overlap(a) == 1,
        a.overlap(b) == 0 <==> b.overlap(a) == 0,
        a.overlap(b) == 2 <==> b.overlap(a) == 2,
{
}

} // verus!

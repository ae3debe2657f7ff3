//! Encodings of floating-point values, as far as their bits go.
use vstd::prelude::*;

verus! {

/// What kind of value an encoding stands for.
#[derive(Copy, Clone, Debug, PartialEq, Eq, Structural)]
pub enum FloatClass {
    Normalized,
    Infinity,
    Zero,
    Nan,
    Denormalized,
}

/// How the bits of an encoding are divided.
#[derive(Copy, Clone, Debug, PartialEq, Eq, Structural)]
pub struct FloatFormat {
    /// Bytes in an encoding.
    pub size: i32,
    pub frac_pos: u32,
    pub frac_size: u32,
    pub exp_pos: u32,
    pub exp_size: u32,
    pub bias: i32,
}

/// The bits of a value from a position on.
pub open spec fn bits_of(val: u64, pos: u32, size: u32) -> u64 {
    let high = if pos < 64 {
        val >> pos
    } else {
        0u64
    };
    if size < 64 {
        high & ((1u64 << size) - 1) as u64
    } else {
        high
    }
}

fn extract_bits(val: u64, pos: u32, size: u32) -> (res: u64)
    ensures
        res == bits_of(val, pos, size),
{
    let high: u64 = if pos < 64 {
        val >> pos
    } else {
        0
    };
    if size < 64 {
        let one: u64 = 1u64 << size;
        assert(one >= 1) by (bit_vector)
            requires
                one == 1u64 << size,
                size < 64,
        ;
        high & (one - 1)
    } else {
        high
    }
}

impl FloatFormat {
    /// The class of an encoded value.
    pub open spec fn class_of(self, val: u64) -> FloatClass {
        let exp = bits_of(val, self.exp_pos, self.exp_size);
        let frac = bits_of(val, self.frac_pos, self.frac_size);
        if exp == 0 {
            if frac == 0 {
                FloatClass::Zero
            } else {
                FloatClass::Denormalized
            }
        } else if exp == bits_of(u64::MAX, 0, self.exp_size) {
            if frac == 0 {
                FloatClass::Infinity
            } else {
                FloatClass::Nan
            }
        } else {
            FloatClass::Normalized
        }
    }

    pub fn get_class(&self, val: u64) -> (res: FloatClass)
        ensures
            res == self.class_of(val),
    {
        let exp: u64 = extract_bits(val, self.exp_pos, self.exp_size);
        let frac: u64 = extract_bits(val, self.frac_pos, self.frac_size);
        if exp == 0 {
            if frac == 0 {
                FloatClass::Zero
            } else {
                FloatClass::Denormalized
            }
        } else if exp == extract_bits(u64::MAX, 0, self.exp_size) {
            if frac == 0 {
                FloatClass::Infinity
            } else {
                FloatClass::Nan
            }
        } else {
            FloatClass::Normalized
        }
    }

    /// The power of two that an encoded value is scaled by.
    pub open spec fn exponent_of(self, val: u64) -> i32 {
        (bits_of(val, self.exp_pos, self.exp_size) as i32).wrapping_sub(self.bias)
    }

    pub fn get_exponent(&self, val: u64) -> (res: i32)
        ensures
            res == self.exponent_of(val),
    {
        (extract_bits(val, self.exp_pos, self.exp_size) as i32).wrapping_sub(self.bias)
    }
}

/// The format of encodings of a size: the first that a list has.
pub open spec fn format_for(list: Seq<FloatFormat>, size: i32, i: nat) -> Option<FloatFormat>
    decreases list.len() - i,
{
    if i >= list.len() {
        None
    } else if list[i as int].size == size {
        Some(list[i as int])
    } else {
        format_for(list, size, i + 1)
    }
}

pub fn get_float_format(list: &Vec<FloatFormat>, size: i32) -> (res: Option<FloatFormat>)
    ensures
        res == format_for(list@, size, 0),
{
    let mut i: usize = 0;
    while i < list.len()
        invariant
            i <= list@.len(),
            format_for(list@, size, i as nat) == format_for(list@, size, 0),
        decreases list@.len() - i,
    {
        if list[i].size == size {
            return Some(list[i]);
        }
        i = i + 1;
    }
    None
}

} // verus!

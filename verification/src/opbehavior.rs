//! What operations compute from plain values.
use vstd::prelude::*;
use crate::address::{calc_mask, sign_extend};
use crate::error::{Error, Result};
use crate::opcodes::OpCode;

verus! {

/// How an operation behaves: whether it reads one value, and whether it does more
/// than compute its output from its inputs.
#[derive(Copy, Clone, Debug, PartialEq, Eq, Structural)]
pub struct OpBehavior {
    pub opcode: OpCode,
    pub unary: bool,
    pub special: bool,
}

/// A flag as a value.
pub open spec fn as_value(b: bool) -> u64 {
    if b {
        1
    } else {
        0
    }
}

fn to_value(b: bool) -> (res: u64)
    ensures
        res == as_value(b),
{
    if b {
        1
    } else {
        0
    }
}

/// A floating-point operation that an emulator has to carry out, since only it knows the
/// encodings of the processor.
#[derive(Copy, Clone, Debug, PartialEq, Eq, Structural)]
pub struct FloatRequest {
    pub opcode: OpCode,
    pub sizeout: i32,
    pub sizein: i32,
    pub in1: u64,
    /// The second value, where the operation reads two.
    pub in2: Option<u64>,
}

/// What an operation comes to: a value, or a question.
#[derive(Copy, Clone, Debug, PartialEq, Eq, Structural)]
pub enum Evaluation {
    Value(u64),
    Float(FloatRequest),
}

/// What evaluating an operation says, or why it cannot be evaluated.
pub ghost enum Outcome {
    Value(u64),
    Float(FloatRequest),
    Failure(Seq<char>),
}

impl Outcome {
    pub open spec fn evaluated(self, res: Result<Evaluation>) -> bool {
        match self {
            Outcome::Value(val) => res == Ok::<Evaluation, Error>(Evaluation::Value(val)),
            Outcome::Float(request) => res == Ok::<Evaluation, Error>(Evaluation::Float(request)),
            Outcome::Failure(text) => res matches Err(e) && e.is_lowlevel(text),
        }
    }

    pub open spec fn recovered(self, res: Result<u64>) -> bool {
        match self {
            Outcome::Value(val) => res == Ok::<u64, Error>(val),
            Outcome::Float(_) => false,
            Outcome::Failure(text) => res matches Err(e) && e.is_lowlevel(text),
        }
    }
}

/// A value moved up by some bits. What moves out is lost.
pub open spec fn up(val: u64, n: int) -> u64 {
    if 0 <= n < 64 {
        val << (n as u64)
    } else {
        0
    }
}

/// A value moved down by some bits. What moves out is lost.
pub open spec fn down(val: u64, n: int) -> u64 {
    if 0 <= n < 64 {
        val >> (n as u64)
    } else {
        0
    }
}

fn move_up(val: u64, n: i128) -> (res: u64)
    ensures
        res == up(val, n as int),
{
    if 0 <= n && n < 64 {
        val << (n as u64)
    } else {
        0
    }
}

fn move_down(val: u64, n: i128) -> (res: u64)
    ensures
        res == down(val, n as int),
{
    if 0 <= n && n < 64 {
        val >> (n as u64)
    } else {
        0
    }
}

/// The given number of one bits, from the least significant bit on.
pub open spec fn ones(n: int) -> u64 {
    if n >= 64 {
        u64::MAX
    } else {
        down(u64::MAX, 64 - n)
    }
}

fn make_ones(n: i128) -> (res: u64)
    requires
        -0x1_0000_0000_0000_0000 <= n <= 0x1_0000_0000_0000_0000,
    ensures
        res == ones(n as int),
{
    if n >= 64 {
        u64::MAX
    } else {
        move_down(u64::MAX, 64 - n)
    }
}

/// Whether the sign bit of a value of some bytes is set.
pub open spec fn negative(val: u64, size: int) -> bool {
    down(val, 8 * size - 1) & 1 == 1
}

fn is_negative(val: u64, size: i32) -> (res: bool)
    ensures
        res == negative(val, size as int),
{
    move_down(val, 8 * (size as i128) - 1) & 1 == 1
}

/// A value of some bytes as a number with a sign.
pub open spec fn signed(val: u64, size: int) -> i64 {
    if 1 <= size <= 8 {
        crate::address::extended(val as i64, 8 * size - 1)
    } else {
        val as i64
    }
}

fn as_signed(val: u64, size: i32) -> (res: i64)
    ensures
        res == signed(val, size as int),
{
    if 1 <= size && size <= 8 {
        sign_extend(val as i64, 8 * size - 1)
    } else {
        val as i64
    }
}

/// A number without its sign.
pub open spec fn magnitude(n: int) -> int {
    if n < 0 {
        -n
    } else {
        n
    }
}

fn find_magnitude(n: i64) -> (res: u64)
    ensures
        res == magnitude(n as int),
        n != 0 ==> res != 0,
{
    if n < 0 {
        (-(n as i128)) as u64
    } else {
        n as u64
    }
}

/// A number between -2^63 and 2^64 as a value of eight bytes.
pub open spec fn encoded(n: int) -> u64 {
    if n < 0 {
        0u64.wrapping_sub((-n) as u64)
    } else {
        n as u64
    }
}

/// The quotient of two numbers, rounded toward zero.
pub open spec fn quotient(a: int, b: int) -> int {
    if (a < 0) == (b < 0) {
        magnitude(a) / magnitude(b)
    } else {
        -(magnitude(a) / magnitude(b))
    }
}

/// The remainder of two numbers, with the sign of the first.
pub open spec fn remainder(a: int, b: int) -> int {
    if a < 0 {
        -(magnitude(a) % magnitude(b))
    } else {
        magnitude(a) % magnitude(b)
    }
}

fn divide(a: i64, b: i64) -> (res: u64)
    requires
        b != 0,
    ensures
        res == encoded(quotient(a as int, b as int)),
{
    let q: u64 = find_magnitude(a) / find_magnitude(b);
    if (a < 0) == (b < 0) {
        q
    } else {
        assert(0u64.wrapping_sub(0u64) == 0u64);
        0u64.wrapping_sub(q)
    }
}

fn find_remainder(a: i64, b: i64) -> (res: u64)
    requires
        b != 0,
    ensures
        res == encoded(remainder(a as int, b as int)),
{
    let r: u64 = find_magnitude(a) % find_magnitude(b);
    if a < 0 {
        assert(0u64.wrapping_sub(0u64) == 0u64);
        0u64.wrapping_sub(r)
    } else {
        r
    }
}

/// The one bits among the lowest `n` bits of a value.
pub open spec fn one_bits(val: u64, n: nat) -> nat
    decreases n,
{
    if n == 0 {
        0
    } else {
        one_bits(val, (n - 1) as nat) + if down(val, n - 1) & 1 == 1 {
            1nat
        } else {
            0nat
        }
    }
}

fn count_ones(val: u64) -> (res: u64)
    ensures
        res == one_bits(val, 64),
        res <= 64,
{
    let mut count: u64 = 0;
    let mut i: u64 = 0;
    while i < 64
        invariant
            i <= 64,
            count <= i,
            count == one_bits(val, i as nat),
        decreases 64 - i,
    {
        if move_down(val, i as i128) & 1 == 1 {
            count = count + 1;
        }
        i = i + 1;
    }
    count
}

/// The zero bits above the highest one bit among the lowest `n` bits of a value.
pub open spec fn zero_bits(val: u64, n: nat) -> nat
    decreases n,
{
    if n == 0 || down(val, n - 1) & 1 == 1 {
        0
    } else {
        1 + zero_bits(val, (n - 1) as nat)
    }
}

fn count_zeros(val: u64) -> (res: u64)
    ensures
        res == zero_bits(val, 64),
        res <= 64,
{
    let mut count: u64 = 0;
    while count < 64
        invariant
            count <= 64,
            count + zero_bits(val, (64 - count) as nat) == zero_bits(val, 64),
        decreases 64 - count,
    {
        if move_down(val, 63 - count as i128) & 1 == 1 {
            return count;
        }
        count = count + 1;
    }
    count
}

/// A floating-point operation that reads one value.
pub open spec fn reads_one_float(opcode: OpCode) -> bool {
    match opcode {
        OpCode::FloatNan
        | OpCode::FloatNeg
        | OpCode::FloatAbs
        | OpCode::FloatSqrt
        | OpCode::FloatInt2float
        | OpCode::FloatFloat2float
        | OpCode::FloatTrunc
        | OpCode::FloatCeil
        | OpCode::FloatFloor
        | OpCode::FloatRound => true,
        _ => false,
    }
}

/// A floating-point operation that reads two values.
pub open spec fn reads_two_floats(opcode: OpCode) -> bool {
    match opcode {
        OpCode::FloatEqual
        | OpCode::FloatNotequal
        | OpCode::FloatLess
        | OpCode::FloatLessequal
        | OpCode::FloatAdd
        | OpCode::FloatDiv
        | OpCode::FloatMult
        | OpCode::FloatSub => true,
        _ => false,
    }
}

impl OpBehavior {
    pub fn new(opcode: OpCode, unary: bool) -> (res: OpBehavior)
        ensures
            res == (OpBehavior { opcode, unary, special: false }),
    {
        OpBehavior { opcode, unary, special: false }
    }

    pub fn new_special(opcode: OpCode, unary: bool, special: bool) -> (res: OpBehavior)
        ensures
            res == (OpBehavior { opcode, unary, special }),
    {
        OpBehavior { opcode, unary, special }
    }

    pub fn get_opcode(&self) -> (res: OpCode)
        ensures
            res == self.opcode,
    {
        self.opcode
    }

    pub fn is_unary(&self) -> (res: bool)
        ensures
            res == self.unary,
    {
        self.unary
    }

    pub fn is_special(&self) -> (res: bool)
        ensures
            res == self.special,
    {
        self.special
    }

    /// What an operation on one value comes to. Operations that do more than compute, and
    /// those that no rule is known for, cannot be evaluated.
    pub open spec fn unary_value(self, sizeout: i32, sizein: i32, in1: u64) -> Outcome {
        match self.opcode {
            OpCode::Copy | OpCode::IntZext => Outcome::Value(in1),
            OpCode::IntSext => Outcome::Value(signed(in1, sizein as int) as u64 & crate::address::mask_of(sizeout as int)),
            OpCode::IntNegate => Outcome::Value(!in1 & crate::address::mask_of(sizein as int)),
            OpCode::Int2comp => Outcome::Value(0u64.wrapping_sub(in1) & crate::address::mask_of(sizein as int)),
            OpCode::BoolNegate => Outcome::Value(in1 ^ 1),
            OpCode::Popcount => Outcome::Value(one_bits(in1, 64) as u64),
            OpCode::Lzcount => Outcome::Value(encoded(zero_bits(in1, 64) - 8 * (8 - sizein))),
            _ => if reads_one_float(self.opcode) {
                Outcome::Float(FloatRequest { opcode: self.opcode, sizeout, sizein, in1, in2: None })
            } else {
                Outcome::Failure("Unary emulation unimplemented"@)
            },
        }
    }

    pub fn evaluate_unary(&self, sizeout: i32, sizein: i32, in1: u64) -> (res: Result<Evaluation>)
        ensures
            self.unary_value(sizeout, sizein, in1).evaluated(res),
    {
        match self.opcode {
            OpCode::Copy | OpCode::IntZext => Ok(Evaluation::Value(in1)),
            OpCode::IntSext => Ok(Evaluation::Value(as_signed(in1, sizein) as u64 & calc_mask(sizeout))),
            OpCode::IntNegate => Ok(Evaluation::Value(!in1 & calc_mask(sizein))),
            OpCode::Int2comp => Ok(Evaluation::Value(0u64.wrapping_sub(in1) & calc_mask(sizein))),
            OpCode::BoolNegate => Ok(Evaluation::Value(in1 ^ 1)),
            OpCode::Popcount => Ok(Evaluation::Value(count_ones(in1))),
            OpCode::Lzcount => {
                let zeros: i64 = count_zeros(in1) as i64 - 8 * (8 - sizein as i64);
                Ok(
                    Evaluation::Value(
                        if zeros < 0 {
                            0u64.wrapping_sub((-zeros) as u64)
                        } else {
                            zeros as u64
                        },
                    ),
                )
            },
            OpCode::FloatNan
            | OpCode::FloatNeg
            | OpCode::FloatAbs
            | OpCode::FloatSqrt
            | OpCode::FloatInt2float
            | OpCode::FloatFloat2float
            | OpCode::FloatTrunc
            | OpCode::FloatCeil
            | OpCode::FloatFloor
            | OpCode::FloatRound => Ok(
                Evaluation::Float(FloatRequest { opcode: self.opcode, sizeout, sizein, in1, in2: None }),
            ),
            _ => Err(Error::lowlevel("Unary emulation unimplemented")),
        }
    }

    /// What an operation on two values comes to.
    pub open spec fn binary_value(self, sizeout: i32, sizein: i32, in1: u64, in2: u64) -> Outcome {
        let low = sizein as int;
        let mask = crate::address::mask_of(sizeout as int);
        match self.opcode {
            OpCode::IntAdd | OpCode::Ptrsub => Outcome::Value(in1.wrapping_add(in2) & mask),
            OpCode::IntSub => Outcome::Value(in1.wrapping_sub(in2) & mask),
            OpCode::IntMult => Outcome::Value(in1.wrapping_mul(in2) & mask),
            OpCode::IntDiv => if in2 == 0 {
                Outcome::Failure("Divide by 0"@)
            } else {
                Outcome::Value(in1 / in2)
            },
            OpCode::IntRem => if in2 == 0 {
                Outcome::Failure("Remainder by 0"@)
            } else {
                Outcome::Value(in1 % in2)
            },
            OpCode::IntSdiv => if signed(in2, low) == 0 {
                Outcome::Failure("Divide by 0"@)
            } else {
                Outcome::Value(encoded(quotient(signed(in1, low) as int, signed(in2, low) as int)) & mask)
            },
            OpCode::IntSrem => if signed(in2, low) == 0 {
                Outcome::Failure("Remainder by 0"@)
            } else {
                Outcome::Value(encoded(remainder(signed(in1, low) as int, signed(in2, low) as int)) & mask)
            },
            OpCode::IntEqual => Outcome::Value(as_value(in1 == in2)),
            OpCode::IntNotequal => Outcome::Value(as_value(in1 != in2)),
            OpCode::IntLess => Outcome::Value(as_value(in1 < in2)),
            OpCode::IntLessequal => Outcome::Value(as_value(in1 <= in2)),
            OpCode::IntSless => Outcome::Value(
                as_value(
                    if negative(in1, low) == negative(in2, low) {
                        in1 < in2
                    } else {
                        negative(in1, low)
                    },
                ),
            ),
            OpCode::IntSlessequal => Outcome::Value(
                as_value(
                    if negative(in1, low) == negative(in2, low) {
                        in1 <= in2
                    } else {
                        negative(in1, low)
                    },
                ),
            ),
            OpCode::IntCarry => Outcome::Value(as_value(in1 > in1.wrapping_add(in2) & crate::address::mask_of(low))),
            OpCode::IntScarry => Outcome::Value(
                as_value(
                    negative(in1, low) == negative(in2, low) && negative(in1.wrapping_add(in2), low) != negative(
                        in1,
                        low,
                    ),
                ),
            ),
            OpCode::IntSborrow => Outcome::Value(
                as_value(
                    negative(in1, low) != negative(in2, low) && negative(in1.wrapping_sub(in2), low) != negative(
                        in1,
                        low,
                    ),
                ),
            ),
            OpCode::IntXor | OpCode::BoolXor => Outcome::Value(in1 ^ in2),
            OpCode::IntAnd | OpCode::BoolAnd => Outcome::Value(in1 & in2),
            OpCode::IntOr | OpCode::BoolOr => Outcome::Value(in1 | in2),
            OpCode::IntLeft => Outcome::Value(
                if in2 >= 8 * sizeout {
                    0
                } else {
                    up(in1, in2 as int) & mask
                },
            ),
            OpCode::IntRight => Outcome::Value(
                if in2 >= 8 * sizeout {
                    0
                } else {
                    down(in1 & mask, in2 as int)
                },
            ),
            OpCode::IntSright => Outcome::Value(
                if in2 >= 8 * sizeout {
                    if negative(in1, low) {
                        mask
                    } else {
                        0
                    }
                } else if negative(in1, low) {
                    down(in1, in2 as int) | (down(crate::address::mask_of(low), in2 as int) ^ crate::address::mask_of(low))
                } else {
                    down(in1, in2 as int)
                },
            ),
            OpCode::Piece => Outcome::Value(up(in1, 8 * (sizeout - sizein)) | in2),
            OpCode::Subpiece => Outcome::Value(down(in1, 8 * in2) & mask),
            _ => if reads_two_floats(self.opcode) {
                Outcome::Float(FloatRequest { opcode: self.opcode, sizeout, sizein, in1, in2: Some(in2) })
            } else {
                Outcome::Failure("Binary emulation unimplemented"@)
            },
        }
    }

    pub fn evaluate_binary(&self, sizeout: i32, sizein: i32, in1: u64, in2: u64) -> (res: Result<Evaluation>)
        ensures
            self.binary_value(sizeout, sizein, in1, in2).evaluated(res),
    {
        let past = in2 as i128 >= 8 * (sizeout as i128);
        let val: u64 = match self.opcode {
            OpCode::IntAdd | OpCode::Ptrsub => in1.wrapping_add(in2) & calc_mask(sizeout),
            OpCode::IntSub => in1.wrapping_sub(in2) & calc_mask(sizeout),
            OpCode::IntMult => in1.wrapping_mul(in2) & calc_mask(sizeout),
            OpCode::IntDiv => {
                if in2 == 0 {
                    return Err(Error::lowlevel("Divide by 0"));
                }
                in1 / in2
            },
            OpCode::IntRem => {
                if in2 == 0 {
                    return Err(Error::lowlevel("Remainder by 0"));
                }
                in1 % in2
            },
            OpCode::IntSdiv => {
                let by: i64 = as_signed(in2, sizein);
                if by == 0 {
                    return Err(Error::lowlevel("Divide by 0"));
                }
                divide(as_signed(in1, sizein), by) & calc_mask(sizeout)
            },
            OpCode::IntSrem => {
                let by: i64 = as_signed(in2, sizein);
                if by == 0 {
                    return Err(Error::lowlevel("Remainder by 0"));
                }
                find_remainder(as_signed(in1, sizein), by) & calc_mask(sizeout)
            },
            OpCode::IntEqual => to_value(in1 == in2),
            OpCode::IntNotequal => to_value(in1 != in2),
            OpCode::IntLess => to_value(in1 < in2),
            OpCode::IntLessequal => to_value(in1 <= in2),
            OpCode::IntSless => {
                let first = is_negative(in1, sizein);
                to_value(
                    if first == is_negative(in2, sizein) {
                        in1 < in2
                    } else {
                        first
                    },
                )
            },
            OpCode::IntSlessequal => {
                let first = is_negative(in1, sizein);
                to_value(
                    if first == is_negative(in2, sizein) {
                        in1 <= in2
                    } else {
                        first
                    },
                )
            },
            OpCode::IntCarry => to_value(in1 > in1.wrapping_add(in2) & calc_mask(sizein)),
            OpCode::IntScarry => {
                let first = is_negative(in1, sizein);
                to_value(first == is_negative(in2, sizein) && is_negative(in1.wrapping_add(in2), sizein) != first)
            },
            OpCode::IntSborrow => {
                let first = is_negative(in1, sizein);
                to_value(first != is_negative(in2, sizein) && is_negative(in1.wrapping_sub(in2), sizein) != first)
            },
            OpCode::IntXor | OpCode::BoolXor => in1 ^ in2,
            OpCode::IntAnd | OpCode::BoolAnd => in1 & in2,
            OpCode::IntOr | OpCode::BoolOr => in1 | in2,
            OpCode::IntLeft => if past {
                0
            } else {
                move_up(in1, in2 as i128) & calc_mask(sizeout)
            },
            OpCode::IntRight => if past {
                0
            } else {
                move_down(in1 & calc_mask(sizeout), in2 as i128)
            },
            OpCode::IntSright => if past {
                if is_negative(in1, sizein) {
                    calc_mask(sizeout)
                } else {
                    0
                }
            } else if is_negative(in1, sizein) {
                let mask: u64 = calc_mask(sizein);
                move_down(in1, in2 as i128) | (move_down(mask, in2 as i128) ^ mask)
            } else {
                move_down(in1, in2 as i128)
            },
            OpCode::Piece => move_up(in1, 8 * (sizeout as i128 - sizein as i128)) | in2,
            OpCode::Subpiece => move_down(in1, 8 * (in2 as i128)) & calc_mask(sizeout),
            OpCode::FloatEqual
            | OpCode::FloatNotequal
            | OpCode::FloatLess
            | OpCode::FloatLessequal
            | OpCode::FloatAdd
            | OpCode::FloatDiv
            | OpCode::FloatMult
            | OpCode::FloatSub => {
                return Ok(
                    Evaluation::Float(FloatRequest { opcode: self.opcode, sizeout, sizein, in1, in2: Some(in2) }),
                );
            },
            _ => {
                return Err(Error::lowlevel("Binary emulation unimplemented"));
            },
        };
        Ok(Evaluation::Value(val))
    }

    /// What an operation on three values comes to.
    pub open spec fn ternary_value(self, sizeout: i32, in1: u64, in2: u64, in3: u64) -> Outcome {
        match self.opcode {
            OpCode::Ptradd => Outcome::Value(
                in1.wrapping_add(in2.wrapping_mul(in3)) & crate::address::mask_of(sizeout as int),
            ),
            _ => Outcome::Failure("Ternary emulation unimplemented"@),
        }
    }

    pub fn evaluate_ternary(&self, sizeout: i32, sizein: i32, in1: u64, in2: u64, in3: u64) -> (res: Result<Evaluation>)
        ensures
            self.ternary_value(sizeout, in1, in2, in3).evaluated(res),
    {
        match self.opcode {
            OpCode::Ptradd => Ok(Evaluation::Value(in1.wrapping_add(in2.wrapping_mul(in3)) & calc_mask(sizeout))),
            _ => Err(Error::lowlevel("Ternary emulation unimplemented")),
        }
    }

    /// The other of two inputs, if the output and one input tell it.
    pub open spec fn other_input(self, slot: i32, sizeout: i32, out: u64, sizein: i32, input: u64) -> Outcome {
        let mask = crate::address::mask_of(sizeout as int);
        let lossy = Outcome::Failure("Cannot recover input parameter without loss of information"@);
        let past = slot != 0 || input >= 8 * sizeout;
        match self.opcode {
            OpCode::IntAdd => Outcome::Value(out.wrapping_sub(input) & mask),
            OpCode::IntSub => Outcome::Value(
                if slot == 0 {
                    input.wrapping_add(out) & mask
                } else {
                    input.wrapping_sub(out) & mask
                },
            ),
            OpCode::IntLeft => if past {
                lossy
            } else if up(out, 8 * sizeout - input) & mask != 0 {
                Outcome::Failure("Output is not in range of left shift operation"@)
            } else {
                Outcome::Value(down(out, input as int))
            },
            OpCode::IntRight => if past {
                lossy
            } else if down(out, 8 * sizein - input) != 0 {
                Outcome::Failure("Output is not in range of right shift operation"@)
            } else {
                Outcome::Value(up(out, input as int))
            },
            OpCode::IntSright => {
                let top = down(out, 8 * sizein - input - 1) & ones(input + 1);
                if past {
                    lossy
                } else if top != 0 && top != ones(input + 1) {
                    Outcome::Failure("Output is not in range of right shift operation"@)
                } else {
                    Outcome::Value(up(out, input as int))
                }
            },
            _ => lossy,
        }
    }

    pub fn recover_input_binary(&self, slot: i32, sizeout: i32, out: u64, sizein: i32, input: u64) -> (res: Result<u64>)
        ensures
            self.other_input(slot, sizeout, out, sizein, input).recovered(res),
    {
        let past = slot != 0 || input as i128 >= 8 * (sizeout as i128);
        match self.opcode {
            OpCode::IntAdd => {
                return Ok(out.wrapping_sub(input) & calc_mask(sizeout));
            },
            OpCode::IntSub => {
                return if slot == 0 {
                    Ok(input.wrapping_add(out) & calc_mask(sizeout))
                } else {
                    Ok(input.wrapping_sub(out) & calc_mask(sizeout))
                };
            },
            OpCode::IntLeft => if !past {
                return if move_up(out, 8 * (sizeout as i128) - input as i128) & calc_mask(sizeout) != 0 {
                    Err(Error::lowlevel("Output is not in range of left shift operation"))
                } else {
                    Ok(move_down(out, input as i128))
                };
            },
            OpCode::IntRight => if !past {
                return if move_down(out, 8 * (sizein as i128) - input as i128) != 0 {
                    Err(Error::lowlevel("Output is not in range of right shift operation"))
                } else {
                    Ok(move_up(out, input as i128))
                };
            },
            OpCode::IntSright => if !past {
                let all: u64 = make_ones(input as i128 + 1);
                let top: u64 = move_down(out, 8 * (sizein as i128) - input as i128 - 1) & all;
                return if top != 0 && top != all {
                    Err(Error::lowlevel("Output is not in range of right shift operation"))
                } else {
                    Ok(move_up(out, input as i128))
                };
            },
            _ => {},
        }
        Err(Error::lowlevel("Cannot recover input parameter without loss of information"))
    }

    /// The input, if the output tells it.
    pub open spec fn only_input(self, sizeout: i32, out: u64, sizein: i32) -> Outcome {
        let mask = crate::address::mask_of(sizein as int);
        match self.opcode {
            OpCode::Copy => Outcome::Value(out),
            OpCode::IntNegate => Outcome::Value(!out & mask),
            OpCode::Int2comp => Outcome::Value(0u64.wrapping_sub(out) & mask),
            OpCode::IntZext => if out & mask != out {
                Outcome::Failure("Output is not in range of zext operation"@)
            } else {
                Outcome::Value(out)
            },
            OpCode::IntSext => if signed(out, sizein as int) as u64 & crate::address::mask_of(sizeout as int) != out {
                Outcome::Failure("Output is not in range of sext operation"@)
            } else {
                Outcome::Value(out & mask)
            },
            _ => Outcome::Failure("Cannot recover input parameter without loss of information"@),
        }
    }

    pub fn recover_input_unary(&self, sizeout: i32, out: u64, sizein: i32) -> (res: Result<u64>)
        ensures
            self.only_input(sizeout, out, sizein).recovered(res),
    {
        match self.opcode {
            OpCode::Copy => Ok(out),
            OpCode::IntNegate => Ok(!out & calc_mask(sizein)),
            OpCode::Int2comp => Ok(0u64.wrapping_sub(out) & calc_mask(sizein)),
            OpCode::IntZext => if out & calc_mask(sizein) != out {
                Err(Error::lowlevel("Output is not in range of zext operation"))
            } else {
                Ok(out)
            },
            OpCode::IntSext => if as_signed(out, sizein) as u64 & calc_mask(sizeout) != out {
                Err(Error::lowlevel("Output is not in range of sext operation"))
            } else {
                Ok(out & calc_mask(sizein))
            },
            _ => Err(Error::lowlevel("Cannot recover input parameter without loss of information")),
        }
    }
}

} // verus!

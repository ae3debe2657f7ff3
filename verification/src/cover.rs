//! Covers: where in a function a value is alive.
use vstd::prelude::*;
use crate::ids::VarnodeId;
use crate::text::{push_decimal, push_numeral};

verus! {

/// A stretch of a block, from one position to another.
#[derive(Copy, Clone, Debug, PartialEq, Eq, Structural)]
pub struct Stretch {
    pub block: i32,
    pub start: u64,
    pub stop: u64,
}

impl Stretch {
    /// How two stretches meet: not at all, only where one ends, or in between.
    pub open spec fn meeting(self, other: Stretch) -> int {
        if self.block != other.block || self.stop < other.start || other.stop < self.start {
            0
        } else if self.stop == other.start || other.stop == self.start {
            1
        } else {
            2
        }
    }

    pub fn meet(&self, other: &Stretch) -> (res: i32)
        ensures
            res == self.meeting(*other),
    {
        if self.block != other.block || self.stop < other.start || other.stop < self.start {
            0
        } else if self.stop == other.start || other.stop == self.start {
            1
        } else {
            2
        }
    }
}

/// An operation that may change memory: its place, and the varnodes that it may change.
#[derive(Debug)]
pub struct AffectingOp {
    pub block: i32,
    pub position: u64,
    pub affects: Vec<VarnodeId>,
}

impl AffectingOp {
    pub fn affects_test(&self, vn: VarnodeId) -> (res: bool)
        ensures
            res == self.affects@.contains(vn),
    {
        let mut i: usize = 0;
        while i < self.affects.len()
            invariant
                i <= self.affects@.len(),
                forall|k: int| 0 <= k < i ==> self.affects@[k] != vn,
            decreases self.affects@.len() - i,
        {
            if self.affects[i] == vn {
                assert(self.affects@[i as int] == vn);
                return true;
            }
            i = i + 1;
        }
        false
    }
}

/// The stretches where a value is alive.
#[derive(Debug)]
pub struct Cover {
    pub stretches: Vec<Stretch>,
}

/// How the first `n` stretches of a list meet a stretch in a block.
pub open spec fn meets_one(list: Seq<Stretch>, one: Stretch, block: int, n: nat) -> int
    decreases n,
{
    if n == 0 {
        0
    } else {
        let rest = meets_one(list, one, block, (n - 1) as nat);
        let here = list[n - 1].meeting(one);
        if list[n - 1].block == block && here > rest {
            here
        } else {
            rest
        }
    }
}

/// How the stretches of two lists meet in a block, taking the first `n` of the second.
pub open spec fn meets_all(list: Seq<Stretch>, other: Seq<Stretch>, block: int, n: nat) -> int
    decreases n,
{
    if n == 0 {
        0
    } else {
        let rest = meets_all(list, other, block, (n - 1) as nat);
        let here = meets_one(list, other[n - 1], block, list.len());
        if here > rest {
            here
        } else {
            rest
        }
    }
}

/// The blocks of the first `n` stretches where two covers meet at a level, in order.
pub open spec fn meeting_blocks(list: Seq<Stretch>, other: Seq<Stretch>, level: int, n: nat) -> Seq<i32>
    decreases n,
{
    if n == 0 {
        Seq::empty()
    } else {
        let rest = meeting_blocks(list, other, level, (n - 1) as nat);
        let block = list[n - 1].block;
        if meets_all(list, other, block as int, other.len()) >= level && !rest.contains(block) {
            rest.push(block)
        } else {
            rest
        }
    }
}

impl Cover {
    pub fn new() -> (res: Cover)
        ensures
            res.stretches@.len() == 0,
    {
        Cover { stretches: Vec::new() }
    }

    pub fn copy(&self) -> (res: Cover)
        ensures
            res.stretches@ == self.stretches@,
    {
        let mut res = Cover::new();
        res.merge(self);
        assert(res.stretches@ =~= self.stretches@);
        res
    }

    /// Adds the stretches of another cover.
    pub fn merge(&mut self, other: &Cover)
        ensures
            final(self).stretches@ == old(self).stretches@ + other.stretches@,
    {
        let mut i: usize = 0;
        while i < other.stretches.len()
            invariant
                i <= other.stretches@.len(),
                self.stretches@ =~= old(self).stretches@ + other.stretches@.take(i as int),
            decreases other.stretches@.len() - i,
        {
            self.stretches.push(other.stretches[i]);
            i = i + 1;
        }
        assert(other.stretches@.take(i as int) =~= other.stretches@);
    }

    /// How two covers meet in a block.
    pub open spec fn meeting_in(self, block: int, other: Cover) -> int {
        meets_all(self.stretches@, other.stretches@, block, other.stretches@.len())
    }

    /// How two covers meet in a block.
    pub fn intersect_by_block(&self, block: i32, other: &Cover) -> (res: i32)
        ensures
            res == self.meeting_in(block as int, *other),
            0 <= res <= 2,
    {
        let mut best: i32 = 0;
        let mut i: usize = 0;
        while i < other.stretches.len()
            invariant
                i <= other.stretches@.len(),
                0 <= best <= 2,
                best == meets_all(self.stretches@, other.stretches@, block as int, i as nat),
            decreases other.stretches@.len() - i,
        {
            let mut here: i32 = 0;
            let mut j: usize = 0;
            while j < self.stretches.len()
                invariant
                    i < other.stretches@.len(),
                    j <= self.stretches@.len(),
                    0 <= here <= 2,
                    here == meets_one(self.stretches@, other.stretches@[i as int], block as int, j as nat),
                decreases self.stretches@.len() - j,
            {
                let met: i32 = self.stretches[j].meet(&other.stretches[i]);
                if self.stretches[j].block == block && met > here {
                    here = met;
                }
                j = j + 1;
            }
            if here > best {
                best = here;
            }
            i = i + 1;
        }
        best
    }

    /// How two covers meet.
    pub open spec fn meeting(self, other: Cover) -> int {
        if meeting_blocks(self.stretches@, other.stretches@, 2, self.stretches@.len()).len() > 0 {
            2
        } else if meeting_blocks(self.stretches@, other.stretches@, 1, self.stretches@.len()).len() > 0 {
            1
        } else {
            0
        }
    }

    /// The blocks where two covers meet at a level.
    pub fn intersect_list(&self, other: &Cover, level: i32) -> (res: Vec<i32>)
        ensures
            res@ == meeting_blocks(self.stretches@, other.stretches@, level as int, self.stretches@.len()),
    {
        let mut res: Vec<i32> = Vec::new();
        let mut i: usize = 0;
        while i < self.stretches.len()
            invariant
                i <= self.stretches@.len(),
                res@ == meeting_blocks(self.stretches@, other.stretches@, level as int, i as nat),
            decreases self.stretches@.len() - i,
        {
            let block: i32 = self.stretches[i].block;
            let met: i32 = self.intersect_by_block(block, other);
            let mut known = false;
            let mut j: usize = 0;
            while j < res.len()
                invariant
                    j <= res@.len(),
                    known == res@.take(j as int).contains(block),
                decreases res@.len() - j,
            {
                proof {
                    let taken = res@.take(j as int + 1);
                    assert(taken =~= res@.take(j as int).push(res@[j as int]));
                    assert(taken.contains(block) == (res@.take(j as int).contains(block) || res@[j as int] == block)) by {
                        if res@.take(j as int).contains(block) {
                            let k = choose|k: int| 0 <= k < j && res@.take(j as int)[k] == block;
                            assert(taken[k] == block);
                        }
                        if res@[j as int] == block {
                            assert(taken[j as int] == block);
                        }
                    }
                }
                if res[j] == block {
                    known = true;
                }
                j = j + 1;
            }
            assert(res@.take(j as int) =~= res@);
            if met >= level && !known {
                res.push(block);
            }
            i = i + 1;
        }
        res
    }

    /// The listing of the first `n` stretches, one to a line.
    pub open spec fn listing(self, n: nat) -> Seq<char>
        decreases n,
    {
        if n == 0 {
            Seq::empty()
        } else {
            let one = self.stretches@[n - 1];
            self.listing((n - 1) as nat) + crate::text::decimal(one.block as int) + ": ["@ + crate::text::numeral(
                one.start as nat,
                10,
            ) + "-"@ + crate::text::numeral(one.stop as nat, 10) + "]\n"@
        }
    }

    pub fn print(&self, out: &mut String)
        ensures
            final(out)@ == old(out)@ + self.listing(self.stretches@.len()),
    {
        let mut i: usize = 0;
        assert(out@ =~= old(out)@ + self.listing(0));
        while i < self.stretches.len()
            invariant
                i <= self.stretches@.len(),
                out@ == old(out)@ + self.listing(i as nat),
            decreases self.stretches@.len() - i,
        {
            let one = self.stretches[i];
            push_decimal(out, one.block as i64);
            out.push_str(": [");
            push_numeral(out, one.start, 10);
            out.push_str("-");
            push_numeral(out, one.stop, 10);
            out.push_str("]\n");
            i = i + 1;
            assert(out@ =~= old(out)@ + self.listing(i as nat));
        }
    }

    /// How two covers meet.
    pub fn intersect(&self, other: &Cover) -> (res: i32)
        ensures
            res == self.meeting(*other),
    {
        if self.intersect_list(other, 2).len() > 0 {
            return 2;
        }
        if self.intersect_list(other, 1).len() > 0 {
            return 1;
        }
        0
    }

    /// Whether a place lies inside one of the first `n` stretches.
    pub open spec fn inside(self, block: int, position: int, n: nat) -> bool
        decreases n,
    {
        n > 0 && ({
            let one = self.stretches@[n - 1];
            ||| one.block == block && one.start < position < one.stop
            ||| self.inside(block, position, (n - 1) as nat)
        })
    }

    fn holds_place(&self, block: i32, position: u64) -> (res: bool)
        ensures
            res == self.inside(block as int, position as int, self.stretches@.len()),
    {
        let mut res = false;
        let mut i: usize = 0;
        while i < self.stretches.len()
            invariant
                i <= self.stretches@.len(),
                res == self.inside(block as int, position as int, i as nat),
            decreases self.stretches@.len() - i,
        {
            let one = self.stretches[i];
            if one.block == block && one.start < position && position < one.stop {
                res = true;
            }
            i = i + 1;
        }
        res
    }

    /// Whether one of the first `n` operations has its place inside the cover and
    /// affects a varnode.
    pub open spec fn affected(self, ops: Seq<AffectingOp>, vn: VarnodeId, n: nat) -> bool
        decreases n,
    {
        n > 0 && ({
            ||| ops[n - 1].affects@.contains(vn) && self.inside(
                ops[n - 1].block as int,
                ops[n - 1].position as int,
                self.stretches@.len(),
            )
            ||| self.affected(ops, vn, (n - 1) as nat)
        })
    }

    /// Whether an operation inside the cover affects a varnode.
    pub fn intersect_op_set(&self, ops: &Vec<AffectingOp>, vn: VarnodeId) -> (res: bool)
        ensures
            res == self.affected(ops@, vn, ops@.len()),
    {
        let mut res = false;
        let mut i: usize = 0;
        while i < ops.len()
            invariant
                i <= ops@.len(),
                res == self.affected(ops@, vn, i as nat),
            decreases ops@.len() - i,
        {
            if ops[i].affects_test(vn) && self.holds_place(ops[i].block, ops[i].position) {
                res = true;
            }
            i = i + 1;
        }
        res
    }
}

} // verus!

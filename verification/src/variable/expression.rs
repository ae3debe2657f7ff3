//! The variables that an expression is made of.
use vstd::prelude::*;
use crate::funcdata::Funcdata;
use crate::ids::{HighId, OpId, VarnodeId};
use crate::op::PcodeOp;
use crate::opcodes::OpCode;
use crate::variable::HighVariable;
use crate::varnode::Varnode;

verus! {

/// What has been found of an expression: its variables, and whether it calls or loads.
pub ghost struct Found {
    pub list: Seq<HighId>,
    pub calls: bool,
    pub loads: bool,
}

impl Funcdata {
    /// The operations that write the parts of an expression come before the
    /// operation that reads them, in some ranking of the operations.
    pub open spec fn ranked(self, rank: Map<OpId, nat>) -> bool {
        forall|op: OpId, i: int|
            #![trigger self.operation(op).inrefs@[i]]
            self.has_op(op) && 0 <= i < self.operation(op).inrefs@.len() ==> {
                let vn = self.operation(op).inrefs@[i];
                &&& self.defined(vn)
                &&& self.value(vn).flag(Varnode::EXPLICIT) ==> self.value(vn).high is Some && self.has_high(
                    self.value(vn).high->0,
                )
                &&& self.part_of_expression(vn) ==> rank[self.value(vn).def->0] < rank[op]
            }
    }

    /// A varnode that an operation writes and that has no variable of its own in an expression.
    pub open spec fn part_of_expression(self, vn: VarnodeId) -> bool {
        !self.value(vn).flag(Varnode::ANNOTATION) && !self.value(vn).flag(Varnode::EXPLICIT) && self.value(vn).flag(
            Varnode::WRITTEN,
        )
    }

    /// Whether a variable is marked, or among those found.
    pub open spec fn marked_in(self, high: HighId, found: Found) -> bool {
        (self.variable(high).flags & Varnode::MARK) != 0 || found.list.contains(high)
    }

    /// What an operation adds by being part of an expression.
    pub open spec fn noting(self, op: OpId, found: Found) -> Found {
        Found {
            calls: found.calls || self.operation(op).flag(PcodeOp::CALL),
            loads: found.loads || self.operation(op).opcode is Load,
            ..found
        }
    }

    /// What is found below an operation, from one of its inputs on.
    pub open spec fn found_below(self, rank: Map<OpId, nat>, op: OpId, slot: nat, found: Found) -> Found
        decreases rank[op], self.operation(op).inrefs@.len() - slot,
        when self.has_op(op) && self.ranked(rank)
    {
        if slot >= self.operation(op).inrefs@.len() {
            found
        } else {
            let vn = self.operation(op).inrefs@[slot as int];
            let node = self.value(vn);
            let next = if node.flag(Varnode::ANNOTATION) {
                found
            } else if node.flag(Varnode::EXPLICIT) {
                if self.marked_in(node.high->0, found) {
                    found
                } else {
                    Found { list: found.list.push(node.high->0), ..found }
                }
            } else if node.flag(Varnode::WRITTEN) {
                self.found_below(rank, node.def->0, 0, self.noting(node.def->0, found))
            } else {
                found
            };
            self.found_below(rank, op, slot + 1, next)
        }
    }

    /// What an expression is made of: the variable that it is assigned to, then those that it reads.
    pub open spec fn expression(self, rank: Map<OpId, nat>, vn: VarnodeId) -> Found {
        let first = Found { list: seq![self.value(vn).high->0], calls: false, loads: false };
        if self.value(vn).flag(Varnode::WRITTEN) {
            self.found_below(rank, self.value(vn).def->0, 0, self.noting(self.value(vn).def->0, first))
        } else {
            first
        }
    }

    /// The variables of a list, and no others, have been marked.
    pub open spec fn marking(self, before: Funcdata, list: Seq<HighId>) -> bool {
        &&& self.same_but_highs(before)
        &&& self.highs.slots@.len() == before.highs.slots@.len()
        &&& forall|h: u32| #![trigger self.highs.slots@[h as int]]
            h < self.highs.slots@.len() ==> self.highs.slots@[h as int] == if before.highs.has(h) && list.contains(
                HighId(h),
            ) {
                Some(HighVariable { flags: before.highs.item(h).flags | Varnode::MARK, ..before.highs.item(h) })
            } else {
                before.highs.slots@[h as int]
            }
    }

    fn mark_one(&mut self, high: HighId, high_list: &mut Vec<HighId>, Ghost(before): Ghost<Funcdata>, Ghost(list): Ghost<Seq<HighId>>)
        requires
            before.has_high(high),
            old(self).marking(before, list),
        ensures
            final(self).marking(before, list.push(high)),
            final(high_list)@ == old(high_list)@.push(high),
    {
        let ghost mid = *self;
        assert(mid.highs.slots@[high.0 as int] is Some);
        self.high_mut(high).set_mark();
        high_list.push(high);
        proof {
            let more = list.push(high);
            assert forall|h: u32| #![trigger self.highs.slots@[h as int]]
                h < self.highs.slots@.len() implies self.highs.slots@[h as int] == if before.highs.has(h)
                && more.contains(HighId(h)) {
                Some(HighVariable { flags: before.highs.item(h).flags | Varnode::MARK, ..before.highs.item(h) })
            } else {
                before.highs.slots@[h as int]
            } by {
                assert(mid.highs.slots@[h as int] == mid.highs.slots@[h as int]);
                if list.contains(HighId(h)) {
                    let k = choose|k: int| 0 <= k < list.len() && list[k] == HighId(h);
                    assert(more[k] == HighId(h));
                }
                if h == high.0 {
                    assert(more[list.len() as int] == HighId(h));
                    let flags = before.highs.item(h).flags;
                    assert((flags | 1u32) | 1u32 == flags | 1u32) by (bit_vector);
                }
                if more.contains(HighId(h)) && h != high.0 {
                    let k = choose|k: int| 0 <= k < more.len() && more[k] == HighId(h);
                    assert(list[k] == HighId(h));
                }
            }
        }
    }

    fn mark_below(
        &mut self,
        op: OpId,
        high_list: &mut Vec<HighId>,
        calls: &mut bool,
        loads: &mut bool,
        Ghost(before): Ghost<Funcdata>,
        Ghost(rank): Ghost<Map<OpId, nat>>,
        Ghost(found): Ghost<Found>,
        Ghost(prior): Ghost<Seq<HighId>>,
    )
        requires
            before.ranked(rank),
            before.has_op(op),
            old(self).marking(before, found.list),
            old(high_list)@ == prior + found.list,
            *old(calls) == found.calls,
            *old(loads) == found.loads,
        ensures
            ({
                let after = before.found_below(rank, op, 0, found);
                &&& final(self).marking(before, after.list)
                &&& final(high_list)@ == prior + after.list
                &&& *final(calls) == after.calls
                &&& *final(loads) == after.loads
            }),
        decreases rank[op],
    {
        let ghost mut now = found;
        let mut slot: usize = 0;
        while slot < self.op(op).inrefs.len()
            invariant
                before.ranked(rank),
                before.has_op(op),
                self.marking(before, now.list),
                high_list@ == prior + now.list,
                *calls == now.calls,
                *loads == now.loads,
                slot <= before.operation(op).inrefs@.len(),
                before.found_below(rank, op, slot as nat, now) == before.found_below(rank, op, 0, found),
            decreases before.operation(op).inrefs@.len() - slot,
        {
            let cur_vn = self.op(op).inrefs[slot];
            assert(before.operation(op).inrefs@[slot as int] == cur_vn);
            let cur = self.vn(cur_vn);
            let ghost was = now;
            if cur.is_annotation() {
            } else if cur.is_explicit() {
                let high = cur.get_high_option().unwrap();
                proof {
                    assert(self.highs.slots@[high.0 as int] is Some);
                    let flags = before.variable(high).flags;
                    assert((flags | 1u32) & 1u32 != 0) by (bit_vector);
                }
                if !self.high(high).is_mark() {
                    self.mark_one(high, high_list, Ghost(before), Ghost(now.list));
                    proof {
                        assert((prior + now.list).push(high) =~= prior + now.list.push(high));
                        now = Found { list: now.list.push(high), ..now };
                    }
                }
            } else if cur.is_written() {
                let def = cur.get_def().unwrap();
                let def_op = self.op(def);
                if def_op.is_call() {
                    *calls = true;
                }
                if def_op.code() == OpCode::Load {
                    *loads = true;
                }
                proof {
                    now = before.noting(def, now);
                }
                self.mark_below(def, high_list, calls, loads, Ghost(before), Ghost(rank), Ghost(now), Ghost(prior));
                proof {
                    now = before.found_below(rank, def, 0, now);
                }
            }
            slot = slot + 1;
        }
    }

    /// Marks and lists the variables that an expression is made of. The result is
    /// odd if the expression calls, and 2 or more if it loads.
    pub fn high_mark_expression(&mut self, vn: VarnodeId, high_list: &mut Vec<HighId>) -> (res: i32)
        requires
            old(self).defined(vn),
            old(self).value(vn).high is Some,
            old(self).has_high(old(self).value(vn).high->0),
            exists|rank: Map<OpId, nat>| old(self).ranked(rank),
        ensures
            exists|rank: Map<OpId, nat>| #[trigger]
                old(self).ranked(rank) && {
                    let found = old(self).expression(rank, vn);
                    &&& final(self).marking(*old(self), found.list)
                    &&& final(high_list)@ == old(high_list)@ + found.list
                    &&& res == (if found.calls {
                        1int
                    } else {
                        0
                    }) + (if found.loads {
                        2int
                    } else {
                        0
                    })
                },
    {
        let ghost before = *self;
        let ghost prior = high_list@;
        let ghost rank = choose|rank: Map<OpId, nat>| before.ranked(rank);
        let high = self.vn(vn).get_high_option().unwrap();
        proof {
            assert forall|h: u32| #![trigger self.highs.slots@[h as int]]
                h < self.highs.slots@.len() implies self.highs.slots@[h as int] == if before.highs.has(h)
                && Seq::<HighId>::empty().contains(HighId(h)) {
                Some(HighVariable { flags: before.highs.item(h).flags | Varnode::MARK, ..before.highs.item(h) })
            } else {
                before.highs.slots@[h as int]
            } by {}
        }
        self.mark_one(high, high_list, Ghost(before), Ghost(Seq::empty()));
        proof {
            assert(Seq::<HighId>::empty().push(high) =~= seq![high]);
            assert(high_list@ =~= prior + seq![high]);
        }
        let mut calls = false;
        let mut loads = false;
        if self.vn(vn).is_written() {
            let op = self.vn(vn).get_def().unwrap();
            let op_data = self.op(op);
            if op_data.is_call() {
                calls = true;
            }
            if op_data.code() == OpCode::Load {
                loads = true;
            }
            let ghost first = Found { list: seq![high], calls: false, loads: false };
            self.mark_below(
                op,
                high_list,
                &mut calls,
                &mut loads,
                Ghost(before),
                Ghost(rank),
                Ghost(before.noting(op, first)),
                Ghost(prior),
            );
        }
        assert(before.ranked(rank));
        let mut ret_val: i32 = 0;
        if calls {
            ret_val = ret_val + 1;
        }
        if loads {
            ret_val = ret_val + 2;
        }
        ret_val
    }
}

} // verus!

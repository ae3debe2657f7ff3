//! A function under analysis: its values, operations and variables.
use vstd::prelude::*;
use crate::arena::Arena;
use crate::fspec::FuncProto;
use crate::ids::{BlockId, GroupId, HighId, OpId, VarnodeId};
use crate::op::PcodeOp;
use crate::opcodes::OpCode;
use crate::unionresolve::{ResolveEdge, ResolvedUnion};
use crate::variable::{HighVariable, VariableGroup};
use crate::varnode::Varnode;

verus! {

/// A basic block, as far as listings show it.
#[derive(Debug)]
pub struct BlockBasic {
    pub outs: Vec<BlockId>,
    /// How the block is named in a raw listing.
    pub header: String,
    /// The way out that is taken if a condition holds, of two.
    pub true_out: usize,
}

/// The prototype that a call is made by.
#[derive(Debug)]
pub struct CallSpec {
    pub op: OpId,
    pub proto: FuncProto,
}

/// A function under analysis.
#[derive(Debug)]
pub struct Funcdata {
    pub varnodes: Arena<Varnode>,
    pub ops: Arena<PcodeOp>,
    pub blocks: Vec<BlockBasic>,
    pub highs: Arena<HighVariable>,
    pub groups: Arena<VariableGroup>,
    pub calls: Vec<CallSpec>,
    pub proto: FuncProto,
    /// Pairs of varnodes of which one only copies what the other holds.
    pub copy_shadows: Vec<(VarnodeId, VarnodeId)>,
    /// Pairs of varnodes of which one only copies a part of the other, and where
    /// the second starts with respect to the first.
    pub partial_shadows: Vec<(VarnodeId, VarnodeId, i32)>,
    /// How unions are read and written, by where that happens.
    pub union_map: Vec<(ResolveEdge, ResolvedUnion)>,
}

impl Funcdata {
    pub open spec fn has_vn(self, id: VarnodeId) -> bool {
        self.varnodes.has(id.0)
    }

    pub open spec fn value(self, id: VarnodeId) -> Varnode {
        self.varnodes.item(id.0)
    }

    pub open spec fn has_op(self, id: OpId) -> bool {
        self.ops.has(id.0)
    }

    pub open spec fn operation(self, id: OpId) -> PcodeOp {
        self.ops.item(id.0)
    }

    pub open spec fn has_high(self, id: HighId) -> bool {
        self.highs.has(id.0)
    }

    pub open spec fn variable(self, id: HighId) -> HighVariable {
        self.highs.item(id.0)
    }

    pub open spec fn has_group(self, id: GroupId) -> bool {
        self.groups.has(id.0)
    }

    pub open spec fn group(self, id: GroupId) -> VariableGroup {
        self.groups.item(id.0)
    }

    pub fn vn(&self, id: VarnodeId) -> (res: &Varnode)
        requires
            self.has_vn(id),
        ensures
            *res == self.value(id),
    {
        self.varnodes.get(id.0)
    }

    pub fn op(&self, id: OpId) -> (res: &PcodeOp)
        requires
            self.has_op(id),
        ensures
            *res == self.operation(id),
    {
        self.ops.get(id.0)
    }

    pub fn high(&self, id: HighId) -> (res: &HighVariable)
        requires
            self.has_high(id),
        ensures
            *res == self.variable(id),
    {
        self.highs.get(id.0)
    }

    /// All but the variables and their groups is as it was.
    pub open spec fn same_code(self, before: Funcdata) -> bool {
        self == (Funcdata { highs: self.highs, groups: self.groups, ..before })
    }

    /// All but the variables is as it was.
    pub open spec fn same_but_highs(self, before: Funcdata) -> bool {
        self == (Funcdata { highs: self.highs, ..before })
    }

    /// All but one variable is as it was.
    pub open spec fn same_but(self, before: Funcdata, high: HighId) -> bool {
        &&& self.same_but_highs(before)
        &&& self.highs.slots@ == before.highs.with(high.0, self.variable(high))
    }

    pub fn high_mut(&mut self, id: HighId) -> (res: &mut HighVariable)
        requires
            old(self).has_high(id),
        ensures
            *res == old(self).variable(id),
            final(self).same_but_highs(*old(self)),
            final(self).highs.slots@ == old(self).highs.with(id.0, *final(res)),
    {
        self.highs.get_mut(id.0)
    }

    pub fn vn_mut(&mut self, id: VarnodeId) -> (res: &mut Varnode)
        requires
            old(self).has_vn(id),
        ensures
            *res == old(self).value(id),
            *final(self) == (Funcdata { varnodes: final(self).varnodes, ..*old(self) }),
            final(self).varnodes.slots@ == old(self).varnodes.with(id.0, *final(res)),
    {
        self.varnodes.get_mut(id.0)
    }

    /// Whether one varnode only copies what another holds.
    pub open spec fn copies(self, vn: VarnodeId, op2: VarnodeId) -> bool {
        vn == op2 || self.copy_shadows@.contains((vn, op2)) || self.copy_shadows@.contains((op2, vn))
    }

    /// Whether one varnode only copies what another holds.
    pub fn vn_copy_shadow(&self, vn: VarnodeId, op2: VarnodeId) -> (res: bool)
        ensures
            res == self.copies(vn, op2),
    {
        if vn == op2 {
            return true;
        }
        let mut i: usize = 0;
        while i < self.copy_shadows.len()
            invariant
                i <= self.copy_shadows@.len(),
                forall|k: int| #![trigger self.copy_shadows@[k]]
                    0 <= k < i ==> self.copy_shadows@[k] != (vn, op2) && self.copy_shadows@[k] != (op2, vn),
            decreases self.copy_shadows@.len() - i,
        {
            let pair = self.copy_shadows[i];
            if (pair.0 == vn && pair.1 == op2) || (pair.0 == op2 && pair.1 == vn) {
                assert(self.copy_shadows@[i as int] == pair);
                return true;
            }
            i = i + 1;
        }
        false
    }

    /// Whether one varnode only copies a part of another.
    pub fn vn_partial_copy_shadow(&self, vn: VarnodeId, op2: VarnodeId, rel_off: i32) -> (res: bool)
        ensures
            res == self.partial_shadows@.contains((vn, op2, rel_off)),
    {
        let mut i: usize = 0;
        while i < self.partial_shadows.len()
            invariant
                i <= self.partial_shadows@.len(),
                forall|k: int| #![trigger self.partial_shadows@[k]]
                    0 <= k < i ==> self.partial_shadows@[k] != (vn, op2, rel_off),
            decreases self.partial_shadows@.len() - i,
        {
            let triple = self.partial_shadows[i];
            if triple.0 == vn && triple.1 == op2 && triple.2 == rel_off {
                assert(self.partial_shadows@[i as int] == triple);
                return true;
            }
            i = i + 1;
        }
        false
    }

    /// The place of the prototype, from the given place on, that an operation calls by.
    pub open spec fn call_from(self, op: OpId, i: nat) -> Option<nat>
        decreases self.calls@.len() - i,
    {
        if i >= self.calls@.len() {
            None
        } else if self.calls@[i as int].op == op {
            Some(i)
        } else {
            self.call_from(op, i + 1)
        }
    }

    /// The prototype that an operation calls by.
    pub open spec fn call_proto(self, op: OpId) -> Option<FuncProto> {
        match self.call_from(op, 0) {
            Some(i) => Some(self.calls@[i as int].proto),
            None => None,
        }
    }

    /// The prototype of a call is that of an entry in the list of calls.
    pub proof fn call_is_listed(self, op: OpId, i: nat)
        ensures
            self.call_from(op, i) is Some ==> i <= self.call_from(op, i)->0 < self.calls@.len(),
        decreases self.calls@.len() - i,
    {
        if i < self.calls@.len() && self.calls@[i as int].op != op {
            self.call_is_listed(op, i + 1);
        }
    }

    pub fn get_call_specs_op(&self, op: OpId) -> (res: Option<&FuncProto>)
        ensures
            res == (match self.call_proto(op) {
                Some(proto) => Some(&proto),
                None => None,
            }),
    {
        let mut i: usize = 0;
        while i < self.calls.len()
            invariant
                i <= self.calls@.len(),
                self.call_from(op, i as nat) == self.call_from(op, 0),
            decreases self.calls@.len() - i,
        {
            if self.calls[i].op == op {
                return Some(&self.calls[i].proto);
            }
            i = i + 1;
        }
        None
    }

    pub fn get_func_proto(&self) -> (res: &FuncProto)
        ensures
            *res == self.proto,
    {
        &self.proto
    }

    /// What an operation needs to have for its kind: inputs and an output.
    pub open spec fn shaped(self, op: PcodeOp) -> bool {
        let n = op.inrefs@.len();
        match op.opcode {
            OpCode::Copy | OpCode::Multiequal => n >= 1 && op.output is Some,
            OpCode::Indirect => n == 2 && op.output is Some,
            OpCode::Load => n == 2 && op.output is Some && self.value(op.inrefs@[1]).size <= 8,
            OpCode::Store => n == 3 && op.output is None && self.value(op.inrefs@[1]).size <= 8,
            OpCode::IntAdd | OpCode::IntSub | OpCode::Ptrsub => n == 2 && op.output is Some,
            OpCode::IntMult | OpCode::IntAnd | OpCode::IntXor | OpCode::IntOr => n == 2 && op.output is Some,
            OpCode::Piece | OpCode::Subpiece => n == 2 && op.output is Some && self.value(op.inrefs@[0]).loc.base is Some,
            OpCode::Ptradd => n == 3 && op.output is Some,
            OpCode::Segmentop => n == 3 && op.output is Some && self.value(op.inrefs@[2]).size <= 8 && self.value(
                op.output->0,
            ).size <= 8,
            OpCode::New => n >= 1,
            _ => true,
        }
    }

    /// Operations and varnodes refer to each other as they should.
    pub open spec fn flowing(self) -> bool {
        &&& forall|op: OpId| #![trigger self.has_op(op)]
            self.has_op(op) ==> {
                &&& self.operation(op).inrefs@.len() <= i32::MAX
                &&& self.operation(op).output is Some ==> self.has_vn(self.operation(op).output->0)
                &&& self.shaped(self.operation(op))
            }
        &&& forall|op: OpId, i: int|
            #![trigger self.operation(op).inrefs@[i]]
            self.has_op(op) && 0 <= i < self.operation(op).inrefs@.len() ==> self.has_vn(
                self.operation(op).inrefs@[i],
            )
        &&& forall|vn: VarnodeId| #![trigger self.has_vn(vn)]
            self.has_vn(vn) ==> {
                &&& 1 <= self.value(vn).size < 0x1000_0000
                &&& self.value(vn).flag(Varnode::CONSTANT) ==> self.value(vn).size <= 8
                &&& self.value(vn).flag(Varnode::WRITTEN) ==> self.value(vn).def is Some && self.has_op(
                    self.value(vn).def->0,
                )
            }
        &&& forall|vn: VarnodeId, i: int|
            #![trigger self.value(vn).descend@[i]]
            self.has_vn(vn) && 0 <= i < self.value(vn).descend@.len() ==> self.has_op(self.value(vn).descend@[i])
                && self.operation(self.value(vn).descend@[i]).inrefs@.contains(vn)
    }
}

} // verus!

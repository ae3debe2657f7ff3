//! Operations that a processor defines.
use std::sync::Arc;
use vstd::prelude::*;
use crate::error::{Error, Result};
use crate::funcdata::Funcdata;
use crate::ids::{OpId, TypeId, VarnodeId};
use crate::op::PcodeOp;
use crate::opcodes::OpCode;
use crate::space::SpaceRef;
use crate::text::{push_decimal, same_text};
use crate::varnode::Varnode;

verus! {

pub const ATTRIB_FARPOINTER: u32 = 85;

pub const ATTRIB_INPUTOP: u32 = 86;

pub const ATTRIB_OUTPUTOP: u32 = 87;

pub const ATTRIB_USEROP: u32 = 88;

pub const ELEM_PCODE: u32 = 93;

pub const ELEM_ADDR_PCODE: u32 = 89;

pub const ELEM_CASE_PCODE: u32 = 91;

pub const ELEM_DEFAULT_PCODE: u32 = 92;

pub const ELEM_SIZE_PCODE: u32 = 94;

pub const ELEM_CONSTRESOLVE: u32 = 127;

pub const ELEM_JUMPASSIST: u32 = 128;

pub const ELEM_SEGMENTOP: u32 = 129;

#[derive(Copy, Clone, Debug, PartialEq, Eq, Structural)]
pub enum UserOpType {
    Unspecialized,
    Injected,
    VolatileRead,
    VolatileWrite,
    Segment,
    Jumpassist,
    StringData,
    Datatype,
}

/// Some bytes of a space.
#[derive(Debug)]
pub struct VarnodeData {
    pub space: Option<SpaceRef>,
    pub offset: u64,
    pub size: u32,
}

/// A run of injected code on given values.
#[derive(Debug)]
pub struct ExecuteRequest {
    pub inject_id: i32,
    pub input: Vec<u64>,
}

/// How a segment and an offset make an address.
#[derive(Debug)]
pub struct SegmentOpData {
    pub spc: Option<SpaceRef>,
    pub inject_id: i32,
    pub baseinsize: i32,
    pub innerinsize: i32,
    pub supportsfarpointer: bool,
    pub constresolve: VarnodeData,
}

impl SegmentOpData {
    pub fn get_space(&self) -> (res: Option<&SpaceRef>)
        ensures
            res == (match self.spc {
                Some(spc) => Some(&spc),
                None => None,
            }),
    {
        match &self.spc {
            Some(spc) => Some(spc),
            None => None,
        }
    }

    pub fn has_far_pointer_support(&self) -> (res: bool)
        ensures
            res == self.supportsfarpointer,
    {
        self.supportsfarpointer
    }

    pub fn get_base_size(&self) -> (res: i32)
        ensures
            res == self.baseinsize,
    {
        self.baseinsize
    }

    pub fn get_inner_size(&self) -> (res: i32)
        ensures
            res == self.innerinsize,
    {
        self.innerinsize
    }

    pub fn get_resolve(&self) -> (res: &VarnodeData)
        ensures
            *res == self.constresolve,
    {
        &self.constresolve
    }
}

/// The pieces of code that help to find the targets of a jump.
#[derive(Copy, Clone, Debug, PartialEq, Eq, Structural)]
pub struct JumpAssistData {
    pub index2case: i32,
    pub index2addr: i32,
    pub defaultaddr: i32,
    pub calcsize: i32,
}

impl JumpAssistData {
    pub fn get_index2_case(&self) -> (res: i32)
        ensures
            res == self.index2case,
    {
        self.index2case
    }

    pub fn get_index2_addr(&self) -> (res: i32)
        ensures
            res == self.index2addr,
    {
        self.index2addr
    }

    pub fn get_default_addr(&self) -> (res: i32)
        ensures
            res == self.defaultaddr,
    {
        self.defaultaddr
    }

    pub fn get_calc_size(&self) -> (res: i32)
        ensures
            res == self.calcsize,
    {
        self.calcsize
    }
}

#[derive(Debug)]
pub enum UserPcodeOpKind {
    Unspecialized,
    Datatype { out_type: Option<TypeId>, in_types: Vec<Option<TypeId>> },
    Injected { injectid: u32 },
    VolatileRead,
    VolatileWrite,
    Segment(SegmentOpData),
    JumpAssist(JumpAssistData),
    InternalString,
}

#[derive(Debug)]
pub struct UserPcodeOp {
    pub name: String,
    pub tp: UserOpType,
    pub useropindex: i32,
    pub flags: u32,
    pub kind: UserPcodeOpKind,
}

/// A piece of code that stands for an operation.
#[derive(Debug)]
pub struct InjectPayload {
    pub input_sizes: Vec<u32>,
    pub output_count: i32,
    /// The operation that the code stands for, where it is one of a processor.
    pub target: String,
}

/// The inputs that are given, in order.
pub open spec fn given(list: Seq<Option<TypeId>>, n: nat) -> Seq<Option<TypeId>>
    decreases n,
{
    if n == 0 {
        Seq::empty()
    } else if list[n - 1] is Some {
        given(list, (n - 1) as nat).push(list[n - 1])
    } else {
        given(list, (n - 1) as nat)
    }
}

impl UserPcodeOp {
    pub const ANNOTATION_ASSIGNMENT: u32 = 1;
    pub const NO_OPERATOR: u32 = 2;
    pub const DISPLAY_STRING: u32 = 4;
    pub const BUILTIN_STRINGDATA: u32 = 0x10000000;
    pub const BUILTIN_VOLATILE_READ: u32 = 0x10000001;
    pub const BUILTIN_VOLATILE_WRITE: u32 = 0x10000002;
    pub const BUILTIN_MEMCPY: u32 = 0x10000003;
    pub const BUILTIN_STRNCPY: u32 = 0x10000004;
    pub const BUILTIN_WCSNCPY: u32 = 0x10000005;

    /// An operation with a name, a kind, a number and flags.
    pub open spec fn is(self, nm: Seq<char>, tp: UserOpType, ind: i32, flags: u32) -> bool {
        self.name@ == nm && self.tp == tp && self.useropindex == ind && self.flags == flags
    }

    pub fn new(nm: &str, tp: UserOpType, ind: i32, kind: UserPcodeOpKind) -> (res: UserPcodeOp)
        ensures
            res.is(nm@, tp, ind, 0),
            res.kind == kind,
    {
        UserPcodeOp { name: nm.to_owned(), tp, useropindex: ind, flags: 0, kind }
    }

    pub fn new_unspecialized(nm: &str, ind: i32) -> (res: UserPcodeOp)
        ensures
            res.is(nm@, UserOpType::Unspecialized, ind, 0),
            res.kind == UserPcodeOpKind::Unspecialized,
    {
        UserPcodeOp::new(nm, UserOpType::Unspecialized, ind, UserPcodeOpKind::Unspecialized)
    }

    pub fn new_datatype(
        nm: &str,
        ind: i32,
        out: Option<TypeId>,
        in0: Option<TypeId>,
        in1: Option<TypeId>,
        in2: Option<TypeId>,
        in3: Option<TypeId>,
    ) -> (res: UserPcodeOp)
        ensures
            res.is(nm@, UserOpType::Datatype, ind, 0),
            res.kind matches UserPcodeOpKind::Datatype { out_type, in_types } && out_type == out && in_types@ == given(
                seq![in0, in1, in2, in3],
                4,
            ),
    {
        let mut in_types: Vec<Option<TypeId>> = Vec::new();
        let ghost list = seq![in0, in1, in2, in3];
        proof {
            reveal_with_fuel(given, 5);
            assert(list[0] == in0 && list[1] == in1 && list[2] == in2 && list[3] == in3);
        }
        if in0.is_some() {
            in_types.push(in0);
        }
        assert(in_types@ =~= given(list, 1));
        if in1.is_some() {
            in_types.push(in1);
        }
        assert(in_types@ =~= given(list, 2));
        if in2.is_some() {
            in_types.push(in2);
        }
        assert(in_types@ =~= given(list, 3));
        if in3.is_some() {
            in_types.push(in3);
        }
        assert(in_types@ =~= given(list, 4));
        UserPcodeOp::new(nm, UserOpType::Datatype, ind, UserPcodeOpKind::Datatype { out_type: out, in_types })
    }

    pub fn new_injected(nm: &str, ind: i32, injid: i32) -> (res: UserPcodeOp)
        ensures
            res.is(nm@, UserOpType::Injected, ind, 0),
            res.kind == (UserPcodeOpKind::Injected { injectid: injid as u32 }),
    {
        UserPcodeOp::new(nm, UserOpType::Injected, ind, UserPcodeOpKind::Injected { injectid: injid as u32 })
    }

    pub fn new_volatile_read(nm: &str, functional: bool) -> (res: UserPcodeOp)
        ensures
            res.is(
                nm@,
                UserOpType::VolatileRead,
                UserPcodeOp::BUILTIN_VOLATILE_READ as i32,
                if functional {
                    0
                } else {
                    UserPcodeOp::NO_OPERATOR
                },
            ),
            res.kind == UserPcodeOpKind::VolatileRead,
    {
        let mut res = UserPcodeOp::new(
            nm,
            UserOpType::VolatileRead,
            UserPcodeOp::BUILTIN_VOLATILE_READ as i32,
            UserPcodeOpKind::VolatileRead,
        );
        res.flags = if functional {
            0
        } else {
            UserPcodeOp::NO_OPERATOR
        };
        res
    }

    pub fn new_volatile_write(nm: &str, functional: bool) -> (res: UserPcodeOp)
        ensures
            res.is(
                nm@,
                UserOpType::VolatileWrite,
                UserPcodeOp::BUILTIN_VOLATILE_WRITE as i32,
                if functional {
                    0
                } else {
                    UserPcodeOp::ANNOTATION_ASSIGNMENT
                },
            ),
            res.kind == UserPcodeOpKind::VolatileWrite,
    {
        let mut res = UserPcodeOp::new(
            nm,
            UserOpType::VolatileWrite,
            UserPcodeOp::BUILTIN_VOLATILE_WRITE as i32,
            UserPcodeOpKind::VolatileWrite,
        );
        res.flags = if functional {
            0
        } else {
            UserPcodeOp::ANNOTATION_ASSIGNMENT
        };
        res
    }

    pub fn new_segment(nm: &str, ind: i32) -> (res: UserPcodeOp)
        ensures
            res.is(nm@, UserOpType::Segment, ind, 0),
            res.kind == UserPcodeOpKind::Segment(blank_segment()),
    {
        UserPcodeOp::new(nm, UserOpType::Segment, ind, UserPcodeOpKind::Segment(new_segment_data()))
    }

    pub fn new_jump_assist() -> (res: UserPcodeOp)
        ensures
            res.is(""@, UserOpType::Jumpassist, 0, 0),
            res.kind == UserPcodeOpKind::JumpAssist(blank_assist()),
    {
        UserPcodeOp::new("", UserOpType::Jumpassist, 0, UserPcodeOpKind::JumpAssist(new_assist_data()))
    }

    pub fn new_internal_string() -> (res: UserPcodeOp)
        ensures
            res.is(
                "stringdata"@,
                UserOpType::StringData,
                UserPcodeOp::BUILTIN_STRINGDATA as i32,
                UserPcodeOp::DISPLAY_STRING,
            ),
            res.kind == UserPcodeOpKind::InternalString,
    {
        let mut res = UserPcodeOp::new(
            "stringdata",
            UserOpType::StringData,
            UserPcodeOp::BUILTIN_STRINGDATA as i32,
            UserPcodeOpKind::InternalString,
        );
        res.flags = UserPcodeOp::DISPLAY_STRING;
        res
    }

    pub fn get_name(&self) -> (res: &str)
        ensures
            res@ == self.name@,
    {
        self.name.as_str()
    }

    pub fn get_type(&self) -> (res: UserOpType)
        ensures
            res == self.tp,
    {
        self.tp
    }

    pub fn get_index(&self) -> (res: i32)
        ensures
            res == self.useropindex,
    {
        self.useropindex
    }

    pub fn get_display(&self) -> (res: u32)
        ensures
            res == self.flags & (UserPcodeOp::ANNOTATION_ASSIGNMENT | UserPcodeOp::NO_OPERATOR
                | UserPcodeOp::DISPLAY_STRING),
    {
        self.flags & (UserPcodeOp::ANNOTATION_ASSIGNMENT | UserPcodeOp::NO_OPERATOR | UserPcodeOp::DISPLAY_STRING)
    }

    /// A name that ends in a size.
    pub open spec fn sized_name(base: Seq<char>, size: i32) -> Seq<char> {
        base.push('_') + crate::text::decimal(size as int)
    }

    pub fn append_size(base: &str, size: i32) -> (res: String)
        ensures
            res@ == UserPcodeOp::sized_name(base@, size),
    {
        let mut res = base.to_owned();
        res.push('_');
        push_decimal(&mut res, size as i64);
        res
    }

    /// The name that an operation is shown by.
    pub open spec fn shown_name(self, op: OpId, data: Funcdata) -> Seq<char> {
        let o = data.operation(op);
        match self.kind {
            UserPcodeOpKind::VolatileRead => match o.output {
                None => self.name@,
                Some(out) => UserPcodeOp::sized_name(self.name@, data.value(out).size),
            },
            UserPcodeOpKind::VolatileWrite => if o.inrefs@.len() < 3 {
                self.name@
            } else {
                UserPcodeOp::sized_name(self.name@, data.value(o.inrefs@[2]).size)
            },
            _ => self.name@,
        }
    }

    pub fn get_operator_name(&self, op: OpId, data: &Funcdata) -> (res: String)
        requires
            data.flowing(),
            data.has_op(op),
        ensures
            res@ == self.shown_name(op, *data),
    {
        match &self.kind {
            UserPcodeOpKind::VolatileRead => match data.op(op).get_out() {
                None => self.name.clone(),
                Some(out) => UserPcodeOp::append_size(self.name.as_str(), data.vn(out).get_size()),
            },
            UserPcodeOpKind::VolatileWrite => {
                let pcode_op = data.op(op);
                if pcode_op.num_input() < 3 {
                    return self.name.clone();
                }
                assert(data.has_vn(data.operation(op).inrefs@[2]));
                UserPcodeOp::append_size(self.name.as_str(), data.vn(pcode_op.get_in(2)).get_size())
            },
            _ => self.name.clone(),
        }
    }

    /// The data-type of what an operation writes, if the operation tells. That of a value
    /// that is read from an address is the one of the symbol there, if there is one.
    pub open spec fn output_type(self, op: OpId, data: Funcdata, at_address: Option<TypeId>) -> Option<TypeId> {
        let o = data.operation(op);
        match self.kind {
            UserPcodeOpKind::Datatype { out_type, in_types } => out_type,
            UserPcodeOpKind::VolatileRead => if (o.addlflags & PcodeOp::SPECIAL_PROP) != 0 {
                at_address
            } else {
                None
            },
            UserPcodeOpKind::InternalString => Some(data.value(o.output->0).tp),
            _ => None,
        }
    }

    pub fn get_output_local(&self, op: OpId, data: &Funcdata, at_address: Option<TypeId>) -> (res: Option<TypeId>)
        requires
            data.flowing(),
            data.has_op(op),
            self.kind is InternalString ==> data.operation(op).output is Some,
        ensures
            res == self.output_type(op, *data, at_address),
    {
        match &self.kind {
            UserPcodeOpKind::Datatype { out_type, in_types: _ } => *out_type,
            UserPcodeOpKind::VolatileRead => {
                if !data.op(op).does_special_propagation() {
                    return None;
                }
                at_address
            },
            UserPcodeOpKind::InternalString => {
                let out = data.op(op).get_out().unwrap();
                Some(data.vn(out).get_type())
            },
            _ => None,
        }
    }

    /// The data-type of what an operation reads, if the operation tells.
    pub open spec fn input_type(self, op: OpId, slot: i32, data: Funcdata, at_address: Option<TypeId>) -> Option<TypeId> {
        match self.kind {
            UserPcodeOpKind::Datatype { out_type, in_types } => if 1 <= slot <= in_types@.len() {
                in_types@[slot - 1]
            } else {
                None
            },
            UserPcodeOpKind::VolatileWrite => if (data.operation(op).addlflags & PcodeOp::SPECIAL_PROP) != 0 && slot == 2 {
                at_address
            } else {
                None
            },
            _ => None,
        }
    }

    pub fn get_input_local(&self, op: OpId, slot: i32, data: &Funcdata, at_address: Option<TypeId>) -> (res: Option<TypeId>)
        requires
            data.has_op(op),
        ensures
            res == self.input_type(op, slot, *data, at_address),
    {
        match &self.kind {
            UserPcodeOpKind::Datatype { out_type: _, in_types } => {
                if slot >= 1 && (slot as usize) <= in_types.len() {
                    return in_types[slot as usize - 1];
                }
                None
            },
            UserPcodeOpKind::VolatileWrite => {
                if !data.op(op).does_special_propagation() || slot != 2 {
                    return None;
                }
                at_address
            },
            _ => None,
        }
    }

    pub fn extract_annotation_size(&self, _vn: VarnodeId, op: OpId, data: &Funcdata) -> (res: Result<i32>)
        requires
            data.flowing(),
            data.has_op(op),
            self.kind is VolatileWrite ==> data.operation(op).inrefs@.len() > 2,
        ensures
            match self.kind {
                UserPcodeOpKind::VolatileRead => res == Ok::<i32, Error>(
                    match data.operation(op).output {
                        Some(out) => data.value(out).size,
                        None => 1,
                    },
                ),
                UserPcodeOpKind::VolatileWrite => res == Ok::<i32, Error>(
                    data.value(data.operation(op).inrefs@[2]).size,
                ),
                _ => res matches Err(e) && e.is_lowlevel("Unexpected annotation input for CALLOTHER "@ + self.name@),
            },
    {
        match &self.kind {
            UserPcodeOpKind::VolatileRead => match data.op(op).get_out() {
                Some(outvn) => Ok(data.vn(outvn).get_size()),
                None => Ok(1),
            },
            UserPcodeOpKind::VolatileWrite => {
                assert(data.has_vn(data.operation(op).inrefs@[2]));
                Ok(data.vn(data.op(op).get_in(2)).get_size())
            },
            _ => Err(error_with("Unexpected annotation input for CALLOTHER ", self.name.as_str())),
        }
    }

    pub fn get_inject_id(&self) -> (res: u32)
        requires
            self.kind is Injected,
        ensures
            res == self.kind->injectid,
    {
        match &self.kind {
            UserPcodeOpKind::Injected { injectid } => *injectid,
            _ => vstd::pervasive::unreached(),
        }
    }

    pub open spec fn segment(self) -> Option<SegmentOpData> {
        match self.kind {
            UserPcodeOpKind::Segment(segment) => Some(segment),
            _ => None,
        }
    }

    pub fn as_segment(&self) -> (res: Option<&SegmentOpData>)
        ensures
            match res {
                Some(segment) => self.segment() == Some(*segment),
                None => self.segment() is None,
            },
    {
        match &self.kind {
            UserPcodeOpKind::Segment(segment) => Some(segment),
            _ => None,
        }
    }

    /// Says which code an emulator runs for this operation, and on what.
    pub fn execute(&self, input: &[u64]) -> (res: ExecuteRequest)
        requires
            self.segment() is Some,
        ensures
            res.inject_id == self.segment()->0.inject_id,
            res.input@ == input@,
    {
        let mut values: Vec<u64> = Vec::new();
        let mut i: usize = 0;
        while i < input.len()
            invariant
                i <= input@.len(),
                values@ == input@.take(i as int),
            decreases input@.len() - i,
        {
            values.push(input[i]);
            i = i + 1;
            assert(input@.take(i as int) =~= input@.take(i - 1).push(input@[i - 1]));
        }
        assert(input@.take(i as int) =~= input@);
        let inject_id: i32 = self.as_segment().unwrap().inject_id;
        ExecuteRequest { inject_id, input: values }
    }

    pub fn as_jump_assist(&self) -> (res: Option<&JumpAssistData>)
        ensures
            match res {
                Some(assist) => self.kind == UserPcodeOpKind::JumpAssist(*assist),
                None => !(self.kind is JumpAssist),
            },
    {
        match &self.kind {
            UserPcodeOpKind::JumpAssist(assist) => Some(assist),
            _ => None,
        }
    }

    pub fn get_num_variable_terms(&self) -> (res: i32)
        requires
            self.kind is Segment,
        ensures
            res == (if self.kind->Segment_0.baseinsize != 0 {
                2i32
            } else {
                1i32
            }),
    {
        match &self.kind {
            UserPcodeOpKind::Segment(segment) => if segment.baseinsize != 0 {
                2
            } else {
                1
            },
            _ => vstd::pervasive::unreached(),
        }
    }

    /// What an operation binds the terms of a segment to: a value, or a constant of a size that stands for it.
    pub open spec fn bound(vn: VarnodeId, size: i32, data: Funcdata) -> Binding {
        if data.value(vn).flag(Varnode::CONSTANT) {
            Binding::Constant(size, data.value(vn).loc.offset)
        } else {
            Binding::Value(vn)
        }
    }

    fn bind(vn: VarnodeId, size: i32, data: &Funcdata) -> (res: Binding)
        requires
            data.has_vn(vn),
        ensures
            res == UserPcodeOp::bound(vn, size, *data),
    {
        if data.vn(vn).is_constant() {
            Binding::Constant(size, data.vn(vn).get_offset())
        } else {
            Binding::Value(vn)
        }
    }

    /// Whether an operation is the one that puts a segment and an offset together.
    pub open spec fn unifies(self, op: OpId, data: Funcdata) -> bool {
        let o = data.operation(op);
        &&& o.opcode == OpCode::Callother
        &&& o.inrefs@.len() == 3
        &&& data.value(o.inrefs@[0]).loc.offset == (self.useropindex as i64) as u64
    }

    /// The segment and the offset that an operation puts together, if it is the one that does.
    pub fn unify(&self, data: &Funcdata, op: OpId) -> (res: Option<(Option<Binding>, Binding)>)
        requires
            self.kind is Segment,
            data.flowing(),
            data.has_op(op),
            data.operation(op).opcode == OpCode::Callother ==> data.operation(op).inrefs@.len() >= 1,
        ensures
            ({
                let segment = self.kind->Segment_0;
                let o = data.operation(op);
                res == (if !self.unifies(op, *data) {
                    None
                } else if segment.baseinsize != 0 {
                    Some(
                        (
                            Some(UserPcodeOp::bound(o.inrefs@[1], segment.baseinsize, *data)),
                            UserPcodeOp::bound(o.inrefs@[2], segment.innerinsize, *data),
                        ),
                    )
                } else {
                    Some((None, UserPcodeOp::bound(o.inrefs@[1], segment.innerinsize, *data)))
                })
            }),
    {
        let UserPcodeOpKind::Segment(segment) = &self.kind else {
            return vstd::pervasive::unreached();
        };
        if data.op(op).code() != OpCode::Callother {
            return None;
        }
        assert(data.has_vn(data.operation(op).inrefs@[0]));
        if data.vn(data.op(op).get_in(0)).get_offset() != self.useropindex as i64 as u64 {
            return None;
        }
        if data.op(op).num_input() != 3 {
            return None;
        }
        assert(data.has_vn(data.operation(op).inrefs@[1]));
        assert(data.has_vn(data.operation(op).inrefs@[2]));
        let first = data.op(op).get_in(1);
        if segment.baseinsize != 0 {
            let second = data.op(op).get_in(2);
            Some(
                (
                    Some(UserPcodeOp::bind(first, segment.baseinsize, data)),
                    UserPcodeOp::bind(second, segment.innerinsize, data),
                ),
            )
        } else {
            Some((None, UserPcodeOp::bind(first, segment.innerinsize, data)))
        }
    }
}

/// What a term stands for: a value of the function, or a constant that has to be made.
#[derive(Copy, Clone, Debug, PartialEq, Eq, Structural)]
pub enum Binding {
    Value(VarnodeId),
    Constant(i32, u64),
}

pub open spec fn blank_segment() -> SegmentOpData {
    SegmentOpData {
        spc: None,
        inject_id: -1i32,
        baseinsize: 0,
        innerinsize: 0,
        supportsfarpointer: false,
        constresolve: VarnodeData { space: None, offset: 0, size: 0 },
    }
}

fn new_segment_data() -> (res: SegmentOpData)
    ensures
        res == blank_segment(),
{
    SegmentOpData {
        spc: None,
        inject_id: -1,
        baseinsize: 0,
        innerinsize: 0,
        supportsfarpointer: false,
        constresolve: VarnodeData { space: None, offset: 0, size: 0 },
    }
}

pub open spec fn blank_assist() -> JumpAssistData {
    JumpAssistData { index2case: -1i32, index2addr: -1i32, defaultaddr: -1i32, calcsize: -1i32 }
}

fn new_assist_data() -> (res: JumpAssistData)
    ensures
        res == blank_assist(),
{
    JumpAssistData { index2case: -1, index2addr: -1, defaultaddr: -1, calcsize: -1 }
}

/// An error whose text ends in a name.
pub fn error_with(text: &str, name: &str) -> (res: Error)
    ensures
        res.is_lowlevel(text@ + name@),
{
    let mut out = text.to_owned();
    out.push_str(name);
    Error::Lowlevel(out)
}

/// All operations that are defined: those of the processor by number, those that are
/// built in, and those that make addresses by space.
#[derive(Debug)]
pub struct UserOpManage {
    pub useroplist: Vec<Option<Arc<UserPcodeOp>>>,
    pub builtinmap: Vec<(u32, Arc<UserPcodeOp>)>,
    pub segmentop: Vec<Option<Arc<UserPcodeOp>>>,
}

/// The first operation with a name, from a place on.
pub open spec fn named_from(list: Seq<Option<Arc<UserPcodeOp>>>, nm: Seq<char>, i: nat) -> Option<Arc<UserPcodeOp>>
    decreases list.len() - i,
{
    if i >= list.len() {
        None
    } else if list[i as int] is Some && list[i as int]->0.name@ == nm {
        list[i as int]
    } else {
        named_from(list, nm, i + 1)
    }
}

/// The first operation with a number among those that are built in, from a place on.
pub open spec fn builtin_from(list: Seq<(u32, Arc<UserPcodeOp>)>, index: u32, i: nat) -> Option<Arc<UserPcodeOp>>
    decreases list.len() - i,
{
    if i >= list.len() {
        None
    } else if list[i as int].0 == index {
        Some(list[i as int].1)
    } else {
        builtin_from(list, index, i + 1)
    }
}

/// A list that reaches up to a place.
pub open spec fn stretched(list: Seq<Option<Arc<UserPcodeOp>>>, n: nat) -> Seq<Option<Arc<UserPcodeOp>>> {
    Seq::new(
        if n > list.len() {
            n
        } else {
            list.len()
        },
        |k: int|
            if k < list.len() {
                list[k]
            } else {
                None
            },
    )
}

fn stretch(list: &mut Vec<Option<Arc<UserPcodeOp>>>, n: usize)
    ensures
        final(list)@ == stretched(old(list)@, n as nat),
{
    let ghost before = list@;
    while list.len() < n
        invariant
            list@.len() >= before.len(),
            list@.len() > before.len() ==> list@.len() <= n,
            forall|k: int| #![trigger list@[k]]
                0 <= k < list@.len() ==> list@[k] == (if k < before.len() {
                    before[k]
                } else {
                    None
                }),
        decreases n - list@.len(),
    {
        list.push(None);
    }
    assert(list@ =~= stretched(before, n as nat));
}

/// What registering an operation does.
pub open spec fn registers(after: UserOpManage, before: UserOpManage, op: UserPcodeOp, res: Result<()>) -> bool {
    let ind = op.useropindex;
    let same = named_from(before.useroplist@, op.name@, 0);
    let grown = stretched(before.useroplist@, (ind + 1) as nat);
    let existing = grown[ind as int];
    &&& after.builtinmap == before.builtinmap
    &&& if ind < 0 {
        after == before && (res matches Err(e) && e.is_lowlevel("UserOp not assigned an index"@))
    } else if same is Some && same->0.useropindex != ind {
        after == before && (res matches Err(e) && e.is_lowlevel("Conflicting indices for userop name "@ + op.name@))
    } else if existing is Some && existing->0.name@ != op.name@ {
        &&& after.useroplist@ == grown
        &&& after.segmentop == before.segmentop
        &&& res matches Err(e) && e.is_lowlevel(
            "User op "@ + op.name@ + " has same index as "@ + existing->0.name@,
        )
    } else {
        &&& after.useroplist@ == grown.update(ind as int, Some(Arc::new(op)))
        &&& match op.segment() {
            Some(segment) => registers_segment(after, before, segment, op, res),
            None => after.segmentop == before.segmentop && res == Ok::<(), Error>(()),
        }
    }
}

/// What registering an operation for a space does.
pub open spec fn registers_segment(
    after: UserOpManage,
    before: UserOpManage,
    segment: SegmentOpData,
    op: UserPcodeOp,
    res: Result<()>,
) -> bool {
    match segment.spc {
        None => after.segmentop == before.segmentop && (res matches Err(e) && e.is_lowlevel(
            "<segmentop> expecting space attribute"@,
        )),
        Some(spc) => {
            let grown = stretched(before.segmentop@, (spc.index + 1) as nat);
            if grown[spc.index as int] is Some {
                after.segmentop@ == grown && (res matches Err(e) && e.is_lowlevel(
                    "Multiple segmentops defined for same space"@,
                ))
            } else {
                after.segmentop@ == grown.update(spc.index as int, Some(Arc::new(op))) && res == Ok::<(), Error>(())
            }
        },
    }
}

/// What is asked of an operation that is registered: its space has a number.
pub open spec fn registrable(op: UserPcodeOp) -> bool {
    op.segment() matches Some(segment) ==> segment.spc matches Some(spc) ==> 0 <= spc.index < i32::MAX
}

impl UserOpManage {
    pub fn new() -> (res: UserOpManage)
        ensures
            res.useroplist@.len() == 0,
            res.builtinmap@.len() == 0,
            res.segmentop@.len() == 0,
    {
        UserOpManage { useroplist: Vec::new(), builtinmap: Vec::new(), segmentop: Vec::new() }
    }

    pub fn register_op(&mut self, op: UserPcodeOp) -> (res: Result<()>)
        requires
            registrable(op),
            op.useropindex < i32::MAX,
        ensures
            registers(*final(self), *old(self), op, res),
    {
        let ghost before = *self;
        let ind: i32 = op.get_index();
        if ind < 0 {
            return Err(Error::lowlevel("UserOp not assigned an index"));
        }
        if let Some(other) = self.get_op_by_name(op.get_name()) {
            if other.get_index() != ind {
                return Err(error_with("Conflicting indices for userop name ", op.get_name()));
            }
        }
        stretch(&mut self.useroplist, ind as usize + 1);
        let ghost grown = self.useroplist@;
        if let Some(existing) = &self.useroplist[ind as usize] {
            if !same_text(existing.get_name(), op.get_name()) {
                let mut text = "User op ".to_owned();
                text.push_str(op.get_name());
                text.push_str(" has same index as ");
                text.push_str(existing.get_name());
                return Err(Error::Lowlevel(text));
            }
        }
        let op = Arc::new(op);
        self.useroplist.set(ind as usize, Some(op.clone()));
        if let Some(segment) = op.as_segment() {
            let Some(spc) = segment.get_space() else {
                return Err(Error::lowlevel("<segmentop> expecting space attribute"));
            };
            let index: usize = spc.get_index() as usize;
            stretch(&mut self.segmentop, index + 1);
            if self.segmentop[index].is_some() {
                return Err(Error::lowlevel("Multiple segmentops defined for same space"));
            }
            self.segmentop.set(index, Some(op.clone()));
        }
        Ok(())
    }

    pub fn num_segment_ops(&self) -> (res: i32)
        requires
            self.segmentop@.len() <= i32::MAX,
        ensures
            res == self.segmentop@.len(),
    {
        self.segmentop.len() as i32
    }

    /// The operation with a number.
    pub open spec fn op_at(self, index: u32) -> Option<Arc<UserPcodeOp>> {
        if index < self.useroplist@.len() {
            self.useroplist@[index as int]
        } else {
            builtin_from(self.builtinmap@, index, 0)
        }
    }

    pub fn find_builtin(&self, index: u32) -> (res: Option<&Arc<UserPcodeOp>>)
        ensures
            match res {
                Some(op) => builtin_from(self.builtinmap@, index, 0) == Some(*op),
                None => builtin_from(self.builtinmap@, index, 0) is None,
            },
    {
        let mut i: usize = 0;
        while i < self.builtinmap.len()
            invariant
                i <= self.builtinmap@.len(),
                builtin_from(self.builtinmap@, index, i as nat) == builtin_from(self.builtinmap@, index, 0),
            decreases self.builtinmap@.len() - i,
        {
            if self.builtinmap[i].0 == index {
                return Some(&self.builtinmap[i].1);
            }
            i = i + 1;
        }
        None
    }

    pub fn get_op(&self, index: u32) -> (res: Option<&Arc<UserPcodeOp>>)
        ensures
            match res {
                Some(op) => self.op_at(index) == Some(*op),
                None => self.op_at(index) is None,
            },
    {
        if (index as usize) < self.useroplist.len() {
            return self.useroplist[index as usize].as_ref();
        }
        self.find_builtin(index)
    }

    pub fn get_op_by_name(&self, nm: &str) -> (res: Option<&Arc<UserPcodeOp>>)
        ensures
            match res {
                Some(op) => named_from(self.useroplist@, nm@, 0) == Some(*op),
                None => named_from(self.useroplist@, nm@, 0) is None,
            },
    {
        let mut i: usize = 0;
        while i < self.useroplist.len()
            invariant
                i <= self.useroplist@.len(),
                named_from(self.useroplist@, nm@, i as nat) == named_from(self.useroplist@, nm@, 0),
            decreases self.useroplist@.len() - i,
        {
            if let Some(op) = &self.useroplist[i] {
                if same_text(op.get_name(), nm) {
                    return Some(op);
                }
            }
            i = i + 1;
        }
        None
    }

    pub fn get_segment_op(&self, index: i32) -> (res: Option<&Arc<UserPcodeOp>>)
        ensures
            match res {
                Some(op) => 0 <= index < self.segmentop@.len() && self.segmentop@[index as int] == Some(*op),
                None => !(0 <= index < self.segmentop@.len()) || self.segmentop@[index as int] is None,
            },
    {
        if index < 0 || index as usize >= self.segmentop.len() {
            return None;
        }
        self.segmentop[index as usize].as_ref()
    }
}

} // verus!

//! What the kinds of operations have in common, and how they treat data-types.
pub mod cast;
pub mod local;
pub mod ops;
pub mod print;
pub mod propagate;
pub mod spread;
pub mod table;
pub mod token;

use vstd::prelude::*;
use crate::architecture::Architecture;
use crate::cpool::ConstantPool;
use crate::error::{Error, Result};
use crate::funcdata::Funcdata;
use crate::ids::{OpId, TypeId, VarnodeId};
use crate::op::PcodeOp;
use crate::opbehavior::{Evaluation, OpBehavior};
use crate::opcodes::OpCode;
use crate::typeop::cast::{CastPlan, Facing};
use crate::typeop::token::TokenPlan;
use crate::types::{TypeFactory, TypeMetatype};
use crate::userop::UserOpManage;

verus! {

/// The output has the sign of the inputs.
pub const INHERITS_SIGN: u32 = 1;

/// Only the first input counts for the sign.
pub const INHERITS_SIGN_ZERO: u32 = 2;

pub const SHIFT_OP: u32 = 4;

pub const ARITHMETIC_OP: u32 = 8;

pub const LOGICAL_OP: u32 = 0x10;

pub const FLOATINGPOINT_OP: u32 = 0x20;

/// What every kind of operation has.
#[derive(Debug)]
pub struct TypeOpBase {
    pub opcode: OpCode,
    pub opflags: u32,
    pub addlflags: u32,
    pub name: String,
    pub behave: Option<OpBehavior>,
}

/// The classes of what an operation writes and reads.
#[derive(Copy, Clone, Debug, PartialEq, Eq, Structural)]
pub struct TypeOpMeta {
    pub metaout: TypeMetatype,
    pub metain: TypeMetatype,
}

/// What is known of a kind of operation.
pub ghost struct OpFacts {
    pub opcode: OpCode,
    pub opflags: u32,
    pub addlflags: u32,
    pub name: Seq<char>,
    pub behave: Option<OpBehavior>,
    pub meta: Option<TypeOpMeta>,
    pub near: i32,
    pub far: i32,
}

impl TypeOpBase {
    pub fn new(opc: OpCode, name: &str) -> (res: TypeOpBase)
        ensures
            res.facts_with(None, 0, 0) == (OpFacts {
                opcode: opc,
                opflags: 0,
                addlflags: 0,
                name: name@,
                behave: None,
                meta: None,
                near: 0,
                far: 0,
            }),
    {
        TypeOpBase { opcode: opc, opflags: 0, addlflags: 0, name: name.to_string(), behave: None }
    }

    pub fn with_behavior(opc: OpCode, name: &str, opflags: u32, addlflags: u32, behave: OpBehavior) -> (res: TypeOpBase)
        ensures
            res.opcode == opc,
            res.opflags == opflags,
            res.addlflags == addlflags,
            res.name@ == name@,
            res.behave == Some(behave),
    {
        let mut base = TypeOpBase::new(opc, name);
        base.opflags = opflags;
        base.addlflags = addlflags;
        base.behave = Some(behave);
        base
    }

    pub open spec fn facts_with(self, meta: Option<TypeOpMeta>, near: i32, far: i32) -> OpFacts {
        OpFacts {
            opcode: self.opcode,
            opflags: self.opflags,
            addlflags: self.addlflags,
            name: self.name@,
            behave: self.behave,
            meta,
            near,
            far,
        }
    }
}

impl TypeOpMeta {
    pub fn new(mout: TypeMetatype, min: TypeMetatype) -> (res: TypeOpMeta)
        ensures
            res == (TypeOpMeta { metaout: mout, metain: min }),
    {
        TypeOpMeta { metaout: mout, metain: min }
    }
}

impl TypeFactory {
    /// Bytes in a near pointer. Where no pointer is far, none is near.
    pub open spec fn near_size(self) -> i32 {
        if self.size_of_alt_pointer != 0 {
            self.size_of_pointer
        } else {
            0
        }
    }
}

/// A kind of operation.
pub trait TypeOp: Sized {
    spec fn facts(&self) -> OpFacts;

    fn base(&self) -> (res: &TypeOpBase)
        ensures
            res.facts_with(self.facts().meta, self.facts().near, self.facts().far) == self.facts(),
    ;

    fn base_mut(&mut self) -> (res: &mut TypeOpBase)
        ensures
            res.facts_with(old(self).facts().meta, old(self).facts().near, old(self).facts().far) == old(self).facts(),
            final(self).facts() == final(res).facts_with(
                old(self).facts().meta,
                old(self).facts().near,
                old(self).facts().far,
            ),
    ;

    fn meta(&self) -> (res: Option<TypeOpMeta>)
        ensures
            res == self.facts().meta,
    ;

    fn pointer_sizes(&self) -> (res: (i32, i32))
        ensures
            res == (self.facts().near, self.facts().far),
    ;

    /// Changes the class of what is read, if there is one.
    fn set_metatype_in(&mut self, val: TypeMetatype)
        ensures
            final(self).facts() == (OpFacts {
                meta: match old(self).facts().meta {
                    Some(meta) => Some(TypeOpMeta { metain: val, ..meta }),
                    None => None,
                },
                ..old(self).facts()
            }),
    ;

    /// Changes the class of what is written, if there is one.
    fn set_metatype_out(&mut self, val: TypeMetatype)
        ensures
            final(self).facts() == (OpFacts {
                meta: match old(self).facts().meta {
                    Some(meta) => Some(TypeOpMeta { metaout: val, ..meta }),
                    None => None,
                },
                ..old(self).facts()
            }),
    ;

    /// The kind of operation as one of many.
    fn into_record(self) -> (res: TypeOpRecord)
        ensures
            res.base.facts_with(res.meta, res.near_pointer_size, res.far_pointer_size) == self.facts(),
    ;

    fn set_symbol(&mut self, nm: &str)
        ensures
            final(self).facts() == (OpFacts { name: nm@, ..old(self).facts() }),
    {
        self.base_mut().name = nm.to_string();
    }

    fn get_name(&self) -> (res: &str)
        ensures
            res@ == self.facts().name,
    {
        self.base().name.as_str()
    }

    fn get_opcode(&self) -> (res: OpCode)
        ensures
            res == self.facts().opcode,
    {
        self.base().opcode
    }

    fn get_flags(&self) -> (res: u32)
        ensures
            res == self.facts().opflags,
    {
        self.base().opflags
    }

    fn get_behavior(&self) -> (res: Option<OpBehavior>)
        ensures
            res == self.facts().behave,
    {
        self.base().behave
    }

    fn evaluate_unary(&self, sizeout: i32, sizein: i32, in1: u64) -> (res: Result<Evaluation>)
        requires
            self.facts().behave is Some,
        ensures
            self.facts().behave->0.unary_value(sizeout, sizein, in1).evaluated(res),
    {
        self.base().behave.unwrap().evaluate_unary(sizeout, sizein, in1)
    }

    fn evaluate_binary(&self, sizeout: i32, sizein: i32, in1: u64, in2: u64) -> (res: Result<Evaluation>)
        requires
            self.facts().behave is Some,
        ensures
            self.facts().behave->0.binary_value(sizeout, sizein, in1, in2).evaluated(res),
    {
        self.base().behave.unwrap().evaluate_binary(sizeout, sizein, in1, in2)
    }

    fn evaluate_ternary(&self, sizeout: i32, sizein: i32, in1: u64, in2: u64, in3: u64) -> (res: Result<Evaluation>)
        requires
            self.facts().behave is Some,
        ensures
            self.facts().behave->0.ternary_value(sizeout, in1, in2, in3).evaluated(res),
    {
        self.base().behave.unwrap().evaluate_ternary(sizeout, sizein, in1, in2, in3)
    }

    fn recover_input_binary(&self, slot: i32, sizeout: i32, out: u64, sizein: i32, input: u64) -> (res: Result<u64>)
        requires
            self.facts().behave is Some,
        ensures
            self.facts().behave->0.other_input(slot, sizeout, out, sizein, input).recovered(res),
    {
        self.base().behave.unwrap().recover_input_binary(slot, sizeout, out, sizein, input)
    }

    fn recover_input_unary(&self, sizeout: i32, out: u64, sizein: i32) -> (res: Result<u64>)
        requires
            self.facts().behave is Some,
        ensures
            self.facts().behave->0.only_input(sizeout, out, sizein).recovered(res),
    {
        self.base().behave.unwrap().recover_input_unary(sizeout, out, sizein)
    }

    fn is_commutative(&self) -> (res: bool)
        ensures
            res == ((self.facts().opflags & PcodeOp::COMMUTATIVE) != 0),
    {
        (self.base().opflags & PcodeOp::COMMUTATIVE) != 0
    }

    fn inherits_sign(&self) -> (res: bool)
        ensures
            res == ((self.facts().addlflags & INHERITS_SIGN) != 0),
    {
        (self.base().addlflags & INHERITS_SIGN) != 0
    }

    fn inherits_sign_first_param_only(&self) -> (res: bool)
        ensures
            res == ((self.facts().addlflags & INHERITS_SIGN_ZERO) != 0),
    {
        (self.base().addlflags & INHERITS_SIGN_ZERO) != 0
    }

    fn is_shift_op(&self) -> (res: bool)
        ensures
            res == ((self.facts().addlflags & SHIFT_OP) != 0),
    {
        (self.base().addlflags & SHIFT_OP) != 0
    }

    fn is_arithmetic_op(&self) -> (res: bool)
        ensures
            res == ((self.facts().addlflags & ARITHMETIC_OP) != 0),
    {
        (self.base().addlflags & ARITHMETIC_OP) != 0
    }

    fn is_logical_op(&self) -> (res: bool)
        ensures
            res == ((self.facts().addlflags & LOGICAL_OP) != 0),
    {
        (self.base().addlflags & LOGICAL_OP) != 0
    }

    fn is_floating_point_op(&self) -> (res: bool)
        ensures
            res == ((self.facts().addlflags & FLOATINGPOINT_OP) != 0),
    {
        (self.base().addlflags & FLOATINGPOINT_OP) != 0
    }

    /// The data-type that the operation wants for what it writes.
    fn get_output_local(
        &self,
        op: OpId,
        data: &Funcdata,
        glb: &mut Architecture,
        userops: &UserOpManage,
        cpool: &ConstantPool,
        at_address: Option<TypeId>,
    ) -> (res: Result<TypeId>)
        requires
            crate::typeop::local::wishes(self.facts().opcode, self.facts().meta, op, *data, *old(glb)),
            data.operation(op).output is Some,
        ensures
            final(glb).grew(*old(glb)),
            crate::typeop::local::gives_output(
                *final(glb),
                *old(glb),
                self.facts().opcode,
                self.facts().meta,
                op,
                *data,
                *userops,
                *cpool,
                at_address,
                res,
            ),
    {
        crate::typeop::local::get_output_local(
            self.base().opcode,
            self.meta(),
            op,
            data,
            glb,
            userops,
            cpool,
            at_address,
        )
    }

    /// The data-type that the operation wants for what it reads.
    fn get_input_local(
        &self,
        op: OpId,
        slot: i32,
        data: &Funcdata,
        glb: &mut Architecture,
        userops: &UserOpManage,
        at_address: Option<TypeId>,
    ) -> (res: Result<TypeId>)
        requires
            crate::typeop::local::wishes(self.facts().opcode, self.facts().meta, op, *data, *old(glb)),
            0 <= slot < data.operation(op).inrefs@.len(),
            crate::typeop::local::points_to_code(self.facts().opcode, op, slot, *data),
        ensures
            final(glb).grew(*old(glb)),
            crate::typeop::local::gives_input(
                *final(glb),
                *old(glb),
                self.facts().opcode,
                self.facts().meta,
                op,
                slot,
                *data,
                *userops,
                at_address,
                res,
            ),
    {
        crate::typeop::local::get_input_local(
            self.base().opcode,
            self.meta(),
            op,
            slot,
            data,
            glb,
            userops,
            at_address,
        )
    }

    /// The data-type of the outcome, as far as the language does not decide.
    fn get_output_token(
        &self,
        op: OpId,
        facing: &Facing,
        data: &Funcdata,
        glb: &mut Architecture,
        userops: &UserOpManage,
        cpool: &ConstantPool,
        at_address: Option<TypeId>,
    ) -> (res: Result<TokenPlan>)
        requires
            crate::typeop::token::token_asked(self.facts().opcode, self.facts().meta, op, *facing, *data, *old(glb)),
        ensures
            final(glb).grew(*old(glb)),
            crate::typeop::token::tokens(
                *final(glb),
                *old(glb),
                self.facts().opcode,
                self.facts().meta,
                op,
                *facing,
                *data,
                *userops,
                *cpool,
                at_address,
                res,
            ),
    {
        crate::typeop::token::get_output_token(
            self.base().opcode,
            self.meta(),
            op,
            facing,
            data,
            glb,
            userops,
            cpool,
            at_address,
        )
    }

    /// Whether what is read has to be cast, as far as the language does not decide.
    fn get_input_cast(
        &self,
        op: OpId,
        slot: i32,
        facing: &Facing,
        data: &Funcdata,
        glb: &mut Architecture,
        userops: &UserOpManage,
        at_address: Option<TypeId>,
    ) -> (res: Result<CastPlan>)
        requires
            crate::typeop::cast::cast_asked(
                self.facts().opcode,
                self.facts().meta,
                op,
                slot,
                *facing,
                *data,
                *old(glb),
            ),
        ensures
            final(glb).grew(*old(glb)),
            crate::typeop::cast::plans(
                *final(glb),
                *old(glb),
                self.facts().opcode,
                self.facts().meta,
                op,
                slot,
                *facing,
                *data,
                *userops,
                at_address,
                res,
            ),
    {
        crate::typeop::cast::get_input_cast(
            self.base().opcode,
            self.meta(),
            op,
            slot,
            facing,
            data,
            glb,
            userops,
            at_address,
        )
    }

    /// Spreads a data-type from one value of the operation to another.
    fn propagate_type(
        &self,
        alttype: TypeId,
        op: OpId,
        invn: VarnodeId,
        outvn: VarnodeId,
        inslot: i32,
        outslot: i32,
        data: &mut Funcdata,
        glb: &mut Architecture,
    ) -> (res: Result<Option<TypeId>>)
        requires
            crate::typeop::spread::spreadable(
                *old(data),
                *old(glb),
                self.facts().opcode,
                self.facts().near,
                self.facts().far,
                alttype,
                op,
                invn,
                outvn,
                inslot,
                outslot,
            ),
        ensures
            final(glb).grew(*old(glb)),
            crate::typeop::spread::spreads(
                *final(data),
                *final(glb),
                *old(data),
                *old(glb),
                self.facts().opcode,
                self.facts().near,
                self.facts().far,
                alttype,
                op,
                invn,
                outvn,
                inslot,
                outslot,
                res,
            ),
    {
        let (near, far) = self.pointer_sizes();
        crate::typeop::spread::propagate_type(
            self.base().opcode,
            near,
            far,
            alttype,
            op,
            invn,
            outvn,
            inslot,
            outslot,
            data,
            glb,
        )
    }

    /// What a language is asked to print. Only extensions depend on what reads them.
    fn push_request(&self, op: OpId, read_op: Option<OpId>) -> (res: PrintRequest)
        ensures
            res == (PrintRequest {
                opcode: self.facts().opcode,
                op,
                reader: if self.facts().opcode == OpCode::IntZext || self.facts().opcode == OpCode::IntSext {
                    read_op
                } else {
                    None
                },
            }),
    {
        let opcode = self.base().opcode;
        let reader = if opcode == OpCode::IntZext || opcode == OpCode::IntSext {
            read_op
        } else {
            None
        };
        PrintRequest { opcode, op, reader }
    }

    /// Prints an operation.
    fn print_raw(
        &self,
        out: &mut String,
        op: OpId,
        data: &Funcdata,
        glb: &Architecture,
        userops: &UserOpManage,
        cpool: &ConstantPool,
    )
        requires
            crate::typeop::print::printable(self.facts().opcode, op, *data, *glb),
        ensures
            final(out)@ == old(out)@ + crate::typeop::print::all_joined(
                crate::typeop::print::printed_parts(
                    self.facts().opcode,
                    self.facts().name,
                    op,
                    *data,
                    *glb,
                    *userops,
                    *cpool,
                ),
            ),
    {
        crate::typeop::print::print_raw(
            self.base().opcode,
            self.base().name.as_str(),
            out,
            op,
            data,
            glb,
            userops,
            cpool,
        );
    }

    fn get_operator_name(&self, op: OpId, data: &Funcdata, userops: &UserOpManage) -> (res: String)
        requires
            data.flowing(),
            data.has_op(op),
            crate::typeop::print::nameable(self.facts().opcode, op, *data),
        ensures
            res@ == crate::typeop::print::operator_name(self.facts().opcode, self.facts().name, op, *data, *userops),
    {
        crate::typeop::print::get_operator_name(self.base().opcode, self.base().name.as_str(), op, data, userops)
    }
}

/// An operation that a language prints, with the operation that reads it where that counts.
#[derive(Copy, Clone, Debug, PartialEq, Eq, Structural)]
pub struct PrintRequest {
    pub opcode: OpCode,
    pub op: OpId,
    pub reader: Option<OpId>,
}

/// A kind of operation as one of many.
#[derive(Debug)]
pub struct TypeOpRecord {
    pub base: TypeOpBase,
    pub meta: Option<TypeOpMeta>,
    pub near_pointer_size: i32,
    pub far_pointer_size: i32,
}

impl TypeOp for TypeOpRecord {
    open spec fn facts(&self) -> OpFacts {
        self.base.facts_with(self.meta, self.near_pointer_size, self.far_pointer_size)
    }

    fn base(&self) -> (res: &TypeOpBase) {
        &self.base
    }

    fn base_mut(&mut self) -> (res: &mut TypeOpBase) {
        &mut self.base
    }

    fn meta(&self) -> (res: Option<TypeOpMeta>) {
        self.meta
    }

    fn pointer_sizes(&self) -> (res: (i32, i32)) {
        (self.near_pointer_size, self.far_pointer_size)
    }

    fn set_metatype_in(&mut self, val: TypeMetatype) {
        if let Some(meta) = self.meta {
            self.meta = Some(TypeOpMeta { metaout: meta.metaout, metain: val });
        }
    }

    fn set_metatype_out(&mut self, val: TypeMetatype) {
        if let Some(meta) = self.meta {
            self.meta = Some(TypeOpMeta { metaout: val, metain: meta.metain });
        }
    }

    fn into_record(self) -> (res: TypeOpRecord) {
        self
    }
}

} // verus!

//! The kinds of operations, one by one.
use vstd::prelude::*;
use crate::op::PcodeOp;
use crate::opbehavior::OpBehavior;
use crate::opcodes::OpCode;
use crate::typeop::{
    OpFacts, TypeOp, TypeOpBase, TypeOpMeta, TypeOpRecord, ARITHMETIC_OP, FLOATINGPOINT_OP, INHERITS_SIGN, INHERITS_SIGN_ZERO,
    LOGICAL_OP, SHIFT_OP,
};
use crate::types::{TypeFactory, TypeMetatype};

verus! {

#[derive(Debug)]
pub struct TypeOpCopy {
    pub base: TypeOpBase,
}

impl TypeOpCopy {
    pub fn new() -> (res: TypeOpCopy)
        ensures
            res.facts() == (OpFacts {
                opcode: OpCode::Copy,
                opflags: PcodeOp::UNARY | PcodeOp::NOCOLLAPSE,
                addlflags: 0,
                name: "copy"@,
                behave: Some(OpBehavior { opcode: OpCode::Copy, unary: true, special: false }),
                meta: None,
                near: 0,
                far: 0,
            }),
    {
        TypeOpCopy {
            base: TypeOpBase::with_behavior(
                OpCode::Copy,
                "copy",
                PcodeOp::UNARY | PcodeOp::NOCOLLAPSE,
                0,
                OpBehavior::new_special(OpCode::Copy, true, false),
            ),
        }
    }
}

impl Default for TypeOpCopy {
    fn default() -> (res: TypeOpCopy)
        ensures
            res.facts() == (OpFacts {
                opcode: OpCode::Copy,
                opflags: PcodeOp::UNARY | PcodeOp::NOCOLLAPSE,
                addlflags: 0,
                name: "copy"@,
                behave: Some(OpBehavior { opcode: OpCode::Copy, unary: true, special: false }),
                meta: None,
                near: 0,
                far: 0,
            }),
    {
        TypeOpCopy::new()
    }
}

impl TypeOp for TypeOpCopy {
    open spec fn facts(&self) -> OpFacts {
        self.base.facts_with(None, 0, 0)
    }

    fn base(&self) -> (res: &TypeOpBase) {
        &self.base
    }

    fn base_mut(&mut self) -> (res: &mut TypeOpBase) {
        &mut self.base
    }

    fn meta(&self) -> (res: Option<TypeOpMeta>) {
        None
    }

    fn pointer_sizes(&self) -> (res: (i32, i32)) {
        (0, 0)
    }

    fn set_metatype_in(&mut self, val: TypeMetatype) {
    }

    fn set_metatype_out(&mut self, val: TypeMetatype) {
    }

    fn into_record(self) -> (res: TypeOpRecord) {
        TypeOpRecord { base: self.base, meta: None, near_pointer_size: 0, far_pointer_size: 0 }
    }
}

#[derive(Debug)]
pub struct TypeOpLoad {
    pub base: TypeOpBase,
}

impl TypeOpLoad {
    pub fn new() -> (res: TypeOpLoad)
        ensures
            res.facts() == (OpFacts {
                opcode: OpCode::Load,
                opflags: PcodeOp::SPECIAL | PcodeOp::NOCOLLAPSE,
                addlflags: 0,
                name: "load"@,
                behave: Some(OpBehavior { opcode: OpCode::Load, unary: false, special: true }),
                meta: None,
                near: 0,
                far: 0,
            }),
    {
        TypeOpLoad {
            base: TypeOpBase::with_behavior(
                OpCode::Load,
                "load",
                PcodeOp::SPECIAL | PcodeOp::NOCOLLAPSE,
                0,
                OpBehavior::new_special(OpCode::Load, false, true),
            ),
        }
    }
}

impl Default for TypeOpLoad {
    fn default() -> (res: TypeOpLoad)
        ensures
            res.facts() == (OpFacts {
                opcode: OpCode::Load,
                opflags: PcodeOp::SPECIAL | PcodeOp::NOCOLLAPSE,
                addlflags: 0,
                name: "load"@,
                behave: Some(OpBehavior { opcode: OpCode::Load, unary: false, special: true }),
                meta: None,
                near: 0,
                far: 0,
            }),
    {
        TypeOpLoad::new()
    }
}

impl TypeOp for TypeOpLoad {
    open spec fn facts(&self) -> OpFacts {
        self.base.facts_with(None, 0, 0)
    }

    fn base(&self) -> (res: &TypeOpBase) {
        &self.base
    }

    fn base_mut(&mut self) -> (res: &mut TypeOpBase) {
        &mut self.base
    }

    fn meta(&self) -> (res: Option<TypeOpMeta>) {
        None
    }

    fn pointer_sizes(&self) -> (res: (i32, i32)) {
        (0, 0)
    }

    fn set_metatype_in(&mut self, val: TypeMetatype) {
    }

    fn set_metatype_out(&mut self, val: TypeMetatype) {
    }

    fn into_record(self) -> (res: TypeOpRecord) {
        TypeOpRecord { base: self.base, meta: None, near_pointer_size: 0, far_pointer_size: 0 }
    }
}

#[derive(Debug)]
pub struct TypeOpStore {
    pub base: TypeOpBase,
}

impl TypeOpStore {
    pub fn new() -> (res: TypeOpStore)
        ensures
            res.facts() == (OpFacts {
                opcode: OpCode::Store,
                opflags: PcodeOp::SPECIAL | PcodeOp::NOCOLLAPSE,
                addlflags: 0,
                name: "store"@,
                behave: Some(OpBehavior { opcode: OpCode::Store, unary: false, special: true }),
                meta: None,
                near: 0,
                far: 0,
            }),
    {
        TypeOpStore {
            base: TypeOpBase::with_behavior(
                OpCode::Store,
                "store",
                PcodeOp::SPECIAL | PcodeOp::NOCOLLAPSE,
                0,
                OpBehavior::new_special(OpCode::Store, false, true),
            ),
        }
    }
}

impl Default for TypeOpStore {
    fn default() -> (res: TypeOpStore)
        ensures
            res.facts() == (OpFacts {
                opcode: OpCode::Store,
                opflags: PcodeOp::SPECIAL | PcodeOp::NOCOLLAPSE,
                addlflags: 0,
                name: "store"@,
                behave: Some(OpBehavior { opcode: OpCode::Store, unary: false, special: true }),
                meta: None,
                near: 0,
                far: 0,
            }),
    {
        TypeOpStore::new()
    }
}

impl TypeOp for TypeOpStore {
    open spec fn facts(&self) -> OpFacts {
        self.base.facts_with(None, 0, 0)
    }

    fn base(&self) -> (res: &TypeOpBase) {
        &self.base
    }

    fn base_mut(&mut self) -> (res: &mut TypeOpBase) {
        &mut self.base
    }

    fn meta(&self) -> (res: Option<TypeOpMeta>) {
        None
    }

    fn pointer_sizes(&self) -> (res: (i32, i32)) {
        (0, 0)
    }

    fn set_metatype_in(&mut self, val: TypeMetatype) {
    }

    fn set_metatype_out(&mut self, val: TypeMetatype) {
    }

    fn into_record(self) -> (res: TypeOpRecord) {
        TypeOpRecord { base: self.base, meta: None, near_pointer_size: 0, far_pointer_size: 0 }
    }
}

#[derive(Debug)]
pub struct TypeOpBranch {
    pub base: TypeOpBase,
}

impl TypeOpBranch {
    pub fn new() -> (res: TypeOpBranch)
        ensures
            res.facts() == (OpFacts {
                opcode: OpCode::Branch,
                opflags: PcodeOp::SPECIAL | PcodeOp::BRANCH | PcodeOp::CODEREF | PcodeOp::NOCOLLAPSE,
                addlflags: 0,
                name: "goto"@,
                behave: Some(OpBehavior { opcode: OpCode::Branch, unary: false, special: true }),
                meta: None,
                near: 0,
                far: 0,
            }),
    {
        TypeOpBranch {
            base: TypeOpBase::with_behavior(
                OpCode::Branch,
                "goto",
                PcodeOp::SPECIAL | PcodeOp::BRANCH | PcodeOp::CODEREF | PcodeOp::NOCOLLAPSE,
                0,
                OpBehavior::new_special(OpCode::Branch, false, true),
            ),
        }
    }
}

impl Default for TypeOpBranch {
    fn default() -> (res: TypeOpBranch)
        ensures
            res.facts() == (OpFacts {
                opcode: OpCode::Branch,
                opflags: PcodeOp::SPECIAL | PcodeOp::BRANCH | PcodeOp::CODEREF | PcodeOp::NOCOLLAPSE,
                addlflags: 0,
                name: "goto"@,
                behave: Some(OpBehavior { opcode: OpCode::Branch, unary: false, special: true }),
                meta: None,
                near: 0,
                far: 0,
            }),
    {
        TypeOpBranch::new()
    }
}

impl TypeOp for TypeOpBranch {
    open spec fn facts(&self) -> OpFacts {
        self.base.facts_with(None, 0, 0)
    }

    fn base(&self) -> (res: &TypeOpBase) {
        &self.base
    }

    fn base_mut(&mut self) -> (res: &mut TypeOpBase) {
        &mut self.base
    }

    fn meta(&self) -> (res: Option<TypeOpMeta>) {
        None
    }

    fn pointer_sizes(&self) -> (res: (i32, i32)) {
        (0, 0)
    }

    fn set_metatype_in(&mut self, val: TypeMetatype) {
    }

    fn set_metatype_out(&mut self, val: TypeMetatype) {
    }

    fn into_record(self) -> (res: TypeOpRecord) {
        TypeOpRecord { base: self.base, meta: None, near_pointer_size: 0, far_pointer_size: 0 }
    }
}

#[derive(Debug)]
pub struct TypeOpCbranch {
    pub base: TypeOpBase,
}

impl TypeOpCbranch {
    pub fn new() -> (res: TypeOpCbranch)
        ensures
            res.facts() == (OpFacts {
                opcode: OpCode::Cbranch,
                opflags: PcodeOp::SPECIAL | PcodeOp::BRANCH | PcodeOp::CODEREF | PcodeOp::NOCOLLAPSE,
                addlflags: 0,
                name: "goto"@,
                behave: Some(OpBehavior { opcode: OpCode::Cbranch, unary: false, special: true }),
                meta: None,
                near: 0,
                far: 0,
            }),
    {
        TypeOpCbranch {
            base: TypeOpBase::with_behavior(
                OpCode::Cbranch,
                "goto",
                PcodeOp::SPECIAL | PcodeOp::BRANCH | PcodeOp::CODEREF | PcodeOp::NOCOLLAPSE,
                0,
                OpBehavior::new_special(OpCode::Cbranch, false, true),
            ),
        }
    }
}

impl Default for TypeOpCbranch {
    fn default() -> (res: TypeOpCbranch)
        ensures
            res.facts() == (OpFacts {
                opcode: OpCode::Cbranch,
                opflags: PcodeOp::SPECIAL | PcodeOp::BRANCH | PcodeOp::CODEREF | PcodeOp::NOCOLLAPSE,
                addlflags: 0,
                name: "goto"@,
                behave: Some(OpBehavior { opcode: OpCode::Cbranch, unary: false, special: true }),
                meta: None,
                near: 0,
                far: 0,
            }),
    {
        TypeOpCbranch::new()
    }
}

impl TypeOp for TypeOpCbranch {
    open spec fn facts(&self) -> OpFacts {
        self.base.facts_with(None, 0, 0)
    }

    fn base(&self) -> (res: &TypeOpBase) {
        &self.base
    }

    fn base_mut(&mut self) -> (res: &mut TypeOpBase) {
        &mut self.base
    }

    fn meta(&self) -> (res: Option<TypeOpMeta>) {
        None
    }

    fn pointer_sizes(&self) -> (res: (i32, i32)) {
        (0, 0)
    }

    fn set_metatype_in(&mut self, val: TypeMetatype) {
    }

    fn set_metatype_out(&mut self, val: TypeMetatype) {
    }

    fn into_record(self) -> (res: TypeOpRecord) {
        TypeOpRecord { base: self.base, meta: None, near_pointer_size: 0, far_pointer_size: 0 }
    }
}

#[derive(Debug)]
pub struct TypeOpBranchind {
    pub base: TypeOpBase,
}

impl TypeOpBranchind {
    pub fn new() -> (res: TypeOpBranchind)
        ensures
            res.facts() == (OpFacts {
                opcode: OpCode::Branchind,
                opflags: PcodeOp::SPECIAL | PcodeOp::BRANCH | PcodeOp::NOCOLLAPSE,
                addlflags: 0,
                name: "switch"@,
                behave: Some(OpBehavior { opcode: OpCode::Branchind, unary: false, special: true }),
                meta: None,
                near: 0,
                far: 0,
            }),
    {
        TypeOpBranchind {
            base: TypeOpBase::with_behavior(
                OpCode::Branchind,
                "switch",
                PcodeOp::SPECIAL | PcodeOp::BRANCH | PcodeOp::NOCOLLAPSE,
                0,
                OpBehavior::new_special(OpCode::Branchind, false, true),
            ),
        }
    }
}

impl Default for TypeOpBranchind {
    fn default() -> (res: TypeOpBranchind)
        ensures
            res.facts() == (OpFacts {
                opcode: OpCode::Branchind,
                opflags: PcodeOp::SPECIAL | PcodeOp::BRANCH | PcodeOp::NOCOLLAPSE,
                addlflags: 0,
                name: "switch"@,
                behave: Some(OpBehavior { opcode: OpCode::Branchind, unary: false, special: true }),
                meta: None,
                near: 0,
                far: 0,
            }),
    {
        TypeOpBranchind::new()
    }
}

impl TypeOp for TypeOpBranchind {
    open spec fn facts(&self) -> OpFacts {
        self.base.facts_with(None, 0, 0)
    }

    fn base(&self) -> (res: &TypeOpBase) {
        &self.base
    }

    fn base_mut(&mut self) -> (res: &mut TypeOpBase) {
        &mut self.base
    }

    fn meta(&self) -> (res: Option<TypeOpMeta>) {
        None
    }

    fn pointer_sizes(&self) -> (res: (i32, i32)) {
        (0, 0)
    }

    fn set_metatype_in(&mut self, val: TypeMetatype) {
    }

    fn set_metatype_out(&mut self, val: TypeMetatype) {
    }

    fn into_record(self) -> (res: TypeOpRecord) {
        TypeOpRecord { base: self.base, meta: None, near_pointer_size: 0, far_pointer_size: 0 }
    }
}

#[derive(Debug)]
pub struct TypeOpCall {
    pub base: TypeOpBase,
}

impl TypeOpCall {
    pub fn new() -> (res: TypeOpCall)
        ensures
            res.facts() == (OpFacts {
                opcode: OpCode::Call,
                opflags: PcodeOp::SPECIAL | PcodeOp::CALL | PcodeOp::HAS_CALLSPEC | PcodeOp::CODEREF | PcodeOp::NOCOLLAPSE,
                addlflags: 0,
                name: "call"@,
                behave: Some(OpBehavior { opcode: OpCode::Call, unary: false, special: true }),
                meta: None,
                near: 0,
                far: 0,
            }),
    {
        TypeOpCall {
            base: TypeOpBase::with_behavior(
                OpCode::Call,
                "call",
                PcodeOp::SPECIAL | PcodeOp::CALL | PcodeOp::HAS_CALLSPEC | PcodeOp::CODEREF | PcodeOp::NOCOLLAPSE,
                0,
                OpBehavior::new_special(OpCode::Call, false, true),
            ),
        }
    }
}

impl Default for TypeOpCall {
    fn default() -> (res: TypeOpCall)
        ensures
            res.facts() == (OpFacts {
                opcode: OpCode::Call,
                opflags: PcodeOp::SPECIAL | PcodeOp::CALL | PcodeOp::HAS_CALLSPEC | PcodeOp::CODEREF | PcodeOp::NOCOLLAPSE,
                addlflags: 0,
                name: "call"@,
                behave: Some(OpBehavior { opcode: OpCode::Call, unary: false, special: true }),
                meta: None,
                near: 0,
                far: 0,
            }),
    {
        TypeOpCall::new()
    }
}

impl TypeOp for TypeOpCall {
    open spec fn facts(&self) -> OpFacts {
        self.base.facts_with(None, 0, 0)
    }

    fn base(&self) -> (res: &TypeOpBase) {
        &self.base
    }

    fn base_mut(&mut self) -> (res: &mut TypeOpBase) {
        &mut self.base
    }

    fn meta(&self) -> (res: Option<TypeOpMeta>) {
        None
    }

    fn pointer_sizes(&self) -> (res: (i32, i32)) {
        (0, 0)
    }

    fn set_metatype_in(&mut self, val: TypeMetatype) {
    }

    fn set_metatype_out(&mut self, val: TypeMetatype) {
    }

    fn into_record(self) -> (res: TypeOpRecord) {
        TypeOpRecord { base: self.base, meta: None, near_pointer_size: 0, far_pointer_size: 0 }
    }
}

#[derive(Debug)]
pub struct TypeOpCallind {
    pub base: TypeOpBase,
}

impl TypeOpCallind {
    pub fn new() -> (res: TypeOpCallind)
        ensures
            res.facts() == (OpFacts {
                opcode: OpCode::Callind,
                opflags: PcodeOp::SPECIAL | PcodeOp::CALL | PcodeOp::HAS_CALLSPEC | PcodeOp::NOCOLLAPSE,
                addlflags: 0,
                name: "callind"@,
                behave: Some(OpBehavior { opcode: OpCode::Callind, unary: false, special: true }),
                meta: None,
                near: 0,
                far: 0,
            }),
    {
        TypeOpCallind {
            base: TypeOpBase::with_behavior(
                OpCode::Callind,
                "callind",
                PcodeOp::SPECIAL | PcodeOp::CALL | PcodeOp::HAS_CALLSPEC | PcodeOp::NOCOLLAPSE,
                0,
                OpBehavior::new_special(OpCode::Callind, false, true),
            ),
        }
    }
}

impl Default for TypeOpCallind {
    fn default() -> (res: TypeOpCallind)
        ensures
            res.facts() == (OpFacts {
                opcode: OpCode::Callind,
                opflags: PcodeOp::SPECIAL | PcodeOp::CALL | PcodeOp::HAS_CALLSPEC | PcodeOp::NOCOLLAPSE,
                addlflags: 0,
                name: "callind"@,
                behave: Some(OpBehavior { opcode: OpCode::Callind, unary: false, special: true }),
                meta: None,
                near: 0,
                far: 0,
            }),
    {
        TypeOpCallind::new()
    }
}

impl TypeOp for TypeOpCallind {
    open spec fn facts(&self) -> OpFacts {
        self.base.facts_with(None, 0, 0)
    }

    fn base(&self) -> (res: &TypeOpBase) {
        &self.base
    }

    fn base_mut(&mut self) -> (res: &mut TypeOpBase) {
        &mut self.base
    }

    fn meta(&self) -> (res: Option<TypeOpMeta>) {
        None
    }

    fn pointer_sizes(&self) -> (res: (i32, i32)) {
        (0, 0)
    }

    fn set_metatype_in(&mut self, val: TypeMetatype) {
    }

    fn set_metatype_out(&mut self, val: TypeMetatype) {
    }

    fn into_record(self) -> (res: TypeOpRecord) {
        TypeOpRecord { base: self.base, meta: None, near_pointer_size: 0, far_pointer_size: 0 }
    }
}

#[derive(Debug)]
pub struct TypeOpCallother {
    pub base: TypeOpBase,
}

impl TypeOpCallother {
    pub fn new() -> (res: TypeOpCallother)
        ensures
            res.facts() == (OpFacts {
                opcode: OpCode::Callother,
                opflags: PcodeOp::SPECIAL | PcodeOp::CALL | PcodeOp::NOCOLLAPSE,
                addlflags: 0,
                name: "syscall"@,
                behave: Some(OpBehavior { opcode: OpCode::Callother, unary: false, special: true }),
                meta: None,
                near: 0,
                far: 0,
            }),
    {
        TypeOpCallother {
            base: TypeOpBase::with_behavior(
                OpCode::Callother,
                "syscall",
                PcodeOp::SPECIAL | PcodeOp::CALL | PcodeOp::NOCOLLAPSE,
                0,
                OpBehavior::new_special(OpCode::Callother, false, true),
            ),
        }
    }
}

impl Default for TypeOpCallother {
    fn default() -> (res: TypeOpCallother)
        ensures
            res.facts() == (OpFacts {
                opcode: OpCode::Callother,
                opflags: PcodeOp::SPECIAL | PcodeOp::CALL | PcodeOp::NOCOLLAPSE,
                addlflags: 0,
                name: "syscall"@,
                behave: Some(OpBehavior { opcode: OpCode::Callother, unary: false, special: true }),
                meta: None,
                near: 0,
                far: 0,
            }),
    {
        TypeOpCallother::new()
    }
}

impl TypeOp for TypeOpCallother {
    open spec fn facts(&self) -> OpFacts {
        self.base.facts_with(None, 0, 0)
    }

    fn base(&self) -> (res: &TypeOpBase) {
        &self.base
    }

    fn base_mut(&mut self) -> (res: &mut TypeOpBase) {
        &mut self.base
    }

    fn meta(&self) -> (res: Option<TypeOpMeta>) {
        None
    }

    fn pointer_sizes(&self) -> (res: (i32, i32)) {
        (0, 0)
    }

    fn set_metatype_in(&mut self, val: TypeMetatype) {
    }

    fn set_metatype_out(&mut self, val: TypeMetatype) {
    }

    fn into_record(self) -> (res: TypeOpRecord) {
        TypeOpRecord { base: self.base, meta: None, near_pointer_size: 0, far_pointer_size: 0 }
    }
}

#[derive(Debug)]
pub struct TypeOpReturn {
    pub base: TypeOpBase,
}

impl TypeOpReturn {
    pub fn new() -> (res: TypeOpReturn)
        ensures
            res.facts() == (OpFacts {
                opcode: OpCode::Return,
                opflags: PcodeOp::SPECIAL | PcodeOp::RETURNS | PcodeOp::NOCOLLAPSE | PcodeOp::RETURN_COPY,
                addlflags: 0,
                name: "return"@,
                behave: Some(OpBehavior { opcode: OpCode::Return, unary: false, special: true }),
                meta: None,
                near: 0,
                far: 0,
            }),
    {
        TypeOpReturn {
            base: TypeOpBase::with_behavior(
                OpCode::Return,
                "return",
                PcodeOp::SPECIAL | PcodeOp::RETURNS | PcodeOp::NOCOLLAPSE | PcodeOp::RETURN_COPY,
                0,
                OpBehavior::new_special(OpCode::Return, false, true),
            ),
        }
    }
}

impl Default for TypeOpReturn {
    fn default() -> (res: TypeOpReturn)
        ensures
            res.facts() == (OpFacts {
                opcode: OpCode::Return,
                opflags: PcodeOp::SPECIAL | PcodeOp::RETURNS | PcodeOp::NOCOLLAPSE | PcodeOp::RETURN_COPY,
                addlflags: 0,
                name: "return"@,
                behave: Some(OpBehavior { opcode: OpCode::Return, unary: false, special: true }),
                meta: None,
                near: 0,
                far: 0,
            }),
    {
        TypeOpReturn::new()
    }
}

impl TypeOp for TypeOpReturn {
    open spec fn facts(&self) -> OpFacts {
        self.base.facts_with(None, 0, 0)
    }

    fn base(&self) -> (res: &TypeOpBase) {
        &self.base
    }

    fn base_mut(&mut self) -> (res: &mut TypeOpBase) {
        &mut self.base
    }

    fn meta(&self) -> (res: Option<TypeOpMeta>) {
        None
    }

    fn pointer_sizes(&self) -> (res: (i32, i32)) {
        (0, 0)
    }

    fn set_metatype_in(&mut self, val: TypeMetatype) {
    }

    fn set_metatype_out(&mut self, val: TypeMetatype) {
    }

    fn into_record(self) -> (res: TypeOpRecord) {
        TypeOpRecord { base: self.base, meta: None, near_pointer_size: 0, far_pointer_size: 0 }
    }
}

#[derive(Debug)]
pub struct TypeOpEqual {
    pub base: TypeOpBase,
    pub meta: TypeOpMeta,
}

impl TypeOpEqual {
    pub fn new() -> (res: TypeOpEqual)
        ensures
            res.facts() == (OpFacts {
                opcode: OpCode::IntEqual,
                opflags: PcodeOp::BINARY | PcodeOp::BOOLOUTPUT | PcodeOp::COMMUTATIVE,
                addlflags: INHERITS_SIGN,
                name: "=="@,
                behave: Some(OpBehavior { opcode: OpCode::IntEqual, unary: false, special: false }),
                meta: Some(TypeOpMeta { metaout: TypeMetatype::Bool, metain: TypeMetatype::Int }),
                near: 0,
                far: 0,
            }),
    {
        TypeOpEqual {
            base: TypeOpBase::with_behavior(
                OpCode::IntEqual,
                "==",
                PcodeOp::BINARY | PcodeOp::BOOLOUTPUT | PcodeOp::COMMUTATIVE,
                INHERITS_SIGN,
                OpBehavior::new_special(OpCode::IntEqual, false, false),
            ),
            meta: TypeOpMeta::new(TypeMetatype::Bool, TypeMetatype::Int),
        }
    }
}

impl Default for TypeOpEqual {
    fn default() -> (res: TypeOpEqual)
        ensures
            res.facts() == (OpFacts {
                opcode: OpCode::IntEqual,
                opflags: PcodeOp::BINARY | PcodeOp::BOOLOUTPUT | PcodeOp::COMMUTATIVE,
                addlflags: INHERITS_SIGN,
                name: "=="@,
                behave: Some(OpBehavior { opcode: OpCode::IntEqual, unary: false, special: false }),
                meta: Some(TypeOpMeta { metaout: TypeMetatype::Bool, metain: TypeMetatype::Int }),
                near: 0,
                far: 0,
            }),
    {
        TypeOpEqual::new()
    }
}

impl TypeOp for TypeOpEqual {
    open spec fn facts(&self) -> OpFacts {
        self.base.facts_with(Some(self.meta), 0, 0)
    }

    fn base(&self) -> (res: &TypeOpBase) {
        &self.base
    }

    fn base_mut(&mut self) -> (res: &mut TypeOpBase) {
        &mut self.base
    }

    fn meta(&self) -> (res: Option<TypeOpMeta>) {
        Some(self.meta)
    }

    fn pointer_sizes(&self) -> (res: (i32, i32)) {
        (0, 0)
    }

    fn set_metatype_in(&mut self, val: TypeMetatype) {
        self.meta.metain = val;
    }

    fn set_metatype_out(&mut self, val: TypeMetatype) {
        self.meta.metaout = val;
    }

    fn into_record(self) -> (res: TypeOpRecord) {
        TypeOpRecord { base: self.base, meta: Some(self.meta), near_pointer_size: 0, far_pointer_size: 0 }
    }
}

#[derive(Debug)]
pub struct TypeOpNotEqual {
    pub base: TypeOpBase,
    pub meta: TypeOpMeta,
}

impl TypeOpNotEqual {
    pub fn new() -> (res: TypeOpNotEqual)
        ensures
            res.facts() == (OpFacts {
                opcode: OpCode::IntNotequal,
                opflags: PcodeOp::BINARY | PcodeOp::BOOLOUTPUT | PcodeOp::COMMUTATIVE,
                addlflags: INHERITS_SIGN,
                name: "!="@,
                behave: Some(OpBehavior { opcode: OpCode::IntNotequal, unary: false, special: false }),
                meta: Some(TypeOpMeta { metaout: TypeMetatype::Bool, metain: TypeMetatype::Int }),
                near: 0,
                far: 0,
            }),
    {
        TypeOpNotEqual {
            base: TypeOpBase::with_behavior(
                OpCode::IntNotequal,
                "!=",
                PcodeOp::BINARY | PcodeOp::BOOLOUTPUT | PcodeOp::COMMUTATIVE,
                INHERITS_SIGN,
                OpBehavior::new_special(OpCode::IntNotequal, false, false),
            ),
            meta: TypeOpMeta::new(TypeMetatype::Bool, TypeMetatype::Int),
        }
    }
}

impl Default for TypeOpNotEqual {
    fn default() -> (res: TypeOpNotEqual)
        ensures
            res.facts() == (OpFacts {
                opcode: OpCode::IntNotequal,
                opflags: PcodeOp::BINARY | PcodeOp::BOOLOUTPUT | PcodeOp::COMMUTATIVE,
                addlflags: INHERITS_SIGN,
                name: "!="@,
                behave: Some(OpBehavior { opcode: OpCode::IntNotequal, unary: false, special: false }),
                meta: Some(TypeOpMeta { metaout: TypeMetatype::Bool, metain: TypeMetatype::Int }),
                near: 0,
                far: 0,
            }),
    {
        TypeOpNotEqual::new()
    }
}

impl TypeOp for TypeOpNotEqual {
    open spec fn facts(&self) -> OpFacts {
        self.base.facts_with(Some(self.meta), 0, 0)
    }

    fn base(&self) -> (res: &TypeOpBase) {
        &self.base
    }

    fn base_mut(&mut self) -> (res: &mut TypeOpBase) {
        &mut self.base
    }

    fn meta(&self) -> (res: Option<TypeOpMeta>) {
        Some(self.meta)
    }

    fn pointer_sizes(&self) -> (res: (i32, i32)) {
        (0, 0)
    }

    fn set_metatype_in(&mut self, val: TypeMetatype) {
        self.meta.metain = val;
    }

    fn set_metatype_out(&mut self, val: TypeMetatype) {
        self.meta.metaout = val;
    }

    fn into_record(self) -> (res: TypeOpRecord) {
        TypeOpRecord { base: self.base, meta: Some(self.meta), near_pointer_size: 0, far_pointer_size: 0 }
    }
}

#[derive(Debug)]
pub struct TypeOpIntSless {
    pub base: TypeOpBase,
    pub meta: TypeOpMeta,
}

impl TypeOpIntSless {
    pub fn new() -> (res: TypeOpIntSless)
        ensures
            res.facts() == (OpFacts {
                opcode: OpCode::IntSless,
                opflags: PcodeOp::BINARY | PcodeOp::BOOLOUTPUT,
                addlflags: INHERITS_SIGN,
                name: "<"@,
                behave: Some(OpBehavior { opcode: OpCode::IntSless, unary: false, special: false }),
                meta: Some(TypeOpMeta { metaout: TypeMetatype::Bool, metain: TypeMetatype::Int }),
                near: 0,
                far: 0,
            }),
    {
        TypeOpIntSless {
            base: TypeOpBase::with_behavior(
                OpCode::IntSless,
                "<",
                PcodeOp::BINARY | PcodeOp::BOOLOUTPUT,
                INHERITS_SIGN,
                OpBehavior::new_special(OpCode::IntSless, false, false),
            ),
            meta: TypeOpMeta::new(TypeMetatype::Bool, TypeMetatype::Int),
        }
    }
}

impl Default for TypeOpIntSless {
    fn default() -> (res: TypeOpIntSless)
        ensures
            res.facts() == (OpFacts {
                opcode: OpCode::IntSless,
                opflags: PcodeOp::BINARY | PcodeOp::BOOLOUTPUT,
                addlflags: INHERITS_SIGN,
                name: "<"@,
                behave: Some(OpBehavior { opcode: OpCode::IntSless, unary: false, special: false }),
                meta: Some(TypeOpMeta { metaout: TypeMetatype::Bool, metain: TypeMetatype::Int }),
                near: 0,
                far: 0,
            }),
    {
        TypeOpIntSless::new()
    }
}

impl TypeOp for TypeOpIntSless {
    open spec fn facts(&self) -> OpFacts {
        self.base.facts_with(Some(self.meta), 0, 0)
    }

    fn base(&self) -> (res: &TypeOpBase) {
        &self.base
    }

    fn base_mut(&mut self) -> (res: &mut TypeOpBase) {
        &mut self.base
    }

    fn meta(&self) -> (res: Option<TypeOpMeta>) {
        Some(self.meta)
    }

    fn pointer_sizes(&self) -> (res: (i32, i32)) {
        (0, 0)
    }

    fn set_metatype_in(&mut self, val: TypeMetatype) {
        self.meta.metain = val;
    }

    fn set_metatype_out(&mut self, val: TypeMetatype) {
        self.meta.metaout = val;
    }

    fn into_record(self) -> (res: TypeOpRecord) {
        TypeOpRecord { base: self.base, meta: Some(self.meta), near_pointer_size: 0, far_pointer_size: 0 }
    }
}

#[derive(Debug)]
pub struct TypeOpIntSlessEqual {
    pub base: TypeOpBase,
    pub meta: TypeOpMeta,
}

impl TypeOpIntSlessEqual {
    pub fn new() -> (res: TypeOpIntSlessEqual)
        ensures
            res.facts() == (OpFacts {
                opcode: OpCode::IntSlessequal,
                opflags: PcodeOp::BINARY | PcodeOp::BOOLOUTPUT,
                addlflags: INHERITS_SIGN,
                name: "<="@,
                behave: Some(OpBehavior { opcode: OpCode::IntSlessequal, unary: false, special: false }),
                meta: Some(TypeOpMeta { metaout: TypeMetatype::Bool, metain: TypeMetatype::Int }),
                near: 0,
                far: 0,
            }),
    {
        TypeOpIntSlessEqual {
            base: TypeOpBase::with_behavior(
                OpCode::IntSlessequal,
                "<=",
                PcodeOp::BINARY | PcodeOp::BOOLOUTPUT,
                INHERITS_SIGN,
                OpBehavior::new_special(OpCode::IntSlessequal, false, false),
            ),
            meta: TypeOpMeta::new(TypeMetatype::Bool, TypeMetatype::Int),
        }
    }
}

impl Default for TypeOpIntSlessEqual {
    fn default() -> (res: TypeOpIntSlessEqual)
        ensures
            res.facts() == (OpFacts {
                opcode: OpCode::IntSlessequal,
                opflags: PcodeOp::BINARY | PcodeOp::BOOLOUTPUT,
                addlflags: INHERITS_SIGN,
                name: "<="@,
                behave: Some(OpBehavior { opcode: OpCode::IntSlessequal, unary: false, special: false }),
                meta: Some(TypeOpMeta { metaout: TypeMetatype::Bool, metain: TypeMetatype::Int }),
                near: 0,
                far: 0,
            }),
    {
        TypeOpIntSlessEqual::new()
    }
}

impl TypeOp for TypeOpIntSlessEqual {
    open spec fn facts(&self) -> OpFacts {
        self.base.facts_with(Some(self.meta), 0, 0)
    }

    fn base(&self) -> (res: &TypeOpBase) {
        &self.base
    }

    fn base_mut(&mut self) -> (res: &mut TypeOpBase) {
        &mut self.base
    }

    fn meta(&self) -> (res: Option<TypeOpMeta>) {
        Some(self.meta)
    }

    fn pointer_sizes(&self) -> (res: (i32, i32)) {
        (0, 0)
    }

    fn set_metatype_in(&mut self, val: TypeMetatype) {
        self.meta.metain = val;
    }

    fn set_metatype_out(&mut self, val: TypeMetatype) {
        self.meta.metaout = val;
    }

    fn into_record(self) -> (res: TypeOpRecord) {
        TypeOpRecord { base: self.base, meta: Some(self.meta), near_pointer_size: 0, far_pointer_size: 0 }
    }
}

#[derive(Debug)]
pub struct TypeOpIntLess {
    pub base: TypeOpBase,
    pub meta: TypeOpMeta,
}

impl TypeOpIntLess {
    pub fn new() -> (res: TypeOpIntLess)
        ensures
            res.facts() == (OpFacts {
                opcode: OpCode::IntLess,
                opflags: PcodeOp::BINARY | PcodeOp::BOOLOUTPUT,
                addlflags: INHERITS_SIGN,
                name: "<"@,
                behave: Some(OpBehavior { opcode: OpCode::IntLess, unary: false, special: false }),
                meta: Some(TypeOpMeta { metaout: TypeMetatype::Bool, metain: TypeMetatype::Uint }),
                near: 0,
                far: 0,
            }),
    {
        TypeOpIntLess {
            base: TypeOpBase::with_behavior(
                OpCode::IntLess,
                "<",
                PcodeOp::BINARY | PcodeOp::BOOLOUTPUT,
                INHERITS_SIGN,
                OpBehavior::new_special(OpCode::IntLess, false, false),
            ),
            meta: TypeOpMeta::new(TypeMetatype::Bool, TypeMetatype::Uint),
        }
    }
}

impl Default for TypeOpIntLess {
    fn default() -> (res: TypeOpIntLess)
        ensures
            res.facts() == (OpFacts {
                opcode: OpCode::IntLess,
                opflags: PcodeOp::BINARY | PcodeOp::BOOLOUTPUT,
                addlflags: INHERITS_SIGN,
                name: "<"@,
                behave: Some(OpBehavior { opcode: OpCode::IntLess, unary: false, special: false }),
                meta: Some(TypeOpMeta { metaout: TypeMetatype::Bool, metain: TypeMetatype::Uint }),
                near: 0,
                far: 0,
            }),
    {
        TypeOpIntLess::new()
    }
}

impl TypeOp for TypeOpIntLess {
    open spec fn facts(&self) -> OpFacts {
        self.base.facts_with(Some(self.meta), 0, 0)
    }

    fn base(&self) -> (res: &TypeOpBase) {
        &self.base
    }

    fn base_mut(&mut self) -> (res: &mut TypeOpBase) {
        &mut self.base
    }

    fn meta(&self) -> (res: Option<TypeOpMeta>) {
        Some(self.meta)
    }

    fn pointer_sizes(&self) -> (res: (i32, i32)) {
        (0, 0)
    }

    fn set_metatype_in(&mut self, val: TypeMetatype) {
        self.meta.metain = val;
    }

    fn set_metatype_out(&mut self, val: TypeMetatype) {
        self.meta.metaout = val;
    }

    fn into_record(self) -> (res: TypeOpRecord) {
        TypeOpRecord { base: self.base, meta: Some(self.meta), near_pointer_size: 0, far_pointer_size: 0 }
    }
}

#[derive(Debug)]
pub struct TypeOpIntLessEqual {
    pub base: TypeOpBase,
    pub meta: TypeOpMeta,
}

impl TypeOpIntLessEqual {
    pub fn new() -> (res: TypeOpIntLessEqual)
        ensures
            res.facts() == (OpFacts {
                opcode: OpCode::IntLessequal,
                opflags: PcodeOp::BINARY | PcodeOp::BOOLOUTPUT,
                addlflags: INHERITS_SIGN,
                name: "<="@,
                behave: Some(OpBehavior { opcode: OpCode::IntLessequal, unary: false, special: false }),
                meta: Some(TypeOpMeta { metaout: TypeMetatype::Bool, metain: TypeMetatype::Uint }),
                near: 0,
                far: 0,
            }),
    {
        TypeOpIntLessEqual {
            base: TypeOpBase::with_behavior(
                OpCode::IntLessequal,
                "<=",
                PcodeOp::BINARY | PcodeOp::BOOLOUTPUT,
                INHERITS_SIGN,
                OpBehavior::new_special(OpCode::IntLessequal, false, false),
            ),
            meta: TypeOpMeta::new(TypeMetatype::Bool, TypeMetatype::Uint),
        }
    }
}

impl Default for TypeOpIntLessEqual {
    fn default() -> (res: TypeOpIntLessEqual)
        ensures
            res.facts() == (OpFacts {
                opcode: OpCode::IntLessequal,
                opflags: PcodeOp::BINARY | PcodeOp::BOOLOUTPUT,
                addlflags: INHERITS_SIGN,
                name: "<="@,
                behave: Some(OpBehavior { opcode: OpCode::IntLessequal, unary: false, special: false }),
                meta: Some(TypeOpMeta { metaout: TypeMetatype::Bool, metain: TypeMetatype::Uint }),
                near: 0,
                far: 0,
            }),
    {
        TypeOpIntLessEqual::new()
    }
}

impl TypeOp for TypeOpIntLessEqual {
    open spec fn facts(&self) -> OpFacts {
        self.base.facts_with(Some(self.meta), 0, 0)
    }

    fn base(&self) -> (res: &TypeOpBase) {
        &self.base
    }

    fn base_mut(&mut self) -> (res: &mut TypeOpBase) {
        &mut self.base
    }

    fn meta(&self) -> (res: Option<TypeOpMeta>) {
        Some(self.meta)
    }

    fn pointer_sizes(&self) -> (res: (i32, i32)) {
        (0, 0)
    }

    fn set_metatype_in(&mut self, val: TypeMetatype) {
        self.meta.metain = val;
    }

    fn set_metatype_out(&mut self, val: TypeMetatype) {
        self.meta.metaout = val;
    }

    fn into_record(self) -> (res: TypeOpRecord) {
        TypeOpRecord { base: self.base, meta: Some(self.meta), near_pointer_size: 0, far_pointer_size: 0 }
    }
}

#[derive(Debug)]
pub struct TypeOpIntZext {
    pub base: TypeOpBase,
    pub meta: TypeOpMeta,
}

impl TypeOpIntZext {
    pub fn new() -> (res: TypeOpIntZext)
        ensures
            res.facts() == (OpFacts {
                opcode: OpCode::IntZext,
                opflags: PcodeOp::UNARY,
                addlflags: 0,
                name: "ZEXT"@,
                behave: Some(OpBehavior { opcode: OpCode::IntZext, unary: true, special: false }),
                meta: Some(TypeOpMeta { metaout: TypeMetatype::Uint, metain: TypeMetatype::Uint }),
                near: 0,
                far: 0,
            }),
    {
        TypeOpIntZext {
            base: TypeOpBase::with_behavior(
                OpCode::IntZext,
                "ZEXT",
                PcodeOp::UNARY,
                0,
                OpBehavior::new_special(OpCode::IntZext, true, false),
            ),
            meta: TypeOpMeta::new(TypeMetatype::Uint, TypeMetatype::Uint),
        }
    }
}

impl Default for TypeOpIntZext {
    fn default() -> (res: TypeOpIntZext)
        ensures
            res.facts() == (OpFacts {
                opcode: OpCode::IntZext,
                opflags: PcodeOp::UNARY,
                addlflags: 0,
                name: "ZEXT"@,
                behave: Some(OpBehavior { opcode: OpCode::IntZext, unary: true, special: false }),
                meta: Some(TypeOpMeta { metaout: TypeMetatype::Uint, metain: TypeMetatype::Uint }),
                near: 0,
                far: 0,
            }),
    {
        TypeOpIntZext::new()
    }
}

impl TypeOp for TypeOpIntZext {
    open spec fn facts(&self) -> OpFacts {
        self.base.facts_with(Some(self.meta), 0, 0)
    }

    fn base(&self) -> (res: &TypeOpBase) {
        &self.base
    }

    fn base_mut(&mut self) -> (res: &mut TypeOpBase) {
        &mut self.base
    }

    fn meta(&self) -> (res: Option<TypeOpMeta>) {
        Some(self.meta)
    }

    fn pointer_sizes(&self) -> (res: (i32, i32)) {
        (0, 0)
    }

    fn set_metatype_in(&mut self, val: TypeMetatype) {
        self.meta.metain = val;
    }

    fn set_metatype_out(&mut self, val: TypeMetatype) {
        self.meta.metaout = val;
    }

    fn into_record(self) -> (res: TypeOpRecord) {
        TypeOpRecord { base: self.base, meta: Some(self.meta), near_pointer_size: 0, far_pointer_size: 0 }
    }
}

#[derive(Debug)]
pub struct TypeOpIntSext {
    pub base: TypeOpBase,
    pub meta: TypeOpMeta,
}

impl TypeOpIntSext {
    pub fn new() -> (res: TypeOpIntSext)
        ensures
            res.facts() == (OpFacts {
                opcode: OpCode::IntSext,
                opflags: PcodeOp::UNARY,
                addlflags: 0,
                name: "SEXT"@,
                behave: Some(OpBehavior { opcode: OpCode::IntSext, unary: true, special: false }),
                meta: Some(TypeOpMeta { metaout: TypeMetatype::Int, metain: TypeMetatype::Int }),
                near: 0,
                far: 0,
            }),
    {
        TypeOpIntSext {
            base: TypeOpBase::with_behavior(
                OpCode::IntSext,
                "SEXT",
                PcodeOp::UNARY,
                0,
                OpBehavior::new_special(OpCode::IntSext, true, false),
            ),
            meta: TypeOpMeta::new(TypeMetatype::Int, TypeMetatype::Int),
        }
    }
}

impl Default for TypeOpIntSext {
    fn default() -> (res: TypeOpIntSext)
        ensures
            res.facts() == (OpFacts {
                opcode: OpCode::IntSext,
                opflags: PcodeOp::UNARY,
                addlflags: 0,
                name: "SEXT"@,
                behave: Some(OpBehavior { opcode: OpCode::IntSext, unary: true, special: false }),
                meta: Some(TypeOpMeta { metaout: TypeMetatype::Int, metain: TypeMetatype::Int }),
                near: 0,
                far: 0,
            }),
    {
        TypeOpIntSext::new()
    }
}

impl TypeOp for TypeOpIntSext {
    open spec fn facts(&self) -> OpFacts {
        self.base.facts_with(Some(self.meta), 0, 0)
    }

    fn base(&self) -> (res: &TypeOpBase) {
        &self.base
    }

    fn base_mut(&mut self) -> (res: &mut TypeOpBase) {
        &mut self.base
    }

    fn meta(&self) -> (res: Option<TypeOpMeta>) {
        Some(self.meta)
    }

    fn pointer_sizes(&self) -> (res: (i32, i32)) {
        (0, 0)
    }

    fn set_metatype_in(&mut self, val: TypeMetatype) {
        self.meta.metain = val;
    }

    fn set_metatype_out(&mut self, val: TypeMetatype) {
        self.meta.metaout = val;
    }

    fn into_record(self) -> (res: TypeOpRecord) {
        TypeOpRecord { base: self.base, meta: Some(self.meta), near_pointer_size: 0, far_pointer_size: 0 }
    }
}

#[derive(Debug)]
pub struct TypeOpIntAdd {
    pub base: TypeOpBase,
    pub meta: TypeOpMeta,
}

impl TypeOpIntAdd {
    pub fn new() -> (res: TypeOpIntAdd)
        ensures
            res.facts() == (OpFacts {
                opcode: OpCode::IntAdd,
                opflags: PcodeOp::BINARY | PcodeOp::COMMUTATIVE,
                addlflags: ARITHMETIC_OP | INHERITS_SIGN,
                name: "+"@,
                behave: Some(OpBehavior { opcode: OpCode::IntAdd, unary: false, special: false }),
                meta: Some(TypeOpMeta { metaout: TypeMetatype::Int, metain: TypeMetatype::Int }),
                near: 0,
                far: 0,
            }),
    {
        TypeOpIntAdd {
            base: TypeOpBase::with_behavior(
                OpCode::IntAdd,
                "+",
                PcodeOp::BINARY | PcodeOp::COMMUTATIVE,
                ARITHMETIC_OP | INHERITS_SIGN,
                OpBehavior::new_special(OpCode::IntAdd, false, false),
            ),
            meta: TypeOpMeta::new(TypeMetatype::Int, TypeMetatype::Int),
        }
    }
}

impl Default for TypeOpIntAdd {
    fn default() -> (res: TypeOpIntAdd)
        ensures
            res.facts() == (OpFacts {
                opcode: OpCode::IntAdd,
                opflags: PcodeOp::BINARY | PcodeOp::COMMUTATIVE,
                addlflags: ARITHMETIC_OP | INHERITS_SIGN,
                name: "+"@,
                behave: Some(OpBehavior { opcode: OpCode::IntAdd, unary: false, special: false }),
                meta: Some(TypeOpMeta { metaout: TypeMetatype::Int, metain: TypeMetatype::Int }),
                near: 0,
                far: 0,
            }),
    {
        TypeOpIntAdd::new()
    }
}

impl TypeOp for TypeOpIntAdd {
    open spec fn facts(&self) -> OpFacts {
        self.base.facts_with(Some(self.meta), 0, 0)
    }

    fn base(&self) -> (res: &TypeOpBase) {
        &self.base
    }

    fn base_mut(&mut self) -> (res: &mut TypeOpBase) {
        &mut self.base
    }

    fn meta(&self) -> (res: Option<TypeOpMeta>) {
        Some(self.meta)
    }

    fn pointer_sizes(&self) -> (res: (i32, i32)) {
        (0, 0)
    }

    fn set_metatype_in(&mut self, val: TypeMetatype) {
        self.meta.metain = val;
    }

    fn set_metatype_out(&mut self, val: TypeMetatype) {
        self.meta.metaout = val;
    }

    fn into_record(self) -> (res: TypeOpRecord) {
        TypeOpRecord { base: self.base, meta: Some(self.meta), near_pointer_size: 0, far_pointer_size: 0 }
    }
}

#[derive(Debug)]
pub struct TypeOpIntSub {
    pub base: TypeOpBase,
    pub meta: TypeOpMeta,
}

impl TypeOpIntSub {
    pub fn new() -> (res: TypeOpIntSub)
        ensures
            res.facts() == (OpFacts {
                opcode: OpCode::IntSub,
                opflags: PcodeOp::BINARY,
                addlflags: ARITHMETIC_OP | INHERITS_SIGN,
                name: "-"@,
                behave: Some(OpBehavior { opcode: OpCode::IntSub, unary: false, special: false }),
                meta: Some(TypeOpMeta { metaout: TypeMetatype::Int, metain: TypeMetatype::Int }),
                near: 0,
                far: 0,
            }),
    {
        TypeOpIntSub {
            base: TypeOpBase::with_behavior(
                OpCode::IntSub,
                "-",
                PcodeOp::BINARY,
                ARITHMETIC_OP | INHERITS_SIGN,
                OpBehavior::new_special(OpCode::IntSub, false, false),
            ),
            meta: TypeOpMeta::new(TypeMetatype::Int, TypeMetatype::Int),
        }
    }
}

impl Default for TypeOpIntSub {
    fn default() -> (res: TypeOpIntSub)
        ensures
            res.facts() == (OpFacts {
                opcode: OpCode::IntSub,
                opflags: PcodeOp::BINARY,
                addlflags: ARITHMETIC_OP | INHERITS_SIGN,
                name: "-"@,
                behave: Some(OpBehavior { opcode: OpCode::IntSub, unary: false, special: false }),
                meta: Some(TypeOpMeta { metaout: TypeMetatype::Int, metain: TypeMetatype::Int }),
                near: 0,
                far: 0,
            }),
    {
        TypeOpIntSub::new()
    }
}

impl TypeOp for TypeOpIntSub {
    open spec fn facts(&self) -> OpFacts {
        self.base.facts_with(Some(self.meta), 0, 0)
    }

    fn base(&self) -> (res: &TypeOpBase) {
        &self.base
    }

    fn base_mut(&mut self) -> (res: &mut TypeOpBase) {
        &mut self.base
    }

    fn meta(&self) -> (res: Option<TypeOpMeta>) {
        Some(self.meta)
    }

    fn pointer_sizes(&self) -> (res: (i32, i32)) {
        (0, 0)
    }

    fn set_metatype_in(&mut self, val: TypeMetatype) {
        self.meta.metain = val;
    }

    fn set_metatype_out(&mut self, val: TypeMetatype) {
        self.meta.metaout = val;
    }

    fn into_record(self) -> (res: TypeOpRecord) {
        TypeOpRecord { base: self.base, meta: Some(self.meta), near_pointer_size: 0, far_pointer_size: 0 }
    }
}

#[derive(Debug)]
pub struct TypeOpIntCarry {
    pub base: TypeOpBase,
    pub meta: TypeOpMeta,
}

impl TypeOpIntCarry {
    pub fn new() -> (res: TypeOpIntCarry)
        ensures
            res.facts() == (OpFacts {
                opcode: OpCode::IntCarry,
                opflags: PcodeOp::BINARY | PcodeOp::COMMUTATIVE | PcodeOp::BOOLOUTPUT,
                addlflags: ARITHMETIC_OP,
                name: "CARRY"@,
                behave: Some(OpBehavior { opcode: OpCode::IntCarry, unary: false, special: false }),
                meta: Some(TypeOpMeta { metaout: TypeMetatype::Bool, metain: TypeMetatype::Uint }),
                near: 0,
                far: 0,
            }),
    {
        TypeOpIntCarry {
            base: TypeOpBase::with_behavior(
                OpCode::IntCarry,
                "CARRY",
                PcodeOp::BINARY | PcodeOp::COMMUTATIVE | PcodeOp::BOOLOUTPUT,
                ARITHMETIC_OP,
                OpBehavior::new_special(OpCode::IntCarry, false, false),
            ),
            meta: TypeOpMeta::new(TypeMetatype::Bool, TypeMetatype::Uint),
        }
    }
}

impl Default for TypeOpIntCarry {
    fn default() -> (res: TypeOpIntCarry)
        ensures
            res.facts() == (OpFacts {
                opcode: OpCode::IntCarry,
                opflags: PcodeOp::BINARY | PcodeOp::COMMUTATIVE | PcodeOp::BOOLOUTPUT,
                addlflags: ARITHMETIC_OP,
                name: "CARRY"@,
                behave: Some(OpBehavior { opcode: OpCode::IntCarry, unary: false, special: false }),
                meta: Some(TypeOpMeta { metaout: TypeMetatype::Bool, metain: TypeMetatype::Uint }),
                near: 0,
                far: 0,
            }),
    {
        TypeOpIntCarry::new()
    }
}

impl TypeOp for TypeOpIntCarry {
    open spec fn facts(&self) -> OpFacts {
        self.base.facts_with(Some(self.meta), 0, 0)
    }

    fn base(&self) -> (res: &TypeOpBase) {
        &self.base
    }

    fn base_mut(&mut self) -> (res: &mut TypeOpBase) {
        &mut self.base
    }

    fn meta(&self) -> (res: Option<TypeOpMeta>) {
        Some(self.meta)
    }

    fn pointer_sizes(&self) -> (res: (i32, i32)) {
        (0, 0)
    }

    fn set_metatype_in(&mut self, val: TypeMetatype) {
        self.meta.metain = val;
    }

    fn set_metatype_out(&mut self, val: TypeMetatype) {
        self.meta.metaout = val;
    }

    fn into_record(self) -> (res: TypeOpRecord) {
        TypeOpRecord { base: self.base, meta: Some(self.meta), near_pointer_size: 0, far_pointer_size: 0 }
    }
}

#[derive(Debug)]
pub struct TypeOpIntScarry {
    pub base: TypeOpBase,
    pub meta: TypeOpMeta,
}

impl TypeOpIntScarry {
    pub fn new() -> (res: TypeOpIntScarry)
        ensures
            res.facts() == (OpFacts {
                opcode: OpCode::IntScarry,
                opflags: PcodeOp::BINARY | PcodeOp::COMMUTATIVE | PcodeOp::BOOLOUTPUT,
                addlflags: ARITHMETIC_OP,
                name: "SCARRY"@,
                behave: Some(OpBehavior { opcode: OpCode::IntScarry, unary: false, special: false }),
                meta: Some(TypeOpMeta { metaout: TypeMetatype::Bool, metain: TypeMetatype::Int }),
                near: 0,
                far: 0,
            }),
    {
        TypeOpIntScarry {
            base: TypeOpBase::with_behavior(
                OpCode::IntScarry,
                "SCARRY",
                PcodeOp::BINARY | PcodeOp::COMMUTATIVE | PcodeOp::BOOLOUTPUT,
                ARITHMETIC_OP,
                OpBehavior::new_special(OpCode::IntScarry, false, false),
            ),
            meta: TypeOpMeta::new(TypeMetatype::Bool, TypeMetatype::Int),
        }
    }
}

impl Default for TypeOpIntScarry {
    fn default() -> (res: TypeOpIntScarry)
        ensures
            res.facts() == (OpFacts {
                opcode: OpCode::IntScarry,
                opflags: PcodeOp::BINARY | PcodeOp::COMMUTATIVE | PcodeOp::BOOLOUTPUT,
                addlflags: ARITHMETIC_OP,
                name: "SCARRY"@,
                behave: Some(OpBehavior { opcode: OpCode::IntScarry, unary: false, special: false }),
                meta: Some(TypeOpMeta { metaout: TypeMetatype::Bool, metain: TypeMetatype::Int }),
                near: 0,
                far: 0,
            }),
    {
        TypeOpIntScarry::new()
    }
}

impl TypeOp for TypeOpIntScarry {
    open spec fn facts(&self) -> OpFacts {
        self.base.facts_with(Some(self.meta), 0, 0)
    }

    fn base(&self) -> (res: &TypeOpBase) {
        &self.base
    }

    fn base_mut(&mut self) -> (res: &mut TypeOpBase) {
        &mut self.base
    }

    fn meta(&self) -> (res: Option<TypeOpMeta>) {
        Some(self.meta)
    }

    fn pointer_sizes(&self) -> (res: (i32, i32)) {
        (0, 0)
    }

    fn set_metatype_in(&mut self, val: TypeMetatype) {
        self.meta.metain = val;
    }

    fn set_metatype_out(&mut self, val: TypeMetatype) {
        self.meta.metaout = val;
    }

    fn into_record(self) -> (res: TypeOpRecord) {
        TypeOpRecord { base: self.base, meta: Some(self.meta), near_pointer_size: 0, far_pointer_size: 0 }
    }
}

#[derive(Debug)]
pub struct TypeOpIntSborrow {
    pub base: TypeOpBase,
    pub meta: TypeOpMeta,
}

impl TypeOpIntSborrow {
    pub fn new() -> (res: TypeOpIntSborrow)
        ensures
            res.facts() == (OpFacts {
                opcode: OpCode::IntSborrow,
                opflags: PcodeOp::BINARY | PcodeOp::BOOLOUTPUT,
                addlflags: ARITHMETIC_OP,
                name: "SBORROW"@,
                behave: Some(OpBehavior { opcode: OpCode::IntSborrow, unary: false, special: false }),
                meta: Some(TypeOpMeta { metaout: TypeMetatype::Bool, metain: TypeMetatype::Int }),
                near: 0,
                far: 0,
            }),
    {
        TypeOpIntSborrow {
            base: TypeOpBase::with_behavior(
                OpCode::IntSborrow,
                "SBORROW",
                PcodeOp::BINARY | PcodeOp::BOOLOUTPUT,
                ARITHMETIC_OP,
                OpBehavior::new_special(OpCode::IntSborrow, false, false),
            ),
            meta: TypeOpMeta::new(TypeMetatype::Bool, TypeMetatype::Int),
        }
    }
}

impl Default for TypeOpIntSborrow {
    fn default() -> (res: TypeOpIntSborrow)
        ensures
            res.facts() == (OpFacts {
                opcode: OpCode::IntSborrow,
                opflags: PcodeOp::BINARY | PcodeOp::BOOLOUTPUT,
                addlflags: ARITHMETIC_OP,
                name: "SBORROW"@,
                behave: Some(OpBehavior { opcode: OpCode::IntSborrow, unary: false, special: false }),
                meta: Some(TypeOpMeta { metaout: TypeMetatype::Bool, metain: TypeMetatype::Int }),
                near: 0,
                far: 0,
            }),
    {
        TypeOpIntSborrow::new()
    }
}

impl TypeOp for TypeOpIntSborrow {
    open spec fn facts(&self) -> OpFacts {
        self.base.facts_with(Some(self.meta), 0, 0)
    }

    fn base(&self) -> (res: &TypeOpBase) {
        &self.base
    }

    fn base_mut(&mut self) -> (res: &mut TypeOpBase) {
        &mut self.base
    }

    fn meta(&self) -> (res: Option<TypeOpMeta>) {
        Some(self.meta)
    }

    fn pointer_sizes(&self) -> (res: (i32, i32)) {
        (0, 0)
    }

    fn set_metatype_in(&mut self, val: TypeMetatype) {
        self.meta.metain = val;
    }

    fn set_metatype_out(&mut self, val: TypeMetatype) {
        self.meta.metaout = val;
    }

    fn into_record(self) -> (res: TypeOpRecord) {
        TypeOpRecord { base: self.base, meta: Some(self.meta), near_pointer_size: 0, far_pointer_size: 0 }
    }
}

#[derive(Debug)]
pub struct TypeOpInt2Comp {
    pub base: TypeOpBase,
    pub meta: TypeOpMeta,
}

impl TypeOpInt2Comp {
    pub fn new() -> (res: TypeOpInt2Comp)
        ensures
            res.facts() == (OpFacts {
                opcode: OpCode::Int2comp,
                opflags: PcodeOp::UNARY,
                addlflags: ARITHMETIC_OP | INHERITS_SIGN,
                name: "-"@,
                behave: Some(OpBehavior { opcode: OpCode::Int2comp, unary: true, special: false }),
                meta: Some(TypeOpMeta { metaout: TypeMetatype::Int, metain: TypeMetatype::Int }),
                near: 0,
                far: 0,
            }),
    {
        TypeOpInt2Comp {
            base: TypeOpBase::with_behavior(
                OpCode::Int2comp,
                "-",
                PcodeOp::UNARY,
                ARITHMETIC_OP | INHERITS_SIGN,
                OpBehavior::new_special(OpCode::Int2comp, true, false),
            ),
            meta: TypeOpMeta::new(TypeMetatype::Int, TypeMetatype::Int),
        }
    }
}

impl Default for TypeOpInt2Comp {
    fn default() -> (res: TypeOpInt2Comp)
        ensures
            res.facts() == (OpFacts {
                opcode: OpCode::Int2comp,
                opflags: PcodeOp::UNARY,
                addlflags: ARITHMETIC_OP | INHERITS_SIGN,
                name: "-"@,
                behave: Some(OpBehavior { opcode: OpCode::Int2comp, unary: true, special: false }),
                meta: Some(TypeOpMeta { metaout: TypeMetatype::Int, metain: TypeMetatype::Int }),
                near: 0,
                far: 0,
            }),
    {
        TypeOpInt2Comp::new()
    }
}

impl TypeOp for TypeOpInt2Comp {
    open spec fn facts(&self) -> OpFacts {
        self.base.facts_with(Some(self.meta), 0, 0)
    }

    fn base(&self) -> (res: &TypeOpBase) {
        &self.base
    }

    fn base_mut(&mut self) -> (res: &mut TypeOpBase) {
        &mut self.base
    }

    fn meta(&self) -> (res: Option<TypeOpMeta>) {
        Some(self.meta)
    }

    fn pointer_sizes(&self) -> (res: (i32, i32)) {
        (0, 0)
    }

    fn set_metatype_in(&mut self, val: TypeMetatype) {
        self.meta.metain = val;
    }

    fn set_metatype_out(&mut self, val: TypeMetatype) {
        self.meta.metaout = val;
    }

    fn into_record(self) -> (res: TypeOpRecord) {
        TypeOpRecord { base: self.base, meta: Some(self.meta), near_pointer_size: 0, far_pointer_size: 0 }
    }
}

#[derive(Debug)]
pub struct TypeOpIntNegate {
    pub base: TypeOpBase,
    pub meta: TypeOpMeta,
}

impl TypeOpIntNegate {
    pub fn new() -> (res: TypeOpIntNegate)
        ensures
            res.facts() == (OpFacts {
                opcode: OpCode::IntNegate,
                opflags: PcodeOp::UNARY,
                addlflags: LOGICAL_OP | INHERITS_SIGN,
                name: "~"@,
                behave: Some(OpBehavior { opcode: OpCode::IntNegate, unary: true, special: false }),
                meta: Some(TypeOpMeta { metaout: TypeMetatype::Uint, metain: TypeMetatype::Uint }),
                near: 0,
                far: 0,
            }),
    {
        TypeOpIntNegate {
            base: TypeOpBase::with_behavior(
                OpCode::IntNegate,
                "~",
                PcodeOp::UNARY,
                LOGICAL_OP | INHERITS_SIGN,
                OpBehavior::new_special(OpCode::IntNegate, true, false),
            ),
            meta: TypeOpMeta::new(TypeMetatype::Uint, TypeMetatype::Uint),
        }
    }
}

impl Default for TypeOpIntNegate {
    fn default() -> (res: TypeOpIntNegate)
        ensures
            res.facts() == (OpFacts {
                opcode: OpCode::IntNegate,
                opflags: PcodeOp::UNARY,
                addlflags: LOGICAL_OP | INHERITS_SIGN,
                name: "~"@,
                behave: Some(OpBehavior { opcode: OpCode::IntNegate, unary: true, special: false }),
                meta: Some(TypeOpMeta { metaout: TypeMetatype::Uint, metain: TypeMetatype::Uint }),
                near: 0,
                far: 0,
            }),
    {
        TypeOpIntNegate::new()
    }
}

impl TypeOp for TypeOpIntNegate {
    open spec fn facts(&self) -> OpFacts {
        self.base.facts_with(Some(self.meta), 0, 0)
    }

    fn base(&self) -> (res: &TypeOpBase) {
        &self.base
    }

    fn base_mut(&mut self) -> (res: &mut TypeOpBase) {
        &mut self.base
    }

    fn meta(&self) -> (res: Option<TypeOpMeta>) {
        Some(self.meta)
    }

    fn pointer_sizes(&self) -> (res: (i32, i32)) {
        (0, 0)
    }

    fn set_metatype_in(&mut self, val: TypeMetatype) {
        self.meta.metain = val;
    }

    fn set_metatype_out(&mut self, val: TypeMetatype) {
        self.meta.metaout = val;
    }

    fn into_record(self) -> (res: TypeOpRecord) {
        TypeOpRecord { base: self.base, meta: Some(self.meta), near_pointer_size: 0, far_pointer_size: 0 }
    }
}

#[derive(Debug)]
pub struct TypeOpIntXor {
    pub base: TypeOpBase,
    pub meta: TypeOpMeta,
}

impl TypeOpIntXor {
    pub fn new() -> (res: TypeOpIntXor)
        ensures
            res.facts() == (OpFacts {
                opcode: OpCode::IntXor,
                opflags: PcodeOp::BINARY | PcodeOp::COMMUTATIVE,
                addlflags: LOGICAL_OP | INHERITS_SIGN,
                name: "^"@,
                behave: Some(OpBehavior { opcode: OpCode::IntXor, unary: false, special: false }),
                meta: Some(TypeOpMeta { metaout: TypeMetatype::Uint, metain: TypeMetatype::Uint }),
                near: 0,
                far: 0,
            }),
    {
        TypeOpIntXor {
            base: TypeOpBase::with_behavior(
                OpCode::IntXor,
                "^",
                PcodeOp::BINARY | PcodeOp::COMMUTATIVE,
                LOGICAL_OP | INHERITS_SIGN,
                OpBehavior::new_special(OpCode::IntXor, false, false),
            ),
            meta: TypeOpMeta::new(TypeMetatype::Uint, TypeMetatype::Uint),
        }
    }
}

impl Default for TypeOpIntXor {
    fn default() -> (res: TypeOpIntXor)
        ensures
            res.facts() == (OpFacts {
                opcode: OpCode::IntXor,
                opflags: PcodeOp::BINARY | PcodeOp::COMMUTATIVE,
                addlflags: LOGICAL_OP | INHERITS_SIGN,
                name: "^"@,
                behave: Some(OpBehavior { opcode: OpCode::IntXor, unary: false, special: false }),
                meta: Some(TypeOpMeta { metaout: TypeMetatype::Uint, metain: TypeMetatype::Uint }),
                near: 0,
                far: 0,
            }),
    {
        TypeOpIntXor::new()
    }
}

impl TypeOp for TypeOpIntXor {
    open spec fn facts(&self) -> OpFacts {
        self.base.facts_with(Some(self.meta), 0, 0)
    }

    fn base(&self) -> (res: &TypeOpBase) {
        &self.base
    }

    fn base_mut(&mut self) -> (res: &mut TypeOpBase) {
        &mut self.base
    }

    fn meta(&self) -> (res: Option<TypeOpMeta>) {
        Some(self.meta)
    }

    fn pointer_sizes(&self) -> (res: (i32, i32)) {
        (0, 0)
    }

    fn set_metatype_in(&mut self, val: TypeMetatype) {
        self.meta.metain = val;
    }

    fn set_metatype_out(&mut self, val: TypeMetatype) {
        self.meta.metaout = val;
    }

    fn into_record(self) -> (res: TypeOpRecord) {
        TypeOpRecord { base: self.base, meta: Some(self.meta), near_pointer_size: 0, far_pointer_size: 0 }
    }
}

#[derive(Debug)]
pub struct TypeOpIntAnd {
    pub base: TypeOpBase,
    pub meta: TypeOpMeta,
}

impl TypeOpIntAnd {
    pub fn new() -> (res: TypeOpIntAnd)
        ensures
            res.facts() == (OpFacts {
                opcode: OpCode::IntAnd,
                opflags: PcodeOp::BINARY | PcodeOp::COMMUTATIVE,
                addlflags: LOGICAL_OP | INHERITS_SIGN,
                name: "&"@,
                behave: Some(OpBehavior { opcode: OpCode::IntAnd, unary: false, special: false }),
                meta: Some(TypeOpMeta { metaout: TypeMetatype::Uint, metain: TypeMetatype::Uint }),
                near: 0,
                far: 0,
            }),
    {
        TypeOpIntAnd {
            base: TypeOpBase::with_behavior(
                OpCode::IntAnd,
                "&",
                PcodeOp::BINARY | PcodeOp::COMMUTATIVE,
                LOGICAL_OP | INHERITS_SIGN,
                OpBehavior::new_special(OpCode::IntAnd, false, false),
            ),
            meta: TypeOpMeta::new(TypeMetatype::Uint, TypeMetatype::Uint),
        }
    }
}

impl Default for TypeOpIntAnd {
    fn default() -> (res: TypeOpIntAnd)
        ensures
            res.facts() == (OpFacts {
                opcode: OpCode::IntAnd,
                opflags: PcodeOp::BINARY | PcodeOp::COMMUTATIVE,
                addlflags: LOGICAL_OP | INHERITS_SIGN,
                name: "&"@,
                behave: Some(OpBehavior { opcode: OpCode::IntAnd, unary: false, special: false }),
                meta: Some(TypeOpMeta { metaout: TypeMetatype::Uint, metain: TypeMetatype::Uint }),
                near: 0,
                far: 0,
            }),
    {
        TypeOpIntAnd::new()
    }
}

impl TypeOp for TypeOpIntAnd {
    open spec fn facts(&self) -> OpFacts {
        self.base.facts_with(Some(self.meta), 0, 0)
    }

    fn base(&self) -> (res: &TypeOpBase) {
        &self.base
    }

    fn base_mut(&mut self) -> (res: &mut TypeOpBase) {
        &mut self.base
    }

    fn meta(&self) -> (res: Option<TypeOpMeta>) {
        Some(self.meta)
    }

    fn pointer_sizes(&self) -> (res: (i32, i32)) {
        (0, 0)
    }

    fn set_metatype_in(&mut self, val: TypeMetatype) {
        self.meta.metain = val;
    }

    fn set_metatype_out(&mut self, val: TypeMetatype) {
        self.meta.metaout = val;
    }

    fn into_record(self) -> (res: TypeOpRecord) {
        TypeOpRecord { base: self.base, meta: Some(self.meta), near_pointer_size: 0, far_pointer_size: 0 }
    }
}

#[derive(Debug)]
pub struct TypeOpIntOr {
    pub base: TypeOpBase,
    pub meta: TypeOpMeta,
}

impl TypeOpIntOr {
    pub fn new() -> (res: TypeOpIntOr)
        ensures
            res.facts() == (OpFacts {
                opcode: OpCode::IntOr,
                opflags: PcodeOp::BINARY | PcodeOp::COMMUTATIVE,
                addlflags: LOGICAL_OP | INHERITS_SIGN,
                name: "|"@,
                behave: Some(OpBehavior { opcode: OpCode::IntOr, unary: false, special: false }),
                meta: Some(TypeOpMeta { metaout: TypeMetatype::Uint, metain: TypeMetatype::Uint }),
                near: 0,
                far: 0,
            }),
    {
        TypeOpIntOr {
            base: TypeOpBase::with_behavior(
                OpCode::IntOr,
                "|",
                PcodeOp::BINARY | PcodeOp::COMMUTATIVE,
                LOGICAL_OP | INHERITS_SIGN,
                OpBehavior::new_special(OpCode::IntOr, false, false),
            ),
            meta: TypeOpMeta::new(TypeMetatype::Uint, TypeMetatype::Uint),
        }
    }
}

impl Default for TypeOpIntOr {
    fn default() -> (res: TypeOpIntOr)
        ensures
            res.facts() == (OpFacts {
                opcode: OpCode::IntOr,
                opflags: PcodeOp::BINARY | PcodeOp::COMMUTATIVE,
                addlflags: LOGICAL_OP | INHERITS_SIGN,
                name: "|"@,
                behave: Some(OpBehavior { opcode: OpCode::IntOr, unary: false, special: false }),
                meta: Some(TypeOpMeta { metaout: TypeMetatype::Uint, metain: TypeMetatype::Uint }),
                near: 0,
                far: 0,
            }),
    {
        TypeOpIntOr::new()
    }
}

impl TypeOp for TypeOpIntOr {
    open spec fn facts(&self) -> OpFacts {
        self.base.facts_with(Some(self.meta), 0, 0)
    }

    fn base(&self) -> (res: &TypeOpBase) {
        &self.base
    }

    fn base_mut(&mut self) -> (res: &mut TypeOpBase) {
        &mut self.base
    }

    fn meta(&self) -> (res: Option<TypeOpMeta>) {
        Some(self.meta)
    }

    fn pointer_sizes(&self) -> (res: (i32, i32)) {
        (0, 0)
    }

    fn set_metatype_in(&mut self, val: TypeMetatype) {
        self.meta.metain = val;
    }

    fn set_metatype_out(&mut self, val: TypeMetatype) {
        self.meta.metaout = val;
    }

    fn into_record(self) -> (res: TypeOpRecord) {
        TypeOpRecord { base: self.base, meta: Some(self.meta), near_pointer_size: 0, far_pointer_size: 0 }
    }
}

#[derive(Debug)]
pub struct TypeOpIntLeft {
    pub base: TypeOpBase,
    pub meta: TypeOpMeta,
}

impl TypeOpIntLeft {
    pub fn new() -> (res: TypeOpIntLeft)
        ensures
            res.facts() == (OpFacts {
                opcode: OpCode::IntLeft,
                opflags: PcodeOp::BINARY,
                addlflags: INHERITS_SIGN | INHERITS_SIGN_ZERO | SHIFT_OP,
                name: "<<"@,
                behave: Some(OpBehavior { opcode: OpCode::IntLeft, unary: false, special: false }),
                meta: Some(TypeOpMeta { metaout: TypeMetatype::Int, metain: TypeMetatype::Int }),
                near: 0,
                far: 0,
            }),
    {
        TypeOpIntLeft {
            base: TypeOpBase::with_behavior(
                OpCode::IntLeft,
                "<<",
                PcodeOp::BINARY,
                INHERITS_SIGN | INHERITS_SIGN_ZERO | SHIFT_OP,
                OpBehavior::new_special(OpCode::IntLeft, false, false),
            ),
            meta: TypeOpMeta::new(TypeMetatype::Int, TypeMetatype::Int),
        }
    }
}

impl Default for TypeOpIntLeft {
    fn default() -> (res: TypeOpIntLeft)
        ensures
            res.facts() == (OpFacts {
                opcode: OpCode::IntLeft,
                opflags: PcodeOp::BINARY,
                addlflags: INHERITS_SIGN | INHERITS_SIGN_ZERO | SHIFT_OP,
                name: "<<"@,
                behave: Some(OpBehavior { opcode: OpCode::IntLeft, unary: false, special: false }),
                meta: Some(TypeOpMeta { metaout: TypeMetatype::Int, metain: TypeMetatype::Int }),
                near: 0,
                far: 0,
            }),
    {
        TypeOpIntLeft::new()
    }
}

impl TypeOp for TypeOpIntLeft {
    open spec fn facts(&self) -> OpFacts {
        self.base.facts_with(Some(self.meta), 0, 0)
    }

    fn base(&self) -> (res: &TypeOpBase) {
        &self.base
    }

    fn base_mut(&mut self) -> (res: &mut TypeOpBase) {
        &mut self.base
    }

    fn meta(&self) -> (res: Option<TypeOpMeta>) {
        Some(self.meta)
    }

    fn pointer_sizes(&self) -> (res: (i32, i32)) {
        (0, 0)
    }

    fn set_metatype_in(&mut self, val: TypeMetatype) {
        self.meta.metain = val;
    }

    fn set_metatype_out(&mut self, val: TypeMetatype) {
        self.meta.metaout = val;
    }

    fn into_record(self) -> (res: TypeOpRecord) {
        TypeOpRecord { base: self.base, meta: Some(self.meta), near_pointer_size: 0, far_pointer_size: 0 }
    }
}

#[derive(Debug)]
pub struct TypeOpIntRight {
    pub base: TypeOpBase,
    pub meta: TypeOpMeta,
}

impl TypeOpIntRight {
    pub fn new() -> (res: TypeOpIntRight)
        ensures
            res.facts() == (OpFacts {
                opcode: OpCode::IntRight,
                opflags: PcodeOp::BINARY,
                addlflags: INHERITS_SIGN | INHERITS_SIGN_ZERO | SHIFT_OP,
                name: ">>"@,
                behave: Some(OpBehavior { opcode: OpCode::IntRight, unary: false, special: false }),
                meta: Some(TypeOpMeta { metaout: TypeMetatype::Uint, metain: TypeMetatype::Uint }),
                near: 0,
                far: 0,
            }),
    {
        TypeOpIntRight {
            base: TypeOpBase::with_behavior(
                OpCode::IntRight,
                ">>",
                PcodeOp::BINARY,
                INHERITS_SIGN | INHERITS_SIGN_ZERO | SHIFT_OP,
                OpBehavior::new_special(OpCode::IntRight, false, false),
            ),
            meta: TypeOpMeta::new(TypeMetatype::Uint, TypeMetatype::Uint),
        }
    }
}

impl Default for TypeOpIntRight {
    fn default() -> (res: TypeOpIntRight)
        ensures
            res.facts() == (OpFacts {
                opcode: OpCode::IntRight,
                opflags: PcodeOp::BINARY,
                addlflags: INHERITS_SIGN | INHERITS_SIGN_ZERO | SHIFT_OP,
                name: ">>"@,
                behave: Some(OpBehavior { opcode: OpCode::IntRight, unary: false, special: false }),
                meta: Some(TypeOpMeta { metaout: TypeMetatype::Uint, metain: TypeMetatype::Uint }),
                near: 0,
                far: 0,
            }),
    {
        TypeOpIntRight::new()
    }
}

impl TypeOp for TypeOpIntRight {
    open spec fn facts(&self) -> OpFacts {
        self.base.facts_with(Some(self.meta), 0, 0)
    }

    fn base(&self) -> (res: &TypeOpBase) {
        &self.base
    }

    fn base_mut(&mut self) -> (res: &mut TypeOpBase) {
        &mut self.base
    }

    fn meta(&self) -> (res: Option<TypeOpMeta>) {
        Some(self.meta)
    }

    fn pointer_sizes(&self) -> (res: (i32, i32)) {
        (0, 0)
    }

    fn set_metatype_in(&mut self, val: TypeMetatype) {
        self.meta.metain = val;
    }

    fn set_metatype_out(&mut self, val: TypeMetatype) {
        self.meta.metaout = val;
    }

    fn into_record(self) -> (res: TypeOpRecord) {
        TypeOpRecord { base: self.base, meta: Some(self.meta), near_pointer_size: 0, far_pointer_size: 0 }
    }
}

#[derive(Debug)]
pub struct TypeOpIntSright {
    pub base: TypeOpBase,
    pub meta: TypeOpMeta,
}

impl TypeOpIntSright {
    pub fn new() -> (res: TypeOpIntSright)
        ensures
            res.facts() == (OpFacts {
                opcode: OpCode::IntSright,
                opflags: PcodeOp::BINARY,
                addlflags: INHERITS_SIGN | INHERITS_SIGN_ZERO | SHIFT_OP,
                name: ">>"@,
                behave: Some(OpBehavior { opcode: OpCode::IntSright, unary: false, special: false }),
                meta: Some(TypeOpMeta { metaout: TypeMetatype::Int, metain: TypeMetatype::Int }),
                near: 0,
                far: 0,
            }),
    {
        TypeOpIntSright {
            base: TypeOpBase::with_behavior(
                OpCode::IntSright,
                ">>",
                PcodeOp::BINARY,
                INHERITS_SIGN | INHERITS_SIGN_ZERO | SHIFT_OP,
                OpBehavior::new_special(OpCode::IntSright, false, false),
            ),
            meta: TypeOpMeta::new(TypeMetatype::Int, TypeMetatype::Int),
        }
    }
}

impl Default for TypeOpIntSright {
    fn default() -> (res: TypeOpIntSright)
        ensures
            res.facts() == (OpFacts {
                opcode: OpCode::IntSright,
                opflags: PcodeOp::BINARY,
                addlflags: INHERITS_SIGN | INHERITS_SIGN_ZERO | SHIFT_OP,
                name: ">>"@,
                behave: Some(OpBehavior { opcode: OpCode::IntSright, unary: false, special: false }),
                meta: Some(TypeOpMeta { metaout: TypeMetatype::Int, metain: TypeMetatype::Int }),
                near: 0,
                far: 0,
            }),
    {
        TypeOpIntSright::new()
    }
}

impl TypeOp for TypeOpIntSright {
    open spec fn facts(&self) -> OpFacts {
        self.base.facts_with(Some(self.meta), 0, 0)
    }

    fn base(&self) -> (res: &TypeOpBase) {
        &self.base
    }

    fn base_mut(&mut self) -> (res: &mut TypeOpBase) {
        &mut self.base
    }

    fn meta(&self) -> (res: Option<TypeOpMeta>) {
        Some(self.meta)
    }

    fn pointer_sizes(&self) -> (res: (i32, i32)) {
        (0, 0)
    }

    fn set_metatype_in(&mut self, val: TypeMetatype) {
        self.meta.metain = val;
    }

    fn set_metatype_out(&mut self, val: TypeMetatype) {
        self.meta.metaout = val;
    }

    fn into_record(self) -> (res: TypeOpRecord) {
        TypeOpRecord { base: self.base, meta: Some(self.meta), near_pointer_size: 0, far_pointer_size: 0 }
    }
}

#[derive(Debug)]
pub struct TypeOpIntMult {
    pub base: TypeOpBase,
    pub meta: TypeOpMeta,
}

impl TypeOpIntMult {
    pub fn new() -> (res: TypeOpIntMult)
        ensures
            res.facts() == (OpFacts {
                opcode: OpCode::IntMult,
                opflags: PcodeOp::BINARY | PcodeOp::COMMUTATIVE,
                addlflags: ARITHMETIC_OP | INHERITS_SIGN,
                name: "*"@,
                behave: Some(OpBehavior { opcode: OpCode::IntMult, unary: false, special: false }),
                meta: Some(TypeOpMeta { metaout: TypeMetatype::Int, metain: TypeMetatype::Int }),
                near: 0,
                far: 0,
            }),
    {
        TypeOpIntMult {
            base: TypeOpBase::with_behavior(
                OpCode::IntMult,
                "*",
                PcodeOp::BINARY | PcodeOp::COMMUTATIVE,
                ARITHMETIC_OP | INHERITS_SIGN,
                OpBehavior::new_special(OpCode::IntMult, false, false),
            ),
            meta: TypeOpMeta::new(TypeMetatype::Int, TypeMetatype::Int),
        }
    }
}

impl Default for TypeOpIntMult {
    fn default() -> (res: TypeOpIntMult)
        ensures
            res.facts() == (OpFacts {
                opcode: OpCode::IntMult,
                opflags: PcodeOp::BINARY | PcodeOp::COMMUTATIVE,
                addlflags: ARITHMETIC_OP | INHERITS_SIGN,
                name: "*"@,
                behave: Some(OpBehavior { opcode: OpCode::IntMult, unary: false, special: false }),
                meta: Some(TypeOpMeta { metaout: TypeMetatype::Int, metain: TypeMetatype::Int }),
                near: 0,
                far: 0,
            }),
    {
        TypeOpIntMult::new()
    }
}

impl TypeOp for TypeOpIntMult {
    open spec fn facts(&self) -> OpFacts {
        self.base.facts_with(Some(self.meta), 0, 0)
    }

    fn base(&self) -> (res: &TypeOpBase) {
        &self.base
    }

    fn base_mut(&mut self) -> (res: &mut TypeOpBase) {
        &mut self.base
    }

    fn meta(&self) -> (res: Option<TypeOpMeta>) {
        Some(self.meta)
    }

    fn pointer_sizes(&self) -> (res: (i32, i32)) {
        (0, 0)
    }

    fn set_metatype_in(&mut self, val: TypeMetatype) {
        self.meta.metain = val;
    }

    fn set_metatype_out(&mut self, val: TypeMetatype) {
        self.meta.metaout = val;
    }

    fn into_record(self) -> (res: TypeOpRecord) {
        TypeOpRecord { base: self.base, meta: Some(self.meta), near_pointer_size: 0, far_pointer_size: 0 }
    }
}

#[derive(Debug)]
pub struct TypeOpIntDiv {
    pub base: TypeOpBase,
    pub meta: TypeOpMeta,
}

impl TypeOpIntDiv {
    pub fn new() -> (res: TypeOpIntDiv)
        ensures
            res.facts() == (OpFacts {
                opcode: OpCode::IntDiv,
                opflags: PcodeOp::BINARY,
                addlflags: ARITHMETIC_OP | INHERITS_SIGN,
                name: "/"@,
                behave: Some(OpBehavior { opcode: OpCode::IntDiv, unary: false, special: false }),
                meta: Some(TypeOpMeta { metaout: TypeMetatype::Uint, metain: TypeMetatype::Uint }),
                near: 0,
                far: 0,
            }),
    {
        TypeOpIntDiv {
            base: TypeOpBase::with_behavior(
                OpCode::IntDiv,
                "/",
                PcodeOp::BINARY,
                ARITHMETIC_OP | INHERITS_SIGN,
                OpBehavior::new_special(OpCode::IntDiv, false, false),
            ),
            meta: TypeOpMeta::new(TypeMetatype::Uint, TypeMetatype::Uint),
        }
    }
}

impl Default for TypeOpIntDiv {
    fn default() -> (res: TypeOpIntDiv)
        ensures
            res.facts() == (OpFacts {
                opcode: OpCode::IntDiv,
                opflags: PcodeOp::BINARY,
                addlflags: ARITHMETIC_OP | INHERITS_SIGN,
                name: "/"@,
                behave: Some(OpBehavior { opcode: OpCode::IntDiv, unary: false, special: false }),
                meta: Some(TypeOpMeta { metaout: TypeMetatype::Uint, metain: TypeMetatype::Uint }),
                near: 0,
                far: 0,
            }),
    {
        TypeOpIntDiv::new()
    }
}

impl TypeOp for TypeOpIntDiv {
    open spec fn facts(&self) -> OpFacts {
        self.base.facts_with(Some(self.meta), 0, 0)
    }

    fn base(&self) -> (res: &TypeOpBase) {
        &self.base
    }

    fn base_mut(&mut self) -> (res: &mut TypeOpBase) {
        &mut self.base
    }

    fn meta(&self) -> (res: Option<TypeOpMeta>) {
        Some(self.meta)
    }

    fn pointer_sizes(&self) -> (res: (i32, i32)) {
        (0, 0)
    }

    fn set_metatype_in(&mut self, val: TypeMetatype) {
        self.meta.metain = val;
    }

    fn set_metatype_out(&mut self, val: TypeMetatype) {
        self.meta.metaout = val;
    }

    fn into_record(self) -> (res: TypeOpRecord) {
        TypeOpRecord { base: self.base, meta: Some(self.meta), near_pointer_size: 0, far_pointer_size: 0 }
    }
}

#[derive(Debug)]
pub struct TypeOpIntSdiv {
    pub base: TypeOpBase,
    pub meta: TypeOpMeta,
}

impl TypeOpIntSdiv {
    pub fn new() -> (res: TypeOpIntSdiv)
        ensures
            res.facts() == (OpFacts {
                opcode: OpCode::IntSdiv,
                opflags: PcodeOp::BINARY,
                addlflags: ARITHMETIC_OP | INHERITS_SIGN,
                name: "/"@,
                behave: Some(OpBehavior { opcode: OpCode::IntSdiv, unary: false, special: false }),
                meta: Some(TypeOpMeta { metaout: TypeMetatype::Int, metain: TypeMetatype::Int }),
                near: 0,
                far: 0,
            }),
    {
        TypeOpIntSdiv {
            base: TypeOpBase::with_behavior(
                OpCode::IntSdiv,
                "/",
                PcodeOp::BINARY,
                ARITHMETIC_OP | INHERITS_SIGN,
                OpBehavior::new_special(OpCode::IntSdiv, false, false),
            ),
            meta: TypeOpMeta::new(TypeMetatype::Int, TypeMetatype::Int),
        }
    }
}

impl Default for TypeOpIntSdiv {
    fn default() -> (res: TypeOpIntSdiv)
        ensures
            res.facts() == (OpFacts {
                opcode: OpCode::IntSdiv,
                opflags: PcodeOp::BINARY,
                addlflags: ARITHMETIC_OP | INHERITS_SIGN,
                name: "/"@,
                behave: Some(OpBehavior { opcode: OpCode::IntSdiv, unary: false, special: false }),
                meta: Some(TypeOpMeta { metaout: TypeMetatype::Int, metain: TypeMetatype::Int }),
                near: 0,
                far: 0,
            }),
    {
        TypeOpIntSdiv::new()
    }
}

impl TypeOp for TypeOpIntSdiv {
    open spec fn facts(&self) -> OpFacts {
        self.base.facts_with(Some(self.meta), 0, 0)
    }

    fn base(&self) -> (res: &TypeOpBase) {
        &self.base
    }

    fn base_mut(&mut self) -> (res: &mut TypeOpBase) {
        &mut self.base
    }

    fn meta(&self) -> (res: Option<TypeOpMeta>) {
        Some(self.meta)
    }

    fn pointer_sizes(&self) -> (res: (i32, i32)) {
        (0, 0)
    }

    fn set_metatype_in(&mut self, val: TypeMetatype) {
        self.meta.metain = val;
    }

    fn set_metatype_out(&mut self, val: TypeMetatype) {
        self.meta.metaout = val;
    }

    fn into_record(self) -> (res: TypeOpRecord) {
        TypeOpRecord { base: self.base, meta: Some(self.meta), near_pointer_size: 0, far_pointer_size: 0 }
    }
}

#[derive(Debug)]
pub struct TypeOpIntRem {
    pub base: TypeOpBase,
    pub meta: TypeOpMeta,
}

impl TypeOpIntRem {
    pub fn new() -> (res: TypeOpIntRem)
        ensures
            res.facts() == (OpFacts {
                opcode: OpCode::IntRem,
                opflags: PcodeOp::BINARY,
                addlflags: ARITHMETIC_OP | INHERITS_SIGN | INHERITS_SIGN_ZERO,
                name: "%"@,
                behave: Some(OpBehavior { opcode: OpCode::IntRem, unary: false, special: false }),
                meta: Some(TypeOpMeta { metaout: TypeMetatype::Uint, metain: TypeMetatype::Uint }),
                near: 0,
                far: 0,
            }),
    {
        TypeOpIntRem {
            base: TypeOpBase::with_behavior(
                OpCode::IntRem,
                "%",
                PcodeOp::BINARY,
                ARITHMETIC_OP | INHERITS_SIGN | INHERITS_SIGN_ZERO,
                OpBehavior::new_special(OpCode::IntRem, false, false),
            ),
            meta: TypeOpMeta::new(TypeMetatype::Uint, TypeMetatype::Uint),
        }
    }
}

impl Default for TypeOpIntRem {
    fn default() -> (res: TypeOpIntRem)
        ensures
            res.facts() == (OpFacts {
                opcode: OpCode::IntRem,
                opflags: PcodeOp::BINARY,
                addlflags: ARITHMETIC_OP | INHERITS_SIGN | INHERITS_SIGN_ZERO,
                name: "%"@,
                behave: Some(OpBehavior { opcode: OpCode::IntRem, unary: false, special: false }),
                meta: Some(TypeOpMeta { metaout: TypeMetatype::Uint, metain: TypeMetatype::Uint }),
                near: 0,
                far: 0,
            }),
    {
        TypeOpIntRem::new()
    }
}

impl TypeOp for TypeOpIntRem {
    open spec fn facts(&self) -> OpFacts {
        self.base.facts_with(Some(self.meta), 0, 0)
    }

    fn base(&self) -> (res: &TypeOpBase) {
        &self.base
    }

    fn base_mut(&mut self) -> (res: &mut TypeOpBase) {
        &mut self.base
    }

    fn meta(&self) -> (res: Option<TypeOpMeta>) {
        Some(self.meta)
    }

    fn pointer_sizes(&self) -> (res: (i32, i32)) {
        (0, 0)
    }

    fn set_metatype_in(&mut self, val: TypeMetatype) {
        self.meta.metain = val;
    }

    fn set_metatype_out(&mut self, val: TypeMetatype) {
        self.meta.metaout = val;
    }

    fn into_record(self) -> (res: TypeOpRecord) {
        TypeOpRecord { base: self.base, meta: Some(self.meta), near_pointer_size: 0, far_pointer_size: 0 }
    }
}

#[derive(Debug)]
pub struct TypeOpIntSrem {
    pub base: TypeOpBase,
    pub meta: TypeOpMeta,
}

impl TypeOpIntSrem {
    pub fn new() -> (res: TypeOpIntSrem)
        ensures
            res.facts() == (OpFacts {
                opcode: OpCode::IntSrem,
                opflags: PcodeOp::BINARY,
                addlflags: ARITHMETIC_OP | INHERITS_SIGN | INHERITS_SIGN_ZERO,
                name: "%"@,
                behave: Some(OpBehavior { opcode: OpCode::IntSrem, unary: false, special: false }),
                meta: Some(TypeOpMeta { metaout: TypeMetatype::Int, metain: TypeMetatype::Int }),
                near: 0,
                far: 0,
            }),
    {
        TypeOpIntSrem {
            base: TypeOpBase::with_behavior(
                OpCode::IntSrem,
                "%",
                PcodeOp::BINARY,
                ARITHMETIC_OP | INHERITS_SIGN | INHERITS_SIGN_ZERO,
                OpBehavior::new_special(OpCode::IntSrem, false, false),
            ),
            meta: TypeOpMeta::new(TypeMetatype::Int, TypeMetatype::Int),
        }
    }
}

impl Default for TypeOpIntSrem {
    fn default() -> (res: TypeOpIntSrem)
        ensures
            res.facts() == (OpFacts {
                opcode: OpCode::IntSrem,
                opflags: PcodeOp::BINARY,
                addlflags: ARITHMETIC_OP | INHERITS_SIGN | INHERITS_SIGN_ZERO,
                name: "%"@,
                behave: Some(OpBehavior { opcode: OpCode::IntSrem, unary: false, special: false }),
                meta: Some(TypeOpMeta { metaout: TypeMetatype::Int, metain: TypeMetatype::Int }),
                near: 0,
                far: 0,
            }),
    {
        TypeOpIntSrem::new()
    }
}

impl TypeOp for TypeOpIntSrem {
    open spec fn facts(&self) -> OpFacts {
        self.base.facts_with(Some(self.meta), 0, 0)
    }

    fn base(&self) -> (res: &TypeOpBase) {
        &self.base
    }

    fn base_mut(&mut self) -> (res: &mut TypeOpBase) {
        &mut self.base
    }

    fn meta(&self) -> (res: Option<TypeOpMeta>) {
        Some(self.meta)
    }

    fn pointer_sizes(&self) -> (res: (i32, i32)) {
        (0, 0)
    }

    fn set_metatype_in(&mut self, val: TypeMetatype) {
        self.meta.metain = val;
    }

    fn set_metatype_out(&mut self, val: TypeMetatype) {
        self.meta.metaout = val;
    }

    fn into_record(self) -> (res: TypeOpRecord) {
        TypeOpRecord { base: self.base, meta: Some(self.meta), near_pointer_size: 0, far_pointer_size: 0 }
    }
}

#[derive(Debug)]
pub struct TypeOpBoolNegate {
    pub base: TypeOpBase,
    pub meta: TypeOpMeta,
}

impl TypeOpBoolNegate {
    pub fn new() -> (res: TypeOpBoolNegate)
        ensures
            res.facts() == (OpFacts {
                opcode: OpCode::BoolNegate,
                opflags: PcodeOp::UNARY | PcodeOp::BOOLOUTPUT,
                addlflags: LOGICAL_OP,
                name: "!"@,
                behave: Some(OpBehavior { opcode: OpCode::BoolNegate, unary: true, special: false }),
                meta: Some(TypeOpMeta { metaout: TypeMetatype::Bool, metain: TypeMetatype::Bool }),
                near: 0,
                far: 0,
            }),
    {
        TypeOpBoolNegate {
            base: TypeOpBase::with_behavior(
                OpCode::BoolNegate,
                "!",
                PcodeOp::UNARY | PcodeOp::BOOLOUTPUT,
                LOGICAL_OP,
                OpBehavior::new_special(OpCode::BoolNegate, true, false),
            ),
            meta: TypeOpMeta::new(TypeMetatype::Bool, TypeMetatype::Bool),
        }
    }
}

impl Default for TypeOpBoolNegate {
    fn default() -> (res: TypeOpBoolNegate)
        ensures
            res.facts() == (OpFacts {
                opcode: OpCode::BoolNegate,
                opflags: PcodeOp::UNARY | PcodeOp::BOOLOUTPUT,
                addlflags: LOGICAL_OP,
                name: "!"@,
                behave: Some(OpBehavior { opcode: OpCode::BoolNegate, unary: true, special: false }),
                meta: Some(TypeOpMeta { metaout: TypeMetatype::Bool, metain: TypeMetatype::Bool }),
                near: 0,
                far: 0,
            }),
    {
        TypeOpBoolNegate::new()
    }
}

impl TypeOp for TypeOpBoolNegate {
    open spec fn facts(&self) -> OpFacts {
        self.base.facts_with(Some(self.meta), 0, 0)
    }

    fn base(&self) -> (res: &TypeOpBase) {
        &self.base
    }

    fn base_mut(&mut self) -> (res: &mut TypeOpBase) {
        &mut self.base
    }

    fn meta(&self) -> (res: Option<TypeOpMeta>) {
        Some(self.meta)
    }

    fn pointer_sizes(&self) -> (res: (i32, i32)) {
        (0, 0)
    }

    fn set_metatype_in(&mut self, val: TypeMetatype) {
        self.meta.metain = val;
    }

    fn set_metatype_out(&mut self, val: TypeMetatype) {
        self.meta.metaout = val;
    }

    fn into_record(self) -> (res: TypeOpRecord) {
        TypeOpRecord { base: self.base, meta: Some(self.meta), near_pointer_size: 0, far_pointer_size: 0 }
    }
}

#[derive(Debug)]
pub struct TypeOpBoolXor {
    pub base: TypeOpBase,
    pub meta: TypeOpMeta,
}

impl TypeOpBoolXor {
    pub fn new() -> (res: TypeOpBoolXor)
        ensures
            res.facts() == (OpFacts {
                opcode: OpCode::BoolXor,
                opflags: PcodeOp::BINARY | PcodeOp::COMMUTATIVE | PcodeOp::BOOLOUTPUT,
                addlflags: LOGICAL_OP,
                name: "^^"@,
                behave: Some(OpBehavior { opcode: OpCode::BoolXor, unary: false, special: false }),
                meta: Some(TypeOpMeta { metaout: TypeMetatype::Bool, metain: TypeMetatype::Bool }),
                near: 0,
                far: 0,
            }),
    {
        TypeOpBoolXor {
            base: TypeOpBase::with_behavior(
                OpCode::BoolXor,
                "^^",
                PcodeOp::BINARY | PcodeOp::COMMUTATIVE | PcodeOp::BOOLOUTPUT,
                LOGICAL_OP,
                OpBehavior::new_special(OpCode::BoolXor, false, false),
            ),
            meta: TypeOpMeta::new(TypeMetatype::Bool, TypeMetatype::Bool),
        }
    }
}

impl Default for TypeOpBoolXor {
    fn default() -> (res: TypeOpBoolXor)
        ensures
            res.facts() == (OpFacts {
                opcode: OpCode::BoolXor,
                opflags: PcodeOp::BINARY | PcodeOp::COMMUTATIVE | PcodeOp::BOOLOUTPUT,
                addlflags: LOGICAL_OP,
                name: "^^"@,
                behave: Some(OpBehavior { opcode: OpCode::BoolXor, unary: false, special: false }),
                meta: Some(TypeOpMeta { metaout: TypeMetatype::Bool, metain: TypeMetatype::Bool }),
                near: 0,
                far: 0,
            }),
    {
        TypeOpBoolXor::new()
    }
}

impl TypeOp for TypeOpBoolXor {
    open spec fn facts(&self) -> OpFacts {
        self.base.facts_with(Some(self.meta), 0, 0)
    }

    fn base(&self) -> (res: &TypeOpBase) {
        &self.base
    }

    fn base_mut(&mut self) -> (res: &mut TypeOpBase) {
        &mut self.base
    }

    fn meta(&self) -> (res: Option<TypeOpMeta>) {
        Some(self.meta)
    }

    fn pointer_sizes(&self) -> (res: (i32, i32)) {
        (0, 0)
    }

    fn set_metatype_in(&mut self, val: TypeMetatype) {
        self.meta.metain = val;
    }

    fn set_metatype_out(&mut self, val: TypeMetatype) {
        self.meta.metaout = val;
    }

    fn into_record(self) -> (res: TypeOpRecord) {
        TypeOpRecord { base: self.base, meta: Some(self.meta), near_pointer_size: 0, far_pointer_size: 0 }
    }
}

#[derive(Debug)]
pub struct TypeOpBoolAnd {
    pub base: TypeOpBase,
    pub meta: TypeOpMeta,
}

impl TypeOpBoolAnd {
    pub fn new() -> (res: TypeOpBoolAnd)
        ensures
            res.facts() == (OpFacts {
                opcode: OpCode::BoolAnd,
                opflags: PcodeOp::BINARY | PcodeOp::COMMUTATIVE | PcodeOp::BOOLOUTPUT,
                addlflags: LOGICAL_OP,
                name: "&&"@,
                behave: Some(OpBehavior { opcode: OpCode::BoolAnd, unary: false, special: false }),
                meta: Some(TypeOpMeta { metaout: TypeMetatype::Bool, metain: TypeMetatype::Bool }),
                near: 0,
                far: 0,
            }),
    {
        TypeOpBoolAnd {
            base: TypeOpBase::with_behavior(
                OpCode::BoolAnd,
                "&&",
                PcodeOp::BINARY | PcodeOp::COMMUTATIVE | PcodeOp::BOOLOUTPUT,
                LOGICAL_OP,
                OpBehavior::new_special(OpCode::BoolAnd, false, false),
            ),
            meta: TypeOpMeta::new(TypeMetatype::Bool, TypeMetatype::Bool),
        }
    }
}

impl Default for TypeOpBoolAnd {
    fn default() -> (res: TypeOpBoolAnd)
        ensures
            res.facts() == (OpFacts {
                opcode: OpCode::BoolAnd,
                opflags: PcodeOp::BINARY | PcodeOp::COMMUTATIVE | PcodeOp::BOOLOUTPUT,
                addlflags: LOGICAL_OP,
                name: "&&"@,
                behave: Some(OpBehavior { opcode: OpCode::BoolAnd, unary: false, special: false }),
                meta: Some(TypeOpMeta { metaout: TypeMetatype::Bool, metain: TypeMetatype::Bool }),
                near: 0,
                far: 0,
            }),
    {
        TypeOpBoolAnd::new()
    }
}

impl TypeOp for TypeOpBoolAnd {
    open spec fn facts(&self) -> OpFacts {
        self.base.facts_with(Some(self.meta), 0, 0)
    }

    fn base(&self) -> (res: &TypeOpBase) {
        &self.base
    }

    fn base_mut(&mut self) -> (res: &mut TypeOpBase) {
        &mut self.base
    }

    fn meta(&self) -> (res: Option<TypeOpMeta>) {
        Some(self.meta)
    }

    fn pointer_sizes(&self) -> (res: (i32, i32)) {
        (0, 0)
    }

    fn set_metatype_in(&mut self, val: TypeMetatype) {
        self.meta.metain = val;
    }

    fn set_metatype_out(&mut self, val: TypeMetatype) {
        self.meta.metaout = val;
    }

    fn into_record(self) -> (res: TypeOpRecord) {
        TypeOpRecord { base: self.base, meta: Some(self.meta), near_pointer_size: 0, far_pointer_size: 0 }
    }
}

#[derive(Debug)]
pub struct TypeOpBoolOr {
    pub base: TypeOpBase,
    pub meta: TypeOpMeta,
}

impl TypeOpBoolOr {
    pub fn new() -> (res: TypeOpBoolOr)
        ensures
            res.facts() == (OpFacts {
                opcode: OpCode::BoolOr,
                opflags: PcodeOp::BINARY | PcodeOp::COMMUTATIVE | PcodeOp::BOOLOUTPUT,
                addlflags: LOGICAL_OP,
                name: "||"@,
                behave: Some(OpBehavior { opcode: OpCode::BoolOr, unary: false, special: false }),
                meta: Some(TypeOpMeta { metaout: TypeMetatype::Bool, metain: TypeMetatype::Bool }),
                near: 0,
                far: 0,
            }),
    {
        TypeOpBoolOr {
            base: TypeOpBase::with_behavior(
                OpCode::BoolOr,
                "||",
                PcodeOp::BINARY | PcodeOp::COMMUTATIVE | PcodeOp::BOOLOUTPUT,
                LOGICAL_OP,
                OpBehavior::new_special(OpCode::BoolOr, false, false),
            ),
            meta: TypeOpMeta::new(TypeMetatype::Bool, TypeMetatype::Bool),
        }
    }
}

impl Default for TypeOpBoolOr {
    fn default() -> (res: TypeOpBoolOr)
        ensures
            res.facts() == (OpFacts {
                opcode: OpCode::BoolOr,
                opflags: PcodeOp::BINARY | PcodeOp::COMMUTATIVE | PcodeOp::BOOLOUTPUT,
                addlflags: LOGICAL_OP,
                name: "||"@,
                behave: Some(OpBehavior { opcode: OpCode::BoolOr, unary: false, special: false }),
                meta: Some(TypeOpMeta { metaout: TypeMetatype::Bool, metain: TypeMetatype::Bool }),
                near: 0,
                far: 0,
            }),
    {
        TypeOpBoolOr::new()
    }
}

impl TypeOp for TypeOpBoolOr {
    open spec fn facts(&self) -> OpFacts {
        self.base.facts_with(Some(self.meta), 0, 0)
    }

    fn base(&self) -> (res: &TypeOpBase) {
        &self.base
    }

    fn base_mut(&mut self) -> (res: &mut TypeOpBase) {
        &mut self.base
    }

    fn meta(&self) -> (res: Option<TypeOpMeta>) {
        Some(self.meta)
    }

    fn pointer_sizes(&self) -> (res: (i32, i32)) {
        (0, 0)
    }

    fn set_metatype_in(&mut self, val: TypeMetatype) {
        self.meta.metain = val;
    }

    fn set_metatype_out(&mut self, val: TypeMetatype) {
        self.meta.metaout = val;
    }

    fn into_record(self) -> (res: TypeOpRecord) {
        TypeOpRecord { base: self.base, meta: Some(self.meta), near_pointer_size: 0, far_pointer_size: 0 }
    }
}

#[derive(Debug)]
pub struct TypeOpFloatEqual {
    pub base: TypeOpBase,
    pub meta: TypeOpMeta,
}

impl TypeOpFloatEqual {
    pub fn new() -> (res: TypeOpFloatEqual)
        ensures
            res.facts() == (OpFacts {
                opcode: OpCode::FloatEqual,
                opflags: PcodeOp::BINARY | PcodeOp::BOOLOUTPUT | PcodeOp::COMMUTATIVE,
                addlflags: FLOATINGPOINT_OP,
                name: "=="@,
                behave: Some(OpBehavior { opcode: OpCode::FloatEqual, unary: false, special: false }),
                meta: Some(TypeOpMeta { metaout: TypeMetatype::Bool, metain: TypeMetatype::Float }),
                near: 0,
                far: 0,
            }),
    {
        TypeOpFloatEqual {
            base: TypeOpBase::with_behavior(
                OpCode::FloatEqual,
                "==",
                PcodeOp::BINARY | PcodeOp::BOOLOUTPUT | PcodeOp::COMMUTATIVE,
                FLOATINGPOINT_OP,
                OpBehavior::new_special(OpCode::FloatEqual, false, false),
            ),
            meta: TypeOpMeta::new(TypeMetatype::Bool, TypeMetatype::Float),
        }
    }
}

impl TypeOp for TypeOpFloatEqual {
    open spec fn facts(&self) -> OpFacts {
        self.base.facts_with(Some(self.meta), 0, 0)
    }

    fn base(&self) -> (res: &TypeOpBase) {
        &self.base
    }

    fn base_mut(&mut self) -> (res: &mut TypeOpBase) {
        &mut self.base
    }

    fn meta(&self) -> (res: Option<TypeOpMeta>) {
        Some(self.meta)
    }

    fn pointer_sizes(&self) -> (res: (i32, i32)) {
        (0, 0)
    }

    fn set_metatype_in(&mut self, val: TypeMetatype) {
        self.meta.metain = val;
    }

    fn set_metatype_out(&mut self, val: TypeMetatype) {
        self.meta.metaout = val;
    }

    fn into_record(self) -> (res: TypeOpRecord) {
        TypeOpRecord { base: self.base, meta: Some(self.meta), near_pointer_size: 0, far_pointer_size: 0 }
    }
}

#[derive(Debug)]
pub struct TypeOpFloatNotEqual {
    pub base: TypeOpBase,
    pub meta: TypeOpMeta,
}

impl TypeOpFloatNotEqual {
    pub fn new() -> (res: TypeOpFloatNotEqual)
        ensures
            res.facts() == (OpFacts {
                opcode: OpCode::FloatNotequal,
                opflags: PcodeOp::BINARY | PcodeOp::BOOLOUTPUT | PcodeOp::COMMUTATIVE,
                addlflags: FLOATINGPOINT_OP,
                name: "!="@,
                behave: Some(OpBehavior { opcode: OpCode::FloatNotequal, unary: false, special: false }),
                meta: Some(TypeOpMeta { metaout: TypeMetatype::Bool, metain: TypeMetatype::Float }),
                near: 0,
                far: 0,
            }),
    {
        TypeOpFloatNotEqual {
            base: TypeOpBase::with_behavior(
                OpCode::FloatNotequal,
                "!=",
                PcodeOp::BINARY | PcodeOp::BOOLOUTPUT | PcodeOp::COMMUTATIVE,
                FLOATINGPOINT_OP,
                OpBehavior::new_special(OpCode::FloatNotequal, false, false),
            ),
            meta: TypeOpMeta::new(TypeMetatype::Bool, TypeMetatype::Float),
        }
    }
}

impl TypeOp for TypeOpFloatNotEqual {
    open spec fn facts(&self) -> OpFacts {
        self.base.facts_with(Some(self.meta), 0, 0)
    }

    fn base(&self) -> (res: &TypeOpBase) {
        &self.base
    }

    fn base_mut(&mut self) -> (res: &mut TypeOpBase) {
        &mut self.base
    }

    fn meta(&self) -> (res: Option<TypeOpMeta>) {
        Some(self.meta)
    }

    fn pointer_sizes(&self) -> (res: (i32, i32)) {
        (0, 0)
    }

    fn set_metatype_in(&mut self, val: TypeMetatype) {
        self.meta.metain = val;
    }

    fn set_metatype_out(&mut self, val: TypeMetatype) {
        self.meta.metaout = val;
    }

    fn into_record(self) -> (res: TypeOpRecord) {
        TypeOpRecord { base: self.base, meta: Some(self.meta), near_pointer_size: 0, far_pointer_size: 0 }
    }
}

#[derive(Debug)]
pub struct TypeOpFloatLess {
    pub base: TypeOpBase,
    pub meta: TypeOpMeta,
}

impl TypeOpFloatLess {
    pub fn new() -> (res: TypeOpFloatLess)
        ensures
            res.facts() == (OpFacts {
                opcode: OpCode::FloatLess,
                opflags: PcodeOp::BINARY | PcodeOp::BOOLOUTPUT,
                addlflags: FLOATINGPOINT_OP,
                name: "<"@,
                behave: Some(OpBehavior { opcode: OpCode::FloatLess, unary: false, special: false }),
                meta: Some(TypeOpMeta { metaout: TypeMetatype::Bool, metain: TypeMetatype::Float }),
                near: 0,
                far: 0,
            }),
    {
        TypeOpFloatLess {
            base: TypeOpBase::with_behavior(
                OpCode::FloatLess,
                "<",
                PcodeOp::BINARY | PcodeOp::BOOLOUTPUT,
                FLOATINGPOINT_OP,
                OpBehavior::new_special(OpCode::FloatLess, false, false),
            ),
            meta: TypeOpMeta::new(TypeMetatype::Bool, TypeMetatype::Float),
        }
    }
}

impl TypeOp for TypeOpFloatLess {
    open spec fn facts(&self) -> OpFacts {
        self.base.facts_with(Some(self.meta), 0, 0)
    }

    fn base(&self) -> (res: &TypeOpBase) {
        &self.base
    }

    fn base_mut(&mut self) -> (res: &mut TypeOpBase) {
        &mut self.base
    }

    fn meta(&self) -> (res: Option<TypeOpMeta>) {
        Some(self.meta)
    }

    fn pointer_sizes(&self) -> (res: (i32, i32)) {
        (0, 0)
    }

    fn set_metatype_in(&mut self, val: TypeMetatype) {
        self.meta.metain = val;
    }

    fn set_metatype_out(&mut self, val: TypeMetatype) {
        self.meta.metaout = val;
    }

    fn into_record(self) -> (res: TypeOpRecord) {
        TypeOpRecord { base: self.base, meta: Some(self.meta), near_pointer_size: 0, far_pointer_size: 0 }
    }
}

#[derive(Debug)]
pub struct TypeOpFloatLessEqual {
    pub base: TypeOpBase,
    pub meta: TypeOpMeta,
}

impl TypeOpFloatLessEqual {
    pub fn new() -> (res: TypeOpFloatLessEqual)
        ensures
            res.facts() == (OpFacts {
                opcode: OpCode::FloatLessequal,
                opflags: PcodeOp::BINARY | PcodeOp::BOOLOUTPUT,
                addlflags: FLOATINGPOINT_OP,
                name: "<="@,
                behave: Some(OpBehavior { opcode: OpCode::FloatLessequal, unary: false, special: false }),
                meta: Some(TypeOpMeta { metaout: TypeMetatype::Bool, metain: TypeMetatype::Float }),
                near: 0,
                far: 0,
            }),
    {
        TypeOpFloatLessEqual {
            base: TypeOpBase::with_behavior(
                OpCode::FloatLessequal,
                "<=",
                PcodeOp::BINARY | PcodeOp::BOOLOUTPUT,
                FLOATINGPOINT_OP,
                OpBehavior::new_special(OpCode::FloatLessequal, false, false),
            ),
            meta: TypeOpMeta::new(TypeMetatype::Bool, TypeMetatype::Float),
        }
    }
}

impl TypeOp for TypeOpFloatLessEqual {
    open spec fn facts(&self) -> OpFacts {
        self.base.facts_with(Some(self.meta), 0, 0)
    }

    fn base(&self) -> (res: &TypeOpBase) {
        &self.base
    }

    fn base_mut(&mut self) -> (res: &mut TypeOpBase) {
        &mut self.base
    }

    fn meta(&self) -> (res: Option<TypeOpMeta>) {
        Some(self.meta)
    }

    fn pointer_sizes(&self) -> (res: (i32, i32)) {
        (0, 0)
    }

    fn set_metatype_in(&mut self, val: TypeMetatype) {
        self.meta.metain = val;
    }

    fn set_metatype_out(&mut self, val: TypeMetatype) {
        self.meta.metaout = val;
    }

    fn into_record(self) -> (res: TypeOpRecord) {
        TypeOpRecord { base: self.base, meta: Some(self.meta), near_pointer_size: 0, far_pointer_size: 0 }
    }
}

#[derive(Debug)]
pub struct TypeOpFloatNan {
    pub base: TypeOpBase,
    pub meta: TypeOpMeta,
}

impl TypeOpFloatNan {
    pub fn new() -> (res: TypeOpFloatNan)
        ensures
            res.facts() == (OpFacts {
                opcode: OpCode::FloatNan,
                opflags: PcodeOp::UNARY | PcodeOp::BOOLOUTPUT,
                addlflags: FLOATINGPOINT_OP,
                name: "NAN"@,
                behave: Some(OpBehavior { opcode: OpCode::FloatNan, unary: true, special: false }),
                meta: Some(TypeOpMeta { metaout: TypeMetatype::Bool, metain: TypeMetatype::Float }),
                near: 0,
                far: 0,
            }),
    {
        TypeOpFloatNan {
            base: TypeOpBase::with_behavior(
                OpCode::FloatNan,
                "NAN",
                PcodeOp::UNARY | PcodeOp::BOOLOUTPUT,
                FLOATINGPOINT_OP,
                OpBehavior::new_special(OpCode::FloatNan, true, false),
            ),
            meta: TypeOpMeta::new(TypeMetatype::Bool, TypeMetatype::Float),
        }
    }
}

impl TypeOp for TypeOpFloatNan {
    open spec fn facts(&self) -> OpFacts {
        self.base.facts_with(Some(self.meta), 0, 0)
    }

    fn base(&self) -> (res: &TypeOpBase) {
        &self.base
    }

    fn base_mut(&mut self) -> (res: &mut TypeOpBase) {
        &mut self.base
    }

    fn meta(&self) -> (res: Option<TypeOpMeta>) {
        Some(self.meta)
    }

    fn pointer_sizes(&self) -> (res: (i32, i32)) {
        (0, 0)
    }

    fn set_metatype_in(&mut self, val: TypeMetatype) {
        self.meta.metain = val;
    }

    fn set_metatype_out(&mut self, val: TypeMetatype) {
        self.meta.metaout = val;
    }

    fn into_record(self) -> (res: TypeOpRecord) {
        TypeOpRecord { base: self.base, meta: Some(self.meta), near_pointer_size: 0, far_pointer_size: 0 }
    }
}

#[derive(Debug)]
pub struct TypeOpFloatAdd {
    pub base: TypeOpBase,
    pub meta: TypeOpMeta,
}

impl TypeOpFloatAdd {
    pub fn new() -> (res: TypeOpFloatAdd)
        ensures
            res.facts() == (OpFacts {
                opcode: OpCode::FloatAdd,
                opflags: PcodeOp::BINARY | PcodeOp::COMMUTATIVE,
                addlflags: FLOATINGPOINT_OP,
                name: "+"@,
                behave: Some(OpBehavior { opcode: OpCode::FloatAdd, unary: false, special: false }),
                meta: Some(TypeOpMeta { metaout: TypeMetatype::Float, metain: TypeMetatype::Float }),
                near: 0,
                far: 0,
            }),
    {
        TypeOpFloatAdd {
            base: TypeOpBase::with_behavior(
                OpCode::FloatAdd,
                "+",
                PcodeOp::BINARY | PcodeOp::COMMUTATIVE,
                FLOATINGPOINT_OP,
                OpBehavior::new_special(OpCode::FloatAdd, false, false),
            ),
            meta: TypeOpMeta::new(TypeMetatype::Float, TypeMetatype::Float),
        }
    }
}

impl TypeOp for TypeOpFloatAdd {
    open spec fn facts(&self) -> OpFacts {
        self.base.facts_with(Some(self.meta), 0, 0)
    }

    fn base(&self) -> (res: &TypeOpBase) {
        &self.base
    }

    fn base_mut(&mut self) -> (res: &mut TypeOpBase) {
        &mut self.base
    }

    fn meta(&self) -> (res: Option<TypeOpMeta>) {
        Some(self.meta)
    }

    fn pointer_sizes(&self) -> (res: (i32, i32)) {
        (0, 0)
    }

    fn set_metatype_in(&mut self, val: TypeMetatype) {
        self.meta.metain = val;
    }

    fn set_metatype_out(&mut self, val: TypeMetatype) {
        self.meta.metaout = val;
    }

    fn into_record(self) -> (res: TypeOpRecord) {
        TypeOpRecord { base: self.base, meta: Some(self.meta), near_pointer_size: 0, far_pointer_size: 0 }
    }
}

#[derive(Debug)]
pub struct TypeOpFloatDiv {
    pub base: TypeOpBase,
    pub meta: TypeOpMeta,
}

impl TypeOpFloatDiv {
    pub fn new() -> (res: TypeOpFloatDiv)
        ensures
            res.facts() == (OpFacts {
                opcode: OpCode::FloatDiv,
                opflags: PcodeOp::BINARY,
                addlflags: FLOATINGPOINT_OP,
                name: "/"@,
                behave: Some(OpBehavior { opcode: OpCode::FloatDiv, unary: false, special: false }),
                meta: Some(TypeOpMeta { metaout: TypeMetatype::Float, metain: TypeMetatype::Float }),
                near: 0,
                far: 0,
            }),
    {
        TypeOpFloatDiv {
            base: TypeOpBase::with_behavior(
                OpCode::FloatDiv,
                "/",
                PcodeOp::BINARY,
                FLOATINGPOINT_OP,
                OpBehavior::new_special(OpCode::FloatDiv, false, false),
            ),
            meta: TypeOpMeta::new(TypeMetatype::Float, TypeMetatype::Float),
        }
    }
}

impl TypeOp for TypeOpFloatDiv {
    open spec fn facts(&self) -> OpFacts {
        self.base.facts_with(Some(self.meta), 0, 0)
    }

    fn base(&self) -> (res: &TypeOpBase) {
        &self.base
    }

    fn base_mut(&mut self) -> (res: &mut TypeOpBase) {
        &mut self.base
    }

    fn meta(&self) -> (res: Option<TypeOpMeta>) {
        Some(self.meta)
    }

    fn pointer_sizes(&self) -> (res: (i32, i32)) {
        (0, 0)
    }

    fn set_metatype_in(&mut self, val: TypeMetatype) {
        self.meta.metain = val;
    }

    fn set_metatype_out(&mut self, val: TypeMetatype) {
        self.meta.metaout = val;
    }

    fn into_record(self) -> (res: TypeOpRecord) {
        TypeOpRecord { base: self.base, meta: Some(self.meta), near_pointer_size: 0, far_pointer_size: 0 }
    }
}

#[derive(Debug)]
pub struct TypeOpFloatMult {
    pub base: TypeOpBase,
    pub meta: TypeOpMeta,
}

impl TypeOpFloatMult {
    pub fn new() -> (res: TypeOpFloatMult)
        ensures
            res.facts() == (OpFacts {
                opcode: OpCode::FloatMult,
                opflags: PcodeOp::BINARY | PcodeOp::COMMUTATIVE,
                addlflags: FLOATINGPOINT_OP,
                name: "*"@,
                behave: Some(OpBehavior { opcode: OpCode::FloatMult, unary: false, special: false }),
                meta: Some(TypeOpMeta { metaout: TypeMetatype::Float, metain: TypeMetatype::Float }),
                near: 0,
                far: 0,
            }),
    {
        TypeOpFloatMult {
            base: TypeOpBase::with_behavior(
                OpCode::FloatMult,
                "*",
                PcodeOp::BINARY | PcodeOp::COMMUTATIVE,
                FLOATINGPOINT_OP,
                OpBehavior::new_special(OpCode::FloatMult, false, false),
            ),
            meta: TypeOpMeta::new(TypeMetatype::Float, TypeMetatype::Float),
        }
    }
}

impl TypeOp for TypeOpFloatMult {
    open spec fn facts(&self) -> OpFacts {
        self.base.facts_with(Some(self.meta), 0, 0)
    }

    fn base(&self) -> (res: &TypeOpBase) {
        &self.base
    }

    fn base_mut(&mut self) -> (res: &mut TypeOpBase) {
        &mut self.base
    }

    fn meta(&self) -> (res: Option<TypeOpMeta>) {
        Some(self.meta)
    }

    fn pointer_sizes(&self) -> (res: (i32, i32)) {
        (0, 0)
    }

    fn set_metatype_in(&mut self, val: TypeMetatype) {
        self.meta.metain = val;
    }

    fn set_metatype_out(&mut self, val: TypeMetatype) {
        self.meta.metaout = val;
    }

    fn into_record(self) -> (res: TypeOpRecord) {
        TypeOpRecord { base: self.base, meta: Some(self.meta), near_pointer_size: 0, far_pointer_size: 0 }
    }
}

#[derive(Debug)]
pub struct TypeOpFloatSub {
    pub base: TypeOpBase,
    pub meta: TypeOpMeta,
}

impl TypeOpFloatSub {
    pub fn new() -> (res: TypeOpFloatSub)
        ensures
            res.facts() == (OpFacts {
                opcode: OpCode::FloatSub,
                opflags: PcodeOp::BINARY,
                addlflags: FLOATINGPOINT_OP,
                name: "-"@,
                behave: Some(OpBehavior { opcode: OpCode::FloatSub, unary: false, special: false }),
                meta: Some(TypeOpMeta { metaout: TypeMetatype::Float, metain: TypeMetatype::Float }),
                near: 0,
                far: 0,
            }),
    {
        TypeOpFloatSub {
            base: TypeOpBase::with_behavior(
                OpCode::FloatSub,
                "-",
                PcodeOp::BINARY,
                FLOATINGPOINT_OP,
                OpBehavior::new_special(OpCode::FloatSub, false, false),
            ),
            meta: TypeOpMeta::new(TypeMetatype::Float, TypeMetatype::Float),
        }
    }
}

impl TypeOp for TypeOpFloatSub {
    open spec fn facts(&self) -> OpFacts {
        self.base.facts_with(Some(self.meta), 0, 0)
    }

    fn base(&self) -> (res: &TypeOpBase) {
        &self.base
    }

    fn base_mut(&mut self) -> (res: &mut TypeOpBase) {
        &mut self.base
    }

    fn meta(&self) -> (res: Option<TypeOpMeta>) {
        Some(self.meta)
    }

    fn pointer_sizes(&self) -> (res: (i32, i32)) {
        (0, 0)
    }

    fn set_metatype_in(&mut self, val: TypeMetatype) {
        self.meta.metain = val;
    }

    fn set_metatype_out(&mut self, val: TypeMetatype) {
        self.meta.metaout = val;
    }

    fn into_record(self) -> (res: TypeOpRecord) {
        TypeOpRecord { base: self.base, meta: Some(self.meta), near_pointer_size: 0, far_pointer_size: 0 }
    }
}

#[derive(Debug)]
pub struct TypeOpFloatNeg {
    pub base: TypeOpBase,
    pub meta: TypeOpMeta,
}

impl TypeOpFloatNeg {
    pub fn new() -> (res: TypeOpFloatNeg)
        ensures
            res.facts() == (OpFacts {
                opcode: OpCode::FloatNeg,
                opflags: PcodeOp::UNARY,
                addlflags: FLOATINGPOINT_OP,
                name: "-"@,
                behave: Some(OpBehavior { opcode: OpCode::FloatNeg, unary: true, special: false }),
                meta: Some(TypeOpMeta { metaout: TypeMetatype::Float, metain: TypeMetatype::Float }),
                near: 0,
                far: 0,
            }),
    {
        TypeOpFloatNeg {
            base: TypeOpBase::with_behavior(
                OpCode::FloatNeg,
                "-",
                PcodeOp::UNARY,
                FLOATINGPOINT_OP,
                OpBehavior::new_special(OpCode::FloatNeg, true, false),
            ),
            meta: TypeOpMeta::new(TypeMetatype::Float, TypeMetatype::Float),
        }
    }
}

impl TypeOp for TypeOpFloatNeg {
    open spec fn facts(&self) -> OpFacts {
        self.base.facts_with(Some(self.meta), 0, 0)
    }

    fn base(&self) -> (res: &TypeOpBase) {
        &self.base
    }

    fn base_mut(&mut self) -> (res: &mut TypeOpBase) {
        &mut self.base
    }

    fn meta(&self) -> (res: Option<TypeOpMeta>) {
        Some(self.meta)
    }

    fn pointer_sizes(&self) -> (res: (i32, i32)) {
        (0, 0)
    }

    fn set_metatype_in(&mut self, val: TypeMetatype) {
        self.meta.metain = val;
    }

    fn set_metatype_out(&mut self, val: TypeMetatype) {
        self.meta.metaout = val;
    }

    fn into_record(self) -> (res: TypeOpRecord) {
        TypeOpRecord { base: self.base, meta: Some(self.meta), near_pointer_size: 0, far_pointer_size: 0 }
    }
}

#[derive(Debug)]
pub struct TypeOpFloatAbs {
    pub base: TypeOpBase,
    pub meta: TypeOpMeta,
}

impl TypeOpFloatAbs {
    pub fn new() -> (res: TypeOpFloatAbs)
        ensures
            res.facts() == (OpFacts {
                opcode: OpCode::FloatAbs,
                opflags: PcodeOp::UNARY,
                addlflags: FLOATINGPOINT_OP,
                name: "ABS"@,
                behave: Some(OpBehavior { opcode: OpCode::FloatAbs, unary: true, special: false }),
                meta: Some(TypeOpMeta { metaout: TypeMetatype::Float, metain: TypeMetatype::Float }),
                near: 0,
                far: 0,
            }),
    {
        TypeOpFloatAbs {
            base: TypeOpBase::with_behavior(
                OpCode::FloatAbs,
                "ABS",
                PcodeOp::UNARY,
                FLOATINGPOINT_OP,
                OpBehavior::new_special(OpCode::FloatAbs, true, false),
            ),
            meta: TypeOpMeta::new(TypeMetatype::Float, TypeMetatype::Float),
        }
    }
}

impl TypeOp for TypeOpFloatAbs {
    open spec fn facts(&self) -> OpFacts {
        self.base.facts_with(Some(self.meta), 0, 0)
    }

    fn base(&self) -> (res: &TypeOpBase) {
        &self.base
    }

    fn base_mut(&mut self) -> (res: &mut TypeOpBase) {
        &mut self.base
    }

    fn meta(&self) -> (res: Option<TypeOpMeta>) {
        Some(self.meta)
    }

    fn pointer_sizes(&self) -> (res: (i32, i32)) {
        (0, 0)
    }

    fn set_metatype_in(&mut self, val: TypeMetatype) {
        self.meta.metain = val;
    }

    fn set_metatype_out(&mut self, val: TypeMetatype) {
        self.meta.metaout = val;
    }

    fn into_record(self) -> (res: TypeOpRecord) {
        TypeOpRecord { base: self.base, meta: Some(self.meta), near_pointer_size: 0, far_pointer_size: 0 }
    }
}

#[derive(Debug)]
pub struct TypeOpFloatSqrt {
    pub base: TypeOpBase,
    pub meta: TypeOpMeta,
}

impl TypeOpFloatSqrt {
    pub fn new() -> (res: TypeOpFloatSqrt)
        ensures
            res.facts() == (OpFacts {
                opcode: OpCode::FloatSqrt,
                opflags: PcodeOp::UNARY,
                addlflags: FLOATINGPOINT_OP,
                name: "SQRT"@,
                behave: Some(OpBehavior { opcode: OpCode::FloatSqrt, unary: true, special: false }),
                meta: Some(TypeOpMeta { metaout: TypeMetatype::Float, metain: TypeMetatype::Float }),
                near: 0,
                far: 0,
            }),
    {
        TypeOpFloatSqrt {
            base: TypeOpBase::with_behavior(
                OpCode::FloatSqrt,
                "SQRT",
                PcodeOp::UNARY,
                FLOATINGPOINT_OP,
                OpBehavior::new_special(OpCode::FloatSqrt, true, false),
            ),
            meta: TypeOpMeta::new(TypeMetatype::Float, TypeMetatype::Float),
        }
    }
}

impl TypeOp for TypeOpFloatSqrt {
    open spec fn facts(&self) -> OpFacts {
        self.base.facts_with(Some(self.meta), 0, 0)
    }

    fn base(&self) -> (res: &TypeOpBase) {
        &self.base
    }

    fn base_mut(&mut self) -> (res: &mut TypeOpBase) {
        &mut self.base
    }

    fn meta(&self) -> (res: Option<TypeOpMeta>) {
        Some(self.meta)
    }

    fn pointer_sizes(&self) -> (res: (i32, i32)) {
        (0, 0)
    }

    fn set_metatype_in(&mut self, val: TypeMetatype) {
        self.meta.metain = val;
    }

    fn set_metatype_out(&mut self, val: TypeMetatype) {
        self.meta.metaout = val;
    }

    fn into_record(self) -> (res: TypeOpRecord) {
        TypeOpRecord { base: self.base, meta: Some(self.meta), near_pointer_size: 0, far_pointer_size: 0 }
    }
}

#[derive(Debug)]
pub struct TypeOpFloatInt2Float {
    pub base: TypeOpBase,
    pub meta: TypeOpMeta,
}

impl TypeOpFloatInt2Float {
    pub fn new() -> (res: TypeOpFloatInt2Float)
        ensures
            res.facts() == (OpFacts {
                opcode: OpCode::FloatInt2float,
                opflags: PcodeOp::UNARY,
                addlflags: FLOATINGPOINT_OP,
                name: "INT2FLOAT"@,
                behave: Some(OpBehavior { opcode: OpCode::FloatInt2float, unary: true, special: false }),
                meta: Some(TypeOpMeta { metaout: TypeMetatype::Float, metain: TypeMetatype::Int }),
                near: 0,
                far: 0,
            }),
    {
        TypeOpFloatInt2Float {
            base: TypeOpBase::with_behavior(
                OpCode::FloatInt2float,
                "INT2FLOAT",
                PcodeOp::UNARY,
                FLOATINGPOINT_OP,
                OpBehavior::new_special(OpCode::FloatInt2float, true, false),
            ),
            meta: TypeOpMeta::new(TypeMetatype::Float, TypeMetatype::Int),
        }
    }
}

impl TypeOp for TypeOpFloatInt2Float {
    open spec fn facts(&self) -> OpFacts {
        self.base.facts_with(Some(self.meta), 0, 0)
    }

    fn base(&self) -> (res: &TypeOpBase) {
        &self.base
    }

    fn base_mut(&mut self) -> (res: &mut TypeOpBase) {
        &mut self.base
    }

    fn meta(&self) -> (res: Option<TypeOpMeta>) {
        Some(self.meta)
    }

    fn pointer_sizes(&self) -> (res: (i32, i32)) {
        (0, 0)
    }

    fn set_metatype_in(&mut self, val: TypeMetatype) {
        self.meta.metain = val;
    }

    fn set_metatype_out(&mut self, val: TypeMetatype) {
        self.meta.metaout = val;
    }

    fn into_record(self) -> (res: TypeOpRecord) {
        TypeOpRecord { base: self.base, meta: Some(self.meta), near_pointer_size: 0, far_pointer_size: 0 }
    }
}

#[derive(Debug)]
pub struct TypeOpFloatFloat2Float {
    pub base: TypeOpBase,
    pub meta: TypeOpMeta,
}

impl TypeOpFloatFloat2Float {
    pub fn new() -> (res: TypeOpFloatFloat2Float)
        ensures
            res.facts() == (OpFacts {
                opcode: OpCode::FloatFloat2float,
                opflags: PcodeOp::UNARY,
                addlflags: FLOATINGPOINT_OP,
                name: "FLOAT2FLOAT"@,
                behave: Some(OpBehavior { opcode: OpCode::FloatFloat2float, unary: true, special: false }),
                meta: Some(TypeOpMeta { metaout: TypeMetatype::Float, metain: TypeMetatype::Float }),
                near: 0,
                far: 0,
            }),
    {
        TypeOpFloatFloat2Float {
            base: TypeOpBase::with_behavior(
                OpCode::FloatFloat2float,
                "FLOAT2FLOAT",
                PcodeOp::UNARY,
                FLOATINGPOINT_OP,
                OpBehavior::new_special(OpCode::FloatFloat2float, true, false),
            ),
            meta: TypeOpMeta::new(TypeMetatype::Float, TypeMetatype::Float),
        }
    }
}

impl TypeOp for TypeOpFloatFloat2Float {
    open spec fn facts(&self) -> OpFacts {
        self.base.facts_with(Some(self.meta), 0, 0)
    }

    fn base(&self) -> (res: &TypeOpBase) {
        &self.base
    }

    fn base_mut(&mut self) -> (res: &mut TypeOpBase) {
        &mut self.base
    }

    fn meta(&self) -> (res: Option<TypeOpMeta>) {
        Some(self.meta)
    }

    fn pointer_sizes(&self) -> (res: (i32, i32)) {
        (0, 0)
    }

    fn set_metatype_in(&mut self, val: TypeMetatype) {
        self.meta.metain = val;
    }

    fn set_metatype_out(&mut self, val: TypeMetatype) {
        self.meta.metaout = val;
    }

    fn into_record(self) -> (res: TypeOpRecord) {
        TypeOpRecord { base: self.base, meta: Some(self.meta), near_pointer_size: 0, far_pointer_size: 0 }
    }
}

#[derive(Debug)]
pub struct TypeOpFloatTrunc {
    pub base: TypeOpBase,
    pub meta: TypeOpMeta,
}

impl TypeOpFloatTrunc {
    pub fn new() -> (res: TypeOpFloatTrunc)
        ensures
            res.facts() == (OpFacts {
                opcode: OpCode::FloatTrunc,
                opflags: PcodeOp::UNARY,
                addlflags: FLOATINGPOINT_OP,
                name: "TRUNC"@,
                behave: Some(OpBehavior { opcode: OpCode::FloatTrunc, unary: true, special: false }),
                meta: Some(TypeOpMeta { metaout: TypeMetatype::Int, metain: TypeMetatype::Float }),
                near: 0,
                far: 0,
            }),
    {
        TypeOpFloatTrunc {
            base: TypeOpBase::with_behavior(
                OpCode::FloatTrunc,
                "TRUNC",
                PcodeOp::UNARY,
                FLOATINGPOINT_OP,
                OpBehavior::new_special(OpCode::FloatTrunc, true, false),
            ),
            meta: TypeOpMeta::new(TypeMetatype::Int, TypeMetatype::Float),
        }
    }
}

impl TypeOp for TypeOpFloatTrunc {
    open spec fn facts(&self) -> OpFacts {
        self.base.facts_with(Some(self.meta), 0, 0)
    }

    fn base(&self) -> (res: &TypeOpBase) {
        &self.base
    }

    fn base_mut(&mut self) -> (res: &mut TypeOpBase) {
        &mut self.base
    }

    fn meta(&self) -> (res: Option<TypeOpMeta>) {
        Some(self.meta)
    }

    fn pointer_sizes(&self) -> (res: (i32, i32)) {
        (0, 0)
    }

    fn set_metatype_in(&mut self, val: TypeMetatype) {
        self.meta.metain = val;
    }

    fn set_metatype_out(&mut self, val: TypeMetatype) {
        self.meta.metaout = val;
    }

    fn into_record(self) -> (res: TypeOpRecord) {
        TypeOpRecord { base: self.base, meta: Some(self.meta), near_pointer_size: 0, far_pointer_size: 0 }
    }
}

#[derive(Debug)]
pub struct TypeOpFloatCeil {
    pub base: TypeOpBase,
    pub meta: TypeOpMeta,
}

impl TypeOpFloatCeil {
    pub fn new() -> (res: TypeOpFloatCeil)
        ensures
            res.facts() == (OpFacts {
                opcode: OpCode::FloatCeil,
                opflags: PcodeOp::UNARY,
                addlflags: FLOATINGPOINT_OP,
                name: "CEIL"@,
                behave: Some(OpBehavior { opcode: OpCode::FloatCeil, unary: true, special: false }),
                meta: Some(TypeOpMeta { metaout: TypeMetatype::Float, metain: TypeMetatype::Float }),
                near: 0,
                far: 0,
            }),
    {
        TypeOpFloatCeil {
            base: TypeOpBase::with_behavior(
                OpCode::FloatCeil,
                "CEIL",
                PcodeOp::UNARY,
                FLOATINGPOINT_OP,
                OpBehavior::new_special(OpCode::FloatCeil, true, false),
            ),
            meta: TypeOpMeta::new(TypeMetatype::Float, TypeMetatype::Float),
        }
    }
}

impl TypeOp for TypeOpFloatCeil {
    open spec fn facts(&self) -> OpFacts {
        self.base.facts_with(Some(self.meta), 0, 0)
    }

    fn base(&self) -> (res: &TypeOpBase) {
        &self.base
    }

    fn base_mut(&mut self) -> (res: &mut TypeOpBase) {
        &mut self.base
    }

    fn meta(&self) -> (res: Option<TypeOpMeta>) {
        Some(self.meta)
    }

    fn pointer_sizes(&self) -> (res: (i32, i32)) {
        (0, 0)
    }

    fn set_metatype_in(&mut self, val: TypeMetatype) {
        self.meta.metain = val;
    }

    fn set_metatype_out(&mut self, val: TypeMetatype) {
        self.meta.metaout = val;
    }

    fn into_record(self) -> (res: TypeOpRecord) {
        TypeOpRecord { base: self.base, meta: Some(self.meta), near_pointer_size: 0, far_pointer_size: 0 }
    }
}

#[derive(Debug)]
pub struct TypeOpFloatFloor {
    pub base: TypeOpBase,
    pub meta: TypeOpMeta,
}

impl TypeOpFloatFloor {
    pub fn new() -> (res: TypeOpFloatFloor)
        ensures
            res.facts() == (OpFacts {
                opcode: OpCode::FloatFloor,
                opflags: PcodeOp::UNARY,
                addlflags: FLOATINGPOINT_OP,
                name: "FLOOR"@,
                behave: Some(OpBehavior { opcode: OpCode::FloatFloor, unary: true, special: false }),
                meta: Some(TypeOpMeta { metaout: TypeMetatype::Float, metain: TypeMetatype::Float }),
                near: 0,
                far: 0,
            }),
    {
        TypeOpFloatFloor {
            base: TypeOpBase::with_behavior(
                OpCode::FloatFloor,
                "FLOOR",
                PcodeOp::UNARY,
                FLOATINGPOINT_OP,
                OpBehavior::new_special(OpCode::FloatFloor, true, false),
            ),
            meta: TypeOpMeta::new(TypeMetatype::Float, TypeMetatype::Float),
        }
    }
}

impl TypeOp for TypeOpFloatFloor {
    open spec fn facts(&self) -> OpFacts {
        self.base.facts_with(Some(self.meta), 0, 0)
    }

    fn base(&self) -> (res: &TypeOpBase) {
        &self.base
    }

    fn base_mut(&mut self) -> (res: &mut TypeOpBase) {
        &mut self.base
    }

    fn meta(&self) -> (res: Option<TypeOpMeta>) {
        Some(self.meta)
    }

    fn pointer_sizes(&self) -> (res: (i32, i32)) {
        (0, 0)
    }

    fn set_metatype_in(&mut self, val: TypeMetatype) {
        self.meta.metain = val;
    }

    fn set_metatype_out(&mut self, val: TypeMetatype) {
        self.meta.metaout = val;
    }

    fn into_record(self) -> (res: TypeOpRecord) {
        TypeOpRecord { base: self.base, meta: Some(self.meta), near_pointer_size: 0, far_pointer_size: 0 }
    }
}

#[derive(Debug)]
pub struct TypeOpFloatRound {
    pub base: TypeOpBase,
    pub meta: TypeOpMeta,
}

impl TypeOpFloatRound {
    pub fn new() -> (res: TypeOpFloatRound)
        ensures
            res.facts() == (OpFacts {
                opcode: OpCode::FloatRound,
                opflags: PcodeOp::UNARY,
                addlflags: FLOATINGPOINT_OP,
                name: "ROUND"@,
                behave: Some(OpBehavior { opcode: OpCode::FloatRound, unary: true, special: false }),
                meta: Some(TypeOpMeta { metaout: TypeMetatype::Float, metain: TypeMetatype::Float }),
                near: 0,
                far: 0,
            }),
    {
        TypeOpFloatRound {
            base: TypeOpBase::with_behavior(
                OpCode::FloatRound,
                "ROUND",
                PcodeOp::UNARY,
                FLOATINGPOINT_OP,
                OpBehavior::new_special(OpCode::FloatRound, true, false),
            ),
            meta: TypeOpMeta::new(TypeMetatype::Float, TypeMetatype::Float),
        }
    }
}

impl TypeOp for TypeOpFloatRound {
    open spec fn facts(&self) -> OpFacts {
        self.base.facts_with(Some(self.meta), 0, 0)
    }

    fn base(&self) -> (res: &TypeOpBase) {
        &self.base
    }

    fn base_mut(&mut self) -> (res: &mut TypeOpBase) {
        &mut self.base
    }

    fn meta(&self) -> (res: Option<TypeOpMeta>) {
        Some(self.meta)
    }

    fn pointer_sizes(&self) -> (res: (i32, i32)) {
        (0, 0)
    }

    fn set_metatype_in(&mut self, val: TypeMetatype) {
        self.meta.metain = val;
    }

    fn set_metatype_out(&mut self, val: TypeMetatype) {
        self.meta.metaout = val;
    }

    fn into_record(self) -> (res: TypeOpRecord) {
        TypeOpRecord { base: self.base, meta: Some(self.meta), near_pointer_size: 0, far_pointer_size: 0 }
    }
}

#[derive(Debug)]
pub struct TypeOpMulti {
    pub base: TypeOpBase,
}

impl TypeOpMulti {
    pub fn new() -> (res: TypeOpMulti)
        ensures
            res.facts() == (OpFacts {
                opcode: OpCode::Multiequal,
                opflags: PcodeOp::SPECIAL | PcodeOp::MARKER | PcodeOp::NOCOLLAPSE,
                addlflags: 0,
                name: "?"@,
                behave: Some(OpBehavior { opcode: OpCode::Multiequal, unary: false, special: true }),
                meta: None,
                near: 0,
                far: 0,
            }),
    {
        TypeOpMulti {
            base: TypeOpBase::with_behavior(
                OpCode::Multiequal,
                "?",
                PcodeOp::SPECIAL | PcodeOp::MARKER | PcodeOp::NOCOLLAPSE,
                0,
                OpBehavior::new_special(OpCode::Multiequal, false, true),
            ),
        }
    }
}

impl Default for TypeOpMulti {
    fn default() -> (res: TypeOpMulti)
        ensures
            res.facts() == (OpFacts {
                opcode: OpCode::Multiequal,
                opflags: PcodeOp::SPECIAL | PcodeOp::MARKER | PcodeOp::NOCOLLAPSE,
                addlflags: 0,
                name: "?"@,
                behave: Some(OpBehavior { opcode: OpCode::Multiequal, unary: false, special: true }),
                meta: None,
                near: 0,
                far: 0,
            }),
    {
        TypeOpMulti::new()
    }
}

impl TypeOp for TypeOpMulti {
    open spec fn facts(&self) -> OpFacts {
        self.base.facts_with(None, 0, 0)
    }

    fn base(&self) -> (res: &TypeOpBase) {
        &self.base
    }

    fn base_mut(&mut self) -> (res: &mut TypeOpBase) {
        &mut self.base
    }

    fn meta(&self) -> (res: Option<TypeOpMeta>) {
        None
    }

    fn pointer_sizes(&self) -> (res: (i32, i32)) {
        (0, 0)
    }

    fn set_metatype_in(&mut self, val: TypeMetatype) {
    }

    fn set_metatype_out(&mut self, val: TypeMetatype) {
    }

    fn into_record(self) -> (res: TypeOpRecord) {
        TypeOpRecord { base: self.base, meta: None, near_pointer_size: 0, far_pointer_size: 0 }
    }
}

#[derive(Debug)]
pub struct TypeOpIndirect {
    pub base: TypeOpBase,
}

impl TypeOpIndirect {
    pub fn new() -> (res: TypeOpIndirect)
        ensures
            res.facts() == (OpFacts {
                opcode: OpCode::Indirect,
                opflags: PcodeOp::SPECIAL | PcodeOp::MARKER | PcodeOp::NOCOLLAPSE,
                addlflags: 0,
                name: "[]"@,
                behave: Some(OpBehavior { opcode: OpCode::Indirect, unary: false, special: true }),
                meta: None,
                near: 0,
                far: 0,
            }),
    {
        TypeOpIndirect {
            base: TypeOpBase::with_behavior(
                OpCode::Indirect,
                "[]",
                PcodeOp::SPECIAL | PcodeOp::MARKER | PcodeOp::NOCOLLAPSE,
                0,
                OpBehavior::new_special(OpCode::Indirect, false, true),
            ),
        }
    }
}

impl Default for TypeOpIndirect {
    fn default() -> (res: TypeOpIndirect)
        ensures
            res.facts() == (OpFacts {
                opcode: OpCode::Indirect,
                opflags: PcodeOp::SPECIAL | PcodeOp::MARKER | PcodeOp::NOCOLLAPSE,
                addlflags: 0,
                name: "[]"@,
                behave: Some(OpBehavior { opcode: OpCode::Indirect, unary: false, special: true }),
                meta: None,
                near: 0,
                far: 0,
            }),
    {
        TypeOpIndirect::new()
    }
}

impl TypeOp for TypeOpIndirect {
    open spec fn facts(&self) -> OpFacts {
        self.base.facts_with(None, 0, 0)
    }

    fn base(&self) -> (res: &TypeOpBase) {
        &self.base
    }

    fn base_mut(&mut self) -> (res: &mut TypeOpBase) {
        &mut self.base
    }

    fn meta(&self) -> (res: Option<TypeOpMeta>) {
        None
    }

    fn pointer_sizes(&self) -> (res: (i32, i32)) {
        (0, 0)
    }

    fn set_metatype_in(&mut self, val: TypeMetatype) {
    }

    fn set_metatype_out(&mut self, val: TypeMetatype) {
    }

    fn into_record(self) -> (res: TypeOpRecord) {
        TypeOpRecord { base: self.base, meta: None, near_pointer_size: 0, far_pointer_size: 0 }
    }
}

#[derive(Debug)]
pub struct TypeOpPiece {
    pub base: TypeOpBase,
    pub meta: TypeOpMeta,
    /// Bytes in a near pointer, where there are far ones.
    pub near_pointer_size: i32,
    pub far_pointer_size: i32,
}

impl TypeOpPiece {
    pub fn new(tlst: &TypeFactory) -> (res: TypeOpPiece)
        ensures
            res.facts() == (OpFacts {
                opcode: OpCode::Piece,
                opflags: PcodeOp::BINARY,
                addlflags: 0,
                name: "CONCAT"@,
                behave: Some(OpBehavior { opcode: OpCode::Piece, unary: false, special: false }),
                meta: Some(TypeOpMeta { metaout: TypeMetatype::Unknown, metain: TypeMetatype::Unknown }),
                near: tlst.near_size(),
                far: tlst.size_of_alt_pointer,
            }),
    {
        let far_pointer_size: i32 = tlst.get_size_of_alt_pointer();
        let near_pointer_size: i32 = if far_pointer_size != 0 {
            tlst.get_size_of_pointer()
        } else {
            0
        };
        TypeOpPiece {
            base: TypeOpBase::with_behavior(
                OpCode::Piece,
                "CONCAT",
                PcodeOp::BINARY,
                0,
                OpBehavior::new_special(OpCode::Piece, false, false),
            ),
            meta: TypeOpMeta::new(TypeMetatype::Unknown, TypeMetatype::Unknown),
            near_pointer_size,
            far_pointer_size,
        }
    }
}

impl TypeOp for TypeOpPiece {
    open spec fn facts(&self) -> OpFacts {
        self.base.facts_with(Some(self.meta), self.near_pointer_size, self.far_pointer_size)
    }

    fn base(&self) -> (res: &TypeOpBase) {
        &self.base
    }

    fn base_mut(&mut self) -> (res: &mut TypeOpBase) {
        &mut self.base
    }

    fn meta(&self) -> (res: Option<TypeOpMeta>) {
        Some(self.meta)
    }

    fn pointer_sizes(&self) -> (res: (i32, i32)) {
        (self.near_pointer_size, self.far_pointer_size)
    }

    fn set_metatype_in(&mut self, val: TypeMetatype) {
        self.meta.metain = val;
    }

    fn set_metatype_out(&mut self, val: TypeMetatype) {
        self.meta.metaout = val;
    }

    fn into_record(self) -> (res: TypeOpRecord) {
        TypeOpRecord { base: self.base, meta: Some(self.meta), near_pointer_size: self.near_pointer_size, far_pointer_size: self.far_pointer_size }
    }
}

#[derive(Debug)]
pub struct TypeOpSubpiece {
    pub base: TypeOpBase,
    pub meta: TypeOpMeta,
    /// Bytes in a near pointer, where there are far ones.
    pub near_pointer_size: i32,
    pub far_pointer_size: i32,
}

impl TypeOpSubpiece {
    pub fn new(tlst: &TypeFactory) -> (res: TypeOpSubpiece)
        ensures
            res.facts() == (OpFacts {
                opcode: OpCode::Subpiece,
                opflags: PcodeOp::BINARY,
                addlflags: 0,
                name: "SUB"@,
                behave: Some(OpBehavior { opcode: OpCode::Subpiece, unary: false, special: false }),
                meta: Some(TypeOpMeta { metaout: TypeMetatype::Unknown, metain: TypeMetatype::Unknown }),
                near: tlst.near_size(),
                far: tlst.size_of_alt_pointer,
            }),
    {
        let far_pointer_size: i32 = tlst.get_size_of_alt_pointer();
        let near_pointer_size: i32 = if far_pointer_size != 0 {
            tlst.get_size_of_pointer()
        } else {
            0
        };
        TypeOpSubpiece {
            base: TypeOpBase::with_behavior(
                OpCode::Subpiece,
                "SUB",
                PcodeOp::BINARY,
                0,
                OpBehavior::new_special(OpCode::Subpiece, false, false),
            ),
            meta: TypeOpMeta::new(TypeMetatype::Unknown, TypeMetatype::Unknown),
            near_pointer_size,
            far_pointer_size,
        }
    }
}

impl TypeOp for TypeOpSubpiece {
    open spec fn facts(&self) -> OpFacts {
        self.base.facts_with(Some(self.meta), self.near_pointer_size, self.far_pointer_size)
    }

    fn base(&self) -> (res: &TypeOpBase) {
        &self.base
    }

    fn base_mut(&mut self) -> (res: &mut TypeOpBase) {
        &mut self.base
    }

    fn meta(&self) -> (res: Option<TypeOpMeta>) {
        Some(self.meta)
    }

    fn pointer_sizes(&self) -> (res: (i32, i32)) {
        (self.near_pointer_size, self.far_pointer_size)
    }

    fn set_metatype_in(&mut self, val: TypeMetatype) {
        self.meta.metain = val;
    }

    fn set_metatype_out(&mut self, val: TypeMetatype) {
        self.meta.metaout = val;
    }

    fn into_record(self) -> (res: TypeOpRecord) {
        TypeOpRecord { base: self.base, meta: Some(self.meta), near_pointer_size: self.near_pointer_size, far_pointer_size: self.far_pointer_size }
    }
}

#[derive(Debug)]
pub struct TypeOpCast {
    pub base: TypeOpBase,
}

impl TypeOpCast {
    pub fn new() -> (res: TypeOpCast)
        ensures
            res.facts() == (OpFacts {
                opcode: OpCode::Cast,
                opflags: PcodeOp::UNARY | PcodeOp::SPECIAL | PcodeOp::NOCOLLAPSE,
                addlflags: 0,
                name: "(cast)"@,
                behave: Some(OpBehavior { opcode: OpCode::Cast, unary: false, special: true }),
                meta: None,
                near: 0,
                far: 0,
            }),
    {
        TypeOpCast {
            base: TypeOpBase::with_behavior(
                OpCode::Cast,
                "(cast)",
                PcodeOp::UNARY | PcodeOp::SPECIAL | PcodeOp::NOCOLLAPSE,
                0,
                OpBehavior::new_special(OpCode::Cast, false, true),
            ),
        }
    }
}

impl Default for TypeOpCast {
    fn default() -> (res: TypeOpCast)
        ensures
            res.facts() == (OpFacts {
                opcode: OpCode::Cast,
                opflags: PcodeOp::UNARY | PcodeOp::SPECIAL | PcodeOp::NOCOLLAPSE,
                addlflags: 0,
                name: "(cast)"@,
                behave: Some(OpBehavior { opcode: OpCode::Cast, unary: false, special: true }),
                meta: None,
                near: 0,
                far: 0,
            }),
    {
        TypeOpCast::new()
    }
}

impl TypeOp for TypeOpCast {
    open spec fn facts(&self) -> OpFacts {
        self.base.facts_with(None, 0, 0)
    }

    fn base(&self) -> (res: &TypeOpBase) {
        &self.base
    }

    fn base_mut(&mut self) -> (res: &mut TypeOpBase) {
        &mut self.base
    }

    fn meta(&self) -> (res: Option<TypeOpMeta>) {
        None
    }

    fn pointer_sizes(&self) -> (res: (i32, i32)) {
        (0, 0)
    }

    fn set_metatype_in(&mut self, val: TypeMetatype) {
    }

    fn set_metatype_out(&mut self, val: TypeMetatype) {
    }

    fn into_record(self) -> (res: TypeOpRecord) {
        TypeOpRecord { base: self.base, meta: None, near_pointer_size: 0, far_pointer_size: 0 }
    }
}

#[derive(Debug)]
pub struct TypeOpPtradd {
    pub base: TypeOpBase,
}

impl TypeOpPtradd {
    pub fn new() -> (res: TypeOpPtradd)
        ensures
            res.facts() == (OpFacts {
                opcode: OpCode::Ptradd,
                opflags: PcodeOp::TERNARY | PcodeOp::NOCOLLAPSE,
                addlflags: ARITHMETIC_OP,
                name: "+"@,
                behave: Some(OpBehavior { opcode: OpCode::Ptradd, unary: false, special: false }),
                meta: None,
                near: 0,
                far: 0,
            }),
    {
        TypeOpPtradd {
            base: TypeOpBase::with_behavior(
                OpCode::Ptradd,
                "+",
                PcodeOp::TERNARY | PcodeOp::NOCOLLAPSE,
                ARITHMETIC_OP,
                OpBehavior::new_special(OpCode::Ptradd, false, false),
            ),
        }
    }
}

impl Default for TypeOpPtradd {
    fn default() -> (res: TypeOpPtradd)
        ensures
            res.facts() == (OpFacts {
                opcode: OpCode::Ptradd,
                opflags: PcodeOp::TERNARY | PcodeOp::NOCOLLAPSE,
                addlflags: ARITHMETIC_OP,
                name: "+"@,
                behave: Some(OpBehavior { opcode: OpCode::Ptradd, unary: false, special: false }),
                meta: None,
                near: 0,
                far: 0,
            }),
    {
        TypeOpPtradd::new()
    }
}

impl TypeOp for TypeOpPtradd {
    open spec fn facts(&self) -> OpFacts {
        self.base.facts_with(None, 0, 0)
    }

    fn base(&self) -> (res: &TypeOpBase) {
        &self.base
    }

    fn base_mut(&mut self) -> (res: &mut TypeOpBase) {
        &mut self.base
    }

    fn meta(&self) -> (res: Option<TypeOpMeta>) {
        None
    }

    fn pointer_sizes(&self) -> (res: (i32, i32)) {
        (0, 0)
    }

    fn set_metatype_in(&mut self, val: TypeMetatype) {
    }

    fn set_metatype_out(&mut self, val: TypeMetatype) {
    }

    fn into_record(self) -> (res: TypeOpRecord) {
        TypeOpRecord { base: self.base, meta: None, near_pointer_size: 0, far_pointer_size: 0 }
    }
}

#[derive(Debug)]
pub struct TypeOpPtrsub {
    pub base: TypeOpBase,
}

impl TypeOpPtrsub {
    pub fn new() -> (res: TypeOpPtrsub)
        ensures
            res.facts() == (OpFacts {
                opcode: OpCode::Ptrsub,
                opflags: PcodeOp::BINARY | PcodeOp::NOCOLLAPSE,
                addlflags: ARITHMETIC_OP,
                name: "->"@,
                behave: Some(OpBehavior { opcode: OpCode::Ptrsub, unary: false, special: false }),
                meta: None,
                near: 0,
                far: 0,
            }),
    {
        TypeOpPtrsub {
            base: TypeOpBase::with_behavior(
                OpCode::Ptrsub,
                "->",
                PcodeOp::BINARY | PcodeOp::NOCOLLAPSE,
                ARITHMETIC_OP,
                OpBehavior::new_special(OpCode::Ptrsub, false, false),
            ),
        }
    }
}

impl Default for TypeOpPtrsub {
    fn default() -> (res: TypeOpPtrsub)
        ensures
            res.facts() == (OpFacts {
                opcode: OpCode::Ptrsub,
                opflags: PcodeOp::BINARY | PcodeOp::NOCOLLAPSE,
                addlflags: ARITHMETIC_OP,
                name: "->"@,
                behave: Some(OpBehavior { opcode: OpCode::Ptrsub, unary: false, special: false }),
                meta: None,
                near: 0,
                far: 0,
            }),
    {
        TypeOpPtrsub::new()
    }
}

impl TypeOp for TypeOpPtrsub {
    open spec fn facts(&self) -> OpFacts {
        self.base.facts_with(None, 0, 0)
    }

    fn base(&self) -> (res: &TypeOpBase) {
        &self.base
    }

    fn base_mut(&mut self) -> (res: &mut TypeOpBase) {
        &mut self.base
    }

    fn meta(&self) -> (res: Option<TypeOpMeta>) {
        None
    }

    fn pointer_sizes(&self) -> (res: (i32, i32)) {
        (0, 0)
    }

    fn set_metatype_in(&mut self, val: TypeMetatype) {
    }

    fn set_metatype_out(&mut self, val: TypeMetatype) {
    }

    fn into_record(self) -> (res: TypeOpRecord) {
        TypeOpRecord { base: self.base, meta: None, near_pointer_size: 0, far_pointer_size: 0 }
    }
}

#[derive(Debug)]
pub struct TypeOpSegment {
    pub base: TypeOpBase,
}

impl TypeOpSegment {
    pub fn new() -> (res: TypeOpSegment)
        ensures
            res.facts() == (OpFacts {
                opcode: OpCode::Segmentop,
                opflags: PcodeOp::SPECIAL | PcodeOp::NOCOLLAPSE,
                addlflags: 0,
                name: "segmentop"@,
                behave: Some(OpBehavior { opcode: OpCode::Segmentop, unary: false, special: true }),
                meta: None,
                near: 0,
                far: 0,
            }),
    {
        TypeOpSegment {
            base: TypeOpBase::with_behavior(
                OpCode::Segmentop,
                "segmentop",
                PcodeOp::SPECIAL | PcodeOp::NOCOLLAPSE,
                0,
                OpBehavior::new_special(OpCode::Segmentop, false, true),
            ),
        }
    }
}

impl Default for TypeOpSegment {
    fn default() -> (res: TypeOpSegment)
        ensures
            res.facts() == (OpFacts {
                opcode: OpCode::Segmentop,
                opflags: PcodeOp::SPECIAL | PcodeOp::NOCOLLAPSE,
                addlflags: 0,
                name: "segmentop"@,
                behave: Some(OpBehavior { opcode: OpCode::Segmentop, unary: false, special: true }),
                meta: None,
                near: 0,
                far: 0,
            }),
    {
        TypeOpSegment::new()
    }
}

impl TypeOp for TypeOpSegment {
    open spec fn facts(&self) -> OpFacts {
        self.base.facts_with(None, 0, 0)
    }

    fn base(&self) -> (res: &TypeOpBase) {
        &self.base
    }

    fn base_mut(&mut self) -> (res: &mut TypeOpBase) {
        &mut self.base
    }

    fn meta(&self) -> (res: Option<TypeOpMeta>) {
        None
    }

    fn pointer_sizes(&self) -> (res: (i32, i32)) {
        (0, 0)
    }

    fn set_metatype_in(&mut self, val: TypeMetatype) {
    }

    fn set_metatype_out(&mut self, val: TypeMetatype) {
    }

    fn into_record(self) -> (res: TypeOpRecord) {
        TypeOpRecord { base: self.base, meta: None, near_pointer_size: 0, far_pointer_size: 0 }
    }
}

#[derive(Debug)]
pub struct TypeOpCpoolref {
    pub base: TypeOpBase,
}

impl TypeOpCpoolref {
    pub fn new() -> (res: TypeOpCpoolref)
        ensures
            res.facts() == (OpFacts {
                opcode: OpCode::Cpoolref,
                opflags: PcodeOp::SPECIAL | PcodeOp::NOCOLLAPSE,
                addlflags: 0,
                name: "cpoolref"@,
                behave: Some(OpBehavior { opcode: OpCode::Cpoolref, unary: false, special: true }),
                meta: None,
                near: 0,
                far: 0,
            }),
    {
        TypeOpCpoolref {
            base: TypeOpBase::with_behavior(
                OpCode::Cpoolref,
                "cpoolref",
                PcodeOp::SPECIAL | PcodeOp::NOCOLLAPSE,
                0,
                OpBehavior::new_special(OpCode::Cpoolref, false, true),
            ),
        }
    }
}

impl Default for TypeOpCpoolref {
    fn default() -> (res: TypeOpCpoolref)
        ensures
            res.facts() == (OpFacts {
                opcode: OpCode::Cpoolref,
                opflags: PcodeOp::SPECIAL | PcodeOp::NOCOLLAPSE,
                addlflags: 0,
                name: "cpoolref"@,
                behave: Some(OpBehavior { opcode: OpCode::Cpoolref, unary: false, special: true }),
                meta: None,
                near: 0,
                far: 0,
            }),
    {
        TypeOpCpoolref::new()
    }
}

impl TypeOp for TypeOpCpoolref {
    open spec fn facts(&self) -> OpFacts {
        self.base.facts_with(None, 0, 0)
    }

    fn base(&self) -> (res: &TypeOpBase) {
        &self.base
    }

    fn base_mut(&mut self) -> (res: &mut TypeOpBase) {
        &mut self.base
    }

    fn meta(&self) -> (res: Option<TypeOpMeta>) {
        None
    }

    fn pointer_sizes(&self) -> (res: (i32, i32)) {
        (0, 0)
    }

    fn set_metatype_in(&mut self, val: TypeMetatype) {
    }

    fn set_metatype_out(&mut self, val: TypeMetatype) {
    }

    fn into_record(self) -> (res: TypeOpRecord) {
        TypeOpRecord { base: self.base, meta: None, near_pointer_size: 0, far_pointer_size: 0 }
    }
}

#[derive(Debug)]
pub struct TypeOpNew {
    pub base: TypeOpBase,
}

impl TypeOpNew {
    pub fn new() -> (res: TypeOpNew)
        ensures
            res.facts() == (OpFacts {
                opcode: OpCode::New,
                opflags: PcodeOp::SPECIAL | PcodeOp::CALL | PcodeOp::NOCOLLAPSE,
                addlflags: 0,
                name: "new"@,
                behave: Some(OpBehavior { opcode: OpCode::New, unary: false, special: true }),
                meta: None,
                near: 0,
                far: 0,
            }),
    {
        TypeOpNew {
            base: TypeOpBase::with_behavior(
                OpCode::New,
                "new",
                PcodeOp::SPECIAL | PcodeOp::CALL | PcodeOp::NOCOLLAPSE,
                0,
                OpBehavior::new_special(OpCode::New, false, true),
            ),
        }
    }
}

impl Default for TypeOpNew {
    fn default() -> (res: TypeOpNew)
        ensures
            res.facts() == (OpFacts {
                opcode: OpCode::New,
                opflags: PcodeOp::SPECIAL | PcodeOp::CALL | PcodeOp::NOCOLLAPSE,
                addlflags: 0,
                name: "new"@,
                behave: Some(OpBehavior { opcode: OpCode::New, unary: false, special: true }),
                meta: None,
                near: 0,
                far: 0,
            }),
    {
        TypeOpNew::new()
    }
}

impl TypeOp for TypeOpNew {
    open spec fn facts(&self) -> OpFacts {
        self.base.facts_with(None, 0, 0)
    }

    fn base(&self) -> (res: &TypeOpBase) {
        &self.base
    }

    fn base_mut(&mut self) -> (res: &mut TypeOpBase) {
        &mut self.base
    }

    fn meta(&self) -> (res: Option<TypeOpMeta>) {
        None
    }

    fn pointer_sizes(&self) -> (res: (i32, i32)) {
        (0, 0)
    }

    fn set_metatype_in(&mut self, val: TypeMetatype) {
    }

    fn set_metatype_out(&mut self, val: TypeMetatype) {
    }

    fn into_record(self) -> (res: TypeOpRecord) {
        TypeOpRecord { base: self.base, meta: None, near_pointer_size: 0, far_pointer_size: 0 }
    }
}

#[derive(Debug)]
pub struct TypeOpInsert {
    pub base: TypeOpBase,
    pub meta: TypeOpMeta,
}

impl TypeOpInsert {
    pub fn new() -> (res: TypeOpInsert)
        ensures
            res.facts() == (OpFacts {
                opcode: OpCode::Insert,
                opflags: PcodeOp::TERNARY,
                addlflags: 0,
                name: "INSERT"@,
                behave: Some(OpBehavior { opcode: OpCode::Insert, unary: false, special: false }),
                meta: Some(TypeOpMeta { metaout: TypeMetatype::Unknown, metain: TypeMetatype::Int }),
                near: 0,
                far: 0,
            }),
    {
        TypeOpInsert {
            base: TypeOpBase::with_behavior(
                OpCode::Insert,
                "INSERT",
                PcodeOp::TERNARY,
                0,
                OpBehavior::new_special(OpCode::Insert, false, false),
            ),
            meta: TypeOpMeta::new(TypeMetatype::Unknown, TypeMetatype::Int),
        }
    }
}

impl Default for TypeOpInsert {
    fn default() -> (res: TypeOpInsert)
        ensures
            res.facts() == (OpFacts {
                opcode: OpCode::Insert,
                opflags: PcodeOp::TERNARY,
                addlflags: 0,
                name: "INSERT"@,
                behave: Some(OpBehavior { opcode: OpCode::Insert, unary: false, special: false }),
                meta: Some(TypeOpMeta { metaout: TypeMetatype::Unknown, metain: TypeMetatype::Int }),
                near: 0,
                far: 0,
            }),
    {
        TypeOpInsert::new()
    }
}

impl TypeOp for TypeOpInsert {
    open spec fn facts(&self) -> OpFacts {
        self.base.facts_with(Some(self.meta), 0, 0)
    }

    fn base(&self) -> (res: &TypeOpBase) {
        &self.base
    }

    fn base_mut(&mut self) -> (res: &mut TypeOpBase) {
        &mut self.base
    }

    fn meta(&self) -> (res: Option<TypeOpMeta>) {
        Some(self.meta)
    }

    fn pointer_sizes(&self) -> (res: (i32, i32)) {
        (0, 0)
    }

    fn set_metatype_in(&mut self, val: TypeMetatype) {
        self.meta.metain = val;
    }

    fn set_metatype_out(&mut self, val: TypeMetatype) {
        self.meta.metaout = val;
    }

    fn into_record(self) -> (res: TypeOpRecord) {
        TypeOpRecord { base: self.base, meta: Some(self.meta), near_pointer_size: 0, far_pointer_size: 0 }
    }
}

#[derive(Debug)]
pub struct TypeOpZpull {
    pub base: TypeOpBase,
    pub meta: TypeOpMeta,
}

impl TypeOpZpull {
    pub fn new() -> (res: TypeOpZpull)
        ensures
            res.facts() == (OpFacts {
                opcode: OpCode::Zpull,
                opflags: PcodeOp::TERNARY,
                addlflags: 0,
                name: "ZPULL"@,
                behave: Some(OpBehavior { opcode: OpCode::Zpull, unary: false, special: false }),
                meta: Some(TypeOpMeta { metaout: TypeMetatype::Uint, metain: TypeMetatype::Int }),
                near: 0,
                far: 0,
            }),
    {
        TypeOpZpull {
            base: TypeOpBase::with_behavior(
                OpCode::Zpull,
                "ZPULL",
                PcodeOp::TERNARY,
                0,
                OpBehavior::new_special(OpCode::Zpull, false, false),
            ),
            meta: TypeOpMeta::new(TypeMetatype::Uint, TypeMetatype::Int),
        }
    }
}

impl Default for TypeOpZpull {
    fn default() -> (res: TypeOpZpull)
        ensures
            res.facts() == (OpFacts {
                opcode: OpCode::Zpull,
                opflags: PcodeOp::TERNARY,
                addlflags: 0,
                name: "ZPULL"@,
                behave: Some(OpBehavior { opcode: OpCode::Zpull, unary: false, special: false }),
                meta: Some(TypeOpMeta { metaout: TypeMetatype::Uint, metain: TypeMetatype::Int }),
                near: 0,
                far: 0,
            }),
    {
        TypeOpZpull::new()
    }
}

impl TypeOp for TypeOpZpull {
    open spec fn facts(&self) -> OpFacts {
        self.base.facts_with(Some(self.meta), 0, 0)
    }

    fn base(&self) -> (res: &TypeOpBase) {
        &self.base
    }

    fn base_mut(&mut self) -> (res: &mut TypeOpBase) {
        &mut self.base
    }

    fn meta(&self) -> (res: Option<TypeOpMeta>) {
        Some(self.meta)
    }

    fn pointer_sizes(&self) -> (res: (i32, i32)) {
        (0, 0)
    }

    fn set_metatype_in(&mut self, val: TypeMetatype) {
        self.meta.metain = val;
    }

    fn set_metatype_out(&mut self, val: TypeMetatype) {
        self.meta.metaout = val;
    }

    fn into_record(self) -> (res: TypeOpRecord) {
        TypeOpRecord { base: self.base, meta: Some(self.meta), near_pointer_size: 0, far_pointer_size: 0 }
    }
}

#[derive(Debug)]
pub struct TypeOpSpull {
    pub base: TypeOpBase,
    pub meta: TypeOpMeta,
}

impl TypeOpSpull {
    pub fn new() -> (res: TypeOpSpull)
        ensures
            res.facts() == (OpFacts {
                opcode: OpCode::Spull,
                opflags: PcodeOp::TERNARY,
                addlflags: 0,
                name: "SPULL"@,
                behave: Some(OpBehavior { opcode: OpCode::Spull, unary: false, special: false }),
                meta: Some(TypeOpMeta { metaout: TypeMetatype::Int, metain: TypeMetatype::Int }),
                near: 0,
                far: 0,
            }),
    {
        TypeOpSpull {
            base: TypeOpBase::with_behavior(
                OpCode::Spull,
                "SPULL",
                PcodeOp::TERNARY,
                0,
                OpBehavior::new_special(OpCode::Spull, false, false),
            ),
            meta: TypeOpMeta::new(TypeMetatype::Int, TypeMetatype::Int),
        }
    }
}

impl Default for TypeOpSpull {
    fn default() -> (res: TypeOpSpull)
        ensures
            res.facts() == (OpFacts {
                opcode: OpCode::Spull,
                opflags: PcodeOp::TERNARY,
                addlflags: 0,
                name: "SPULL"@,
                behave: Some(OpBehavior { opcode: OpCode::Spull, unary: false, special: false }),
                meta: Some(TypeOpMeta { metaout: TypeMetatype::Int, metain: TypeMetatype::Int }),
                near: 0,
                far: 0,
            }),
    {
        TypeOpSpull::new()
    }
}

impl TypeOp for TypeOpSpull {
    open spec fn facts(&self) -> OpFacts {
        self.base.facts_with(Some(self.meta), 0, 0)
    }

    fn base(&self) -> (res: &TypeOpBase) {
        &self.base
    }

    fn base_mut(&mut self) -> (res: &mut TypeOpBase) {
        &mut self.base
    }

    fn meta(&self) -> (res: Option<TypeOpMeta>) {
        Some(self.meta)
    }

    fn pointer_sizes(&self) -> (res: (i32, i32)) {
        (0, 0)
    }

    fn set_metatype_in(&mut self, val: TypeMetatype) {
        self.meta.metain = val;
    }

    fn set_metatype_out(&mut self, val: TypeMetatype) {
        self.meta.metaout = val;
    }

    fn into_record(self) -> (res: TypeOpRecord) {
        TypeOpRecord { base: self.base, meta: Some(self.meta), near_pointer_size: 0, far_pointer_size: 0 }
    }
}

#[derive(Debug)]
pub struct TypeOpPopcount {
    pub base: TypeOpBase,
    pub meta: TypeOpMeta,
}

impl TypeOpPopcount {
    pub fn new() -> (res: TypeOpPopcount)
        ensures
            res.facts() == (OpFacts {
                opcode: OpCode::Popcount,
                opflags: PcodeOp::UNARY,
                addlflags: 0,
                name: "POPCOUNT"@,
                behave: Some(OpBehavior { opcode: OpCode::Popcount, unary: true, special: false }),
                meta: Some(TypeOpMeta { metaout: TypeMetatype::Int, metain: TypeMetatype::Unknown }),
                near: 0,
                far: 0,
            }),
    {
        TypeOpPopcount {
            base: TypeOpBase::with_behavior(
                OpCode::Popcount,
                "POPCOUNT",
                PcodeOp::UNARY,
                0,
                OpBehavior::new_special(OpCode::Popcount, true, false),
            ),
            meta: TypeOpMeta::new(TypeMetatype::Int, TypeMetatype::Unknown),
        }
    }
}

impl Default for TypeOpPopcount {
    fn default() -> (res: TypeOpPopcount)
        ensures
            res.facts() == (OpFacts {
                opcode: OpCode::Popcount,
                opflags: PcodeOp::UNARY,
                addlflags: 0,
                name: "POPCOUNT"@,
                behave: Some(OpBehavior { opcode: OpCode::Popcount, unary: true, special: false }),
                meta: Some(TypeOpMeta { metaout: TypeMetatype::Int, metain: TypeMetatype::Unknown }),
                near: 0,
                far: 0,
            }),
    {
        TypeOpPopcount::new()
    }
}

impl TypeOp for TypeOpPopcount {
    open spec fn facts(&self) -> OpFacts {
        self.base.facts_with(Some(self.meta), 0, 0)
    }

    fn base(&self) -> (res: &TypeOpBase) {
        &self.base
    }

    fn base_mut(&mut self) -> (res: &mut TypeOpBase) {
        &mut self.base
    }

    fn meta(&self) -> (res: Option<TypeOpMeta>) {
        Some(self.meta)
    }

    fn pointer_sizes(&self) -> (res: (i32, i32)) {
        (0, 0)
    }

    fn set_metatype_in(&mut self, val: TypeMetatype) {
        self.meta.metain = val;
    }

    fn set_metatype_out(&mut self, val: TypeMetatype) {
        self.meta.metaout = val;
    }

    fn into_record(self) -> (res: TypeOpRecord) {
        TypeOpRecord { base: self.base, meta: Some(self.meta), near_pointer_size: 0, far_pointer_size: 0 }
    }
}

#[derive(Debug)]
pub struct TypeOpLzcount {
    pub base: TypeOpBase,
    pub meta: TypeOpMeta,
}

impl TypeOpLzcount {
    pub fn new() -> (res: TypeOpLzcount)
        ensures
            res.facts() == (OpFacts {
                opcode: OpCode::Lzcount,
                opflags: PcodeOp::UNARY,
                addlflags: 0,
                name: "LZCOUNT"@,
                behave: Some(OpBehavior { opcode: OpCode::Lzcount, unary: true, special: false }),
                meta: Some(TypeOpMeta { metaout: TypeMetatype::Int, metain: TypeMetatype::Unknown }),
                near: 0,
                far: 0,
            }),
    {
        TypeOpLzcount {
            base: TypeOpBase::with_behavior(
                OpCode::Lzcount,
                "LZCOUNT",
                PcodeOp::UNARY,
                0,
                OpBehavior::new_special(OpCode::Lzcount, true, false),
            ),
            meta: TypeOpMeta::new(TypeMetatype::Int, TypeMetatype::Unknown),
        }
    }
}

impl Default for TypeOpLzcount {
    fn default() -> (res: TypeOpLzcount)
        ensures
            res.facts() == (OpFacts {
                opcode: OpCode::Lzcount,
                opflags: PcodeOp::UNARY,
                addlflags: 0,
                name: "LZCOUNT"@,
                behave: Some(OpBehavior { opcode: OpCode::Lzcount, unary: true, special: false }),
                meta: Some(TypeOpMeta { metaout: TypeMetatype::Int, metain: TypeMetatype::Unknown }),
                near: 0,
                far: 0,
            }),
    {
        TypeOpLzcount::new()
    }
}

impl TypeOp for TypeOpLzcount {
    open spec fn facts(&self) -> OpFacts {
        self.base.facts_with(Some(self.meta), 0, 0)
    }

    fn base(&self) -> (res: &TypeOpBase) {
        &self.base
    }

    fn base_mut(&mut self) -> (res: &mut TypeOpBase) {
        &mut self.base
    }

    fn meta(&self) -> (res: Option<TypeOpMeta>) {
        Some(self.meta)
    }

    fn pointer_sizes(&self) -> (res: (i32, i32)) {
        (0, 0)
    }

    fn set_metatype_in(&mut self, val: TypeMetatype) {
        self.meta.metain = val;
    }

    fn set_metatype_out(&mut self, val: TypeMetatype) {
        self.meta.metaout = val;
    }

    fn into_record(self) -> (res: TypeOpRecord) {
        TypeOpRecord { base: self.base, meta: Some(self.meta), near_pointer_size: 0, far_pointer_size: 0 }
    }
}

} // verus!

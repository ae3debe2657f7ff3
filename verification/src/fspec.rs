//! Function prototypes: the part of them that data-types depend on.
use vstd::prelude::*;
use crate::ids::TypeId;

verus! {

/// A parameter, or the return value, of a prototype.
#[derive(Debug)]
pub struct ProtoParameter {
    pub name: String,
    pub tp: TypeId,
    pub type_locked: bool,
    pub this_pointer: bool,
}

impl ProtoParameter {
    pub fn get_type(&self) -> (res: TypeId)
        ensures
            res == self.tp,
    {
        self.tp
    }

    pub fn is_type_locked(&self) -> (res: bool)
        ensures
            res == self.type_locked,
    {
        self.type_locked
    }

    pub fn is_this_pointer(&self) -> (res: bool)
        ensures
            res == self.this_pointer,
    {
        self.this_pointer
    }

    pub fn copy(&self) -> (res: ProtoParameter)
        ensures
            res == *self,
    {
        ProtoParameter {
            name: self.name.clone(),
            tp: self.tp,
            type_locked: self.type_locked,
            this_pointer: self.this_pointer,
        }
    }
}

/// A prototype: its calling convention, its parameters and its return value.
#[derive(Debug)]
pub struct FuncProto {
    /// The name of the calling convention, once one is attached.
    pub model_name: Option<String>,
    pub params: Vec<ProtoParameter>,
    pub output: Option<ProtoParameter>,
    pub flags: u32,
}

/// The raw description of a prototype.
#[derive(Debug)]
pub struct PrototypePieces {
    pub model_name: Option<String>,
    pub outtype: TypeId,
    pub intypes: Vec<TypeId>,
    pub innames: Vec<String>,
    /// Whether a variable number of arguments follows.
    pub dotdotdot: bool,
}

impl FuncProto {
    pub const DOTDOTDOT: u32 = 1;
    pub const VOIDINPUTLOCK: u32 = 2;
    pub const IS_CONSTRUCTOR: u32 = 4;
    pub const IS_DESTRUCTOR: u32 = 8;
    pub const HAS_THISPTR: u32 = 0x10;
    pub const COMPARABLE: u32 = 0x1d;

    pub fn new() -> (res: FuncProto)
        ensures
            res.model_name is None,
            res.params@.len() == 0,
            res.output is None,
            res.flags == 0,
    {
        FuncProto { model_name: None, params: Vec::new(), output: None, flags: 0 }
    }

    /// Two prototypes with the same contents.
    pub open spec fn alike(self, other: FuncProto) -> bool {
        &&& self.model_name == other.model_name
        &&& self.params@ == other.params@
        &&& self.output == other.output
        &&& self.flags == other.flags
    }

    pub fn copy(&self) -> (res: FuncProto)
        ensures
            res.alike(*self),
    {
        let mut params: Vec<ProtoParameter> = Vec::new();
        let mut i: usize = 0;
        while i < self.params.len()
            invariant
                i <= self.params@.len(),
                params@ == self.params@.take(i as int),
            decreases self.params@.len() - i,
        {
            params.push(self.params[i].copy());
            i = i + 1;
            assert(params@ =~= self.params@.take(i as int));
        }
        assert(params@ =~= self.params@);
        FuncProto {
            model_name: match &self.model_name {
                Some(name) => Some(name.clone()),
                None => None,
            },
            params,
            output: match &self.output {
                Some(param) => Some(param.copy()),
                None => None,
            },
            flags: self.flags,
        }
    }

    pub fn has_model(&self) -> (res: bool)
        ensures
            res == (self.model_name is Some),
    {
        self.model_name.is_some()
    }

    pub fn num_params(&self) -> (res: i32)
        requires
            self.params@.len() <= i32::MAX,
        ensures
            res == self.params@.len(),
    {
        self.params.len() as i32
    }

    pub fn get_param(&self, index: i32) -> (res: Option<&ProtoParameter>)
        ensures
            res == (if 0 <= index < self.params@.len() {
                Some(&self.params@[index as int])
            } else {
                None
            }),
    {
        if index >= 0 && (index as usize) < self.params.len() {
            Some(&self.params[index as usize])
        } else {
            None
        }
    }

    /// The parameters are fixed.
    pub open spec fn input_locked(self) -> bool {
        (self.flags & FuncProto::VOIDINPUTLOCK) != 0 || (self.params@.len() > 0 && self.params@[0].type_locked)
    }

    pub fn is_input_locked(&self) -> (res: bool)
        ensures
            res == self.input_locked(),
    {
        if (self.flags & FuncProto::VOIDINPUTLOCK) != 0 {
            return true;
        }
        self.params.len() > 0 && self.params[0].is_type_locked()
    }

    /// The return value is fixed.
    pub open spec fn output_locked(self) -> bool {
        self.output matches Some(out) && out.type_locked
    }

    pub fn is_output_locked(&self) -> (res: bool)
        ensures
            res == self.output_locked(),
    {
        match &self.output {
            Some(out) => out.is_type_locked(),
            None => false,
        }
    }

    pub fn get_comparable_flags(&self) -> (res: u32)
        ensures
            res == self.flags & FuncProto::COMPARABLE,
    {
        self.flags & FuncProto::COMPARABLE
    }

    pub fn set_constructor(&mut self, val: bool)
        ensures
            *final(self) == (FuncProto {
                flags: (if val {
                    old(self).flags | FuncProto::IS_CONSTRUCTOR
                } else {
                    old(self).flags & !FuncProto::IS_CONSTRUCTOR
                }),
                ..*old(self)
            }),
    {
        if val {
            self.flags = self.flags | FuncProto::IS_CONSTRUCTOR;
        } else {
            self.flags = self.flags & !FuncProto::IS_CONSTRUCTOR;
        }
    }

    pub fn set_destructor(&mut self, val: bool)
        ensures
            *final(self) == (FuncProto {
                flags: (if val {
                    old(self).flags | FuncProto::IS_DESTRUCTOR
                } else {
                    old(self).flags & !FuncProto::IS_DESTRUCTOR
                }),
                ..*old(self)
            }),
    {
        if val {
            self.flags = self.flags | FuncProto::IS_DESTRUCTOR;
        } else {
            self.flags = self.flags & !FuncProto::IS_DESTRUCTOR;
        }
    }

    /// A locked prototype built from a raw description.
    pub fn from_pieces(pieces: &PrototypePieces) -> (res: FuncProto)
        requires
            pieces.innames@.len() >= pieces.intypes@.len(),
        ensures
            res.model_name == pieces.model_name,
            res.params@.len() == pieces.intypes@.len(),
            forall|i: int|
                0 <= i < res.params@.len() ==> (#[trigger] res.params@[i]) == (ProtoParameter {
                    name: pieces.innames@[i],
                    tp: pieces.intypes@[i],
                    type_locked: true,
                    this_pointer: false,
                }),
            res.output matches Some(out) && out.tp == pieces.outtype && out.type_locked
                && !out.this_pointer && out.name@.len() == 0,
            res.flags == (if pieces.dotdotdot {
                FuncProto::DOTDOTDOT
            } else {
                0
            }),
    {
        let mut params: Vec<ProtoParameter> = Vec::new();
        let mut i: usize = 0;
        while i < pieces.intypes.len()
            invariant
                i <= pieces.intypes@.len(),
                pieces.innames@.len() >= pieces.intypes@.len(),
                params@.len() == i,
                forall|k: int|
                    0 <= k < i ==> (#[trigger] params@[k]) == (ProtoParameter {
                        name: pieces.innames@[k],
                        tp: pieces.intypes@[k],
                        type_locked: true,
                        this_pointer: false,
                    }),
            decreases pieces.intypes@.len() - i,
        {
            params.push(
                ProtoParameter {
                    name: pieces.innames[i].clone(),
                    tp: pieces.intypes[i],
                    type_locked: true,
                    this_pointer: false,
                },
            );
            i = i + 1;
        }
        FuncProto {
            model_name: match &pieces.model_name {
                Some(name) => Some(name.clone()),
                None => None,
            },
            params,
            output: Some(
                ProtoParameter {
                    name: String::new(),
                    tp: pieces.outtype,
                    type_locked: true,
                    this_pointer: false,
                },
            ),
            flags: if pieces.dotdotdot {
                FuncProto::DOTDOTDOT
            } else {
                0
            },
        }
    }
}

} // verus!

//! The program that is being decompiled, apart from its functions.
use vstd::prelude::*;
use crate::address::Address;
use crate::database::Database;
use crate::float::FloatFormat;
use crate::space::{AddrSpace, SpaceRef};
use crate::types::TypeFactory;

verus! {

/// The address spaces of a program.
pub struct SpaceManager {
    pub spaces: Vec<SpaceRef>,
    pub default_data_space: Option<SpaceRef>,
    pub stack_space: Option<SpaceRef>,
    /// Bytes in the register that the stack space is based on.
    pub stack_pointer_size: Option<i32>,
    pub default_size: i32,
}

impl SpaceManager {
    pub fn get_default_data_space(&self) -> (res: Option<&SpaceRef>)
        ensures
            res == (match self.default_data_space {
                Some(spc) => Some(&spc),
                None => None,
            }),
    {
        match &self.default_data_space {
            Some(spc) => Some(spc),
            None => None,
        }
    }

    /// The address that a constant stands for in a space.
    pub open spec fn resolved(spaceid: SpaceRef, off: u64) -> Address {
        Address { base: Some(spaceid), offset: spaceid.wrapped(off.wrapping_mul(spaceid.word_size as u64)) }
    }

    /// The address that a constant stands for in a space.
    pub fn resolve_constant(&self, spaceid: &SpaceRef, off: u64) -> (res: Address)
        ensures
            res == SpaceManager::resolved(*spaceid, off),
    {
        let bytes: u64 = AddrSpace::address_to_byte(off, spaceid.get_word_size());
        Address::new(spaceid, spaceid.wrap_offset(bytes))
    }
}

/// A program.
pub struct Architecture {
    pub types: TypeFactory,
    pub manager: SpaceManager,
    pub symboltab: Database,
    /// The encodings of floating-point values that the processor knows.
    pub float_formats: Vec<FloatFormat>,
}

impl Architecture {
    /// The data-types are sound, the symbol table is consistent and symbols have
    /// data-types that a variable can have.
    pub open spec fn sound(self) -> bool {
        &&& self.types.sound()
        &&& self.symboltab.valid()
        &&& forall|i: int| #![trigger self.symboltab.symbols@[i]]
            0 <= i < self.symboltab.symbols@.len() ==> self.symbol_type_valid(self.symboltab.symbols@[i].tp)
    }

    pub open spec fn symbol_type_valid(self, tp: Option<crate::ids::TypeId>) -> bool {
        tp is Some ==> self.types.has(tp->0) && !(self.types.dt(tp->0).kind is Spacebase)
    }
}

} // verus!

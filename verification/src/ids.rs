//! Handles: indices into the arenas that own the objects of a decompilation.
use vstd::prelude::*;

verus! {

/// A data-type of a type factory.
#[derive(Copy, Clone, Debug, PartialEq, Eq, PartialOrd, Ord, Hash, Structural)]
pub struct TypeId(pub u32);

/// A varnode of a function.
#[derive(Copy, Clone, Debug, PartialEq, Eq, PartialOrd, Ord, Hash, Structural)]
pub struct VarnodeId(pub u32);

/// A p-code operation of a function.
#[derive(Copy, Clone, Debug, PartialEq, Eq, PartialOrd, Ord, Hash, Structural)]
pub struct OpId(pub u32);

/// A basic block of a function.
#[derive(Copy, Clone, Debug, PartialEq, Eq, PartialOrd, Ord, Hash, Structural)]
pub struct BlockId(pub u32);

/// A high-level variable of a function.
#[derive(Copy, Clone, Debug, PartialEq, Eq, PartialOrd, Ord, Hash, Structural)]
pub struct HighId(pub u32);

/// A group of variable pieces.
#[derive(Copy, Clone, Debug, PartialEq, Eq, PartialOrd, Ord, Hash, Structural)]
pub struct GroupId(pub u32);

/// The call specification of a call site.
#[derive(Copy, Clone, Debug, PartialEq, Eq, PartialOrd, Ord, Hash, Structural)]
pub struct CallSpecId(pub u32);

/// A scope of the symbol table.
#[derive(Copy, Clone, Debug, PartialEq, Eq, PartialOrd, Ord, Hash, Structural)]
pub struct ScopeId(pub u32);

/// A symbol of the symbol table.
#[derive(Copy, Clone, Debug, PartialEq, Eq, PartialOrd, Ord, Hash, Structural)]
pub struct SymbolId(pub u32);

/// A storage location of a symbol.
#[derive(Copy, Clone, Debug, PartialEq, Eq, PartialOrd, Ord, Hash, Structural)]
pub struct EntryId(pub u32);

/// A calling convention.
#[derive(Copy, Clone, Debug, PartialEq, Eq, PartialOrd, Ord, Hash, Structural)]
pub struct ModelId(pub u32);

/// The order of two optional handles: a missing handle comes first.
pub open spec fn option_index(id: Option<TypeId>) -> int {
    match id {
        Some(t) => t.0 as int,
        None => -1,
    }
}

/// The position of an optional handle in that order.
pub fn option_position(id: Option<TypeId>) -> (res: i64)
    ensures
        res == option_index(id),
{
    match id {
        Some(t) => t.0 as i64,
        None => -1,
    }
}

} // verus!

//! The symbol table: scopes, symbols and where symbols are stored.
use vstd::prelude::*;
use crate::address::Address;
use crate::ids::{EntryId, ScopeId, SymbolId, TypeId};
use crate::space::space_order_index;

verus! {

/// A symbol.
#[derive(Debug)]
pub struct Symbol {
    pub name: String,
    pub tp: Option<TypeId>,
    pub type_locked: bool,
    pub name_locked: bool,
    pub name_undefined: bool,
    /// What the symbol stands for: see the constants.
    pub category: i32,
    /// The scope of the body, for a function.
    pub local_scope: Option<ScopeId>,
    pub is_function: bool,
    pub id: u64,
    /// The scope that the symbol belongs to.
    pub scope: ScopeId,
}

impl Symbol {
    pub const FUNCTION_PARAMETER: i32 = 0;
    pub const EQUATE: i32 = 1;
    pub const UNION_FACET: i32 = 2;

    pub fn get_type(&self) -> (res: Option<TypeId>)
        ensures
            res == self.tp,
    {
        self.tp
    }

    pub fn get_category(&self) -> (res: i32)
        ensures
            res == self.category,
    {
        self.category
    }
}

/// A stretch of storage that belongs to a symbol.
#[derive(Debug)]
pub struct SymbolEntry {
    pub addr: Address,
    pub size: i32,
    /// Which part of the symbol is stored here.
    pub offset: i32,
    pub symbol: SymbolId,
    /// Whether the entry is one of several that make the symbol up.
    pub piece: bool,
}

impl SymbolEntry {
    pub fn get_offset(&self) -> (res: i32)
        ensures
            res == self.offset,
    {
        self.offset
    }

    pub fn get_symbol(&self) -> (res: SymbolId)
        ensures
            res == self.symbol,
    {
        self.symbol
    }

    /// Whether the storage is not an address.
    pub fn is_dynamic(&self) -> (res: bool)
        ensures
            res == (self.addr.base is None),
    {
        self.addr.is_invalid()
    }

    pub fn is_piece(&self) -> (res: bool)
        ensures
            res == self.piece,
    {
        self.piece
    }

    /// Whether the entry is in the space of an address.
    pub open spec fn in_space_of(self, addr: Address) -> bool {
        crate::space::space_index(self.addr.base) == crate::space::space_index(addr.base)
    }

    /// Whether the entry covers a number of bytes from an address on.
    pub open spec fn covers(self, addr: Address, size: int) -> bool {
        &&& self.in_space_of(addr)
        &&& self.addr.offset <= addr.offset
        &&& addr.offset + size <= self.addr.offset + self.size
    }

    fn covers_bytes(&self, addr: &Address, size: i32) -> (res: bool)
        ensures
            res == self.covers(*addr, size as int),
    {
        if space_order_index(&self.addr.base) != space_order_index(&addr.base) {
            return false;
        }
        if self.addr.offset > addr.offset {
            return false;
        }
        (addr.offset as i128) + (size as i128) <= (self.addr.offset as i128) + (self.size as i128)
    }
}

/// A range of bytes in a space.
#[derive(Debug)]
pub struct ScopeRange {
    pub space: i32,
    pub first: u64,
    pub last: u64,
}

/// A scope: the symbols that a part of the program sees.
#[derive(Debug)]
pub struct Scope {
    pub id: u64,
    pub is_global: bool,
    /// The entry point of the function that the scope belongs to.
    pub function: Option<Address>,
    pub entries: Vec<EntryId>,
    pub children: Vec<ScopeId>,
    pub ranges: Vec<ScopeRange>,
}

/// All scopes, symbols and storage.
#[derive(Debug)]
pub struct Database {
    pub scopes: Vec<Scope>,
    pub entries: Vec<SymbolEntry>,
    pub symbols: Vec<Symbol>,
    pub global_scope: Option<ScopeId>,
}

impl Scope {
    /// Whether one of the first `n` ranges of the scope covers some bytes.
    pub open spec fn owns(self, addr: Address, size: int, n: nat) -> bool
        decreases n,
    {
        n > 0 && ({
            let range = self.ranges@[n - 1];
            ||| range.space == crate::space::space_index(addr.base) && range.first <= addr.offset && addr.offset + size
                - 1 <= range.last
            ||| self.owns(addr, size, (n - 1) as nat)
        })
    }

    /// Whether the scope is responsible for some bytes.
    pub fn in_scope(&self, addr: &Address, size: i32) -> (res: bool)
        ensures
            res == self.owns(*addr, size as int, self.ranges@.len()),
    {
        let mut i: usize = 0;
        let mut found = false;
        while i < self.ranges.len()
            invariant
                i <= self.ranges@.len(),
                found == self.owns(*addr, size as int, i as nat),
            decreases self.ranges@.len() - i,
        {
            let range = &self.ranges[i];
            if range.space as i64 == space_order_index(&addr.base) && range.first <= addr.offset && (addr.offset
                as i128) + (size as i128) - 1 <= (range.last as i128) {
                found = true;
            }
            i = i + 1;
        }
        found
    }
}

impl Database {
    /// The handles of the table name something.
    pub open spec fn valid(self) -> bool {
        &&& self.entries@.len() <= u32::MAX
        &&& self.scopes@.len() <= u32::MAX
        &&& forall|s: int, i: int| #![trigger self.scopes@[s].entries@[i]]
            0 <= s < self.scopes@.len() && 0 <= i < self.scopes@[s].entries@.len() ==> self.scopes@[s].entries@[i].0
                < self.entries@.len()
        &&& forall|s: int, i: int| #![trigger self.scopes@[s].children@[i]]
            0 <= s < self.scopes@.len() && 0 <= i < self.scopes@[s].children@.len() ==> self.scopes@[s].children@[i].0
                < self.scopes@.len()
        &&& forall|e: int| 0 <= e < self.entries@.len() ==> (#[trigger] self.entries@[e]).symbol.0 < self.symbols@.len()
        &&& self.global_scope is Some ==> (self.global_scope->0).0 < self.scopes@.len()
    }

    pub open spec fn scope(self, id: ScopeId) -> Scope {
        self.scopes@[id.0 as int]
    }

    pub open spec fn entry(self, id: EntryId) -> SymbolEntry {
        self.entries@[id.0 as int]
    }

    pub open spec fn symbol(self, id: SymbolId) -> Symbol {
        self.symbols@[id.0 as int]
    }

    pub fn get_entry(&self, id: EntryId) -> (res: &SymbolEntry)
        requires
            id.0 < self.entries@.len(),
        ensures
            *res == self.entry(id),
    {
        &self.entries[id.0 as usize]
    }

    pub fn get_symbol(&self, id: SymbolId) -> (res: &Symbol)
        requires
            id.0 < self.symbols@.len(),
        ensures
            *res == self.symbol(id),
    {
        &self.symbols[id.0 as usize]
    }

    pub fn get_scope(&self, id: ScopeId) -> (res: &Scope)
        requires
            id.0 < self.scopes@.len(),
        ensures
            *res == self.scope(id),
    {
        &self.scopes[id.0 as usize]
    }

    /// The first of the first `n` scopes that has the given id.
    pub open spec fn scope_numbered(self, id: u64, n: nat) -> Option<ScopeId>
        decreases n,
    {
        if n == 0 {
            None
        } else if self.scope_numbered(id, (n - 1) as nat) is Some {
            self.scope_numbered(id, (n - 1) as nat)
        } else if self.scopes@[n - 1].id == id {
            Some(ScopeId((n - 1) as u32))
        } else {
            None
        }
    }

    /// The scope with the given id.
    pub open spec fn resolved(self, id: u64) -> Option<ScopeId> {
        self.scope_numbered(id, self.scopes@.len())
    }

    /// Finds the scope with the given id.
    pub fn resolve_scope(&self, id: u64) -> (res: Option<ScopeId>)
        requires
            self.valid(),
        ensures
            res == self.resolved(id),
            res is Some ==> (res->0).0 < self.scopes@.len(),
    {
        let mut i: usize = 0;
        let mut found: Option<ScopeId> = None;
        while i < self.scopes.len()
            invariant
                i <= self.scopes@.len() <= u32::MAX,
                found == self.scope_numbered(id, i as nat),
                found is Some ==> (found->0).0 < self.scopes@.len(),
            decreases self.scopes@.len() - i,
        {
            if found.is_none() && self.scopes[i].id == id {
                found = Some(ScopeId(i as u32));
            }
            i = i + 1;
        }
        found
    }

    /// The smallest entry, among the first `n` of a scope, that covers some bytes.
    pub open spec fn smallest_cover(self, scope: ScopeId, addr: Address, size: int, n: nat) -> Option<EntryId>
        decreases n,
    {
        if n == 0 {
            None
        } else {
            let before = self.smallest_cover(scope, addr, size, (n - 1) as nat);
            let id = self.scope(scope).entries@[n - 1];
            if self.entry(id).covers(addr, size) && (before is None || self.entry(id).size < self.entry(
                before->0,
            ).size) {
                Some(id)
            } else {
                before
            }
        }
    }

    /// The smallest entry of a scope that covers some bytes.
    pub open spec fn container(self, scope: ScopeId, addr: Address, size: int) -> Option<EntryId> {
        self.smallest_cover(scope, addr, size, self.scope(scope).entries@.len())
    }

    /// Finds the smallest entry of a scope that covers some bytes.
    pub fn scope_query_container(&self, scope: ScopeId, addr: &Address, size: i32) -> (res: Option<EntryId>)
        requires
            self.valid(),
            scope.0 < self.scopes@.len(),
        ensures
            res == self.container(scope, *addr, size as int),
            res is Some ==> (res->0).0 < self.entries@.len() && self.entry(res->0).covers(*addr, size as int),
    {
        let list = &self.scopes[scope.0 as usize].entries;
        let mut best: Option<EntryId> = None;
        let mut i: usize = 0;
        while i < list.len()
            invariant
                self.valid(),
                scope.0 < self.scopes@.len(),
                *list == self.scope(scope).entries,
                i <= list@.len(),
                best == self.smallest_cover(scope, *addr, size as int, i as nat),
                best is Some ==> (best->0).0 < self.entries@.len() && self.entry(best->0).covers(
                    *addr,
                    size as int,
                ),
            decreases list@.len() - i,
        {
            let id = list[i];
            assert(self.scopes@[scope.0 as int].entries@[i as int].0 < self.entries@.len());
            let entry = &self.entries[id.0 as usize];
            if entry.covers_bytes(addr, size) {
                match best {
                    None => {
                        best = Some(id);
                    },
                    Some(old) => {
                        if entry.size < self.entries[old.0 as usize].size {
                            best = Some(id);
                        }
                    },
                }
            }
            i = i + 1;
        }
        best
    }

    /// The first entry, among the first `n` of a scope, that starts after an address.
    pub open spec fn nearest_after(self, scope: ScopeId, addr: Address, n: nat) -> Option<EntryId>
        decreases n,
    {
        if n == 0 {
            None
        } else {
            let before = self.nearest_after(scope, addr, (n - 1) as nat);
            let id = self.scope(scope).entries@[n - 1];
            if self.entry(id).in_space_of(addr) && self.entry(id).addr.offset > addr.offset && (before is None
                || self.entry(id).addr.offset < self.entry(before->0).addr.offset) {
                Some(id)
            } else {
                before
            }
        }
    }

    /// The first entry of a scope that starts after an address.
    pub open spec fn entry_after(self, scope: ScopeId, addr: Address) -> Option<EntryId> {
        self.nearest_after(scope, addr, self.scope(scope).entries@.len())
    }

    /// Finds the first entry of a scope that starts after an address.
    pub fn scope_find_symbol_after(&self, scope: ScopeId, addr: &Address) -> (res: Option<EntryId>)
        requires
            self.valid(),
            scope.0 < self.scopes@.len(),
        ensures
            res == self.entry_after(scope, *addr),
            res is Some ==> (res->0).0 < self.entries@.len() && self.entry(res->0).in_space_of(*addr) && self.entry(
                res->0,
            ).addr.offset > addr.offset,
    {
        let list = &self.scopes[scope.0 as usize].entries;
        let mut best: Option<EntryId> = None;
        let mut i: usize = 0;
        while i < list.len()
            invariant
                self.valid(),
                scope.0 < self.scopes@.len(),
                *list == self.scope(scope).entries,
                i <= list@.len(),
                best == self.nearest_after(scope, *addr, i as nat),
                best is Some ==> (best->0).0 < self.entries@.len() && self.entry(best->0).in_space_of(*addr)
                    && self.entry(best->0).addr.offset > addr.offset,
            decreases list@.len() - i,
        {
            let id = list[i];
            assert(self.scopes@[scope.0 as int].entries@[i as int].0 < self.entries@.len());
            let entry = &self.entries[id.0 as usize];
            if space_order_index(&entry.addr.base) == space_order_index(&addr.base) && entry.addr.offset
                > addr.offset {
                match best {
                    None => {
                        best = Some(id);
                    },
                    Some(old) => {
                        if entry.addr.offset < self.entries[old.0 as usize].addr.offset {
                            best = Some(id);
                        }
                    },
                }
            }
            i = i + 1;
        }
        best
    }

    /// The last entry, among the first `n` of a scope, that starts before an address.
    pub open spec fn nearest_before(self, scope: ScopeId, addr: Address, n: nat) -> Option<EntryId>
        decreases n,
    {
        if n == 0 {
            None
        } else {
            let before = self.nearest_before(scope, addr, (n - 1) as nat);
            let id = self.scope(scope).entries@[n - 1];
            if self.entry(id).in_space_of(addr) && self.entry(id).addr.offset < addr.offset && (before is None
                || self.entry(id).addr.offset > self.entry(before->0).addr.offset) {
                Some(id)
            } else {
                before
            }
        }
    }

    /// The last entry of a scope that starts before an address.
    pub open spec fn entry_before(self, scope: ScopeId, addr: Address) -> Option<EntryId> {
        self.nearest_before(scope, addr, self.scope(scope).entries@.len())
    }

    /// Finds the last entry of a scope that starts before an address.
    pub fn scope_find_symbol_before(&self, scope: ScopeId, addr: &Address) -> (res: Option<EntryId>)
        requires
            self.valid(),
            scope.0 < self.scopes@.len(),
        ensures
            res == self.entry_before(scope, *addr),
            res is Some ==> (res->0).0 < self.entries@.len() && self.entry(res->0).in_space_of(*addr) && self.entry(
                res->0,
            ).addr.offset < addr.offset,
    {
        let list = &self.scopes[scope.0 as usize].entries;
        let mut best: Option<EntryId> = None;
        let mut i: usize = 0;
        while i < list.len()
            invariant
                self.valid(),
                scope.0 < self.scopes@.len(),
                *list == self.scope(scope).entries,
                i <= list@.len(),
                best == self.nearest_before(scope, *addr, i as nat),
                best is Some ==> (best->0).0 < self.entries@.len() && self.entry(best->0).in_space_of(*addr)
                    && self.entry(best->0).addr.offset < addr.offset,
            decreases list@.len() - i,
        {
            let id = list[i];
            assert(self.scopes@[scope.0 as int].entries@[i as int].0 < self.entries@.len());
            let entry = &self.entries[id.0 as usize];
            if space_order_index(&entry.addr.base) == space_order_index(&addr.base) && entry.addr.offset
                < addr.offset {
                match best {
                    None => {
                        best = Some(id);
                    },
                    Some(old) => {
                        if entry.addr.offset > self.entries[old.0 as usize].addr.offset {
                            best = Some(id);
                        }
                    },
                }
            }
            i = i + 1;
        }
        best
    }
}

/// No entry of a scope that starts after an address starts before the one found.
pub proof fn entry_after_is_first(db: Database, scope: ScopeId, addr: Address, n: nat, i: int)
    requires
        0 <= i < n <= db.scope(scope).entries@.len(),
        db.entry(db.scope(scope).entries@[i]).in_space_of(addr),
        db.entry(db.scope(scope).entries@[i]).addr.offset > addr.offset,
    ensures
        db.nearest_after(scope, addr, n) is Some,
        db.entry(db.nearest_after(scope, addr, n)->0).addr.offset <= db.entry(
            db.scope(scope).entries@[i],
        ).addr.offset,
    decreases n,
{
    if i < n - 1 {
        entry_after_is_first(db, scope, addr, (n - 1) as nat, i);
    }
}

} // verus!

//! Reading data-types that are described without the help of others.
use vstd::prelude::*;
use crate::address::Address;
use crate::architecture::Architecture;
use crate::error::{Error, Result};
use crate::ids::{ScopeId, TypeId};
use crate::marshal::{Attribute, Element, ATTRIB_METATYPE, ATTRIB_NAME, ATTRIB_SPACE};
use crate::text::is_empty_text;
use crate::types::decode::Fault;
use crate::types::labels::{ATTRIB_CHAR, ATTRIB_UTF};
use crate::types::print::string2metatype;
use crate::types::vet::malformed_type;
use crate::types::{Datatype, SubMetatype, TypeFactory, TypeKind, TypeMetatype, TypeSpacebaseData};

verus! {

/// A data-type as one of those that every program has, if it is meant to be.
pub open spec fn marked(d: Datatype, core: bool) -> Datatype {
    if core {
        Datatype { flags: d.flags | Datatype::CORETYPE, ..d }
    } else {
        d
    }
}

/// What taking a data-type that was read into a factory does.
pub open spec fn takes_in(after: TypeFactory, before: TypeFactory, d: Datatype, core: bool, res: Result<TypeId>) -> bool {
    if !before.takes(marked(d, core)) {
        after == before && (res matches Err(e) && crate::types::vet::malformed(e))
    } else {
        after.adds(before, marked(d, core), res)
    }
}

pub fn take_in(types: &mut TypeFactory, d: Datatype, core: bool) -> (res: Result<TypeId>)
    requires
        old(types).ready(),
    ensures
        final(types).ready(),
        takes_in(*final(types), *old(types), d, core, res),
        res matches Ok(id) ==> final(types).has(id),
{
    let mut tmp = d;
    if core {
        tmp.flags = tmp.flags | Datatype::CORETYPE;
    }
    if !types.can_take(&tmp) {
        return Err(malformed_type());
    }
    types.find_add(&tmp)
}

/// What a fault does: nothing, but for the report.
pub open spec fn fails(after: TypeFactory, before: TypeFactory, fault: Fault, res: Result<TypeId>) -> bool {
    after == before && (res matches Err(e) && fault.is_report(e))
}

/// Whether a data-type is a character.
#[derive(Copy, Clone, Debug, PartialEq, Eq, Structural)]
pub enum Letters {
    Plain,
    Char,
    Wide,
}

/// Whether attributes say that a data-type is a character, from one of them on.
pub open spec fn letters_from(list: Seq<Attribute>, i: nat) -> std::result::Result<Letters, Fault>
    decreases list.len() - i,
{
    if i >= list.len() {
        Ok(Letters::Plain)
    } else if list[i as int].id == ATTRIB_CHAR || list[i as int].id == ATTRIB_UTF {
        match list[i as int].value.boolean() {
            None => Err(Fault::Decoder("Expecting boolean attribute"@)),
            Some(b) => if !b {
                letters_from(list, i + 1)
            } else if list[i as int].id == ATTRIB_CHAR {
                Ok(Letters::Char)
            } else {
                Ok(Letters::Wide)
            },
        }
    } else {
        letters_from(list, i + 1)
    }
}

fn find_letters(elem: &Element) -> (res: Result<Letters>)
    ensures
        match letters_from(elem.attributes@, 0) {
            Ok(letters) => res == Ok::<Letters, Error>(letters),
            Err(fault) => res matches Err(e) && fault.is_report(e),
        },
{
    let mut i: usize = 0;
    while i < elem.attributes.len()
        invariant
            i <= elem.attributes@.len(),
            letters_from(elem.attributes@, i as nat) == letters_from(elem.attributes@, 0),
        decreases elem.attributes@.len() - i,
    {
        let id: u32 = elem.attributes[i].id;
        if id == ATTRIB_CHAR || id == ATTRIB_UTF {
            match elem.attributes[i].value.read_bool() {
                Ok(b) => {
                    if b {
                        return if id == ATTRIB_CHAR {
                            Ok(Letters::Char)
                        } else {
                            Ok(Letters::Wide)
                        };
                    }
                },
                Err(e) => {
                    return Err(e);
                },
            }
        }
        i = i + 1;
    }
    Ok(Letters::Plain)
}

/// The text that an attribute gives, or what is wrong with it.
pub open spec fn text_attribute(elem: Element, id: u32) -> std::result::Result<Seq<char>, Fault> {
    match elem.attribute(id) {
        Some(value) => match value.text() {
            Some(text) => Ok(text),
            None => Err(Fault::Decoder("Expecting string attribute"@)),
        },
        None => Err(Fault::Decoder("Attribute is missing"@)),
    }
}

/// The space that an attribute gives, or what is wrong with it.
pub open spec fn space_attribute(elem: Element, id: u32) -> std::result::Result<crate::space::SpaceRef, Fault> {
    match elem.attribute(id) {
        Some(value) => match value.space() {
            Some(spc) => Ok(spc),
            None => Err(Fault::Decoder("Expecting space attribute"@)),
        },
        None => Err(Fault::Decoder("Attribute is missing"@)),
    }
}

/// The class that an element gives, or what is wrong with it.
pub open spec fn class_told(elem: Element) -> std::result::Result<TypeMetatype, Fault> {
    match text_attribute(elem, ATTRIB_METATYPE) {
        Err(fault) => Err(fault),
        Ok(text) => match crate::types::print::named_meta(text) {
            Some(meta) => Ok(meta),
            None => Err(Fault::Lowlevel("Unknown metatype: "@ + text)),
        },
    }
}

pub fn read_class(elem: &Element) -> (res: Result<TypeMetatype>)
    ensures
        match class_told(*elem) {
            Ok(meta) => res == Ok::<TypeMetatype, Error>(meta),
            Err(fault) => res matches Err(e) && fault.is_report(e),
        },
{
    match elem.read_string_attr(ATTRIB_METATYPE) {
        Ok(text) => string2metatype(text.as_str()),
        Err(e) => Err(e),
    }
}

/// Taking in what was read, unless there was a fault.
pub open spec fn takes_unless(
    after: TypeFactory,
    before: TypeFactory,
    fault: Option<Fault>,
    d: Datatype,
    core: bool,
    res: Result<TypeId>,
) -> bool {
    match fault {
        Some(fault) => fails(after, before, fault, res),
        None => takes_in(after, before, d, core, res),
    }
}

/// A basic data-type before anything is known of it.
pub open spec fn bare_base(bare: Datatype) -> bool {
    bare.fresh(0, -1, TypeMetatype::Unknown, crate::types::base_submeta(TypeMetatype::Unknown), 0, Seq::empty())
        && bare.kind is Base
}

/// A character with a name.
pub open spec fn bare_char(bare: Datatype, name: Seq<char>) -> bool {
    bare.fresh(1, -1, TypeMetatype::Int, SubMetatype::IntChar, Datatype::CHARTYPE, name) && bare.kind is Char
}

/// A wide character before anything is known of it.
pub open spec fn bare_wide(bare: Datatype) -> bool {
    bare.fresh(0, -1, TypeMetatype::Int, SubMetatype::IntPlain, 0, Seq::empty()) && bare.kind is Unicode
}

/// What reading a basic data-type does.
pub open spec fn reads_plain(after: TypeFactory, before: TypeFactory, elem: Element, core: bool, res: Result<TypeId>) -> bool {
    match letters_from(elem.attributes@, 0) {
        Err(fault) => fails(after, before, fault, res),
        Ok(Letters::Plain) => exists|bare: Datatype, done: Datatype| #[trigger]
            done.takes_basics(bare, elem) && bare_base(bare) && takes_unless(
                after,
                before,
                bare.basic_fault(elem),
                done,
                core,
                res,
            ),
        Ok(Letters::Char) => match text_attribute(elem, ATTRIB_NAME) {
            Err(fault) => fails(after, before, fault, res),
            Ok(name) => exists|bare: Datatype, done: Datatype| #[trigger]
                done.takes_char(bare, elem) && bare_char(bare, name) && takes_unless(
                    after,
                    before,
                    bare.basic_fault(elem),
                    done,
                    core,
                    res,
                ),
        },
        Ok(Letters::Wide) => exists|bare: Datatype, done: Datatype| #[trigger]
            done.takes_wide(bare, elem) && bare_wide(bare) && takes_unless(
                after,
                before,
                bare.basic_fault(elem),
                done,
                core,
                res,
            ),
    }
}

pub fn decode_plain(types: &mut TypeFactory, elem: &Element, core: bool) -> (res: Result<TypeId>)
    requires
        old(types).ready(),
    ensures
        final(types).ready(),
        reads_plain(*final(types), *old(types), *elem, core, res),
        res matches Ok(id) ==> final(types).has(id),
{
    match find_letters(elem) {
        Err(e) => Err(e),
        Ok(Letters::Char) => {
            let name = match elem.read_string_attr(ATTRIB_NAME) {
                Ok(name) => name,
                Err(e) => {
                    return Err(e);
                },
            };
            match Datatype::new_char(name.as_str()) {
                Ok(bare) => {
                    let mut tc = bare;
                    let read = tc.decode_char(elem);
                    assert(tc.takes_char(bare, *elem));
                    match read {
                        Ok(()) => take_in(types, tc, core),
                        Err(e) => Err(e),
                    }
                },
                Err(e) => Err(e),
            }
        },
        Ok(Letters::Wide) => match Datatype::new_unicode_empty() {
            Ok(bare) => {
                let mut tu = bare;
                let read = tu.decode_unicode(elem);
                assert(tu.takes_wide(bare, *elem));
                match read {
                    Ok(()) => take_in(types, tu, core),
                    Err(e) => Err(e),
                }
            },
            Err(e) => Err(e),
        },
        Ok(Letters::Plain) => match Datatype::new_base(0, TypeMetatype::Unknown) {
            Ok(bare) => {
                let mut tb = bare;
                let read = tb.decode_basic(elem);
                assert(tb.takes_basics(bare, *elem));
                match read {
                    Ok(()) => take_in(types, tb, core),
                    Err(e) => Err(e),
                }
            },
            Err(e) => Err(e),
        },
    }
}

/// What reading the data-type of nothing in full does.
pub open spec fn reads_void(after: TypeFactory, before: TypeFactory, elem: Element, res: Result<TypeId>) -> bool {
    exists|bare: Datatype| #[trigger]
        bare_void(bare) && ({
            let (id, fault) = crate::types::decode::last_unsigned(elem.attributes@, crate::marshal::ATTRIB_ID, 0, bare.id);
            takes_unless(after, before, fault, Datatype { id, ..bare }, false, res)
        })
}

/// The data-type of nothing.
pub open spec fn bare_void(bare: Datatype) -> bool {
    bare.fresh(0, 1, TypeMetatype::Void, SubMetatype::Void, Datatype::CORETYPE, "void"@) && bare.kind is Void
}

pub fn decode_void_type(types: &mut TypeFactory, elem: &Element) -> (res: Result<TypeId>)
    requires
        old(types).ready(),
    ensures
        final(types).ready(),
        reads_void(*final(types), *old(types), *elem, res),
        res matches Ok(id) ==> final(types).has(id),
{
    match Datatype::new_void() {
        Ok(bare) => {
            let mut void_type = bare;
            assert(bare_void(bare));
            match void_type.decode_void(elem) {
                Ok(()) => take_in(types, void_type, false),
                Err(e) => Err(e),
            }
        },
        Err(e) => Err(e),
    }
}

/// What noting a warning about a data-type does, if there is one.
pub open spec fn warns_of(after: TypeFactory, before: TypeFactory, id: TypeId, warning: String, res: Result<TypeId>) -> bool {
    if warning@.len() == 0 {
        after == before && res == Ok::<TypeId, Error>(id)
    } else {
        exists|noted: Result<()>| #[trigger]
            after.warns(before, id, warning, noted) && res == (match noted {
                Ok(()) => Ok::<TypeId, Error>(id),
                Err(e) => Err(e),
            })
    }
}

pub fn warn_of(types: &mut TypeFactory, id: TypeId, warning: String) -> (res: Result<TypeId>)
    requires
        old(types).ready(),
        old(types).has(id),
    ensures
        final(types).ready(),
        warns_of(*final(types), *old(types), id, warning, res),
        res matches Ok(id) ==> final(types).has(id),
{
    if is_empty_text(warning.as_str()) {
        return Ok(id);
    }
    match types.insert_warning(id, warning) {
        Ok(()) => Ok(id),
        Err(e) => Err(e),
    }
}

/// What reading an enumeration does.
pub open spec fn reads_enum(after: TypeFactory, before: TypeFactory, elem: Element, core: bool, res: Result<TypeId>) -> bool {
    exists|bare: Datatype, done: Datatype, read: Result<String>| #[trigger]
        done.takes_values(bare, elem, read) && bare.is_new_enum(1, TypeMetatype::EnumInt, Seq::empty()) && match read {
            Err(e) => after == before && res == Err::<TypeId, Error>(e),
            Ok(warning) => takes_warned(after, before, done, core, warning, res),
        }
}

/// What taking in a data-type with a warning does.
pub open spec fn takes_warned(
    after: TypeFactory,
    before: TypeFactory,
    d: Datatype,
    core: bool,
    warning: String,
    res: Result<TypeId>,
) -> bool {
    exists|mid: TypeFactory, r: Result<TypeId>| #[trigger]
        takes_in(mid, before, d, core, r) && match r {
            Err(e) => after == mid && res == Err::<TypeId, Error>(e),
            Ok(id) => warns_of(after, mid, id, warning, res),
        }
}

pub fn decode_enum_type(types: &mut TypeFactory, elem: &Element, core: bool) -> (res: Result<TypeId>)
    requires
        old(types).ready(),
    ensures
        final(types).ready(),
        reads_enum(*final(types), *old(types), *elem, core, res),
        res matches Ok(id) ==> final(types).has(id),
{
    match Datatype::new_enum(1, TypeMetatype::EnumInt) {
        Ok(bare) => {
            let mut te = bare;
            let read = te.decode_enum(elem);
            assert(te.takes_values(bare, *elem, read));
            match read {
                Err(e) => Err(e),
                Ok(warning) => {
                    let made = take_in(types, te, core);
                    assert(takes_in(*types, *old(types), te, core, made));
                    match made {
                        Err(e) => Err(e),
                        Ok(id) => warn_of(types, id, warning),
                    }
                },
            }
        },
        Err(e) => Err(e),
    }
}

impl crate::database::Database {
    /// The first function, from one of the entries of a scope on, that starts at an address.
    pub open spec fn function_from(self, scope: ScopeId, addr: Address, i: nat) -> Option<crate::ids::SymbolId>
        decreases self.scope(scope).entries@.len() - i,
    {
        let entries = self.scope(scope).entries@;
        if i >= entries.len() {
            None
        } else {
            let entry = self.entry(entries[i as int]);
            if entry.addr.same(addr) && self.symbol(entry.symbol).is_function {
                Some(entry.symbol)
            } else {
                self.function_from(scope, addr, i + 1)
            }
        }
    }

    pub fn scope_query_function(&self, scope: ScopeId, addr: &Address) -> (res: Option<crate::ids::SymbolId>)
        requires
            self.valid(),
            scope.0 < self.scopes@.len(),
        ensures
            res == self.function_from(scope, *addr, 0),
            res matches Some(sym) ==> sym.0 < self.symbols@.len(),
    {
        let entries = &self.get_scope(scope).entries;
        let mut i: usize = 0;
        while i < entries.len()
            invariant
                self.valid(),
                scope.0 < self.scopes@.len(),
                entries@ == self.scope(scope).entries@,
                i <= entries@.len(),
                self.function_from(scope, *addr, i as nat) == self.function_from(scope, *addr, 0),
            decreases entries@.len() - i,
        {
            assert(self.scopes@[scope.0 as int].entries@[i as int].0 < self.entries@.len());
            let entry = self.get_entry(entries[i]);
            assert(self.entries@[entries@[i as int].0 as int].symbol.0 < self.symbols@.len());
            if entry.addr.same_as(addr) && self.get_symbol(entry.symbol).is_function {
                return Some(entry.symbol);
            }
            i = i + 1;
        }
        None
    }

    /// The first scope below another one, from one of them on, that belongs to the function
    /// at an address.
    pub open spec fn scope_of_function(self, scope: ScopeId, addr: Address, i: nat) -> Option<ScopeId>
        decreases self.scope(scope).children@.len() - i,
    {
        let children = self.scope(scope).children@;
        if i >= children.len() {
            None
        } else if self.scope(children[i as int]).function matches Some(start) && start.same(addr) {
            Some(children[i as int])
        } else {
            self.scope_of_function(scope, addr, i + 1)
        }
    }

    fn find_scope_of_function(&self, scope: ScopeId, addr: &Address) -> (res: Option<ScopeId>)
        requires
            self.valid(),
            scope.0 < self.scopes@.len(),
        ensures
            res == self.scope_of_function(scope, *addr, 0),
            res matches Some(found) ==> found.0 < self.scopes@.len(),
    {
        let children = &self.get_scope(scope).children;
        let mut i: usize = 0;
        while i < children.len()
            invariant
                self.valid(),
                scope.0 < self.scopes@.len(),
                children@ == self.scope(scope).children@,
                i <= children@.len(),
                self.scope_of_function(scope, *addr, i as nat) == self.scope_of_function(scope, *addr, 0),
            decreases children@.len() - i,
        {
            assert(self.scopes@[scope.0 as int].children@[i as int].0 < self.scopes@.len());
            let found = match &self.get_scope(children[i]).function {
                Some(start) => start.same_as(addr),
                None => false,
            };
            if found {
                return Some(children[i]);
            }
            i = i + 1;
        }
        None
    }

    /// The scope that belongs to an address: that of the function there, or the global one.
    pub open spec fn scope_at(self, frame: Option<Address>) -> ScopeId {
        let global = self.global_scope->0;
        match frame {
            None => global,
            Some(addr) => match self.function_from(global, addr, 0) {
                None => global,
                Some(sym) => match self.symbol(sym).local_scope {
                    Some(local) => local,
                    None => match self.scope_of_function(global, addr, 0) {
                        Some(local) => local,
                        None => global,
                    },
                },
            },
        }
    }
}

/// The place that an element holds, if it holds one.
pub open spec fn frame_told(elem: Element) -> Option<Address> {
    if elem.children@.len() == 0 {
        None
    } else {
        match elem.children@[0].place {
            Some((spc, offset, size)) => Some(Address { base: Some(spc), offset }),
            None => None,
        }
    }
}

impl Datatype {
    /// A space of symbols has been read.
    pub open spec fn takes_space(self, bare: Datatype, elem: Element, db: crate::database::Database, res: Result<()>) -> bool {
        exists|mid: Datatype| #[trigger]
            mid.takes_basics(bare, elem) && if bare.basic_fault(elem) is Some {
                self == mid && Fault::reported(bare.basic_fault(elem), res)
            } else {
                match space_attribute(elem, ATTRIB_SPACE) {
                    Err(fault) => self == mid && (res matches Err(e) && fault.is_report(e)),
                    Ok(spc) => res == Ok::<(), Error>(()) && self == (Datatype {
                        kind: TypeKind::Spacebase(
                            TypeSpacebaseData {
                                spaceid: Some(spc),
                                scope_id: db.scope(db.scope_at(frame_told(elem))).id,
                            },
                        ),
                        ..mid
                    }),
                }
            }
    }

    /// Reads a space of symbols.
    pub fn decode_spacebase(&mut self, elem: &Element, glb: &Architecture) -> (res: Result<()>)
        requires
            old(self).kind is Spacebase,
            glb.symboltab.valid(),
            glb.symboltab.global_scope is Some,
            forall|i: int| 0 <= i < glb.symboltab.symbols@.len() ==> ((#[trigger] glb.symboltab.symbols@[i]).local_scope
                matches Some(local) ==> local.0 < glb.symboltab.scopes@.len()),
        ensures
            final(self).takes_space(*old(self), *elem, glb.symboltab, res),
    {
        let ghost before = *self;
        let read = self.decode_basic(elem);
        let ghost mid = *self;
        assert(mid.takes_basics(before, *elem));
        match read {
            Ok(()) => {},
            Err(e) => {
                return Err(e);
            },
        }
        let spaceid = match elem.read_space_attr(ATTRIB_SPACE) {
            Ok(spc) => spc,
            Err(e) => {
                return Err(e);
            },
        };
        let db = &glb.symboltab;
        let global = db.global_scope.unwrap();
        let mut scope = global;
        if elem.children.len() > 0 {
            if let Some(place) = &elem.children[0].place {
                let localframe = Address::new(&place.0, place.1);
                if let Some(symbol) = db.scope_query_function(global, &localframe) {
                    assert(db.symbols@[symbol.0 as int].local_scope == db.symbol(symbol).local_scope);
                    match db.get_symbol(symbol).local_scope {
                        Some(local) => {
                            scope = local;
                        },
                        None => {
                            if let Some(local) = db.find_scope_of_function(global, &localframe) {
                                scope = local;
                            }
                        },
                    }
                }
            }
        }
        let scope_id: u64 = db.get_scope(scope).id;
        self.kind = TypeKind::Spacebase(TypeSpacebaseData { spaceid: Some(spaceid), scope_id });
        Ok(())
    }
}

} // verus!

//! Reading what data-types have of their own.
use vstd::prelude::*;
use crate::address::calc_mask;
use crate::error::{Error, Result};
use crate::marshal::{
    Attribute, Element, Value, ATTRIB_FORMAT, ATTRIB_ID, ATTRIB_LABEL, ATTRIB_METATYPE, ATTRIB_NAME, ATTRIB_SIZE,
    ATTRIB_SPACE, ATTRIB_VALUE, ATTRIB_WORDSIZE,
};
use crate::space::SpaceRef;
use crate::text::is_empty_text;
use crate::types::labels::{ATTRIB_ALIGNMENT, ATTRIB_CORE, ATTRIB_INCOMPLETE, ATTRIB_OPAQUESTRING, ATTRIB_VARLENGTH};
use crate::types::names::{NameMap, NamedValue};
use crate::types::print::string2metatype;
use crate::types::{base2sub, Datatype, SubMetatype, TypeMetatype};

verus! {

/// What is wrong with a document.
pub ghost enum Fault {
    Decoder(Seq<char>),
    Lowlevel(Seq<char>),
    /// An error that something else came back with.
    Passed(Error),
}

impl Fault {
    /// An error that reports the fault.
    pub open spec fn is_report(self, e: Error) -> bool {
        match self {
            Fault::Decoder(text) => e.is_decoder(text),
            Fault::Lowlevel(text) => e.is_lowlevel(text),
            Fault::Passed(passed) => e == passed,
        }
    }

    /// What a call returns, with or without a fault.
    pub open spec fn reported(fault: Option<Fault>, res: Result<()>) -> bool {
        match fault {
            None => res == Ok::<(), Error>(()),
            Some(fault) => res matches Err(e) && fault.is_report(e),
        }
    }
}

/// What the attributes of a data-type say.
pub ghost struct Basics {
    pub name: Seq<char>,
    pub label: Seq<char>,
    pub size: i32,
    pub meta: TypeMetatype,
    pub id: u64,
    pub flags: u32,
    pub alignment: i32,
    pub fault: Option<Fault>,
}

/// What is known once one more attribute is read.
pub open spec fn basics_with(known: Basics, attrib: Attribute) -> Basics {
    let value = attrib.value;
    let expecting_text = Basics { fault: Some(Fault::Decoder("Expecting string attribute"@)), ..known };
    let expecting_signed = Basics { fault: Some(Fault::Decoder("Expecting signed integer attribute"@)), ..known };
    let expecting_unsigned = Basics { fault: Some(Fault::Decoder("Expecting unsigned integer attribute"@)), ..known };
    if attrib.id == ATTRIB_NAME {
        match value.text() {
            Some(name) => Basics { name, ..known },
            None => expecting_text,
        }
    } else if attrib.id == ATTRIB_SIZE {
        match value.signed() {
            Some(n) => Basics { size: n as i32, ..known },
            None => expecting_signed,
        }
    } else if attrib.id == ATTRIB_METATYPE {
        match value.text() {
            Some(text) => match crate::types::print::named_meta(text) {
                Some(meta) => Basics { meta, ..known },
                None => Basics { fault: Some(Fault::Lowlevel("Unknown metatype: "@ + text)), ..known },
            },
            None => expecting_text,
        }
    } else if attrib.id == ATTRIB_CORE {
        flagged(known, value, Datatype::CORETYPE)
    } else if attrib.id == ATTRIB_ID {
        match value.unsigned() {
            Some(id) => Basics { id, ..known },
            None => expecting_unsigned,
        }
    } else if attrib.id == ATTRIB_VARLENGTH {
        flagged(known, value, Datatype::VARIABLE_LENGTH)
    } else if attrib.id == ATTRIB_ALIGNMENT {
        match value.signed() {
            Some(n) => Basics { alignment: n as i32, ..known },
            None => expecting_signed,
        }
    } else if attrib.id == ATTRIB_OPAQUESTRING {
        flagged(known, value, Datatype::OPAQUE_STRING)
    } else if attrib.id == ATTRIB_FORMAT {
        match value.text() {
            Some(text) => match crate::types::print::named_format(text) {
                Some(format) => Basics { flags: (known.flags & !Datatype::FORCE_FORMAT) | (format << 12), ..known },
                None => Basics { fault: Some(Fault::Lowlevel("Unrecognized integer format: "@ + text)), ..known },
            },
            None => expecting_text,
        }
    } else if attrib.id == ATTRIB_LABEL {
        match value.text() {
            Some(label) => Basics { label, ..known },
            None => expecting_text,
        }
    } else if attrib.id == ATTRIB_INCOMPLETE {
        flagged(known, value, Datatype::TYPE_INCOMPLETE)
    } else {
        known
    }
}

/// What is known once an attribute that switches a property on is read.
pub open spec fn flagged(known: Basics, value: Value, flag: u32) -> Basics {
    match value.boolean() {
        Some(b) => Basics {
            flags: if b {
                known.flags | flag
            } else {
                known.flags
            },
            ..known
        },
        None => Basics { fault: Some(Fault::Decoder("Expecting boolean attribute"@)), ..known },
    }
}

/// What is known once the attributes from one of them on are read.
pub open spec fn basics_from(list: Seq<Attribute>, i: nat, known: Basics) -> Basics
    decreases list.len() - i,
{
    if i >= list.len() || known.fault is Some {
        known
    } else {
        basics_from(list, i + 1, basics_with(known, list[i as int]))
    }
}

impl Datatype {
    /// What stands in the data-type of what attributes can say.
    pub open spec fn basics(self, fault: Option<Fault>) -> Basics {
        Basics {
            name: self.name@,
            label: self.display_name@,
            size: self.size,
            meta: self.metatype,
            id: self.id,
            flags: self.flags,
            alignment: self.alignment,
            fault,
        }
    }

    /// Nothing but what attributes can say is different.
    pub open spec fn differs_in_basics(self, before: Datatype) -> bool {
        &&& self.typedef_imm == before.typedef_imm
        &&& self.kind == before.kind
    }

    /// What the attributes of an element say of a data-type.
    pub open spec fn told(self, elem: Element) -> Basics {
        basics_from(
            elem.attributes@,
            0,
            Basics { size: -1i32, meta: TypeMetatype::Void, id: 0, ..self.basics(None) },
        )
    }

    fn read_attribute(&mut self, attrib: &Attribute) -> (res: Result<()>)
        ensures
            ({
                let next = basics_with(old(self).basics(None), *attrib);
                &&& final(self).basics(next.fault) == next
                &&& Fault::reported(next.fault, res)
                &&& final(self).differs_in_basics(*old(self))
                &&& final(self).submeta == old(self).submeta
                &&& final(self).align_size == old(self).align_size
            }),
    {
        let id: u32 = attrib.id;
        if id == ATTRIB_NAME {
            self.name = attrib.value.read_string()?;
        } else if id == ATTRIB_SIZE {
            self.size = attrib.value.read_signed_integer()? as i32;
        } else if id == ATTRIB_METATYPE {
            let text = attrib.value.read_string()?;
            self.metatype = string2metatype(text.as_str())?;
        } else if id == ATTRIB_CORE {
            if attrib.value.read_bool()? {
                self.flags = self.flags | Datatype::CORETYPE;
            }
        } else if id == ATTRIB_ID {
            self.id = attrib.value.read_unsigned_integer()?;
        } else if id == ATTRIB_VARLENGTH {
            if attrib.value.read_bool()? {
                self.flags = self.flags | Datatype::VARIABLE_LENGTH;
            }
        } else if id == ATTRIB_ALIGNMENT {
            self.alignment = attrib.value.read_signed_integer()? as i32;
        } else if id == ATTRIB_OPAQUESTRING {
            if attrib.value.read_bool()? {
                self.flags = self.flags | Datatype::OPAQUE_STRING;
            }
        } else if id == ATTRIB_FORMAT {
            let text = attrib.value.read_string()?;
            let val: u32 = Datatype::encode_integer_format(text.as_str())?;
            self.set_display_format(val);
        } else if id == ATTRIB_LABEL {
            self.display_name = attrib.value.read_string()?;
        } else if id == ATTRIB_INCOMPLETE {
            if attrib.value.read_bool()? {
                self.flags = self.flags | Datatype::TYPE_INCOMPLETE;
            }
        }
        Ok(())
    }

    /// What is wrong with the attributes of a data-type.
    pub open spec fn basic_fault(self, elem: Element) -> Option<Fault> {
        let told = self.told(elem);
        if told.fault is Some {
            told.fault
        } else if told.size < 0 {
            Some(Fault::Lowlevel("Bad size for type "@ + told.name))
        } else {
            None
        }
    }

    /// The data-type has what the attributes of an element say, and what follows from it.
    pub open spec fn takes_basics(self, before: Datatype, elem: Element) -> bool {
        let told = before.told(elem);
        let named = if told.id == 0 && told.name.len() > 0 {
            crate::types::read::name_hash(told.name)
        } else {
            told.id
        };
        &&& self.differs_in_basics(before)
        &&& if before.basic_fault(elem) is Some {
            self.basics(told.fault) == told
        } else {
            &&& self.name@ == told.name
            &&& self.size == told.size
            &&& self.metatype == told.meta
            &&& self.flags == told.flags
            &&& self.alignment == told.alignment
            &&& self.align_size == told.size
            &&& self.submeta == crate::types::base_submeta(told.meta)
            &&& self.display_name@ == if told.label.len() == 0 {
                told.name
            } else {
                told.label
            }
            &&& self.id == if told.flags & Datatype::VARIABLE_LENGTH != 0 {
                crate::types::read::size_hash(named, told.size)
            } else {
                named
            }
        }
    }

    /// Reads the attributes that all data-types have.
    pub fn decode_basic(&mut self, elem: &Element) -> (res: Result<()>)
        ensures
            final(self).takes_basics(*old(self), *elem),
            Fault::reported(old(self).basic_fault(*elem), res),
    {
        self.size = -1;
        self.metatype = TypeMetatype::Void;
        self.id = 0;
        let ghost start = self.basics(None);
        let mut i: usize = 0;
        while i < elem.attributes.len()
            invariant
                i <= elem.attributes@.len(),
                start == (Basics { size: -1i32, meta: TypeMetatype::Void, id: 0, ..old(self).basics(None) }),
                basics_from(elem.attributes@, i as nat, self.basics(None)) == basics_from(elem.attributes@, 0, start),
                self.differs_in_basics(*old(self)),
            decreases elem.attributes@.len() - i,
        {
            let ghost next = basics_with(self.basics(None), elem.attributes@[i as int]);
            assert(next.fault is Some ==> basics_from(elem.attributes@, (i + 1) as nat, next) == next);
            match self.read_attribute(&elem.attributes[i]) {
                Ok(()) => {},
                Err(e) => {
                    return Err(e);
                },
            }
            i = i + 1;
        }
        if self.size < 0 {
            let mut text = "Bad size for type ".to_owned();
            text.push_str(self.name.as_str());
            return Err(Error::Lowlevel(text));
        }
        self.align_size = self.size;
        self.submeta = base2sub(self.metatype);
        if self.id == 0 && !is_empty_text(self.name.as_str()) {
            self.id = Datatype::hash_name(self.name.as_str());
        }
        if self.is_variable_length() {
            self.id = Datatype::hash_size(self.id, self.size);
        }
        if is_empty_text(self.display_name.as_str()) {
            self.display_name = self.name.clone();
        }
        Ok(())
    }
}

impl Datatype {
    /// The fine class of a character.
    pub open spec fn char_submeta(meta: TypeMetatype) -> SubMetatype {
        if meta == TypeMetatype::Int {
            SubMetatype::IntChar
        } else {
            SubMetatype::UintChar
        }
    }

    /// A character data-type has been read.
    pub open spec fn takes_char(self, before: Datatype, elem: Element) -> bool {
        exists|mid: Datatype| #[trigger]
            mid.takes_basics(before, elem) && self == if before.basic_fault(elem) is Some {
                mid
            } else {
                Datatype { submeta: Datatype::char_submeta(mid.metatype), ..mid }
            }
    }

    /// Reads a character data-type.
    pub fn decode_char(&mut self, elem: &Element) -> (res: Result<()>)
        ensures
            Fault::reported(old(self).basic_fault(*elem), res),
            final(self).takes_char(*old(self), *elem),
    {
        let ghost before = *self;
        let res = self.decode_basic(elem);
        assert(self.takes_basics(before, *elem));
        match res {
            Ok(()) => {},
            Err(e) => {
                return Err(e);
            },
        }
        self.submeta = if self.metatype == TypeMetatype::Int {
            SubMetatype::IntChar
        } else {
            SubMetatype::UintChar
        };
        Ok(())
    }

    /// The fine class of a wide character.
    pub open spec fn wide_submeta(meta: TypeMetatype) -> SubMetatype {
        if meta == TypeMetatype::Int {
            SubMetatype::IntUnicode
        } else {
            SubMetatype::UintUnicode
        }
    }

    /// A wide character data-type has been read.
    pub open spec fn takes_wide(self, before: Datatype, elem: Element) -> bool {
        exists|mid: Datatype| #[trigger]
            mid.takes_basics(before, elem) && self == if before.basic_fault(elem) is Some {
                mid
            } else {
                Datatype {
                    submeta: Datatype::wide_submeta(mid.metatype),
                    flags: (if Datatype::unicode_flags(mid.size) != 0 {
                        mid.flags | Datatype::unicode_flags(mid.size)
                    } else {
                        mid.flags
                    }),
                    ..mid
                }
            }
    }

    /// Reads a wide character data-type.
    pub fn decode_unicode(&mut self, elem: &Element) -> (res: Result<()>)
        ensures
            Fault::reported(old(self).basic_fault(*elem), res),
            final(self).takes_wide(*old(self), *elem),
    {
        let ghost before = *self;
        let res = self.decode_basic(elem);
        assert(self.takes_basics(before, *elem));
        match res {
            Ok(()) => {},
            Err(e) => {
                return Err(e);
            },
        }
        self.set_unicode_flags();
        self.submeta = if self.metatype == TypeMetatype::Int {
            SubMetatype::IntUnicode
        } else {
            SubMetatype::UintUnicode
        };
        Ok(())
    }
}

/// The last number that attributes with an identifier give, from one of them on, and
/// what is wrong with them.
pub open spec fn last_unsigned(list: Seq<Attribute>, id: u32, i: nat, known: u64) -> (u64, Option<Fault>)
    decreases list.len() - i,
{
    if i >= list.len() {
        (known, None)
    } else if list[i as int].id == id {
        match list[i as int].value.unsigned() {
            Some(n) => last_unsigned(list, id, i + 1, n),
            None => (known, Some(Fault::Decoder("Expecting unsigned integer attribute"@))),
        }
    } else {
        last_unsigned(list, id, i + 1, known)
    }
}

/// The last number with a sign that attributes with an identifier give, from one of them
/// on, and what is wrong with them.
pub open spec fn last_signed(list: Seq<Attribute>, id: u32, i: nat, known: i32) -> (i32, Option<Fault>)
    decreases list.len() - i,
{
    if i >= list.len() {
        (known, None)
    } else if list[i as int].id == id {
        match list[i as int].value.signed() {
            Some(n) => last_signed(list, id, i + 1, n as i32),
            None => (known, Some(Fault::Decoder("Expecting signed integer attribute"@))),
        }
    } else {
        last_signed(list, id, i + 1, known)
    }
}

/// Reads the last number that attributes with an identifier give.
pub fn read_last_signed(elem: &Element, id: u32, known: i32) -> (res: Result<i32>)
    ensures
        ({
            let (n, fault) = last_signed(elem.attributes@, id, 0, known);
            match fault {
                None => res == Ok::<i32, Error>(n),
                Some(fault) => res matches Err(e) && fault.is_report(e),
            }
        }),
{
    let mut val: i32 = known;
    let mut i: usize = 0;
    while i < elem.attributes.len()
        invariant
            i <= elem.attributes@.len(),
            last_signed(elem.attributes@, id, i as nat, val) == last_signed(elem.attributes@, id, 0, known),
        decreases elem.attributes@.len() - i,
    {
        if elem.attributes[i].id == id {
            match elem.attributes[i].value.read_signed_integer() {
                Ok(n) => {
                    val = n as i32;
                },
                Err(e) => {
                    return Err(e);
                },
            }
        }
        i = i + 1;
    }
    Ok(val)
}

impl Datatype {
    /// Reads the data-type of nothing: it has at most a number of its own.
    pub fn decode_void(&mut self, elem: &Element) -> (res: Result<()>)
        ensures
            ({
                let (id, fault) = last_unsigned(elem.attributes@, ATTRIB_ID, 0, old(self).id);
                *final(self) == (Datatype { id, ..*old(self) }) && Fault::reported(fault, res)
            }),
    {
        let mut i: usize = 0;
        while i < elem.attributes.len()
            invariant
                i <= elem.attributes@.len(),
                last_unsigned(elem.attributes@, ATTRIB_ID, i as nat, self.id) == last_unsigned(
                    elem.attributes@,
                    ATTRIB_ID,
                    0,
                    old(self).id,
                ),
                *self == (Datatype { id: self.id, ..*old(self) }),
            decreases elem.attributes@.len() - i,
        {
            if elem.attributes[i].id == ATTRIB_ID {
                match elem.attributes[i].value.read_unsigned_integer() {
                    Ok(n) => {
                        self.id = n;
                    },
                    Err(e) => {
                        return Err(e);
                    },
                }
            }
            i = i + 1;
        }
        Ok(())
    }

    /// Reads code that may have a prototype. One that has a prototype has a variable length.
    pub fn decode_stub(&mut self, elem: &Element) -> (res: Result<()>)
        ensures
            ({
                let start = Datatype {
                    flags: if elem.children@.len() > 0 {
                        old(self).flags | Datatype::VARIABLE_LENGTH
                    } else {
                        old(self).flags
                    },
                    ..*old(self)
                };
                &&& final(self).takes_basics(start, *elem)
                &&& Fault::reported(start.basic_fault(*elem), res)
            }),
    {
        if elem.children.len() > 0 {
            self.flags = self.flags | Datatype::VARIABLE_LENGTH;
        }
        self.decode_basic(elem)
    }
}

/// What attributes say of a pointer: the size of a unit, its space and what is wrong.
pub ghost struct PointerFacts {
    pub wordsize: u32,
    pub spaceid: Option<SpaceRef>,
    pub fault: Option<Fault>,
}

/// What attributes say of a pointer, from one of them on.
pub open spec fn pointer_facts(list: Seq<Attribute>, i: nat, known: PointerFacts) -> PointerFacts
    decreases list.len() - i,
{
    if i >= list.len() || known.fault is Some {
        known
    } else {
        let value = list[i as int].value;
        let next = if list[i as int].id == ATTRIB_WORDSIZE {
            match value.unsigned() {
                Some(n) => PointerFacts { wordsize: n as u32, ..known },
                None => PointerFacts { fault: Some(Fault::Decoder("Expecting unsigned integer attribute"@)), ..known },
            }
        } else if list[i as int].id == ATTRIB_SPACE {
            match value.space() {
                Some(spc) => PointerFacts { spaceid: Some(spc), ..known },
                None => PointerFacts { fault: Some(Fault::Decoder("Expecting space attribute"@)), ..known },
            }
        } else {
            known
        };
        pointer_facts(list, i + 1, next)
    }
}

/// What was read of a pointer.
#[derive(Debug)]
pub struct PointerAttributes {
    pub wordsize: u32,
    pub spaceid: Option<SpaceRef>,
}

/// Reads what attributes say of a pointer.
pub fn decode_pointer_attributes(elem: &Element, wordsize: u32) -> (res: Result<PointerAttributes>)
    ensures
        ({
            let facts = pointer_facts(elem.attributes@, 0, PointerFacts { wordsize, spaceid: None, fault: None });
            match facts.fault {
                None => res matches Ok(read) && read.wordsize == facts.wordsize && read.spaceid == facts.spaceid,
                Some(fault) => res matches Err(e) && fault.is_report(e),
            }
        }),
{
    let mut read = PointerAttributes { wordsize, spaceid: None };
    let ghost start = PointerFacts { wordsize, spaceid: None, fault: None };
    let mut i: usize = 0;
    while i < elem.attributes.len()
        invariant
            i <= elem.attributes@.len(),
            start == (PointerFacts { wordsize, spaceid: None, fault: None }),
            pointer_facts(
                elem.attributes@,
                i as nat,
                PointerFacts { wordsize: read.wordsize, spaceid: read.spaceid, fault: None },
            ) == pointer_facts(elem.attributes@, 0, start),
        decreases elem.attributes@.len() - i,
    {
        let attrib = &elem.attributes[i];
        let ghost known = PointerFacts { wordsize: read.wordsize, spaceid: read.spaceid, fault: None };
        proof {
            let bad = |text: Seq<char>| PointerFacts { fault: Some(Fault::Decoder(text)), ..known };
            assert(pointer_facts(elem.attributes@, (i + 1) as nat, bad("Expecting unsigned integer attribute"@)) == bad(
                "Expecting unsigned integer attribute"@,
            ));
            assert(pointer_facts(elem.attributes@, (i + 1) as nat, bad("Expecting space attribute"@)) == bad(
                "Expecting space attribute"@,
            ));
        }
        if attrib.id == ATTRIB_WORDSIZE {
            match attrib.value.read_unsigned_integer() {
                Ok(n) => {
                    read.wordsize = n as u32;
                },
                Err(e) => {
                    return Err(e);
                },
            }
        } else if attrib.id == ATTRIB_SPACE {
            match attrib.value.read_space() {
                Ok(spc) => {
                    read.spaceid = Some(spc);
                },
                Err(e) => {
                    return Err(e);
                },
            }
        }
        i = i + 1;
    }
    Ok(read)
}

impl NameMap {
    /// The names by value.
    pub open spec fn by_value(self) -> Map<u64, Seq<char>> {
        Map::new(|v: u64| self.named(v), |v: u64| self.name_of(v)@)
    }

    /// To name a value adds just that.
    proof fn naming_adds(self, before: NameMap, value: u64, name: Seq<char>)
        requires
            before.sorted(),
            self.inserted(before, value, name),
            !before.named(value),
        ensures
            self.by_value() == before.by_value().insert(value, name),
    {
        let n = choose|n: int|
            0 <= n <= before.entries@.len() && self.entries@.len() > n && (#[trigger] self.entries@[n]).value == value
                && self.entries@[n].name@ == name && self.entries@.remove(n) == before.entries@;
        assert forall|v: u64| #[trigger] self.named(v) implies self.name_of(v)@ == before.by_value().insert(
            value,
            name,
        )[v] by {
            let k = choose|i: int| 0 <= i < self.entries@.len() && (#[trigger] self.entries@[i]).value == v;
            if v == value {
                self.position_is_unique(k, n);
            } else {
                let p = choose|i: int| 0 <= i < before.entries@.len() && (#[trigger] before.entries@[i]).value == v;
                let q = if p < n {
                    p
                } else {
                    p + 1
                };
                assert(self.entries@.remove(n)[p] == self.entries@[q]);
                self.position_is_unique(k, q);
            }
        }
        assert(self.by_value() =~= before.by_value().insert(value, name));
    }
}

/// What was read of the values of an enumeration.
pub ghost struct EnumFacts {
    pub names: Map<u64, Seq<char>>,
    pub repeated: bool,
    pub fault: Option<Fault>,
}

/// A value of an enumeration with its name.
pub ghost struct ValueFacts {
    pub value: u64,
    pub name: Seq<char>,
    pub fault: Option<Fault>,
}

/// What attributes say of a value, from one of them on.
pub open spec fn value_facts(list: Seq<Attribute>, i: nat, mask: u64, known: ValueFacts) -> ValueFacts
    decreases list.len() - i,
{
    if i >= list.len() || known.fault is Some {
        known
    } else {
        let value = list[i as int].value;
        let next = if list[i as int].id == ATTRIB_VALUE {
            match value.signed() {
                Some(n) => ValueFacts { value: (n as u64) & mask, ..known },
                None => ValueFacts { fault: Some(Fault::Decoder("Expecting signed integer attribute"@)), ..known },
            }
        } else if list[i as int].id == ATTRIB_NAME {
            match value.text() {
                Some(name) => ValueFacts { name, ..known },
                None => ValueFacts { fault: Some(Fault::Decoder("Expecting string attribute"@)), ..known },
            }
        } else {
            known
        };
        value_facts(list, i + 1, mask, next)
    }
}

/// What an element says of a value.
pub open spec fn value_told(elem: Element, mask: u64) -> ValueFacts {
    value_facts(elem.attributes@, 0, mask, ValueFacts { value: 0, name: Seq::empty(), fault: None })
}

/// What elements say of values, from one of them on. The first name of a value counts.
pub open spec fn enum_facts(list: Seq<Element>, i: nat, mask: u64, enum_name: Seq<char>, known: EnumFacts) -> EnumFacts
    decreases list.len() - i,
{
    if i >= list.len() || known.fault is Some {
        known
    } else {
        let told = value_told(list[i as int], mask);
        let next = if told.fault is Some {
            EnumFacts { fault: told.fault, ..known }
        } else if told.name.len() == 0 {
            EnumFacts { fault: Some(Fault::Lowlevel(enum_name + ": TypeEnum field missing name attribute"@)), ..known }
        } else if known.names.contains_key(told.value) {
            EnumFacts { repeated: true, ..known }
        } else {
            EnumFacts { names: known.names.insert(told.value, told.name), ..known }
        };
        enum_facts(list, i + 1, mask, enum_name, next)
    }
}

fn read_value(elem: &Element, mask: u64) -> (res: Result<NamedValue>)
    ensures
        match value_told(*elem, mask).fault {
            None => res matches Ok(read) && read.value == value_told(*elem, mask).value && read.name@ == value_told(
                *elem,
                mask,
            ).name,
            Some(fault) => res matches Err(e) && fault.is_report(e),
        },
{
    let mut read = NamedValue { value: 0, name: String::new() };
    let ghost start = ValueFacts { value: 0, name: Seq::empty(), fault: None };
    assert(read.name@ =~= Seq::empty());
    let mut i: usize = 0;
    while i < elem.attributes.len()
        invariant
            i <= elem.attributes@.len(),
            start == (ValueFacts { value: 0, name: Seq::empty(), fault: None }),
            value_facts(
                elem.attributes@,
                i as nat,
                mask,
                ValueFacts { value: read.value, name: read.name@, fault: None },
            ) == value_facts(elem.attributes@, 0, mask, start),
        decreases elem.attributes@.len() - i,
    {
        let attrib = &elem.attributes[i];
        let ghost known = ValueFacts { value: read.value, name: read.name@, fault: None };
        proof {
            let bad = |text: Seq<char>| ValueFacts { fault: Some(Fault::Decoder(text)), ..known };
            assert(value_facts(elem.attributes@, (i + 1) as nat, mask, bad("Expecting signed integer attribute"@)) == bad(
                "Expecting signed integer attribute"@,
            ));
            assert(value_facts(elem.attributes@, (i + 1) as nat, mask, bad("Expecting string attribute"@)) == bad(
                "Expecting string attribute"@,
            ));
        }
        if attrib.id == ATTRIB_VALUE {
            match attrib.value.read_signed_integer() {
                Ok(n) => {
                    read.value = (n as u64) & mask;
                },
                Err(e) => {
                    return Err(e);
                },
            }
        } else if attrib.id == ATTRIB_NAME {
            match attrib.value.read_string() {
                Ok(name) => {
                    read.name = name;
                },
                Err(e) => {
                    return Err(e);
                },
            }
        }
        i = i + 1;
    }
    Ok(read)
}

impl Datatype {
    /// What is said of the values of an enumeration whose attributes have been read.
    pub open spec fn values_told(self, elem: Element) -> EnumFacts {
        enum_facts(
            elem.children@,
            0,
            crate::address::mask_of(self.size as int),
            self.name@,
            EnumFacts { names: Map::empty(), repeated: false, fault: None },
        )
    }

    /// An enumeration has been read.
    pub open spec fn takes_enum(self, mid: Datatype, elem: Element) -> bool {
        let facts = mid.values_told(elem);
        let meta = if mid.metatype == TypeMetatype::EnumInt {
            TypeMetatype::Int
        } else {
            TypeMetatype::Uint
        };
        &&& self == (Datatype { metatype: meta, kind: self.kind, ..mid })
        &&& facts.fault is Some ==> self.kind == mid.kind
        &&& facts.fault is None ==> self.kind is Enum && self.names().sorted() && self.names().by_value() == facts.names
    }

    /// An enumeration has been read, or it could not be.
    pub open spec fn takes_values(self, before: Datatype, elem: Element, res: Result<String>) -> bool {
        exists|mid: Datatype| #[trigger]
            mid.takes_basics(before, elem) && if before.basic_fault(elem) is Some {
                self == mid && (res matches Err(e) && (before.basic_fault(elem)->0).is_report(e))
            } else {
                &&& self.takes_enum(mid, elem)
                &&& match mid.values_told(elem).fault {
                    Some(fault) => res matches Err(e) && fault.is_report(e),
                    None => res matches Ok(warning) && warning@ == if mid.values_told(elem).repeated {
                        "Enum \""@ + mid.name@ + "\": Some values do not have unique names"@
                    } else {
                        Seq::empty()
                    },
                }
            }
    }

    /// Reads an enumeration. What comes back is a warning, where values have more than
    /// one name.
    pub fn decode_enum(&mut self, elem: &Element) -> (res: Result<String>)
        requires
            old(self).kind is Enum,
        ensures
            final(self).takes_values(*old(self), *elem, res),
    {
        let ghost before = *self;
        let basic = self.decode_basic(elem);
        let ghost mid = *self;
        assert(mid.takes_basics(before, *elem));
        match basic {
            Ok(()) => {},
            Err(e) => {
                return Err(e);
            },
        }
        self.metatype = if self.metatype == TypeMetatype::EnumInt {
            TypeMetatype::Int
        } else {
            TypeMetatype::Uint
        };
        let mask: u64 = calc_mask(self.size);
        let mut nmap = NameMap::new();
        let mut repeated = false;
        let ghost start = EnumFacts { names: Map::empty(), repeated: false, fault: None };
        assert(nmap.by_value() =~= Map::empty());
        let mut i: usize = 0;
        while i < elem.children.len()
            invariant
                i <= elem.children@.len(),
                before == *old(self),
                mid.takes_basics(before, *elem),
                before.basic_fault(*elem) is None,
                mask == crate::address::mask_of(mid.size as int),
                self.name@ == mid.name@,
                self.kind == mid.kind,
                self.takes_enum_head(mid),
                nmap.sorted(),
                start == (EnumFacts { names: Map::empty(), repeated: false, fault: None }),
                enum_facts(
                    elem.children@,
                    i as nat,
                    mask,
                    mid.name@,
                    EnumFacts { names: nmap.by_value(), repeated, fault: None },
                ) == enum_facts(elem.children@, 0, mask, mid.name@, start),
            decreases elem.children@.len() - i,
        {
            let ghost known = EnumFacts { names: nmap.by_value(), repeated, fault: None };
            let ghost told = value_told(elem.children@[i as int], mask);
            proof {
                let unread = EnumFacts { fault: told.fault, ..known };
                let unnamed = EnumFacts {
                    fault: Some(Fault::Lowlevel(mid.name@ + ": TypeEnum field missing name attribute"@)),
                    ..known
                };
                assert(told.fault is Some ==> enum_facts(elem.children@, (i + 1) as nat, mask, mid.name@, unread) == unread);
                assert(enum_facts(elem.children@, (i + 1) as nat, mask, mid.name@, unnamed) == unnamed);
            }
            match read_value(&elem.children[i], mask) {
                Ok(read) => {
                    if is_empty_text(read.name.as_str()) {
                        let mut text = self.name.clone();
                        text.push_str(": TypeEnum field missing name attribute");
                        return Err(Error::Lowlevel(text));
                    }
                    if nmap.contains(read.value) {
                        repeated = true;
                    } else {
                        let ghost earlier = nmap;
                        let ghost name = read.name@;
                        nmap.insert(read.value, read.name);
                        proof {
                            nmap.naming_adds(earlier, read.value, name);
                        }
                    }
                },
                Err(e) => {
                    return Err(e);
                },
            }
            i = i + 1;
        }
        let mut warning = String::new();
        assert(warning@ =~= Seq::empty());
        if repeated {
            warning.push_str("Enum \"");
            warning.push_str(self.name.as_str());
            warning.push_str("\": Some values do not have unique names");
            assert(warning@ =~= "Enum \""@ + mid.name@ + "\": Some values do not have unique names"@);
        }
        self.set_name_map(&nmap);
        proof {
            self.names().same_names(nmap);
        }
        Ok(warning)
    }

    spec fn takes_enum_head(self, mid: Datatype) -> bool {
        let meta = if mid.metatype == TypeMetatype::EnumInt {
            TypeMetatype::Int
        } else {
            TypeMetatype::Uint
        };
        self == (Datatype { metatype: meta, ..mid })
    }
}

impl NameMap {
    proof fn same_names(self, other: NameMap)
        requires
            self.entries@ == other.entries@,
            other.sorted(),
        ensures
            self.sorted(),
            self.by_value() == other.by_value(),
    {
        assert forall|v: u64| self.named(v) == #[trigger] other.named(v) by {
            if self.named(v) {
                let i = choose|i: int| 0 <= i < self.entries@.len() && (#[trigger] self.entries@[i]).value == v;
                assert(other.entries@[i].value == v);
            }
            if other.named(v) {
                let i = choose|i: int| 0 <= i < other.entries@.len() && (#[trigger] other.entries@[i]).value == v;
                assert(self.entries@[i].value == v);
            }
        }
        assert forall|v: u64| #[trigger] other.named(v) implies self.name_of(v)@ == other.name_of(v)@ by {
            let i = choose|i: int| 0 <= i < self.entries@.len() && (#[trigger] self.entries@[i]).value == v;
            let j = choose|i: int| 0 <= i < other.entries@.len() && (#[trigger] other.entries@[i]).value == v;
            assert(self.named(v));
            assert(other.entries@[i].value == v);
            other.position_is_unique(i, j);
        }
        assert(self.by_value() =~= other.by_value());
    }
}

} // verus!

//! Documents: elements with attributes, read from and written to a stream.
use vstd::prelude::*;
use crate::address::Address;
use crate::error::{Error, Result};
use crate::fspec::{FuncProto, ProtoParameter};
use crate::space::SpaceRef;

verus! {

/// The text of an element.
pub const ATTRIB_CONTENT: u32 = 1;

pub const ATTRIB_FORMAT: u32 = 7;

pub const ATTRIB_ID: u32 = 9;

pub const ATTRIB_METATYPE: u32 = 12;

pub const ATTRIB_NAME: u32 = 14;

pub const ATTRIB_OFFSET: u32 = 16;

pub const ATTRIB_REF: u32 = 18;

pub const ATTRIB_SIZE: u32 = 19;

pub const ATTRIB_SPACE: u32 = 20;

pub const ATTRIB_TYPELOCK: u32 = 23;

pub const ATTRIB_VALUE: u32 = 25;

pub const ATTRIB_WORDSIZE: u32 = 26;

pub const ATTRIB_FIRST: u32 = 27;

pub const ATTRIB_LABEL: u32 = 131;

pub const ELEM_OFF: u32 = 3;

pub const ELEM_VAL: u32 = 8;

pub const ELEM_VOID: u32 = 10;

pub const ELEM_ADDR: u32 = 11;

/// The value of an attribute.
#[derive(Debug)]
pub enum Value {
    Bool(bool),
    Signed(i64),
    Unsigned(u64),
    Text(String),
    Space(SpaceRef),
}

#[derive(Debug)]
pub struct Attribute {
    pub id: u32,
    pub value: Value,
}

/// An element that has been read.
#[derive(Debug)]
pub struct Element {
    pub id: u32,
    pub attributes: Vec<Attribute>,
    pub children: Vec<Element>,
    /// Where the contents are an address: its space, its offset and the number of bytes.
    pub place: Option<(SpaceRef, u64, i32)>,
    /// Where the contents are a prototype: its number in a list of prototypes.
    pub prototype: Option<u32>,
}

impl Value {
    pub open spec fn text(self) -> Option<Seq<char>> {
        match self {
            Value::Text(s) => Some(s@),
            _ => None,
        }
    }

    /// The value as a number with a sign.
    pub open spec fn signed(self) -> Option<i64> {
        match self {
            Value::Signed(n) => Some(n),
            _ => None,
        }
    }

    /// The value as a number without a sign.
    pub open spec fn unsigned(self) -> Option<u64> {
        match self {
            Value::Unsigned(n) => Some(n),
            _ => None,
        }
    }

    pub open spec fn boolean(self) -> Option<bool> {
        match self {
            Value::Bool(b) => Some(b),
            _ => None,
        }
    }

    pub open spec fn space(self) -> Option<SpaceRef> {
        match self {
            Value::Space(spc) => Some(spc),
            _ => None,
        }
    }

    pub fn read_string(&self) -> (res: Result<String>)
        ensures
            match self.text() {
                Some(text) => res matches Ok(s) && s@ == text,
                None => res matches Err(e) && e.is_decoder("Expecting string attribute"@),
            },
    {
        match self {
            Value::Text(s) => Ok(s.clone()),
            _ => Err(Error::decoder("Expecting string attribute")),
        }
    }

    pub fn read_signed_integer(&self) -> (res: Result<i64>)
        ensures
            match self.signed() {
                Some(n) => res == Ok::<i64, Error>(n),
                None => res matches Err(e) && e.is_decoder("Expecting signed integer attribute"@),
            },
    {
        match self {
            Value::Signed(n) => Ok(*n),
            _ => Err(Error::decoder("Expecting signed integer attribute")),
        }
    }

    pub fn read_unsigned_integer(&self) -> (res: Result<u64>)
        ensures
            match self.unsigned() {
                Some(n) => res == Ok::<u64, Error>(n),
                None => res matches Err(e) && e.is_decoder("Expecting unsigned integer attribute"@),
            },
    {
        match self {
            Value::Unsigned(n) => Ok(*n),
            _ => Err(Error::decoder("Expecting unsigned integer attribute")),
        }
    }

    pub fn read_bool(&self) -> (res: Result<bool>)
        ensures
            match self.boolean() {
                Some(b) => res == Ok::<bool, Error>(b),
                None => res matches Err(e) && e.is_decoder("Expecting boolean attribute"@),
            },
    {
        match self {
            Value::Bool(b) => Ok(*b),
            _ => Err(Error::decoder("Expecting boolean attribute")),
        }
    }

    pub fn read_space(&self) -> (res: Result<SpaceRef>)
        ensures
            match self.space() {
                Some(spc) => res == Ok::<SpaceRef, Error>(spc),
                None => res matches Err(e) && e.is_decoder("Expecting space attribute"@),
            },
    {
        match self {
            Value::Space(spc) => Ok(spc.clone()),
            _ => Err(Error::decoder("Expecting space attribute")),
        }
    }
}

/// The first attribute with an identifier, from a place on.
pub open spec fn attribute_from(list: Seq<Attribute>, id: u32, i: nat) -> Option<Value>
    decreases list.len() - i,
{
    if i >= list.len() {
        None
    } else if list[i as int].id == id {
        Some(list[i as int].value)
    } else {
        attribute_from(list, id, i + 1)
    }
}

impl Element {
    /// The first attribute with an identifier.
    pub open spec fn attribute(self, id: u32) -> Option<Value> {
        attribute_from(self.attributes@, id, 0)
    }

    pub fn find_attribute(&self, id: u32) -> (res: Option<&Value>)
        ensures
            match res {
                Some(value) => self.attribute(id) == Some(*value),
                None => self.attribute(id) is None,
            },
    {
        let mut i: usize = 0;
        while i < self.attributes.len()
            invariant
                i <= self.attributes@.len(),
                attribute_from(self.attributes@, id, i as nat) == self.attribute(id),
            decreases self.attributes@.len() - i,
        {
            if self.attributes[i].id == id {
                return Some(&self.attributes[i].value);
            }
            i = i + 1;
        }
        None
    }

    /// An error where an attribute is missing.
    pub open spec fn lacks(e: Error) -> bool {
        e.is_decoder("Attribute is missing"@)
    }

    pub fn read_string_attr(&self, id: u32) -> (res: Result<String>)
        ensures
            match self.attribute(id) {
                Some(value) => match value.text() {
                    Some(text) => res matches Ok(s) && s@ == text,
                    None => res matches Err(e) && e.is_decoder("Expecting string attribute"@),
                },
                None => res matches Err(e) && Element::lacks(e),
            },
    {
        match self.find_attribute(id) {
            Some(value) => value.read_string(),
            None => Err(Error::decoder("Attribute is missing")),
        }
    }

    pub fn read_signed_attr(&self, id: u32) -> (res: Result<i64>)
        ensures
            match self.attribute(id) {
                Some(value) => match value.signed() {
                    Some(n) => res == Ok::<i64, Error>(n),
                    None => res matches Err(e) && e.is_decoder("Expecting signed integer attribute"@),
                },
                None => res matches Err(e) && Element::lacks(e),
            },
    {
        match self.find_attribute(id) {
            Some(value) => value.read_signed_integer(),
            None => Err(Error::decoder("Attribute is missing")),
        }
    }

    pub fn read_bool_attr(&self, id: u32) -> (res: Result<bool>)
        ensures
            match self.attribute(id) {
                Some(value) => match value.boolean() {
                    Some(b) => res == Ok::<bool, Error>(b),
                    None => res matches Err(e) && e.is_decoder("Expecting boolean attribute"@),
                },
                None => res matches Err(e) && Element::lacks(e),
            },
    {
        match self.find_attribute(id) {
            Some(value) => value.read_bool(),
            None => Err(Error::decoder("Attribute is missing")),
        }
    }

    pub fn read_space_attr(&self, id: u32) -> (res: Result<SpaceRef>)
        ensures
            match self.attribute(id) {
                Some(value) => match value.space() {
                    Some(spc) => res == Ok::<SpaceRef, Error>(spc),
                    None => res matches Err(e) && e.is_decoder("Expecting space attribute"@),
                },
                None => res matches Err(e) && Element::lacks(e),
            },
    {
        match self.find_attribute(id) {
            Some(value) => value.read_space(),
            None => Err(Error::decoder("Attribute is missing")),
        }
    }

    /// Fails if the element has another identifier.
    pub fn expect(&self, id: u32) -> (res: Result<()>)
        ensures
            self.id == id ==> res == Ok::<(), Error>(()),
            self.id != id ==> (res matches Err(e) && e.is_decoder("Unexpected element"@)),
    {
        if self.id == id {
            Ok(())
        } else {
            Err(Error::decoder("Unexpected element"))
        }
    }
}

/// A step of writing a document.
#[derive(Debug)]
pub enum Token {
    Open(u32),
    Close(u32),
    Attribute(u32, Value),
    Prototype(FuncProto),
}

/// A step of writing a document, with texts as what they say.
pub ghost enum Written {
    Open(u32),
    Close(u32),
    Bool(u32, bool),
    Signed(u32, i64),
    Unsigned(u32, u64),
    Text(u32, Seq<char>),
    Space(u32, SpaceRef),
    Prototype(Option<String>, Seq<ProtoParameter>, Option<ProtoParameter>, u32),
}

/// A whole prototype.
pub open spec fn prototype_written(proto: FuncProto) -> Written {
    Written::Prototype(proto.model_name, proto.params@, proto.output, proto.flags)
}

/// What writing an address adds to a document.
pub open spec fn address_written(start: Seq<Written>, addr: Address) -> Seq<Written> {
    let open = start.push(Written::Open(ELEM_ADDR));
    let inside = match addr.base {
        Some(spc) => open.push(Written::Space(ATTRIB_SPACE, spc)).push(Written::Unsigned(ATTRIB_OFFSET, addr.offset)),
        None => open,
    };
    inside.push(Written::Close(ELEM_ADDR))
}

impl Token {
    pub open spec fn written(self) -> Written {
        match self {
            Token::Open(id) => Written::Open(id),
            Token::Close(id) => Written::Close(id),
            Token::Attribute(id, value) => match value {
                Value::Bool(b) => Written::Bool(id, b),
                Value::Signed(n) => Written::Signed(id, n),
                Value::Unsigned(n) => Written::Unsigned(id, n),
                Value::Text(s) => Written::Text(id, s@),
                Value::Space(spc) => Written::Space(id, spc),
            },
            Token::Prototype(proto) => prototype_written(proto),
        }
    }
}

/// A document that is being written.
#[derive(Debug)]
pub struct Encoder {
    pub tokens: Vec<Token>,
}

impl View for Encoder {
    type V = Seq<Written>;

    open spec fn view(&self) -> Seq<Written> {
        self.tokens@.map_values(|t: Token| t.written())
    }
}

impl Encoder {
    pub fn new() -> (res: Encoder)
        ensures
            res@ == Seq::<Written>::empty(),
    {
        let res = Encoder { tokens: Vec::new() };
        assert(res@ =~= Seq::<Written>::empty());
        res
    }

    fn put(&mut self, token: Token)
        ensures
            final(self)@ == old(self)@.push(token.written()),
    {
        self.tokens.push(token);
        assert(self@ =~= old(self)@.push(token.written()));
    }

    pub fn open_element(&mut self, id: u32)
        ensures
            final(self)@ == old(self)@.push(Written::Open(id)),
    {
        self.put(Token::Open(id));
    }

    pub fn close_element(&mut self, id: u32)
        ensures
            final(self)@ == old(self)@.push(Written::Close(id)),
    {
        self.put(Token::Close(id));
    }

    pub fn write_bool(&mut self, id: u32, val: bool)
        ensures
            final(self)@ == old(self)@.push(Written::Bool(id, val)),
    {
        self.put(Token::Attribute(id, Value::Bool(val)));
    }

    pub fn write_signed_integer(&mut self, id: u32, val: i64)
        ensures
            final(self)@ == old(self)@.push(Written::Signed(id, val)),
    {
        self.put(Token::Attribute(id, Value::Signed(val)));
    }

    pub fn write_unsigned_integer(&mut self, id: u32, val: u64)
        ensures
            final(self)@ == old(self)@.push(Written::Unsigned(id, val)),
    {
        self.put(Token::Attribute(id, Value::Unsigned(val)));
    }

    pub fn write_string(&mut self, id: u32, val: &str)
        ensures
            final(self)@ == old(self)@.push(Written::Text(id, val@)),
    {
        self.put(Token::Attribute(id, Value::Text(val.to_owned())));
    }

    pub fn write_space(&mut self, id: u32, val: &SpaceRef)
        ensures
            final(self)@ == old(self)@.push(Written::Space(id, *val)),
    {
        self.put(Token::Attribute(id, Value::Space(val.clone())));
    }

    pub fn write_prototype(&mut self, proto: &FuncProto)
        ensures
            final(self)@ == old(self)@.push(prototype_written(*proto)),
    {
        self.put(Token::Prototype(proto.copy()));
    }

    pub fn write_address(&mut self, addr: &Address)
        ensures
            final(self)@ == address_written(old(self)@, *addr),
    {
        self.open_element(ELEM_ADDR);
        if let Some(spc) = &addr.base {
            self.write_space(ATTRIB_SPACE, spc);
            self.write_unsigned_integer(ATTRIB_OFFSET, addr.offset);
        }
        self.close_element(ELEM_ADDR);
    }
}

} // verus!

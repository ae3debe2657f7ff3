//! Reading the fields of structures and unions.
use vstd::prelude::*;
use crate::address::BitRange;
use crate::error::{Error, Result};
use crate::ids::TypeId;
use crate::marshal::{Attribute, Element, ATTRIB_FIRST, ATTRIB_ID, ATTRIB_NAME, ATTRIB_OFFSET, ATTRIB_SIZE};
use crate::text::is_empty_text;
use crate::types::decode::Fault;
use crate::types::labels::{ELEM_BITFIELD, ELEM_FIELD};
use crate::types::vet::malformed_type;
use crate::types::{Datatype, FieldAccum, TypeBitField, TypeFactory, TypeField, TypeKind, TypeMetatype};

verus! {

/// What attributes say of a field.
pub ghost struct FieldFacts {
    pub name: Seq<char>,
    pub offset: i32,
    pub ident: i32,
    pub size: i32,
    pub first: i32,
    pub fault: Option<Fault>,
}

/// What attributes say of a field, from one of them on.
pub open spec fn field_facts(list: Seq<Attribute>, i: nat, bits: bool, known: FieldFacts) -> FieldFacts
    decreases list.len() - i,
{
    if i >= list.len() || known.fault is Some {
        known
    } else {
        field_facts(list, i + 1, bits, field_with(known, bits, list[i as int]))
    }
}

/// What is known of a field once one more attribute is read. Only a field of bits has a
/// size and a first bit.
pub open spec fn field_with(known: FieldFacts, bits: bool, attrib: Attribute) -> FieldFacts {
    let expecting_signed = FieldFacts { fault: Some(Fault::Decoder("Expecting signed integer attribute"@)), ..known };
    if attrib.id == ATTRIB_NAME {
        match attrib.value.text() {
            Some(name) => FieldFacts { name, ..known },
            None => FieldFacts { fault: Some(Fault::Decoder("Expecting string attribute"@)), ..known },
        }
    } else if attrib.id == ATTRIB_OFFSET || attrib.id == ATTRIB_ID || (bits && (attrib.id == ATTRIB_SIZE
        || attrib.id == ATTRIB_FIRST)) {
        match attrib.value.signed() {
            Some(n) => if attrib.id == ATTRIB_OFFSET {
                FieldFacts { offset: n as i32, ..known }
            } else if attrib.id == ATTRIB_ID {
                FieldFacts { ident: n as i32, ..known }
            } else if attrib.id == ATTRIB_SIZE {
                FieldFacts { size: n as i32, ..known }
            } else {
                FieldFacts { first: n as i32, ..known }
            },
            None => expecting_signed,
        }
    } else {
        known
    }
}

/// What was read of a field.
#[derive(Debug)]
pub struct FieldAttributes {
    pub name: String,
    pub offset: i32,
    pub ident: i32,
    pub size: i32,
    pub first: i32,
}

impl FieldAttributes {
    pub open spec fn facts(self, fault: Option<Fault>) -> FieldFacts {
        FieldFacts {
            name: self.name@,
            offset: self.offset,
            ident: self.ident,
            size: self.size,
            first: self.first,
            fault,
        }
    }

    fn read_attribute(&mut self, attrib: &Attribute, bits: bool) -> (res: Result<()>)
        ensures
            ({
                let next = field_with(old(self).facts(None), bits, *attrib);
                final(self).facts(next.fault) == next && Fault::reported(next.fault, res)
            }),
    {
        if attrib.id == ATTRIB_NAME {
            self.name = attrib.value.read_string()?;
        } else if attrib.id == ATTRIB_OFFSET {
            self.offset = attrib.value.read_signed_integer()? as i32;
        } else if attrib.id == ATTRIB_ID {
            self.ident = attrib.value.read_signed_integer()? as i32;
        } else if bits && attrib.id == ATTRIB_SIZE {
            self.size = attrib.value.read_signed_integer()? as i32;
        } else if bits && attrib.id == ATTRIB_FIRST {
            self.first = attrib.value.read_signed_integer()? as i32;
        }
        Ok(())
    }
}

/// What the attributes of an element say of a field.
pub open spec fn field_told(elem: Element, bits: bool) -> FieldFacts {
    field_facts(
        elem.attributes@,
        0,
        bits,
        FieldFacts { name: Seq::empty(), offset: -1i32, ident: -1i32, size: -1i32, first: -1i32, fault: None },
    )
}

/// What is wrong with the attributes of an element that ought to be a field.
pub open spec fn field_fault(elem: Element, bits: bool) -> Option<Fault> {
    if elem.id != if bits {
        ELEM_BITFIELD
    } else {
        ELEM_FIELD
    } {
        Some(Fault::Decoder("Unexpected element"@))
    } else {
        field_told(elem, bits).fault
    }
}

/// Reads the attributes of a field.
pub fn read_field(elem: &Element, bits: bool) -> (res: Result<FieldAttributes>)
    ensures
        match field_fault(*elem, bits) {
            None => res matches Ok(read) && read.facts(None) == field_told(*elem, bits),
            Some(fault) => res matches Err(e) && fault.is_report(e),
        },
{
    let expected: u32 = if bits {
        ELEM_BITFIELD
    } else {
        ELEM_FIELD
    };
    match elem.expect(expected) {
        Ok(()) => {},
        Err(e) => {
            return Err(e);
        },
    }
    let mut read = FieldAttributes { name: String::new(), offset: -1, ident: -1, size: -1, first: -1 };
    let ghost start = FieldFacts {
        name: Seq::empty(),
        offset: -1i32,
        ident: -1i32,
        size: -1i32,
        first: -1i32,
        fault: None,
    };
    assert(read.name@ =~= Seq::empty());
    let mut i: usize = 0;
    while i < elem.attributes.len()
        invariant
            i <= elem.attributes@.len(),
            elem.id == expected,
            expected == if bits {
                ELEM_BITFIELD
            } else {
                ELEM_FIELD
            },
            start == (FieldFacts {
                name: Seq::empty(),
                offset: -1i32,
                ident: -1i32,
                size: -1i32,
                first: -1i32,
                fault: None,
            }),
            field_facts(elem.attributes@, i as nat, bits, read.facts(None)) == field_facts(
                elem.attributes@,
                0,
                bits,
                start,
            ),
        decreases elem.attributes@.len() - i,
    {
        let ghost next = field_with(read.facts(None), bits, elem.attributes@[i as int]);
        assert(next.fault is Some ==> field_facts(elem.attributes@, (i + 1) as nat, bits, next) == next);
        match read.read_attribute(&elem.attributes[i], bits) {
            Ok(()) => {},
            Err(e) => {
                return Err(e);
            },
        }
        i = i + 1;
    }
    Ok(read)
}

impl TypeField {
    /// A field as its attributes and its data-type make it.
    pub open spec fn is_told(self, told: FieldFacts, tp: TypeId) -> bool {
        &&& self.name@ == told.name
        &&& self.offset == told.offset
        &&& self.ident == if told.ident < 0 {
            told.offset
        } else {
            told.ident
        }
        &&& self.tp == tp
    }

    /// What is wrong with a field once its data-type is known.
    pub open spec fn fault_in(told: FieldFacts) -> Option<Fault> {
        if told.name.len() == 0 {
            Some(Fault::Lowlevel("name attribute must not be empty in <field> tag"@))
        } else if told.offset < 0 {
            Some(Fault::Lowlevel("offset attribute invalid for <field> tag"@))
        } else {
            None
        }
    }

    /// Makes a field out of its attributes, given its data-type.
    pub fn decode(read: FieldAttributes, tp: TypeId) -> (res: Result<TypeField>)
        ensures
            match TypeField::fault_in(read.facts(None)) {
                None => res matches Ok(field) && field.is_told(read.facts(None), tp),
                Some(fault) => res matches Err(e) && fault.is_report(e),
            },
    {
        if is_empty_text(read.name.as_str()) {
            return Err(Error::lowlevel("name attribute must not be empty in <field> tag"));
        }
        if read.offset < 0 {
            return Err(Error::lowlevel("offset attribute invalid for <field> tag"));
        }
        let ident: i32 = if read.ident < 0 {
            read.offset
        } else {
            read.ident
        };
        Ok(TypeField { ident, offset: read.offset, name: read.name, tp })
    }
}

impl TypeBitField {
    /// A field of bits as its attributes and its data-type make it.
    pub open spec fn is_told(self, told: FieldFacts, tp: TypeId, big_endian: bool) -> bool {
        &&& self.name@ == told.name
        &&& self.ident == told.ident
        &&& self.tp == tp
        &&& self.bits == (BitRange {
            byte_offset: told.offset,
            byte_size: ((told.first + told.size + 7) / 8) as i32,
            least_sig_bit: told.first,
            num_bits: told.size,
            is_big_endian: big_endian,
        })
    }

    /// What is wrong with a field of bits once its data-type is known.
    pub open spec fn fault_in(told: FieldFacts) -> Option<Fault> {
        if told.name.len() == 0 {
            Some(Fault::Lowlevel("<bitfield> name attribute must not be empty"@))
        } else if told.ident < 0 {
            Some(Fault::Lowlevel("<bitfield> id attribute must not be empty"@))
        } else if told.offset < 0 || told.first < 0 || told.size < 0 {
            Some(Fault::Lowlevel("<bitfield> missing offset/size/first attributes"@))
        } else if told.first + told.size + 7 > i32::MAX {
            Some(Fault::Lowlevel("Malformed data-type"@))
        } else {
            None
        }
    }

    /// Makes a field of bits out of its attributes, given its data-type.
    pub fn decode(read: FieldAttributes, tp: TypeId, big_endian: bool) -> (res: Result<TypeBitField>)
        ensures
            match TypeBitField::fault_in(read.facts(None)) {
                None => res matches Ok(field) && field.is_told(read.facts(None), tp, big_endian),
                Some(fault) => res matches Err(e) && fault.is_report(e),
            },
    {
        if is_empty_text(read.name.as_str()) {
            return Err(Error::lowlevel("<bitfield> name attribute must not be empty"));
        }
        if read.ident < 0 {
            return Err(Error::lowlevel("<bitfield> id attribute must not be empty"));
        }
        if read.offset < 0 || read.first < 0 || read.size < 0 {
            return Err(Error::lowlevel("<bitfield> missing offset/size/first attributes"));
        }
        if read.first as i64 + read.size as i64 + 7 > 0x7fff_ffff {
            return Err(malformed_type());
        }
        let bits = BitRange {
            byte_offset: read.offset,
            byte_size: (read.first + read.size + 7) / 8,
            least_sig_bit: read.first,
            num_bits: read.size,
            is_big_endian: big_endian,
        };
        Ok(TypeBitField { name: read.name, tp, bits, ident: read.ident })
    }
}

/// What is known of a structure while its fields are read.
pub ghost struct StructFacts {
    pub fields: Seq<TypeField>,
    pub bits: Seq<TypeBitField>,
    pub flags: u32,
    pub last_off: int,
    pub calc_size: int,
    pub calc_align: int,
    pub warning: Seq<char>,
    pub fault: Option<Fault>,
}

impl StructFacts {
    pub open spec fn failing(self, text: Seq<char>) -> StructFacts {
        StructFacts { fault: Some(Fault::Lowlevel(text)), ..self }
    }

    /// A field is left out, and a warning says so.
    pub open spec fn ignoring(self, owner: Seq<char>, what: Seq<char>, name: Seq<char>) -> StructFacts {
        StructFacts {
            warning: if self.warning.len() == 0 {
                "Struct \""@ + owner + "\": ignoring overlapping "@ + what + " \""@ + name + "\""@
            } else {
                "Struct \""@ + owner + "\": ignoring multiple overlapping fields"@
            },
            ..self
        }
    }
}

/// What is known of a structure once one more field is read.
pub open spec fn with_field(known: StructFacts, field: TypeField, owner: Seq<char>, size: i32, types: TypeFactory) -> StructFacts {
    let d = types.dt(field.tp);
    if d.metatype == TypeMetatype::Void {
        known.failing("Bad field data-type for structure: "@ + owner)
    } else if field.offset < known.last_off {
        known.failing("Fields are out of order"@)
    } else if field.offset < known.calc_size {
        known.ignoring(owner, "field"@, field.name@)
    } else if field.offset + d.size > size {
        known.failing("Field "@ + field.name@ + " does not fit in structure "@ + owner)
    } else {
        StructFacts {
            fields: known.fields.push(field),
            flags: if d.flag(Datatype::HAS_BITFIELDS) {
                known.flags | Datatype::HAS_BITFIELDS
            } else {
                known.flags
            },
            last_off: field.offset as int,
            calc_size: field.offset + d.size,
            calc_align: if d.alignment > known.calc_align {
                d.alignment as int
            } else {
                known.calc_align
            },
            ..known
        }
    }
}

impl Datatype {
    /// What is known of a structure while its fields are read.
    pub open spec fn struct_facts(self, accum: FieldAccum, fault: Option<Fault>) -> StructFacts {
        StructFacts {
            fields: self.fields(),
            bits: self.bitfields(),
            flags: self.flags,
            last_off: accum.last_off as int,
            calc_size: accum.calc_size as int,
            calc_align: accum.calc_align as int,
            warning: accum.warning@,
            fault,
        }
    }

    /// Nothing but fields and flags is different.
    pub open spec fn differs_in_fields(self, before: Datatype) -> bool {
        self == (Datatype { kind: self.kind, flags: self.flags, ..before })
    }

    fn note_overlap(&self, what: &str, name: &str, accum: &mut FieldAccum)
        ensures
            final(accum).last_off == old(accum).last_off,
            final(accum).calc_size == old(accum).calc_size,
            final(accum).calc_align == old(accum).calc_align,
            self.struct_facts(*final(accum), None) == self.struct_facts(*old(accum), None).ignoring(
                self.name@,
                what@,
                name@,
            ),
    {
        let mut text = "Struct \"".to_owned();
        text.push_str(self.name.as_str());
        if is_empty_text(accum.warning.as_str()) {
            text.push_str("\": ignoring overlapping ");
            text.push_str(what);
            text.push_str(" \"");
            text.push_str(name);
            text.push_str("\"");
        } else {
            text.push_str("\": ignoring multiple overlapping fields");
        }
        accum.warning = text;
        assert(self.struct_facts(*accum, None) =~= self.struct_facts(*old(accum), None).ignoring(
            self.name@,
            what@,
            name@,
        ));
    }

    /// Takes a field that was read into a structure.
    pub fn decode_field(&mut self, cur_field: TypeField, types: &TypeFactory, accum: &mut FieldAccum) -> (res: Result<()>)
        requires
            types.sound(),
            types.has(cur_field.tp),
            old(self).kind is Struct,
        ensures
            ({
                let next = with_field(
                    old(self).struct_facts(*old(accum), None),
                    cur_field,
                    old(self).name@,
                    old(self).size,
                    *types,
                );
                &&& Fault::reported(next.fault, res)
                &&& next.fault is None ==> final(self).struct_facts(*final(accum), None) == next
                &&& next.fault is Some ==> *final(self) == *old(self) && *final(accum) == *old(accum)
            }),
            final(self).differs_in_fields(*old(self)),
            final(self).kind is Struct,
    {
        let field_type = types.get(cur_field.tp);
        if field_type.get_metatype() == TypeMetatype::Void {
            let mut text = "Bad field data-type for structure: ".to_owned();
            text.push_str(self.name.as_str());
            return Err(Error::Lowlevel(text));
        }
        if cur_field.offset < accum.last_off {
            return Err(Error::lowlevel("Fields are out of order"));
        }
        if cur_field.offset < accum.calc_size {
            self.note_overlap("field", cur_field.name.as_str(), accum);
            return Ok(());
        }
        let end: i64 = cur_field.offset as i64 + field_type.get_size() as i64;
        if end > self.size as i64 {
            let mut text = "Field ".to_owned();
            text.push_str(cur_field.name.as_str());
            text.push_str(" does not fit in structure ");
            text.push_str(self.name.as_str());
            assert(text@ =~= "Field "@ + cur_field.name@ + " does not fit in structure "@ + self.name@);
            return Err(Error::Lowlevel(text));
        }
        proof {
            types.look(cur_field.tp);
        }
        if field_type.has_bitfields() {
            self.flags = self.flags | Datatype::HAS_BITFIELDS;
        }
        accum.last_off = cur_field.offset;
        accum.calc_size = end as i32;
        let cur_align: i32 = field_type.get_alignment();
        if cur_align > accum.calc_align {
            accum.calc_align = cur_align;
        }
        if let TypeKind::Struct(data) = &mut self.kind {
            data.field.push(cur_field);
        }
        Ok(())
    }
}

/// A class of whole numbers.
pub open spec fn is_integral(meta: TypeMetatype) -> bool {
    meta == TypeMetatype::Int || meta == TypeMetatype::Uint || meta == TypeMetatype::Bool || meta
        == TypeMetatype::EnumInt || meta == TypeMetatype::EnumUint
}

/// The class of bytes that take the place of a field of bits.
pub open spec fn byte_class(meta: TypeMetatype) -> TypeMetatype {
    if meta == TypeMetatype::Int || meta == TypeMetatype::Uint {
        meta
    } else {
        TypeMetatype::Unknown
    }
}

impl StructFacts {
    /// A structure that has bytes in place of a field of bits.
    pub open spec fn with_bytes(self, bf: TypeBitField, tp: TypeId) -> StructFacts {
        let offset = bf.bits.minimized().byte_offset;
        StructFacts { fields: self.fields.push(TypeField { ident: offset, offset, name: bf.name, tp }), ..self }
    }
}

/// A field of bits stands where it cannot be told from what came before.
pub open spec fn overlaps_last(known: StructFacts, bf: TypeBitField) -> bool {
    bf.bits.byte_offset < known.calc_size && (known.bits.len() == 0 || known.bits.last().bits.overlap(bf.bits) != -1)
}

/// What taking a field of bits into a structure does. One that holds whole bytes becomes
/// an ordinary field.
pub open spec fn takes_bitfield(
    after: TypeFactory,
    before: TypeFactory,
    known: StructFacts,
    bf: TypeBitField,
    owner: Seq<char>,
    size: i32,
    next: StructFacts,
) -> bool {
    let d = before.dt(bf.tp);
    let small = bf.bits.minimized();
    let end = bf.bits.byte_offset + bf.bits.byte_size;
    let placed = StructFacts { last_off: bf.bits.byte_offset as int, calc_size: end, ..known };
    if !is_integral(d.metatype) {
        after == before && next == known.failing(
            "Non integer data-type for bitfield \""@ + bf.name@ + "\" in structure: "@ + owner,
        )
    } else if bf.bits.byte_offset < known.last_off {
        after == before && next == known.failing("Bitfields are out of order in structure: "@ + owner)
    } else if overlaps_last(known, bf) {
        after == before && next == known.ignoring(owner, "bit field"@, bf.name@)
    } else if end > size {
        after == before && next == known.failing("Bitfield "@ + bf.name@ + " does not fit in structure "@ + owner)
    } else if !bf.bits.whole_bytes() {
        after == before && next == (StructFacts { bits: known.bits.push(bf), ..placed })
    } else if d.size == small.byte_size {
        after == before && next == placed.with_bytes(bf, bf.tp)
    } else if !before.can_make_base(small.byte_size, byte_class(d.metatype)) {
        after == before && next == placed.failing("Malformed data-type"@)
    } else {
        exists|made: Result<TypeId>| #[trigger]
            after.makes_base(before, small.byte_size, byte_class(d.metatype), made) && next == match made {
                Ok(tp) => placed.with_bytes(bf, tp),
                Err(e) => StructFacts { fault: Some(Fault::Passed(e)), ..placed },
            }
    }
}

impl Datatype {
    /// Takes a field of bits that was read into a structure.
    pub fn decode_bit_field(&mut self, bf: TypeBitField, types: &mut TypeFactory, accum: &mut FieldAccum) -> (res: Result<()>)
        requires
            old(types).ready(),
            old(types).has(bf.tp),
            old(self).kind is Struct,
            bf.bits.byte_offset >= 0,
            bf.bits.least_sig_bit >= 0,
            bf.bits.num_bits >= 0,
            bf.bits.least_sig_bit + bf.bits.num_bits + 7 <= i32::MAX,
            bf.bits.byte_size == (bf.bits.least_sig_bit + bf.bits.num_bits + 7) / 8,
        ensures
            final(types).ready(),
            final(types).extends(*old(types)),
            final(self).differs_in_fields(*old(self)),
            final(self).kind is Struct,
            exists|next: StructFacts| #[trigger]
                takes_bitfield(
                    *final(types),
                    *old(types),
                    old(self).struct_facts(*old(accum), None),
                    bf,
                    old(self).name@,
                    old(self).size,
                    next,
                ) && Fault::reported(next.fault, res) && (next.fault is None ==> final(self).struct_facts(
                    *final(accum),
                    None,
                ) == next),
    {
        let ghost known = self.struct_facts(*accum, None);
        let ghost owner = self.name@;
        let ghost before = *types;
        let ghost size = self.size;
        let meta = types.get(bf.tp).get_metatype();
        let ghost placed = StructFacts {
            last_off: bf.bits.byte_offset as int,
            calc_size: bf.bits.byte_offset + bf.bits.byte_size,
            ..known
        };
        if meta != TypeMetatype::Int && meta != TypeMetatype::Uint && meta != TypeMetatype::Bool && meta
            != TypeMetatype::EnumInt && meta != TypeMetatype::EnumUint {
            let mut text = "Non integer data-type for bitfield \"".to_owned();
            text.push_str(bf.name.as_str());
            text.push_str("\" in structure: ");
            text.push_str(self.name.as_str());
            let ghost next = known.failing("Non integer data-type for bitfield \""@ + bf.name@ + "\" in structure: "@ + owner);
            assert(takes_bitfield(*types, before, known, bf, owner, size, next));
            return Err(Error::Lowlevel(text));
        }
        if bf.bits.byte_offset < accum.last_off {
            let mut text = "Bitfields are out of order in structure: ".to_owned();
            text.push_str(self.name.as_str());
            let ghost next = known.failing("Bitfields are out of order in structure: "@ + owner);
            assert(takes_bitfield(*types, before, known, bf, owner, size, next));
            return Err(Error::Lowlevel(text));
        }
        if bf.bits.byte_offset < accum.calc_size {
            let previous_overlaps = match &self.kind {
                TypeKind::Struct(data) => if data.bitfield.len() == 0 {
                    true
                } else {
                    data.bitfield[data.bitfield.len() - 1].bits.overlap_test(&bf.bits) != -1
                },
                _ => true,
            };
            if previous_overlaps {
                self.note_overlap("bit field", bf.name.as_str(), accum);
                let ghost next = known.ignoring(owner, "bit field"@, bf.name@);
                assert(takes_bitfield(*types, before, known, bf, owner, size, next));
                return Ok(());
            }
        }
        let end: i64 = bf.bits.byte_offset as i64 + bf.bits.byte_size as i64;
        if end > self.size as i64 {
            let mut text = "Bitfield ".to_owned();
            text.push_str(bf.name.as_str());
            text.push_str(" does not fit in structure ");
            text.push_str(self.name.as_str());
            let ghost next = known.failing("Bitfield "@ + bf.name@ + " does not fit in structure "@ + owner);
            assert(takes_bitfield(*types, before, known, bf, owner, size, next));
            return Err(Error::Lowlevel(text));
        }
        accum.last_off = bf.bits.byte_offset;
        accum.calc_size = end as i32;
        assert(self.struct_facts(*accum, None) == placed);
        if bf.bits.is_byte_range() {
            let mut small = bf.bits;
            small.minimize_container();
            let mut dt = bf.tp;
            if types.get(dt).get_size() != small.byte_size {
                let class = if meta != TypeMetatype::Int && meta != TypeMetatype::Uint {
                    TypeMetatype::Unknown
                } else {
                    meta
                };
                if !types.can_give_base(small.byte_size, class) {
                    let ghost next = placed.failing("Malformed data-type"@);
                    assert(takes_bitfield(*types, before, known, bf, owner, size, next));
                    return Err(malformed_type());
                }
                let made = types.get_base(small.byte_size, class);
                assert(types.makes_base(before, small.byte_size, class, made));
                match made {
                    Ok(tp) => {
                        dt = tp;
                    },
                    Err(e) => {
                        let ghost next = StructFacts { fault: Some(Fault::Passed(e)), ..placed };
                        assert(takes_bitfield(*types, before, known, bf, owner, size, next));
                        return Err(e);
                    },
                }
            }
            let ghost next = placed.with_bytes(bf, dt);
            assert(takes_bitfield(*types, before, known, bf, owner, size, next));
            let field = TypeField {
                ident: small.byte_offset,
                offset: small.byte_offset,
                name: bf.name.clone(),
                tp: dt,
            };
            if let TypeKind::Struct(data) = &mut self.kind {
                data.field.push(field);
            }
            return Ok(());
        }
        let ghost next = StructFacts { bits: known.bits.push(bf), ..placed };
        assert(takes_bitfield(*types, before, known, bf, owner, size, next));
        if let TypeKind::Struct(data) = &mut self.kind {
            data.bitfield.push(bf);
        }
        Ok(())
    }
}

} // verus!

//! Writing data-types.
use vstd::prelude::*;
use crate::address::Address;
use crate::architecture::Architecture;
use crate::error::{Error, Result};
use crate::ids::TypeId;
use crate::marshal::{
    Encoder, Written, ATTRIB_CONTENT, ATTRIB_FIRST, ATTRIB_FORMAT, ATTRIB_ID, ATTRIB_METATYPE, ATTRIB_NAME, ATTRIB_OFFSET,
    ATTRIB_SIZE, ATTRIB_SPACE, ATTRIB_VALUE, ATTRIB_WORDSIZE, ELEM_OFF, ELEM_VAL, ELEM_VOID,
};
use crate::text::is_empty_text;
use crate::types::labels::{
    ATTRIB_ALIGNMENT, ATTRIB_ARRAYSIZE, ATTRIB_CHAR, ATTRIB_CORE, ATTRIB_OPAQUESTRING, ATTRIB_UTF, ATTRIB_VARLENGTH,
    ELEM_BITFIELD, ELEM_CORETYPES, ELEM_DEF, ELEM_FIELD, ELEM_TYPE, ELEM_TYPEGRP, ELEM_TYPEREF,
};
use crate::types::names::NamedValue;
use crate::types::print::metatype2string;
use crate::types::{Datatype, TypeBitField, TypeFactory, TypeField, TypeKind, TypeMetatype};

verus! {

/// A document after something was written to it, and what went wrong.
pub ghost struct Document {
    pub tokens: Seq<Written>,
    pub error: Option<Seq<char>>,
}

impl Document {
    pub open spec fn fine(tokens: Seq<Written>) -> Document {
        Document { tokens, error: None }
    }

    /// What a call returns for it.
    pub open spec fn reported(self, res: Result<()>) -> bool {
        match self.error {
            None => res == Ok::<(), Error>(()),
            Some(text) => res matches Err(e) && e.is_lowlevel(text),
        }
    }
}

/// Writes the end of an element, if all went well.
pub open spec fn closed(doc: Option<Document>, elem: u32) -> Option<Document> {
    match doc {
        Some(d) => if d.error is None {
            Some(Document::fine(d.tokens.push(Written::Close(elem))))
        } else {
            doc
        },
        None => None,
    }
}

/// Writes something only where it is wanted.
pub open spec fn put_if(start: Seq<Written>, wanted: bool, token: Written) -> Seq<Written> {
    if wanted {
        start.push(token)
    } else {
        start
    }
}

/// Writes how integers of a data-type are shown.
pub open spec fn format_written(start: Seq<Written>, d: Datatype) -> Document {
    let format = (d.flags & Datatype::FORCE_FORMAT) >> 12;
    if format == 0 {
        Document::fine(start)
    } else {
        match crate::types::print::format_name(format) {
            Some(name) => Document::fine(start.push(Written::Text(ATTRIB_FORMAT, name))),
            None => Document { tokens: start, error: Some("Unrecognized integer format encoding"@) },
        }
    }
}

/// Writes the attributes that all data-types have.
pub open spec fn basic_written(start: Seq<Written>, d: Datatype, meta: TypeMetatype, align: i32) -> Document {
    let named = start.push(Written::Text(ATTRIB_NAME, d.name@));
    let with_id = put_if(named, d.unsized_id() != 0, Written::Unsigned(ATTRIB_ID, d.unsized_id()));
    let sized = with_id.push(Written::Signed(ATTRIB_SIZE, d.size as i64));
    let classed = sized.push(Written::Text(ATTRIB_METATYPE, crate::types::print::meta_name(meta)));
    let aligned = put_if(classed, align > 0, Written::Signed(ATTRIB_ALIGNMENT, align as i64));
    let core = put_if(aligned, d.flag(Datatype::CORETYPE), Written::Bool(ATTRIB_CORE, true));
    let variable = put_if(core, d.flag(Datatype::VARIABLE_LENGTH), Written::Bool(ATTRIB_VARLENGTH, true));
    let opaque_text = put_if(variable, d.flag(Datatype::OPAQUE_STRING), Written::Bool(ATTRIB_OPAQUESTRING, true));
    format_written(opaque_text, d)
}

/// Writes a data-type element as far as its common attributes.
pub open spec fn type_opened(start: Seq<Written>, d: Datatype, meta: TypeMetatype, align: i32) -> Document {
    basic_written(start.push(Written::Open(ELEM_TYPE)), d, meta, align)
}

/// Writes a name for a data-type.
pub open spec fn name_written(start: Seq<Written>, d: Datatype) -> Seq<Written> {
    let named = start.push(Written::Open(ELEM_TYPEREF)).push(Written::Text(ATTRIB_NAME, d.name@));
    let whole = if d.flag(Datatype::VARIABLE_LENGTH) {
        named.push(Written::Unsigned(ATTRIB_ID, crate::types::read::size_hash(d.id, d.size))).push(
            Written::Signed(ATTRIB_SIZE, d.size as i64),
        )
    } else {
        named.push(Written::Unsigned(ATTRIB_ID, d.id))
    };
    whole.push(Written::Close(ELEM_TYPEREF))
}

/// A data-type can be written by its name.
pub open spec fn goes_by_name(d: Datatype) -> bool {
    d.id != 0 && d.metatype != TypeMetatype::Void
}

/// Writes the names of the values of an enumeration, from one of them on.
pub open spec fn values_written(start: Seq<Written>, list: Seq<NamedValue>, i: nat) -> Seq<Written>
    decreases list.len() - i,
{
    if i >= list.len() {
        start
    } else {
        values_written(
            start.push(Written::Open(ELEM_VAL)).push(Written::Text(ATTRIB_NAME, list[i as int].name@)).push(
                Written::Unsigned(ATTRIB_VALUE, list[i as int].value),
            ).push(Written::Close(ELEM_VAL)),
            list,
            i + 1,
        )
    }
}

/// The address by which a space of symbols is told apart: nothing for the global one.
pub open spec fn frame_of(scope: crate::ids::ScopeId, glb: Architecture) -> Address {
    let s = glb.symboltab.scope(scope);
    if s.is_global {
        Address { base: None, offset: 0 }
    } else {
        s.function->0
    }
}

/// Every scope that is not global belongs to a function.
pub open spec fn scopes_owned(glb: Architecture) -> bool {
    &&& glb.symboltab.valid()
    &&& forall|i: int| 0 <= i < glb.symboltab.scopes@.len() ==> (#[trigger] glb.symboltab.scopes@[i]).is_global
        || glb.symboltab.scopes@[i].function is Some
}

/// The document after a data-type is written by its name, or in full where it has none.
/// Nothing is said where that takes more steps than are given.
pub open spec fn referred(start: Seq<Written>, d: Datatype, glb: Architecture, steps: nat) -> Option<Document>
    decreases steps, 1nat, 0nat,
{
    if goes_by_name(d) {
        Some(Document::fine(name_written(start, d)))
    } else {
        described(start, d, glb, steps)
    }
}

/// The document after a typedef is written.
pub open spec fn typedef_written(start: Seq<Written>, d: Datatype, glb: Architecture, steps: nat) -> Option<Document>
    decreases steps, 2nat, 0nat,
{
    let head = format_written(
        start.push(Written::Open(ELEM_DEF)).push(Written::Text(ATTRIB_NAME, d.name@)).push(
            Written::Unsigned(ATTRIB_ID, d.id),
        ),
        d,
    );
    if head.error is Some {
        Some(head)
    } else {
        closed(referred(head.tokens, glb.types.dt(d.typedef_imm->0), glb, steps), ELEM_DEF)
    }
}

/// The document after a field is written.
pub open spec fn field_written(start: Seq<Written>, field: TypeField, glb: Architecture, steps: nat) -> Option<Document>
    decreases steps, 2nat, 0nat,
{
    let head = start.push(Written::Open(ELEM_FIELD)).push(Written::Text(ATTRIB_NAME, field.name@)).push(
        Written::Signed(ATTRIB_OFFSET, field.offset as i64),
    );
    let whole = put_if(head, field.ident != field.offset, Written::Signed(ATTRIB_ID, field.ident as i64));
    closed(referred(whole, glb.types.dt(field.tp), glb, steps), ELEM_FIELD)
}

/// The document after a field of bits is written.
pub open spec fn bitfield_written(start: Seq<Written>, field: TypeBitField, glb: Architecture, steps: nat) -> Option<
    Document,
>
    decreases steps, 2nat, 0nat,
{
    let head = start.push(Written::Open(ELEM_BITFIELD)).push(Written::Text(ATTRIB_NAME, field.name@)).push(
        Written::Signed(ATTRIB_OFFSET, field.bits.byte_offset as i64),
    ).push(Written::Signed(ATTRIB_SIZE, field.bits.num_bits as i64)).push(
        Written::Signed(ATTRIB_FIRST, field.bits.least_sig_bit as i64),
    );
    closed(referred(head, glb.types.dt(field.tp), glb, steps), ELEM_BITFIELD)
}

/// The document after fields and fields of bits are written, in the order of where they are.
pub open spec fn fields_written(
    start: Seq<Written>,
    fields: Seq<TypeField>,
    bits: Seq<TypeBitField>,
    i: nat,
    j: nat,
    glb: Architecture,
    steps: nat,
) -> Option<Document>
    decreases steps, 3nat, (fields.len() - i) + (bits.len() - j),
{
    let field_next = i < fields.len() && (j >= bits.len() || fields[i as int].offset < bits[j as int].bits.byte_offset);
    if field_next && j <= bits.len() {
        match field_written(start, fields[i as int], glb, steps) {
            Some(doc) => if doc.error is None {
                fields_written(doc.tokens, fields, bits, i + 1, j, glb, steps)
            } else {
                Some(doc)
            },
            None => None,
        }
    } else if j < bits.len() && i <= fields.len() {
        match bitfield_written(start, bits[j as int], glb, steps) {
            Some(doc) => if doc.error is None {
                fields_written(doc.tokens, fields, bits, i, j + 1, glb, steps)
            } else {
                Some(doc)
            },
            None => None,
        }
    } else {
        Some(Document::fine(start))
    }
}

/// Only some kinds of data-types are written as typedefs.
pub open spec fn written_as_typedef(d: Datatype) -> bool {
    d.typedef_imm is Some && !(d.kind is PartialEnum || d.kind is PartialUnion || d.kind is PointerRel || d.kind is Base
        || d.kind is PartialStruct)
}

/// The document after a data-type is written in full. Nothing is said where that takes
/// more steps than are given.
pub open spec fn described(start: Seq<Written>, d: Datatype, glb: Architecture, steps: nat) -> Option<Document>
    decreases steps, 0nat, 0nat,
{
    let types = glb.types;
    if steps == 0 {
        None
    } else if written_as_typedef(d) {
        typedef_written(start, d, glb, (steps - 1) as nat)
    } else if d.kind is Void {
        Some(Document::fine(start.push(Written::Open(ELEM_VOID)).push(Written::Close(ELEM_VOID))))
    } else {
        let head = head_written(start, d, glb);
        if head.error is Some {
            Some(head)
        } else {
            let less = (steps - 1) as nat;
            let tokens = head.tokens;
            let inside = match d.kind {
                TypeKind::Pointer(data) => referred(tokens, types.dt(data.ptrto->0), glb, less),
                TypeKind::Array(data) => referred(tokens, types.dt(data.arrayof->0), glb, less),
                TypeKind::Struct(data) => fields_written(tokens, data.field@, data.bitfield@, 0, 0, glb, less),
                TypeKind::Union(data) => fields_written(tokens, data.field@, Seq::empty(), 0, 0, glb, less),
                TypeKind::PartialEnum(data) => referred(tokens, types.dt(data.parent), glb, less),
                TypeKind::PartialUnion(data) => referred(tokens, types.dt(data.container), glb, less),
                TypeKind::PointerRel(data) => match described(
                    tokens,
                    types.dt(data.pointer.ptrto->0),
                    glb,
                    less,
                ) {
                    Some(doc) => if doc.error is None {
                        match referred(doc.tokens, types.dt(data.parent->0), glb, less) {
                            Some(doc2) => if doc2.error is None {
                                Some(
                                    Document::fine(
                                        doc2.tokens.push(Written::Open(ELEM_OFF)).push(
                                            Written::Signed(ATTRIB_CONTENT, data.offset as i64),
                                        ).push(Written::Close(ELEM_OFF)),
                                    ),
                                )
                            } else {
                                Some(doc2)
                            },
                            None => None,
                        }
                    } else {
                        Some(doc)
                    },
                    None => None,
                },
                _ => Some(Document::fine(tokens)),
            };
            closed(inside, ELEM_TYPE)
        }
    }
}

/// Writes what a data-type has of its own, without the data-types that it refers to.
pub open spec fn head_written(start: Seq<Written>, d: Datatype, glb: Architecture) -> Document {
    let meta = match d.kind {
        TypeKind::Enum(_) => if d.metatype == TypeMetatype::Int {
            TypeMetatype::EnumInt
        } else {
            TypeMetatype::EnumUint
        },
        TypeKind::PartialEnum(_) => TypeMetatype::PartialEnum,
        TypeKind::PointerRel(_) => TypeMetatype::PtrRel,
        _ => d.metatype,
    };
    let align = if d.kind is Struct || d.kind is Union {
        d.alignment
    } else {
        -1i32
    };
    let head = type_opened(start, d, meta, align);
    let tokens = head.tokens;
    if head.error is Some {
        head
    } else {
        match d.kind {
            TypeKind::Char => Document::fine(tokens.push(Written::Bool(ATTRIB_CHAR, true))),
            TypeKind::Unicode => Document::fine(tokens.push(Written::Bool(ATTRIB_UTF, true))),
            TypeKind::Pointer(data) => {
                let sized = put_if(
                    tokens,
                    data.wordsize != 1,
                    Written::Unsigned(ATTRIB_WORDSIZE, data.wordsize as u64),
                );
                Document::fine(
                    match data.spaceid {
                        Some(spc) => sized.push(Written::Space(ATTRIB_SPACE, spc)),
                        None => sized,
                    },
                )
            },
            TypeKind::PointerRel(data) => Document::fine(
                put_if(
                    tokens,
                    data.pointer.wordsize != 1,
                    Written::Unsigned(ATTRIB_WORDSIZE, data.pointer.wordsize as u64),
                ),
            ),
            TypeKind::Array(data) => Document::fine(
                tokens.push(Written::Signed(ATTRIB_ARRAYSIZE, data.arraysize as i64)),
            ),
            TypeKind::Enum(data) => Document::fine(values_written(tokens, data.namemap.entries@, 0)),
            TypeKind::PartialEnum(data) => Document::fine(
                tokens.push(Written::Signed(ATTRIB_OFFSET, data.offset as i64)),
            ),
            TypeKind::PartialUnion(data) => Document::fine(
                tokens.push(Written::Signed(ATTRIB_OFFSET, data.offset as i64)),
            ),
            TypeKind::Code(data) => match data.proto {
                Some(proto) => Document::fine(tokens.push(crate::marshal::prototype_written(proto))),
                None => head,
            },
            TypeKind::Spacebase(data) => {
                let spaced = tokens.push(Written::Space(ATTRIB_SPACE, data.spaceid->0));
                match glb.symboltab.resolved(data.scope_id) {
                    Some(scope) => Document::fine(
                        crate::marshal::address_written(spaced, frame_of(scope, glb)),
                    ),
                    None => Document {
                        tokens: spaced,
                        error: Some("Trying to get scope from unattached Typespacebase"@),
                    },
                }
            },
            _ => head,
        }
    }
}

impl Datatype {
    fn encode_format(&self, encoder: &mut Encoder) -> (res: Result<()>)
        ensures
            final(encoder)@ == format_written(old(encoder)@, *self).tokens,
            format_written(old(encoder)@, *self).reported(res),
    {
        let format: u32 = self.get_display_format();
        if format != 0 {
            match Datatype::decode_integer_format(format) {
                Ok(name) => {
                    encoder.write_string(ATTRIB_FORMAT, name.as_str());
                },
                Err(e) => {
                    return Err(e);
                },
            }
        }
        Ok(())
    }

    /// Writes the attributes that all data-types have.
    pub fn encode_basic(&self, meta: TypeMetatype, align: i32, encoder: &mut Encoder) -> (res: Result<()>)
        ensures
            final(encoder)@ == basic_written(old(encoder)@, *self, meta, align).tokens,
            basic_written(old(encoder)@, *self, meta, align).reported(res),
    {
        encoder.write_string(ATTRIB_NAME, self.name.as_str());
        let save_id: u64 = self.get_unsized_id();
        if save_id != 0 {
            encoder.write_unsigned_integer(ATTRIB_ID, save_id);
        }
        encoder.write_signed_integer(ATTRIB_SIZE, self.size as i64);
        match metatype2string(meta) {
            Ok(metastring) => {
                encoder.write_string(ATTRIB_METATYPE, metastring.as_str());
            },
            Err(e) => {
                return Err(e);
            },
        }
        if align > 0 {
            encoder.write_signed_integer(ATTRIB_ALIGNMENT, align as i64);
        }
        if (self.flags & Datatype::CORETYPE) != 0 {
            encoder.write_bool(ATTRIB_CORE, true);
        }
        if self.is_variable_length() {
            encoder.write_bool(ATTRIB_VARLENGTH, true);
        }
        if (self.flags & Datatype::OPAQUE_STRING) != 0 {
            encoder.write_bool(ATTRIB_OPAQUESTRING, true);
        }
        self.encode_format(encoder)
    }
}

/// Writing a data-type ends.
pub open spec fn writable(start: Seq<Written>, d: Datatype, glb: Architecture) -> bool {
    exists|steps: nat| #[trigger] described(start, d, glb, steps) is Some
}

/// The document after a data-type is written in full.
pub open spec fn after_type(start: Seq<Written>, d: Datatype, glb: Architecture) -> Document {
    described(start, d, glb, choose|steps: nat| #[trigger] described(start, d, glb, steps) is Some)->0
}

/// Writing a data-type by its name, or in full, ends.
pub open spec fn referable(start: Seq<Written>, d: Datatype, glb: Architecture) -> bool {
    exists|steps: nat| #[trigger] referred(start, d, glb, steps) is Some
}

/// The document after a data-type is written by its name, or in full.
pub open spec fn after_reference(start: Seq<Written>, d: Datatype, glb: Architecture) -> Document {
    referred(start, d, glb, choose|steps: nat| #[trigger] referred(start, d, glb, steps) is Some)->0
}

/// The document after a field is written.
pub open spec fn after_field(start: Seq<Written>, field: TypeField, glb: Architecture) -> Document {
    field_written(start, field, glb, choose|steps: nat| #[trigger] field_written(start, field, glb, steps) is Some)->0
}

/// The document after a field of bits is written.
pub open spec fn after_bitfield(start: Seq<Written>, field: TypeBitField, glb: Architecture) -> Document {
    bitfield_written(
        start,
        field,
        glb,
        choose|steps: nat| #[trigger] bitfield_written(start, field, glb, steps) is Some,
    )->0
}

/// The document after a typedef is written.
pub open spec fn after_typedef(start: Seq<Written>, d: Datatype, glb: Architecture) -> Document {
    typedef_written(start, d, glb, choose|steps: nat| #[trigger] typedef_written(start, d, glb, steps) is Some)->0
}

/// Structures, unions and relative pointers have identifiers, so that they are written by name
/// wherever another data-type refers to them.
pub open spec fn compounds_named(types: TypeFactory) -> bool {
    forall|id: TypeId| #![trigger types.dt(id)]
        types.has(id) && (types.dt(id).kind is Struct || types.dt(id).kind is Union || types.dt(id).kind is PointerRel)
            ==> types.dt(id).id != 0
}

/// A reference ends: what has no name leads on to earlier data-types only.
proof fn reference_ends(start: Seq<Written>, id: TypeId, glb: Architecture, steps: nat)
    requires
        glb.types.sound(),
        compounds_named(glb.types),
        glb.types.has(id),
        steps >= id.0 + 1,
    ensures
        referred(start, glb.types.dt(id), glb, steps) is Some,
    decreases id.0,
{
    let types = glb.types;
    let d = types.dt(id);
    types.look(id);
    types.parts(d);
    if !goes_by_name(d) {
        let less = (steps - 1) as nat;
        if written_as_typedef(d) {
            let head = format_written(
                start.push(Written::Open(ELEM_DEF)).push(Written::Text(ATTRIB_NAME, d.name@)).push(
                    Written::Unsigned(ATTRIB_ID, d.id),
                ),
                d,
            );
            reference_ends(head.tokens, d.typedef_imm->0, glb, less);
            assert(typedef_written(start, d, glb, less) is Some);
        } else {
            let tokens = head_written(start, d, glb).tokens;
            match d.kind {
                TypeKind::Pointer(data) => {
                    reference_ends(tokens, data.ptrto->0, glb, less);
                },
                TypeKind::Array(data) => {
                    reference_ends(tokens, data.arrayof->0, glb, less);
                },
                TypeKind::PartialEnum(data) => {
                    reference_ends(tokens, data.parent, glb, less);
                },
                TypeKind::PartialUnion(data) => {
                    reference_ends(tokens, data.container, glb, less);
                },
                _ => {},
            }
        }
        assert(described(start, d, glb, steps) is Some);
    }
}

proof fn fields_end(
    start: Seq<Written>,
    fields: Seq<TypeField>,
    bits: Seq<TypeBitField>,
    i: nat,
    j: nat,
    glb: Architecture,
    steps: nat,
)
    requires
        glb.types.sound(),
        compounds_named(glb.types),
        forall|k: int| #![trigger fields[k]] 0 <= k < fields.len() ==> glb.types.has(fields[k].tp),
        forall|k: int| #![trigger bits[k]] 0 <= k < bits.len() ==> glb.types.has(bits[k].tp),
        steps >= glb.types.arena@.len() + 1,
        i <= fields.len(),
        j <= bits.len(),
    ensures
        fields_written(start, fields, bits, i, j, glb, steps) is Some,
    decreases (fields.len() - i) + (bits.len() - j),
{
    let field_next = i < fields.len() && (j >= bits.len() || fields[i as int].offset < bits[j as int].bits.byte_offset);
    if field_next {
        let field = fields[i as int];
        let head = start.push(Written::Open(ELEM_FIELD)).push(Written::Text(ATTRIB_NAME, field.name@)).push(
            Written::Signed(ATTRIB_OFFSET, field.offset as i64),
        );
        reference_ends(
            put_if(head, field.ident != field.offset, Written::Signed(ATTRIB_ID, field.ident as i64)),
            field.tp,
            glb,
            steps,
        );
        let doc = field_written(start, field, glb, steps)->0;
        fields_end(doc.tokens, fields, bits, i + 1, j, glb, steps);
    } else if j < bits.len() {
        let field = bits[j as int];
        let head = start.push(Written::Open(ELEM_BITFIELD)).push(Written::Text(ATTRIB_NAME, field.name@)).push(
            Written::Signed(ATTRIB_OFFSET, field.bits.byte_offset as i64),
        ).push(Written::Signed(ATTRIB_SIZE, field.bits.num_bits as i64)).push(
            Written::Signed(ATTRIB_FIRST, field.bits.least_sig_bit as i64),
        );
        reference_ends(head, field.tp, glb, steps);
        let doc = bitfield_written(start, field, glb, steps)->0;
        fields_end(doc.tokens, fields, bits, i, j + 1, glb, steps);
    }
}

proof fn description_ends(start: Seq<Written>, id: TypeId, glb: Architecture, steps: nat)
    requires
        glb.types.sound(),
        compounds_named(glb.types),
        glb.types.has(id),
        steps >= glb.types.arena@.len() + 2 + id.0,
    ensures
        described(start, glb.types.dt(id), glb, steps) is Some,
    decreases id.0,
{
    let types = glb.types;
    let d = types.dt(id);
    types.look(id);
    types.parts(d);
    let less = (steps - 1) as nat;
    let tokens = head_written(start, d, glb).tokens;
    if written_as_typedef(d) {
        let head = format_written(
            start.push(Written::Open(ELEM_DEF)).push(Written::Text(ATTRIB_NAME, d.name@)).push(
                Written::Unsigned(ATTRIB_ID, d.id),
            ),
            d,
        );
        reference_ends(head.tokens, d.typedef_imm->0, glb, less);
        assert(typedef_written(start, d, glb, less) is Some);
    } else {
        match d.kind {
            TypeKind::Pointer(data) => {
                reference_ends(tokens, data.ptrto->0, glb, less);
            },
            TypeKind::Array(data) => {
                reference_ends(tokens, data.arrayof->0, glb, less);
            },
            TypeKind::PartialEnum(data) => {
                reference_ends(tokens, data.parent, glb, less);
            },
            TypeKind::PartialUnion(data) => {
                reference_ends(tokens, data.container, glb, less);
            },
            TypeKind::Struct(data) => {
                fields_end(tokens, data.field@, data.bitfield@, 0, 0, glb, less);
            },
            TypeKind::Union(data) => {
                fields_end(tokens, data.field@, Seq::empty(), 0, 0, glb, less);
            },
            TypeKind::PointerRel(data) => {
                description_ends(tokens, data.pointer.ptrto->0, glb, less);
                let doc = described(tokens, types.dt(data.pointer.ptrto->0), glb, less)->0;
                reference_ends(doc.tokens, data.parent->0, glb, less);
                assert(referred(doc.tokens, types.dt(data.parent->0), glb, less) is Some);
            },
            _ => {},
        }
    }
}

/// All data-types of a factory can be written if its structures, unions and relative pointers
/// have identifiers.
pub proof fn named_compounds_are_writable(glb: Architecture)
    requires
        glb.types.sound(),
        compounds_named(glb.types),
    ensures
        all_writable(glb),
{
    assert forall|start: Seq<Written>, id: TypeId| glb.types.has(id) implies #[trigger] writable(
        start,
        glb.types.dt(id),
        glb,
    ) by {
        let steps: nat = (glb.types.arena@.len() + 2 + id.0) as nat;
        description_ends(start, id, glb, steps);
    }
}

/// What is asked of a program whose data-types are written.
pub open spec fn encodes(glb: Architecture) -> bool {
    &&& glb.types.sound()
    &&& scopes_owned(glb)
}

impl TypeField {
    fn encode_within(&self, encoder: &mut Encoder, glb: &Architecture, Ghost(steps): Ghost<nat>) -> (res: Result<()>)
        requires
            encodes(*glb),
            glb.types.has(self.tp),
            field_written(old(encoder)@, *self, *glb, steps) is Some,
        ensures
            final(encoder)@ == field_written(old(encoder)@, *self, *glb, steps)->0.tokens,
            field_written(old(encoder)@, *self, *glb, steps)->0.reported(res),
        decreases steps, 2nat, 0nat,
    {
        encoder.open_element(ELEM_FIELD);
        encoder.write_string(ATTRIB_NAME, self.name.as_str());
        encoder.write_signed_integer(ATTRIB_OFFSET, self.offset as i64);
        if self.ident != self.offset {
            encoder.write_signed_integer(ATTRIB_ID, self.ident as i64);
        }
        proof {
            glb.types.look(self.tp);
        }
        match glb.types.get(self.tp).encode_ref_within(encoder, glb, Ghost(steps)) {
            Ok(()) => {
                encoder.close_element(ELEM_FIELD);
                Ok(())
            },
            Err(e) => Err(e),
        }
    }

    pub fn encode(&self, encoder: &mut Encoder, glb: &Architecture) -> (res: Result<()>)
        requires
            encodes(*glb),
            glb.types.has(self.tp),
            exists|steps: nat| #[trigger] field_written(old(encoder)@, *self, *glb, steps) is Some,
        ensures
            final(encoder)@ == after_field(old(encoder)@, *self, *glb).tokens,
            after_field(old(encoder)@, *self, *glb).reported(res),
    {
        let ghost steps = choose|steps: nat| #[trigger] field_written(encoder@, *self, *glb, steps) is Some;
        self.encode_within(encoder, glb, Ghost(steps))
    }
}

impl TypeBitField {
    fn encode_within(&self, encoder: &mut Encoder, glb: &Architecture, Ghost(steps): Ghost<nat>) -> (res: Result<()>)
        requires
            encodes(*glb),
            glb.types.has(self.tp),
            bitfield_written(old(encoder)@, *self, *glb, steps) is Some,
        ensures
            final(encoder)@ == bitfield_written(old(encoder)@, *self, *glb, steps)->0.tokens,
            bitfield_written(old(encoder)@, *self, *glb, steps)->0.reported(res),
        decreases steps, 2nat, 0nat,
    {
        encoder.open_element(ELEM_BITFIELD);
        encoder.write_string(ATTRIB_NAME, self.name.as_str());
        encoder.write_signed_integer(ATTRIB_OFFSET, self.bits.byte_offset as i64);
        encoder.write_signed_integer(ATTRIB_SIZE, self.bits.num_bits as i64);
        encoder.write_signed_integer(ATTRIB_FIRST, self.bits.least_sig_bit as i64);
        proof {
            glb.types.look(self.tp);
        }
        match glb.types.get(self.tp).encode_ref_within(encoder, glb, Ghost(steps)) {
            Ok(()) => {
                encoder.close_element(ELEM_BITFIELD);
                Ok(())
            },
            Err(e) => Err(e),
        }
    }

    pub fn encode(&self, encoder: &mut Encoder, glb: &Architecture) -> (res: Result<()>)
        requires
            encodes(*glb),
            glb.types.has(self.tp),
            exists|steps: nat| #[trigger] bitfield_written(old(encoder)@, *self, *glb, steps) is Some,
        ensures
            final(encoder)@ == after_bitfield(old(encoder)@, *self, *glb).tokens,
            after_bitfield(old(encoder)@, *self, *glb).reported(res),
    {
        let ghost steps = choose|steps: nat| #[trigger] bitfield_written(encoder@, *self, *glb, steps) is Some;
        self.encode_within(encoder, glb, Ghost(steps))
    }
}

fn encode_fields(
    fields: &Vec<TypeField>,
    bits: &Vec<TypeBitField>,
    encoder: &mut Encoder,
    glb: &Architecture,
    Ghost(steps): Ghost<nat>,
) -> (res: Result<()>)
    requires
        encodes(*glb),
        forall|i: int| 0 <= i < fields@.len() ==> glb.types.has((#[trigger] fields@[i]).tp),
        forall|i: int| 0 <= i < bits@.len() ==> glb.types.has((#[trigger] bits@[i]).tp),
        fields_written(old(encoder)@, fields@, bits@, 0, 0, *glb, steps) is Some,
    ensures
        final(encoder)@ == fields_written(old(encoder)@, fields@, bits@, 0, 0, *glb, steps)->0.tokens,
        fields_written(old(encoder)@, fields@, bits@, 0, 0, *glb, steps)->0.reported(res),
    decreases steps, 3nat, 0nat,
{
    let ghost whole = fields_written(encoder@, fields@, bits@, 0, 0, *glb, steps);
    let mut i: usize = 0;
    let mut j: usize = 0;
    while i < fields.len() || j < bits.len()
        invariant
            encodes(*glb),
            i <= fields@.len(),
            j <= bits@.len(),
            forall|i: int| 0 <= i < fields@.len() ==> glb.types.has((#[trigger] fields@[i]).tp),
            forall|i: int| 0 <= i < bits@.len() ==> glb.types.has((#[trigger] bits@[i]).tp),
            whole is Some,
            whole == fields_written(old(encoder)@, fields@, bits@, 0, 0, *glb, steps),
            whole == fields_written(encoder@, fields@, bits@, i as nat, j as nat, *glb, steps),
        decreases (fields@.len() - i) + (bits@.len() - j),
    {
        let field_next = i < fields.len() && (j >= bits.len() || fields[i].offset < bits[j].bits.byte_offset);
        if field_next {
            match fields[i].encode_within(encoder, glb, Ghost(steps)) {
                Ok(()) => {
                    i = i + 1;
                },
                Err(e) => {
                    return Err(e);
                },
            }
        } else {
            match bits[j].encode_within(encoder, glb, Ghost(steps)) {
                Ok(()) => {
                    j = j + 1;
                },
                Err(e) => {
                    return Err(e);
                },
            }
        }
    }
    Ok(())
}

impl Datatype {
    fn encode_ref_within(&self, encoder: &mut Encoder, glb: &Architecture, Ghost(steps): Ghost<nat>) -> (res: Result<()>)
        requires
            encodes(*glb),
            glb.types.valid(*self),
            referred(old(encoder)@, *self, *glb, steps) is Some,
        ensures
            final(encoder)@ == referred(old(encoder)@, *self, *glb, steps)->0.tokens,
            referred(old(encoder)@, *self, *glb, steps)->0.reported(res),
        decreases steps, 1nat, 0nat,
    {
        if self.id != 0 && self.metatype != TypeMetatype::Void {
            encoder.open_element(ELEM_TYPEREF);
            encoder.write_string(ATTRIB_NAME, self.name.as_str());
            if self.is_variable_length() {
                encoder.write_unsigned_integer(ATTRIB_ID, Datatype::hash_size(self.id, self.size));
                encoder.write_signed_integer(ATTRIB_SIZE, self.size as i64);
            } else {
                encoder.write_unsigned_integer(ATTRIB_ID, self.id);
            }
            encoder.close_element(ELEM_TYPEREF);
            Ok(())
        } else {
            self.encode_within(encoder, glb, Ghost(steps))
        }
    }

    /// Writes a data-type by its name, or in full where it has none.
    pub fn encode_ref(&self, encoder: &mut Encoder, glb: &Architecture) -> (res: Result<()>)
        requires
            encodes(*glb),
            glb.types.valid(*self),
            referable(old(encoder)@, *self, *glb),
        ensures
            final(encoder)@ == after_reference(old(encoder)@, *self, *glb).tokens,
            after_reference(old(encoder)@, *self, *glb).reported(res),
    {
        let ghost steps = choose|steps: nat| #[trigger] referred(encoder@, *self, *glb, steps) is Some;
        self.encode_ref_within(encoder, glb, Ghost(steps))
    }

    fn encode_typedef_within(&self, encoder: &mut Encoder, glb: &Architecture, Ghost(steps): Ghost<nat>) -> (res: Result<
        (),
    >)
        requires
            encodes(*glb),
            glb.types.valid(*self),
            self.typedef_imm is Some,
            typedef_written(old(encoder)@, *self, *glb, steps) is Some,
        ensures
            final(encoder)@ == typedef_written(old(encoder)@, *self, *glb, steps)->0.tokens,
            typedef_written(old(encoder)@, *self, *glb, steps)->0.reported(res),
        decreases steps, 2nat, 0nat,
    {
        proof {
            glb.types.parts(*self);
        }
        encoder.open_element(ELEM_DEF);
        encoder.write_string(ATTRIB_NAME, self.name.as_str());
        encoder.write_unsigned_integer(ATTRIB_ID, self.id);
        match self.encode_format(encoder) {
            Ok(()) => {},
            Err(e) => {
                return Err(e);
            },
        }
        let typedef_imm = self.typedef_imm.unwrap();
        proof {
            glb.types.look(typedef_imm);
        }
        match glb.types.get(typedef_imm).encode_ref_within(encoder, glb, Ghost(steps)) {
            Ok(()) => {
                encoder.close_element(ELEM_DEF);
                Ok(())
            },
            Err(e) => Err(e),
        }
    }

    /// Writes a typedef.
    pub fn encode_typedef(&self, encoder: &mut Encoder, glb: &Architecture) -> (res: Result<()>)
        requires
            encodes(*glb),
            glb.types.valid(*self),
            self.typedef_imm is Some,
            exists|steps: nat| #[trigger] typedef_written(old(encoder)@, *self, *glb, steps) is Some,
        ensures
            final(encoder)@ == after_typedef(old(encoder)@, *self, *glb).tokens,
            after_typedef(old(encoder)@, *self, *glb).reported(res),
    {
        let ghost steps = choose|steps: nat| #[trigger] typedef_written(encoder@, *self, *glb, steps) is Some;
        self.encode_typedef_within(encoder, glb, Ghost(steps))
    }

    /// Writes what a data-type has of its own.
    fn encode_head(&self, encoder: &mut Encoder, glb: &Architecture) -> (res: Result<()>)
        requires
            encodes(*glb),
            glb.types.valid(*self),
        ensures
            final(encoder)@ == head_written(old(encoder)@, *self, *glb).tokens,
            head_written(old(encoder)@, *self, *glb).reported(res),
    {
        proof {
            glb.types.parts(*self);
        }
        let meta = match &self.kind {
            TypeKind::Enum(_) => if self.metatype == TypeMetatype::Int {
                TypeMetatype::EnumInt
            } else {
                TypeMetatype::EnumUint
            },
            TypeKind::PartialEnum(_) => TypeMetatype::PartialEnum,
            TypeKind::PointerRel(_) => TypeMetatype::PtrRel,
            _ => self.metatype,
        };
        let align: i32 = match &self.kind {
            TypeKind::Struct(_) => self.alignment,
            TypeKind::Union(_) => self.alignment,
            _ => -1,
        };
        encoder.open_element(ELEM_TYPE);
        match self.encode_basic(meta, align, encoder) {
            Ok(()) => {},
            Err(e) => {
                return Err(e);
            },
        }
        match &self.kind {
            TypeKind::Char => {
                encoder.write_bool(ATTRIB_CHAR, true);
            },
            TypeKind::Unicode => {
                encoder.write_bool(ATTRIB_UTF, true);
            },
            TypeKind::Pointer(data) => {
                if data.wordsize != 1 {
                    encoder.write_unsigned_integer(ATTRIB_WORDSIZE, data.wordsize as u64);
                }
                if let Some(spc) = &data.spaceid {
                    encoder.write_space(ATTRIB_SPACE, spc);
                }
            },
            TypeKind::PointerRel(data) => {
                if data.pointer.wordsize != 1 {
                    encoder.write_unsigned_integer(ATTRIB_WORDSIZE, data.pointer.wordsize as u64);
                }
            },
            TypeKind::Array(data) => {
                encoder.write_signed_integer(ATTRIB_ARRAYSIZE, data.arraysize as i64);
            },
            TypeKind::Enum(data) => {
                encode_values(&data.namemap.entries, encoder);
            },
            TypeKind::PartialEnum(data) => {
                encoder.write_signed_integer(ATTRIB_OFFSET, data.offset as i64);
            },
            TypeKind::PartialUnion(data) => {
                encoder.write_signed_integer(ATTRIB_OFFSET, data.offset as i64);
            },
            TypeKind::Code(data) => {
                if let Some(proto) = &data.proto {
                    encoder.write_prototype(proto);
                }
            },
            TypeKind::Spacebase(data) => {
                if let Some(spc) = &data.spaceid {
                    encoder.write_space(ATTRIB_SPACE, spc);
                }
                match self.get_map(glb) {
                    Ok(scope) => {
                        let scope_data = glb.symboltab.get_scope(scope);
                        if scope_data.is_global {
                            encoder.write_address(&Address::invalid());
                        } else if let Some(frame) = &scope_data.function {
                            encoder.write_address(frame);
                        }
                    },
                    Err(e) => {
                        return Err(e);
                    },
                }
            },
            _ => {},
        }
        Ok(())
    }

    fn encode_within(&self, encoder: &mut Encoder, glb: &Architecture, Ghost(steps): Ghost<nat>) -> (res: Result<()>)
        requires
            encodes(*glb),
            glb.types.valid(*self),
            described(old(encoder)@, *self, *glb, steps) is Some,
        ensures
            final(encoder)@ == described(old(encoder)@, *self, *glb, steps)->0.tokens,
            described(old(encoder)@, *self, *glb, steps)->0.reported(res),
        decreases steps, 0nat, 0nat,
    {
        let ghost less = (steps - 1) as nat;
        let types = &glb.types;
        proof {
            types.parts(*self);
        }
        let plain = match &self.kind {
            TypeKind::PartialEnum(_)
            | TypeKind::PartialUnion(_)
            | TypeKind::PointerRel(_)
            | TypeKind::Base
            | TypeKind::PartialStruct(_) => true,
            _ => false,
        };
        if self.typedef_imm.is_some() && !plain {
            return self.encode_typedef_within(encoder, glb, Ghost(less));
        }
        if let TypeKind::Void = &self.kind {
            encoder.open_element(ELEM_VOID);
            encoder.close_element(ELEM_VOID);
            return Ok(());
        }
        match self.encode_head(encoder, glb) {
            Ok(()) => {},
            Err(e) => {
                return Err(e);
            },
        }
        let inside = match &self.kind {
            TypeKind::Pointer(data) => types.get(data.ptrto.unwrap()).encode_ref_within(encoder, glb, Ghost(less)),
            TypeKind::Array(data) => types.get(data.arrayof.unwrap()).encode_ref_within(encoder, glb, Ghost(less)),
            TypeKind::Struct(data) => encode_fields(&data.field, &data.bitfield, encoder, glb, Ghost(less)),
            TypeKind::Union(data) => {
                let none: Vec<TypeBitField> = Vec::new();
                assert(none@ =~= Seq::empty());
                encode_fields(&data.field, &none, encoder, glb, Ghost(less))
            },
            TypeKind::PartialEnum(data) => types.get(data.parent).encode_ref_within(encoder, glb, Ghost(less)),
            TypeKind::PartialUnion(data) => types.get(data.container).encode_ref_within(encoder, glb, Ghost(less)),
            TypeKind::PointerRel(data) => {
                match types.get(data.pointer.ptrto.unwrap()).encode_within(encoder, glb, Ghost(less)) {
                    Ok(()) => {},
                    Err(e) => {
                        return Err(e);
                    },
                }
                match types.get(data.parent.unwrap()).encode_ref_within(encoder, glb, Ghost(less)) {
                    Ok(()) => {},
                    Err(e) => {
                        return Err(e);
                    },
                }
                encoder.open_element(ELEM_OFF);
                encoder.write_signed_integer(ATTRIB_CONTENT, data.offset as i64);
                encoder.close_element(ELEM_OFF);
                Ok(())
            },
            _ => Ok(()),
        };
        match inside {
            Ok(()) => {
                encoder.close_element(ELEM_TYPE);
                Ok(())
            },
            Err(e) => Err(e),
        }
    }

    /// Writes a data-type in full.
    pub fn encode(&self, encoder: &mut Encoder, glb: &Architecture) -> (res: Result<()>)
        requires
            encodes(*glb),
            glb.types.valid(*self),
            writable(old(encoder)@, *self, *glb),
        ensures
            final(encoder)@ == after_type(old(encoder)@, *self, *glb).tokens,
            after_type(old(encoder)@, *self, *glb).reported(res),
    {
        let ghost steps = choose|steps: nat| #[trigger] described(encoder@, *self, *glb, steps) is Some;
        self.encode_within(encoder, glb, Ghost(steps))
    }
}

fn encode_values(list: &Vec<NamedValue>, encoder: &mut Encoder)
    ensures
        final(encoder)@ == values_written(old(encoder)@, list@, 0),
{
    let mut i: usize = 0;
    while i < list.len()
        invariant
            i <= list@.len(),
            values_written(encoder@, list@, i as nat) == values_written(old(encoder)@, list@, 0),
        decreases list@.len() - i,
    {
        encoder.open_element(ELEM_VAL);
        encoder.write_string(ATTRIB_NAME, list[i].name.as_str());
        encoder.write_unsigned_integer(ATTRIB_VALUE, list[i].value);
        encoder.close_element(ELEM_VAL);
        i = i + 1;
    }
}

/// What is written by reference does not depend on how many steps are allowed.
proof fn referred_agrees(start: Seq<Written>, d: Datatype, glb: Architecture, few: nat, many: nat)
    requires
        few <= many,
        referred(start, d, glb, few) is Some,
    ensures
        referred(start, d, glb, many) == referred(start, d, glb, few),
    decreases few, 1nat, 0nat,
{
    if !goes_by_name(d) {
        steps_agree(start, d, glb, few, many);
    }
}

proof fn field_agrees(start: Seq<Written>, field: TypeField, glb: Architecture, few: nat, many: nat)
    requires
        few <= many,
        field_written(start, field, glb, few) is Some,
    ensures
        field_written(start, field, glb, many) == field_written(start, field, glb, few),
    decreases few, 2nat, 0nat,
{
    let head = start.push(Written::Open(ELEM_FIELD)).push(Written::Text(ATTRIB_NAME, field.name@)).push(
        Written::Signed(ATTRIB_OFFSET, field.offset as i64),
    );
    let whole = put_if(head, field.ident != field.offset, Written::Signed(ATTRIB_ID, field.ident as i64));
    referred_agrees(whole, glb.types.dt(field.tp), glb, few, many);
}

proof fn bitfield_agrees(start: Seq<Written>, field: TypeBitField, glb: Architecture, few: nat, many: nat)
    requires
        few <= many,
        bitfield_written(start, field, glb, few) is Some,
    ensures
        bitfield_written(start, field, glb, many) == bitfield_written(start, field, glb, few),
    decreases few, 2nat, 0nat,
{
    let head = start.push(Written::Open(ELEM_BITFIELD)).push(Written::Text(ATTRIB_NAME, field.name@)).push(
        Written::Signed(ATTRIB_OFFSET, field.bits.byte_offset as i64),
    ).push(Written::Signed(ATTRIB_SIZE, field.bits.num_bits as i64)).push(
        Written::Signed(ATTRIB_FIRST, field.bits.least_sig_bit as i64),
    );
    referred_agrees(head, glb.types.dt(field.tp), glb, few, many);
}

proof fn typedef_agrees(start: Seq<Written>, d: Datatype, glb: Architecture, few: nat, many: nat)
    requires
        few <= many,
        typedef_written(start, d, glb, few) is Some,
    ensures
        typedef_written(start, d, glb, many) == typedef_written(start, d, glb, few),
    decreases few, 2nat, 0nat,
{
    let head = format_written(
        start.push(Written::Open(ELEM_DEF)).push(Written::Text(ATTRIB_NAME, d.name@)).push(
            Written::Unsigned(ATTRIB_ID, d.id),
        ),
        d,
    );
    if head.error is None {
        referred_agrees(head.tokens, glb.types.dt(d.typedef_imm->0), glb, few, many);
    }
}

proof fn fields_agree(
    start: Seq<Written>,
    fields: Seq<TypeField>,
    bits: Seq<TypeBitField>,
    i: nat,
    j: nat,
    glb: Architecture,
    few: nat,
    many: nat,
)
    requires
        few <= many,
        fields_written(start, fields, bits, i, j, glb, few) is Some,
    ensures
        fields_written(start, fields, bits, i, j, glb, many) == fields_written(start, fields, bits, i, j, glb, few),
    decreases few, 3nat, (fields.len() - i) + (bits.len() - j),
{
    let field_next = i < fields.len() && (j >= bits.len() || fields[i as int].offset < bits[j as int].bits.byte_offset);
    if field_next && j <= bits.len() {
        let field = fields[i as int];
        field_agrees(start, field, glb, few, many);
        let doc = field_written(start, field, glb, few)->0;
        if doc.error is None {
            fields_agree(doc.tokens, fields, bits, i + 1, j, glb, few, many);
        }
    } else if j < bits.len() && i <= fields.len() {
        let field = bits[j as int];
        bitfield_agrees(start, field, glb, few, many);
        let doc = bitfield_written(start, field, glb, few)->0;
        if doc.error is None {
            fields_agree(doc.tokens, fields, bits, i, j + 1, glb, few, many);
        }
    }
}

/// How a data-type is written does not depend on how many steps are allowed, once they
/// are enough: whatever writes it in full within a number of steps writes the same within
/// any larger number.
pub proof fn steps_agree(start: Seq<Written>, d: Datatype, glb: Architecture, few: nat, many: nat)
    requires
        few <= many,
        described(start, d, glb, few) is Some,
    ensures
        described(start, d, glb, many) == described(start, d, glb, few),
    decreases few, 0nat, 0nat,
{
    let types = glb.types;
    let less = (few - 1) as nat;
    let more = (many - 1) as nat;
    if written_as_typedef(d) {
        typedef_agrees(start, d, glb, less, more);
    } else if !(d.kind is Void) {
        let head = head_written(start, d, glb);
        if head.error is None {
            let tokens = head.tokens;
            match d.kind {
                TypeKind::Pointer(data) => referred_agrees(tokens, types.dt(data.ptrto->0), glb, less, more),
                TypeKind::Array(data) => referred_agrees(tokens, types.dt(data.arrayof->0), glb, less, more),
                TypeKind::Struct(data) => fields_agree(tokens, data.field@, data.bitfield@, 0, 0, glb, less, more),
                TypeKind::Union(data) => fields_agree(tokens, data.field@, Seq::empty(), 0, 0, glb, less, more),
                TypeKind::PartialEnum(data) => referred_agrees(tokens, types.dt(data.parent), glb, less, more),
                TypeKind::PartialUnion(data) => referred_agrees(tokens, types.dt(data.container), glb, less, more),
                TypeKind::PointerRel(data) => {
                    let target = types.dt(data.pointer.ptrto->0);
                    steps_agree(tokens, target, glb, less, more);
                    let doc = described(tokens, target, glb, less)->0;
                    if doc.error is None {
                        referred_agrees(doc.tokens, types.dt(data.parent->0), glb, less, more);
                    }
                },
                _ => {},
            }
        }
    }
}

/// A data-type that goes by its name is written as one element, whatever it is made of.
pub proof fn names_are_enough(start: Seq<Written>, d: Datatype, glb: Architecture)
    requires
        goes_by_name(d),
    ensures
        referable(start, d, glb),
        after_reference(start, d, glb) == Document::fine(name_written(start, d)),
{
    assert(referred(start, d, glb, 0) is Some);
}

/// A data-type has no name or is one of the basic ones that every program has.
pub open spec fn left_out(d: Datatype) -> bool {
    d.name@.len() == 0 || (d.flag(Datatype::CORETYPE) && !built_up(d.metatype))
}

/// A class whose data-types are made of others.
pub open spec fn built_up(meta: TypeMetatype) -> bool {
    meta == TypeMetatype::Ptr || meta == TypeMetatype::Array || meta == TypeMetatype::Struct || meta
        == TypeMetatype::Union
}

/// A data-type is one of the basic ones that every program has.
pub open spec fn basic_one(d: Datatype) -> bool {
    d.flag(Datatype::CORETYPE) && !built_up(d.metatype)
}

/// The document after the wanted ones among data-types are written, from one of them on.
pub open spec fn types_written(
    start: Seq<Written>,
    list: Seq<TypeId>,
    wanted: spec_fn(Datatype) -> bool,
    i: nat,
    glb: Architecture,
) -> Document
    decreases list.len() - i,
{
    if i >= list.len() {
        Document::fine(start)
    } else {
        let d = glb.types.dt(list[i as int]);
        if !wanted(d) {
            types_written(start, list, wanted, i + 1, glb)
        } else {
            let doc = after_type(start, d, glb);
            if doc.error is None {
                types_written(doc.tokens, list, wanted, i + 1, glb)
            } else {
                doc
            }
        }
    }
}

/// The document after an element with data-types in it is written.
pub open spec fn group_written(
    start: Seq<Written>,
    elem: u32,
    list: Seq<TypeId>,
    wanted: spec_fn(Datatype) -> bool,
    glb: Architecture,
) -> Document {
    closed(Some(types_written(start.push(Written::Open(elem)), list, wanted, 0, glb)), elem)->0
}

/// Writing any data-type of the program ends.
pub open spec fn all_writable(glb: Architecture) -> bool {
    forall|start: Seq<Written>, id: TypeId| glb.types.has(id) ==> #[trigger] writable(start, glb.types.dt(id), glb)
}

impl TypeFactory {
    /// Writes all data-types but the basic ones, each after what it is made of.
    pub fn encode(&self, encoder: &mut Encoder, glb: &Architecture) -> (res: Result<()>)
        requires
            *self == glb.types,
            encodes(*glb),
            all_writable(*glb),
        ensures
            ({
                let order = crate::types::order::visited_tree(
                    *self,
                    crate::types::order::Visit { seen: Set::empty(), order: Seq::empty() },
                    self.tree@.len(),
                ).order;
                let doc = group_written(
                    old(encoder)@,
                    ELEM_TYPEGRP,
                    order,
                    |d: Datatype| !left_out(d),
                    *glb,
                );
                final(encoder)@ == doc.tokens && doc.reported(res)
            }),
    {
        let mut deporder: Vec<TypeId> = Vec::new();
        assert(deporder@ =~= Seq::empty());
        self.dependent_order(&mut deporder);
        encoder.open_element(ELEM_TYPEGRP);
        let ghost wanted = |d: Datatype| !left_out(d);
        let ghost whole = types_written(encoder@, deporder@, wanted, 0, *glb);
        let mut i: usize = 0;
        while i < deporder.len()
            invariant
                *self == glb.types,
                encodes(*glb),
                all_writable(*glb),
                i <= deporder@.len(),
                deporder@ == crate::types::order::visited_tree(
                    *self,
                    crate::types::order::Visit { seen: Set::empty(), order: Seq::empty() },
                    self.tree@.len(),
                ).order,
                wanted == (|d: Datatype| !left_out(d)),
                forall|k: int| 0 <= k < deporder@.len() ==> self.has(#[trigger] deporder@[k]),
                whole == types_written(encoder@, deporder@, wanted, i as nat, *glb),
                whole == types_written(old(encoder)@.push(Written::Open(ELEM_TYPEGRP)), deporder@, wanted, 0, *glb),
            decreases deporder@.len() - i,
        {
            let id = deporder[i];
            proof {
                self.look(id);
                assert(writable(encoder@, glb.types.dt(id), *glb));
            }
            let dt = self.get(id);
            let meta = dt.get_metatype();
            let made = meta == TypeMetatype::Ptr || meta == TypeMetatype::Array || meta == TypeMetatype::Struct || meta
                == TypeMetatype::Union;
            if !is_empty_text(dt.get_name()) && (!dt.is_core_type() || made) {
                match dt.encode(encoder, glb) {
                    Ok(()) => {},
                    Err(e) => {
                        return Err(e);
                    },
                }
            }
            i = i + 1;
        }
        encoder.close_element(ELEM_TYPEGRP);
        Ok(())
    }

    /// Writes the basic data-types.
    pub fn encode_core_types(&self, encoder: &mut Encoder, glb: &Architecture) -> (res: Result<()>)
        requires
            *self == glb.types,
            encodes(*glb),
            all_writable(*glb),
        ensures
            ({
                let doc = group_written(
                    old(encoder)@,
                    ELEM_CORETYPES,
                    self.tree@,
                    |d: Datatype| basic_one(d),
                    *glb,
                );
                final(encoder)@ == doc.tokens && doc.reported(res)
            }),
    {
        encoder.open_element(ELEM_CORETYPES);
        let ghost wanted = |d: Datatype| basic_one(d);
        let ghost whole = types_written(encoder@, self.tree@, wanted, 0, *glb);
        let mut i: usize = 0;
        while i < self.tree.len()
            invariant
                *self == glb.types,
                encodes(*glb),
                all_writable(*glb),
                i <= self.tree@.len(),
                wanted == (|d: Datatype| basic_one(d)),
                whole == types_written(encoder@, self.tree@, wanted, i as nat, *glb),
                whole == types_written(old(encoder)@.push(Written::Open(ELEM_CORETYPES)), self.tree@, wanted, 0, *glb),
            decreases self.tree@.len() - i,
        {
            let id = self.tree[i];
            proof {
                self.tree_names_members(i as int);
                self.look(id);
                assert(writable(encoder@, glb.types.dt(id), *glb));
            }
            let dt = self.get(id);
            let meta = dt.get_metatype();
            let made = meta == TypeMetatype::Ptr || meta == TypeMetatype::Array || meta == TypeMetatype::Struct || meta
                == TypeMetatype::Union;
            if dt.is_core_type() && !made {
                match dt.encode(encoder, glb) {
                    Ok(()) => {},
                    Err(e) => {
                        return Err(e);
                    },
                }
            }
            i = i + 1;
        }
        encoder.close_element(ELEM_CORETYPES);
        Ok(())
    }
}

} // verus!

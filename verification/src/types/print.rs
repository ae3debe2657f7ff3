//! Data-types and their classes as text.
use vstd::prelude::*;
use crate::address::Address;
use crate::error::{Error, Result};
use crate::text::{push_decimal, push_hex_padded, same_text};
use crate::types::{Datatype, TypeClass, TypeFactory, TypeKind, TypeMetatype};

verus! {

/// Whether a byte stands for a printable character.
pub open spec fn printable(byte: u8) -> bool {
    0x20 <= byte < 0x7f
}

/// A byte as a character, with a dot for what cannot be printed.
pub open spec fn shown(byte: u8) -> char {
    if printable(byte) {
        byte as char
    } else {
        '.'
    }
}

/// The first `n` columns of bytes in a line of a dump.
pub open spec fn dump_bytes(buffer: Seq<u8>, addr: int, end: int, start: int, n: nat) -> Seq<char>
    decreases n,
{
    if n == 0 {
        Seq::empty()
    } else {
        let cur = start + n - 1;
        dump_bytes(buffer, addr, end, start, (n - 1) as nat) + (if cur < addr || cur >= end {
            "   "@
        } else {
            crate::text::zero_padded(crate::text::hexadecimal(buffer[cur - addr] as nat), 2).push(' ')
        })
    }
}

/// The first `n` columns of characters in a line of a dump.
pub open spec fn dump_chars(buffer: Seq<u8>, addr: int, end: int, start: int, n: nat) -> Seq<char>
    decreases n,
{
    if n == 0 {
        Seq::empty()
    } else {
        let cur = start + n - 1;
        dump_chars(buffer, addr, end, start, (n - 1) as nat).push(
            if cur < addr || cur >= end {
                ' '
            } else {
                shown(buffer[cur - addr])
            },
        )
    }
}

/// One line of a dump: the address, sixteen bytes and their characters.
pub open spec fn dump_line(buffer: Seq<u8>, addr: int, end: int, start: int) -> Seq<char> {
    crate::text::zero_padded(crate::text::hexadecimal(start as nat), 8) + ": "@ + dump_bytes(
        buffer,
        addr,
        end,
        start,
        16,
    ) + "  "@ + dump_chars(buffer, addr, end, start, 16) + seq!['\n']
}

/// The lines of a dump from the given address on.
pub open spec fn dump_lines(buffer: Seq<u8>, addr: int, end: int, start: int) -> Seq<char>
    decreases (if start < end { end - start } else { 0 }),
{
    if start < end {
        dump_line(buffer, addr, end, start) + dump_lines(buffer, addr, end, start + 16)
    } else {
        Seq::empty()
    }
}

fn shown_char(byte: u8) -> (res: char)
    ensures
        res == shown(byte),
{
    if 0x20 <= byte && byte < 0x7f {
        byte as char
    } else {
        '.'
    }
}

fn print_line(out: &mut String, buffer: &[u8], addr: u64, end: u64, start: u64)
    requires
        start <= u64::MAX - 16,
        end <= addr || buffer@.len() >= end - addr,
    ensures
        final(out)@ == old(out)@ + dump_line(buffer@, addr as int, end as int, start as int),
{
    push_hex_padded(out, start, 8);
    out.push_str(": ");
    let ghost head = out@;
    let mut index: u64 = 0;
    while index < 16
        invariant
            index <= 16,
            start <= u64::MAX - 16,
            end <= addr || buffer@.len() >= end - addr,
            out@ == head + dump_bytes(buffer@, addr as int, end as int, start as int, index as nat),
        decreases 16 - index,
    {
        let cur: u64 = start + index;
        let ghost before = out@;
        if cur < addr || cur >= end {
            out.push_str("   ");
        } else {
            push_hex_padded(out, buffer[(cur - addr) as usize] as u64, 2);
            out.push(' ');
        }
        index = index + 1;
        assert(out@ =~= head + dump_bytes(buffer@, addr as int, end as int, start as int, index as nat));
    }
    out.push_str("  ");
    let ghost middle = out@;
    index = 0;
    while index < 16
        invariant
            index <= 16,
            start <= u64::MAX - 16,
            end <= addr || buffer@.len() >= end - addr,
            out@ == middle + dump_chars(buffer@, addr as int, end as int, start as int, index as nat),
        decreases 16 - index,
    {
        let cur: u64 = start + index;
        if cur < addr || cur >= end {
            out.push(' ');
        } else {
            out.push(shown_char(buffer[(cur - addr) as usize]));
        }
        index = index + 1;
        assert(out@ =~= middle + dump_chars(buffer@, addr as int, end as int, start as int, index as nat));
    }
    out.push('\n');
    assert(out@ =~= old(out)@ + dump_line(buffer@, addr as int, end as int, start as int));
}

/// Dumps bytes that start at an address, sixteen to a line.
pub fn print_data(out: &mut String, buffer: Option<&[u8]>, size: i32, baseaddr: &Address)
    requires
        buffer is Some ==> {
            let end = baseaddr.offset.wrapping_add(size as i64 as u64);
            &&& end <= u64::MAX - 32
            &&& end <= baseaddr.offset || buffer->0@.len() >= end - baseaddr.offset
        },
    ensures
        final(out)@ == old(out)@ + (match buffer {
            Some(bytes) => dump_lines(
                bytes@,
                baseaddr.offset as int,
                baseaddr.offset.wrapping_add(size as i64 as u64) as int,
                (baseaddr.offset & !0xfu64) as int,
            ),
            None => "Address not present in binary image\n"@,
        }),
{
    match buffer {
        None => {
            out.push_str("Address not present in binary image\n");
        },
        Some(bytes) => {
            let addr: u64 = baseaddr.get_offset();
            let end: u64 = addr.wrapping_add(size as i64 as u64);
            let first: u64 = addr & !0xfu64;
            let mut start: u64 = first;
            while start < end
                invariant
                    end <= u64::MAX - 32,
                    end <= addr || bytes@.len() >= end - addr,
                    out@ + dump_lines(bytes@, addr as int, end as int, start as int) == old(out)@ + dump_lines(
                        bytes@,
                        addr as int,
                        end as int,
                        first as int,
                    ),
                decreases end as int + 16 - start,
            {
                let ghost before = out@;
                print_line(out, bytes, addr, end, start);
                start = start + 16;
                assert(out@ + dump_lines(bytes@, addr as int, end as int, start as int) =~= before + dump_lines(
                    bytes@,
                    addr as int,
                    end as int,
                    start - 16,
                ));
            }
            assert(out@ =~= out@ + dump_lines(bytes@, addr as int, end as int, start as int));
        },
    }
}

/// The name of a class.
pub open spec fn meta_name(meta: TypeMetatype) -> Seq<char> {
    match meta {
        TypeMetatype::Void => "void"@,
        TypeMetatype::Ptr => "ptr"@,
        TypeMetatype::PtrRel => "ptrrel"@,
        TypeMetatype::Array => "array"@,
        TypeMetatype::PartialEnum => "partenum"@,
        TypeMetatype::PartialStruct => "partstruct"@,
        TypeMetatype::PartialUnion => "partunion"@,
        TypeMetatype::EnumInt => "enum_int"@,
        TypeMetatype::EnumUint => "enum_uint"@,
        TypeMetatype::Struct => "struct"@,
        TypeMetatype::Union => "union"@,
        TypeMetatype::Spacebase => "spacebase"@,
        TypeMetatype::Unknown => "unknown"@,
        TypeMetatype::Uint => "uint"@,
        TypeMetatype::Int => "int"@,
        TypeMetatype::Bool => "bool"@,
        TypeMetatype::Code => "code"@,
        TypeMetatype::Float => "float"@,
    }
}

/// The name of a class.
pub fn metatype2string(metatype: TypeMetatype) -> (res: Result<String>)
    ensures
        res matches Ok(name) && name@ == meta_name(metatype),
{
    let res = match metatype {
        TypeMetatype::Void => "void",
        TypeMetatype::Ptr => "ptr",
        TypeMetatype::PtrRel => "ptrrel",
        TypeMetatype::Array => "array",
        TypeMetatype::PartialEnum => "partenum",
        TypeMetatype::PartialStruct => "partstruct",
        TypeMetatype::PartialUnion => "partunion",
        TypeMetatype::EnumInt => "enum_int",
        TypeMetatype::EnumUint => "enum_uint",
        TypeMetatype::Struct => "struct",
        TypeMetatype::Union => "union",
        TypeMetatype::Spacebase => "spacebase",
        TypeMetatype::Unknown => "unknown",
        TypeMetatype::Uint => "uint",
        TypeMetatype::Int => "int",
        TypeMetatype::Bool => "bool",
        TypeMetatype::Code => "code",
        TypeMetatype::Float => "float",
    };
    Ok(res.to_owned())
}

/// The class that a name stands for. The class of parts of enumerations is not
/// known by its name.
pub open spec fn named_meta(name: Seq<char>) -> Option<TypeMetatype> {
    if name == "ptr"@ {
        Some(TypeMetatype::Ptr)
    } else if name == "ptrrel"@ {
        Some(TypeMetatype::PtrRel)
    } else if name == "partunion"@ {
        Some(TypeMetatype::PartialUnion)
    } else if name == "partstruct"@ {
        Some(TypeMetatype::PartialStruct)
    } else if name == "array"@ {
        Some(TypeMetatype::Array)
    } else if name == "enum_int"@ {
        Some(TypeMetatype::EnumInt)
    } else if name == "enum_uint"@ {
        Some(TypeMetatype::EnumUint)
    } else if name == "struct"@ {
        Some(TypeMetatype::Struct)
    } else if name == "spacebase"@ {
        Some(TypeMetatype::Spacebase)
    } else if name == "unknown"@ {
        Some(TypeMetatype::Unknown)
    } else if name == "uint"@ {
        Some(TypeMetatype::Uint)
    } else if name == "union"@ {
        Some(TypeMetatype::Union)
    } else if name == "int"@ {
        Some(TypeMetatype::Int)
    } else if name == "float"@ {
        Some(TypeMetatype::Float)
    } else if name == "bool"@ {
        Some(TypeMetatype::Bool)
    } else if name == "code"@ {
        Some(TypeMetatype::Code)
    } else if name == "void"@ {
        Some(TypeMetatype::Void)
    } else {
        None
    }
}

/// The name of every class but that of parts of enumerations leads back to it.
pub proof fn class_names_round_trip(meta: TypeMetatype)
    requires
        !(meta is PartialEnum),
    ensures
        named_meta(meta_name(meta)) == Some(meta),
{
    reveal_strlit("ptr");
    reveal_strlit("ptrrel");
    reveal_strlit("partunion");
    reveal_strlit("partstruct");
    reveal_strlit("array");
    reveal_strlit("enum_int");
    reveal_strlit("enum_uint");
    reveal_strlit("struct");
    reveal_strlit("spacebase");
    reveal_strlit("unknown");
    reveal_strlit("uint");
    reveal_strlit("union");
    reveal_strlit("int");
    reveal_strlit("float");
    reveal_strlit("bool");
    reveal_strlit("code");
    reveal_strlit("void");
    assert("ptr"@.len() == 3 && "int"@.len() == 3);
    assert("uint"@.len() == 4 && "bool"@.len() == 4 && "code"@.len() == 4 && "void"@.len() == 4);
    assert("array"@.len() == 5 && "union"@.len() == 5 && "float"@.len() == 5);
    assert("ptrrel"@.len() == 6 && "struct"@.len() == 6 && "unknown"@.len() == 7 && "enum_int"@.len() == 8);
    assert("partunion"@.len() == 9 && "spacebase"@.len() == 9 && "enum_uint"@.len() == 9);
    assert("partstruct"@.len() == 10);
    assert("ptr"@[0] == 'p');
    assert("int"@[0] == 'i');
    assert("array"@[0] == 'a' && "union"@[0] == 'u' && "float"@[0] == 'f');
    assert("uint"@[0] == 'u' && "bool"@[0] == 'b' && "code"@[0] == 'c' && "void"@[0] == 'v');
    assert("ptrrel"@[0] == 'p' && "struct"@[0] == 's');
    assert("partunion"@[0] == 'p' && "spacebase"@[0] == 's' && "enum_uint"@[0] == 'e');
}

/// The class that a name stands for.
pub fn string2metatype(metastring: &str) -> (res: Result<TypeMetatype>)
    ensures
        match named_meta(metastring@) {
            Some(meta) => res == Ok::<TypeMetatype, Error>(meta),
            None => res matches Err(e) && e.is_lowlevel("Unknown metatype: "@ + metastring@),
        },
{
    if same_text(metastring, "ptr") {
        return Ok(TypeMetatype::Ptr);
    }
    if same_text(metastring, "ptrrel") {
        return Ok(TypeMetatype::PtrRel);
    }
    if same_text(metastring, "partunion") {
        return Ok(TypeMetatype::PartialUnion);
    }
    if same_text(metastring, "partstruct") {
        return Ok(TypeMetatype::PartialStruct);
    }
    if same_text(metastring, "array") {
        return Ok(TypeMetatype::Array);
    }
    if same_text(metastring, "enum_int") {
        return Ok(TypeMetatype::EnumInt);
    }
    if same_text(metastring, "enum_uint") {
        return Ok(TypeMetatype::EnumUint);
    }
    if same_text(metastring, "struct") {
        return Ok(TypeMetatype::Struct);
    }
    if same_text(metastring, "spacebase") {
        return Ok(TypeMetatype::Spacebase);
    }
    if same_text(metastring, "unknown") {
        return Ok(TypeMetatype::Unknown);
    }
    if same_text(metastring, "uint") {
        return Ok(TypeMetatype::Uint);
    }
    if same_text(metastring, "union") {
        return Ok(TypeMetatype::Union);
    }
    if same_text(metastring, "int") {
        return Ok(TypeMetatype::Int);
    }
    if same_text(metastring, "float") {
        return Ok(TypeMetatype::Float);
    }
    if same_text(metastring, "bool") {
        return Ok(TypeMetatype::Bool);
    }
    if same_text(metastring, "code") {
        return Ok(TypeMetatype::Code);
    }
    if same_text(metastring, "void") {
        return Ok(TypeMetatype::Void);
    }
    let mut text = "Unknown metatype: ".to_owned();
    text.push_str(metastring);
    Err(Error::Lowlevel(text))
}

/// The storage class that a name stands for.
pub open spec fn named_class(name: Seq<char>) -> Option<TypeClass> {
    if name == "class1"@ {
        Some(TypeClass::Class1)
    } else if name == "class2"@ {
        Some(TypeClass::Class2)
    } else if name == "class3"@ {
        Some(TypeClass::Class3)
    } else if name == "class4"@ {
        Some(TypeClass::Class4)
    } else if name == "general"@ {
        Some(TypeClass::General)
    } else if name == "hiddenret"@ {
        Some(TypeClass::HiddenRet)
    } else if name == "float"@ {
        Some(TypeClass::Float)
    } else if name == "ptr"@ || name == "pointer"@ {
        Some(TypeClass::Ptr)
    } else if name == "vector"@ {
        Some(TypeClass::Vector)
    } else if name == "unknown"@ {
        Some(TypeClass::General)
    } else {
        None
    }
}

/// The storage class that a name stands for.
pub fn string2typeclass(classstring: &str) -> (res: Result<TypeClass>)
    ensures
        match named_class(classstring@) {
            Some(class) => res == Ok::<TypeClass, Error>(class),
            None => res matches Err(e) && e.is_lowlevel("Unknown data-type class: "@ + classstring@),
        },
{
    if same_text(classstring, "class1") {
        return Ok(TypeClass::Class1);
    }
    if same_text(classstring, "class2") {
        return Ok(TypeClass::Class2);
    }
    if same_text(classstring, "class3") {
        return Ok(TypeClass::Class3);
    }
    if same_text(classstring, "class4") {
        return Ok(TypeClass::Class4);
    }
    if same_text(classstring, "general") {
        return Ok(TypeClass::General);
    }
    if same_text(classstring, "hiddenret") {
        return Ok(TypeClass::HiddenRet);
    }
    if same_text(classstring, "float") {
        return Ok(TypeClass::Float);
    }
    if same_text(classstring, "ptr") || same_text(classstring, "pointer") {
        return Ok(TypeClass::Ptr);
    }
    if same_text(classstring, "vector") {
        return Ok(TypeClass::Vector);
    }
    if same_text(classstring, "unknown") {
        return Ok(TypeClass::General);
    }
    let mut text = "Unknown data-type class: ".to_owned();
    text.push_str(classstring);
    Err(Error::Lowlevel(text))
}

/// The storage class that a class of data-types asks for.
pub fn metatype2typeclass(meta: TypeMetatype) -> (res: TypeClass)
    ensures
        res == (match meta {
            TypeMetatype::Float => TypeClass::Float,
            TypeMetatype::Ptr => TypeClass::Ptr,
            _ => TypeClass::General,
        }),
{
    match meta {
        TypeMetatype::Float => TypeClass::Float,
        TypeMetatype::Ptr => TypeClass::Ptr,
        _ => TypeClass::General,
    }
}

/// The name of a display format.
pub open spec fn format_name(val: u32) -> Option<Seq<char>> {
    if val == 1 {
        Some("hex"@)
    } else if val == 2 {
        Some("dec"@)
    } else if val == 3 {
        Some("oct"@)
    } else if val == 4 {
        Some("bin"@)
    } else if val == 5 {
        Some("char"@)
    } else {
        None
    }
}

/// The display format that a name stands for.
pub open spec fn named_format(name: Seq<char>) -> Option<u32> {
    if name == "hex"@ {
        Some(1u32)
    } else if name == "dec"@ {
        Some(2u32)
    } else if name == "oct"@ {
        Some(3u32)
    } else if name == "bin"@ {
        Some(4u32)
    } else if name == "char"@ {
        Some(5u32)
    } else {
        None
    }
}

/// The name of a display format leads back to the format.
pub proof fn format_names_round_trip(val: u32)
    requires
        format_name(val) is Some,
    ensures
        named_format(format_name(val)->0) == Some(val),
{
    reveal_strlit("hex");
    reveal_strlit("dec");
    reveal_strlit("oct");
    reveal_strlit("bin");
    reveal_strlit("char");
    assert("hex"@[0] == 'h' && "dec"@[0] == 'd' && "oct"@[0] == 'o' && "bin"@[0] == 'b' && "char"@[0] == 'c');
}

/// The text in the first entry of a text.
pub open spec fn initial(name: Seq<char>) -> Seq<char> {
    name.take(if name.len() > 0 {
        1
    } else {
        0
    })
}

/// A data-type in raw notation.
pub open spec fn raw_text(types: TypeFactory, d: Datatype) -> Seq<char>
    decreases types.chain_of(d),
    when types.sound() && types.valid(d)
{
    proof {
        types.parts(d);
    }
    match d.kind {
        TypeKind::Pointer(data) => raw_text(types, types.dt(data.ptrto->0)) + " *"@ + (match data.spaceid {
            Some(spc) => "("@ + spc.name@ + ")"@,
            None => Seq::empty(),
        }),
        TypeKind::PointerRel(data) => raw_text(types, types.dt(data.pointer.ptrto->0)) + " *+"@
            + crate::text::decimal(data.offset as int) + seq!['['] + raw_text(types, types.dt(data.parent->0))
            + seq![']'],
        TypeKind::Array(data) => raw_text(types, types.dt(data.arrayof->0)) + " ["@ + crate::text::decimal(
            data.arraysize as int,
        ) + "]"@,
        TypeKind::PartialEnum(data) => raw_text(types, types.dt(data.parent)) + part_text(data.offset, d.size),
        TypeKind::PartialStruct(data) => raw_text(types, types.dt(data.container)) + part_text(
            data.offset,
            d.size,
        ),
        TypeKind::PartialUnion(data) => raw_text(types, types.dt(data.container)) + part_text(data.offset, d.size),
        TypeKind::Code(_) => (if d.name@.len() > 0 {
            d.name@
        } else {
            "funcptr"@
        }) + "()"@,
        _ => if d.name@.len() > 0 {
            d.name@
        } else {
            "unkbyte"@ + crate::text::decimal(d.size as int)
        },
    }
}

/// Which part of a data-type a partial data-type is, in raw notation.
pub open spec fn part_text(offset: i32, size: i32) -> Seq<char> {
    "[off="@ + crate::text::decimal(offset as int) + ",sz="@ + crate::text::decimal(size as int) + "]"@
}

fn push_part(out: &mut String, offset: i32, size: i32)
    ensures
        final(out)@ == old(out)@ + part_text(offset, size),
{
    out.push_str("[off=");
    push_decimal(out, offset as i64);
    out.push_str(",sz=");
    push_decimal(out, size as i64);
    out.push_str("]");
    assert(out@ =~= old(out)@ + part_text(offset, size));
}

/// The first letters that make up a name for a variable of a data-type.
pub open spec fn name_base(types: TypeFactory, d: Datatype) -> Seq<char>
    decreases types.chain_of(d),
    when types.sound() && types.valid(d)
{
    proof {
        types.parts(d);
    }
    match d.kind {
        TypeKind::Pointer(data) => seq!['p'] + name_base(types, types.dt(data.ptrto->0)),
        TypeKind::PointerRel(data) => seq!['p'] + name_base(types, types.dt(data.pointer.ptrto->0)),
        TypeKind::Array(data) => seq!['a'] + name_base(types, types.dt(data.arrayof->0)),
        _ => initial(d.name@),
    }
}

impl Datatype {
    /// Writes the data-type in raw notation.
    #[verifier::spinoff_prover]
    #[verifier::rlimit(60)]
    pub fn print_raw(&self, out: &mut String, types: &TypeFactory)
        requires
            types.sound(),
            types.valid(*self),
        ensures
            final(out)@ == old(out)@ + raw_text(*types, *self),
        decreases types.chain_of(*self),
    {
        proof {
            types.parts(*self);
        }
        match &self.kind {
            TypeKind::Pointer(data) => {
                types.get(data.ptrto.unwrap()).print_raw(out, types);
                out.push_str(" *");
                if let Some(spc) = &data.spaceid {
                    out.push_str("(");
                    out.push_str(spc.get_name());
                    out.push_str(")");
                }
                assert(out@ =~= old(out)@ + raw_text(*types, *self));
            },
            TypeKind::PointerRel(data) => {
                types.get(data.pointer.ptrto.unwrap()).print_raw(out, types);
                out.push_str(" *+");
                push_decimal(out, data.offset as i64);
                out.push('[');
                types.get(data.parent.unwrap()).print_raw(out, types);
                out.push(']');
                assert(out@ =~= old(out)@ + raw_text(*types, *self));
            },
            TypeKind::Array(data) => {
                types.get(data.arrayof.unwrap()).print_raw(out, types);
                out.push_str(" [");
                push_decimal(out, data.arraysize as i64);
                out.push_str("]");
                assert(out@ =~= old(out)@ + raw_text(*types, *self));
            },
            TypeKind::PartialEnum(data) => {
                types.get(data.parent).print_raw(out, types);
                push_part(out, data.offset, self.size);
                assert(out@ =~= old(out)@ + raw_text(*types, *self));
            },
            TypeKind::PartialStruct(data) => {
                types.get(data.container).print_raw(out, types);
                push_part(out, data.offset, self.size);
                assert(out@ =~= old(out)@ + raw_text(*types, *self));
            },
            TypeKind::PartialUnion(data) => {
                types.get(data.container).print_raw(out, types);
                push_part(out, data.offset, self.size);
                assert(out@ =~= old(out)@ + raw_text(*types, *self));
            },
            TypeKind::Code(_) => {
                if !self.name.as_str().is_empty() {
                    out.push_str(self.name.as_str());
                } else {
                    out.push_str("funcptr");
                }
                out.push_str("()");
                assert(out@ =~= old(out)@ + raw_text(*types, *self));
            },
            _ => {
                if !self.name.as_str().is_empty() {
                    out.push_str(self.name.as_str());
                } else {
                    out.push_str("unkbyte");
                    push_decimal(out, self.size as i64);
                }
                assert(out@ =~= old(out)@ + raw_text(*types, *self));
            },
        }
    }

    /// Writes the first letters of a name for a variable of the data-type.
    pub fn print_name_base(&self, out: &mut String, types: &TypeFactory)
        requires
            types.sound(),
            types.valid(*self),
        ensures
            final(out)@ == old(out)@ + name_base(*types, *self),
        decreases types.chain_of(*self),
    {
        proof {
            types.parts(*self);
        }
        match &self.kind {
            TypeKind::Pointer(data) => {
                out.push('p');
                types.get(data.ptrto.unwrap()).print_name_base(out, types);
            },
            TypeKind::PointerRel(data) => {
                out.push('p');
                types.get(data.pointer.ptrto.unwrap()).print_name_base(out, types);
            },
            TypeKind::Array(data) => {
                out.push('a');
                types.get(data.arrayof.unwrap()).print_name_base(out, types);
            },
            _ => {
                if !self.name.as_str().is_empty() {
                    out.push(crate::text::first_char(self.name.as_str()));
                }
            },
        }
        assert(out@ =~= old(out)@ + name_base(*types, *self));
    }

    /// The display format that a name stands for.
    pub fn encode_integer_format(val: &str) -> (res: Result<u32>)
        ensures
            match named_format(val@) {
                Some(format) => res == Ok::<u32, Error>(format),
                None => res matches Err(e) && e.is_lowlevel("Unrecognized integer format: "@ + val@),
            },
    {
        if same_text(val, "hex") {
            return Ok(1);
        }
        if same_text(val, "dec") {
            return Ok(2);
        }
        if same_text(val, "oct") {
            return Ok(3);
        }
        if same_text(val, "bin") {
            return Ok(4);
        }
        if same_text(val, "char") {
            return Ok(5);
        }
        let mut text = "Unrecognized integer format: ".to_owned();
        text.push_str(val);
        Err(Error::Lowlevel(text))
    }

    /// The name of a display format.
    pub fn decode_integer_format(val: u32) -> (res: Result<String>)
        ensures
            match format_name(val) {
                Some(name) => res matches Ok(text) && text@ == name,
                None => res matches Err(e) && e.is_lowlevel("Unrecognized integer format encoding"@),
            },
    {
        match val {
            1 => Ok("hex".to_owned()),
            2 => Ok("dec".to_owned()),
            3 => Ok("oct".to_owned()),
            4 => Ok("bin".to_owned()),
            5 => Ok("char".to_owned()),
            _ => Err(Error::lowlevel("Unrecognized integer format encoding")),
        }
    }
}

} // verus!

//! The orders on data-types: the one that says which of two data-types is the
//! more specific, and the one by which the factory finds a data-type again.
use vstd::prelude::*;
use std::cmp::Ordering;
use crate::ids::{TypeId, option_position};
use crate::space::{SpaceRef, space_order_index};
use crate::text::{order_text, same_text};
use crate::types::{
    BitFieldTriple, CodeSignature, Datatype, TypeBitField, TypeFactory, TypeField, TypeKind, TypeMetatype,
    TypePointerData,
};
use crate::types::names::NameMap;

verus! {

/// The order of two numbers.
pub open spec fn sign(a: int, b: int) -> int {
    if a < b {
        -1
    } else if a > b {
        1
    } else {
        0
    }
}

/// The first order that decides.
pub open spec fn first_of(a: int, b: int) -> int {
    if a != 0 {
        a
    } else {
        b
    }
}

fn sign_of(a: i64, b: i64) -> (res: i32)
    ensures
        res == sign(a as int, b as int),
{
    if a < b {
        -1
    } else if a > b {
        1
    } else {
        0
    }
}

fn sign_of_wide(a: u64, b: u64) -> (res: i32)
    ensures
        res == sign(a as int, b as int),
{
    if a < b {
        -1
    } else if a > b {
        1
    } else {
        0
    }
}

/// The order of two names.
pub open spec fn name_order(a: Seq<char>, b: Seq<char>) -> int {
    if a == b {
        0
    } else if crate::text::text_order(a, b) < 0 {
        -1
    } else {
        1
    }
}

fn order_names(a: &String, b: &String) -> (res: i32)
    ensures
        res == name_order(a@, b@),
{
    if same_text(a.as_str(), b.as_str()) {
        0
    } else if order_text(a.as_str(), b.as_str()) < 0 {
        -1
    } else {
        1
    }
}

/// The order of two spaces: by index, with no space at the end.
pub open spec fn space_order(a: Option<SpaceRef>, b: Option<SpaceRef>) -> int {
    if crate::space::space_index(a) == crate::space::space_index(b) {
        0
    } else if a is None {
        1
    } else if b is None {
        -1
    } else {
        sign(crate::space::space_index(a), crate::space::space_index(b))
    }
}

fn order_spaces(a: &Option<SpaceRef>, b: &Option<SpaceRef>) -> (res: i32)
    ensures
        res == space_order(*a, *b),
{
    let space1: i64 = space_order_index(a);
    let space2: i64 = space_order_index(b);
    if space1 == space2 {
        return 0;
    }
    if a.is_none() {
        return 1;
    }
    if b.is_none() {
        return -1;
    }
    sign_of(space1, space2)
}

/// The difference of two sizes: the greater one comes first.
pub open spec fn size_order(a: Datatype, b: Datatype) -> int {
    b.size.wrapping_sub(a.size) as int
}

/// The order by fine class and size.
pub open spec fn base_order(a: Datatype, b: Datatype) -> int {
    first_of(sign(a.submeta.rank(), b.submeta.rank()), size_order(a, b))
}

/// The order by id.
pub open spec fn id_order(a: Datatype, b: Datatype) -> int {
    sign(a.id as int, b.id as int)
}

impl TypeField {
    /// The order of two fields by place, name and class.
    pub open spec fn order(self, op2: TypeField, types: TypeFactory) -> int {
        first_of(
            sign(self.offset as int, op2.offset as int),
            first_of(
                name_order(self.name@, op2.name@),
                sign(types.dt(self.tp).metatype.rank(), types.dt(op2.tp).metatype.rank()),
            ),
        )
    }

    /// The order of two fields by place, name and data-type.
    pub open spec fn dependency_order(self, op2: TypeField) -> int {
        first_of(
            sign(self.offset as int, op2.offset as int),
            first_of(name_order(self.name@, op2.name@), sign(self.tp.0 as int, op2.tp.0 as int)),
        )
    }

    pub fn new(id: i32, off: i32, nm: &str, ct: TypeId) -> (res: TypeField)
        ensures
            res.ident == id,
            res.offset == off,
            res.name@ == nm@,
            res.tp == ct,
    {
        TypeField { ident: id, offset: off, name: nm.to_owned(), tp: ct }
    }

    pub fn copy(&self) -> (res: TypeField)
        ensures
            res == *self,
    {
        TypeField { ident: self.ident, offset: self.offset, name: self.name.clone(), tp: self.tp }
    }

    pub fn compare(&self, op2: &TypeField, types: &TypeFactory) -> (res: i32)
        requires
            types.has(self.tp),
            types.has(op2.tp),
        ensures
            res == self.order(*op2, *types),
    {
        if self.offset != op2.offset {
            return if self.offset < op2.offset { -1 } else { 1 };
        }
        let names: i32 = order_names(&self.name, &op2.name);
        if names != 0 {
            return names;
        }
        let meta1: i32 = types.get(self.tp).get_metatype().position();
        let meta2: i32 = types.get(op2.tp).get_metatype().position();
        sign_of(meta1 as i64, meta2 as i64)
    }

    pub fn compare_dependency(&self, op2: &TypeField) -> (res: i32)
        ensures
            res == self.dependency_order(*op2),
    {
        if self.offset != op2.offset {
            return if self.offset < op2.offset { -1 } else { 1 };
        }
        let names: i32 = order_names(&self.name, &op2.name);
        if names != 0 {
            return names;
        }
        sign_of(self.tp.0 as i64, op2.tp.0 as i64)
    }

    /// Whether a byte lies before the end of a field.
    pub fn compare_max_byte(off: i32, field: &TypeField, types: &TypeFactory) -> (res: bool)
        requires
            types.has(field.tp),
            i32::MIN <= field.offset + types.size_of(field.tp) <= i32::MAX,
        ensures
            res == (off < field.offset + types.size_of(field.tp)),
    {
        off < field.offset + types.get(field.tp).get_size()
    }
}

impl TypeBitField {
    /// The order of two bit fields by place, name and class.
    pub open spec fn order(self, op2: TypeBitField, types: TypeFactory) -> int {
        first_of(
            self.bits.order(op2.bits),
            first_of(
                name_order(self.name@, op2.name@),
                sign(types.dt(self.tp).metatype.rank(), types.dt(op2.tp).metatype.rank()),
            ),
        )
    }

    /// The order of two bit fields by place, name and data-type.
    pub open spec fn dependency_order(self, op2: TypeBitField) -> int {
        first_of(
            self.bits.order(op2.bits),
            first_of(name_order(self.name@, op2.name@), sign(self.tp.0 as int, op2.tp.0 as int)),
        )
    }

    /// A bit field that has not got its place yet.
    pub fn new(id: i32, num_bits: i32, is_big_endian: bool, nm: &str, ct: TypeId) -> (res: TypeBitField)
        requires
            0 <= num_bits <= i32::MAX - 7,
        ensures
            res.ident == id,
            res.name@ == nm@,
            res.tp == ct,
            res.bits == (crate::address::BitRange {
                byte_offset: 0,
                byte_size: ((num_bits + 7) / 8) as i32,
                least_sig_bit: 0,
                num_bits,
                is_big_endian,
            }),
    {
        TypeBitField {
            name: nm.to_owned(),
            tp: ct,
            bits: crate::address::BitRange::new(0, (num_bits + 7) / 8, 0, num_bits, is_big_endian),
            ident: id,
        }
    }

    pub fn copy(&self) -> (res: TypeBitField)
        ensures
            res == *self,
    {
        TypeBitField { name: self.name.clone(), tp: self.tp, bits: self.bits, ident: self.ident }
    }

    pub fn compare(&self, op2: &TypeBitField, types: &TypeFactory) -> (res: i32)
        requires
            types.has(self.tp),
            types.has(op2.tp),
        ensures
            res == self.order(*op2, *types),
    {
        let res: i32 = self.bits.compare(&op2.bits);
        if res != 0 {
            return res;
        }
        let names: i32 = order_names(&self.name, &op2.name);
        if names != 0 {
            return names;
        }
        let meta1: i32 = types.get(self.tp).get_metatype().position();
        let meta2: i32 = types.get(op2.tp).get_metatype().position();
        sign_of(meta1 as i64, meta2 as i64)
    }

    pub fn compare_dependency(&self, op2: &TypeBitField) -> (res: i32)
        ensures
            res == self.dependency_order(*op2),
    {
        let res: i32 = self.bits.compare(&op2.bits);
        if res != 0 {
            return res;
        }
        let names: i32 = order_names(&self.name, &op2.name);
        if names != 0 {
            return names;
        }
        sign_of(self.tp.0 as i64, op2.tp.0 as i64)
    }

    /// Whether a byte lies before the end of the container of a bit field.
    pub fn compare_max_byte(off: i32, bitfield: &TypeBitField) -> (res: bool)
        requires
            i32::MIN <= bitfield.bits.byte_offset + bitfield.bits.byte_size <= i32::MAX,
        ensures
            res == (off < bitfield.bits.byte_offset + bitfield.bits.byte_size),
    {
        off < bitfield.bits.byte_offset + bitfield.bits.byte_size
    }
}

impl BitFieldTriple {
    pub fn new(contain: TypeId, bits: usize, off: i32) -> (res: BitFieldTriple)
        ensures
            res == (BitFieldTriple { immed_container: contain, bitfield: bits, offset: off }),
    {
        BitFieldTriple { immed_container: contain, bitfield: bits, offset: off }
    }

    /// The triple names a bit field of a structure.
    pub open spec fn valid(self, types: TypeFactory) -> bool {
        &&& types.has(self.immed_container)
        &&& types.dt(self.immed_container).kind is Struct
        &&& self.bitfield < types.dt(self.immed_container).bitfields().len() <= i32::MAX
    }

    /// The bit field that the triple names.
    pub open spec fn named(self, types: TypeFactory) -> TypeBitField {
        types.dt(self.immed_container).bitfields()[self.bitfield as int]
    }

    /// The first byte of the container of the bit field.
    pub open spec fn byte(self, types: TypeFactory) -> int {
        self.offset + self.named(types).bits.byte_offset
    }

    pub fn get_bit_field<'a>(&self, types: &'a TypeFactory) -> (res: &'a TypeBitField)
        requires
            self.valid(*types),
        ensures
            *res == self.named(*types),
    {
        types.get(self.immed_container).get_bit_field(self.bitfield as i32)
    }

    /// Whether the first bit field comes before the second one: by container in
    /// the direction of the byte order, then by least significant bit.
    pub fn compare(op1: &BitFieldTriple, op2: &BitFieldTriple, types: &TypeFactory) -> (res: bool)
        requires
            op1.valid(*types),
            op2.valid(*types),
            i32::MIN <= op1.byte(*types) <= i32::MAX,
            i32::MIN <= op2.byte(*types) <= i32::MAX,
        ensures
            res == (if op1.byte(*types) != op2.byte(*types) {
                if op1.named(*types).bits.is_big_endian {
                    op1.byte(*types) > op2.byte(*types)
                } else {
                    op1.byte(*types) < op2.byte(*types)
                }
            } else {
                op1.named(*types).bits.least_sig_bit < op2.named(*types).bits.least_sig_bit
            }),
    {
        let bits1 = &op1.get_bit_field(types).bits;
        let bits2 = &op2.get_bit_field(types).bits;
        let is_big_endian = bits1.is_big_endian;
        let byte_off1: i32 = op1.offset + bits1.byte_offset;
        let byte_off2: i32 = op2.offset + bits2.byte_offset;
        if byte_off1 != byte_off2 {
            if is_big_endian {
                return byte_off1 > byte_off2;
            }
            return byte_off1 < byte_off2;
        }
        bits1.least_sig_bit < bits2.least_sig_bit
    }
}

/// The difference of two lengths: the longer list comes first.
pub open spec fn length_order(a: usize, b: usize) -> int {
    (b as i32).wrapping_sub(a as i32) as int
}

/// The first difference of two lists of fields from a position on, by data-type.
pub open spec fn fields_dependency(a: Seq<TypeField>, b: Seq<TypeField>, i: int) -> int
    decreases a.len() - i,
{
    if 0 <= i < a.len() && i < b.len() {
        first_of(a[i].dependency_order(b[i]), fields_dependency(a, b, i + 1))
    } else {
        0
    }
}

/// The first difference of two lists of bit fields from a position on, by data-type.
pub open spec fn bits_dependency(a: Seq<TypeBitField>, b: Seq<TypeBitField>, i: int) -> int
    decreases a.len() - i,
{
    if 0 <= i < a.len() && i < b.len() {
        first_of(a[i].dependency_order(b[i]), bits_dependency(a, b, i + 1))
    } else {
        0
    }
}

/// The first difference of two lists of union fields from a position on, by data-type.
pub open spec fn union_dependency(a: Seq<TypeField>, b: Seq<TypeField>, i: int) -> int
    decreases a.len() - i,
{
    if 0 <= i < a.len() && i < b.len() {
        first_of(
            first_of(name_order(a[i].name@, b[i].name@), sign(a[i].tp.0 as int, b[i].tp.0 as int)),
            union_dependency(a, b, i + 1),
        )
    } else {
        0
    }
}

/// The first difference of two lists of named values from a position on.
pub open spec fn names_order(a: NameMap, b: NameMap, i: int) -> int
    decreases a.entries@.len() - i,
{
    if 0 <= i < a.entries@.len() && i < b.entries@.len() {
        first_of(
            sign(a.entries@[i].value as int, b.entries@[i].value as int),
            first_of(name_order(a.entries@[i].name@, b.entries@[i].name@), names_order(a, b, i + 1)),
        )
    } else {
        0
    }
}

/// The first difference of two lists of parameters from a position on, by data-type.
pub open spec fn params_dependency(a: Seq<TypeId>, b: Seq<TypeId>, i: int) -> int
    decreases a.len() - i,
{
    if 0 <= i < a.len() && i < b.len() {
        first_of(sign(a[i].0 as int, b[i].0 as int), params_dependency(a, b, i + 1))
    } else {
        0
    }
}

/// The order of two optional things of which a missing one comes last.
pub open spec fn missing_last(a: bool, b: bool) -> int {
    if !a && b {
        1
    } else if a && !b {
        -1
    } else {
        0
    }
}

/// The order of the conventions of two prototypes.
pub open spec fn model_order(a: Option<String>, b: Option<String>) -> int {
    match (a, b) {
        (Some(x), Some(y)) => name_order(x@, y@),
        _ => missing_last(a is Some, b is Some),
    }
}

/// The order of two code data-types by everything but the data-types that
/// their prototypes use, or two if that does not tell them apart.
pub open spec fn basic_order(a: Datatype, b: Datatype) -> int {
    match (a.signature(), b.signature()) {
        (None, None) => 0,
        (None, Some(_)) => 1,
        (Some(_), None) => -1,
        (Some(sig1), Some(sig2)) => first_of(
            model_order(sig1.model_name, sig2.model_name),
            first_of(
                -sign(sig1.params@.len() as int, sig2.params@.len() as int),
                first_of(sign(sig1.comparable_flags as int, sig2.comparable_flags as int), 2),
            ),
        ),
    }
}

/// The order of the data of two pointers by data-type.
pub open spec fn pointer_dependency(a: TypePointerData, b: TypePointerData) -> int {
    first_of(
        sign(crate::ids::option_index(a.ptrto), crate::ids::option_index(b.ptrto)),
        first_of(sign(a.wordsize as int, b.wordsize as int), space_order(a.spaceid, b.spaceid)),
    )
}

/// The order by which the factory keeps data-types: it tells data-types apart by
/// what they are made of, one level deep.
pub open spec fn dependency_order(a: Datatype, b: Datatype) -> int {
    let submeta = sign(a.submeta.rank(), b.submeta.rank());
    match a.kind {
        TypeKind::Pointer(data) => first_of(
            submeta,
            first_of(
                if b.is_pointer() {
                    pointer_dependency(data, b.pointer())
                } else {
                    0
                },
                size_order(a, b),
            ),
        ),
        TypeKind::PointerRel(data) => first_of(
            submeta,
            first_of(
                match b.kind {
                    TypeKind::PointerRel(other) => first_of(
                        sign(
                            crate::ids::option_index(data.pointer.ptrto),
                            crate::ids::option_index(other.pointer.ptrto),
                        ),
                        first_of(
                            sign(data.offset as int, other.offset as int),
                            first_of(
                                sign(
                                    crate::ids::option_index(data.parent),
                                    crate::ids::option_index(other.parent),
                                ),
                                sign(data.pointer.wordsize as int, other.pointer.wordsize as int),
                            ),
                        ),
                    ),
                    _ => 0,
                },
                size_order(a, b),
            ),
        ),
        TypeKind::Array(data) => first_of(
            submeta,
            first_of(
                match b.kind {
                    TypeKind::Array(other) => sign(
                        crate::ids::option_index(data.arrayof),
                        crate::ids::option_index(other.arrayof),
                    ),
                    _ => 0,
                },
                size_order(a, b),
            ),
        ),
        TypeKind::Enum(data) => first_of(
            base_order(a, b),
            if b.has_names() {
                first_of(
                    sign(data.namemap.entries@.len() as int, b.names().entries@.len() as int),
                    names_order(data.namemap, b.names(), 0),
                )
            } else {
                0
            },
        ),
        TypeKind::Struct(data) => first_of(
            base_order(a, b),
            match b.kind {
                TypeKind::Struct(other) => first_of(
                    if data.field@.len() != other.field@.len() {
                        length_order(data.field.len(), other.field.len())
                    } else {
                        fields_dependency(data.field@, other.field@, 0)
                    },
                    if data.bitfield@.len() != other.bitfield@.len() {
                        length_order(data.bitfield.len(), other.bitfield.len())
                    } else {
                        bits_dependency(data.bitfield@, other.bitfield@, 0)
                    },
                ),
                _ => 0,
            },
        ),
        TypeKind::Union(data) => first_of(
            base_order(a, b),
            match b.kind {
                TypeKind::Union(other) => if data.field@.len() != other.field@.len() {
                    length_order(data.field.len(), other.field.len())
                } else {
                    union_dependency(data.field@, other.field@, 0)
                },
                _ => 0,
            },
        ),
        TypeKind::PartialEnum(_) | TypeKind::PartialStruct(_) | TypeKind::PartialUnion(_) => first_of(
            submeta,
            first_of(
                if b.is_partial() {
                    first_of(
                        sign(a.part_of().0 as int, b.part_of().0 as int),
                        sign(a.part_offset() as int, b.part_offset() as int),
                    )
                } else {
                    0
                },
                size_order(a, b),
            ),
        ),
        TypeKind::Code(_) => first_of(
            base_order(a, b),
            if basic_order(a, b) != 2 {
                basic_order(a, b)
            } else {
                signature_dependency(a.signature()->0, b.signature()->0)
            },
        ),
        TypeKind::Spacebase(data) => first_of(
            base_order(a, b),
            match b.kind {
                TypeKind::Spacebase(other) => first_of(
                    sign(
                        crate::space::space_index(data.spaceid),
                        crate::space::space_index(other.spaceid),
                    ),
                    sign(data.scope_id as int, other.scope_id as int),
                ),
                _ => 0,
            },
        ),
        _ => base_order(a, b),
    }
}

/// The order of two signatures by the data-types that they use.
pub open spec fn signature_dependency(a: CodeSignature, b: CodeSignature) -> int {
    first_of(
        params_dependency(a.params@, b.params@, 0),
        match (a.output, b.output) {
            (Some(x), Some(y)) => sign(x.0 as int, y.0 as int),
            _ => missing_last(a.output is Some, b.output is Some),
        },
    )
}

fn order_base(a: &Datatype, b: &Datatype) -> (res: i32)
    ensures
        res == base_order(*a, *b),
{
    let first: i32 = a.submeta.position();
    let second: i32 = b.submeta.position();
    if first != second {
        return if first < second { -1 } else { 1 };
    }
    b.size.wrapping_sub(a.size)
}

fn order_submeta(a: &Datatype, b: &Datatype) -> (res: i32)
    ensures
        res == sign(a.submeta.rank(), b.submeta.rank()),
{
    sign_of(a.submeta.position() as i64, b.submeta.position() as i64)
}

fn order_ids(a: &Datatype, b: &Datatype) -> (res: i32)
    ensures
        res == id_order(*a, *b),
{
    sign_of_wide(a.id, b.id)
}

fn order_length(a: usize, b: usize) -> (res: i32)
    ensures
        res == length_order(a, b),
{
    (b as i32).wrapping_sub(a as i32)
}

fn order_pointer_data(a: &TypePointerData, b: &TypePointerData) -> (res: i32)
    ensures
        res == pointer_dependency(*a, *b),
{
    let target: i32 = sign_of(option_position(a.ptrto), option_position(b.ptrto));
    if target != 0 {
        return target;
    }
    let words: i32 = sign_of(a.wordsize as i64, b.wordsize as i64);
    if words != 0 {
        return words;
    }
    order_spaces(&a.spaceid, &b.spaceid)
}

fn order_fields_dependency(a: &Vec<TypeField>, b: &Vec<TypeField>) -> (res: i32)
    ensures
        res == fields_dependency(a@, b@, 0),
{
    let mut i: usize = 0;
    while i < a.len() && i < b.len()
        invariant
            i <= a@.len(),
            i <= b@.len(),
            fields_dependency(a@, b@, 0) == fields_dependency(a@, b@, i as int),
        decreases a@.len() - i,
    {
        let order: i32 = a[i].compare_dependency(&b[i]);
        if order != 0 {
            return order;
        }
        i = i + 1;
    }
    0
}

fn order_bits_dependency(a: &Vec<TypeBitField>, b: &Vec<TypeBitField>) -> (res: i32)
    ensures
        res == bits_dependency(a@, b@, 0),
{
    let mut i: usize = 0;
    while i < a.len() && i < b.len()
        invariant
            i <= a@.len(),
            i <= b@.len(),
            bits_dependency(a@, b@, 0) == bits_dependency(a@, b@, i as int),
        decreases a@.len() - i,
    {
        let order: i32 = a[i].compare_dependency(&b[i]);
        if order != 0 {
            return order;
        }
        i = i + 1;
    }
    0
}

fn order_union_dependency(a: &Vec<TypeField>, b: &Vec<TypeField>) -> (res: i32)
    ensures
        res == union_dependency(a@, b@, 0),
{
    let mut i: usize = 0;
    while i < a.len() && i < b.len()
        invariant
            i <= a@.len(),
            i <= b@.len(),
            union_dependency(a@, b@, 0) == union_dependency(a@, b@, i as int),
        decreases a@.len() - i,
    {
        let names: i32 = order_names(&a[i].name, &b[i].name);
        if names != 0 {
            return names;
        }
        let target: i32 = sign_of(a[i].tp.0 as i64, b[i].tp.0 as i64);
        if target != 0 {
            return target;
        }
        i = i + 1;
    }
    0
}

fn order_name_maps(a: &NameMap, b: &NameMap) -> (res: i32)
    ensures
        res == names_order(*a, *b, 0),
{
    let mut i: usize = 0;
    while i < a.entries.len() && i < b.entries.len()
        invariant
            i <= a.entries@.len(),
            i <= b.entries@.len(),
            names_order(*a, *b, 0) == names_order(*a, *b, i as int),
        decreases a.entries@.len() - i,
    {
        let values: i32 = sign_of_wide(a.entries[i].value, b.entries[i].value);
        if values != 0 {
            return values;
        }
        let names: i32 = order_names(&a.entries[i].name, &b.entries[i].name);
        if names != 0 {
            return names;
        }
        i = i + 1;
    }
    0
}

fn order_signature_dependency(a: &CodeSignature, b: &CodeSignature) -> (res: i32)
    ensures
        res == signature_dependency(*a, *b),
{
    let mut i: usize = 0;
    while i < a.params.len() && i < b.params.len()
        invariant
            i <= a.params@.len(),
            i <= b.params@.len(),
            params_dependency(a.params@, b.params@, 0) == params_dependency(a.params@, b.params@, i as int),
        decreases a.params@.len() - i,
    {
        let order: i32 = sign_of(a.params[i].0 as i64, b.params[i].0 as i64);
        if order != 0 {
            return order;
        }
        i = i + 1;
    }
    match (a.output, b.output) {
        (None, None) => 0,
        (None, Some(_)) => 1,
        (Some(_), None) => -1,
        (Some(first), Some(second)) => sign_of(first.0 as i64, second.0 as i64),
    }
}

impl Datatype {
    /// Compares two code data-types by everything but the data-types that their
    /// prototypes use. The result is two if that does not tell them apart.
    pub fn compare_basic(&self, op: &Datatype) -> (res: i32)
        ensures
            res == basic_order(*self, *op),
    {
        match (self.code_signature(), op.code_signature()) {
            (None, None) => 0,
            (None, Some(_)) => 1,
            (Some(_), None) => -1,
            (Some(sig1), Some(sig2)) => {
                let models: i32 = match (&sig1.model_name, &sig2.model_name) {
                    (None, None) => 0,
                    (None, Some(_)) => 1,
                    (Some(_), None) => -1,
                    (Some(model1), Some(model2)) => order_names(model1, model2),
                };
                if models != 0 {
                    return models;
                }
                if sig1.params.len() != sig2.params.len() {
                    return if sig2.params.len() < sig1.params.len() { -1 } else { 1 };
                }
                if sig1.comparable_flags != sig2.comparable_flags {
                    return if sig1.comparable_flags < sig2.comparable_flags { -1 } else { 1 };
                }
                2
            },
        }
    }

    /// Compares two data-types by what they are made of, one level deep.
    pub fn compare_dependency(&self, op: &Datatype, _types: &TypeFactory) -> (res: i32)
        ensures
            res == dependency_order(*self, *op),
    {
        match &self.kind {
            TypeKind::Pointer(data) => {
                let submeta: i32 = order_submeta(self, op);
                if submeta != 0 {
                    return submeta;
                }
                if let Some(other) = op.pointer_data_option() {
                    let order: i32 = order_pointer_data(data, other);
                    if order != 0 {
                        return order;
                    }
                }
                op.size.wrapping_sub(self.size)
            },
            TypeKind::PointerRel(data) => {
                let submeta: i32 = order_submeta(self, op);
                if submeta != 0 {
                    return submeta;
                }
                if let TypeKind::PointerRel(other) = &op.kind {
                    let target: i32 = sign_of(
                        option_position(data.pointer.ptrto),
                        option_position(other.pointer.ptrto),
                    );
                    if target != 0 {
                        return target;
                    }
                    if data.offset != other.offset {
                        return if data.offset < other.offset { -1 } else { 1 };
                    }
                    let parents: i32 = sign_of(option_position(data.parent), option_position(other.parent));
                    if parents != 0 {
                        return parents;
                    }
                    if data.pointer.wordsize != other.pointer.wordsize {
                        return if data.pointer.wordsize < other.pointer.wordsize { -1 } else { 1 };
                    }
                }
                op.size.wrapping_sub(self.size)
            },
            TypeKind::Array(data) => {
                let submeta: i32 = order_submeta(self, op);
                if submeta != 0 {
                    return submeta;
                }
                if let TypeKind::Array(other) = &op.kind {
                    let elements: i32 = sign_of(option_position(data.arrayof), option_position(other.arrayof));
                    if elements != 0 {
                        return elements;
                    }
                }
                op.size.wrapping_sub(self.size)
            },
            TypeKind::Enum(data) => {
                let res: i32 = order_base(self, op);
                if res != 0 {
                    return res;
                }
                let other_map = match &op.kind {
                    TypeKind::Enum(other) => &other.namemap,
                    TypeKind::PartialEnum(other) => &other.enum_data.namemap,
                    _ => {
                        return 0;
                    },
                };
                if data.namemap.entries.len() != other_map.entries.len() {
                    return if data.namemap.entries.len() < other_map.entries.len() { -1 } else { 1 };
                }
                order_name_maps(&data.namemap, other_map)
            },
            TypeKind::Struct(data) => {
                let res: i32 = order_base(self, op);
                if res != 0 {
                    return res;
                }
                let TypeKind::Struct(other) = &op.kind else {
                    return 0;
                };
                let fields: i32 = if data.field.len() != other.field.len() {
                    order_length(data.field.len(), other.field.len())
                } else {
                    order_fields_dependency(&data.field, &other.field)
                };
                if fields != 0 {
                    return fields;
                }
                if data.bitfield.len() != other.bitfield.len() {
                    return order_length(data.bitfield.len(), other.bitfield.len());
                }
                order_bits_dependency(&data.bitfield, &other.bitfield)
            },
            TypeKind::Union(data) => {
                let res: i32 = order_base(self, op);
                if res != 0 {
                    return res;
                }
                let TypeKind::Union(other) = &op.kind else {
                    return 0;
                };
                if data.field.len() != other.field.len() {
                    return order_length(data.field.len(), other.field.len());
                }
                order_union_dependency(&data.field, &other.field)
            },
            TypeKind::PartialEnum(_) | TypeKind::PartialStruct(_) | TypeKind::PartialUnion(_) => {
                let submeta: i32 = order_submeta(self, op);
                if submeta != 0 {
                    return submeta;
                }
                if let (Some(parent), Some(other)) = (self.get_partial_base(), op.get_partial_base()) {
                    if parent != other {
                        return if parent.0 < other.0 { -1 } else { 1 };
                    }
                    let offset: i32 = self.get_offset();
                    let other_offset: i32 = op.get_offset();
                    if offset != other_offset {
                        return if offset < other_offset { -1 } else { 1 };
                    }
                }
                op.size.wrapping_sub(self.size)
            },
            TypeKind::Code(_) => {
                let res: i32 = order_base(self, op);
                if res != 0 {
                    return res;
                }
                let basic: i32 = self.compare_basic(op);
                if basic != 2 {
                    return basic;
                }
                match (self.code_signature(), op.code_signature()) {
                    (Some(sig1), Some(sig2)) => order_signature_dependency(sig1, sig2),
                    _ => 0,
                }
            },
            TypeKind::Spacebase(data) => {
                let res: i32 = order_base(self, op);
                if res != 0 {
                    return res;
                }
                let TypeKind::Spacebase(other) = &op.kind else {
                    return 0;
                };
                let spaces: i32 = sign_of(space_order_index(&data.spaceid), space_order_index(&other.spaceid));
                if spaces != 0 {
                    return spaces;
                }
                sign_of_wide(data.scope_id, other.scope_id)
            },
            _ => order_base(self, op),
        }
    }
}

/// The order of the factory: by what data-types are made of, then by id.
pub open spec fn factory_order(a: Datatype, b: Datatype) -> int {
    if dependency_order(a, b) < 0 {
        -1
    } else if dependency_order(a, b) > 0 {
        1
    } else {
        id_order(a, b)
    }
}

/// The order of the factory as a number.
pub fn order_in_factory(first: &Datatype, second: &Datatype, types: &TypeFactory) -> (res: i32)
    ensures
        res == factory_order(*first, *second),
{
    let res: i32 = first.compare_dependency(second, types);
    if res < 0 {
        -1
    } else if res > 0 {
        1
    } else {
        order_ids(first, second)
    }
}

/// Compares two data-types in the order of the factory.
pub fn datatype_compare(first: &Datatype, second: &Datatype, types: &TypeFactory) -> (res: Ordering)
    ensures
        (res is Less) == (factory_order(*first, *second) < 0),
        (res is Equal) == (factory_order(*first, *second) == 0),
        (res is Greater) == (factory_order(*first, *second) > 0),
{
    let order: i32 = order_in_factory(first, second, types);
    if order < 0 {
        Ordering::Less
    } else if order > 0 {
        Ordering::Greater
    } else {
        Ordering::Equal
    }
}

/// The order of the index by name: by name, then by id.
pub open spec fn index_order(a: Datatype, b: Datatype) -> int {
    first_of(name_order(a.name@, b.name@), id_order(a, b))
}

/// Compares two data-types by name, then by id.
pub fn datatype_name_compare(first: &Datatype, second: &Datatype) -> (res: Ordering)
    ensures
        (res is Less) == (index_order(*first, *second) < 0),
        (res is Equal) == (index_order(*first, *second) == 0),
        (res is Greater) == (index_order(*first, *second) > 0),
{
    let names: i32 = order_names(&first.name, &second.name);
    if names < 0 {
        return Ordering::Less;
    }
    if names > 0 {
        return Ordering::Greater;
    }
    if first.id < second.id {
        Ordering::Less
    } else if first.id > second.id {
        Ordering::Greater
    } else {
        Ordering::Equal
    }
}

/// The first difference of two lists of fields from a position on, by class.
pub open spec fn fields_order(a: Seq<TypeField>, b: Seq<TypeField>, types: TypeFactory, i: int) -> int
    decreases a.len() - i,
{
    if 0 <= i < a.len() && i < b.len() {
        first_of(a[i].order(b[i], types), fields_order(a, b, types, i + 1))
    } else {
        0
    }
}

/// The first difference of two lists of bit fields from a position on, by class.
pub open spec fn bits_order(a: Seq<TypeBitField>, b: Seq<TypeBitField>, types: TypeFactory, i: int) -> int
    decreases a.len() - i,
{
    if 0 <= i < a.len() && i < b.len() {
        first_of(a[i].order(b[i], types), bits_order(a, b, types, i + 1))
    } else {
        0
    }
}

/// The first difference of two lists of union fields from a position on, by class.
pub open spec fn union_order(a: Seq<TypeField>, b: Seq<TypeField>, types: TypeFactory, i: int) -> int
    decreases a.len() - i,
{
    if 0 <= i < a.len() && i < b.len() {
        first_of(
            first_of(
                name_order(a[i].name@, b[i].name@),
                sign(types.dt(a[i].tp).metatype.rank(), types.dt(b[i].tp).metatype.rank()),
            ),
            union_order(a, b, types, i + 1),
        )
    } else {
        0
    }
}

/// The data-types of fields.
pub open spec fn field_types(fields: Seq<TypeField>) -> Seq<TypeId> {
    fields.map_values(|f: TypeField| f.tp)
}

/// The data-types of bit fields.
pub open spec fn bit_types(fields: Seq<TypeBitField>) -> Seq<TypeId> {
    fields.map_values(|f: TypeBitField| f.tp)
}

/// The order of two data-types by what is visible without following a
/// reference, or three if the references decide.
pub open spec fn surface_order(a: Datatype, b: Datatype, types: TypeFactory) -> int {
    match a.kind {
        TypeKind::Pointer(data) => first_of(
            base_order(a, b),
            if b.is_pointer() {
                first_of(
                    sign(data.wordsize as int, b.pointer().wordsize as int),
                    space_order(data.spaceid, b.pointer().spaceid),
                )
            } else {
                0
            },
        ),
        TypeKind::PointerRel(data) => first_of(
            base_order(a, b),
            if b.is_pointer() {
                first_of(
                    sign(data.pointer.wordsize as int, b.pointer().wordsize as int),
                    space_order(data.pointer.spaceid, b.pointer().spaceid),
                )
            } else {
                0
            },
        ),
        TypeKind::Enum(_) => dependency_order(a, b),
        TypeKind::Spacebase(_) => dependency_order(a, b),
        TypeKind::Struct(data) => first_of(
            base_order(a, b),
            match b.kind {
                TypeKind::Struct(other) => first_of(
                    if data.field@.len() != other.field@.len() {
                        length_order(data.field.len(), other.field.len())
                    } else {
                        fields_order(data.field@, other.field@, types, 0)
                    },
                    if data.bitfield@.len() != other.bitfield@.len() {
                        length_order(data.bitfield.len(), other.bitfield.len())
                    } else {
                        bits_order(data.bitfield@, other.bitfield@, types, 0)
                    },
                ),
                _ => 0,
            },
        ),
        TypeKind::Union(data) => first_of(
            base_order(a, b),
            match b.kind {
                TypeKind::Union(other) => if data.field@.len() != other.field@.len() {
                    length_order(data.field.len(), other.field.len())
                } else {
                    union_order(data.field@, other.field@, types, 0)
                },
                _ => 0,
            },
        ),
        TypeKind::PartialEnum(_) | TypeKind::PartialStruct(_) | TypeKind::PartialUnion(_) => first_of(
            base_order(a, b),
            if b.is_partial() {
                sign(a.part_offset() as int, b.part_offset() as int)
            } else {
                0
            },
        ),
        TypeKind::Code(_) => first_of(
            base_order(a, b),
            if basic_order(a, b) == 2 {
                0
            } else {
                basic_order(a, b)
            },
        ),
        _ => base_order(a, b),
    }
}

/// Whether references have to be followed to tell apart two data-types that
/// look the same on the surface.
pub open spec fn has_references(a: Datatype, b: Datatype) -> bool {
    match a.kind {
        TypeKind::Pointer(_) => b.is_pointer(),
        TypeKind::PointerRel(_) => b.is_pointer(),
        TypeKind::Array(_) => true,
        TypeKind::Struct(_) => b.kind is Struct,
        TypeKind::Union(_) => b.kind is Union,
        TypeKind::PartialEnum(_) | TypeKind::PartialStruct(_) | TypeKind::PartialUnion(_) => b.is_partial(),
        TypeKind::Code(_) => basic_order(a, b) == 2,
        _ => false,
    }
}

/// The order of two pointers that agree otherwise: a relative pointer that a
/// program declares comes first.
pub open spec fn stripped_order(a: Datatype, b: Datatype) -> int {
    match a.kind {
        TypeKind::PointerRel(data) => missing_last(
            !(data.stripped is Some),
            !(b.kind is PointerRel && b.kind->PointerRel_0.stripped is Some),
        ),
        _ => 0,
    }
}

/// The order of two data-types, following references to the given depth: the
/// more specific one comes first.
pub open spec fn type_order_at(a: Datatype, b: Datatype, level: int, types: TypeFactory) -> int
    decreases (if level < 0 { 0 } else { level }), 0nat,
{
    first_of(
        surface_order(a, b, types),
        first_of(
            if !has_references(a, b) {
                0
            } else if level < 1 {
                id_order(a, b)
            } else {
                match a.kind {
                    TypeKind::Pointer(data) => type_order_at(
                        types.dt(data.ptrto->0),
                        types.dt(b.pointer().ptrto->0),
                        level - 1,
                        types,
                    ),
                    TypeKind::PointerRel(data) => type_order_at(
                        types.dt(data.pointer.ptrto->0),
                        types.dt(b.pointer().ptrto->0),
                        level - 1,
                        types,
                    ),
                    TypeKind::Array(data) => match b.kind {
                        TypeKind::Array(other) => type_order_at(
                            types.dt(data.arrayof->0),
                            types.dt(other.arrayof->0),
                            level - 1,
                            types,
                        ),
                        _ => 0,
                    },
                    TypeKind::Struct(data) => first_of(
                        members_order(
                            field_types(data.field@),
                            field_types(b.fields()),
                            types,
                            (level - 1) as nat,
                            true,
                            0,
                        ),
                        members_order(
                            bit_types(data.bitfield@),
                            bit_types(b.bitfields()),
                            types,
                            (level - 1) as nat,
                            true,
                            0,
                        ),
                    ),
                    TypeKind::Union(data) => members_order(
                        field_types(data.field@),
                        field_types(b.fields()),
                        types,
                        (level - 1) as nat,
                        true,
                        0,
                    ),
                    TypeKind::PartialEnum(_) | TypeKind::PartialStruct(_) | TypeKind::PartialUnion(_) =>
                        type_order_at(types.dt(a.part_of()), types.dt(b.part_of()), level - 1, types),
                    TypeKind::Code(_) => first_of(
                        members_order(
                            a.signature()->0.params@,
                            b.signature()->0.params@,
                            types,
                            (level - 1) as nat,
                            false,
                            0,
                        ),
                        match (a.signature()->0.output, b.signature()->0.output) {
                            (Some(x), Some(y)) => type_order_at(types.dt(x), types.dt(y), level - 1, types),
                            (x, y) => missing_last(x is Some, y is Some),
                        },
                    ),
                    _ => 0,
                }
            },
            stripped_order(a, b),
        ),
    )
}

/// The first difference, from a position on, of the data-types that two lists
/// of handles name, where `skip_same` passes over equal handles.
pub open spec fn members_order(
    a: Seq<TypeId>,
    b: Seq<TypeId>,
    types: TypeFactory,
    level: nat,
    skip_same: bool,
    i: int,
) -> int
    decreases level, (if 0 <= i <= a.len() { 1 + a.len() - i } else { 1 }) as nat,
{
    if 0 <= i < a.len() && i < b.len() {
        first_of(
            if skip_same && a[i] == b[i] {
                0
            } else {
                type_order_at(types.dt(a[i]), types.dt(b[i]), level as int, types)
            },
            members_order(a, b, types, level, skip_same, i + 1),
        )
    } else {
        0
    }
}

fn order_fields(a: &Vec<TypeField>, b: &Vec<TypeField>, types: &TypeFactory) -> (res: i32)
    requires
        forall|i: int| 0 <= i < a@.len() ==> types.has((#[trigger] a@[i]).tp),
        forall|i: int| 0 <= i < b@.len() ==> types.has((#[trigger] b@[i]).tp),
    ensures
        res == fields_order(a@, b@, *types, 0),
{
    let mut i: usize = 0;
    while i < a.len() && i < b.len()
        invariant
            i <= a@.len(),
            i <= b@.len(),
            forall|k: int| 0 <= k < a@.len() ==> types.has((#[trigger] a@[k]).tp),
            forall|k: int| 0 <= k < b@.len() ==> types.has((#[trigger] b@[k]).tp),
            fields_order(a@, b@, *types, 0) == fields_order(a@, b@, *types, i as int),
        decreases a@.len() - i,
    {
        let order: i32 = a[i].compare(&b[i], types);
        if order != 0 {
            return order;
        }
        i = i + 1;
    }
    0
}

fn order_bits(a: &Vec<TypeBitField>, b: &Vec<TypeBitField>, types: &TypeFactory) -> (res: i32)
    requires
        forall|i: int| 0 <= i < a@.len() ==> types.has((#[trigger] a@[i]).tp),
        forall|i: int| 0 <= i < b@.len() ==> types.has((#[trigger] b@[i]).tp),
    ensures
        res == bits_order(a@, b@, *types, 0),
{
    let mut i: usize = 0;
    while i < a.len() && i < b.len()
        invariant
            i <= a@.len(),
            i <= b@.len(),
            forall|k: int| 0 <= k < a@.len() ==> types.has((#[trigger] a@[k]).tp),
            forall|k: int| 0 <= k < b@.len() ==> types.has((#[trigger] b@[k]).tp),
            bits_order(a@, b@, *types, 0) == bits_order(a@, b@, *types, i as int),
        decreases a@.len() - i,
    {
        let order: i32 = a[i].compare(&b[i], types);
        if order != 0 {
            return order;
        }
        i = i + 1;
    }
    0
}

fn order_union(a: &Vec<TypeField>, b: &Vec<TypeField>, types: &TypeFactory) -> (res: i32)
    requires
        forall|i: int| 0 <= i < a@.len() ==> types.has((#[trigger] a@[i]).tp),
        forall|i: int| 0 <= i < b@.len() ==> types.has((#[trigger] b@[i]).tp),
    ensures
        res == union_order(a@, b@, *types, 0),
{
    let mut i: usize = 0;
    while i < a.len() && i < b.len()
        invariant
            i <= a@.len(),
            i <= b@.len(),
            forall|k: int| 0 <= k < a@.len() ==> types.has((#[trigger] a@[k]).tp),
            forall|k: int| 0 <= k < b@.len() ==> types.has((#[trigger] b@[k]).tp),
            union_order(a@, b@, *types, 0) == union_order(a@, b@, *types, i as int),
        decreases a@.len() - i,
    {
        let names: i32 = order_names(&a[i].name, &b[i].name);
        if names != 0 {
            return names;
        }
        let meta1: i32 = types.get(a[i].tp).get_metatype().position();
        let meta2: i32 = types.get(b[i].tp).get_metatype().position();
        if meta1 != meta2 {
            return if meta1 < meta2 { -1 } else { 1 };
        }
        i = i + 1;
    }
    0
}

fn field_handles(fields: &Vec<TypeField>) -> (res: Vec<TypeId>)
    ensures
        res@ == field_types(fields@),
{
    let mut res: Vec<TypeId> = Vec::new();
    let mut i: usize = 0;
    while i < fields.len()
        invariant
            i <= fields@.len(),
            res@ == field_types(fields@.take(i as int)),
        decreases fields@.len() - i,
    {
        res.push(fields[i].tp);
        i = i + 1;
        assert(res@ =~= field_types(fields@.take(i as int)));
    }
    assert(fields@.take(i as int) =~= fields@);
    res
}

fn bit_handles(fields: &Vec<TypeBitField>) -> (res: Vec<TypeId>)
    ensures
        res@ == bit_types(fields@),
{
    let mut res: Vec<TypeId> = Vec::new();
    let mut i: usize = 0;
    while i < fields.len()
        invariant
            i <= fields@.len(),
            res@ == bit_types(fields@.take(i as int)),
        decreases fields@.len() - i,
    {
        res.push(fields[i].tp);
        i = i + 1;
        assert(res@ =~= bit_types(fields@.take(i as int)));
    }
    assert(fields@.take(i as int) =~= fields@);
    res
}

fn order_members(a: &Vec<TypeId>, b: &Vec<TypeId>, types: &TypeFactory, level: i32, skip_same: bool) -> (res: i32)
    requires
        types.sound(),
        level >= 0,
        forall|i: int| 0 <= i < a@.len() ==> types.has(#[trigger] a@[i]),
        forall|i: int| 0 <= i < b@.len() ==> types.has(#[trigger] b@[i]),
    ensures
        res == members_order(a@, b@, *types, level as nat, skip_same, 0),
    decreases level as nat, 5nat,
{
    let mut i: usize = 0;
    while i < a.len() && i < b.len()
        invariant
            types.sound(),
            level >= 0,
            i <= a@.len(),
            i <= b@.len(),
            forall|k: int| 0 <= k < a@.len() ==> types.has(#[trigger] a@[k]),
            forall|k: int| 0 <= k < b@.len() ==> types.has(#[trigger] b@[k]),
            members_order(a@, b@, *types, level as nat, skip_same, 0) == members_order(
                a@,
                b@,
                *types,
                level as nat,
                skip_same,
                i as int,
            ),
        decreases a@.len() - i,
    {
        if !(skip_same && a[i] == b[i]) {
            proof {
                types.look(a@[i as int]);
                types.look(b@[i as int]);
            }
            let order: i32 = types.get(a[i]).compare(types.get(b[i]), level, types);
            if order != 0 {
                return order;
            }
        }
        i = i + 1;
    }
    0
}

impl Datatype {
    fn compare_surface(&self, op: &Datatype, types: &TypeFactory) -> (res: i32)
        requires
            types.sound(),
            types.valid(*self),
            types.valid(*op),
        ensures
            res == surface_order(*self, *op, *types),
    {
        proof {
            types.parts(*self);
            types.parts(*op);
        }
        match &self.kind {
            TypeKind::Pointer(_) | TypeKind::PointerRel(_) => {
                let res: i32 = order_base(self, op);
                if res != 0 {
                    return res;
                }
                let data = self.pointer_data();
                let Some(other) = op.pointer_data_option() else {
                    return 0;
                };
                if data.wordsize != other.wordsize {
                    return if data.wordsize < other.wordsize { -1 } else { 1 };
                }
                order_spaces(&data.spaceid, &other.spaceid)
            },
            TypeKind::Enum(_) | TypeKind::Spacebase(_) => self.compare_dependency(op, types),
            TypeKind::Struct(data) => {
                let res: i32 = order_base(self, op);
                if res != 0 {
                    return res;
                }
                let TypeKind::Struct(other) = &op.kind else {
                    return 0;
                };
                let fields: i32 = if data.field.len() != other.field.len() {
                    order_length(data.field.len(), other.field.len())
                } else {
                    order_fields(&data.field, &other.field, types)
                };
                if fields != 0 {
                    return fields;
                }
                if data.bitfield.len() != other.bitfield.len() {
                    return order_length(data.bitfield.len(), other.bitfield.len());
                }
                order_bits(&data.bitfield, &other.bitfield, types)
            },
            TypeKind::Union(data) => {
                let res: i32 = order_base(self, op);
                if res != 0 {
                    return res;
                }
                let TypeKind::Union(other) = &op.kind else {
                    return 0;
                };
                if data.field.len() != other.field.len() {
                    return order_length(data.field.len(), other.field.len());
                }
                order_union(&data.field, &other.field, types)
            },
            TypeKind::PartialEnum(_) | TypeKind::PartialStruct(_) | TypeKind::PartialUnion(_) => {
                let res: i32 = order_base(self, op);
                if res != 0 {
                    return res;
                }
                if op.get_partial_base().is_none() {
                    return 0;
                }
                sign_of(self.get_offset() as i64, op.get_offset() as i64)
            },
            TypeKind::Code(_) => {
                let res: i32 = order_base(self, op);
                if res != 0 {
                    return res;
                }
                let basic: i32 = self.compare_basic(op);
                if basic == 2 {
                    0
                } else {
                    basic
                }
            },
            _ => order_base(self, op),
        }
    }

    fn compare_needs_references(&self, op: &Datatype) -> (res: bool)
        ensures
            res == has_references(*self, *op),
    {
        match &self.kind {
            TypeKind::Pointer(_) | TypeKind::PointerRel(_) => op.pointer_data_option().is_some(),
            TypeKind::Array(_) => true,
            TypeKind::Struct(_) => matches!(&op.kind, TypeKind::Struct(_)),
            TypeKind::Union(_) => matches!(&op.kind, TypeKind::Union(_)),
            TypeKind::PartialEnum(_) | TypeKind::PartialStruct(_) | TypeKind::PartialUnion(_) =>
                op.get_partial_base().is_some(),
            TypeKind::Code(_) => self.compare_basic(op) == 2,
            _ => false,
        }
    }

    fn compare_stripped(&self, op: &Datatype) -> (res: i32)
        ensures
            res == stripped_order(*self, *op),
    {
        let TypeKind::PointerRel(data) = &self.kind else {
            return 0;
        };
        let other_stripped = match &op.kind {
            TypeKind::PointerRel(other) => other.stripped.is_some(),
            _ => false,
        };
        if data.stripped.is_none() {
            if other_stripped {
                return -1;
            }
        } else if !other_stripped {
            return 1;
        }
        0
    }

    fn compare_references(&self, op: &Datatype, level: i32, types: &TypeFactory) -> (res: i32)
        requires
            types.sound(),
            types.valid(*self),
            types.valid(*op),
            level >= 1,
            has_references(*self, *op),
            surface_order(*self, *op, *types) == 0,
        ensures
            first_of(res as int, stripped_order(*self, *op)) == type_order_at(*self, *op, level as int, *types),
        decreases level as nat, 2nat,
    {
        proof {
            types.parts(*self);
            types.parts(*op);
        }
        match &self.kind {
            TypeKind::Pointer(_) | TypeKind::PointerRel(_) => {
                let target = types.get(self.get_ptr_to());
                let other = types.get(op.get_ptr_to());
                target.compare(other, level - 1, types)
            },
            TypeKind::Array(data) => {
                let TypeKind::Array(other) = &op.kind else {
                    return 0;
                };
                let element = types.get(data.arrayof.unwrap());
                let other_element = types.get(other.arrayof.unwrap());
                element.compare(other_element, level - 1, types)
            },
            TypeKind::Struct(data) => {
                let TypeKind::Struct(other) = &op.kind else {
                    return 0;
                };
                let fields1 = field_handles(&data.field);
                let fields2 = field_handles(&other.field);
                let fields: i32 = order_members(&fields1, &fields2, types, level - 1, true);
                if fields != 0 {
                    return fields;
                }
                let bits1 = bit_handles(&data.bitfield);
                let bits2 = bit_handles(&other.bitfield);
                order_members(&bits1, &bits2, types, level - 1, true)
            },
            TypeKind::Union(data) => {
                let TypeKind::Union(other) = &op.kind else {
                    return 0;
                };
                let fields1 = field_handles(&data.field);
                let fields2 = field_handles(&other.field);
                order_members(&fields1, &fields2, types, level - 1, true)
            },
            TypeKind::PartialEnum(_) | TypeKind::PartialStruct(_) | TypeKind::PartialUnion(_) => {
                if let (Some(parent), Some(other)) = (self.get_partial_base(), op.get_partial_base()) {
                    types.get(parent).compare(types.get(other), level - 1, types)
                } else {
                    0
                }
            },
            TypeKind::Code(_) => {
                if let (Some(sig1), Some(sig2)) = (self.code_signature(), op.code_signature()) {
                    let params: i32 = order_members(&sig1.params, &sig2.params, types, level - 1, false);
                    if params != 0 {
                        return params;
                    }
                    match (sig1.output, sig2.output) {
                        (None, None) => 0,
                        (None, Some(_)) => 1,
                        (Some(_), None) => -1,
                        (Some(first), Some(second)) => types.get(first).compare(
                            types.get(second),
                            level - 1,
                            types,
                        ),
                    }
                } else {
                    0
                }
            },
            _ => 0,
        }
    }

    /// Compares two data-types, following references to the given depth. The
    /// more specific one comes first.
    pub fn compare(&self, op: &Datatype, level: i32, types: &TypeFactory) -> (res: i32)
        requires
            types.sound(),
            types.valid(*self),
            types.valid(*op),
        ensures
            res == type_order_at(*self, *op, level as int, *types),
        decreases (if level < 0 { 0 } else { level as nat }), 3nat,
    {
        let surface: i32 = self.compare_surface(op, types);
        if surface != 0 {
            return surface;
        }
        if self.compare_needs_references(op) {
            let references: i32 = if level < 1 {
                order_ids(self, op)
            } else {
                self.compare_references(op, level, types)
            };
            if references != 0 {
                return references;
            }
        }
        self.compare_stripped(op)
    }

    /// Which of two data-types is the more specific.
    pub fn type_order(&self, op: &Datatype, types: &TypeFactory) -> (res: i32)
        requires
            types.sound(),
            types.valid(*self),
            types.valid(*op),
        ensures
            res == type_order_at(*self, *op, 10, *types),
    {
        self.compare(op, 10, types)
    }

    /// Which of two data-types is the more specific, where parts of unions and
    /// booleans give way to everything else.
    pub open spec fn formal_order(first: TypeId, second: TypeId, types: TypeFactory) -> int {
        let a = types.dt(first);
        let b = types.dt(second);
        if first == second {
            0
        } else if a.metatype is PartialUnion {
            1
        } else if b.metatype is PartialUnion {
            -1
        } else if a.metatype is Bool {
            1
        } else if b.metatype is Bool {
            -1
        } else {
            type_order_at(a, b, 10, types)
        }
    }

    pub fn type_order_formal(first: TypeId, second: TypeId, types: &TypeFactory) -> (res: i32)
        requires
            types.sound(),
            types.has(first),
            types.has(second),
        ensures
            res == Datatype::formal_order(first, second, *types),
    {
        if first == second {
            return 0;
        }
        proof {
            types.look(first);
            types.look(second);
        }
        let a = types.get(first);
        let b = types.get(second);
        if a.metatype == TypeMetatype::PartialUnion {
            return 1;
        }
        if b.metatype == TypeMetatype::PartialUnion {
            return -1;
        }
        if a.metatype == TypeMetatype::Bool {
            return 1;
        }
        if b.metatype == TypeMetatype::Bool {
            return -1;
        }
        a.compare(b, 10, types)
    }
}

proof fn fields_dependency_same(a: Seq<TypeField>, i: int)
    ensures
        fields_dependency(a, a, i) == 0,
    decreases a.len() - i,
{
    if 0 <= i < a.len() {
        fields_dependency_same(a, i + 1);
    }
}

proof fn bits_dependency_same(a: Seq<TypeBitField>, i: int)
    ensures
        bits_dependency(a, a, i) == 0,
    decreases a.len() - i,
{
    if 0 <= i < a.len() {
        bits_dependency_same(a, i + 1);
    }
}

proof fn union_dependency_same(a: Seq<TypeField>, i: int)
    ensures
        union_dependency(a, a, i) == 0,
    decreases a.len() - i,
{
    if 0 <= i < a.len() {
        union_dependency_same(a, i + 1);
    }
}

proof fn names_order_same(a: NameMap, i: int)
    ensures
        names_order(a, a, i) == 0,
    decreases a.entries@.len() - i,
{
    if 0 <= i < a.entries@.len() {
        names_order_same(a, i + 1);
    }
}

proof fn params_dependency_same(a: Seq<TypeId>, i: int)
    ensures
        params_dependency(a, a, i) == 0,
    decreases a.len() - i,
{
    if 0 <= i < a.len() {
        params_dependency_same(a, i + 1);
    }
}

/// The order of the factory does not tell a data-type from itself.
pub proof fn factory_order_reflexive(a: Datatype)
    ensures
        dependency_order(a, a) == 0,
        factory_order(a, a) == 0,
{
    assert(a.size.wrapping_sub(a.size) == 0);
    match a.kind {
        TypeKind::Enum(data) => {
            names_order_same(data.namemap, 0);
        },
        TypeKind::Struct(data) => {
            fields_dependency_same(data.field@, 0);
            bits_dependency_same(data.bitfield@, 0);
        },
        TypeKind::Union(data) => {
            union_dependency_same(data.field@, 0);
        },
        TypeKind::Code(data) => {
            if data.signature is Some {
                params_dependency_same(data.signature->0.params@, 0);
            }
        },
        _ => {},
    }
}

proof fn fields_order_same(a: Seq<TypeField>, types: TypeFactory, i: int)
    ensures
        fields_order(a, a, types, i) == 0,
    decreases a.len() - i,
{
    if 0 <= i < a.len() {
        fields_order_same(a, types, i + 1);
    }
}

proof fn bits_order_same(a: Seq<TypeBitField>, types: TypeFactory, i: int)
    ensures
        bits_order(a, a, types, i) == 0,
    decreases a.len() - i,
{
    if 0 <= i < a.len() {
        bits_order_same(a, types, i + 1);
    }
}

proof fn union_order_same(a: Seq<TypeField>, types: TypeFactory, i: int)
    ensures
        union_order(a, a, types, i) == 0,
    decreases a.len() - i,
{
    if 0 <= i < a.len() {
        union_order_same(a, types, i + 1);
    }
}

proof fn members_order_same(a: Seq<TypeId>, types: TypeFactory, level: nat, skip_same: bool, i: int)
    ensures
        members_order(a, a, types, level, skip_same, i) == 0,
    decreases level, (if 0 <= i <= a.len() { 1 + a.len() - i } else { 1 }) as nat,
{
    if 0 <= i < a.len() {
        if !skip_same {
            type_order_reflexive(types.dt(a[i]), level as int, types);
        }
        members_order_same(a, types, level, skip_same, i + 1);
    }
}

/// A data-type is not more specific than itself, at any depth.
pub proof fn type_order_reflexive(a: Datatype, level: int, types: TypeFactory)
    ensures
        type_order_at(a, a, level, types) == 0,
    decreases (if level < 0 { 0 } else { level }), 0nat,
{
    assert(a.size.wrapping_sub(a.size) == 0);
    factory_order_reflexive(a);
    match a.kind {
        TypeKind::Pointer(data) => {
            if level >= 1 {
                type_order_reflexive(types.dt(data.ptrto->0), level - 1, types);
            }
        },
        TypeKind::PointerRel(data) => {
            if level >= 1 {
                type_order_reflexive(types.dt(data.pointer.ptrto->0), level - 1, types);
            }
        },
        TypeKind::Array(data) => {
            if level >= 1 {
                type_order_reflexive(types.dt(data.arrayof->0), level - 1, types);
            }
        },
        TypeKind::Struct(data) => {
            fields_order_same(data.field@, types, 0);
            bits_order_same(data.bitfield@, types, 0);
            if level >= 1 {
                members_order_same(field_types(data.field@), types, (level - 1) as nat, true, 0);
                members_order_same(bit_types(data.bitfield@), types, (level - 1) as nat, true, 0);
            }
        },
        TypeKind::Union(data) => {
            union_order_same(data.field@, types, 0);
            if level >= 1 {
                members_order_same(field_types(data.field@), types, (level - 1) as nat, true, 0);
            }
        },
        TypeKind::PartialEnum(_) | TypeKind::PartialStruct(_) | TypeKind::PartialUnion(_) => {
            if level >= 1 {
                type_order_reflexive(types.dt(a.part_of()), level - 1, types);
            }
        },
        TypeKind::Code(_) => {
            if level >= 1 && a.signature() is Some {
                let sig = a.signature()->0;
                members_order_same(sig.params@, types, (level - 1) as nat, false, 0);
                if sig.output is Some {
                    type_order_reflexive(types.dt(sig.output->0), level - 1, types);
                }
            }
        },
        _ => {},
    }
}

} // verus!

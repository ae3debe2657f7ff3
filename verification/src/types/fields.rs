//! Searching the fields of structures.
use vstd::prelude::*;
use crate::address::BitRange;
use crate::ids::TypeId;
use crate::types::create::{copy_bitfields, copy_fields};
use crate::types::{BitFieldTriple, Datatype, TypeBitField, TypeFactory, TypeField, TypeKind, TypeMetatype};

verus! {

impl TypeField {
    /// The byte after the last byte of the field.
    pub open spec fn end(self, types: TypeFactory) -> int {
        self.offset + types.size_of(self.tp)
    }

    /// Whether a byte belongs to the field.
    pub open spec fn holds(self, off: int, types: TypeFactory) -> bool {
        self.offset <= off < self.end(types)
    }
}

/// The last of the first `n` fields that a byte belongs to, or -1.
pub open spec fn holder(fields: Seq<TypeField>, off: int, types: TypeFactory, n: nat) -> int
    decreases n,
{
    if n == 0 {
        -1
    } else if fields[n - 1].holds(off, types) {
        n - 1
    } else {
        holder(fields, off, types, (n - 1) as nat)
    }
}

/// The field that a byte belongs to, or -1.
pub open spec fn field_holding(fields: Seq<TypeField>, off: int, types: TypeFactory) -> int {
    holder(fields, off, types, fields.len())
}

/// The last of the first `n` fields that starts at or before a byte, or -1.
pub open spec fn starter(fields: Seq<TypeField>, off: int, n: nat) -> int
    decreases n,
{
    if n == 0 {
        -1
    } else if fields[n - 1].offset <= off {
        n - 1
    } else {
        starter(fields, off, (n - 1) as nat)
    }
}

/// The last field that starts at or before a byte, or -1.
pub open spec fn field_starting(fields: Seq<TypeField>, off: int) -> int {
    starter(fields, off, fields.len())
}

proof fn holder_found(fields: Seq<TypeField>, off: int, types: TypeFactory, n: nat, i: int)
    requires
        types.fields_in_order(fields),
        0 <= i < n <= fields.len(),
        fields[i].holds(off, types),
        forall|k: int| 0 <= k < fields.len() ==> types.size_of((#[trigger] fields[k]).tp) >= 0,
    ensures
        holder(fields, off, types, n) == i,
    decreases n,
{
    if i < n - 1 {
        assert(fields[i].offset + types.size_of(fields[i].tp) <= fields[n - 1].offset);
        holder_found(fields, off, types, (n - 1) as nat, i);
    }
}

proof fn holder_missing(fields: Seq<TypeField>, off: int, types: TypeFactory, n: nat)
    requires
        n <= fields.len(),
        forall|k: int| 0 <= k < n ==> !(#[trigger] fields[k]).holds(off, types),
    ensures
        holder(fields, off, types, n) == -1,
    decreases n,
{
    if n > 0 {
        holder_missing(fields, off, types, (n - 1) as nat);
    }
}

/// What the search for a field gives holds the byte.
pub proof fn holder_holds(fields: Seq<TypeField>, off: int, types: TypeFactory, n: nat)
    requires
        n <= fields.len(),
    ensures
        -1 <= holder(fields, off, types, n) < n,
        holder(fields, off, types, n) >= 0 ==> fields[holder(fields, off, types, n)].holds(off, types),
        holder(fields, off, types, n) < 0 ==> forall|k: int| 0 <= k < n ==> !(#[trigger] fields[k]).holds(off, types),
    decreases n,
{
    if n > 0 {
        holder_holds(fields, off, types, (n - 1) as nat);
    }
}

proof fn starter_found(fields: Seq<TypeField>, off: int, n: nat, i: int)
    requires
        -1 <= i < n <= fields.len(),
        i >= 0 ==> fields[i].offset <= off,
        forall|k: int| i < k < n ==> (#[trigger] fields[k]).offset > off,
    ensures
        starter(fields, off, n) == i,
    decreases n,
{
    if n > 0 && i < n - 1 {
        starter_found(fields, off, (n - 1) as nat, i);
    }
}

/// What the search for the start of a field gives starts at or before the byte.
pub proof fn starter_starts(fields: Seq<TypeField>, off: int, n: nat)
    requires
        n <= fields.len(),
    ensures
        -1 <= starter(fields, off, n) < n,
        starter(fields, off, n) >= 0 ==> fields[starter(fields, off, n)].offset <= off,
    decreases n,
{
    if n > 0 {
        starter_starts(fields, off, (n - 1) as nat);
    }
}

/// The position, at or after `i`, of the first bit field that ends after a byte.
pub open spec fn first_bits_after(bits: Seq<TypeBitField>, off: int, i: nat) -> nat
    decreases bits.len() - i,
{
    if i < bits.len() && off >= bits[i as int].bits.byte_offset + bits[i as int].bits.byte_size {
        first_bits_after(bits, off, i + 1)
    } else {
        i
    }
}

/// The position, at or after `i`, of the first field that ends after a byte.
pub open spec fn first_field_after(fields: Seq<TypeField>, off: int, types: TypeFactory, i: nat) -> nat
    decreases fields.len() - i,
{
    if i < fields.len() && off >= fields[i as int].end(types) {
        first_field_after(fields, off, types, i + 1)
    } else {
        i
    }
}

/// The bit fields of a structure, from a position on, that share bits with a range.
pub open spec fn bits_in_range(
    ct: TypeId,
    bits: Seq<TypeBitField>,
    range: BitRange,
    base: i32,
    i: nat,
) -> Seq<BitFieldTriple>
    decreases bits.len() - i,
{
    if i >= bits.len() || bits[i as int].bits.overlap(range) == 1 {
        Seq::empty()
    } else if bits[i as int].bits.overlap(range) == -1 {
        bits_in_range(ct, bits, range, base, i + 1)
    } else {
        seq![BitFieldTriple { immed_container: ct, bitfield: i as usize, offset: base }] + bits_in_range(
            ct,
            bits,
            range,
            base,
            i + 1,
        )
    }
}

/// The bit fields of a structure itself that share bits with a range of bytes.
pub open spec fn own_bits(ct: TypeId, bits: Seq<TypeBitField>, base: i32, offset: i32, sz: i32) -> Seq<BitFieldTriple> {
    let start = first_bits_after(bits, offset as int, 0);
    if start < bits.len() {
        bits_in_range(
            ct,
            bits,
            BitRange::bytes(offset, sz, bits[start as int].bits.is_big_endian),
            base,
            start,
        )
    } else {
        Seq::empty()
    }
}

/// All bit fields of a structure and of the structures in it that share bits
/// with a range of bytes.
pub open spec fn all_bits(ct: TypeId, d: Datatype, base: i32, offset: i32, sz: i32, types: TypeFactory) -> Seq<
    BitFieldTriple,
>
    decreases types.depth_of(d), d.fields().len() + 1,
    when types.rests(d) && d.kind is Struct
{
    own_bits(ct, d.bitfields(), base, offset, sz) + inner_bits(
        d,
        base,
        offset,
        sz,
        types,
        first_field_after(d.fields(), offset as int, types, 0),
    )
}

/// The bit fields, in the structures that are fields from a position on, that
/// share bits with a range of bytes.
pub open spec fn inner_bits(d: Datatype, base: i32, offset: i32, sz: i32, types: TypeFactory, i: nat) -> Seq<
    BitFieldTriple,
>
    decreases types.depth_of(d), (if i <= d.fields().len() { d.fields().len() - i } else { 0 }),
    when types.rests(d) && d.kind is Struct
{
    proof {
        types.parts(d);
    }
    if i >= d.fields().len() || d.fields()[i as int].offset >= offset.wrapping_add(sz) {
        Seq::empty()
    } else {
        let field = d.fields()[i as int];
        let inner = types.dt(field.tp);
        (if inner.kind is Struct && inner.flag(Datatype::HAS_BITFIELDS) {
            all_bits(
                field.tp,
                inner,
                base.wrapping_add(field.offset),
                offset.wrapping_sub(field.offset),
                sz,
                types,
            )
        } else {
            Seq::empty()
        }) + inner_bits(d, base, offset, sz, types, i + 1)
    }
}

fn bits_start(bits: &Vec<TypeBitField>, off: i32, types: &TypeFactory) -> (res: usize)
    requires
        types.bitfields_valid(bits@),
    ensures
        res == first_bits_after(bits@, off as int, 0),
        res <= bits@.len(),
{
    let mut i: usize = 0;
    while i < bits.len() && !TypeBitField::compare_max_byte(off, &bits[i])
        invariant
            types.bitfields_valid(bits@),
            i <= bits@.len(),
            first_bits_after(bits@, off as int, 0) == first_bits_after(bits@, off as int, i as nat),
        decreases bits@.len() - i,
    {
        i = i + 1;
    }
    i
}

fn fields_start(fields: &Vec<TypeField>, off: i32, types: &TypeFactory) -> (res: usize)
    requires
        forall|k: int| 0 <= k < fields@.len() ==> types.has((#[trigger] fields@[k]).tp) && fields@[k].end(*types)
            <= i32::MAX && fields@[k].end(*types) >= 0,
    ensures
        res == first_field_after(fields@, off as int, *types, 0),
        res <= fields@.len(),
{
    let mut i: usize = 0;
    while i < fields.len() && !TypeField::compare_max_byte(off, &fields[i], types)
        invariant
            forall|k: int| 0 <= k < fields@.len() ==> types.has((#[trigger] fields@[k]).tp) && fields@[k].end(*types)
                <= i32::MAX && fields@[k].end(*types) >= 0,
            i <= fields@.len(),
            first_field_after(fields@, off as int, *types, 0) == first_field_after(
                fields@,
                off as int,
                *types,
                i as nat,
            ),
        decreases fields@.len() - i,
    {
        i = i + 1;
    }
    i
}

impl Datatype {
    /// Gives a structure its fields.
    pub fn set_fields_struct(
        &mut self,
        fd: &[TypeField],
        bit: &[TypeBitField],
        new_size: i32,
        new_align: i32,
        single_fill: bool,
    )
        requires
            old(self).kind is Struct,
            new_size >= 0,
            new_align >= 1,
            crate::types::read::aligned(new_size as int, new_align as int) <= i32::MAX,
        ensures
            final(self).kind is Struct,
            final(self).fields() == fd@,
            final(self).bitfields() == bit@,
            *final(self) == (Datatype {
                kind: final(self).kind,
                size: new_size,
                alignment: new_align,
                align_size: crate::types::read::aligned(new_size as int, new_align as int) as i32,
                flags: (if single_fill {
                    old(self).flags | Datatype::NEEDS_RESOLUTION
                } else {
                    old(self).flags
                }),
                ..*old(self)
            }),
    {
        self.kind = TypeKind::Struct(
            crate::types::TypeStructData { field: copy_fields(fd), bitfield: copy_bitfields(bit) },
        );
        self.size = new_size;
        self.alignment = new_align;
        if single_fill {
            self.flags = self.flags | Datatype::NEEDS_RESOLUTION;
        }
        self.align_size = Datatype::calc_align_size(self.size, self.alignment);
    }

    /// Gives a union its fields.
    pub fn set_fields_union(&mut self, fd: &[TypeField], new_size: i32, new_align: i32)
        requires
            old(self).kind is Union,
            new_size >= 0,
            new_align >= 1,
            crate::types::read::aligned(new_size as int, new_align as int) <= i32::MAX,
        ensures
            final(self).kind is Union,
            final(self).fields() == fd@,
            *final(self) == (Datatype {
                kind: final(self).kind,
                size: new_size,
                alignment: new_align,
                align_size: crate::types::read::aligned(new_size as int, new_align as int) as i32,
                ..*old(self)
            }),
    {
        self.kind = TypeKind::Union(crate::types::TypeUnionData { field: copy_fields(fd) });
        self.size = new_size;
        self.alignment = new_align;
        self.align_size = Datatype::calc_align_size(self.size, self.alignment);
    }

    /// The field of a structure that a byte belongs to, or -1.
    pub fn get_field_iter(&self, off: i32, types: &TypeFactory) -> (res: i32)
        requires
            types.sound(),
            types.valid(*self),
            types.firm_kind(*self),
            self.kind is Struct,
        ensures
            res == field_holding(self.fields(), off as int, *types),
            -1 <= res < self.fields().len(),
            res >= 0 ==> self.fields()[res as int].holds(off as int, *types),
    {
        proof {
            types.parts(*self);
        }
        let TypeKind::Struct(data) = &self.kind else {
            return -1;
        };
        let field = &data.field;
        let mut min: i32 = 0;
        let mut max: i32 = field.len() as i32 - 1;
        while min <= max
            invariant
                types.fields_linked(field@, *self),
                types.firm_kind(*self),
                types.fields_in_order(field@),
                field@ == self.fields(),
                field@.len() <= i32::MAX,
                0 <= min <= max + 1 <= field@.len(),
                forall|k: int| 0 <= k < min ==> !(#[trigger] field@[k]).holds(off as int, *types),
                forall|k: int| max < k < field@.len() ==> !(#[trigger] field@[k]).holds(off as int, *types),
            decreases max - min + 1,
        {
            let mid: i32 = min + (max - min) / 2;
            let curfield = &field[mid as usize];
            if curfield.offset > off {
                assert forall|k: int| mid <= k < field@.len() implies !(#[trigger] field@[k]).holds(
                    off as int,
                    *types,
                ) by {
                    if k > mid {
                        assert(field@[mid as int].offset + types.size_of(field@[mid as int].tp) <= field@[k].offset);
                    }
                }
                max = mid - 1;
            } else {
                if curfield.offset + types.get(curfield.tp).get_size() > off {
                    proof {
                        holder_found(field@, off as int, *types, field@.len(), mid as int);
                    }
                    return mid;
                }
                assert forall|k: int| 0 <= k <= mid implies !(#[trigger] field@[k]).holds(off as int, *types) by {
                    if k < mid {
                        assert(field@[k].offset + types.size_of(field@[k].tp) <= field@[mid as int].offset);
                    }
                }
                min = mid + 1;
            }
        }
        proof {
            holder_missing(field@, off as int, *types, field@.len());
        }
        -1
    }

    /// The last field of a structure that starts at or before a byte, or -1.
    pub fn get_lower_bound_field(&self, off: i32, types: &TypeFactory) -> (res: i32)
        requires
            types.sound(),
            types.valid(*self),
            types.firm_kind(*self),
            self.kind is Struct,
        ensures
            res == field_starting(self.fields(), off as int),
            -1 <= res < self.fields().len(),
            res >= 0 ==> self.fields()[res as int].offset <= off,
    {
        proof {
            types.parts(*self);
        }
        let TypeKind::Struct(data) = &self.kind else {
            return -1;
        };
        let field = &data.field;
        if field.is_empty() {
            return -1;
        }
        let mut min: i32 = 0;
        let mut max: i32 = field.len() as i32 - 1;
        while min < max
            invariant
                types.fields_linked(field@, *self),
                types.firm_kind(*self),
                types.fields_in_order(field@),
                field@ == self.fields(),
                0 < field@.len() <= i32::MAX,
                0 <= min <= max < field@.len(),
                min > 0 ==> field@[min as int].offset <= off,
                forall|k: int| max < k < field@.len() ==> (#[trigger] field@[k]).offset > off,
            decreases max - min,
        {
            let mid: i32 = max - (max - min) / 2;
            if field[mid as usize].offset > off {
                assert forall|k: int| mid <= k < field@.len() implies (#[trigger] field@[k]).offset > off by {
                    if k > mid {
                        assert(field@[mid as int].offset + types.size_of(field@[mid as int].tp) <= field@[k].offset);
                    }
                }
                max = mid - 1;
            } else {
                min = mid;
            }
        }
        if field[min as usize].offset <= off {
            proof {
                starter_found(field@, off as int, field@.len(), min as int);
            }
            return min;
        }
        proof {
            starter_found(field@, off as int, field@.len(), -1);
        }
        -1
    }

    /// The bit fields are sorted and do not share bits.
    pub open spec fn bits_in_order(self) -> bool {
        forall|i: int, j: int| #![trigger self.bitfields()[i], self.bitfields()[j]]
            0 <= i < j < self.bitfields().len() ==> self.bitfields()[i].bits.end() <= self.bitfields()[j].bits.first()
                && self.bitfields()[i].bits.num_bits > 0 && self.bitfields()[j].bits.num_bits > 0
    }

    /// Finds the bit field that holds exactly the bits of a range.
    pub fn find_matching_bit_field(&self, range: &BitRange) -> (res: Option<&TypeBitField>)
        requires
            self.kind is Struct,
            self.bitfields().len() <= i32::MAX,
            self.bits_in_order(),
            range.num_bits > 0,
        ensures
            match res {
                Some(bit) => exists|i: int|
                    0 <= i < self.bitfields().len() && #[trigger] self.bitfields()[i] == *bit && range.overlap(
                        self.bitfields()[i].bits,
                    ) == 0,
                None => forall|i: int|
                    0 <= i < self.bitfields().len() ==> range.overlap((#[trigger] self.bitfields()[i]).bits) != 0,
            },
    {
        let TypeKind::Struct(data) = &self.kind else {
            return None;
        };
        let bitfield = &data.bitfield;
        let mut min: i32 = 0;
        let mut max: i32 = bitfield.len() as i32 - 1;
        while min <= max
            invariant
                bitfield@ == self.bitfields(),
                self.bits_in_order(),
                range.num_bits > 0,
                bitfield@.len() <= i32::MAX,
                0 <= min <= max + 1 <= bitfield@.len(),
                forall|k: int| 0 <= k < min ==> range.overlap((#[trigger] bitfield@[k]).bits) != 0,
                forall|k: int| max < k < bitfield@.len() ==> range.overlap((#[trigger] bitfield@[k]).bits) != 0,
            decreases max - min + 1,
        {
            let mid: i32 = min + (max - min) / 2;
            let curfield = &bitfield[mid as usize];
            let code: i32 = range.overlap_test(&curfield.bits);
            if code == 0 {
                assert(self.bitfields()[mid as int] == *curfield);
                return Some(curfield);
            }
            if code == -1 {
                assert forall|k: int| mid <= k < bitfield@.len() implies range.overlap(
                    (#[trigger] bitfield@[k]).bits,
                ) != 0 by {
                    if k > mid {
                        assert(self.bitfields()[mid as int].bits.end() <= self.bitfields()[k].bits.first());
                    }
                }
                max = mid - 1;
            } else if code == 1 {
                assert forall|k: int| 0 <= k <= mid implies range.overlap((#[trigger] bitfield@[k]).bits) != 0 by {
                    if k < mid {
                        assert(self.bitfields()[k].bits.end() <= self.bitfields()[mid as int].bits.first());
                    }
                }
                min = mid + 1;
            } else {
                assert forall|k: int| 0 <= k < bitfield@.len() implies range.overlap(
                    (#[trigger] bitfield@[k]).bits,
                ) != 0 by {
                    if k < mid {
                        assert(self.bitfields()[k].bits.end() <= self.bitfields()[mid as int].bits.first());
                    }
                    if k > mid {
                        assert(self.bitfields()[mid as int].bits.end() <= self.bitfields()[k].bits.first());
                    }
                }
                return None;
            }
        }
        None
    }

    /// Collects the bit fields, of a structure and of the structures in it, that
    /// share bits with a range of bytes.
    pub fn collect_bit_fields(
        ct: TypeId,
        base_offset: i32,
        res: &mut Vec<BitFieldTriple>,
        offset: i32,
        sz: i32,
        types: &TypeFactory,
    )
        requires
            types.sound(),
            types.firm(),
            types.has(ct),
            types.dt(ct).kind is Struct,
            -0x1000_0000 <= sz < 0x1000_0000,
        ensures
            final(res)@ == old(res)@ + all_bits(ct, types.dt(ct), base_offset, offset, sz, *types),
        decreases types.depth_of(types.dt(ct)),
    {
        proof {
            types.look(ct);
            types.parts(types.dt(ct));
        }
        let dt = types.get(ct);
        let TypeKind::Struct(data) = &dt.kind else {
            return;
        };
        let ghost before = res@;
        let start: usize = bits_start(&data.bitfield, offset, types);
        if start < data.bitfield.len() {
            let range = BitRange::new_bytes(offset, sz, data.bitfield[start].bits.is_big_endian);
            let mut index: usize = start;
            while index < data.bitfield.len()
                invariant_except_break
                    index <= data.bitfield@.len(),
                    res@ + bits_in_range(ct, data.bitfield@, range, base_offset, index as nat) == before
                        + bits_in_range(ct, data.bitfield@, range, base_offset, start as nat),
                ensures
                    res@ == before + bits_in_range(ct, data.bitfield@, range, base_offset, start as nat),
                decreases data.bitfield@.len() - index,
            {
                let code: i32 = data.bitfield[index].bits.overlap_test(&range);
                if code == 1 {
                    assert(res@ =~= res@ + bits_in_range(
                        ct,
                        data.bitfield@,
                        range,
                        base_offset,
                        index as nat,
                    ));
                    break;
                }
                if code != -1 {
                    let ghost old_res = res@;
                    res.push(BitFieldTriple::new(ct, index, base_offset));
                    assert(res@ + bits_in_range(ct, data.bitfield@, range, base_offset, (index + 1) as nat)
                        =~= old_res + bits_in_range(ct, data.bitfield@, range, base_offset, index as nat));
                }
                index = index + 1;
                assert(index == data.bitfield@.len() ==> res@ =~= res@ + bits_in_range(
                    ct,
                    data.bitfield@,
                    range,
                    base_offset,
                    index as nat,
                ));
            }
        }
        let ghost own = own_bits(ct, data.bitfield@, base_offset, offset, sz);
        assert(res@ =~= before + own);
        let fstart: usize = fields_start(&data.field, offset, types);
        let mut i: usize = fstart;
        while i < data.field.len()
            invariant_except_break
                types.sound(),
                types.rests(*dt),
                dt.kind is Struct,
                *dt == types.dt(ct),
                data.field@ == dt.fields(),
                types.linked(*dt),
                -0x1000_0000 <= sz < 0x1000_0000,
                i <= data.field@.len(),
                res@ + inner_bits(*dt, base_offset, offset, sz, *types, i as nat) == before + own + inner_bits(
                    *dt,
                    base_offset,
                    offset,
                    sz,
                    *types,
                    fstart as nat,
                ),
            ensures
                res@ == before + own + inner_bits(*dt, base_offset, offset, sz, *types, fstart as nat),
            decreases data.field@.len() - i,
        {
            let cur_field = &data.field[i];
            if cur_field.offset >= offset.wrapping_add(sz) {
                assert(res@ =~= res@ + inner_bits(*dt, base_offset, offset, sz, *types, i as nat));
                break;
            }
            let field_type = types.get(cur_field.tp);
            let ghost old_res = res@;
            if field_type.get_metatype() == TypeMetatype::Struct && field_type.has_bitfields() {
                Datatype::collect_bit_fields(
                    cur_field.tp,
                    base_offset.wrapping_add(cur_field.offset),
                    res,
                    offset.wrapping_sub(cur_field.offset),
                    sz,
                    types,
                );
            }
            i = i + 1;
            assert(res@ + inner_bits(*dt, base_offset, offset, sz, *types, i as nat) =~= old_res + inner_bits(
                *dt,
                base_offset,
                offset,
                sz,
                *types,
                (i - 1) as nat,
            ));
            assert(i == data.field@.len() ==> res@ =~= res@ + inner_bits(
                *dt,
                base_offset,
                offset,
                sz,
                *types,
                i as nat,
            ));
        }
        assert(res@ =~= before + all_bits(ct, types.dt(ct), base_offset, offset, sz, *types));
    }

    /// Whether a bit field, of the structure or of a structure in it, shares bits
    /// with a range of bytes.
    pub fn has_bit_fields_in_range(&self, offset: i32, sz: i32, types: &TypeFactory) -> (res: bool)
        requires
            types.sound(),
            types.rests(*self),
            self.kind is Struct,
            -0x1000_0000 <= sz < 0x1000_0000,
        ensures
            res == touches(*self, offset, sz, *types),
        decreases types.depth_of(*self),
    {
        proof {
            types.parts(*self);
        }
        let TypeKind::Struct(data) = &self.kind else {
            return false;
        };
        let start: usize = bits_start(&data.bitfield, offset, types);
        if start < data.bitfield.len() {
            let range = BitRange::new_bytes(offset, sz, data.bitfield[start].bits.is_big_endian);
            let mut index: usize = start;
            let mut passed = false;
            while index < data.bitfield.len() && !passed
                invariant
                    types.sound(),
                    types.rests(*self),
                    self.kind is Struct,
                    index <= data.bitfield@.len(),
                    start < data.bitfield@.len(),
                    start == first_bits_after(data.bitfield@, offset as int, 0),
                    range == BitRange::bytes(offset, sz, data.bitfield@[start as int].bits.is_big_endian),
                    data.bitfield@ == self.bitfields(),
                    !passed ==> bits_hit(data.bitfield@, range, index as nat) == bits_hit(
                        data.bitfield@,
                        range,
                        start as nat,
                    ),
                    passed ==> !bits_hit(data.bitfield@, range, start as nat),
                decreases data.bitfield@.len() - index,
            {
                let code: i32 = data.bitfield[index].bits.overlap_test(&range);
                if code == 1 {
                    passed = true;
                } else if code != -1 {
                    return true;
                }
                index = index + 1;
            }
        }
        assert(!own_touches(self.bitfields(), offset, sz));
        let fstart: usize = fields_start(&data.field, offset, types);
        let mut i: usize = fstart;
        while i < data.field.len()
            invariant
                types.sound(),
                types.rests(*self),
                self.kind is Struct,
                data.field@ == self.fields(),
                types.linked(*self),
                -0x1000_0000 <= sz < 0x1000_0000,
                i <= data.field@.len(),
                touches(*self, offset, sz, *types) == inner_touches(*self, offset, sz, *types, i as nat),
            decreases data.field@.len() - i,
        {
            let cur_field = &data.field[i];
            if cur_field.offset >= offset.wrapping_add(sz) {
                return false;
            }
            let field_type = types.get(cur_field.tp);
            if field_type.get_metatype() == TypeMetatype::Struct && field_type.has_bitfields()
                && field_type.has_bit_fields_in_range(offset.wrapping_sub(cur_field.offset), sz, types) {
                return true;
            }
            i = i + 1;
        }
        false
    }
}

/// Whether one of the bit fields from a position on shares bits with a range.
pub open spec fn bits_hit(bits: Seq<TypeBitField>, range: BitRange, i: nat) -> bool
    decreases bits.len() - i,
{
    i < bits.len() && bits[i as int].bits.overlap(range) != 1 && (bits[i as int].bits.overlap(range) != -1
        || bits_hit(bits, range, i + 1))
}

/// Whether one of the bit fields shares bits with a range of bytes.
pub open spec fn own_touches(bits: Seq<TypeBitField>, offset: i32, sz: i32) -> bool {
    let start = first_bits_after(bits, offset as int, 0);
    start < bits.len() && bits_hit(
        bits,
        BitRange::bytes(offset, sz, bits[start as int].bits.is_big_endian),
        start,
    )
}

/// Whether a bit field of a structure, or of a structure in it, shares bits with
/// a range of bytes.
pub open spec fn touches(d: Datatype, offset: i32, sz: i32, types: TypeFactory) -> bool
    decreases types.depth_of(d), d.fields().len() + 1,
    when types.rests(d) && d.kind is Struct
{
    own_touches(d.bitfields(), offset, sz) || inner_touches(
        d,
        offset,
        sz,
        types,
        first_field_after(d.fields(), offset as int, types, 0),
    )
}

/// Whether a bit field, in the structures that are fields from a position on,
/// shares bits with a range of bytes.
pub open spec fn inner_touches(d: Datatype, offset: i32, sz: i32, types: TypeFactory, i: nat) -> bool
    decreases types.depth_of(d), (if i <= d.fields().len() { d.fields().len() - i } else { 0 }),
    when types.rests(d) && d.kind is Struct
{
    proof {
        types.parts(d);
    }
    if i >= d.fields().len() || d.fields()[i as int].offset >= offset.wrapping_add(sz) {
        false
    } else {
        let field = d.fields()[i as int];
        let inner = types.dt(field.tp);
        (inner.kind is Struct && inner.flag(Datatype::HAS_BITFIELDS) && touches(
            inner,
            offset.wrapping_sub(field.offset),
            sz,
            types,
        )) || inner_touches(d, offset, sz, types, i + 1)
    }
}

proof fn hit_is_collected(ct: TypeId, bits: Seq<TypeBitField>, range: BitRange, base: i32, i: nat)
    ensures
        bits_hit(bits, range, i) <==> bits_in_range(ct, bits, range, base, i).len() > 0,
    decreases bits.len() - i,
{
    if i < bits.len() {
        hit_is_collected(ct, bits, range, base, i + 1);
    }
}

/// Bit fields share bits with a range exactly when collecting them gives some.
pub proof fn touching_is_collected(ct: TypeId, d: Datatype, base: i32, offset: i32, sz: i32, types: TypeFactory)
    requires
        types.sound(),
        types.rests(d),
        d.kind is Struct,
    ensures
        touches(d, offset, sz, types) <==> all_bits(ct, d, base, offset, sz, types).len() > 0,
    decreases types.depth_of(d), d.fields().len() + 1,
{
    let start = first_bits_after(d.bitfields(), offset as int, 0);
    if start < d.bitfields().len() {
        hit_is_collected(
            ct,
            d.bitfields(),
            BitRange::bytes(offset, sz, d.bitfields()[start as int].bits.is_big_endian),
            base,
            start,
        );
    }
    inner_touching_is_collected(d, base, offset, sz, types, first_field_after(d.fields(), offset as int, types, 0));
}

proof fn inner_touching_is_collected(d: Datatype, base: i32, offset: i32, sz: i32, types: TypeFactory, i: nat)
    requires
        types.sound(),
        types.rests(d),
        d.kind is Struct,
    ensures
        inner_touches(d, offset, sz, types, i) <==> inner_bits(d, base, offset, sz, types, i).len() > 0,
    decreases types.depth_of(d), (if i <= d.fields().len() { d.fields().len() - i } else { 0 }),
{
    types.parts(d);
    if i < d.fields().len() && d.fields()[i as int].offset < offset.wrapping_add(sz) {
        let field = d.fields()[i as int];
        let inner = types.dt(field.tp);
        if inner.kind is Struct && inner.flag(Datatype::HAS_BITFIELDS) {
            touching_is_collected(
                field.tp,
                inner,
                base.wrapping_add(field.offset),
                offset.wrapping_sub(field.offset),
                sz,
                types,
            );
        }
        inner_touching_is_collected(d, base, offset, sz, types, i + 1);
    }
}

} // verus!

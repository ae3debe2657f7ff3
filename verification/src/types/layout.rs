//! Laying out the fields of structures and unions.
use vstd::prelude::*;
use crate::error::{Error, Result};
use crate::text::is_empty_text;
use crate::address::BitRange;
use crate::types::{Datatype, TypeBitField, TypeFactory, TypeField, TypeMetatype};

verus! {

/// An offset raised to the next multiple of an alignment that is a power of two.
pub open spec fn raised(offset: i32, align: i32) -> i32 {
    let m = align.wrapping_sub(1);
    if m > 0 && (offset & m) != 0 {
        offset.wrapping_sub(offset & m).wrapping_add(align)
    } else {
        offset
    }
}

/// Raising an offset to a power of two gives the next multiple of it.
pub proof fn raised_is_aligned(offset: i32, align: i32, power: nat)
    requires
        offset >= 0,
        power < 31,
        align == vstd::arithmetic::power2::pow2(power),
        offset + align <= i32::MAX,
    ensures
        raised(offset, align) == crate::types::read::aligned(offset as int, align as int),
{
    vstd::arithmetic::power2::lemma_pow2_pos(power);
    let m = align.wrapping_sub(1);
    assert(m == align - 1);
    vstd::bits::lemma_u32_low_bits_mask_is_mod(offset as u32, power);
    let wide_offset = offset as u32;
    let wide_m = m as u32;
    assert((offset & m) == (wide_offset & wide_m) && 0 <= (offset & m) && (offset & m) <= offset) by (bit_vector)
        requires
            offset >= 0,
            m >= 0,
            wide_offset == offset as u32,
            wide_m == m as u32,
    ;
    assert(offset & m == offset as int % align as int);
    if m == 0 {
        assert(offset as int % 1 == 0);
    }
}

fn raise(offset: i32, align: i32) -> (res: i32)
    ensures
        res == raised(offset, align),
{
    let m: i32 = align.wrapping_sub(1);
    if m > 0 && (offset & m) != 0 {
        offset.wrapping_sub(offset & m).wrapping_add(align)
    } else {
        offset
    }
}

/// The end of the run of bit fields from a position on that belong to the same place.
pub open spec fn run_end(bits: Seq<TypeBitField>, ident: i32, i: int) -> int
    decreases bits.len() - i,
{
    if 0 <= i < bits.len() && bits[i].ident == ident {
        run_end(bits, ident, i + 1)
    } else {
        i
    }
}

proof fn run_end_inside(bits: Seq<TypeBitField>, ident: i32, i: int)
    requires
        0 <= i <= bits.len(),
    ensures
        i <= run_end(bits, ident, i) <= bits.len(),
    decreases bits.len() - i,
{
    if i < bits.len() {
        run_end_inside(bits, ident, i + 1);
    }
}

/// The bits that the bit fields of a range take up, modulo 2^32.
pub open spec fn bits_taken(bits: Seq<TypeBitField>, start: int, end: int) -> i32
    decreases end - start,
{
    if start < end {
        bits_taken(bits, start, end - 1).wrapping_add(bits[end - 1].bits.num_bits)
    } else {
        0
    }
}

/// The bytes that hold a number of bits.
pub open spec fn bytes_for(num_bits: i32) -> i32 {
    crate::space::trunc_div(num_bits.wrapping_add(7) as int, 8) as i32
}

/// A bit field in its place in a run.
pub open spec fn placed(bits: Seq<TypeBitField>, start: int, end: int, offset: i32, k: int) -> TypeBitField {
    TypeBitField {
        bits: BitRange {
            byte_offset: offset,
            byte_size: bytes_for(bits_taken(bits, start, end)),
            least_sig_bit: bits_taken(bits, start, k),
            ..bits[k].bits
        },
        ident: k as i32,
        ..bits[k]
    }
}

/// The bit fields after the ones of a run have got their place. The run is turned
/// round on a big endian machine.
pub open spec fn run_placed(bits: Seq<TypeBitField>, start: int, end: int, offset: i32) -> Seq<TypeBitField> {
    Seq::new(
        bits.len(),
        |i: int|
            if start <= i < end {
                if bits[start].bits.is_big_endian && end - start > 1 {
                    placed(bits, start, end, offset, start + end - 1 - i)
                } else {
                    placed(bits, start, end, offset, i)
                }
            } else {
                bits[i]
            },
    )
}

/// The greater of two alignments.
pub open spec fn wider(a: i32, b: i32) -> i32 {
    if b > a {
        b
    } else {
        a
    }
}

/// A structure while its fields are being laid out.
pub ghost struct Layout {
    pub fields: Seq<TypeField>,
    pub bits: Seq<TypeBitField>,
    /// The first bit field that has no place yet.
    pub bit_index: int,
    /// The field that the next bit fields stand before.
    pub bit_place: int,
    pub offset: i32,
    pub align: i32,
    pub flags: u32,
}

impl Layout {
    /// The layout before any field has a place.
    pub open spec fn start(fields: Seq<TypeField>, bits: Seq<TypeBitField>) -> Layout {
        Layout {
            fields,
            bits,
            bit_index: if bits.len() > 0 {
                0
            } else {
                -1
            },
            bit_place: if bits.len() > 0 {
                bits[0].ident as int
            } else {
                -1
            },
            offset: 0,
            align: 1,
            flags: 0,
        }
    }

    /// The layout after the next run of bit fields has got its place.
    pub open spec fn with_run(self, types: TypeFactory) -> Layout {
        let start = self.bit_index;
        let end = run_end(self.bits, self.bits[start].ident, start);
        let align = types.dt(self.bits[start].tp).alignment;
        let offset = raised(self.offset, align);
        let bits = run_placed(self.bits, start, end, offset);
        Layout {
            bits,
            bit_index: end,
            bit_place: if end < bits.len() {
                bits[end].ident as int
            } else {
                self.bit_place
            },
            offset: offset.wrapping_add(bytes_for(bits_taken(self.bits, start, end))),
            align: wider(self.align, align),
            ..self
        }
    }

    /// The layout after the bit fields before a field have got their place.
    pub open spec fn with_bits_before(self, i: int, types: TypeFactory) -> Layout {
        if i == self.bit_place {
            self.with_run(types)
        } else {
            self
        }
    }

    /// The layout after a field has got its place, if it did not have one.
    pub open spec fn with_field(self, i: int, types: TypeFactory) -> Layout {
        let field = self.fields[i];
        let tp = types.dt(field.tp);
        if field.offset != -1 {
            self
        } else {
            let offset = raised(self.offset, tp.alignment);
            Layout {
                fields: self.fields.update(i, TypeField { offset, ident: offset, ..field }),
                offset: offset.wrapping_add(tp.align_size),
                align: wider(self.align, tp.alignment),
                flags: if tp.flag(Datatype::HAS_BITFIELDS) {
                    self.flags | Datatype::HAS_BITFIELDS
                } else {
                    self.flags
                },
                ..self
            }
        }
    }

    /// The layout after the first `n` fields, and the bit fields before them,
    /// have got their places.
    pub open spec fn upto(fields: Seq<TypeField>, bits: Seq<TypeBitField>, types: TypeFactory, n: nat) -> Layout
        decreases n,
    {
        if n == 0 {
            Layout::start(fields, bits)
        } else {
            Layout::upto(fields, bits, types, (n - 1) as nat).with_bits_before(n - 1, types).with_field(n - 1, types)
        }
    }

    /// The layout after all fields and bit fields have got their places.
    pub open spec fn complete(fields: Seq<TypeField>, bits: Seq<TypeBitField>, types: TypeFactory) -> Layout {
        let all = Layout::upto(fields, bits, types, fields.len());
        let last = all.with_bits_before(fields.len() as int, types);
        Layout {
            flags: if bits.len() > 0 {
                last.flags | Datatype::HAS_BITFIELDS
            } else {
                last.flags
            },
            ..last
        }
    }

    /// What holds of a layout before the field at a position gets its place.
    pub open spec fn sensible(self, i: int) -> bool {
        &&& self.bits.len() <= i32::MAX
        &&& self.bits.len() == 0 ==> self.bit_index == -1 && self.bit_place == -1
        &&& self.bits.len() > 0 ==> 0 <= self.bit_index <= self.bits.len()
        &&& 0 <= self.bit_index < self.bits.len() ==> self.bit_place == self.bits[self.bit_index].ident
        &&& self.bits.len() > 0 && self.bit_index == self.bits.len() ==> self.bit_place < i
    }
}

/// The first field that has no size, from a position on.
pub open spec fn first_void(fields: Seq<TypeField>, types: TypeFactory, i: nat) -> nat
    decreases fields.len() - i,
{
    if i < fields.len() && !(types.dt(fields[i as int].tp).metatype is Void) {
        first_void(fields, types, i + 1)
    } else {
        i
    }
}

pub proof fn first_void_inside(fields: Seq<TypeField>, types: TypeFactory, i: nat)
    requires
        i <= fields.len(),
    ensures
        first_void(fields, types, i) <= fields.len(),
    decreases fields.len() - i,
{
    if i < fields.len() {
        first_void_inside(fields, types, i + 1);
    }
}

/// The size of a structure whose fields end at an offset.
pub open spec fn total_size(offset: i32, align: i32) -> int {
    crate::types::read::aligned(offset as int, align as int)
}

/// The message for a structure or a union with a name.
pub open spec fn about(text: Seq<char>, d: Option<&Datatype>) -> Seq<char> {
    text + (match d {
        Some(dt) => dt.name@,
        None => Seq::empty(),
    })
}

fn message_about(text: &str, d: Option<&Datatype>) -> (res: String)
    ensures
        res@ == about(text@, d),
{
    let mut res = String::new();
    res.push_str(text);
    if let Some(dt) = d {
        res.push_str(dt.get_name());
    }
    assert(res@ =~= about(text@, d));
    res
}

impl Datatype {
    /// Gives the next run of bit fields its place.
    pub fn assign_contiguous_bitfields(
        bitlist: &mut Vec<TypeBitField>,
        pos: &mut i32,
        offset: &mut i32,
        new_align: &mut i32,
        types: &TypeFactory,
    )
        requires
            0 <= *old(pos) < old(bitlist)@.len() <= i32::MAX,
            types.has(old(bitlist)@[*old(pos) as int].tp),
        ensures
            ({
                let start = *old(pos) as int;
                let end = run_end(old(bitlist)@, old(bitlist)@[start].ident, start);
                let align = types.dt(old(bitlist)@[start].tp).alignment;
                let first = raised(*old(offset), align);
                &&& *final(pos) == end
                &&& start < end <= old(bitlist)@.len()
                &&& *final(new_align) == wider(*old(new_align), align)
                &&& *final(offset) == first.wrapping_add(bytes_for(bits_taken(old(bitlist)@, start, end)))
                &&& final(bitlist)@ == run_placed(old(bitlist)@, start, end, first)
            }),
    {
        let ghost before = bitlist@;
        let start_ind: i32 = *pos;
        let next_bit_pos: i32 = bitlist[start_ind as usize].ident;
        let mut total_bits: i32 = 0;
        let ghost end = run_end(before, before[start_ind as int].ident, start_ind as int);
        proof {
            run_end_inside(before, next_bit_pos, start_ind + 1);
        }
        while (*pos as usize) < bitlist.len() && bitlist[*pos as usize].ident == next_bit_pos
            invariant
                bitlist@ == before,
                before.len() <= i32::MAX,
                0 <= start_ind <= *pos <= before.len(),
                total_bits == bits_taken(before, start_ind as int, *pos as int),
                run_end(before, next_bit_pos, start_ind as int) == run_end(before, next_bit_pos, *pos as int),
            decreases before.len() - *pos,
        {
            total_bits = total_bits.wrapping_add(bitlist[*pos as usize].bits.num_bits);
            *pos = *pos + 1;
        }
        assert(*pos == end);
        let align: i32 = types.get(bitlist[start_ind as usize].tp).get_alignment();
        if align > *new_align {
            *new_align = align;
        }
        *offset = raise(*offset, align);
        let ghost first = *offset;
        let total_size: i32 = total_bits.wrapping_add(7) / 8;
        let mut lsb: i32 = 0;
        let mut index: i32 = start_ind;
        while index < *pos
            invariant
                before.len() <= i32::MAX,
                0 <= start_ind <= index <= *pos <= before.len(),
                *pos == end,
                *offset == first,
                bitlist@.len() == before.len(),
                total_size == bytes_for(bits_taken(before, start_ind as int, end)),
                lsb == bits_taken(before, start_ind as int, index as int),
                forall|k: int|
                    start_ind <= k < index ==> (#[trigger] bitlist@[k]) == placed(
                        before,
                        start_ind as int,
                        end,
                        first,
                        k,
                    ),
                forall|k: int|
                    0 <= k < before.len() && !(start_ind <= k < index) ==> (#[trigger] bitlist@[k]) == before[k],
            decreases *pos - index,
        {
            let mut bitfield = bitlist[index as usize].copy();
            bitfield.bits.byte_offset = *offset;
            bitfield.bits.byte_size = total_size;
            bitfield.bits.least_sig_bit = lsb;
            lsb = lsb.wrapping_add(bitfield.bits.num_bits);
            bitfield.ident = index;
            bitlist.set(index as usize, bitfield);
            index = index + 1;
        }
        *offset = offset.wrapping_add(total_size);
        if bitlist[start_ind as usize].bits.is_big_endian && (*pos - start_ind) > 1 {
            turn_round(bitlist, start_ind as usize, *pos as usize);
        }
        assert(bitlist@ =~= run_placed(before, start_ind as int, end, first));
    }
}

/// Turns a range of bit fields round.
fn turn_round(bitlist: &mut Vec<TypeBitField>, start: usize, end: usize)
    requires
        start <= end <= old(bitlist)@.len(),
    ensures
        final(bitlist)@.len() == old(bitlist)@.len(),
        forall|k: int|
            start <= k < end ==> (#[trigger] final(bitlist)@[k]) == old(bitlist)@[start + end - 1 - k],
        forall|k: int|
            0 <= k < old(bitlist)@.len() && !(start <= k < end) ==> (#[trigger] final(bitlist)@[k]) == old(bitlist)@[k],
{
    let ghost before = bitlist@;
    let mut low: usize = start;
    let mut high: usize = end;
    while low < high && high - low > 1
        invariant
            start <= low <= high <= end <= before.len(),
            low - start == end - high,
            bitlist@.len() == before.len(),
            forall|k: int| low <= k < high ==> (#[trigger] bitlist@[k]) == before[k],
            forall|k: int|
                start <= k < low || high <= k < end ==> (#[trigger] bitlist@[k]) == before[start + end - 1 - k],
            forall|k: int|
                0 <= k < before.len() && !(start <= k < end) ==> (#[trigger] bitlist@[k]) == before[k],
        decreases high - low,
    {
        let a = bitlist[low].copy();
        let b = bitlist[high - 1].copy();
        bitlist.set(low, b);
        bitlist.set(high - 1, a);
        low = low + 1;
        high = high - 1;
    }
}

impl Datatype {
    /// Gives the fields of a structure their places. A field with an offset keeps
    /// it; the others follow one another as their alignments allow. The number in
    /// a bit field says which field it stands before.
    pub fn assign_field_offsets_struct(
        list: &mut Vec<TypeField>,
        bitlist: &mut Vec<TypeBitField>,
        new_size: &mut i32,
        new_align: &mut i32,
        flags: &mut u32,
        st: Option<&Datatype>,
        types: &TypeFactory,
    ) -> (res: Result<()>)
        requires
            old(list)@.len() < i32::MAX,
            old(bitlist)@.len() <= i32::MAX,
            forall|i: int| #![trigger old(list)@[i]] 0 <= i < old(list)@.len() ==> types.has(old(list)@[i].tp),
            forall|i: int| #![trigger old(bitlist)@[i]]
                0 <= i < old(bitlist)@.len() ==> types.has(old(bitlist)@[i].tp),
            ({
                let all = Layout::complete(old(list)@, old(bitlist)@, *types);
                all.offset >= 0 && total_size(all.offset, all.align) <= i32::MAX
            }),
        ensures
            ({
                let first = first_void(old(list)@, *types, 0);
                let all = Layout::complete(old(list)@, old(bitlist)@, *types);
                if first < old(list)@.len() {
                    let some = Layout::upto(old(list)@, old(bitlist)@, *types, first).with_bits_before(
                        first as int,
                        *types,
                    );
                    &&& res matches Err(e) && e.is_lowlevel(about("Illegal field void in structure: "@, st))
                    &&& final(list)@ == some.fields
                    &&& final(bitlist)@ == some.bits
                    &&& *final(new_align) == some.align
                    &&& *final(flags) == some.flags
                    &&& *final(new_size) == *old(new_size)
                } else {
                    &&& final(list)@ == all.fields
                    &&& final(bitlist)@ == all.bits
                    &&& *final(new_align) == all.align
                    &&& if all.bits.len() > 0 && all.bit_index != all.bits.len() {
                        res matches Err(e) && e.is_lowlevel(
                            about("Malformed bitfield description in structure: "@, st),
                        )
                    } else {
                        res is Ok && *final(flags) == all.flags && *final(new_size) == total_size(
                            all.offset,
                            all.align,
                        )
                    }
                }
            }),
    {
        let ghost fields0 = list@;
        let ghost bits0 = bitlist@;
        let mut next_bit_pos: i32 = -1;
        let mut cur_bit_ind: i32 = -1;
        if bitlist.len() > 0 {
            cur_bit_ind = 0;
            next_bit_pos = bitlist[0].ident;
        }
        let mut offset: i32 = 0;
        *new_align = 1;
        *flags = 0;
        let mut pos: usize = 0;
        let ghost mut state = Layout::start(fields0, bits0);
        while pos < list.len()
            invariant
                fields0 == old(list)@,
                bits0 == old(bitlist)@,
                pos <= list@.len(),
                list@.len() == fields0.len() < i32::MAX,
                bitlist@.len() == bits0.len() <= i32::MAX,
                forall|i: int| #![trigger fields0[i]] 0 <= i < fields0.len() ==> types.has(fields0[i].tp),
                forall|i: int| #![trigger bitlist@[i]] 0 <= i < bitlist@.len() ==> types.has(bitlist@[i].tp),
                forall|i: int| #![trigger list@[i]] 0 <= i < list@.len() ==> list@[i].tp == fields0[i].tp,
                forall|i: int| #![trigger list@[i]] pos <= i < list@.len() ==> list@[i] == fields0[i],
                state == Layout::upto(fields0, bits0, *types, pos as nat),
                state.sensible(pos as int),
                list@ == state.fields,
                bitlist@ == state.bits,
                cur_bit_ind == state.bit_index,
                next_bit_pos == state.bit_place,
                offset == state.offset,
                *new_align == state.align,
                *new_align >= 1,
                *flags == state.flags,
                *new_size == *old(new_size),
                first_void(fields0, *types, 0) == first_void(fields0, *types, pos as nat),
            decreases list@.len() - pos,
        {
            let ghost with_bits = state.with_bits_before(pos as int, *types);
            if pos as i32 == next_bit_pos {
                proof {
                    run_end_inside(bitlist@, bitlist@[cur_bit_ind as int].ident, cur_bit_ind as int);
                }
                Datatype::assign_contiguous_bitfields(bitlist, &mut cur_bit_ind, &mut offset, new_align, types);
                if (cur_bit_ind as usize) < bitlist.len() {
                    next_bit_pos = bitlist[cur_bit_ind as usize].ident;
                }
            }
            let mut cur_field = list[pos].copy();
            let field_type = types.get(cur_field.tp);
            if field_type.get_metatype() == TypeMetatype::Void {
                return Err(Error::Lowlevel(message_about("Illegal field void in structure: ", st)));
            }
            proof {
                state = with_bits.with_field(pos as int, *types);
            }
            if cur_field.offset == -1 {
                let cursize: i32 = field_type.get_align_size();
                let align: i32 = field_type.get_alignment();
                if align > *new_align {
                    *new_align = align;
                }
                offset = raise(offset, align);
                cur_field.offset = offset;
                cur_field.ident = offset;
                list.set(pos, cur_field);
                offset = offset.wrapping_add(cursize);
                if field_type.has_bitfields() {
                    *flags = *flags | Datatype::HAS_BITFIELDS;
                }
            }
            pos = pos + 1;
        }
        let ghost all = Layout::complete(fields0, bits0, *types);
        if next_bit_pos >= 0 && list.len() == next_bit_pos as usize {
            proof {
                run_end_inside(bitlist@, bitlist@[cur_bit_ind as int].ident, cur_bit_ind as int);
            }
            Datatype::assign_contiguous_bitfields(bitlist, &mut cur_bit_ind, &mut offset, new_align, types);
        }
        if bitlist.len() > 0 && cur_bit_ind as usize != bitlist.len() {
            return Err(Error::Lowlevel(message_about("Malformed bitfield description in structure: ", st)));
        }
        if bitlist.len() > 0 {
            *flags = *flags | Datatype::HAS_BITFIELDS;
        }
        *new_size = Datatype::calc_align_size(offset, *new_align);
        Ok(())
    }

    /// Puts the fields of a union at its start.
    pub fn assign_field_offsets_union(
        list: &mut Vec<TypeField>,
        new_size: &mut i32,
        new_align: &mut i32,
        flags: &mut u32,
        tu: Option<&Datatype>,
        types: &TypeFactory,
    ) -> (res: Result<()>)
        requires
            forall|i: int| #![trigger old(list)@[i]] 0 <= i < old(list)@.len() ==> types.has(old(list)@[i].tp),
        ensures
            ({
                let n = first_bad(old(list)@, *types, 0);
                &&& n <= old(list)@.len()
                &&& *final(flags) == 0
                &&& *final(new_size) == greatest_size(old(list)@, *types, n)
                &&& *final(new_align) == greatest_align(old(list)@, *types, n)
                &&& final(list)@ == at_start(old(list)@, n)
                &&& if n == old(list)@.len() {
                    res is Ok
                } else if types.dt(old(list)@[n as int].tp).metatype is Void {
                    res matches Err(e) && e.is_lowlevel(about("Bad field data-type for union: "@, tu))
                } else {
                    res matches Err(e) && e.is_lowlevel(about("Bad field name for union: "@, tu))
                }
            }),
    {
        let ghost fields0 = list@;
        *new_size = 0;
        *new_align = 1;
        *flags = 0;
        let mut i: usize = 0;
        assert(list@ =~= at_start(fields0, 0));
        while i < list.len()
            invariant
                fields0 == old(list)@,
                i <= list@.len(),
                list@.len() == fields0.len(),
                forall|k: int| #![trigger fields0[k]] 0 <= k < fields0.len() ==> types.has(fields0[k].tp),
                list@ == at_start(fields0, i as nat),
                *flags == 0,
                *new_size == greatest_size(fields0, *types, i as nat),
                *new_align == greatest_align(fields0, *types, i as nat),
                first_bad(fields0, *types, 0) == first_bad(fields0, *types, i as nat),
            decreases list@.len() - i,
        {
            let mut field = list[i].copy();
            assert(list@[i as int] == fields0[i as int]);
            let ct = types.get(field.tp);
            if ct.get_metatype() == TypeMetatype::Void {
                return Err(Error::Lowlevel(message_about("Bad field data-type for union: ", tu)));
            } else if is_empty_text(field.name.as_str()) {
                return Err(Error::Lowlevel(message_about("Bad field name for union: ", tu)));
            }
            field.offset = 0;
            list.set(i, field);
            let end: i32 = ct.get_size();
            if end > *new_size {
                *new_size = end;
            }
            let cur_align: i32 = ct.get_alignment();
            if cur_align > *new_align {
                *new_align = cur_align;
            }
            i = i + 1;
            assert(list@ =~= at_start(fields0, i as nat));
        }
        Ok(())
    }
}

/// The first field that a union cannot have, from a position on.
pub open spec fn first_bad(fields: Seq<TypeField>, types: TypeFactory, i: nat) -> nat
    decreases fields.len() - i,
{
    if i < fields.len() && !(types.dt(fields[i as int].tp).metatype is Void) && fields[i as int].name@.len() > 0 {
        first_bad(fields, types, i + 1)
    } else {
        i
    }
}

/// The greatest size of the first `n` fields.
pub open spec fn greatest_size(fields: Seq<TypeField>, types: TypeFactory, n: nat) -> i32
    decreases n,
{
    if n == 0 {
        0
    } else {
        wider(greatest_size(fields, types, (n - 1) as nat), types.dt(fields[n - 1].tp).size)
    }
}

/// The greatest alignment of the first `n` fields.
pub open spec fn greatest_align(fields: Seq<TypeField>, types: TypeFactory, n: nat) -> i32
    decreases n,
{
    if n == 0 {
        1
    } else {
        wider(greatest_align(fields, types, (n - 1) as nat), types.dt(fields[n - 1].tp).alignment)
    }
}

/// The fields after the first `n` have been put at the start.
pub open spec fn at_start(fields: Seq<TypeField>, n: nat) -> Seq<TypeField> {
    Seq::new(
        fields.len(),
        |i: int|
            if i < n {
                TypeField { offset: 0, ..fields[i] }
            } else {
                fields[i]
            },
    )
}

/// The size of a union holds each of its fields.
pub proof fn union_holds_fields(fields: Seq<TypeField>, types: TypeFactory, n: nat, i: int)
    requires
        0 <= i < n <= fields.len(),
    ensures
        types.dt(fields[i].tp).size <= greatest_size(fields, types, n),
        types.dt(fields[i].tp).alignment <= greatest_align(fields, types, n),
    decreases n,
{
    if i < n - 1 {
        union_holds_fields(fields, types, (n - 1) as nat, i);
    }
}

} // verus!

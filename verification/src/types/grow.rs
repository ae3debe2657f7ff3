//! Adding data-types to the factory.
use vstd::prelude::*;
use crate::error::{Error, Result};
use crate::ids::TypeId;
use crate::text::{is_empty_text, push_numeral, same_text};
use crate::types::{Datatype, NamedType, TypeFactory, TypeField, TypeKind, TypeMetatype};

verus! {

/// Setting bits that a mask does not look at changes nothing for the mask.
pub proof fn unmasked_bits(flags: u32, bits: u32, mask: u32)
    requires
        bits & mask == 0,
    ensures
        (flags | bits) & mask == flags & mask,
{
    assert((flags | bits) & mask == flags & mask) by (bit_vector)
        requires
            bits & mask == 0,
    ;
}

/// The properties that only some kinds can have.
pub open spec fn kind_bits() -> u32 {
    0x40104
}

/// The properties that any kind can have.
pub proof fn free_bits()
    ensures
        Datatype::CORETYPE & kind_bits() == 0,
        Datatype::CHARTYPE & kind_bits() == 0,
        Datatype::UTF16 & kind_bits() == 0,
        Datatype::UTF32 & kind_bits() == 0,
        Datatype::NEEDS_RESOLUTION & kind_bits() == 0,
        Datatype::POINTER_TO_ARRAY & kind_bits() == 0,
        Datatype::TRUNCATE_BIGENDIAN & kind_bits() == 0,
        Datatype::IS_PTRREL & kind_bits() == 0,
        Datatype::WARNING_ISSUED & kind_bits() == 0,
        Datatype::TYPE_INCOMPLETE & kind_bits() == 0,
        (Datatype::TYPE_INCOMPLETE | Datatype::NEEDS_RESOLUTION) & kind_bits() == 0,
        (Datatype::CORETYPE | Datatype::WARNING_ISSUED) & kind_bits() == 0,
        0u32 & kind_bits() == 0,
{
    assert(0u32 & 0x40104u32 == 0 && 1u32 & 0x40104u32 == 0 && 2u32 & 0x40104u32 == 0 && 16u32 & 0x40104u32 == 0
        && 32u32 & 0x40104u32 == 0 && 0x800u32 & 0x40104u32 == 0 && 0x10000u32 & 0x40104u32 == 0 && 0x8000u32
        & 0x40104u32 == 0 && 0x200u32 & 0x40104u32 == 0 && 0x20000u32 & 0x40104u32 == 0 && 0x400u32 & 0x40104u32
        == 0 && (0x400u32 | 0x800u32) & 0x40104u32 == 0 && (1u32 | 0x20000u32) & 0x40104u32 == 0) by (bit_vector);
}

/// Properties that agree on the bits for particular kinds agree on each of them.
pub proof fn same_kind_bits(a: u32, b: u32)
    requires
        a & kind_bits() == b & kind_bits(),
    ensures
        (a & Datatype::HAS_STRIPPED != 0) == (b & Datatype::HAS_STRIPPED != 0),
        (a & Datatype::ENUMTYPE != 0) == (b & Datatype::ENUMTYPE != 0),
        (a & Datatype::HAS_BITFIELDS != 0) == (b & Datatype::HAS_BITFIELDS != 0),
        b == 0 ==> a & Datatype::HAS_STRIPPED == 0 && a & Datatype::ENUMTYPE == 0 && a & Datatype::HAS_BITFIELDS == 0,
{
    assert((a & 0x100u32) == (b & 0x100u32) && (a & 4u32) == (b & 4u32) && (a & 0x40000u32) == (b & 0x40000u32) && (b
        == 0 ==> a & 0x100u32 == 0 && a & 4u32 == 0 && a & 0x40000u32 == 0)) by (bit_vector)
        requires
            a & 0x40104u32 == b & 0x40104u32,
    ;
}

/// Properties without bits for particular kinds fit every kind.
pub proof fn free_flags_fit(d: Datatype)
    requires
        d.flags & kind_bits() == 0,
    ensures
        d.flags_fit(),
{
    free_bits();
    same_kind_bits(d.flags, 0);
}

/// Adding properties that any kind can have.
pub proof fn freely_added(flags: u32, bits: u32)
    requires
        bits & kind_bits() == 0,
    ensures
        (flags | bits) & kind_bits() == flags & kind_bits(),
        ((flags | bits) & Datatype::HAS_STRIPPED != 0) == (flags & Datatype::HAS_STRIPPED != 0),
        ((flags | bits) & Datatype::ENUMTYPE != 0) == (flags & Datatype::ENUMTYPE != 0),
        ((flags | bits) & Datatype::HAS_BITFIELDS != 0) == (flags & Datatype::HAS_BITFIELDS != 0),
{
    unmasked_bits(flags, bits, kind_bits());
    same_kind_bits(flags | bits, flags);
}

impl TypeFactory {
    /// The settings of two factories are the same.
    pub open spec fn same_settings(self, before: TypeFactory) -> bool {
        &&& self.size_of_int == before.size_of_int
        &&& self.size_of_long == before.size_of_long
        &&& self.size_of_char == before.size_of_char
        &&& self.size_of_wchar == before.size_of_wchar
        &&& self.size_of_pointer == before.size_of_pointer
        &&& self.size_of_alt_pointer == before.size_of_alt_pointer
        &&& self.enumsize == before.enumsize
        &&& self.enumtype == before.enumtype
        &&& self.align_map == before.align_map
        &&& self.default_data_space == before.default_data_space
        &&& self.max_basetype_size == before.max_basetype_size
    }

    /// What the factory keeps of data-types beside the data-types is the same.
    pub open spec fn same_notes(self, before: TypeFactory) -> bool {
        &&& self.typecache == before.typecache
        &&& self.typecache10 == before.typecache10
        &&& self.typecache16 == before.typecache16
        &&& self.type_nochar == before.type_nochar
        &&& self.charcache == before.charcache
        &&& self.warnings == before.warnings
        &&& self.incomplete_typedef == before.incomplete_typedef
    }

    /// All data-types of before are still there, unchanged, and so is everything
    /// but the index that they are found by.
    pub open spec fn extends(self, before: TypeFactory) -> bool {
        &&& self.same_settings(before)
        &&& self.same_notes(before)
        &&& self.arena@.len() >= before.arena@.len()
        &&& forall|i: int| 0 <= i < before.arena@.len() ==> #[trigger] self.arena@[i] == before.arena@[i]
        &&& forall|id: TypeId| before.has(id) ==> #[trigger] self.depth@[id] == before.depth@[id]
        &&& self.firm() ==> before.firm()
    }

    /// The alignments of the map are usable, no data-type has a negative one, and pointers
    /// have truncated forms only as they should.
    #[verifier::opaque]
    pub open spec fn tidy(self) -> bool {
        &&& self.max_basetype_size >= 0
        &&& forall|i: int| #![trigger self.align_map@[i]] 0 <= i < self.align_map@.len() ==> self.align_map@[i] >= 1
        &&& forall|id: TypeId| #![trigger self.dt(id)] self.has(id) ==> self.tidy_type(self.dt(id))
    }

    /// A data-type has no negative alignment, and a truncated form only as it should.
    pub open spec fn tidy_type(self, d: Datatype) -> bool {
        &&& d.alignment >= 0
        &&& self.tidy_pointer(d)
    }

    /// A pointer of the ordinary size has no truncated form, and a truncated
    /// form has the ordinary size.
    pub open spec fn tidy_pointer(self, d: Datatype) -> bool {
        d.is_pointer() && d.pointer().truncate is Some ==> {
            &&& d.size != self.size_of_pointer
            &&& self.dt(d.pointer().truncate->0).size == self.size_of_pointer
        }
    }

    /// The data-types of a tidy factory are tidy.
    pub proof fn neat(self, id: TypeId)
        requires
            self.tidy(),
            self.has(id),
        ensures
            self.tidy_type(self.dt(id)),
    {
        reveal(TypeFactory::tidy);
    }

    /// The factory is sound and data-types can be added.
    pub open spec fn ready(self) -> bool {
        self.sound() && self.tidy()
    }

    /// The alignment of a primitive of a size.
    pub open spec fn alignment_of(self, size: u32) -> i32 {
        if size >= self.align_map@.len() {
            self.align_map@.last()
        } else {
            self.align_map@[size as int]
        }
    }

    /// The size of a primitive of a size together with its padding.
    pub open spec fn padded(self, size: u32) -> u32 {
        let align = self.alignment_of(size) as u32;
        if size % align != 0 {
            size.wrapping_add(align.wrapping_sub((size % align) as u32))
        } else {
            size
        }
    }

    /// A size that can be padded.
    pub open spec fn pads(self, size: i32) -> bool {
        size >= 0 && self.align_map@.len() > 0 ==> size + self.alignment_of(size as u32) <= i32::MAX
    }

    pub fn get_alignment(&self, size: u32) -> (res: Result<i32>)
        ensures
            self.align_map@.len() > 0 ==> res == Ok::<i32, Error>(self.alignment_of(size)),
            self.align_map@.len() == 0 ==> (res matches Err(e) && e.is_lowlevel(
                "TypeFactory alignment map not initialized"@,
            )),
    {
        if size as usize >= self.align_map.len() {
            if self.align_map.is_empty() {
                return Err(Error::lowlevel("TypeFactory alignment map not initialized"));
            }
            return Ok(self.align_map[self.align_map.len() - 1]);
        }
        Ok(self.align_map[size as usize])
    }

    pub fn get_primitive_align_size(&self, size: u32) -> (res: Result<i32>)
        requires
            self.align_map@.len() > 0 ==> self.alignment_of(size) != 0,
        ensures
            self.align_map@.len() > 0 ==> res == Ok::<i32, Error>(self.padded(size) as i32),
            self.align_map@.len() == 0 ==> (res matches Err(e) && e.is_lowlevel(
                "TypeFactory alignment map not initialized"@,
            )),
    {
        let align: i32 = self.get_alignment(size)?;
        proof {
            assert(align != 0 ==> (align as u32) != 0) by (bit_vector);
        }
        let modulus: u32 = size % (align as u32);
        if modulus != 0 {
            return Ok(size.wrapping_add((align as u32).wrapping_sub(modulus)) as i32);
        }
        Ok(size as i32)
    }

    /// Alignments of a tidy factory are positive.
    pub proof fn alignment_positive(self, size: u32)
        requires
            self.tidy(),
            self.align_map@.len() > 0,
        ensures
            self.alignment_of(size) >= 1,
    {
        reveal(TypeFactory::tidy);
    }

    /// Padding a size gives the next multiple of the alignment.
    pub proof fn padded_fits(self, size: i32)
        requires
            self.tidy(),
            self.align_map@.len() > 0,
            self.pads(size),
            size >= 0,
        ensures
            self.padded(size as u32) as i32 == crate::types::read::aligned(
                size as int,
                self.alignment_of(size as u32) as int,
            ),
            self.padded(size as u32) as i32 >= size,
    {
        self.alignment_positive(size as u32);
        let align = self.alignment_of(size as u32);
        crate::types::read::aligned_is_multiple(size as int, align as int);
        let pad = self.padded(size as u32);
        assert(pad <= i32::MAX);
    }

    /// The place of a name and an id in the index, or -1.
    pub open spec fn name_place(self, nm: Seq<char>, id: u64, i: nat) -> int
        decreases self.nametree@.len() - i,
    {
        if i >= self.nametree@.len() {
            -1
        } else if self.nametree@[i as int].name@ == nm && self.nametree@[i as int].id == id {
            i as int
        } else {
            self.name_place(nm, id, i + 1)
        }
    }

    /// The place of the least id under a name among the first `n` entries of the
    /// index, or -1.
    pub open spec fn least_place(self, nm: Seq<char>, n: nat) -> int
        decreases n,
    {
        if n == 0 {
            -1
        } else {
            let rest = self.least_place(nm, (n - 1) as nat);
            if self.nametree@[n - 1].name@ == nm && (rest < 0 || self.nametree@[n - 1].id < self.nametree@[rest].id) {
                n - 1
            } else {
                rest
            }
        }
    }

    /// The data-type with a name and an id. Without an id, the one with the
    /// least id under the name.
    pub open spec fn by_name(self, nm: Seq<char>, id: u64) -> Option<TypeId> {
        let i = if id != 0 {
            self.name_place(nm, id, 0)
        } else {
            self.least_place(nm, self.nametree@.len())
        };
        if i >= 0 {
            Some(self.nametree@[i].tp)
        } else {
            None
        }
    }

    /// What the index names are members.
    pub proof fn names_name_members(self, i: int)
        requires
            self.sound(),
            0 <= i < self.nametree@.len(),
        ensures
            self.member(self.nametree@[i].tp),
    {
        reveal(TypeFactory::sound);
        reveal(TypeFactory::indexed);
        self.look(self.nametree@[i].tp);
    }

    pub proof fn name_place_inside(self, nm: Seq<char>, id: u64, i: nat)
        ensures
            -1 <= self.name_place(nm, id, i) < self.nametree@.len(),
        decreases self.nametree@.len() - i,
    {
        if i < self.nametree@.len() {
            self.name_place_inside(nm, id, i + 1);
        }
    }

    fn find_name(&self, nm: &str, id: u64) -> (res: Option<usize>)
        ensures
            match res {
                Some(i) => i == self.name_place(nm@, id, 0) && i < self.nametree@.len(),
                None => self.name_place(nm@, id, 0) == -1,
            },
    {
        let mut i: usize = 0;
        while i < self.nametree.len()
            invariant
                i <= self.nametree@.len(),
                self.name_place(nm@, id, 0) == self.name_place(nm@, id, i as nat),
            decreases self.nametree@.len() - i,
        {
            if self.nametree[i].id == id && same_text(self.nametree[i].name.as_str(), nm) {
                return Some(i);
            }
            i = i + 1;
        }
        None
    }

    /// Finds a data-type by name and id.
    pub fn find_by_id_local(&self, nm: &str, id: u64) -> (res: Option<TypeId>)
        requires
            self.sound(),
        ensures
            res == self.by_name(nm@, id),
            res is Some ==> self.member(res->0),
    {
        if id != 0 {
            return match self.find_name(nm, id) {
                Some(i) => {
                    proof {
                        self.names_name_members(i as int);
                    }
                    Some(self.nametree[i].tp)
                },
                None => None,
            };
        }
        let mut best: Option<usize> = None;
        let mut i: usize = 0;
        while i < self.nametree.len()
            invariant
                i <= self.nametree@.len(),
                match best {
                    Some(k) => k < i && self.least_place(nm@, i as nat) == k,
                    None => self.least_place(nm@, i as nat) == -1,
                },
            decreases self.nametree@.len() - i,
        {
            if same_text(self.nametree[i].name.as_str(), nm) {
                match best {
                    Some(k) => {
                        if self.nametree[i].id < self.nametree[k].id {
                            best = Some(i);
                        }
                    },
                    None => {
                        best = Some(i);
                    },
                }
            }
            i = i + 1;
        }
        match best {
            Some(k) => {
                proof {
                    self.names_name_members(k as int);
                }
                Some(self.nametree[k].tp)
            },
            None => None,
        }
    }

    /// Finds a data-type by name, id and, for a data-type of variable length, size.
    pub fn find_by_id(&self, name: &str, id: u64, sz: i32) -> (res: Option<TypeId>)
        requires
            self.sound(),
        ensures
            res == self.by_name(
                name@,
                if sz > 0 {
                    crate::types::read::size_hash(id, sz)
                } else {
                    id
                },
            ),
            res is Some ==> self.member(res->0),
    {
        let full_id: u64 = if sz > 0 {
            Datatype::hash_size(id, sz)
        } else {
            id
        };
        self.find_by_id_local(name, full_id)
    }

    /// Finds the data-type with the least id under a name.
    pub fn find_by_name(&self, name: &str) -> (res: Option<TypeId>)
        requires
            self.sound(),
        ensures
            res == self.by_name(name@, 0),
            res is Some ==> self.member(res->0),
    {
        self.find_by_id(name, 0, 0)
    }

    /// The index after a data-type has been entered, unless its name and id were taken.
    pub open spec fn name_entered(self, before: TypeFactory, nm: Seq<char>, id: u64, tp: TypeId) -> bool {
        if before.name_place(nm, id, 0) >= 0 {
            self.nametree@ == before.nametree@
        } else {
            &&& self.nametree@.len() == before.nametree@.len() + 1
            &&& self.nametree@.drop_last() == before.nametree@
            &&& self.nametree@.last().name@ == nm
            &&& self.nametree@.last().id == id
            &&& self.nametree@.last().tp == tp
        }
    }

    /// The index after a name and an id have been removed.
    pub open spec fn name_removed(self, before: TypeFactory, nm: Seq<char>, id: u64) -> bool {
        let i = before.name_place(nm, id, 0);
        self.nametree@ == if i >= 0 {
            before.nametree@.remove(i)
        } else {
            before.nametree@
        }
    }

    /// The tree after a data-type has been put in its place.
    pub open spec fn tree_with(self, before: TypeFactory, d: Datatype, tp: TypeId) -> bool {
        self.tree@ == before.tree@.insert(before.place(d, 0) as int, tp)
    }

    /// A copy of a data-type as the factory keeps it: with its padded size and alignment.
    pub open spec fn completes(self, d: Datatype, ct: Datatype) -> bool {
        d.alike(
            Datatype {
                flags: crate::types::create::clone_flags(ct, self),
                alignment: if ct.alignment < 0 {
                    self.alignment_of((self.padded(ct.size as u32) as i32) as u32)
                } else {
                    ct.alignment
                },
                align_size: if ct.alignment < 0 {
                    self.padded(ct.size as u32) as i32
                } else {
                    ct.align_size
                },
                ..ct
            },
        )
    }

    /// The factory after a data-type has been added under the next handle.
    pub open spec fn grown(self, before: TypeFactory, d: Datatype) -> bool {
        let id = TypeId(before.arena@.len() as u32);
        &&& self.extends(before)
        &&& self.arena@ == before.arena@.push(Some(d))
        &&& self.firm() == (before.firm() && before.firm_kind(d))
        &&& self.tree_with(before, d, id)
        &&& if d.id != 0 {
            self.name_entered(before, d.name@, d.id, id)
        } else {
            self.nametree == before.nametree
        }
    }

    /// The message about two data-types that the order does not tell apart.
    pub open spec fn shared_message(self, d: Datatype, existing: TypeId) -> Seq<char> {
        "Shared type id: "@ + crate::text::hexadecimal(d.id as nat) + "\n  "@ + crate::types::print::raw_text(self, d)
            + " : "@ + crate::types::print::raw_text(self, self.dt(existing))
    }

    /// What adding a data-type does that the factory does not have yet: it gets
    /// the next handle, unless the order does not tell it from another one.
    pub open spec fn inserts(self, before: TypeFactory, d: Datatype, res: Result<TypeId>) -> bool {
        match before.found(d) {
            Some(existing) => self == before && (res matches Err(e) && e.is_lowlevel(
                before.shared_message(d, existing),
            )),
            None => self.grown(before, d) && res == Ok::<TypeId, Error>(TypeId(before.arena@.len() as u32)),
        }
    }

    /// What looking for a data-type and adding it if it is missing does.
    pub open spec fn adds(self, before: TypeFactory, ct: Datatype, res: Result<TypeId>) -> bool {
        if ct.name@.len() > 0 && ct.id == 0 {
            self == before && (res matches Err(e) && e.is_lowlevel("Datatype must have a valid id: "@ + ct.name@))
        } else {
            let existing = if ct.name@.len() > 0 {
                before.by_name(ct.name@, ct.id)
            } else {
                before.found(ct)
            };
            if existing is Some {
                self == before && if ct.name@.len() > 0 && crate::types::compare::dependency_order(
                    before.dt(existing->0),
                    ct,
                ) != 0 {
                    res matches Err(e) && e.is_lowlevel("Trying to alter definition of type: "@ + ct.name@)
                } else {
                    res == Ok::<TypeId, Error>(existing->0)
                }
            } else if ct.alignment < 0 && before.align_map@.len() == 0 {
                self == before && (res matches Err(e) && e.is_lowlevel("TypeFactory alignment map not initialized"@))
            } else {
                exists|d: Datatype| #[trigger] before.completes(d, ct) && self.inserts(before, d, res)
            }
        }
    }

    /// A data-type that the factory can take in.
    pub open spec fn takes(self, ct: Datatype) -> bool {
        &&& self.valid(ct)
        &&& self.arena@.len() < u32::MAX
        &&& ct.alignment < 0 ==> self.pads(ct.size) && self.pads(self.padded(ct.size as u32) as i32)
        &&& self.tidy_pointer(ct)
    }
}

/// What held of a data-type in a factory still holds when there are more.
pub proof fn stays_valid(before: TypeFactory, after: TypeFactory, d: Datatype)
    requires
        after.extends(before),
        before.sound(),
        before.valid(d),
    ensures
        after.valid(d),
        before.firm_kind(d) ==> after.firm_kind(d),
        after.depth_of(d) == before.depth_of(d),
        after.reserve_of(d) == before.reserve_of(d),
        after.chain_of(d) == before.chain_of(d),
{
    reveal(TypeFactory::kind_valid);
    reveal(TypeFactory::firm_kind);
    before.parts(d);
    assert forall|id: TypeId| before.has(id) implies after.has(id) && #[trigger] after.dt(id) == before.dt(id) by {
        assert(after.arena@[id.0 as int] == before.arena@[id.0 as int]);
    }
    match d.kind {
        TypeKind::Struct(data) => {
            fields_stay(before, after, data.field@);
            assert forall|i: int| #![trigger data.bitfield@[i]] 0 <= i < data.bitfield@.len() implies after.has(
                data.bitfield@[i].tp,
            ) by {
                assert(before.has(data.bitfield@[i].tp));
            }
        },
        TypeKind::Union(data) => {
            fields_stay(before, after, data.field@);
        },
        TypeKind::Code(data) => {
            if data.signature is Some {
                let params = data.signature->0.params@;
                assert forall|i: int| #![trigger params[i]] 0 <= i < params.len() implies after.has(params[i]) by {
                    assert(before.has(params[i]));
                }
            }
        },
        _ => {},
    }
}

proof fn fields_stay(before: TypeFactory, after: TypeFactory, fields: Seq<TypeField>)
    requires
        after.extends(before),
        before.fields_known(fields),
    ensures
        after.fields_known(fields),
        forall|i: int| #![trigger fields[i]]
            0 <= i < fields.len() ==> after.dt(fields[i].tp) == before.dt(fields[i].tp),
        crate::types::model::fields_depth(fields, after.depth@, fields.len())
            == crate::types::model::fields_depth(fields, before.depth@, fields.len()),
{
    assert forall|i: int| #![trigger fields[i]] 0 <= i < fields.len() implies {
        &&& after.has(fields[i].tp)
        &&& after.dt(fields[i].tp) == before.dt(fields[i].tp)
        &&& after.depth@[fields[i].tp] == before.depth@[fields[i].tp]
    } by {
        assert(before.has(fields[i].tp));
        assert(after.arena@[fields[i].tp.0 as int] == before.arena@[fields[i].tp.0 as int]);
    }
    depth_stays(before, after, fields, fields.len());
}

pub proof fn depth_stays(before: TypeFactory, after: TypeFactory, fields: Seq<TypeField>, n: nat)
    requires
        n <= fields.len(),
        forall|i: int| #![trigger fields[i]]
            0 <= i < fields.len() ==> after.depth@[fields[i].tp] == before.depth@[fields[i].tp],
    ensures
        crate::types::model::fields_depth(fields, after.depth@, n) == crate::types::model::fields_depth(
            fields,
            before.depth@,
            n,
        ),
    decreases n,
{
    if n > 0 {
        depth_stays(before, after, fields, (n - 1) as nat);
    }
}

/// The tables stay right when data-types are added and the index names the new ones.
pub proof fn stays_indexed(before: TypeFactory, after: TypeFactory)
    requires
        after.extends(before),
        before.indexed(),
        forall|i: int| #![trigger after.tree@[i]] 0 <= i < after.tree@.len() ==> after.has(after.tree@[i]),
        forall|i: int| #![trigger after.nametree@[i]]
            0 <= i < after.nametree@.len() ==> after.has(after.nametree@[i].tp),
    ensures
        after.indexed(),
{
    reveal(TypeFactory::indexed);
    assert forall|id: TypeId| before.has(id) implies after.has(id) && #[trigger] after.dt(id) == before.dt(id) by {
        assert(after.arena@[id.0 as int] == before.arena@[id.0 as int]);
    }
    assert forall|size: int, meta: TypeMetatype| #![trigger after.cached(size, meta)]
        0 <= size < 9 && meta.rank() >= 10 && after.cached(size, meta) is Some implies {
        &&& after.has(after.cached(size, meta)->0)
        &&& after.dt(after.cached(size, meta)->0).size == size
        &&& after.dt(after.cached(size, meta)->0).metatype == meta
    } by {
        assert(before.cached(size, meta) == after.cached(size, meta));
    }
}

/// A factory that has taken in a valid data-type is sound.
pub proof fn pushed_is_sound(before: TypeFactory, after: TypeFactory, d: Datatype)
    requires
        before.ready(),
        before.valid(d),
        before.arena@.len() < u32::MAX,
        after.extends(before),
        after.arena@ == before.arena@.push(Some(d)),
        after.firm() ==> before.firm_kind(d),
        forall|i: int| #![trigger after.tree@[i]] 0 <= i < after.tree@.len() ==> after.has(after.tree@[i]),
        forall|i: int| #![trigger after.nametree@[i]]
            0 <= i < after.nametree@.len() ==> after.has(after.nametree@[i].tp),
        before.tidy_type(d),
        after.depth@[TypeId(before.arena@.len() as u32)] >= before.depth_of(d),
        after.depth@[TypeId(before.arena@.len() as u32)] >= 1,
    ensures
        after.ready(),
{
    reveal(TypeFactory::sound);
    reveal(TypeFactory::indexed);
    let id = TypeId(before.arena@.len() as u32);
    stays_indexed(before, after);
    assert forall|x: TypeId| #![trigger after.dt(x)] after.has(x) implies {
        &&& after.valid(after.dt(x))
        &&& after.firm() ==> after.firm_kind(after.dt(x)) && after.depth_of(after.dt(x)) <= after.depth@[x]
            && after.reserve_of(after.dt(x)) <= after.depth@[x]
        &&& after.chain_of(after.dt(x)) <= x.0
    } by {
        if x == id {
            stays_valid(before, after, d);
            before.parts(d);
            chain_is_inside(before, d);
        } else {
            assert(x.0 < before.arena@.len()) by {
                if x.0 == id.0 {
                    assert(x == id);
                }
            }
            assert(after.arena@[x.0 as int] == before.arena@[x.0 as int]);
            assert(before.has(x));
            let old_d = before.dt(x);
            stays_valid(before, after, old_d);
        }
    }
    reveal(TypeFactory::tidy);
    assert forall|x: TypeId| #![trigger after.dt(x)] after.has(x) implies after.tidy_type(after.dt(x)) by {
        let now = after.dt(x);
        if x.0 < before.arena@.len() {
            assert(after.arena@[x.0 as int] == before.arena@[x.0 as int]);
            assert(before.has(x));
            before.look(x);
        }
        before.parts(now);
        if now.is_pointer() && now.pointer().truncate is Some {
            let t = now.pointer().truncate->0;
            assert(after.arena@[t.0 as int] == before.arena@[t.0 as int]);
        }
    }
}

/// A factory that has taken in a valid data-type in its place is sound.
pub proof fn growth_is_sound(before: TypeFactory, after: TypeFactory, d: Datatype)
    requires
        before.ready(),
        before.valid(d),
        before.arena@.len() < u32::MAX,
        after.grown(before, d),
        before.tidy_type(d),
        after.depth@[TypeId(before.arena@.len() as u32)] >= before.depth_of(d),
        after.depth@[TypeId(before.arena@.len() as u32)] >= 1,
    ensures
        after.ready(),
        after.has(TypeId(before.arena@.len() as u32)),
        after.dt(TypeId(before.arena@.len() as u32)) == d,
{
    reveal(TypeFactory::sound);
    reveal(TypeFactory::indexed);
    let id = TypeId(before.arena@.len() as u32);
    before.place_inside(d, 0);
    assert forall|i: int| #![trigger after.tree@[i]] 0 <= i < after.tree@.len() implies after.has(after.tree@[i]) by {
        let p = before.place(d, 0) as int;
        if i < p {
            assert(after.tree@[i] == before.tree@[i]);
            assert(before.has(before.tree@[i]));
        } else if i > p {
            assert(after.tree@[i] == before.tree@[i - 1]);
            assert(before.has(before.tree@[i - 1]));
        }
    }
    assert forall|i: int| #![trigger after.nametree@[i]] 0 <= i < after.nametree@.len() implies after.has(
        after.nametree@[i].tp,
    ) by {
        if i < before.nametree@.len() {
            if after.nametree@.len() > before.nametree@.len() {
                assert(after.nametree@.drop_last()[i] == after.nametree@[i]);
            }
            assert(after.nametree@[i] == before.nametree@[i]);
            assert(before.has(before.nametree@[i].tp));
        }
    }
    pushed_is_sound(before, after, d);
}

proof fn chain_is_inside(types: TypeFactory, d: Datatype)
    requires
        types.sound(),
        types.valid(d),
    ensures
        types.chain_of(d) <= types.arena@.len(),
{
    types.parts(d);
}

impl TypeFactory {
    pub proof fn place_inside(self, ct: Datatype, i: nat)
        requires
            i <= self.tree@.len(),
        ensures
            i <= self.place(ct, i) <= self.tree@.len(),
        decreases self.tree@.len() - i,
    {
        if i < self.tree@.len() {
            self.place_inside(ct, i + 1);
        }
    }

    /// Enters a data-type into the index by name, unless its name and id are taken.
    pub fn nametree_insert(&mut self, ct: TypeId)
        requires
            old(self).has(ct),
        ensures
            final(self).name_entered(*old(self), old(self).dt(ct).name@, old(self).dt(ct).id, ct),
            *final(self) == (TypeFactory { nametree: final(self).nametree, ..*old(self) }),
    {
        let dt = self.get(ct);
        let name = dt.name.clone();
        let id: u64 = dt.id;
        if self.find_name(name.as_str(), id).is_none() {
            self.nametree.push(NamedType { name, id, tp: ct });
            assert(self.nametree@.drop_last() =~= old(self).nametree@);
        }
    }

    /// Removes the name and the id of a data-type from the index.
    pub fn nametree_erase(&mut self, ct: TypeId)
        requires
            old(self).has(ct),
        ensures
            final(self).name_removed(*old(self), old(self).dt(ct).name@, old(self).dt(ct).id),
            *final(self) == (TypeFactory { nametree: final(self).nametree, ..*old(self) }),
    {
        let dt = self.get(ct);
        let name = dt.name.clone();
        let id: u64 = dt.id;
        if let Some(i) = self.find_name(name.as_str(), id) {
            self.nametree.remove(i);
        }
    }

    /// Adds a data-type under the next handle.
    pub fn insert(&mut self, newtype: Datatype) -> (res: Result<TypeId>)
        requires
            old(self).ready(),
            old(self).valid(newtype),
            old(self).arena@.len() < u32::MAX,
            old(self).tidy_type(newtype),
        ensures
            final(self).ready(),
            final(self).inserts(*old(self), newtype, res),
            final(self).extends(*old(self)),
            old(self).firm() && old(self).firm_kind(newtype) ==> final(self).firm(),
            final(self).arena@.len() <= old(self).arena@.len() + 1,
            res matches Ok(id) ==> final(self).member(id),
    {
        let ghost before = *self;
        match self.tree_find(&newtype) {
            Ok(pos) => {
                proof {
                    self.tree_names_members(pos as int);
                }
                let existing = self.tree[pos];
                let mut text = String::new();
                text.push_str("Shared type id: ");
                push_numeral(&mut text, newtype.get_id(), 16);
                text.push_str("\n");
                text.push_str("  ");
                newtype.print_raw(&mut text, self);
                text.push_str(" : ");
                self.get(existing).print_raw(&mut text, self);
                proof {
                    reveal_strlit("\n");
                    reveal_strlit("  ");
                    reveal_strlit("\n  ");
                    assert("\n"@ + "  "@ =~= "\n  "@);
                    assert(text@ =~= self.shared_message(newtype, existing));
                }
                Err(Error::Lowlevel(text))
            },
            Err(pos) => {
                let has_id = newtype.id != 0;
                let id = TypeId(self.arena.len() as u32);
                let ghost deep = if before.depth_of(newtype) >= 1 { before.depth_of(newtype) } else { 1 };
                let ghost d = newtype;
                self.arena.push(Some(newtype));
                self.tree.insert(pos, id);
                self.depth = Ghost(self.depth@.insert(id, deep));
                let ghost whole = before.firm() && before.firm_kind(d);
                self.firmness = Ghost(whole);
                if has_id {
                    let ghost middle = *self;
                    self.nametree_insert(id);
                    proof {
                        assert(middle.nametree == before.nametree);
                        same_name_place(before, middle, d.name@, d.id, 0);
                    }
                }
                proof {
                    assert(self.extends(before)) by {
                        assert forall|x: TypeId| before.has(x) implies #[trigger] self.depth@[x]
                            == before.depth@[x] by {
                            assert(x.0 < before.arena@.len());
                        }
                    }
                    assert(self.grown(before, d));
                    growth_is_sound(before, *self, d);
                    self.look(id);
                }
                Ok(id)
            },
        }
    }

    /// Gives the handle of a data-type, which is added if the factory does not have it.
    pub fn find_add(&mut self, ct: &Datatype) -> (res: Result<TypeId>)
        requires
            old(self).ready(),
            old(self).takes(*ct),
        ensures
            final(self).ready(),
            final(self).adds(*old(self), *ct, res),
            final(self).extends(*old(self)),
            old(self).firm() && old(self).firm_kind(*ct) ==> final(self).firm(),
            final(self).arena@.len() <= old(self).arena@.len() + 1,
            res matches Ok(id) ==> final(self).member(id),
    {
        if !is_empty_text(ct.name.as_str()) {
            if ct.id == 0 {
                let mut text = String::new();
                text.push_str("Datatype must have a valid id: ");
                text.push_str(ct.name.as_str());
                assert(text@ =~= "Datatype must have a valid id: "@ + ct.name@);
                return Err(Error::Lowlevel(text));
            }
            if let Some(res) = self.find_by_id_local(ct.name.as_str(), ct.id) {
                if self.get(res).compare_dependency(ct, self) != 0 {
                    let mut text = String::new();
                    text.push_str("Trying to alter definition of type: ");
                    text.push_str(ct.name.as_str());
                    assert(text@ =~= "Trying to alter definition of type: "@ + ct.name@);
                    return Err(Error::Lowlevel(text));
                }
                return Ok(res);
            }
        } else if let Some(res) = self.find_no_name(ct) {
            return Ok(res);
        }
        proof {
            self.parts(*ct);
        }
        let mut newtype = ct.clone_type(self)?;
        if newtype.alignment < 0 {
            proof {
                if self.align_map@.len() > 0 {
                    self.alignment_positive(newtype.size as u32);
                    self.padded_fits(newtype.size);
                    self.alignment_positive(self.padded(newtype.size as u32));
                }
            }
            newtype.align_size = self.get_primitive_align_size(newtype.size as u32)?;
            newtype.alignment = self.get_alignment(newtype.align_size as u32)?;
        }
        proof {
            assert(self.completes(newtype, *ct));
            completed_is_valid(*self, newtype, *ct);
        }
        self.insert(newtype)
    }
}

pub proof fn same_name_place(a: TypeFactory, b: TypeFactory, nm: Seq<char>, id: u64, i: nat)
    requires
        a.nametree == b.nametree,
    ensures
        a.name_place(nm, id, i) == b.name_place(nm, id, i),
    decreases a.nametree@.len() - i,
{
    if i < a.nametree@.len() {
        same_name_place(a, b, nm, id, i + 1);
    }
}

/// A copy of a valid data-type is valid.
pub proof fn completed_is_valid(types: TypeFactory, d: Datatype, ct: Datatype)
    requires
        types.ready(),
        types.takes(ct),
        types.completes(d, ct),
        ct.alignment < 0 ==> types.align_map@.len() > 0,
    ensures
        types.valid(d),
        types.tidy_type(d),
        types.depth_of(d) == types.depth_of(ct),
        types.firm_kind(d) == types.firm_kind(ct),
{
    reveal(TypeFactory::kind_valid);
    reveal(TypeFactory::firm_kind);
    free_bits();
    if ct.alignment < 0 {
        types.padded_fits(ct.size);
        types.alignment_positive((types.padded(ct.size as u32) as i32) as u32);
    }
    freely_added(ct.flags, Datatype::CHARTYPE);
    freely_added(ct.flags, Datatype::CORETYPE);
    freely_added(ct.flags, Datatype::NEEDS_RESOLUTION);
    match ct.kind {
        TypeKind::Enum(data) => {
            assert(d.kind->Enum_0.namemap.sorted());
        },
        TypeKind::PartialEnum(data) => {
            assert(d.kind->PartialEnum_0.enum_data.namemap.sorted());
        },
        _ => {},
    }
}

/// Which kind of data-type it is.
pub open spec fn variant(kind: TypeKind) -> int {
    match kind {
        TypeKind::Base => 0,
        TypeKind::Char => 1,
        TypeKind::Unicode => 2,
        TypeKind::Void => 3,
        TypeKind::Pointer(_) => 4,
        TypeKind::Array(_) => 5,
        TypeKind::Enum(_) => 6,
        TypeKind::Struct(_) => 7,
        TypeKind::Union(_) => 8,
        TypeKind::PartialEnum(_) => 9,
        TypeKind::PartialStruct(_) => 10,
        TypeKind::PartialUnion(_) => 11,
        TypeKind::PointerRel(_) => 12,
        TypeKind::Code(_) => 13,
        TypeKind::Spacebase(_) => 14,
    }
}

/// Two data-types that others that refer to them cannot tell apart.
pub open spec fn same_shape(a: Datatype, b: Datatype) -> bool {
    &&& a.size == b.size
    &&& a.metatype == b.metatype
    &&& a.align_size == b.align_size
    &&& variant(a.kind) == variant(b.kind)
}

impl TypeFactory {
    /// The factory after one data-type has been changed.
    pub open spec fn retouched(self, before: TypeFactory, id: TypeId, d: Datatype) -> bool {
        &&& self == (TypeFactory { arena: self.arena, ..before })
        &&& self.arena@ == before.arena@.update(id.0 as int, Some(d))
    }

    /// Whether a data-type is cached as a base data-type.
    pub open spec fn is_cached(self, id: TypeId) -> bool {
        exists|size: int, meta: TypeMetatype|
            0 <= size < 9 && meta.rank() >= 10 && #[trigger] self.cached(size, meta) == Some(id)
    }

    /// Whether a data-type is the truncated form of a pointer.
    pub open spec fn is_truncation(self, id: TypeId) -> bool {
        exists|p: TypeId| #![trigger self.dt(p)]
            self.has(p) && self.dt(p).is_pointer() && self.dt(p).pointer().truncate == Some(id)
    }

    pub fn get_mut(&mut self, id: TypeId) -> (res: &mut Datatype)
        requires
            old(self).has(id),
        ensures
            *res == old(self).dt(id),
            final(self).retouched(*old(self), id, *final(res)),
    {
        match &mut self.arena[id.0 as usize] {
            Some(dt) => dt,
            None => vstd::pervasive::unreached(),
        }
    }
}

/// A change that others cannot tell leaves another data-type valid.
#[verifier::spinoff_prover]
#[verifier::rlimit(60)]
proof fn others_stay_valid(before: TypeFactory, after: TypeFactory, id: TypeId, d: Datatype, x: Datatype)
    requires
        before.sound(),
        before.has(id),
        after.retouched(before, id, d),
        same_shape(d, before.dt(id)),
        before.is_truncation(id) || (x.is_pointer() && x.pointer().truncate == Some(id)) ==> d.pointer().truncate is None,
        before.valid(x),
    ensures
        after.valid(x),
        before.firm_kind(x) ==> after.firm_kind(x),
        after.depth_of(x) == before.depth_of(x),
        after.reserve_of(x) == before.reserve_of(x),
        after.chain_of(x) == before.chain_of(x),
{
    reveal(TypeFactory::kind_valid);
    reveal(TypeFactory::firm_kind);
    before.parts(x);
    assert forall|i: TypeId| before.has(i) implies after.has(i) && same_shape(#[trigger] after.dt(i), before.dt(i))
        && (i != id ==> after.dt(i) == before.dt(i)) by {
        if i != id {
            assert(i.0 != id.0);
        }
    }
    match x.kind {
        TypeKind::Struct(data) => {
            assert forall|i: int| #![trigger data.field@[i]] 0 <= i < data.field@.len() implies {
                &&& after.has(data.field@[i].tp)
                &&& same_shape(after.dt(data.field@[i].tp), before.dt(data.field@[i].tp))
            } by {
                assert(before.has(data.field@[i].tp));
            }
            assert forall|i: int| #![trigger data.bitfield@[i]] 0 <= i < data.bitfield@.len() implies after.has(
                data.bitfield@[i].tp,
            ) by {
                assert(before.has(data.bitfield@[i].tp));
            }
        },
        TypeKind::Union(data) => {
            assert forall|i: int| #![trigger data.field@[i]] 0 <= i < data.field@.len() implies {
                &&& after.has(data.field@[i].tp)
                &&& same_shape(after.dt(data.field@[i].tp), before.dt(data.field@[i].tp))
            } by {
                assert(before.has(data.field@[i].tp));
            }
        },
        TypeKind::Code(data) => {
            if data.signature is Some {
                let params = data.signature->0.params@;
                assert forall|i: int| #![trigger params[i]] 0 <= i < params.len() implies after.has(params[i]) by {
                    assert(before.has(params[i]));
                }
            }
        },
        _ => {},
    }
}

/// A change that others cannot tell leaves the factory sound.
pub proof fn retouch_is_sound(before: TypeFactory, after: TypeFactory, id: TypeId, d: Datatype)
    requires
        before.sound(),
        before.has(id),
        after.retouched(before, id, d),
        same_shape(d, before.dt(id)),
        before.is_truncation(id) && d.is_pointer() ==> d.pointer().truncate is None,
        before.valid(d),
        d.is_pointer() ==> d.pointer().truncate != Some(id),
        before.firm() ==> before.firm_kind(d) && before.depth_of(d) <= before.depth@[id],
        before.chain_of(d) <= id.0,
    ensures
        after.sound(),
        before.tidy() && before.tidy_type(d) ==> after.tidy(),
{
    if before.is_truncation(id) {
        let p = choose|p: TypeId| #![trigger before.dt(p)]
            before.has(p) && before.dt(p).is_pointer() && before.dt(p).pointer().truncate == Some(id);
        before.look(p);
        before.parts(before.dt(p));
    }
    reveal(TypeFactory::sound);
    reveal(TypeFactory::indexed);
    assert forall|i: TypeId| before.has(i) implies after.has(i) && same_shape(#[trigger] after.dt(i), before.dt(i))
        && (i != id ==> after.dt(i) == before.dt(i)) by {
        if i != id {
            assert(i.0 != id.0);
        }
    }
    assert forall|x: TypeId| #![trigger after.dt(x)] after.has(x) implies {
        &&& before.has(x)
        &&& after.valid(after.dt(x))
        &&& after.firm() ==> after.firm_kind(after.dt(x)) && after.depth_of(after.dt(x)) <= after.depth@[x]
            && after.reserve_of(after.dt(x)) <= after.depth@[x]
        &&& after.chain_of(after.dt(x)) <= x.0
    } by {
        let now = after.dt(x);
        assert(before.has(x)) by {
            if x.0 != id.0 {
                assert(after.arena@[x.0 as int] == before.arena@[x.0 as int]);
            }
        }
        before.look(x);
        if x == id {
            assert(now == d);
            before.look(id);
            others_stay_valid(before, after, id, d, d);
        } else {
            assert(x.0 != id.0);
            others_stay_valid(before, after, id, d, now);
        }
    }
    assert(after.indexed()) by {
        assert forall|size: int, meta: TypeMetatype| #![trigger after.cached(size, meta)]
            0 <= size < 9 && meta.rank() >= 10 && after.cached(size, meta) is Some implies {
            &&& after.has(after.cached(size, meta)->0)
            &&& after.dt(after.cached(size, meta)->0).size == size
            &&& after.dt(after.cached(size, meta)->0).metatype == meta
        } by {
            assert(before.cached(size, meta) == after.cached(size, meta));
            let c = before.dt(before.cached(size, meta)->0);
        }
    }
    if before.tidy() && before.tidy_type(d) {
        reveal(TypeFactory::tidy);
        assert forall|x: TypeId| #![trigger after.dt(x)] after.has(x) implies after.tidy_type(after.dt(x)) by {
            let now = after.dt(x);
            assert(before.has(x));
            before.look(x);
            let old_d = before.dt(x);
            before.parts(old_d);
            before.parts(d);
            if x != id {
                assert(x.0 != id.0);
                assert(now == old_d);
            }
            if now.is_pointer() && now.pointer().truncate is Some {
                let t = now.pointer().truncate->0;
                let t_now = after.dt(t);
            }
        }
    }
}

} // verus!

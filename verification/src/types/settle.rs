//! Typedefs, prototypes and the caches of the factory.
use vstd::prelude::*;
use crate::error::{Error, Result};
use crate::ids::TypeId;
use crate::types::layout::Layout;
use crate::types::{Datatype, TypeBitField, TypeCodeData, TypeFactory, TypeField, TypeKind, TypeMetatype};

verus! {

/// What code holds once it has got a prototype: nothing new if there is none.
pub open spec fn with_prototype(data: TypeCodeData, fp: TypeCodeData) -> TypeCodeData {
    if fp.proto is Some {
        TypeCodeData { proto: fp.proto, signature: fp.signature, factory: true }
    } else if data.proto is Some {
        TypeCodeData { proto: None, signature: None, factory: false }
    } else {
        data
    }
}

impl Datatype {
    /// Gives code a prototype.
    pub fn set_prototype_copy(&mut self, fp: TypeCodeData)
        requires
            old(self).kind is Code,
        ensures
            *final(self) == (Datatype {
                kind: TypeKind::Code(with_prototype(old(self).kind->Code_0, fp)),
                ..*old(self)
            }),
    {
        if let TypeKind::Code(data) = &mut self.kind {
            if data.proto.is_some() {
                data.proto = None;
                data.signature = None;
                data.factory = false;
            }
            if fp.proto.is_some() {
                data.factory = true;
                data.proto = fp.proto;
                data.signature = fp.signature;
            }
        }
    }
}

impl TypeFactory {
    /// The signature of a prototype names data-types of the factory.
    pub open spec fn prototype_suits(self, fp: TypeCodeData) -> bool {
        fp.proto is Some ==> {
            &&& fp.signature is Some
            &&& forall|i: int| #![trigger fp.signature->0.params@[i]]
                0 <= i < fp.signature->0.params@.len() ==> self.has(fp.signature->0.params@[i])
            &&& self.has_option(fp.signature->0.output)
        }
    }

    /// What giving code that was announced before a prototype does.
    pub open spec fn completes_code(
        self,
        before: TypeFactory,
        fp: TypeCodeData,
        ct: TypeId,
        flags: u32,
        res: Result<()>,
    ) -> bool {
        let d = before.dt(ct);
        if !d.flag(Datatype::TYPE_INCOMPLETE) {
            self == before && (res matches Err(e) && e.is_lowlevel("Can only set prototype on incomplete data-type"@))
        } else {
            res is Ok && self.reworked(
                before,
                ct,
                Datatype {
                    kind: TypeKind::Code(with_prototype(d.kind->Code_0, fp)),
                    flags: crate::types::compose::other_flags(d.flags, flags),
                    ..d
                },
            )
        }
    }

    /// Gives code that was announced before its prototype.
    pub fn set_prototype(&mut self, fp: TypeCodeData, new_code: TypeId, flags: u32) -> (res: Result<()>)
        requires
            old(self).ready(),
            old(self).has(new_code),
            old(self).dt(new_code).kind is Code,
            old(self).prototype_suits(fp),
        ensures
            final(self).ready(),
            final(self).completes_code(*old(self), fp, new_code, flags, res),
    {
        if !self.get(new_code).is_incomplete() {
            return Err(Error::lowlevel("Can only set prototype on incomplete data-type"));
        }
        let ghost before = *self;
        let ghost given = fp;
        self.tree_erase(new_code);
        let ghost lean = *self;
        let dt = self.get_mut(new_code);
        dt.set_prototype_copy(fp);
        dt.flags = dt.flags & !Datatype::TYPE_INCOMPLETE;
        dt.flags = dt.flags | (flags & (Datatype::VARIABLE_LENGTH | Datatype::TYPE_INCOMPLETE));
        let ghost changed = *self;
        let ghost d = changed.dt(new_code);
        proof {
            lean.look(new_code);
            lean.neat(new_code);
            crate::types::compose::completed_flags(before.dt(new_code).flags, flags, false);
            crate::types::grow::same_kind_bits(d.flags, before.dt(new_code).flags);
            code_is_valid(lean, new_code, d, given);
            crate::types::grow::retouch_is_sound(lean, changed, new_code, d);
        }
        self.tree_insert(new_code);
        proof {
            assert(lean.tree_without(before, new_code) && changed.retouched(lean, new_code, d) && self.tree_having(
                changed,
                new_code,
            ));
            assert(self.reworked(before, new_code, d));
        }
        Ok(())
    }
}

proof fn code_is_valid(types: TypeFactory, ct: TypeId, d: Datatype, fp: TypeCodeData)
    requires
        types.sound(),
        types.has(ct),
        types.dt(ct).kind is Code,
        types.prototype_suits(fp),
        d == (Datatype {
            kind: TypeKind::Code(with_prototype(types.dt(ct).kind->Code_0, fp)),
            flags: d.flags,
            ..types.dt(ct)
        }),
        d.flags_fit(),
    ensures
        types.valid(d),
        types.firm_kind(d),
        types.depth_of(d) <= 1,
        types.chain_of(d) <= ct.0,
{
    reveal(TypeFactory::kind_valid);
    reveal(TypeFactory::firm_kind);
    types.look(ct);
    types.parts(types.dt(ct));
    crate::types::change::unchanged_kind(types, ct, types.dt(ct));
}

/// The id of a typedef: the one that belongs to its name, unless another one is given.
pub open spec fn typedef_id(name: Seq<char>, id: u64) -> u64 {
    if id == 0 {
        crate::types::read::name_hash(name)
    } else {
        id
    }
}

impl TypeFactory {
    /// A typedef of a data-type.
    pub open spec fn is_typedef(self, d: Datatype, ct: TypeId, name: Seq<char>, id: u64, format: u32) -> bool {
        let base = self.dt(ct);
        let bare = crate::types::create::clone_flags(base, self) & !Datatype::CORETYPE;
        &&& d.name@ == name
        &&& d.display_name@ == name
        &&& d.alike(
            Datatype {
                id,
                name: d.name,
                display_name: d.display_name,
                flags: (bare & !Datatype::FORCE_FORMAT) | (format << 12),
                typedef_imm: Some(ct),
                ..base
            },
        )
    }

    /// What asking for a typedef does. One of an incomplete data-type is noted.
    pub open spec fn makes_typedef(
        self,
        before: TypeFactory,
        ct: TypeId,
        name: Seq<char>,
        id: u64,
        format: u32,
        res: Result<TypeId>,
    ) -> bool {
        let full_id = typedef_id(name, id);
        match before.by_name(name, full_id) {
            Some(existing) => self == before && if before.dt(existing).typedef_imm != Some(ct) {
                res matches Err(e) && e.is_lowlevel("Trying to create typedef of existing type: "@ + name)
            } else {
                res == Ok::<TypeId, Error>(existing)
            },
            None => exists|d: Datatype, mid: TypeFactory, r: Result<TypeId>|
                #![trigger before.is_typedef(d, ct, name, full_id, format), mid.inserts(before, d, r)]
                {
                    &&& before.is_typedef(d, ct, name, full_id, format)
                    &&& mid.inserts(before, d, r)
                    &&& res == r
                    &&& match r {
                        Ok(tp) => self == (TypeFactory { incomplete_typedef: self.incomplete_typedef, ..mid })
                            && self.incomplete_typedef@ == if d.flag(Datatype::TYPE_INCOMPLETE) {
                            mid.incomplete_typedef@.push(tp)
                        } else {
                            mid.incomplete_typedef@
                        },
                        Err(_) => self == mid,
                    }
                },
        }
    }

    /// A data-type under another name.
    pub fn get_typedef(&mut self, ct: TypeId, name: &str, id: u64, format: u32) -> (res: Result<TypeId>)
        requires
            old(self).ready(),
            old(self).has(ct),
            old(self).arena@.len() < u32::MAX,
            format < 8,
        ensures
            final(self).ready(),
            final(self).makes_typedef(*old(self), ct, name@, id, format, res),
            res matches Ok(tp) ==> final(self).member(tp),
            forall|i: int|
                0 <= i < old(self).arena@.len() ==> #[trigger] final(self).arena@[i] == old(self).arena@[i],
            final(self).arena@.len() >= old(self).arena@.len(),
    {
        let full_id: u64 = if id == 0 {
            Datatype::hash_name(name)
        } else {
            id
        };
        if let Some(res) = self.find_by_id_local(name, full_id) {
            if self.get(res).get_typedef() != Some(ct) {
                let mut text = String::new();
                text.push_str("Trying to create typedef of existing type: ");
                text.push_str(name);
                assert(text@ =~= "Trying to create typedef of existing type: "@ + name@);
                return Err(Error::Lowlevel(text));
            }
            return Ok(res);
        }
        let ghost before = *self;
        proof {
            before.look(ct);
            before.parts(before.dt(ct));
        }
        let mut res = self.get(ct).clone_type(self)?;
        res.name = name.to_owned();
        res.display_name = name.to_owned();
        res.id = full_id;
        res.flags = res.flags & !Datatype::CORETYPE;
        res.typedef_imm = Some(ct);
        res.set_display_format(format);
        let incomplete = res.is_incomplete();
        let ghost d = res;
        proof {
            assert(before.is_typedef(d, ct, name@, full_id, format));
            typedef_is_valid(before, d, ct, name@, full_id, format);
        }
        let inserted = self.insert(res);
        let ghost mid = *self;
        proof {
            assert(before.is_typedef(d, ct, name@, full_id, format) && mid.inserts(before, d, inserted));
        }
        let tp = inserted?;
        if incomplete {
            self.incomplete_typedef.push(tp);
        }
        proof {
            crate::types::tend::noted_is_sound(mid, *self);
            self.look(tp);
        }
        Ok(tp)
    }
}

proof fn typedef_is_valid(types: TypeFactory, d: Datatype, ct: TypeId, name: Seq<char>, id: u64, format: u32)
    requires
        types.ready(),
        types.has(ct),
        types.is_typedef(d, ct, name, id, format),
        format < 8,
    ensures
        types.valid(d),
        types.tidy_type(d),
{
    reveal(TypeFactory::kind_valid);
    reveal(TypeFactory::firm_kind);
    types.look(ct);
    types.neat(ct);
    let base = types.dt(ct);
    crate::types::grow::free_bits();
    crate::types::grow::freely_added(base.flags, Datatype::CHARTYPE);
    crate::types::grow::freely_added(base.flags, Datatype::CORETYPE);
    crate::types::grow::freely_added(base.flags, Datatype::NEEDS_RESOLUTION);
    let cloned = crate::types::create::clone_flags(base, types);
    assert((cloned & !1u32) & 0x40104u32 == cloned & 0x40104u32) by (bit_vector);
    crate::types::change::formatted_flags(cloned & !Datatype::CORETYPE, format);
    crate::types::grow::same_kind_bits(d.flags, base.flags);
    match base.kind {
        TypeKind::Enum(data) => {
            assert(d.kind->Enum_0.namemap.sorted());
        },
        TypeKind::PartialEnum(data) => {
            assert(d.kind->PartialEnum_0.enum_data.namemap.sorted());
        },
        _ => {},
    }
}

impl TypeFactory {
    /// Lays out the fields of a structure and sets them.
    pub fn assign_raw_fields_struct(&mut self, ct: TypeId, fd: &mut Vec<TypeField>, bit: &mut Vec<TypeBitField>) -> (res:
        Result<()>)
        requires
            old(self).ready(),
            old(self).has(ct),
            old(self).dt(ct).kind is Struct,
            old(fd)@.len() < i32::MAX,
            old(bit)@.len() <= i32::MAX,
            forall|i: int| #![trigger old(fd)@[i]] 0 <= i < old(fd)@.len() ==> old(self).has(old(fd)@[i].tp),
            forall|i: int| #![trigger old(bit)@[i]] 0 <= i < old(bit)@.len() ==> old(self).has(old(bit)@[i].tp),
            ({
                let all = Layout::complete(old(fd)@, old(bit)@, *old(self));
                let size = crate::types::layout::total_size(all.offset, all.align);
                &&& all.offset >= 0 && size <= i32::MAX
                &&& old(self).dt(ct).flag(Datatype::TYPE_INCOMPLETE) && laid_out(old(fd)@, old(bit)@, *old(self))
                    ==> old(self).struct_suits(all.fields, all.bits, size as i32, all.align)
            }),
        ensures
            final(self).ready(),
            ({
                let all = Layout::complete(old(fd)@, old(bit)@, *old(self));
                if laid_out(old(fd)@, old(bit)@, *old(self)) {
                    &&& final(fd)@ == all.fields
                    &&& final(bit)@ == all.bits
                    &&& final(self).completes_struct(
                        *old(self),
                        all.fields,
                        all.bits,
                        ct,
                        crate::types::layout::total_size(all.offset, all.align) as i32,
                        all.align,
                        all.flags,
                        res,
                    )
                } else {
                    res is Err && *final(self) == *old(self)
                }
            }),
    {
        let mut new_size: i32 = 0;
        let mut new_align: i32 = 0;
        let mut flags: u32 = 0;
        proof {
            crate::types::layout::first_void_inside(fd@, *self, 0);
        }
        Datatype::assign_field_offsets_struct(
            fd,
            bit,
            &mut new_size,
            &mut new_align,
            &mut flags,
            Some(self.get(ct)),
            self,
        )?;
        self.set_fields_struct(fd.as_slice(), bit.as_slice(), ct, new_size, new_align, flags)
    }

    /// Lays out the fields of a union and sets them.
    pub fn assign_raw_fields_union(&mut self, ct: TypeId, fd: &mut Vec<TypeField>) -> (res: Result<()>)
        requires
            old(self).ready(),
            old(self).has(ct),
            old(self).dt(ct).kind is Union,
            forall|i: int| #![trigger old(fd)@[i]] 0 <= i < old(fd)@.len() ==> old(self).has(old(fd)@[i].tp),
            ({
                let n = old(fd)@.len();
                old(self).dt(ct).flag(Datatype::TYPE_INCOMPLETE) && crate::types::layout::first_bad(
                    old(fd)@,
                    *old(self),
                    0,
                ) == n ==> old(self).fields_suit(
                    crate::types::layout::at_start(old(fd)@, n),
                    crate::types::layout::greatest_size(old(fd)@, *old(self), n),
                    crate::types::layout::greatest_align(old(fd)@, *old(self), n),
                )
            }),
        ensures
            final(self).ready(),
            ({
                let n = old(fd)@.len();
                if crate::types::layout::first_bad(old(fd)@, *old(self), 0) == n {
                    &&& final(fd)@ == crate::types::layout::at_start(old(fd)@, n)
                    &&& final(self).completes_union(
                        *old(self),
                        crate::types::layout::at_start(old(fd)@, n),
                        ct,
                        crate::types::layout::greatest_size(old(fd)@, *old(self), n),
                        crate::types::layout::greatest_align(old(fd)@, *old(self), n),
                        0,
                        res,
                    )
                } else {
                    res is Err && *final(self) == *old(self)
                }
            }),
    {
        let mut new_size: i32 = 0;
        let mut new_align: i32 = 0;
        let mut flags: u32 = 0;
        Datatype::assign_field_offsets_union(
            fd,
            &mut new_size,
            &mut new_align,
            &mut flags,
            Some(self.get(ct)),
            self,
        )?;
        self.set_fields_union(fd.as_slice(), ct, new_size, new_align, flags)
    }
}

/// The fields and bit fields of a structure can all be placed.
pub open spec fn laid_out(fields: Seq<TypeField>, bits: Seq<TypeBitField>, types: TypeFactory) -> bool {
    let all = Layout::complete(fields, bits, types);
    &&& crate::types::layout::first_void(fields, types, 0) == fields.len()
    &&& all.bits.len() == 0 || all.bit_index == all.bits.len()
}

} // verus!

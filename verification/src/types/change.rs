//! Changing data-types that the factory owns.
use vstd::prelude::*;
use crate::error::{Error, Result};
use crate::ids::TypeId;
use crate::types::names::NameMap;
use crate::types::{Datatype, TypeFactory, TypeMetatype, TypeWarning};

verus! {

impl TypeFactory {
    /// The factory after a data-type has been changed and has got its new place
    /// in the tree.
    pub open spec fn reworked(self, before: TypeFactory, ct: TypeId, d: Datatype) -> bool {
        exists|out: TypeFactory, mid: TypeFactory|
            #![trigger out.tree_without(before, ct), mid.retouched(out, ct, d)]
            out.tree_without(before, ct) && mid.retouched(out, ct, d) && self.tree_having(mid, ct)
    }

    /// What changing a name does: a data-type without an id gets the one that
    /// belongs to the name.
    pub open spec fn renamed(self, before: TypeFactory, ct: TypeId, name: Seq<char>) -> bool {
        let old_d = before.dt(ct);
        exists|out: TypeFactory, mid: TypeFactory, d: Datatype|
            #![trigger mid.reworked(out, ct, d)]
            {
                &&& if old_d.id != 0 {
                    out == (TypeFactory { nametree: out.nametree, ..before }) && out.name_removed(
                        before,
                        old_d.name@,
                        old_d.id,
                    )
                } else {
                    out == before
                }
                &&& d.name@ == name
                &&& d.display_name@ == name
                &&& d == (Datatype {
                    name: d.name,
                    display_name: d.display_name,
                    id: if old_d.id == 0 {
                        crate::types::read::name_hash(name)
                    } else {
                        old_d.id
                    },
                    ..old_d
                })
                &&& mid.reworked(out, ct, d)
                &&& self == (TypeFactory { nametree: self.nametree, ..mid })
                &&& self.name_entered(mid, d.name@, d.id, ct)
            }
    }

    /// Changes the name of a data-type.
    pub fn set_name(&mut self, ct: TypeId, name: &str) -> (res: Result<TypeId>)
        requires
            old(self).ready(),
            old(self).has(ct),
        ensures
            final(self).ready(),
            final(self).renamed(*old(self), ct, name@),
            res == Ok::<TypeId, Error>(ct),
    {
        let ghost before = *self;
        if self.get(ct).id != 0 {
            self.nametree_erase(ct);
            proof {
                crate::types::tend::named_out_is_sound(before, *self, before.dt(ct).name@, before.dt(ct).id);
            }
        }
        let ghost out = *self;
        self.tree_erase(ct);
        let ghost lean = *self;
        let dt = self.get_mut(ct);
        dt.name = name.to_owned();
        dt.display_name = name.to_owned();
        if dt.id == 0 {
            dt.id = Datatype::hash_name(name);
        }
        let ghost changed = *self;
        let ghost d = changed.dt(ct);
        proof {
            lean.look(ct);
            renaming_is_sound(lean, changed, ct, d);
        }
        self.tree_insert(ct);
        let ghost mid = *self;
        self.nametree_insert(ct);
        proof {
            assert(lean.tree_without(out, ct) && changed.retouched(lean, ct, d) && mid.tree_having(changed, ct));
            assert(mid.reworked(out, ct, d));
            crate::types::tend::named_in_is_sound(mid, *self, ct);
        }
        Ok(ct)
    }

    pub fn set_display_format(&mut self, ct: TypeId, format: u32)
        requires
            format < 8,
            old(self).ready(),
            old(self).has(ct),
        ensures
            final(self).ready(),
            final(self).retouched(
                *old(self),
                ct,
                Datatype {
                    flags: (old(self).dt(ct).flags & !Datatype::FORCE_FORMAT) | (format << 12),
                    ..old(self).dt(ct)
                },
            ),
    {
        let ghost before = *self;
        self.get_mut(ct).set_display_format(format);
        proof {
            before.look(ct);
            formatted_flags(before.dt(ct).flags, format);
            crate::types::grow::same_kind_bits(self.dt(ct).flags, before.dt(ct).flags);
            reflagged_is_sound(before, *self, ct, self.dt(ct).flags);
        }
    }

    /// What naming the values of an enumeration does.
    pub fn set_enum_values(&mut self, nmap: &NameMap, te: TypeId)
        requires
            old(self).ready(),
            old(self).has(te),
            old(self).dt(te).has_names(),
            nmap.sorted(),
        ensures
            final(self).ready(),
            exists|d: Datatype| #[trigger]
                final(self).reworked(*old(self), te, d) && d.has_names() && d.names().entries@ == nmap.entries@ && d
                    == (Datatype { kind: d.kind, ..old(self).dt(te) }),
    {
        let ghost before = *self;
        proof {
            before.look(te);
            before.parts(before.dt(te));
        }
        self.tree_erase(te);
        let ghost lean = *self;
        self.get_mut(te).set_name_map(nmap);
        let ghost changed = *self;
        let ghost d = changed.dt(te);
        proof {
            lean.look(te);
            reveal(TypeFactory::kind_valid);
            reveal(TypeFactory::firm_kind);
            lean.neat(te);
            crate::types::grow::retouch_is_sound(lean, changed, te, d);
        }
        self.tree_insert(te);
        proof {
            assert(lean.tree_without(before, te) && changed.retouched(lean, te, d) && self.tree_having(changed, te));
            assert(self.reworked(before, te, d));
        }
    }

    /// The warning about a data-type among the first `n`.
    pub open spec fn warned(self, dt: TypeId, n: nat) -> int
        decreases n,
    {
        if n == 0 {
            -1
        } else if self.warnings@[n - 1].tp == dt {
            n - 1
        } else {
            self.warned(dt, (n - 1) as nat)
        }
    }

    /// The place of the warning about a data-type, or -1.
    pub open spec fn warning_place(self, dt: TypeId) -> int {
        self.warned(dt, self.warnings@.len())
    }

    fn find_warning_place(&self, dt: TypeId) -> (res: Option<usize>)
        ensures
            match res {
                Some(i) => i == self.warning_place(dt) && i < self.warnings@.len(),
                None => self.warning_place(dt) == -1,
            },
    {
        let mut i: usize = self.warnings.len();
        while i > 0
            invariant
                i <= self.warnings@.len(),
                self.warning_place(dt) == self.warned(dt, i as nat),
            decreases i,
        {
            if self.warnings[i - 1].tp == dt {
                return Some(i - 1);
            }
            i = i - 1;
        }
        None
    }

    /// What noting a warning about a data-type does.
    pub open spec fn warns(self, before: TypeFactory, dt: TypeId, warn: String, res: Result<()>) -> bool {
        if before.dt(dt).id == 0 {
            self == before && (res matches Err(e) && e.is_lowlevel("Can only issue warnings for named data-types"@))
        } else {
            let d = before.dt(dt);
            let i = before.warning_place(dt);
            &&& res is Ok
            &&& self == (TypeFactory { arena: self.arena, warnings: self.warnings, ..before })
            &&& self.arena@ == before.arena@.update(
                dt.0 as int,
                Some(Datatype { flags: d.flags | Datatype::WARNING_ISSUED, ..d }),
            )
            &&& self.warnings@ == if i >= 0 {
                before.warnings@.update(i, TypeWarning { tp: dt, text: warn })
            } else {
                before.warnings@.push(TypeWarning { tp: dt, text: warn })
            }
        }
    }

    /// Notes a warning about a data-type with an id, in place of an earlier one.
    pub fn insert_warning(&mut self, dt: TypeId, warn: String) -> (res: Result<()>)
        requires
            old(self).ready(),
            old(self).has(dt),
        ensures
            final(self).ready(),
            final(self).warns(*old(self), dt, warn, res),
    {
        if self.get(dt).get_id() == 0 {
            return Err(Error::lowlevel("Can only issue warnings for named data-types"));
        }
        let ghost before = *self;
        let known = self.get_mut(dt);
        known.flags = known.flags | Datatype::WARNING_ISSUED;
        let ghost flagged = *self;
        proof {
            before.look(dt);
            crate::types::grow::free_bits();
            crate::types::grow::freely_added(before.dt(dt).flags, Datatype::WARNING_ISSUED);
            reflagged_is_sound(before, flagged, dt, flagged.dt(dt).flags);
            same_warnings(before, flagged, dt, before.warnings@.len());
        }
        match self.find_warning_place(dt) {
            Some(i) => {
                self.warnings.set(i, TypeWarning { tp: dt, text: warn });
            },
            None => {
                self.warnings.push(TypeWarning { tp: dt, text: warn });
            },
        }
        proof {
            rewarned_is_sound(flagged, *self);
        }
        Ok(())
    }

    /// Forgets the warning about a data-type.
    pub fn remove_warning(&mut self, dt: TypeId)
        ensures
            *final(self) == (TypeFactory { warnings: final(self).warnings, ..*old(self) }),
            final(self).warnings@ == if old(self).warning_place(dt) >= 0 {
                old(self).warnings@.remove(old(self).warning_place(dt))
            } else {
                old(self).warnings@
            },
            old(self).ready() ==> final(self).ready(),
    {
        let ghost before = *self;
        if let Some(i) = self.find_warning_place(dt) {
            self.warnings.remove(i);
        }
        proof {
            if before.ready() {
                rewarned_is_sound(before, *self);
            }
        }
    }

    /// What a pointer points to in the end.
    pub open spec fn pointed_to(self, dt: TypeId) -> TypeId
        decreases dt.0,
        when self.sound() && self.has(dt)
    {
        proof {
            self.look(dt);
            self.parts(self.dt(dt));
        }
        if self.dt(dt).metatype is Ptr {
            self.pointed_to(self.dt(dt).pointer().ptrto->0)
        } else {
            dt
        }
    }

    /// What a typedef stands for in the end.
    pub open spec fn meant_by(self, dt: TypeId) -> TypeId
        decreases dt.0,
        when self.sound() && self.has(dt)
    {
        proof {
            self.look(dt);
        }
        match self.dt(dt).typedef_imm {
            Some(tp) => self.meant_by(tp),
            None => dt,
        }
    }

    /// The data-type that a warning about a data-type is noted under: what is
    /// left when pointers, typedefs and parts are looked through.
    pub open spec fn warning_subject(self, dt: TypeId) -> TypeId {
        let core = self.meant_by(self.pointed_to(dt));
        if self.dt(core).is_partial() {
            self.dt(core).part_of()
        } else {
            core
        }
    }

    /// The warning about a data-type, or nothing.
    pub fn find_warning(&self, dt: TypeId) -> (res: String)
        requires
            self.sound(),
            self.has(dt),
        ensures
            res@ == if self.warning_place(self.warning_subject(dt)) >= 0 {
                self.warnings@[self.warning_place(self.warning_subject(dt))].text@
            } else {
                Seq::empty()
            },
    {
        let mut cur = dt;
        proof {
            self.look(cur);
            self.parts(self.dt(cur));
        }
        while self.get(cur).get_metatype() == TypeMetatype::Ptr
            invariant
                self.sound(),
                self.member(cur),
                self.linked(self.dt(cur)),
                self.pointed_to(cur) == self.pointed_to(dt),
            decreases cur.0,
        {
            cur = self.get(cur).get_ptr_to();
            proof {
                self.parts(self.dt(cur));
            }
        }
        let ghost core = cur;
        loop
            invariant
                self.sound(),
                self.member(cur),
                self.linked(self.dt(cur)),
                self.meant_by(cur) == self.meant_by(core),
            ensures
                self.member(cur),
                self.dt(cur).typedef_imm is None,
                self.meant_by(cur) == self.meant_by(core),
            decreases cur.0,
        {
            match self.get(cur).get_typedef() {
                Some(typedef_imm) => {
                    cur = typedef_imm;
                    proof {
                        self.look(cur);
                        self.parts(self.dt(cur));
                    }
                },
                None => {
                    break;
                },
            }
        }
        assert(cur == self.meant_by(self.pointed_to(dt)));
        if let Some(base) = self.get(cur).get_partial_base() {
            cur = base;
        }
        match self.find_warning_place(cur) {
            Some(i) => self.warnings[i].text.clone(),
            None => String::new(),
        }
    }
}

/// A format leaves the properties that only some kinds can have.
pub proof fn formatted_flags(flags: u32, format: u32)
    requires
        format < 8,
    ensures
        ((flags & !Datatype::FORCE_FORMAT) | (format << 12)) & crate::types::grow::kind_bits() == flags
            & crate::types::grow::kind_bits(),
{
    assert(((flags & !0x7000u32) | (format << 12)) & 0x40104u32 == flags & 0x40104u32) by (bit_vector)
        requires
            format < 8,
    ;
}

proof fn same_warnings(a: TypeFactory, b: TypeFactory, dt: TypeId, n: nat)
    requires
        a.warnings == b.warnings,
    ensures
        a.warned(dt, n) == b.warned(dt, n),
    decreases n,
{
    if n > 0 {
        same_warnings(a, b, dt, (n - 1) as nat);
    }
}

/// Other warnings leave a factory sound.
proof fn rewarned_is_sound(before: TypeFactory, after: TypeFactory)
    requires
        before.ready(),
        after == (TypeFactory { warnings: after.warnings, ..before }),
    ensures
        after.ready(),
{
    crate::types::tend::noted_is_sound(before, after);
}

/// A new name leaves a factory sound.
proof fn renaming_is_sound(before: TypeFactory, after: TypeFactory, ct: TypeId, d: Datatype)
    requires
        before.ready(),
        before.has(ct),
        after.retouched(before, ct, d),
        d == (Datatype { name: d.name, display_name: d.display_name, id: d.id, ..before.dt(ct) }),
    ensures
        after.ready(),
{
    before.look(ct);
    before.neat(ct);
    before.parts(before.dt(ct));
    reveal(TypeFactory::kind_valid);
    reveal(TypeFactory::firm_kind);
    unchanged_kind(before, ct, d);
    crate::types::grow::retouch_is_sound(before, after, ct, d);
}

/// Other properties leave a factory sound if they fit the kind.
pub proof fn reflagged_is_sound(before: TypeFactory, after: TypeFactory, ct: TypeId, flags: u32)
    requires
        before.ready(),
        before.has(ct),
        after.retouched(before, ct, (Datatype { flags, ..before.dt(ct) })),
        (Datatype { flags, ..before.dt(ct) }).flags_fit(),
    ensures
        after.ready(),
{
    let d = Datatype { flags, ..before.dt(ct) };
    before.look(ct);
    before.neat(ct);
    before.parts(before.dt(ct));
    reveal(TypeFactory::kind_valid);
    reveal(TypeFactory::firm_kind);
    unchanged_kind(before, ct, d);
    crate::types::grow::retouch_is_sound(before, after, ct, d);
}

/// What holds of a data-type of the factory holds of one with the same kind.
pub proof fn unchanged_kind(types: TypeFactory, ct: TypeId, d: Datatype)
    requires
        types.sound(),
        types.has(ct),
        d.kind == types.dt(ct).kind,
    ensures
        types.is_truncation(ct) ==> d.pointer().truncate is None,
        d.is_pointer() ==> d.pointer().truncate != Some(ct),
{
    types.look(ct);
    types.parts(types.dt(ct));
    if types.is_truncation(ct) {
        let p = choose|p: TypeId| #![trigger types.dt(p)]
            types.has(p) && types.dt(p).is_pointer() && types.dt(p).pointer().truncate == Some(ct);
        types.look(p);
        types.parts(types.dt(p));
    }
}

} // verus!

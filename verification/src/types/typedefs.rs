//! Completing the typedefs of data-types that were announced before.
use vstd::prelude::*;
use crate::error::{Error, Result};
use crate::ids::TypeId;
use crate::types::create::{copy_bitfields, copy_fields};
use crate::types::vet::malformed_type;
use crate::types::{Datatype, SubMetatype, TypeCodeData, TypeFactory, TypeKind, TypeMetatype};

verus! {

/// Two data-types that differ at most in their fine class.
pub open spec fn same_but_class(a: Datatype, b: Datatype) -> bool {
    b == (Datatype { submeta: b.submeta, ..a })
}

impl TypeFactory {
    /// Only one data-type of the factory has changed, apart from fine classes.
    pub open spec fn changed_only(self, before: TypeFactory, ot: TypeId) -> bool {
        &&& self == (TypeFactory {
            arena: self.arena,
            tree: self.tree,
            depth: self.depth,
            firmness: self.firmness,
            ..before
        })
        &&& self.arena@.len() == before.arena@.len()
        &&& forall|x: TypeId| #![trigger self.has(x)]
            self.has(x) == before.has(x) && (before.has(x) && x != ot ==> same_but_class(before.dt(x), self.dt(x)))
    }

    /// What a data-type was defined as.
    pub open spec fn definition(self, dt: TypeId) -> Datatype {
        self.dt(self.dt(dt).typedef_imm->0)
    }

    /// A typedef that can be completed once its definition is complete.
    #[verifier::opaque]
    pub open spec fn awaits(self, dt: TypeId) -> bool {
        let d = self.dt(dt);
        let f = self.definition(dt);
        &&& self.has(dt)
        &&& d.typedef_imm is Some
        &&& self.has(d.typedef_imm->0)
        &&& d.typedef_imm->0 != dt
        &&& crate::types::grow::variant(d.kind) == crate::types::grow::variant(f.kind)
    }

    /// All typedefs that were noted can be completed.
    #[verifier::opaque]
    pub open spec fn typedefs_await(self) -> bool {
        forall|i: int| #![trigger self.incomplete_typedef@[i]]
            0 <= i < self.incomplete_typedef@.len() ==> self.awaits(self.incomplete_typedef@[i])
    }

    /// What a typedef gets from its definition suits it.
    pub open spec fn definition_suits(self, dt: TypeId) -> bool {
        let f = self.definition(dt);
        match self.dt(dt).metatype {
            TypeMetatype::Struct => self.struct_suits(f.fields(), f.bitfields(), f.size, f.alignment),
            TypeMetatype::Union => self.fields_suit(f.fields(), f.size, f.alignment),
            _ => true,
        }
    }

    /// What completing a typedef does: it gets what its definition has.
    #[verifier::opaque]
    pub open spec fn completes_typedef(self, before: TypeFactory, dt: TypeId, res: Result<()>) -> bool {
        let f = before.definition(dt);
        if before.dt(dt).flag(Datatype::TYPE_INCOMPLETE) && !before.definition_suits(dt) {
            self == before && (res matches Err(e) && crate::types::vet::malformed(e))
        } else {
            self.takes_definition(before, dt, res)
        }
    }

    /// A typedef has got what its definition has.
    pub open spec fn takes_definition(self, before: TypeFactory, dt: TypeId, res: Result<()>) -> bool {
        let f = before.definition(dt);
        match before.dt(dt).metatype {
            TypeMetatype::Struct => self.completes_struct(
                before,
                f.fields(),
                f.bitfields(),
                dt,
                f.size,
                f.alignment,
                f.flags,
                res,
            ),
            TypeMetatype::Union => self.completes_union(before, f.fields(), dt, f.size, f.alignment, f.flags, res),
            _ => exists|fp: TypeCodeData| #[trigger]
                fp.alike(f.kind->Code_0) && self.completes_code(before, fp, dt, f.flags, res),
        }
    }

    /// A typedef whose definition is complete.
    pub open spec fn definable(self, dt: TypeId) -> bool {
        let meta = self.dt(dt).metatype;
        !self.definition(dt).flag(Datatype::TYPE_INCOMPLETE) && (meta is Struct || meta is Union || meta is Code)
    }
}

/// One step along the typedefs that were noted.
pub open spec fn typedef_step(a: TypeFactory, i: int, b: TypeFactory, j: int) -> bool {
    let dt = a.incomplete_typedef@[i];
    &&& 0 <= i < a.incomplete_typedef@.len()
    &&& if a.definable(dt) {
        &&& j == i
        &&& exists|c: TypeFactory| #[trigger]
            c.completes_typedef(a, dt, Ok::<(), Error>(())) && b == (TypeFactory {
                incomplete_typedef: b.incomplete_typedef,
                ..c
            }) && b.incomplete_typedef@ == c.incomplete_typedef@.remove(i)
    } else {
        b == a && j == i + 1
    }
}

/// Steps along the typedefs that were noted.
pub open spec fn typedef_steps(steps: Seq<(TypeFactory, int)>) -> bool {
    &&& steps.len() > 0
    &&& forall|i: int| #![trigger steps[i]]
        0 <= i < steps.len() - 1 ==> typedef_step(steps[i].0, steps[i].1, steps[i + 1].0, steps[i + 1].1)
}

/// Completing the typedefs that were noted goes through them in order and stops
/// at the first error.
pub open spec fn typedefs_resolved(before: TypeFactory, after: TypeFactory, res: Result<()>) -> bool {
    exists|steps: Seq<(TypeFactory, int)>| #[trigger]
        typedef_steps(steps) && steps[0] == (before, 0int) && {
            let (last, i) = steps.last();
            if res is Ok {
                after == last && i >= last.incomplete_typedef@.len()
            } else {
                0 <= i < last.incomplete_typedef@.len() && last.definable(last.incomplete_typedef@[i])
                    && after.completes_typedef(last, last.incomplete_typedef@[i], res)
            }
        }
}

proof fn completed_changes_only(before: TypeFactory, after: TypeFactory, ot: TypeId, d: Datatype)
    requires
        before.has(ot),
        after.completed(before, ot, d),
    ensures
        after.changed_only(before, ot),
        after.dt(ot) == d,
{
    let (out, mid) = choose|out: TypeFactory, mid: TypeFactory|
        #![trigger out.tree_without(before, ot), mid.refitted(out, ot, d)]
        out.tree_without(before, ot) && mid.refitted(out, ot, d) && after.tree_having(mid, ot);
    assert(after.arena@ == before.arena@.update(ot.0 as int, Some(d)));
    assert forall|x: TypeId| #![trigger after.has(x)] after.has(x) == before.has(x) && (before.has(x) && x != ot
        ==> same_but_class(before.dt(x), after.dt(x))) by {
        if x.0 != ot.0 && x.0 < before.arena@.len() {
            assert(after.arena@[x.0 as int] == before.arena@[x.0 as int]);
        } else if x.0 == ot.0 {
            assert(x == ot);
        }
    }
}

proof fn resorted_changes_only(before: TypeFactory, mid: TypeFactory, after: TypeFactory, ot: TypeId)
    requires
        before.has(ot),
        mid.changed_only(before, ot),
        crate::types::compose::resorted(mid, after),
    ensures
        after.changed_only(before, ot),
        same_but_class(mid.dt(ot), after.dt(ot)),
{
    assert forall|x: TypeId| #![trigger after.has(x)] after.has(x) == before.has(x) && (before.has(x) && x != ot
        ==> same_but_class(before.dt(x), after.dt(x))) by {
        assert(mid.has(x) == before.has(x));
        if x.0 < mid.arena@.len() {
            let now = after.arena@[x.0 as int];
        }
    }
    assert(mid.has(ot));
    let now = after.arena@[ot.0 as int];
}

/// Completing a typedef changes only the typedef, to what its definition is.
proof fn completion_changes_only(before: TypeFactory, after: TypeFactory, dt: TypeId)
    requires
        before.awaits(dt),
        before.sound(),
        before.definable(dt),
        after.completes_typedef(before, dt, Ok::<(), Error>(())),
    ensures
        after.changed_only(before, dt),
        after.has(dt),
        crate::types::grow::variant(after.dt(dt).kind) == crate::types::grow::variant(before.dt(dt).kind),
        after.dt(dt).typedef_imm == before.dt(dt).typedef_imm,
        after.dt(dt).fields() == before.definition(dt).fields(),
        before.dt(dt).kind is Struct || before.dt(dt).kind is Union ==> after.dt(dt).size == before.definition(dt).size
            && after.dt(dt).alignment == before.definition(dt).alignment,
{
    reveal(TypeFactory::completes_typedef);
    reveal(TypeFactory::awaits);
    let f = before.definition(dt);
    let old_d = before.dt(dt);
    before.look(dt);
    match old_d.metatype {
        TypeMetatype::Struct => {
            let (d, done, first) = choose|d: Datatype, done: TypeFactory, first: TypeFactory|
                #![trigger done.completed(before, dt, d), first.recalculated(done, dt, SubMetatype::Ptr)]
                crate::types::compose::is_completed_struct(
                    d,
                    old_d,
                    f.fields(),
                    f.bitfields(),
                    f.size,
                    f.alignment,
                    f.flags,
                    before,
                ) && done.completed(before, dt, d) && first.recalculated(done, dt, SubMetatype::Ptr)
                    && after.recalculated(first, dt, SubMetatype::PtrStruct);
            completed_changes_only(before, done, dt, d);
            crate::types::compose::recalculating_keeps(done, first, dt, SubMetatype::Ptr);
            resorted_changes_only(before, done, first, dt);
            crate::types::compose::recalculating_keeps(first, after, dt, SubMetatype::PtrStruct);
            resorted_changes_only(before, first, after, dt);
            assert(after.has(dt));
        },
        TypeMetatype::Union => {
            let d = choose|d: Datatype| #[trigger]
                crate::types::compose::is_completed_union(d, old_d, f.fields(), f.size, f.alignment, f.flags)
                    && after.completed(before, dt, d);
            completed_changes_only(before, after, dt, d);
            assert(after.has(dt));
        },
        _ => {
            let fp = choose|fp: TypeCodeData| #[trigger]
                fp.alike(f.kind->Code_0) && after.completes_code(before, fp, dt, f.flags, Ok::<(), Error>(()));
            let d = Datatype {
                kind: TypeKind::Code(crate::types::settle::with_prototype(old_d.kind->Code_0, fp)),
                flags: crate::types::compose::other_flags(old_d.flags, f.flags),
                ..old_d
            };
            let (out, mid) = choose|out: TypeFactory, mid: TypeFactory|
                #![trigger out.tree_without(before, dt), mid.retouched(out, dt, d)]
                out.tree_without(before, dt) && mid.retouched(out, dt, d) && after.tree_having(mid, dt);
            assert(after.arena@ == before.arena@.update(dt.0 as int, Some(d)));
            assert forall|x: TypeId| #![trigger after.has(x)] after.has(x) == before.has(x) && (before.has(x) && x != dt
                ==> same_but_class(before.dt(x), after.dt(x))) by {
                if x.0 != dt.0 && x.0 < before.arena@.len() {
                    assert(after.arena@[x.0 as int] == before.arena@[x.0 as int]);
                } else if x.0 == dt.0 {
                    assert(x == dt);
                }
            }
            assert(after.has(dt));
        },
    }
}

/// The typedefs that are left can still be completed.
proof fn still_awaits(before: TypeFactory, after: TypeFactory, done: TypeId, dt: TypeId)
    requires
        before.sound(),
        before.awaits(done),
        before.definable(done),
        before.awaits(dt),
        after.completes_typedef(before, done, Ok::<(), Error>(())),
    ensures
        after.awaits(dt),
{
    reveal(TypeFactory::awaits);
    completion_changes_only(before, after, done);
    before.look(done);
    let d = before.dt(dt);
    assert(after.has(dt));
    assert(after.has(d.typedef_imm->0));
}

/// The prototype of a definition suits a typedef.
proof fn prototype_of_definition(types: TypeFactory, dt: TypeId)
    requires
        types.ready(),
        types.awaits(dt),
    ensures
        types.definition(dt).kind is Code ==> types.prototype_suits(types.definition(dt).kind->Code_0)
            || types.definition(dt).kind->Code_0.signature is None,
{
    reveal(TypeFactory::awaits);
    let tp = types.dt(dt).typedef_imm->0;
    let f = types.dt(tp);
    types.look(tp);
    types.parts(f);
    reveal(TypeFactory::kind_valid);
    reveal(TypeFactory::firm_kind);
}

impl TypeFactory {
    /// Completes a typedef whose definition is complete.
    fn complete_typedef(&mut self, dt: TypeId) -> (res: Result<()>)
        requires
            old(self).ready(),
            old(self).signed(),
            old(self).awaits(dt),
            old(self).definable(dt),
        ensures
            final(self).ready(),
            final(self).completes_typedef(*old(self), dt, res),
    {
        let ghost here = *self;
        proof {
            reveal(TypeFactory::awaits);
            reveal(TypeFactory::signed);
            reveal(TypeFactory::completes_typedef);
            self.look(dt);
            prototype_of_definition(*self, dt);
            self.look(self.dt(dt).typedef_imm->0);
            let f = self.dt(self.dt(dt).typedef_imm->0);
        }
        let defed = self.get(self.get(dt).get_typedef().unwrap());
        let size: i32 = defed.size;
        let alignment: i32 = defed.alignment;
        let flags: u32 = defed.flags;
        let (fields, bitfields, code) = match &defed.kind {
            TypeKind::Struct(data) => (
                copy_fields(data.field.as_slice()),
                copy_bitfields(data.bitfield.as_slice()),
                TypeCodeData { proto: None, signature: None, factory: false },
            ),
            TypeKind::Union(data) => (
                copy_fields(data.field.as_slice()),
                Vec::new(),
                TypeCodeData { proto: None, signature: None, factory: false },
            ),
            TypeKind::Code(data) => (Vec::new(), Vec::new(), data.copy_data()?),
            _ => vstd::pervasive::unreached(),
        };
        let meta = self.get(dt).get_metatype();
        let waits = self.get(dt).is_incomplete();
        if meta == TypeMetatype::Struct {
            if waits && !self.can_be_struct(&fields, &bitfields, size, alignment) {
                return Err(malformed_type());
            }
            self.set_fields_struct(fields.as_slice(), bitfields.as_slice(), dt, size, alignment, flags)
        } else if meta == TypeMetatype::Union {
            if waits && !self.can_have_fields(&fields, size, alignment) {
                return Err(malformed_type());
            }
            self.set_fields_union(fields.as_slice(), dt, size, alignment, flags)
        } else {
            let ghost fp = code;
            let done = self.set_prototype(code, dt, flags);
            assert(fp.alike(here.definition(dt).kind->Code_0) && self.completes_code(here, fp, dt, flags, done));
            done
        }
    }

    /// Completes the typedefs whose definition has become complete.
    pub fn resolve_incomplete_typedefs(&mut self) -> (res: Result<()>)
        requires
            old(self).ready(),
            old(self).typedefs_await(),
            old(self).signed(),
        ensures
            final(self).ready(),
            typedefs_resolved(*old(self), *final(self), res),
    {
        let ghost mut steps: Seq<(TypeFactory, int)> = seq![(*self, 0int)];
        let mut index: usize = 0;
        while index < self.incomplete_typedef.len()
            invariant
                self.ready(),
                self.typedefs_await(),
                self.signed(),
                typedef_steps(steps),
                steps[0] == (*old(self), 0int),
                steps.last() == (*self, index as int),
            decreases self.incomplete_typedef@.len() - index,
        {
            let ghost here = *self;
            let ghost at = index as int;
            let dt = self.incomplete_typedef[index];
            proof {
                noted_awaits(here, at);
            }
            let defed_type = self.get(dt).get_typedef().unwrap();
            let defed = self.get(defed_type);
            let meta = self.get(dt).get_metatype();
            if defed.is_incomplete() || (meta != TypeMetatype::Struct && meta != TypeMetatype::Union && meta
                != TypeMetatype::Code) {
                index = index + 1;
            } else {
                let done = self.complete_typedef(dt);
                let ghost completed = *self;
                proof {
                    assert(completed.completes_typedef(here, dt, done));
                }
                match done {
                    Err(e) => {
                        proof {
                            assert(typedefs_resolved(*old(self), *self, Err::<(), Error>(e)));
                        }
                        return Err(e);
                    },
                    Ok(unit) => {
                        proof {
                            assert(unit == ());
                            completion_changes_only(here, completed, dt);
                        }
                    },
                }
                self.incomplete_typedef.remove(index);
                proof {
                    typedef_step_done(here, completed, *self, dt, at);
                    assert(completed.completes_typedef(here, dt, Ok::<(), Error>(())));
                }
            }
            proof {
                let longer = steps.push((*self, index as int));
                assert(typedef_step(here, at, *self, index as int));
                assert forall|i: int| #![trigger longer[i]] 0 <= i < longer.len() - 1 implies typedef_step(
                    longer[i].0,
                    longer[i].1,
                    longer[i + 1].0,
                    longer[i + 1].1,
                ) by {
                    if i < steps.len() - 1 {
                        assert(longer[i] == steps[i]);
                        assert(longer[i + 1] == steps[i + 1]);
                    } else {
                        assert(longer[i] == steps.last());
                    }
                }
                steps = longer;
            }
        }
        Ok(())
    }

    /// Code with a prototype has a signature.
    #[verifier::opaque]
    pub open spec fn signed(self) -> bool {
        forall|id: TypeId| #![trigger self.dt(id)]
            self.has(id) && (self.dt(id).kind matches TypeKind::Code(data) && data.proto is Some) ==> self.dt(
                id,
            ).kind->Code_0.signature is Some
    }
}

proof fn still_signed(before: TypeFactory, after: TypeFactory, dt: TypeId)
    requires
        before.sound(),
        before.signed(),
        before.awaits(dt),
        before.definable(dt),
        after.completes_typedef(before, dt, Ok::<(), Error>(())),
    ensures
        after.signed(),
{
    reveal(TypeFactory::completes_typedef);
    reveal(TypeFactory::awaits);
    reveal(TypeFactory::signed);
    completion_changes_only(before, after, dt);
    before.look(dt);
    let f = before.definition(dt);
    let old_d = before.dt(dt);
    assert forall|id: TypeId| #![trigger after.dt(id)]
        after.has(id) && (after.dt(id).kind matches TypeKind::Code(data) && data.proto is Some) implies after.dt(
        id,
    ).kind->Code_0.signature is Some by {
        assert(before.has(id));
        let b = before.dt(id);
        if id == dt {
            assert(before.dt(old_d.typedef_imm->0) == f);
            let fp = choose|fp: TypeCodeData| #[trigger]
                fp.alike(f.kind->Code_0) && after.completes_code(before, fp, dt, f.flags, Ok::<(), Error>(()));
            let d = Datatype {
                kind: TypeKind::Code(crate::types::settle::with_prototype(old_d.kind->Code_0, fp)),
                flags: crate::types::compose::other_flags(old_d.flags, f.flags),
                ..old_d
            };
            let (out, mid) = choose|out: TypeFactory, mid: TypeFactory|
                #![trigger out.tree_without(before, dt), mid.retouched(out, dt, d)]
                out.tree_without(before, dt) && mid.retouched(out, dt, d) && after.tree_having(mid, dt);
            assert(after.dt(dt) == d);
        }
    }
}

/// What is known of a typedef that was noted.
proof fn noted_awaits(types: TypeFactory, i: int)
    requires
        types.typedefs_await(),
        0 <= i < types.incomplete_typedef@.len(),
    ensures
        types.awaits(types.incomplete_typedef@[i]),
        types.has(types.incomplete_typedef@[i]),
        types.dt(types.incomplete_typedef@[i]).typedef_imm is Some,
        types.has(types.dt(types.incomplete_typedef@[i]).typedef_imm->0),
{
    reveal(TypeFactory::typedefs_await);
    reveal(TypeFactory::awaits);
    let dt = types.incomplete_typedef@[i];
}

/// Once a typedef is completed and no longer noted, the others can be.
proof fn typedef_step_done(here: TypeFactory, completed: TypeFactory, after: TypeFactory, dt: TypeId, at: int)
    requires
        here.ready(),
        here.typedefs_await(),
        here.signed(),
        0 <= at < here.incomplete_typedef@.len(),
        dt == here.incomplete_typedef@[at],
        here.definable(dt),
        completed.ready(),
        completed.completes_typedef(here, dt, Ok::<(), Error>(())),
        after == (TypeFactory { incomplete_typedef: after.incomplete_typedef, ..completed }),
        after.incomplete_typedef@ == completed.incomplete_typedef@.remove(at),
    ensures
        after.ready(),
        after.typedefs_await(),
        after.signed(),
        completed.incomplete_typedef@ == here.incomplete_typedef@,
{
    reveal(TypeFactory::typedefs_await);
    assert(here.awaits(here.incomplete_typedef@[at]));
    completion_changes_only(here, completed, dt);
    still_signed(here, completed, dt);
    crate::types::tend::noted_is_sound(completed, after);
    assert forall|i: int| #![trigger after.incomplete_typedef@[i]]
        0 <= i < after.incomplete_typedef@.len() implies after.awaits(after.incomplete_typedef@[i]) by {
        let j = if i < at { i } else { i + 1 };
        assert(after.incomplete_typedef@[i] == here.incomplete_typedef@[j]);
        assert(here.awaits(here.incomplete_typedef@[j]));
        still_awaits(here, completed, dt, here.incomplete_typedef@[j]);
        same_list_awaits(completed, after, here.incomplete_typedef@[j]);
    }
    reveal(TypeFactory::signed);
    assert forall|id: TypeId| #![trigger after.dt(id)]
        after.has(id) && (after.dt(id).kind matches TypeKind::Code(data) && data.proto is Some) implies after.dt(
        id,
    ).kind->Code_0.signature is Some by {
        assert(completed.has(id));
        let d = completed.dt(id);
    }
}

proof fn same_list_awaits(a: TypeFactory, b: TypeFactory, dt: TypeId)
    requires
        b == (TypeFactory { incomplete_typedef: b.incomplete_typedef, ..a }),
        a.awaits(dt),
    ensures
        b.awaits(dt),
{
    reveal(TypeFactory::awaits);
}

} // verus!

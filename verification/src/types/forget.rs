//! Taking data-types out of the factory.
use vstd::prelude::*;
use crate::error::{Error, Result};
use crate::ids::TypeId;
use crate::types::{Datatype, NamedType, TypeFactory, TypeKind, TypeMetatype};

verus! {

/// Whether a data-type refers to another one in any way.
pub open spec fn refers(d: Datatype, id: TypeId) -> bool {
    ||| d.typedef_imm == Some(id)
    ||| crate::types::compose::contains(d, id)
    ||| d.stripped() == Some(id)
    ||| d.is_pointer() && (d.pointer().ptrto == Some(id) || d.pointer().truncate == Some(id))
    ||| (d.kind matches TypeKind::PointerRel(data) && data.parent == Some(id))
    ||| exists|i: int| 0 <= i < d.bitfields().len() && (#[trigger] d.bitfields()[i]).tp == id
    ||| (d.kind matches TypeKind::Code(data) && data.signature is Some && (data.signature->0.output == Some(id)
        || exists|i: int|
        0 <= i < data.signature->0.params@.len() && #[trigger] data.signature->0.params@[i] == id))
}

impl TypeFactory {
    /// Nothing refers to a data-type: no other data-type and no table.
    pub open spec fn unreferenced(self, id: TypeId) -> bool {
        &&& forall|x: TypeId| #![trigger self.dt(x)] self.has(x) && x != id ==> !refers(self.dt(x), id)
        &&& !self.is_cached(id)
        &&& self.typecache10 != Some(id)
        &&& self.typecache16 != Some(id)
        &&& self.type_nochar != Some(id)
        &&& forall|i: int| #![trigger self.charcache@[i]] 0 <= i < self.charcache@.len() ==> self.charcache@[i] != Some(id)
        &&& forall|i: int| #![trigger self.tree@[i]] 0 <= i < self.tree@.len() ==> self.tree@[i] != id
        &&& forall|i: int| #![trigger self.nametree@[i]] 0 <= i < self.nametree@.len() ==> self.nametree@[i].tp != id
    }
}

/// A data-type that does not refer to another one is valid without it.
proof fn valid_without(before: TypeFactory, after: TypeFactory, id: TypeId, d: Datatype)
    requires
        before.sound(),
        before.valid(d),
        !refers(d, id),
        after.arena@ == before.arena@.update(id.0 as int, None),
        after.depth == before.depth,
        before.has(id),
    ensures
        after.valid(d),
        before.firm_kind(d) ==> after.firm_kind(d),
        after.depth_of(d) == before.depth_of(d),
        after.reserve_of(d) == before.reserve_of(d),
        after.chain_of(d) == before.chain_of(d),
{
    reveal(TypeFactory::kind_valid);
    reveal(TypeFactory::firm_kind);
    before.parts(d);
    assert forall|i: TypeId| before.has(i) && i != id implies after.has(i) && #[trigger] after.dt(i) == before.dt(i) by {
        assert(i.0 != id.0);
    }
    match d.kind {
        TypeKind::Struct(data) => {
            assert forall|i: int| #![trigger data.field@[i]] 0 <= i < data.field@.len() implies {
                &&& after.has(data.field@[i].tp)
                &&& after.dt(data.field@[i].tp) == before.dt(data.field@[i].tp)
            } by {
                assert(before.has(data.field@[i].tp));
                assert(d.fields()[i].tp != id);
            }
            assert forall|i: int| #![trigger data.bitfield@[i]] 0 <= i < data.bitfield@.len() implies after.has(
                data.bitfield@[i].tp,
            ) by {
                assert(before.has(data.bitfield@[i].tp));
                assert(d.bitfields()[i].tp != id);
            }
        },
        TypeKind::Union(data) => {
            assert forall|i: int| #![trigger data.field@[i]] 0 <= i < data.field@.len() implies {
                &&& after.has(data.field@[i].tp)
                &&& after.dt(data.field@[i].tp) == before.dt(data.field@[i].tp)
            } by {
                assert(before.has(data.field@[i].tp));
                assert(d.fields()[i].tp != id);
            }
        },
        TypeKind::Code(data) => {
            if data.signature is Some {
                let params = data.signature->0.params@;
                assert forall|i: int| #![trigger params[i]] 0 <= i < params.len() implies after.has(params[i]) by {
                    assert(before.has(params[i]));
                }
            }
        },
        _ => {},
    }
}

/// Taking out a data-type that nothing refers to leaves the factory sound.
pub proof fn removal_is_sound(before: TypeFactory, after: TypeFactory, id: TypeId)
    requires
        before.ready(),
        before.has(id),
        before.unreferenced(id),
        after == (TypeFactory { arena: after.arena, ..before }),
        after.arena@ == before.arena@.update(id.0 as int, None),
    ensures
        after.ready(),
{
    reveal(TypeFactory::sound);
    reveal(TypeFactory::indexed);
    assert forall|i: TypeId| before.has(i) && i != id implies after.has(i) && #[trigger] after.dt(i) == before.dt(i) by {
        assert(i.0 != id.0);
    }
    assert(after.indexed()) by {
        assert forall|size: int, meta: TypeMetatype| #![trigger after.cached(size, meta)]
            0 <= size < 9 && meta.rank() >= 10 && after.cached(size, meta) is Some implies {
            &&& after.has(after.cached(size, meta)->0)
            &&& after.dt(after.cached(size, meta)->0).size == size
            &&& after.dt(after.cached(size, meta)->0).metatype == meta
        } by {
            assert(before.cached(size, meta) == after.cached(size, meta));
            assert(before.cached(size, meta) != Some(id));
            let c = before.dt(before.cached(size, meta)->0);
        }
    }
    assert forall|x: TypeId| #![trigger after.dt(x)] after.has(x) implies {
        &&& before.has(x)
        &&& x != id
        &&& after.valid(after.dt(x))
        &&& after.firm() ==> after.firm_kind(after.dt(x)) && after.depth_of(after.dt(x)) <= after.depth@[x]
            && after.reserve_of(after.dt(x)) <= after.depth@[x]
        &&& after.chain_of(after.dt(x)) <= x.0
    } by {
        assert(x.0 != id.0);
        assert(after.arena@[x.0 as int] == before.arena@[x.0 as int]);
        before.look(x);
        valid_without(before, after, id, before.dt(x));
    }
    reveal(TypeFactory::tidy);
    assert forall|x: TypeId| #![trigger after.dt(x)] after.has(x) implies after.tidy_type(after.dt(x)) by {
        assert(before.has(x));
        before.look(x);
        let d = before.dt(x);
        before.parts(d);
        if d.is_pointer() && d.pointer().truncate is Some {
            let t = after.dt(d.pointer().truncate->0);
        }
    }
}

impl TypeFactory {
    /// The factory after a data-type has been destroyed.
    pub open spec fn destroyed(self, before: TypeFactory, ct: TypeId) -> bool {
        let d = before.dt(ct);
        exists|warned: TypeFactory, unnamed: TypeFactory, out: TypeFactory|
            #![trigger unnamed.name_removed(warned, d.name@, d.id), out.tree_without(unnamed, ct)]
            {
                &&& warned == (TypeFactory { warnings: warned.warnings, ..before })
                &&& warned.warnings@ == if d.flag(Datatype::WARNING_ISSUED) && before.warning_place(ct) >= 0 {
                    before.warnings@.remove(before.warning_place(ct))
                } else {
                    before.warnings@
                }
                &&& unnamed == (TypeFactory { nametree: unnamed.nametree, ..warned })
                &&& unnamed.name_removed(warned, d.name@, d.id)
                &&& out.tree_without(unnamed, ct)
                &&& self == (TypeFactory { arena: self.arena, ..out })
                &&& self.arena@ == out.arena@.update(ct.0 as int, None)
                &&& out.unreferenced(ct) ==> self.ready()
            }
    }

    /// Destroys a data-type.
    pub fn destroy_type(&mut self, ct: TypeId) -> (res: Result<()>)
        requires
            old(self).ready(),
            old(self).has(ct),
        ensures
            if old(self).dt(ct).flag(Datatype::CORETYPE) {
                *final(self) == *old(self) && (res matches Err(e) && e.is_lowlevel("Cannot destroy core type"@))
            } else {
                res is Ok && final(self).destroyed(*old(self), ct)
            },
    {
        let ghost before = *self;
        let dt = self.get(ct);
        if dt.is_core_type() {
            return Err(Error::lowlevel("Cannot destroy core type"));
        }
        let ghost d = *dt;
        if dt.has_warning() {
            self.remove_warning(ct);
        }
        let ghost warned = *self;
        self.nametree_erase(ct);
        let ghost unnamed = *self;
        proof {
            crate::types::tend::named_out_is_sound(warned, unnamed, d.name@, d.id);
        }
        self.tree_erase(ct);
        let ghost out = *self;
        self.arena.set(ct.0 as usize, None);
        proof {
            if out.unreferenced(ct) {
                removal_is_sound(out, *self, ct);
            }
            assert(unnamed.name_removed(warned, d.name@, d.id) && out.tree_without(unnamed, ct));
        }
        Ok(())
    }
}

/// The place of a name and an id in an index, or -1.
pub open spec fn place_in(names: Seq<NamedType>, nm: Seq<char>, id: u64, i: nat) -> int
    decreases names.len() - i,
{
    if i >= names.len() {
        -1
    } else if names[i as int].name@ == nm && names[i as int].id == id {
        i as int
    } else {
        place_in(names, nm, id, i + 1)
    }
}

proof fn same_place_in(types: TypeFactory, nm: Seq<char>, id: u64, i: nat)
    ensures
        place_in(types.nametree@, nm, id, i) == types.name_place(nm, id, i),
    decreases types.nametree@.len() - i,
{
    if i < types.nametree@.len() {
        same_place_in(types, nm, id, i + 1);
    }
}

/// What is left of a factory while data-types are being taken out.
pub ghost struct Remainder {
    pub tree: Seq<TypeId>,
    pub names: Seq<NamedType>,
    pub arena: Seq<Option<Datatype>>,
}

impl TypeFactory {
    /// What is left after the data-types among the first `n` of the tree that are
    /// not core have been taken out.
    pub open spec fn core_of(self, n: nat) -> Remainder
        decreases n,
    {
        if n == 0 {
            Remainder { tree: Seq::empty(), names: self.nametree@, arena: self.arena@ }
        } else {
            let rest = self.core_of((n - 1) as nat);
            let id = self.tree@[n - 1];
            let d = self.dt(id);
            if d.flag(Datatype::CORETYPE) {
                Remainder { tree: rest.tree.push(id), ..rest }
            } else {
                let i = place_in(rest.names, d.name@, d.id, 0);
                Remainder {
                    names: if i >= 0 {
                        rest.names.remove(i)
                    } else {
                        rest.names
                    },
                    arena: rest.arena.update(id.0 as int, None),
                    ..rest
                }
            }
        }
    }

    /// Takes out all data-types that are not core.
    pub fn clear_noncore(&mut self)
        requires
            old(self).sound(),
            old(self).tree@.no_duplicates(),
        ensures
            ({
                let rest = old(self).core_of(old(self).tree@.len());
                &&& final(self).tree@ == rest.tree
                &&& final(self).nametree@ == rest.names
                &&& final(self).arena@ == rest.arena
            }),
            final(self).warnings@.len() == 0,
            final(self).incomplete_typedef@.len() == 0,
            *final(self) == (TypeFactory {
                arena: final(self).arena,
                tree: final(self).tree,
                nametree: final(self).nametree,
                warnings: final(self).warnings,
                incomplete_typedef: final(self).incomplete_typedef,
                ..*old(self)
            }),
    {
        let ghost before = *self;
        let ghost mut n: nat = 0;
        let mut pos: usize = 0;
        assert(before.tree@.skip(0) =~= before.tree@);
        assert(Seq::<TypeId>::empty() + before.tree@ =~= before.tree@);
        while pos < self.tree.len()
            invariant
                before == *old(self),
                before.sound(),
                before.tree@.no_duplicates(),
                n <= before.tree@.len(),
                pos == before.core_of(n).tree.len(),
                self.tree@ == before.core_of(n).tree + before.tree@.skip(n as int),
                self.nametree@ == before.core_of(n).names,
                self.arena@ == before.core_of(n).arena,
                self.arena@.len() == before.arena@.len(),
                forall|k: int| #![trigger before.tree@[k]]
                    n <= k < before.tree@.len() ==> self.arena@[before.tree@[k].0 as int]
                        == before.arena@[before.tree@[k].0 as int],
                *self == (TypeFactory {
                    arena: self.arena,
                    tree: self.tree,
                    nametree: self.nametree,
                    ..before
                }),
            decreases self.tree@.len() - pos,
        {
            let ct = self.tree[pos];
            proof {
                assert(ct == before.tree@[n as int]);
                before.tree_names_members(n as int);
                assert(self.has(ct));
                assert(self.dt(ct) == before.dt(ct));
            }
            let ghost here = before.core_of(n);
            if self.get(ct).is_core_type() {
                pos = pos + 1;
                proof {
                    n = n + 1;
                    assert(here.tree.push(ct) + before.tree@.skip(n as int) =~= here.tree + before.tree@.skip(n - 1));
                }
            } else {
                let ghost named = *self;
                self.nametree_erase(ct);
                proof {
                    same_place_in(named, before.dt(ct).name@, before.dt(ct).id, 0);
                    named.name_place_inside(before.dt(ct).name@, before.dt(ct).id, 0);
                }
                self.tree.remove(pos);
                self.arena.set(ct.0 as usize, None);
                proof {
                    n = n + 1;
                    assert(self.tree@ =~= here.tree + before.tree@.skip(n as int));
                    assert forall|k: int| #![trigger before.tree@[k]] n <= k < before.tree@.len() implies self.arena@[
                    before.tree@[k].0 as int] == before.arena@[before.tree@[k].0 as int] by {
                        before.tree_names_members(k);
                        assert(before.tree@[k] != before.tree@[n - 1]);
                        assert(before.tree@[k].0 != ct.0);
                    }
                }
            }
        }
        proof {
            assert(before.tree@.skip(n as int).len() == 0);
            assert(n == before.tree@.len());
            assert(self.tree@ =~= before.core_of(n).tree);
        }
        self.warnings.clear();
        self.incomplete_typedef.clear();
    }
}

} // verus!

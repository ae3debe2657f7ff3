//! Completing structures, unions and code data-types that were announced before.
use vstd::prelude::*;
use crate::error::{Error, Result};
use crate::ids::TypeId;
use crate::types::{
    Datatype, SubMetatype, TypeBitField, TypeFactory, TypeField, TypeKind, TypeMetatype, TypePointerData,
};

verus! {

/// Whether a data-type contains another one, not through a pointer.
pub open spec fn contains(d: Datatype, id: TypeId) -> bool {
    match d.kind {
        TypeKind::Array(data) => data.arrayof == Some(id),
        TypeKind::Struct(_) | TypeKind::Union(_) => exists|i: int|
            0 <= i < d.fields().len() && (#[trigger] d.fields()[i]).tp == id,
        TypeKind::PartialEnum(data) => data.parent == id,
        TypeKind::PartialStruct(data) => data.container == id,
        TypeKind::PartialUnion(data) => data.container == id,
        _ => false,
    }
}

impl TypeFactory {
    /// Whether a data-type is another one or contains it at some depth, not through a pointer.
    pub open spec fn reaches(self, x: TypeId, id: TypeId) -> bool
        decreases self.depth@[x],
        when self.sound() && self.firm() && self.has(x)
    {
        proof {
            self.look(x);
            self.parts(self.dt(x));
        }
        x == id || match self.dt(x).kind {
            TypeKind::Array(data) => self.reaches(data.arrayof->0, id),
            TypeKind::Struct(data) => exists|i: int|
                0 <= i < data.field@.len() && self.reaches((#[trigger] data.field@[i]).tp, id),
            TypeKind::Union(data) => exists|i: int|
                0 <= i < data.field@.len() && self.reaches((#[trigger] data.field@[i]).tp, id),
            TypeKind::PartialEnum(data) => self.reaches(data.parent, id),
            TypeKind::PartialStruct(data) => self.reaches(data.container, id),
            TypeKind::PartialUnion(data) => self.reaches(data.container, id),
            _ => false,
        }
    }

    /// The factory after a data-type has been given other contents.
    pub open spec fn refitted(self, before: TypeFactory, id: TypeId, d: Datatype) -> bool {
        &&& self == (TypeFactory { arena: self.arena, depth: self.depth, firmness: self.firmness, ..before })
        &&& self.arena@ == before.arena@.update(id.0 as int, Some(d))
        &&& self.firm() == (before.firm() && before.stays_firm(id, d))
    }

    /// A factory stays firm when a composite gets its contents: they can be walked into, none
    /// holds the composite, and what holds the composite already has room for it.
    pub open spec fn stays_firm(self, id: TypeId, d: Datatype) -> bool {
        &&& self.firm_kind(d)
        &&& forall|i: int| #![trigger d.fields()[i]] 0 <= i < d.fields().len() ==> !self.reaches(d.fields()[i].tp, id)
        &&& self.room_for(id, d.size as int)
    }

    /// The depths after a data-type has been given other contents: it and all that contain
    /// it move up by the depth of the contents.
    pub open spec fn deepened(self, id: TypeId, by: nat) -> Map<TypeId, nat> {
        Map::new(
            |x: TypeId| true,
            |x: TypeId|
                if self.has(x) && self.reaches(x, id) {
                    (self.depth@[x] + by) as nat
                } else {
                    self.depth@[x]
                },
        )
    }

    /// All data-types that contain another one have room for it at a size.
    pub open spec fn room_for(self, id: TypeId, size: int) -> bool {
        forall|x: TypeId| #![trigger self.dt(x)] self.has(x) ==> leaves_room(self.dt(x), id, size)
    }
}

/// A data-type that contains another one has room for it at a size.
pub open spec fn leaves_room(x: Datatype, id: TypeId, size: int) -> bool {
    match x.kind {
        TypeKind::Struct(data) => {
            &&& fields_leave_room(data.field@, id, size, x.size as int)
            &&& fields_leave_gaps(data.field@, id, size)
        },
        TypeKind::Union(data) => fields_leave_room(data.field@, id, size, x.size as int),
        _ => true,
    }
}

/// The fields of one data-type end inside the given number of bytes, at a size.
pub open spec fn fields_leave_room(fields: Seq<TypeField>, id: TypeId, size: int, total: int) -> bool {
    forall|i: int| #![trigger fields[i]] 0 <= i < fields.len() && fields[i].tp == id ==> fields[i].offset + size <= total
}

/// The fields of one data-type end before those that follow, at a size.
pub open spec fn fields_leave_gaps(fields: Seq<TypeField>, id: TypeId, size: int) -> bool {
    forall|i: int, j: int| #![trigger fields[i], fields[j]]
        0 <= i < j < fields.len() && fields[i].tp == id ==> fields[i].offset + size <= fields[j].offset
}

/// Giving a data-type other contents leaves the data-types valid, and those that have room for
/// it can still be walked into.
proof fn others_stay(before: TypeFactory, after: TypeFactory, id: TypeId, d: Datatype, x: Datatype)
    requires
        before.sound(),
        before.has(id),
        before.dt(id).kind is Struct || before.dt(id).kind is Union,
        after.refitted(before, id, d),
        crate::types::grow::variant(d.kind) == crate::types::grow::variant(before.dt(id).kind),
        before.valid(x),
        d.align_size >= d.size,
    ensures
        after.valid(x),
        before.firm_kind(x) && leaves_room(x, id, d.size as int) ==> after.firm_kind(x),
        after.reserve_of(x) == before.reserve_of(x),
        after.chain_of(x) == before.chain_of(x),
{
    reveal(TypeFactory::kind_valid);
    reveal(TypeFactory::firm_kind);
    before.parts(x);
    assert forall|i: TypeId| before.has(i) implies after.has(i) && (i != id ==> #[trigger] after.dt(i) == before.dt(
        i,
    )) by {
        if i != id {
            assert(i.0 != id.0);
        }
    }
    assert(after.dt(id) == d);
    match x.kind {
        TypeKind::Pointer(data) => {
            assert(after.has(data.ptrto->0));
            if data.truncate is Some {
                assert(data.truncate->0 != id);
            }
        },
        TypeKind::PointerRel(data) => {
            assert(after.has(data.pointer.ptrto->0));
            if data.pointer.truncate is Some {
                assert(data.pointer.truncate->0 != id);
            }
        },
        TypeKind::Array(data) => {
            assert(after.has(data.arrayof->0));
        },
        TypeKind::Struct(data) => {
            assert forall|i: int| #![trigger data.field@[i]] 0 <= i < data.field@.len() implies after.has(
                data.field@[i].tp,
            ) by {
                assert(before.has(data.field@[i].tp));
            }
            if before.firm_kind(x) && leaves_room(x, id, d.size as int) {
                fields_with_room(before, after, id, d, x);
                assert forall|i: int, j: int| #![trigger data.field@[i], data.field@[j]]
                    0 <= i < j < data.field@.len() implies data.field@[i].offset + after.size_of(data.field@[i].tp)
                    <= data.field@[j].offset by {
                    assert(before.has(data.field@[i].tp));
                }
            }
            assert forall|i: int| #![trigger data.bitfield@[i]] 0 <= i < data.bitfield@.len() implies after.has(
                data.bitfield@[i].tp,
            ) by {
                assert(before.has(data.bitfield@[i].tp));
            }
        },
        TypeKind::Union(data) => {
            assert forall|i: int| #![trigger data.field@[i]] 0 <= i < data.field@.len() implies after.has(
                data.field@[i].tp,
            ) by {
                assert(before.has(data.field@[i].tp));
            }
            if before.firm_kind(x) && leaves_room(x, id, d.size as int) {
                fields_with_room(before, after, id, d, x);
            }
        },
        TypeKind::PartialEnum(data) => {
            assert(after.has(data.parent));
            assert(data.parent != id);
        },
        TypeKind::PartialStruct(data) => {
            assert(after.has(data.container));
            assert(after.has(data.stripped));
        },
        TypeKind::PartialUnion(data) => {
            assert(after.has(data.container));
            assert(after.has(data.stripped));
        },
        TypeKind::Code(data) => {
            if data.signature is Some {
                let params = data.signature->0.params@;
                assert forall|i: int| #![trigger params[i]] 0 <= i < params.len() implies after.has(params[i]) by {
                    assert(before.has(params[i]));
                }
            }
        },
        _ => {},
    }
}

proof fn fields_with_room(before: TypeFactory, after: TypeFactory, id: TypeId, d: Datatype, x: Datatype)
    requires
        x.kind is Struct || x.kind is Union,
        fields_leave_room(x.fields(), id, d.size as int, x.size as int),
        before.fields_inside(x.fields(), x.size as int),
        after.has(id),
        after.dt(id) == d,
        d.kind is Struct || d.kind is Union,
        forall|i: TypeId| before.has(i) ==> after.has(i) && (i != id ==> #[trigger] after.dt(i) == before.dt(i)),
    ensures
        after.fields_inside(x.fields(), x.size as int),
{
    let fields = x.fields();
    assert forall|i: int| #![trigger fields[i]] 0 <= i < fields.len() implies {
        &&& after.has(fields[i].tp)
        &&& !(after.dt(fields[i].tp).kind is Spacebase)
        &&& fields[i].offset + after.size_of(fields[i].tp) <= x.size
    } by {
        assert(before.has(fields[i].tp));
        let t = after.dt(fields[i].tp);
    }
}

/// The depth of fields grows by no more than the depths of their data-types.
proof fn depth_bounded(before: Map<TypeId, nat>, after: Map<TypeId, nat>, fields: Seq<TypeField>, by: nat, n: nat)
    requires
        n <= fields.len(),
        forall|i: int| #![trigger fields[i]] 0 <= i < fields.len() ==> after[fields[i].tp] <= before[fields[i].tp] + by,
    ensures
        n > 0 ==> crate::types::model::fields_depth(fields, after, n) <= crate::types::model::fields_depth(fields, before, n)
            + by,
        n == 0 ==> crate::types::model::fields_depth(fields, after, n) == 0,
    decreases n,
{
    if n > 0 {
        depth_bounded(before, after, fields, by, (n - 1) as nat);
        let last = fields[n - 1];
    }
}

/// Once the data-types that contain a data-type have moved up, all are deep enough.
proof fn deep_enough(before: TypeFactory, after: TypeFactory, id: TypeId, d: Datatype, x: TypeId)
    requires
        before.sound(),
        before.firm(),
        before.has(id),
        before.has(x),
        before.valid(d),
        d.kind is Struct || d.kind is Union,
        after.refitted(before, id, d),
        after.depth@ == before.deepened(id, before.depth_of(d)),
        forall|i: int| #![trigger d.fields()[i]] 0 <= i < d.fields().len() ==> !before.reaches(d.fields()[i].tp, id),
    ensures
        after.depth_of(after.dt(x)) <= after.depth@[x],
{
    let by = before.depth_of(d);
    before.look(x);
    before.parts(before.dt(x));
    before.parts(d);
    if x == id {
        let fields = d.fields();
        assert forall|i: int| #![trigger fields[i]] 0 <= i < fields.len() implies after.depth@[fields[i].tp]
            == before.depth@[fields[i].tp] by {
            assert(before.has(fields[i].tp));
        }
        crate::types::grow::depth_stays(before, after, fields, fields.len());
        assert(after.dt(x) == d);
        assert(before.reaches(x, id));
    } else {
        assert(x.0 != id.0);
        assert(after.dt(x) == before.dt(x));
        match before.dt(x).kind {
            TypeKind::Struct(data) => {
                container_deep_enough(before, after, id, by, x, data.field@);
            },
            TypeKind::Union(data) => {
                container_deep_enough(before, after, id, by, x, data.field@);
            },
            _ => {},
        }
    }
}

proof fn container_deep_enough(
    before: TypeFactory,
    after: TypeFactory,
    id: TypeId,
    by: nat,
    x: TypeId,
    fields: Seq<TypeField>,
)
    requires
        before.sound(),
        before.firm(),
        before.has(x),
        x != id,
        before.dt(x).kind is Struct || before.dt(x).kind is Union,
        fields == before.dt(x).fields(),
        after.depth@ == before.deepened(id, by),
    ensures
        crate::types::model::fields_depth(fields, after.depth@, fields.len()) <= after.depth@[x],
{
    before.look(x);
    before.parts(before.dt(x));
    if before.reaches(x, id) {
        depth_bounded(before.depth@, after.depth@, fields, by, fields.len());
    } else {
        assert forall|i: int| #![trigger fields[i]] 0 <= i < fields.len() implies after.depth@[fields[i].tp]
            == before.depth@[fields[i].tp] by {
            assert(!before.reaches(fields[i].tp, id));
        }
        crate::types::grow::depth_stays(before, after, fields, fields.len());
    }
}

/// Giving a data-type its fields leaves the factory sound.
pub proof fn refit_is_sound(before: TypeFactory, after: TypeFactory, id: TypeId, d: Datatype)
    requires
        before.ready(),
        before.has(id),
        before.dt(id).kind is Struct || before.dt(id).kind is Union,
        after.refitted(before, id, d),
        after.firm() ==> after.depth@ == before.deepened(id, before.depth_of(d)),
        crate::types::grow::variant(d.kind) == crate::types::grow::variant(before.dt(id).kind),
        d.typedef_imm == before.dt(id).typedef_imm,
        before.valid(d),
        d.alignment >= 0,
    ensures
        after.ready(),
{
    reveal(TypeFactory::sound);
    reveal(TypeFactory::indexed);
    before.look(id);
    before.parts(d);
    assert forall|i: TypeId| before.has(i) implies after.has(i) && (i != id ==> #[trigger] after.dt(i) == before.dt(
        i,
    )) by {
        if i != id {
            assert(i.0 != id.0);
        }
    }
    if after.firm() {
        assert forall|i: int| #![trigger d.fields()[i]] 0 <= i < d.fields().len() implies d.fields()[i].tp != id by {
            assert(!before.reaches(d.fields()[i].tp, id));
        }
        match d.kind {
            TypeKind::Struct(data) => {
                assert(d.fields() == data.field@);
            },
            TypeKind::Union(data) => {
                assert(d.fields() == data.field@);
            },
            _ => {},
        }
        assert(leaves_room(d, id, d.size as int));
    }
    assert forall|x: TypeId| #![trigger after.dt(x)] after.has(x) implies {
        &&& before.has(x)
        &&& after.valid(after.dt(x))
        &&& after.firm() ==> after.firm_kind(after.dt(x)) && after.depth_of(after.dt(x)) <= after.depth@[x]
            && after.reserve_of(after.dt(x)) <= after.depth@[x]
        &&& after.chain_of(after.dt(x)) <= x.0
    } by {
        let now = after.dt(x);
        assert(before.has(x)) by {
            if x.0 != id.0 {
                assert(after.arena@[x.0 as int] == before.arena@[x.0 as int]);
            }
        }
        before.look(x);
        let was = before.dt(x);
        if after.firm() {
            deep_enough(before, after, id, d, x);
        }
        if x == id {
            assert(now == d);
            others_stay(before, after, id, d, d);
        } else {
            assert(x.0 != id.0);
            assert(now == was);
            others_stay(before, after, id, d, now);
        }
    }
    assert(after.indexed()) by {
        assert forall|size: int, meta: TypeMetatype| #![trigger after.cached(size, meta)]
            0 <= size < 9 && meta.rank() >= 10 && after.cached(size, meta) is Some implies {
            &&& after.has(after.cached(size, meta)->0)
            &&& after.dt(after.cached(size, meta)->0).size == size
            &&& after.dt(after.cached(size, meta)->0).metatype == meta
        } by {
            assert(before.cached(size, meta) == after.cached(size, meta));
            let c = before.dt(before.cached(size, meta)->0);
            assert(before.cached(size, meta)->0 != id);
        }
    }
    reveal(TypeFactory::tidy);
    assert forall|x: TypeId| #![trigger after.dt(x)] after.has(x) implies after.tidy_type(after.dt(x)) by {
        let now = after.dt(x);
        assert(before.has(x));
        before.look(x);
        let old_d = before.dt(x);
        before.parts(old_d);
        if x != id {
            assert(x.0 != id.0);
            assert(now == old_d);
            if now.is_pointer() && now.pointer().truncate is Some {
                let t = now.pointer().truncate->0;
                assert(t != id);
                let t_now = after.dt(t);
            }
        }
    }
}

/// A pointer by which the place of the pointers to a data-type in the tree is found.
pub open spec fn probe(base: TypeId, sub: SubMetatype) -> Datatype {
    Datatype {
        id: 0,
        size: 1,
        flags: 0,
        name: arbitrary(),
        display_name: arbitrary(),
        metatype: TypeMetatype::Ptr,
        submeta: sub,
        typedef_imm: None,
        alignment: -1i32,
        align_size: 1,
        kind: TypeKind::Pointer(
            TypePointerData { ptrto: Some(base), spaceid: None, truncate: None, wordsize: 0 },
        ),
    }
}

proof fn place_of_probe(types: TypeFactory, ct: Datatype, base: TypeId, sub: SubMetatype, i: nat)
    requires
        ct.id == 0,
        ct.size == 1,
        ct.submeta == sub,
        ct.kind == probe(base, sub).kind,
    ensures
        types.place(ct, i) == types.place(probe(base, sub), i),
    decreases types.tree@.len() - i,
{
    if i < types.tree@.len() {
        place_of_probe(types, ct, base, sub, i + 1);
    }
}

/// The fine class that a pointer to a data-type gets.
pub open spec fn proper_submeta(types: TypeFactory, base: TypeId) -> SubMetatype {
    crate::types::create::pointer_submeta(types.dt(base), SubMetatype::Ptr)
}

/// Whether the pointers to a data-type end at a place in the tree.
pub open spec fn run_over(types: TypeFactory, p: int, base: TypeId) -> bool {
    p >= types.tree@.len() || !(types.dt(types.tree@[p]).is_pointer() && types.dt(types.tree@[p]).pointer().ptrto == Some(
        base,
    ))
}

/// One step along the pointers to a data-type: a pointer with the wrong fine
/// class gets the right one and moves to its new place.
pub open spec fn run_step(
    a: TypeFactory,
    p: int,
    b: TypeFactory,
    q: int,
    base: TypeId,
    sub: SubMetatype,
    right: SubMetatype,
) -> bool {
    let id = a.tree@[p];
    let d = a.dt(id);
    &&& 0 <= p
    &&& a.has(id)
    &&& !run_over(a, p, base)
    &&& if d.submeta == sub {
        &&& b.reworked(a, id, Datatype { submeta: right, ..d })
        &&& q == if p + 1 < a.tree@.len() && b.holds(b.dt(a.tree@[p + 1])) {
            b.place(b.dt(a.tree@[p + 1]), 0) as int
        } else {
            b.tree@.len() as int
        }
    } else {
        b == a && q == p + 1
    }
}

/// Steps along the pointers to a data-type.
pub open spec fn run_steps(
    steps: Seq<(TypeFactory, int)>,
    base: TypeId,
    sub: SubMetatype,
    right: SubMetatype,
) -> bool {
    &&& steps.len() > 0
    &&& forall|i: int| #![trigger steps[i]]
        0 <= i < steps.len() - 1 ==> run_step(
            steps[i].0,
            steps[i].1,
            steps[i + 1].0,
            steps[i + 1].1,
            base,
            sub,
            right,
        )
}

impl TypeFactory {
    /// What correcting the fine class of the pointers to a data-type does.
    pub open spec fn recalculated(self, before: TypeFactory, base: TypeId, sub: SubMetatype) -> bool {
        let right = proper_submeta(before, base);
        if right == sub {
            self == before
        } else {
            exists|steps: Seq<(TypeFactory, int)>| #[trigger]
                run_steps(steps, base, sub, right) && steps[0] == (before, before.place(probe(base, sub), 0) as int)
                    && steps.last().0 == self && run_over(self, steps.last().1, base)
        }
    }
}

/// The number of data-types with a fine class.
spec fn with_submeta(arena: Seq<Option<Datatype>>, sub: SubMetatype, n: nat) -> nat
    decreases n,
{
    if n == 0 {
        0
    } else {
        with_submeta(arena, sub, (n - 1) as nat) + if arena[n - 1] is Some && arena[n - 1]->0.submeta == sub {
            1nat
        } else {
            0nat
        }
    }
}

proof fn one_less(a: Seq<Option<Datatype>>, b: Seq<Option<Datatype>>, k: int, sub: SubMetatype, n: nat)
    requires
        0 <= k < a.len(),
        n <= a.len(),
        a[k] is Some,
        a[k]->0.submeta == sub,
        b.len() == a.len(),
        b[k] is Some,
        b[k]->0.submeta != sub,
        forall|i: int| 0 <= i < a.len() && i != k ==> #[trigger] b[i] == a[i],
    ensures
        with_submeta(b, sub, n) == with_submeta(a, sub, n) - if k < n {
            1int
        } else {
            0int
        },
    decreases n,
{
    if n > 0 {
        one_less(a, b, k, sub, (n - 1) as nat);
    }
}

impl TypeFactory {
    /// Corrects the fine class of the pointers to a data-type.
    pub fn recalc_pointer_submeta(&mut self, base: TypeId, sub: SubMetatype) -> (res: Result<()>)
        requires
            old(self).ready(),
            old(self).has(base),
            sub is Ptr || sub is PtrStruct,
        ensures
            final(self).ready(),
            final(self).recalculated(*old(self), base, sub),
            res is Ok,
    {
        let mut top = Datatype::new_pointer(1, base, 0, self)?;
        let cur_sub = top.submeta;
        if cur_sub == sub {
            return Ok(());
        }
        let ghost before = *self;
        top.submeta = sub;
        let mut pos: usize = match self.tree_find(&top) {
            Ok(found) => found,
            Err(found) => found,
        };
        proof {
            place_of_probe(before, top, base, sub, 0);
        }
        let ghost mut steps: Seq<(TypeFactory, int)> = seq![(before, pos as int)];
        while pos < self.tree.len()
            invariant
                self.ready(),
                self.arena@.len() == before.arena@.len(),
                before == *old(self),
                cur_sub == proper_submeta(before, base),
                cur_sub != sub,
                sub is Ptr || sub is PtrStruct,
                cur_sub is Ptr || cur_sub is PtrStruct,
                run_steps(steps, base, sub, cur_sub),
                steps[0] == (before, before.place(probe(base, sub), 0) as int),
                steps.last() == (*self, pos as int),
            ensures
                self.ready(),
                run_steps(steps, base, sub, cur_sub),
                steps[0] == (before, before.place(probe(base, sub), 0) as int),
                steps.last().0 == *self,
                run_over(*self, steps.last().1, base),
            decreases with_submeta(self.arena@, sub, self.arena@.len()), self.tree@.len() - pos,
        {
            let ghost here = *self;
            let ghost p = pos as int;
            let dt_id = self.tree[pos];
            proof {
                self.tree_names_members(pos as int);
                self.parts(self.dt(dt_id));
            }
            let dt = self.get(dt_id);
            if dt.get_metatype() != TypeMetatype::Ptr {
                break;
            }
            if dt.get_ptr_to() != base {
                break;
            }
            pos = pos + 1;
            if dt.submeta == sub {
                let ghost d = *dt;
                let next: Option<TypeId> = if pos < self.tree.len() {
                    Some(self.tree[pos])
                } else {
                    None
                };
                proof {
                    if next is Some {
                        self.tree_names_members(pos as int);
                    }
                }
                self.tree_erase(dt_id);
                let ghost lean = *self;
                self.get_mut(dt_id).submeta = cur_sub;
                let ghost changed = *self;
                let ghost now = Datatype { submeta: cur_sub, ..d };
                proof {
                    assert(changed.retouched(lean, dt_id, now));
                    resorted_is_sound(lean, changed, dt_id, cur_sub);
                }
                self.tree_insert(dt_id);
                proof {
                    assert(lean.tree_without(here, dt_id) && changed.retouched(lean, dt_id, now) && self.tree_having(
                        changed,
                        dt_id,
                    ));
                    assert(self.reworked(here, dt_id, now));
                    one_less(here.arena@, self.arena@, dt_id.0 as int, sub, here.arena@.len());
                }
                pos = match next {
                    Some(next_id) => {
                        proof {
                            if next_id.0 != dt_id.0 {
                                assert(self.arena@[next_id.0 as int] == here.arena@[next_id.0 as int]);
                            }
                        }
                        match self.tree_find(self.get(next_id)) {
                            Ok(found) => found,
                            Err(_) => self.tree.len(),
                        }
                    },
                    None => self.tree.len(),
                };
            }
            proof {
                let longer = steps.push((*self, pos as int));
                assert(run_step(here, p, *self, pos as int, base, sub, cur_sub));
                assert forall|i: int| #![trigger longer[i]] 0 <= i < longer.len() - 1 implies run_step(
                    longer[i].0,
                    longer[i].1,
                    longer[i + 1].0,
                    longer[i + 1].1,
                    base,
                    sub,
                    cur_sub,
                ) by {
                    if i < steps.len() - 1 {
                        assert(longer[i] == steps[i]);
                        assert(longer[i + 1] == steps[i + 1]);
                    } else {
                        assert(longer[i] == steps.last());
                    }
                }
                steps = longer;
            }
        }
        Ok(())
    }
}

/// Another fine class for a pointer leaves the factory sound.
proof fn resorted_is_sound(before: TypeFactory, after: TypeFactory, id: TypeId, sub: SubMetatype)
    requires
        before.ready(),
        before.has(id),
        before.dt(id).submeta is Ptr || before.dt(id).submeta is PtrStruct,
        sub is Ptr || sub is PtrStruct,
        after.retouched(before, id, (Datatype { submeta: sub, ..before.dt(id) })),
    ensures
        after.ready(),
{
    let d = Datatype { submeta: sub, ..before.dt(id) };
    before.look(id);
    before.neat(id);
    before.parts(before.dt(id));
    reveal(TypeFactory::kind_valid);
    reveal(TypeFactory::firm_kind);
    assert(before.valid(d));
    crate::types::change::unchanged_kind(before, id, d);
    crate::types::grow::retouch_is_sound(before, after, id, d);
}

/// The properties of a structure once its fields are set.
pub open spec fn struct_flags(before: u32, single_fill: bool, flags: u32) -> u32 {
    let filled = if single_fill {
        before | Datatype::NEEDS_RESOLUTION
    } else {
        before
    };
    (filled & !Datatype::TYPE_INCOMPLETE) | (flags & (Datatype::OPAQUE_STRING | Datatype::VARIABLE_LENGTH
        | Datatype::TYPE_INCOMPLETE | Datatype::HAS_BITFIELDS))
}

/// The properties of a union or of code once its contents are set.
pub open spec fn other_flags(before: u32, flags: u32) -> u32 {
    (before & !Datatype::TYPE_INCOMPLETE) | (flags & (Datatype::VARIABLE_LENGTH | Datatype::TYPE_INCOMPLETE))
}

pub proof fn completed_flags(before: u32, flags: u32, single_fill: bool)
    ensures
        struct_flags(before, single_fill, flags) & Datatype::HAS_STRIPPED == before & Datatype::HAS_STRIPPED,
        struct_flags(before, single_fill, flags) & Datatype::ENUMTYPE == before & Datatype::ENUMTYPE,
        other_flags(before, flags) & crate::types::grow::kind_bits() == before & crate::types::grow::kind_bits(),
{
    assert((((before | 0x800u32) & !0x400u32) | (flags & (64u32 | 128u32 | 0x400u32 | 0x40000u32))) & 0x100u32
        == before & 0x100u32 && (((before | 0x800u32) & !0x400u32) | (flags & (64u32 | 128u32 | 0x400u32
        | 0x40000u32))) & 4u32 == before & 4u32 && ((before & !0x400u32) | (flags & (64u32 | 128u32 | 0x400u32
        | 0x40000u32))) & 0x100u32 == before & 0x100u32 && ((before & !0x400u32) | (flags & (64u32 | 128u32 | 0x400u32
        | 0x40000u32))) & 4u32 == before & 4u32 && ((before & !0x400u32) | (flags & (128u32 | 0x400u32)))
        & 0x40104u32 == before & 0x40104u32) by (bit_vector);
}

/// A structure that has got its fields.
pub open spec fn is_completed_struct(
    d: Datatype,
    old_d: Datatype,
    fd: Seq<TypeField>,
    bit: Seq<TypeBitField>,
    size: i32,
    align: i32,
    flags: u32,
    types: TypeFactory,
) -> bool {
    &&& d.kind is Struct
    &&& d.fields() == fd
    &&& d.bitfields() == bit
    &&& d == (Datatype {
        kind: d.kind,
        size,
        alignment: align,
        align_size: crate::types::read::aligned(size as int, align as int) as i32,
        flags: struct_flags(old_d.flags, TypeFactory::fills(fd, size, types), flags),
        ..old_d
    })
}

/// A union that has got its fields.
pub open spec fn is_completed_union(
    d: Datatype,
    old_d: Datatype,
    fd: Seq<TypeField>,
    size: i32,
    align: i32,
    flags: u32,
) -> bool {
    &&& d.kind is Union
    &&& d.fields() == fd
    &&& d == (Datatype {
        kind: d.kind,
        size,
        alignment: align,
        align_size: crate::types::read::aligned(size as int, align as int) as i32,
        flags: other_flags(old_d.flags, flags),
        ..old_d
    })
}

impl TypeFactory {
    /// The factory after a composite has got its fields and its new place in the tree.
    pub open spec fn completed(self, before: TypeFactory, ot: TypeId, d: Datatype) -> bool {
        exists|out: TypeFactory, mid: TypeFactory|
            #![trigger out.tree_without(before, ot), mid.refitted(out, ot, d)]
            out.tree_without(before, ot) && mid.refitted(out, ot, d) && self.tree_having(mid, ot)
    }

    /// What setting the fields of a structure does.
    pub open spec fn completes_struct(
        self,
        before: TypeFactory,
        fd: Seq<TypeField>,
        bit: Seq<TypeBitField>,
        ot: TypeId,
        size: i32,
        align: i32,
        flags: u32,
        res: Result<()>,
    ) -> bool {
        if !before.dt(ot).flag(Datatype::TYPE_INCOMPLETE) {
            self == before && (res matches Err(e) && e.is_lowlevel("Can only set fields on an incomplete structure"@))
        } else {
            res is Ok && exists|d: Datatype, done: TypeFactory, first: TypeFactory|
                #![trigger done.completed(before, ot, d), first.recalculated(done, ot, SubMetatype::Ptr)]
                is_completed_struct(d, before.dt(ot), fd, bit, size, align, flags, before) && done.completed(
                    before,
                    ot,
                    d,
                ) && first.recalculated(done, ot, SubMetatype::Ptr) && self.recalculated(
                    first,
                    ot,
                    SubMetatype::PtrStruct,
                )
        }
    }

    /// What setting the fields of a union does.
    pub open spec fn completes_union(
        self,
        before: TypeFactory,
        fd: Seq<TypeField>,
        ot: TypeId,
        size: i32,
        align: i32,
        flags: u32,
        res: Result<()>,
    ) -> bool {
        if !before.dt(ot).flag(Datatype::TYPE_INCOMPLETE) {
            self == before && (res matches Err(e) && e.is_lowlevel("Can only set fields on an incomplete union"@))
        } else {
            res is Ok && exists|d: Datatype| #[trigger]
                is_completed_union(d, before.dt(ot), fd, size, align, flags) && self.completed(before, ot, d)
        }
    }

    /// The fields can be those of a composite that was announced before.
    pub open spec fn fields_suit(self, fd: Seq<TypeField>, size: i32, align: i32) -> bool {
        &&& self.fields_known(fd)
        &&& fd.len() <= i32::MAX
        &&& size >= 0
        &&& align >= 1
        &&& crate::types::read::aligned(size as int, align as int) <= i32::MAX
    }

    /// The fields can be those of a structure that was announced before.
    pub open spec fn struct_suits(
        self,
        fd: Seq<TypeField>,
        bit: Seq<TypeBitField>,
        size: i32,
        align: i32,
    ) -> bool {
        &&& self.fields_suit(fd, size, align)
        &&& self.bitfields_valid(bit)
        &&& bit.len() <= i32::MAX
    }

    /// Sets the fields of a structure that was announced before.
    pub fn set_fields_struct(
        &mut self,
        fd: &[TypeField],
        bit: &[TypeBitField],
        ot: TypeId,
        new_size: i32,
        new_align: i32,
        flags: u32,
    ) -> (res: Result<()>)
        requires
            old(self).ready(),
            old(self).has(ot),
            old(self).dt(ot).kind is Struct,
            old(self).dt(ot).flag(Datatype::TYPE_INCOMPLETE) ==> old(self).struct_suits(fd@, bit@, new_size, new_align),
        ensures
            final(self).ready(),
            final(self).completes_struct(*old(self), fd@, bit@, ot, new_size, new_align, flags, res),
    {
        if !self.get(ot).is_incomplete() {
            return Err(Error::lowlevel("Can only set fields on an incomplete structure"));
        }
        let ghost before = *self;
        proof {
            before.look(ot);
            if fd@.len() == 1 {
                assert(before.has(fd@[0].tp));
            }
        }
        let single_fill = TypeFactory::single_field_fills(fd, new_size, self);
        self.tree_erase(ot);
        let ghost lean = *self;
        let dt = self.get_mut(ot);
        dt.set_fields_struct(fd, bit, new_size, new_align, single_fill);
        dt.flags = dt.flags & !Datatype::TYPE_INCOMPLETE;
        dt.flags = dt.flags | (flags & (Datatype::OPAQUE_STRING | Datatype::VARIABLE_LENGTH
            | Datatype::TYPE_INCOMPLETE | Datatype::HAS_BITFIELDS));
        let ghost d = self.dt(ot);
        let ghost whole = lean.firm() && lean.stays_firm(ot, d);
        let ghost depths = if whole {
            lean.deepened(ot, lean.depth_of(d))
        } else {
            lean.depth@
        };
        self.depth = Ghost(depths);
        self.firmness = Ghost(whole);
        let ghost changed = *self;
        proof {
            assert(is_completed_struct(d, before.dt(ot), fd@, bit@, new_size, new_align, flags, before));
            completed_flags(before.dt(ot).flags, flags, single_fill);
            crate::types::read::aligned_is_multiple(new_size as int, new_align as int);
            assert(lean.arena == before.arena);
            reveal(TypeFactory::kind_valid);
            reveal(TypeFactory::firm_kind);
            assert(changed.refitted(lean, ot, d));
            refit_is_sound(lean, changed, ot, d);
        }
        self.tree_insert(ot);
        let ghost done = *self;
        proof {
            assert(lean.tree_without(before, ot) && changed.refitted(lean, ot, d) && done.tree_having(changed, ot));
            assert(done.completed(before, ot, d));
        }
        self.recalc_pointer_submeta(ot, SubMetatype::Ptr)?;
        let ghost first = *self;
        proof {
            recalculating_keeps(done, first, ot, SubMetatype::Ptr);
        }
        self.recalc_pointer_submeta(ot, SubMetatype::PtrStruct)?;
        Ok(())
    }

    /// Sets the fields of a union that was announced before.
    pub fn set_fields_union(&mut self, fd: &[TypeField], ot: TypeId, new_size: i32, new_align: i32, flags: u32) -> (res:
        Result<()>)
        requires
            old(self).ready(),
            old(self).has(ot),
            old(self).dt(ot).kind is Union,
            old(self).dt(ot).flag(Datatype::TYPE_INCOMPLETE) ==> old(self).fields_suit(fd@, new_size, new_align),
        ensures
            final(self).ready(),
            final(self).completes_union(*old(self), fd@, ot, new_size, new_align, flags, res),
    {
        if !self.get(ot).is_incomplete() {
            return Err(Error::lowlevel("Can only set fields on an incomplete union"));
        }
        let ghost before = *self;
        proof {
            before.look(ot);
        }
        self.tree_erase(ot);
        let ghost lean = *self;
        let dt = self.get_mut(ot);
        dt.set_fields_union(fd, new_size, new_align);
        dt.flags = dt.flags & !Datatype::TYPE_INCOMPLETE;
        dt.flags = dt.flags | (flags & (Datatype::VARIABLE_LENGTH | Datatype::TYPE_INCOMPLETE));
        let ghost d = self.dt(ot);
        let ghost whole = lean.firm() && lean.stays_firm(ot, d);
        let ghost depths = if whole {
            lean.deepened(ot, lean.depth_of(d))
        } else {
            lean.depth@
        };
        self.depth = Ghost(depths);
        self.firmness = Ghost(whole);
        let ghost changed = *self;
        proof {
            assert(is_completed_union(d, before.dt(ot), fd@, new_size, new_align, flags));
            completed_flags(before.dt(ot).flags, flags, false);
            crate::types::grow::same_kind_bits(d.flags, before.dt(ot).flags);
            crate::types::read::aligned_is_multiple(new_size as int, new_align as int);
            reveal(TypeFactory::kind_valid);
            reveal(TypeFactory::firm_kind);
            assert(changed.refitted(lean, ot, d));
            refit_is_sound(lean, changed, ot, d);
        }
        self.tree_insert(ot);
        proof {
            assert(lean.tree_without(before, ot) && changed.refitted(lean, ot, d) && self.tree_having(changed, ot));
            assert(self.completed(before, ot, d));
        }
        Ok(())
    }
}

/// Two factories whose data-types differ at most in their fine class.
pub open spec fn resorted(a: TypeFactory, b: TypeFactory) -> bool {
    &&& b == (TypeFactory { arena: b.arena, tree: b.tree, ..a })
    &&& b.arena@.len() == a.arena@.len()
    &&& forall|i: int| #![trigger b.arena@[i]]
        0 <= i < a.arena@.len() ==> match (a.arena@[i], b.arena@[i]) {
            (Some(x), Some(y)) => y == (Datatype { submeta: y.submeta, ..x }),
            (None, None) => true,
            _ => false,
        }
}

/// Correcting fine classes keeps the data-types.
pub proof fn recalculating_keeps(before: TypeFactory, after: TypeFactory, base: TypeId, sub: SubMetatype)
    requires
        after.recalculated(before, base, sub),
    ensures
        resorted(before, after),
        before.has(base) ==> after.has(base),
{
    let right = proper_submeta(before, base);
    if right != sub {
        let steps = choose|steps: Seq<(TypeFactory, int)>| #[trigger]
            run_steps(steps, base, sub, right) && steps[0] == (before, before.place(probe(base, sub), 0) as int)
                && steps.last().0 == after && run_over(after, steps.last().1, base);
        steps_keep(steps, base, sub, right, (steps.len() - 1) as nat);
    }
    if before.has(base) {
        assert(after.arena@[base.0 as int] is Some);
    }
}

proof fn step_keeps(
    a: TypeFactory,
    p: int,
    b: TypeFactory,
    q: int,
    base: TypeId,
    sub: SubMetatype,
    right: SubMetatype,
)
    requires
        run_step(a, p, b, q, base, sub, right),
    ensures
        resorted(a, b),
{
    let id = a.tree@[p];
    let d = a.dt(id);
    if d.submeta == sub {
        let now = Datatype { submeta: right, ..d };
        let (out, mid) = choose|out: TypeFactory, mid: TypeFactory|
            #![trigger out.tree_without(a, id), mid.retouched(out, id, now)]
            out.tree_without(a, id) && mid.retouched(out, id, now) && b.tree_having(mid, id);
        assert(b.arena@ == a.arena@.update(id.0 as int, Some(now)));
    }
}

proof fn steps_keep(steps: Seq<(TypeFactory, int)>, base: TypeId, sub: SubMetatype, right: SubMetatype, n: nat)
    requires
        run_steps(steps, base, sub, right),
        n < steps.len(),
    ensures
        resorted(steps[0].0, steps[n as int].0),
    decreases n,
{
    if n > 0 {
        steps_keep(steps, base, sub, right, (n - 1) as nat);
        let first = steps[0].0;
        let a = steps[n - 1].0;
        let b = steps[n as int].0;
        step_keeps(a, steps[n - 1].1, b, steps[n as int].1, base, sub, right);
        assert forall|i: int| #![trigger b.arena@[i]] 0 <= i < first.arena@.len() implies match (
            first.arena@[i],
            b.arena@[i],
        ) {
            (Some(x), Some(y)) => y == (Datatype { submeta: y.submeta, ..x }),
            (None, None) => true,
            _ => false,
        } by {
            let m = a.arena@[i];
            let l = b.arena@[i];
        }
    }
}

} // verus!

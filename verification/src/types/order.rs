//! The order in which data-types depend on one another.
use vstd::prelude::*;
use crate::ids::TypeId;
use crate::types::{Datatype, TypeFactory};

verus! {

/// The data-types that have been visited, and the order in which they are listed.
pub ghost struct Visit {
    pub seen: Set<TypeId>,
    pub order: Seq<TypeId>,
}

/// Visiting a data-type lists what it is a typedef of and what it is made of,
/// unless that has been visited, and then the data-type. At most `n` data-types
/// below one another are visited.
pub open spec fn visited(types: TypeFactory, ct: TypeId, v: Visit, n: nat) -> Visit
    decreases n, 2nat, 0nat,
{
    if n == 0 || v.seen.contains(ct) {
        v
    } else {
        let d = types.dt(ct);
        let marked = Visit { seen: v.seen.insert(ct), ..v };
        let meant = match d.typedef_imm {
            Some(tp) => visited(types, tp, marked, (n - 1) as nat),
            None => marked,
        };
        let parts = visited_parts(
            types,
            ct,
            meant,
            (n - 1) as nat,
            crate::types::walk::component_count(d, types) as nat,
        );
        Visit { order: parts.order.push(ct), ..parts }
    }
}

/// Visiting the first `k` data-types that a data-type is made of.
pub open spec fn visited_parts(types: TypeFactory, ct: TypeId, v: Visit, n: nat, k: nat) -> Visit
    decreases n, 3nat, k,
{
    if k == 0 {
        v
    } else {
        let before = visited_parts(types, ct, v, n, (k - 1) as nat);
        match crate::types::walk::component(types.dt(ct), k - 1, types) {
            Some(tp) => visited(types, tp, before, n),
            None => before,
        }
    }
}

/// The visits from the first `k` data-types of the tree.
pub open spec fn visited_tree(types: TypeFactory, v: Visit, k: nat) -> Visit
    decreases k,
{
    if k == 0 {
        v
    } else {
        let before = visited_tree(types, v, (k - 1) as nat);
        visited(types, types.tree@[k - 1], before, types.arena@.len() + 1)
    }
}

/// The handles that have not been visited.
spec fn unseen(types: TypeFactory, seen: Set<TypeId>, k: nat) -> nat
    decreases k,
{
    if k == 0 {
        0
    } else {
        unseen(types, seen, (k - 1) as nat) + if seen.contains(TypeId((k - 1) as u32)) {
            0nat
        } else {
            1nat
        }
    }
}

proof fn fewer_unseen(types: TypeFactory, a: Set<TypeId>, b: Set<TypeId>, k: nat)
    requires
        a.subset_of(b),
        k <= u32::MAX,
    ensures
        unseen(types, b, k) <= unseen(types, a, k),
        forall|id: TypeId| id.0 < k && b.contains(id) && !a.contains(id) ==> unseen(types, b, k) < unseen(types, a, k),
    decreases k,
{
    if k > 0 {
        fewer_unseen(types, a, b, (k - 1) as nat);
        let last = TypeId((k - 1) as u32);
        assert forall|id: TypeId| id.0 < k && b.contains(id) && !a.contains(id) implies unseen(types, b, k) < unseen(
            types,
            a,
            k,
        ) by {
            if id.0 == k - 1 {
                assert(id == last);
            }
        }
    }
}

/// Visiting only adds to what has been visited.
proof fn visiting_adds(types: TypeFactory, ct: TypeId, v: Visit, n: nat)
    ensures
        v.seen.subset_of(visited(types, ct, v, n).seen),
        n > 0 ==> visited(types, ct, v, n).seen.contains(ct),
    decreases n, 2nat, 0nat,
{
    if n > 0 && !v.seen.contains(ct) {
        let d = types.dt(ct);
        let marked = Visit { seen: v.seen.insert(ct), ..v };
        let meant = match d.typedef_imm {
            Some(tp) => visited(types, tp, marked, (n - 1) as nat),
            None => marked,
        };
        if d.typedef_imm is Some {
            visiting_adds(types, d.typedef_imm->0, marked, (n - 1) as nat);
        }
        visiting_parts_adds(
            types,
            ct,
            meant,
            (n - 1) as nat,
            crate::types::walk::component_count(d, types) as nat,
        );
    }
}

proof fn visiting_parts_adds(types: TypeFactory, ct: TypeId, v: Visit, n: nat, k: nat)
    ensures
        v.seen.subset_of(visited_parts(types, ct, v, n, k).seen),
    decreases n, 3nat, k,
{
    if k > 0 {
        visiting_parts_adds(types, ct, v, n, (k - 1) as nat);
        let before = visited_parts(types, ct, v, n, (k - 1) as nat);
        let tp = crate::types::walk::component(types.dt(ct), k - 1, types);
        if tp is Some {
            visiting_adds(types, tp->0, before, n);
        }
    }
}

/// Room for more visits than there are data-types changes nothing.
proof fn room_is_enough(types: TypeFactory, ct: TypeId, v: Visit, n: nat, m: nat)
    requires
        types.sound(),
        types.has(ct),
        n > unseen(types, v.seen, types.arena@.len()),
        m > unseen(types, v.seen, types.arena@.len()),
    ensures
        visited(types, ct, v, n) == visited(types, ct, v, m),
    decreases n, 2nat, 0nat,
{
    types.look(ct);
    types.cache_sizes();
    if !v.seen.contains(ct) {
        let d = types.dt(ct);
        let marked = Visit { seen: v.seen.insert(ct), ..v };
        fewer_unseen(types, v.seen, marked.seen, types.arena@.len());
        assert(unseen(types, marked.seen, types.arena@.len()) < unseen(types, v.seen, types.arena@.len()));
        let meant = match d.typedef_imm {
            Some(tp) => visited(types, tp, marked, (n - 1) as nat),
            None => marked,
        };
        if d.typedef_imm is Some {
            room_is_enough(types, d.typedef_imm->0, marked, (n - 1) as nat, (m - 1) as nat);
            visiting_adds(types, d.typedef_imm->0, marked, (n - 1) as nat);
        }
        fewer_unseen(types, marked.seen, meant.seen, types.arena@.len());
        room_is_enough_for_parts(
            types,
            ct,
            meant,
            (n - 1) as nat,
            (m - 1) as nat,
            crate::types::walk::component_count(d, types) as nat,
        );
    }
}

proof fn room_is_enough_for_parts(types: TypeFactory, ct: TypeId, v: Visit, n: nat, m: nat, k: nat)
    requires
        types.sound(),
        types.has(ct),
        k <= crate::types::walk::component_count(types.dt(ct), types),
        n > unseen(types, v.seen, types.arena@.len()),
        m > unseen(types, v.seen, types.arena@.len()),
    ensures
        visited_parts(types, ct, v, n, k) == visited_parts(types, ct, v, m, k),
    decreases n, 3nat, k,
{
    if k > 0 {
        types.look(ct);
        types.parts(types.dt(ct));
        types.cache_sizes();
        room_is_enough_for_parts(types, ct, v, n, m, (k - 1) as nat);
        let before = visited_parts(types, ct, v, n, (k - 1) as nat);
        visiting_parts_adds(types, ct, v, n, (k - 1) as nat);
        fewer_unseen(types, v.seen, before.seen, types.arena@.len());
        let tp = crate::types::walk::component(types.dt(ct), k - 1, types);
        if tp is Some {
            component_is_member(types, types.dt(ct), k - 1);
            room_is_enough(types, tp->0, before, n, m);
        }
    }
}

proof fn component_is_member(types: TypeFactory, d: Datatype, i: int)
    requires
        types.sound(),
        types.valid(d),
        0 <= i < crate::types::walk::component_count(d, types),
        crate::types::walk::component(d, i, types) is Some,
    ensures
        types.member(crate::types::walk::component(d, i, types)->0),
{
    types.parts(d);
    if d.kind is PartialUnion {
        types.parts(types.dt(d.part_of()));
    }
}

/// A data-type that another one is a typedef of or is made of.
pub open spec fn is_part(types: TypeFactory, ct: TypeId, part: TypeId) -> bool {
    ||| types.dt(ct).typedef_imm == Some(part)
    ||| exists|i: int|
        0 <= i < crate::types::walk::component_count(types.dt(ct), types) && #[trigger] crate::types::walk::component(
            types.dt(ct),
            i,
            types,
        ) == Some(part)
}

/// Every data-type of a list comes after all that it is made of.
pub open spec fn in_order(types: TypeFactory, list: Seq<TypeId>) -> bool {
    forall|k: int, part: TypeId| #![trigger list[k], is_part(types, list[k], part)]
        0 <= k < list.len() && is_part(types, list[k], part) ==> list.take(k).contains(part)
}

/// No data-type leads back to itself by way of what it is made of: each has a rank above
/// those of its parts.
pub open spec fn ranked(types: TypeFactory, rank: Map<TypeId, nat>) -> bool {
    forall|ct: TypeId, part: TypeId| #![trigger is_part(types, ct, part)]
        types.has(ct) && is_part(types, ct, part) ==> rank[part] < rank[ct]
}

/// A data-type that has been reached but not listed has a rank above the given one.
spec fn pending_above(v: Visit, rank: Map<TypeId, nat>, limit: nat) -> bool {
    forall|id: TypeId| #![trigger v.seen.contains(id)]
        v.seen.contains(id) && !v.order.contains(id) ==> rank[id] > limit
}

/// What has been reached and listed since.
spec fn follows(types: TypeFactory, w: Visit, v: Visit) -> bool {
    &&& v.order.len() <= w.order.len()
    &&& w.order.take(v.order.len() as int) == v.order
    &&& forall|id: TypeId| #![trigger w.seen.contains(id)]
        w.seen.contains(id) && !w.order.contains(id) ==> v.seen.contains(id) && !v.order.contains(id)
    &&& in_order(types, w.order)
}

proof fn still_listed(w: Seq<TypeId>, v: Seq<TypeId>, id: TypeId)
    requires
        v.len() <= w.len(),
        w.take(v.len() as int) == v,
        v.contains(id),
    ensures
        w.contains(id),
{
    let k = choose|k: int| 0 <= k < v.len() && v[k] == id;
    assert(w[k] == w.take(v.len() as int)[k]);
}

proof fn follows_twice(types: TypeFactory, w: Visit, u: Visit, v: Visit)
    requires
        follows(types, w, u),
        follows(types, u, v),
    ensures
        follows(types, w, v),
{
    assert(w.order.take(v.order.len() as int) =~= u.order.take(v.order.len() as int)) by {
        assert forall|k: int| 0 <= k < v.order.len() implies w.order[k] == u.order[k] by {
            assert(w.order.take(u.order.len() as int)[k] == w.order[k]);
        }
    }
    assert forall|id: TypeId| #![trigger w.seen.contains(id)]
        w.seen.contains(id) && !w.order.contains(id) implies v.seen.contains(id) && !v.order.contains(id) by {
        assert(u.seen.contains(id));
    }
}

proof fn visit_in_order(types: TypeFactory, ct: TypeId, v: Visit, n: nat, rank: Map<TypeId, nat>)
    requires
        types.sound(),
        types.has(ct),
        ranked(types, rank),
        rank[ct] < n,
        in_order(types, v.order),
        pending_above(v, rank, rank[ct]),
    ensures
        follows(types, visited(types, ct, v, n), v),
        visited(types, ct, v, n).order.contains(ct),
    decreases n, 2nat, 0nat,
{
    assert(v.order.take(v.order.len() as int) =~= v.order);
    if !v.seen.contains(ct) {
        types.look(ct);
        let d = types.dt(ct);
        let marked = Visit { seen: v.seen.insert(ct), ..v };
        let meant = match d.typedef_imm {
            Some(tp) => visited(types, tp, marked, (n - 1) as nat),
            None => marked,
        };
        assert(follows(types, marked, marked));
        if d.typedef_imm is Some {
            let tp = d.typedef_imm->0;
            assert(is_part(types, ct, tp));
            visit_in_order(types, tp, marked, (n - 1) as nat, rank);
        }
        let count = crate::types::walk::component_count(d, types) as nat;
        assert(pending_above(meant, rank, (rank[ct] - 1) as nat) || rank[ct] == 0) by {
            assert forall|id: TypeId| #![trigger meant.seen.contains(id)]
                meant.seen.contains(id) && !meant.order.contains(id) && rank[ct] > 0 implies rank[id] > rank[ct] - 1 by {
                assert(marked.seen.contains(id));
            }
        }
        visit_parts_in_order(types, ct, meant, (n - 1) as nat, count, rank);
        let parts = visited_parts(types, ct, meant, (n - 1) as nat, count);
        follows_twice(types, parts, meant, marked);
        let w = visited(types, ct, v, n);
        assert(w.order == parts.order.push(ct));
        assert(w.order.take(v.order.len() as int) =~= parts.order.take(v.order.len() as int));
        assert(w.order[parts.order.len() as int] == ct);
        assert forall|k: int, part: TypeId| #![trigger w.order[k], is_part(types, w.order[k], part)]
            0 <= k < w.order.len() && is_part(types, w.order[k], part) implies w.order.take(k).contains(part) by {
            if k < parts.order.len() {
                assert(w.order[k] == parts.order[k]);
                assert(w.order.take(k) =~= parts.order.take(k));
            } else {
                assert(w.order.take(k) =~= parts.order);
                if d.typedef_imm == Some(part) {
                    still_listed(parts.order, meant.order, part);
                } else {
                    let i = choose|i: int|
                        0 <= i < count && #[trigger] crate::types::walk::component(d, i, types) == Some(part);
                    assert(crate::types::walk::component(d, i, types) == Some(part));
                }
            }
        }
        assert forall|id: TypeId| #![trigger w.seen.contains(id)]
            w.seen.contains(id) && !w.order.contains(id) implies v.seen.contains(id) && !v.order.contains(id) by {
            if parts.order.contains(id) {
                assert(w.order.take(parts.order.len() as int) =~= parts.order);
                still_listed(w.order, parts.order, id);
            }
            assert(parts.seen.contains(id));
            assert(marked.seen.contains(id));
        }
    }
}

proof fn visit_parts_in_order(types: TypeFactory, ct: TypeId, v: Visit, n: nat, k: nat, rank: Map<TypeId, nat>)
    requires
        types.sound(),
        types.has(ct),
        ranked(types, rank),
        rank[ct] <= n,
        k <= crate::types::walk::component_count(types.dt(ct), types),
        in_order(types, v.order),
        rank[ct] > 0 ==> pending_above(v, rank, (rank[ct] - 1) as nat),
    ensures
        follows(types, visited_parts(types, ct, v, n, k), v),
        forall|i: int, part: TypeId|
            0 <= i < k && #[trigger] crate::types::walk::component(types.dt(ct), i, types) == Some(part)
                ==> #[trigger] visited_parts(types, ct, v, n, k).order.contains(part),
    decreases n, 3nat, k,
{
    assert(v.order.take(v.order.len() as int) =~= v.order);
    if k > 0 {
        types.look(ct);
        visit_parts_in_order(types, ct, v, n, (k - 1) as nat, rank);
        let before = visited_parts(types, ct, v, n, (k - 1) as nat);
        let after = visited_parts(types, ct, v, n, k);
        let tp = crate::types::walk::component(types.dt(ct), k - 1, types);
        if tp is Some {
            component_is_member(types, types.dt(ct), k - 1);
            assert(is_part(types, ct, tp->0));
            assert(pending_above(before, rank, rank[tp->0])) by {
                assert forall|id: TypeId| #![trigger before.seen.contains(id)]
                    before.seen.contains(id) && !before.order.contains(id) implies rank[id] > rank[tp->0] by {
                    assert(v.seen.contains(id));
                }
            }
            visit_in_order(types, tp->0, before, n, rank);
            follows_twice(types, after, before, v);
        }
        assert forall|i: int, part: TypeId|
            0 <= i < k && #[trigger] crate::types::walk::component(types.dt(ct), i, types) == Some(
                part,
            ) implies #[trigger] after.order.contains(part) by {
            if i < k - 1 {
                assert(before.order.contains(part));
                if tp is Some {
                    still_listed(after.order, before.order, part);
                }
            }
        }
    }
}

proof fn tree_in_order(types: TypeFactory, v: Visit, k: nat, rank: Map<TypeId, nat>)
    requires
        types.sound(),
        k <= types.tree@.len(),
        ranked(types, rank),
        forall|id: TypeId| #![trigger rank[id]] types.has(id) ==> rank[id] <= types.arena@.len(),
        in_order(types, v.order),
        forall|id: TypeId| #![trigger v.seen.contains(id)] v.seen.contains(id) ==> v.order.contains(id),
    ensures
        follows(types, visited_tree(types, v, k), v),
        forall|i: int| 0 <= i < k ==> visited_tree(types, v, k).order.contains(#[trigger] types.tree@[i]),
    decreases k,
{
    assert(v.order.take(v.order.len() as int) =~= v.order);
    if k > 0 {
        tree_in_order(types, v, (k - 1) as nat, rank);
        let before = visited_tree(types, v, (k - 1) as nat);
        let after = visited_tree(types, v, k);
        let ct = types.tree@[k - 1];
        types.tree_names_members(k - 1);
        assert(pending_above(before, rank, rank[ct])) by {
            assert forall|id: TypeId| #![trigger before.seen.contains(id)]
                before.seen.contains(id) && !before.order.contains(id) implies rank[id] > rank[ct] by {
                assert(v.seen.contains(id));
            }
        }
        visit_in_order(types, ct, before, types.arena@.len() + 1, rank);
        follows_twice(types, after, before, v);
        assert forall|i: int| 0 <= i < k implies after.order.contains(#[trigger] types.tree@[i]) by {
            if i < k - 1 {
                still_listed(after.order, before.order, types.tree@[i]);
            }
        }
    }
}

/// The order of dependence lists every data-type of the tree, and each after all that it is
/// made of, as long as no data-type leads back to itself.
pub proof fn parts_come_first(types: TypeFactory, rank: Map<TypeId, nat>)
    requires
        types.sound(),
        ranked(types, rank),
        forall|id: TypeId| #![trigger rank[id]] types.has(id) ==> rank[id] <= types.arena@.len(),
    ensures
        in_order(
            types,
            visited_tree(types, Visit { seen: Set::empty(), order: Seq::empty() }, types.tree@.len()).order,
        ),
        forall|i: int|
            0 <= i < types.tree@.len() ==> visited_tree(
                types,
                Visit { seen: Set::empty(), order: Seq::empty() },
                types.tree@.len(),
            ).order.contains(#[trigger] types.tree@[i]),
{
    tree_in_order(types, Visit { seen: Set::empty(), order: Seq::empty() }, types.tree@.len(), rank);
}

/// The marks agree with the set of what has been visited.
spec fn marks_agree(mark: Seq<bool>, seen: Set<TypeId>) -> bool {
    forall|id: TypeId| #![trigger seen.contains(id)] id.0 < mark.len() ==> mark[id.0 as int] == seen.contains(id)
}

/// Only data-types of the factory are listed.
pub open spec fn listed_exist(types: TypeFactory, list: Seq<TypeId>) -> bool {
    forall|k: int| 0 <= k < list.len() ==> types.has(#[trigger] list[k])
}

impl TypeFactory {
    fn order_recurse(&self, deporder: &mut Vec<TypeId>, mark: &mut Vec<bool>, ct: TypeId, seen: Ghost<Set<TypeId>>) -> (
        res: Ghost<Set<TypeId>>)
        requires
            self.sound(),
            self.has(ct),
            old(mark)@.len() == self.arena@.len(),
            marks_agree(old(mark)@, seen@),
        ensures
            final(mark)@.len() == self.arena@.len(),
            marks_agree(final(mark)@, res@),
            (Visit { seen: res@, order: final(deporder)@ }) == visited(
                *self,
                ct,
                Visit { seen: seen@, order: old(deporder)@ },
                unseen(*self, seen@, self.arena@.len()) + 1,
            ),
            seen@.subset_of(res@),
            listed_exist(*self, old(deporder)@) ==> listed_exist(*self, final(deporder)@),
        decreases unseen(*self, seen@, self.arena@.len()),
    {
        let ghost start = Visit { seen: seen@, order: deporder@ };
        let ghost room = unseen(*self, seen@, self.arena@.len());
        proof {
            self.look(ct);
            self.cache_sizes();
            visiting_adds(*self, ct, start, room + 1);
        }
        if mark[ct.0 as usize] {
            return seen;
        }
        mark.set(ct.0 as usize, true);
        let ghost marked = Visit { seen: seen@.insert(ct), order: deporder@ };
        let mut now: Ghost<Set<TypeId>> = Ghost(seen@.insert(ct));
        proof {
            fewer_unseen(*self, seen@, now@, self.arena@.len());
            assert(unseen(*self, now@, self.arena@.len()) < room);
            assert forall|id: TypeId| #![trigger now@.contains(id)] id.0 < mark@.len() implies mark@[id.0 as int]
                == now@.contains(id) by {
                if id.0 == ct.0 {
                    assert(id == ct);
                } else {
                    assert(seen@.contains(id) == now@.contains(id));
                }
            }
        }
        let dt = self.get(ct);
        if let Some(typedef_imm) = dt.typedef_imm {
            now = self.order_recurse(deporder, mark, typedef_imm, now);
            proof {
                room_is_enough(
                    *self,
                    typedef_imm,
                    marked,
                    room,
                    unseen(*self, marked.seen, self.arena@.len()) + 1,
                );
            }
        }
        let ghost meant = Visit { seen: now@, order: deporder@ };
        proof {
            fewer_unseen(*self, marked.seen, now@, self.arena@.len());
        }
        let size: i32 = dt.num_depend(self);
        let mut index: i32 = 0;
        while index < size
            invariant
                self.sound(),
                self.member(ct),
                *dt == self.dt(ct),
                0 <= index <= size,
                size == crate::types::walk::component_count(*dt, *self),
                mark@.len() == self.arena@.len(),
                marks_agree(mark@, now@),
                unseen(*self, meant.seen, self.arena@.len()) < room,
                room == unseen(*self, seen@, self.arena@.len()),
                meant.seen.subset_of(now@),
                (Visit { seen: now@, order: deporder@ }) == visited_parts(*self, ct, meant, room, index as nat),
                listed_exist(*self, old(deporder)@) ==> listed_exist(*self, deporder@),
            decreases size - index,
        {
            proof {
                self.cache_sizes();
                fewer_unseen(*self, meant.seen, now@, self.arena@.len());
            }
            if let Some(depend) = dt.get_depend(index, self) {
                let ghost before = Visit { seen: now@, order: deporder@ };
                now = self.order_recurse(deporder, mark, depend, now);
                proof {
                    room_is_enough(
                        *self,
                        depend,
                        before,
                        room,
                        unseen(*self, before.seen, self.arena@.len()) + 1,
                    );
                }
            }
            index = index + 1;
        }
        deporder.push(ct);
        now
    }

    /// Lists the data-types so that each comes after what it is made of, as far as
    /// no data-type leads back to itself.
    pub fn dependent_order(&self, deporder: &mut Vec<TypeId>)
        requires
            self.sound(),
        ensures
            final(deporder)@ == visited_tree(
                *self,
                Visit { seen: Set::empty(), order: old(deporder)@ },
                self.tree@.len(),
            ).order,
            listed_exist(*self, old(deporder)@) ==> listed_exist(*self, final(deporder)@),
    {
        let mut mark: Vec<bool> = Vec::new();
        let mut i: usize = 0;
        while i < self.arena.len()
            invariant
                i <= self.arena@.len(),
                mark@.len() == i,
                forall|k: int| 0 <= k < i ==> !(#[trigger] mark@[k]),
            decreases self.arena@.len() - i,
        {
            mark.push(false);
            i = i + 1;
        }
        let mut seen: Ghost<Set<TypeId>> = Ghost(Set::empty());
        let ghost start = Visit { seen: seen@, order: deporder@ };
        assert(marks_agree(mark@, seen@));
        let mut pos: usize = 0;
        while pos < self.tree.len()
            invariant
                self.sound(),
                start == (Visit { seen: Set::empty(), order: old(deporder)@ }),
                pos <= self.tree@.len(),
                mark@.len() == self.arena@.len(),
                marks_agree(mark@, seen@),
                (Visit { seen: seen@, order: deporder@ }) == visited_tree(*self, start, pos as nat),
                listed_exist(*self, old(deporder)@) ==> listed_exist(*self, deporder@),
            decreases self.tree@.len() - pos,
        {
            let ghost before = Visit { seen: seen@, order: deporder@ };
            proof {
                self.tree_names_members(pos as int);
                few_unseen(*self, seen@, self.arena@.len());
            }
            seen = self.order_recurse(deporder, &mut mark, self.tree[pos], seen);
            proof {
                room_is_enough(
                    *self,
                    self.tree@[pos as int],
                    before,
                    self.arena@.len() + 1,
                    unseen(*self, before.seen, self.arena@.len()) + 1,
                );
            }
            pos = pos + 1;
        }
    }
}

proof fn few_unseen(types: TypeFactory, seen: Set<TypeId>, k: nat)
    ensures
        unseen(types, seen, k) <= k,
    decreases k,
{
    if k > 0 {
        few_unseen(types, seen, (k - 1) as nat);
    }
}

/// No data-type is listed that was visited before, and none twice.
pub proof fn listed_once(types: TypeFactory, ct: TypeId, v: Visit, n: nat)
    requires
        v.order.no_duplicates(),
        forall|id: TypeId| #![trigger v.order.contains(id)] v.order.contains(id) ==> v.seen.contains(id),
    ensures
        visited(types, ct, v, n).order.no_duplicates(),
        forall|id: TypeId| #![trigger visited(types, ct, v, n).order.contains(id)]
            visited(types, ct, v, n).order.contains(id) ==> visited(types, ct, v, n).seen.contains(id),
        forall|id: TypeId| #![trigger visited(types, ct, v, n).order.contains(id)]
            v.seen.contains(id) && visited(types, ct, v, n).order.contains(id) ==> v.order.contains(id),
    decreases n, 2nat, 0nat,
{
    if n > 0 && !v.seen.contains(ct) {
        let d = types.dt(ct);
        let marked = Visit { seen: v.seen.insert(ct), ..v };
        let meant = match d.typedef_imm {
            Some(tp) => visited(types, tp, marked, (n - 1) as nat),
            None => marked,
        };
        if d.typedef_imm is Some {
            listed_once(types, d.typedef_imm->0, marked, (n - 1) as nat);
            visiting_adds(types, d.typedef_imm->0, marked, (n - 1) as nat);
        }
        let k = crate::types::walk::component_count(d, types) as nat;
        parts_listed_once(types, ct, meant, (n - 1) as nat, k);
        visiting_parts_adds(types, ct, meant, (n - 1) as nat, k);
        let parts = visited_parts(types, ct, meant, (n - 1) as nat, k);
        let all = parts.order.push(ct);
        assert(!parts.order.contains(ct)) by {
            if parts.order.contains(ct) {
                assert(meant.order.contains(ct));
                assert(marked.order.contains(ct));
            }
        }
        assert(all.no_duplicates()) by {
            assert forall|i: int, j: int| 0 <= i < all.len() && 0 <= j < all.len() && i != j implies all[i] != all[j] by {
                if i == all.len() - 1 {
                    assert(parts.order.contains(all[j]));
                } else if j == all.len() - 1 {
                    assert(parts.order.contains(all[i]));
                }
            }
        }
        assert forall|id: TypeId| #![trigger all.contains(id)] all.contains(id) implies parts.seen.contains(id) by {
            let i = choose|i: int| 0 <= i < all.len() && all[i] == id;
            if i < parts.order.len() {
                assert(parts.order[i] == id);
                assert(parts.order.contains(id));
            }
        }
        assert forall|id: TypeId| #![trigger all.contains(id)] v.seen.contains(id) && all.contains(id) implies v.order.contains(
            id,
        ) by {
            let i = choose|i: int| 0 <= i < all.len() && all[i] == id;
            assert(i < parts.order.len());
            assert(parts.order[i] == id);
            assert(parts.order.contains(id));
            assert(meant.order.contains(id));
            assert(marked.order.contains(id));
        }
    }
}

proof fn parts_listed_once(types: TypeFactory, ct: TypeId, v: Visit, n: nat, k: nat)
    requires
        v.order.no_duplicates(),
        forall|id: TypeId| #![trigger v.order.contains(id)] v.order.contains(id) ==> v.seen.contains(id),
    ensures
        visited_parts(types, ct, v, n, k).order.no_duplicates(),
        forall|id: TypeId| #![trigger visited_parts(types, ct, v, n, k).order.contains(id)]
            visited_parts(types, ct, v, n, k).order.contains(id) ==> visited_parts(types, ct, v, n, k).seen.contains(
                id,
            ),
        forall|id: TypeId| #![trigger visited_parts(types, ct, v, n, k).order.contains(id)]
            v.seen.contains(id) && visited_parts(types, ct, v, n, k).order.contains(id) ==> v.order.contains(id),
    decreases n, 3nat, k,
{
    if k > 0 {
        parts_listed_once(types, ct, v, n, (k - 1) as nat);
        visiting_parts_adds(types, ct, v, n, (k - 1) as nat);
        let before = visited_parts(types, ct, v, n, (k - 1) as nat);
        let tp = crate::types::walk::component(types.dt(ct), k - 1, types);
        if tp is Some {
            listed_once(types, tp->0, before, n);
            let after = visited(types, tp->0, before, n);
            assert forall|id: TypeId| #![trigger after.order.contains(id)] v.seen.contains(id) && after.order.contains(
                id,
            ) implies v.order.contains(id) by {
                assert(before.seen.contains(id));
                assert(before.order.contains(id));
            }
        }
    }
}

} // verus!

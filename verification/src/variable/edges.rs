//! What is known of which variables intersect.
use vstd::prelude::*;
use crate::funcdata::Funcdata;
use crate::ids::HighId;
use crate::variable::HighVariable;
use crate::varnode::Varnode;

verus! {

/// An ordered pair of variables.
#[derive(Copy, Clone, Debug, PartialEq, Eq, PartialOrd, Ord, Structural)]
pub struct HighEdge {
    pub first: HighId,
    pub second: HighId,
}

impl HighEdge {
    pub fn new(first: HighId, second: HighId) -> (res: HighEdge)
        ensures
            res == (HighEdge { first, second }),
    {
        HighEdge { first, second }
    }
}

/// The outcomes of tests of pairs of variables. A later outcome for a pair
/// stands in for an earlier one.
#[derive(Debug)]
pub struct HighIntersectTest {
    pub highedgemap: Vec<(HighEdge, bool)>,
}

/// The outcomes that the first `n` entries of a list give.
pub open spec fn outcomes(list: Seq<(HighEdge, bool)>, n: nat) -> Map<HighEdge, bool>
    decreases n,
{
    if n == 0 {
        Map::empty()
    } else {
        outcomes(list, (n - 1) as nat).insert(list[n - 1].0, list[n - 1].1)
    }
}

/// Outcomes of a list do not depend on what follows.
proof fn outcomes_prefix(list: Seq<(HighEdge, bool)>, more: Seq<(HighEdge, bool)>, n: nat)
    requires
        n <= list.len(),
        n <= more.len(),
        forall|i: int| 0 <= i < n ==> list[i] == more[i],
    ensures
        outcomes(list, n) == outcomes(more, n),
    decreases n,
{
    if n > 0 {
        outcomes_prefix(list, more, (n - 1) as nat);
    }
}

impl View for HighIntersectTest {
    type V = Map<HighEdge, bool>;

    open spec fn view(&self) -> Map<HighEdge, bool> {
        outcomes(self.highedgemap@, self.highedgemap@.len())
    }
}

impl HighIntersectTest {
    /// No pair is listed twice.
    pub open spec fn listed_once(self) -> bool {
        forall|i: int, j: int| #![trigger self.highedgemap@[i], self.highedgemap@[j]]
            0 <= i < j < self.highedgemap@.len() ==> self.highedgemap@[i].0 != self.highedgemap@[j].0
    }
}

/// Where no pair is listed twice, there are as many entries as pairs with an outcome.
pub proof fn entries_are_outcomes(tests: HighIntersectTest)
    requires
        tests.listed_once(),
    ensures
        tests@.dom().finite(),
        tests.highedgemap@.len() == tests@.dom().len(),
{
    count_outcomes(tests, tests.highedgemap@.len());
}

proof fn count_outcomes(tests: HighIntersectTest, n: nat)
    requires
        tests.listed_once(),
        n <= tests.highedgemap@.len(),
    ensures
        outcomes(tests.highedgemap@, n).dom().finite(),
        outcomes(tests.highedgemap@, n).dom().len() == n,
        forall|edge: HighEdge| #![trigger outcomes(tests.highedgemap@, n).contains_key(edge)]
            outcomes(tests.highedgemap@, n).contains_key(edge) ==> in_list(tests.highedgemap@, edge, n as int),
    decreases n,
{
    let list = tests.highedgemap@;
    if n > 0 {
        count_outcomes(tests, (n - 1) as nat);
        let before = outcomes(list, (n - 1) as nat);
        let last = list[n - 1].0;
        if before.contains_key(last) {
            let i = choose|i: int| 0 <= i < n - 1 && (#[trigger] list[i]).0 == last;
            assert(list[i].0 != list[n - 1].0);
        }
        assert(outcomes(list, n).dom() =~= before.dom().insert(last));
        assert forall|edge: HighEdge| #![trigger outcomes(list, n).contains_key(edge)]
            outcomes(list, n).contains_key(edge) implies in_list(list, edge, n as int) by {
            in_list_next(list, edge, n - 1);
            if edge != last {
                assert(before.contains_key(edge));
            }
        }
    }
}

/// The variables that a variable was tested against, with the outcomes.
pub open spec fn is_edges(list: Seq<(HighEdge, bool)>, known: Map<HighEdge, bool>, high: HighId) -> bool {
    &&& forall|i: int| #![trigger list[i]]
        0 <= i < list.len() ==> list[i].0.first == high && list[i].0.second.0 != u32::MAX && known.contains_key(
            list[i].0,
        ) && known[list[i].0] == list[i].1
    &&& forall|edge: HighEdge| #![trigger known.contains_key(edge)]
        known.contains_key(edge) && edge.first == high && edge.second.0 != u32::MAX ==> exists|i: int|
            0 <= i < list.len() && (#[trigger] list[i]).0 == edge
}

/// The pair the other way round.
pub open spec fn turned(edge: HighEdge) -> HighEdge {
    HighEdge { first: edge.second, second: edge.first }
}

/// A pair that involves a variable that another one was tested against.
pub open spec fn touches(edge: HighEdge, known: Map<HighEdge, bool>, high: HighId) -> bool {
    let straight = edge.first == high && edge.second.0 != u32::MAX && known.contains_key(edge);
    let back = edge.second == high && edge.first.0 != u32::MAX && known.contains_key(turned(edge));
    straight || back
}

/// What is left of the outcomes if a variable is forgotten.
pub open spec fn purged(known: Map<HighEdge, bool>, high: HighId) -> Map<HighEdge, bool> {
    Map::new(
        |edge: HighEdge| known.contains_key(edge) && !touches(edge, known, high),
        |edge: HighEdge| known[edge],
    )
}

impl HighIntersectTest {
    pub fn new() -> (res: HighIntersectTest)
        ensures
            res@ == Map::<HighEdge, bool>::empty(),
            res.highedgemap@.len() == 0,
            res.listed_once(),
    {
        HighIntersectTest { highedgemap: Vec::new() }
    }

    pub fn clear(&mut self)
        ensures
            final(self)@ == Map::<HighEdge, bool>::empty(),
            final(self).highedgemap@.len() == 0,
            final(self).listed_once(),
    {
        self.highedgemap.clear();
    }

    /// The outcome for a pair, if it is known.
    pub fn known_test(&self, edge: HighEdge) -> (res: Option<bool>)
        ensures
            res == (if self@.contains_key(edge) {
                Some(self@[edge])
            } else {
                None
            }),
    {
        let mut i: usize = self.highedgemap.len();
        while i > 0
            invariant
                i <= self.highedgemap@.len(),
                forall|k: int| i <= k < self.highedgemap@.len() ==> (#[trigger] self.highedgemap@[k]).0 != edge,
                outcomes(self.highedgemap@, i as nat).contains_key(edge) == self@.contains_key(edge),
                self@.contains_key(edge) ==> outcomes(self.highedgemap@, i as nat)[edge] == self@[edge],
            decreases i,
        {
            i = i - 1;
            if self.highedgemap[i].0 == edge {
                return Some(self.highedgemap[i].1);
            }
        }
        None
    }

    /// Forgets the outcome for a pair.
    pub fn remove_test(&mut self, edge: HighEdge)
        ensures
            final(self)@ == old(self)@.remove(edge),
            old(self).listed_once() ==> final(self).listed_once(),
            forall|i: int| #![trigger final(self).highedgemap@[i]]
                0 <= i < final(self).highedgemap@.len() ==> final(self).highedgemap@[i].0 != edge,
    {
        let ghost before = self.highedgemap@;
        let mut kept: Vec<(HighEdge, bool)> = Vec::new();
        let mut i: usize = 0;
        assert(outcomes(kept@, 0) =~= outcomes(before, 0).remove(edge));
        while i < self.highedgemap.len()
            invariant
                i <= before.len(),
                before == self.highedgemap@,
                outcomes(kept@, kept@.len()) == outcomes(before, i as nat).remove(edge),
                before == old(self).highedgemap@,
                forall|k: int| #![trigger kept@[k]]
                    0 <= k < kept@.len() ==> kept@[k].0 != edge && in_list(before, kept@[k].0, i as int),
                old(self).listed_once() ==> forall|a: int, b: int| #![trigger kept@[a], kept@[b]]
                    0 <= a < b < kept@.len() ==> kept@[a].0 != kept@[b].0,
            decreases before.len() - i,
        {
            let entry = self.highedgemap[i];
            let ghost sofar = kept@;
            if entry.0 != edge {
                kept.push(entry);
                proof {
                    outcomes_prefix(sofar, kept@, sofar.len());
                }
            }
            proof {
                assert forall|k: int| #![trigger kept@[k]] 0 <= k < kept@.len() implies kept@[k].0 != edge && in_list(
                    before,
                    kept@[k].0,
                    i + 1,
                ) by {
                    if k < sofar.len() {
                        assert(kept@[k] == sofar[k]);
                    }
                    in_list_next(before, kept@[k].0, i as int);
                }
                if old(self).listed_once() {
                    assert forall|a: int, b: int| #![trigger kept@[a], kept@[b]]
                        0 <= a < b < kept@.len() implies kept@[a].0 != kept@[b].0 by {
                        assert(kept@[a] == sofar[a]);
                        if b < sofar.len() {
                            assert(kept@[b] == sofar[b]);
                        } else {
                            let at = choose|at: int| 0 <= at < i && (#[trigger] before[at]).0 == sofar[a].0;
                            assert(before[at].0 != before[i as int].0);
                        }
                    }
                }
            }
            i = i + 1;
            assert(outcomes(kept@, kept@.len()) =~= outcomes(before, i as nat).remove(edge));
        }
        self.highedgemap = kept;
    }

    /// Notes the outcome for a pair.
    pub fn insert_test(&mut self, edge: HighEdge, res: bool)
        ensures
            final(self)@ == old(self)@.insert(edge, res),
            old(self).listed_once() ==> final(self).listed_once(),
    {
        self.remove_test(edge);
        let ghost sofar = self.highedgemap@;
        self.highedgemap.push((edge, res));
        proof {
            outcomes_prefix(sofar, self.highedgemap@, sofar.len());
            assert(self@ =~= old(self)@.insert(edge, res));
        }
    }

    /// The variables that a variable was tested against, with the outcomes.
    pub fn edges_from(&self, high: HighId) -> (res: Vec<(HighEdge, bool)>)
        ensures
            is_edges(res@, self@, high),
    {
        let mut res: Vec<(HighEdge, bool)> = Vec::new();
        let mut i: usize = 0;
        let ghost list = self.highedgemap@;
        while i < self.highedgemap.len()
            invariant
                i <= list.len(),
                list == self.highedgemap@,
                forall|k: int| #![trigger res@[k]]
                    0 <= k < res@.len() ==> res@[k].0.first == high && res@[k].0.second.0 != u32::MAX
                        && self@.contains_key(res@[k].0) && self@[res@[k].0] == res@[k].1,
                forall|edge: HighEdge| #![trigger outcomes(list, i as nat).contains_key(edge)]
                    outcomes(list, i as nat).contains_key(edge) && edge.first == high && edge.second.0 != u32::MAX
                        ==> exists|k: int| 0 <= k < res@.len() && (#[trigger] res@[k]).0 == edge,
            decreases list.len() - i,
        {
            let edge = self.highedgemap[i].0;
            let ghost sofar = res@;
            if edge.first == high && edge.second.0 != u32::MAX {
                proof {
                    has_outcome(list, i as int, list.len());
                }
                match self.known_test(edge) {
                    Some(outcome) => {
                        res.push((edge, outcome));
                    },
                    None => {},
                }
                assert(res@[res@.len() - 1].0 == edge);
            }
            i = i + 1;
            proof {
                assert forall|e: HighEdge| #![trigger outcomes(list, i as nat).contains_key(e)]
                    outcomes(list, i as nat).contains_key(e) && e.first == high && e.second.0
                        != u32::MAX implies exists|k: int| 0 <= k < res@.len() && (#[trigger] res@[k]).0 == e by {
                    if e != edge {
                        assert(outcomes(list, (i - 1) as nat).contains_key(e));
                        let k = choose|k: int| 0 <= k < sofar.len() && (#[trigger] sofar[k]).0 == e;
                        assert(res@[k].0 == e);
                    }
                }
            }
        }
        res
    }

    /// Forgets the outcomes for the pairs of a list and for the pairs the other way round.
    fn remove_edges(&mut self, edges: &Vec<(HighEdge, bool)>)
        ensures
            forall|edge: HighEdge| #![trigger final(self)@.contains_key(edge)]
                final(self)@.contains_key(edge) == (old(self)@.contains_key(edge) && !in_list(
                    edges@,
                    edge,
                    edges@.len() as int,
                ) && !in_list(edges@, turned(edge), edges@.len() as int)),
            forall|edge: HighEdge| #![trigger final(self)@[edge]]
                final(self)@.contains_key(edge) ==> final(self)@[edge] == old(self)@[edge],
            old(self).listed_once() ==> final(self).listed_once(),
    {
        let mut i: usize = 0;
        while i < edges.len()
            invariant
                old(self).listed_once() ==> self.listed_once(),
                i <= edges@.len(),
                forall|edge: HighEdge| #![trigger self@.contains_key(edge)]
                    self@.contains_key(edge) == (old(self)@.contains_key(edge) && !in_list(edges@, edge, i as int)
                        && !in_list(edges@, turned(edge), i as int)),
                forall|edge: HighEdge| #![trigger self@[edge]]
                    self@.contains_key(edge) ==> self@[edge] == old(self)@[edge],
            decreases edges@.len() - i,
        {
            let edge = edges[i].0;
            let ghost mid = self@;
            self.remove_test(HighEdge::new(edge.second, edge.first));
            self.remove_test(edge);
            proof {
                assert forall|e: HighEdge| #![trigger self@.contains_key(e)]
                    self@.contains_key(e) == (old(self)@.contains_key(e) && !in_list(edges@, e, i + 1) && !in_list(
                        edges@,
                        turned(e),
                        i + 1,
                    )) by {
                    in_list_next(edges@, e, i as int);
                    in_list_next(edges@, turned(e), i as int);
                    assert(mid.contains_key(e) == (old(self)@.contains_key(e) && !in_list(edges@, e, i as int)
                        && !in_list(edges@, turned(e), i as int)));
                    assert(turned(e) == edge <==> e == turned(edge));
                }
            }
            i = i + 1;
        }
    }

    /// Forgets all outcomes that involve a variable.
    pub fn purge_high(&mut self, high: HighId)
        ensures
            final(self)@ == purged(old(self)@, high),
            old(self).listed_once() ==> final(self).listed_once(),
    {
        let ghost known = self@;
        let edges = self.edges_from(high);
        self.remove_edges(&edges);
        proof {
            assert forall|edge: HighEdge| #![trigger self@.contains_key(edge)]
                self@.contains_key(edge) == purged(known, high).contains_key(edge) by {
                edges_listed(edges@, known, high, edge);
                edges_listed(edges@, known, high, turned(edge));
            }
            assert(self@ =~= purged(known, high));
        }
    }
}

/// Whether a pair is among the first `n` of a list.
pub open spec fn in_list(list: Seq<(HighEdge, bool)>, edge: HighEdge, n: int) -> bool {
    exists|i: int| 0 <= i < n && (#[trigger] list[i]).0 == edge
}

proof fn in_list_next(list: Seq<(HighEdge, bool)>, edge: HighEdge, n: int)
    requires
        0 <= n < list.len(),
    ensures
        in_list(list, edge, n + 1) == (in_list(list, edge, n) || list[n].0 == edge),
{
    if in_list(list, edge, n) {
        let i = choose|i: int| 0 <= i < n && (#[trigger] list[i]).0 == edge;
        assert(list[i].0 == edge && i < n + 1);
    }
    if list[n].0 == edge {
        assert(list[n].0 == edge && n < n + 1);
    }
    if in_list(list, edge, n + 1) && !in_list(list, edge, n) {
        let i = choose|i: int| 0 <= i < n + 1 && (#[trigger] list[i]).0 == edge;
        assert(i == n);
    }
}

proof fn has_outcome(list: Seq<(HighEdge, bool)>, i: int, n: nat)
    requires
        0 <= i < n <= list.len(),
    ensures
        outcomes(list, n).contains_key(list[i].0),
    decreases n,
{
    if i < n - 1 {
        has_outcome(list, i, (n - 1) as nat);
    }
}

proof fn edges_listed(list: Seq<(HighEdge, bool)>, known: Map<HighEdge, bool>, high: HighId, edge: HighEdge)
    requires
        is_edges(list, known, high),
    ensures
        in_list(list, edge, list.len() as int) == (edge.first == high && edge.second.0 != u32::MAX
            && known.contains_key(edge)),
{
    if in_list(list, edge, list.len() as int) {
        let i = choose|i: int| 0 <= i < list.len() && (#[trigger] list[i]).0 == edge;
        assert(known.contains_key(list[i].0));
    }
    if known.contains_key(edge) && edge.first == high && edge.second.0 != u32::MAX {
        let i = choose|i: int| 0 <= i < list.len() && (#[trigger] list[i]).0 == edge;
        assert(list[i].0 == edge);
    }
}

/// The variables that a variable, other than the given one, was tested against with an outcome.
pub open spec fn tested(known: Map<HighEdge, bool>, high: HighId, but: HighId, outcome: bool, other: HighId) -> bool {
    let edge = HighEdge { first: high, second: other };
    other != but && other.0 != u32::MAX && known.contains_key(edge) && known[edge] == outcome
}

/// What is left of the outcomes of the first of two variables that become one,
/// once the second is forgotten: that it does not intersect another variable
/// stays only if the second did not either.
pub open spec fn left_of_first(
    known: Map<HighEdge, bool>,
    data: Funcdata,
    high1: HighId,
    high2: HighId,
) -> Map<HighEdge, bool> {
    let rest = purged(known, high2);
    Map::new(
        |edge: HighEdge|
            rest.contains_key(edge) && !doubted(rest, known, data, high1, high2, edge) && !doubted(
                rest,
                known,
                data,
                high1,
                high2,
                turned(edge),
            ),
        |edge: HighEdge| rest[edge],
    )
}

/// Whether a negative outcome of the first variable can no longer be relied on.
pub open spec fn doubted(
    rest: Map<HighEdge, bool>,
    known: Map<HighEdge, bool>,
    data: Funcdata,
    high1: HighId,
    high2: HighId,
    edge: HighEdge,
) -> bool {
    &&& edge.first == high1
    &&& edge.second.0 != u32::MAX
    &&& rest.contains_key(edge)
    &&& !rest[edge]
    &&& !(tested(known, high2, high1, false, edge.second) || (data.variable(edge.second).flags & Varnode::MARK) != 0)
}

/// The outcomes once two variables have become one.
pub open spec fn moved_tests(
    known: Map<HighEdge, bool>,
    data: Funcdata,
    high1: HighId,
    high2: HighId,
) -> Map<HighEdge, bool> {
    let rest = left_of_first(known, data, high1, high2);
    Map::new(
        |edge: HighEdge| rest.contains_key(edge) || takes_over(known, high1, high2, edge),
        |edge: HighEdge|
            if takes_over(known, high1, high2, edge) {
                true
            } else {
                rest[edge]
            },
    )
}

/// Whether a pair takes over a positive outcome of the second variable.
pub open spec fn takes_over(known: Map<HighEdge, bool>, high1: HighId, high2: HighId, edge: HighEdge) -> bool {
    ||| edge.first == high1 && tested(known, high2, high1, true, edge.second)
    ||| edge.second == high1 && tested(known, high2, high1, true, edge.first)
}

/// The variables of a list, up to a place, with a mark set on them.
pub open spec fn marks_upto(after: Funcdata, before: Funcdata, list: Seq<HighId>, n: int) -> bool {
    &&& after.same_but_highs(before)
    &&& after.highs.slots@.len() == before.highs.slots@.len()
    &&& forall|h: u32| #![trigger after.highs.slots@[h as int]]
        h < after.highs.slots@.len() ==> after.highs.slots@[h as int] == if before.highs.has(h)
            && crate::variable::piece::named(list, h, n) {
            Some(HighVariable { flags: before.highs.item(h).flags | Varnode::MARK, ..before.highs.item(h) })
        } else {
            before.highs.slots@[h as int]
        }
}

/// The variables of a list, up to a place, with the mark taken off.
pub open spec fn clears_upto(after: Funcdata, before: Funcdata, list: Seq<HighId>, n: int) -> bool {
    &&& after.same_but_highs(before)
    &&& after.highs.slots@.len() == before.highs.slots@.len()
    &&& forall|h: u32| #![trigger after.highs.slots@[h as int]]
        h < after.highs.slots@.len() ==> after.highs.slots@[h as int] == if before.highs.has(h)
            && crate::variable::piece::named(list, h, n) {
            Some(HighVariable { flags: before.highs.item(h).flags & !Varnode::MARK, ..before.highs.item(h) })
        } else {
            before.highs.slots@[h as int]
        }
}

proof fn mark_bits(flags: u32)
    ensures
        (flags | Varnode::MARK) | Varnode::MARK == flags | Varnode::MARK,
        (flags & !Varnode::MARK) & !Varnode::MARK == flags & !Varnode::MARK,
        (flags | Varnode::MARK) & !Varnode::MARK == flags & !Varnode::MARK,
        (flags | Varnode::MARK) & Varnode::MARK != 0,
{
    assert((flags | 1u32) | 1u32 == flags | 1u32 && (flags & !1u32) & !1u32 == flags & !1u32 && (flags | 1u32) & !1u32
        == flags & !1u32 && (flags | 1u32) & 1u32 != 0) by (bit_vector);
}

impl HighIntersectTest {
    /// Sets a mark on the variables of a list.
    fn mark_all(data: &mut Funcdata, list: &Vec<HighId>)
        requires
            forall|i: int| #![trigger list@[i]] 0 <= i < list@.len() ==> old(data).has_high(list@[i]),
        ensures
            marks_upto(*final(data), *old(data), list@, list@.len() as int),
    {
        let mut i: usize = 0;
        while i < list.len()
            invariant
                i <= list@.len(),
                forall|k: int| #![trigger list@[k]] 0 <= k < list@.len() ==> old(data).has_high(list@[k]),
                marks_upto(*data, *old(data), list@, i as int),
            decreases list@.len() - i,
        {
            let other = list[i];
            let ghost mid = *data;
            assert(mid.highs.slots@[other.0 as int] is Some);
            data.high_mut(other).set_mark();
            proof {
                assert forall|h: u32| #![trigger data.highs.slots@[h as int]]
                    h < data.highs.slots@.len() implies data.highs.slots@[h as int] == if old(data).highs.has(h)
                    && crate::variable::piece::named(list@, h, i + 1) {
                    Some(
                        HighVariable {
                            flags: old(data).highs.item(h).flags | Varnode::MARK,
                            ..old(data).highs.item(h)
                        },
                    )
                } else {
                    old(data).highs.slots@[h as int]
                } by {
                    crate::variable::piece::named_next(list@, h, i as int);
                    assert(mid.highs.slots@[h as int] == mid.highs.slots@[h as int]);
                    mark_bits(old(data).highs.item(h).flags);
                }
            }
            i = i + 1;
        }
    }

    /// Takes the mark off the variables of a list.
    fn unmark_all(data: &mut Funcdata, list: &Vec<HighId>)
        requires
            forall|i: int| #![trigger list@[i]] 0 <= i < list@.len() ==> old(data).has_high(list@[i]),
        ensures
            clears_upto(*final(data), *old(data), list@, list@.len() as int),
    {
        let mut i: usize = 0;
        while i < list.len()
            invariant
                i <= list@.len(),
                forall|k: int| #![trigger list@[k]] 0 <= k < list@.len() ==> old(data).has_high(list@[k]),
                clears_upto(*data, *old(data), list@, i as int),
            decreases list@.len() - i,
        {
            let other = list[i];
            let ghost mid = *data;
            assert(mid.highs.slots@[other.0 as int] is Some);
            data.high_mut(other).clear_mark();
            proof {
                assert forall|h: u32| #![trigger data.highs.slots@[h as int]]
                    h < data.highs.slots@.len() implies data.highs.slots@[h as int] == if old(data).highs.has(h)
                    && crate::variable::piece::named(list@, h, i + 1) {
                    Some(
                        HighVariable {
                            flags: old(data).highs.item(h).flags & !Varnode::MARK,
                            ..old(data).highs.item(h)
                        },
                    )
                } else {
                    old(data).highs.slots@[h as int]
                } by {
                    crate::variable::piece::named_next(list@, h, i as int);
                    assert(mid.highs.slots@[h as int] == mid.highs.slots@[h as int]);
                    mark_bits(old(data).highs.item(h).flags);
                }
            }
            i = i + 1;
        }
    }

    /// The outcomes of the second of two variables that become one are moved to the first.
    pub fn move_intersect_tests(&mut self, data: &mut Funcdata, high1: HighId, high2: HighId)
        requires
            tests_known(old(self)@, *old(data)),
        ensures
            final(self)@ == moved_tests(old(self)@, *old(data), high1, high2),
            unmarked(*final(data), *old(data), old(self)@, high1, high2),
            old(self).listed_once() ==> final(self).listed_once(),
    {
        let ghost known = self@;
        let ghost before = *data;
        let mut yesinter: Vec<HighId> = Vec::new();
        let mut nointer: Vec<HighId> = Vec::new();
        let edges = self.edges_from(high2);
        let mut i: usize = 0;
        while i < edges.len()
            invariant
                i <= edges@.len(),
                is_edges(edges@, known, high2),
                tests_known(known, before),
                forall|other: HighId| #![trigger yesinter@.contains(other)]
                    yesinter@.contains(other) == split_off(edges@, high1, true, other, i as int),
                forall|other: HighId| #![trigger nointer@.contains(other)]
                    nointer@.contains(other) == split_off(edges@, high1, false, other, i as int),
            decreases edges@.len() - i,
        {
            let (edge, res) = edges[i];
            let other = edge.second;
            let ghost yes0 = yesinter@;
            let ghost no0 = nointer@;
            if other != high1 {
                if res {
                    yesinter.push(other);
                } else {
                    nointer.push(other);
                }
            }
            proof {
                assert forall|o: HighId| #![trigger yesinter@.contains(o)]
                    yesinter@.contains(o) == split_off(edges@, high1, true, o, i + 1) by {
                    split_next(edges@, high1, true, o, i as int);
                    pushed_contains(yes0, yesinter@, o);
                    assert(yes0.contains(o) == split_off(edges@, high1, true, o, i as int));
                }
                assert forall|o: HighId| #![trigger nointer@.contains(o)]
                    nointer@.contains(o) == split_off(edges@, high1, false, o, i + 1) by {
                    split_next(edges@, high1, false, o, i as int);
                    pushed_contains(no0, nointer@, o);
                    assert(no0.contains(o) == split_off(edges@, high1, false, o, i as int));
                }
            }
            i = i + 1;
        }
        proof {
            assert forall|o: HighId| #![trigger yesinter@.contains(o)]
                yesinter@.contains(o) == tested(known, high2, high1, true, o) by {
                split_all(edges@, known, high1, high2, true, o);
            }
            assert forall|o: HighId| #![trigger nointer@.contains(o)]
                nointer@.contains(o) == tested(known, high2, high1, false, o) by {
                split_all(edges@, known, high1, high2, false, o);
            }
            assert forall|k: int| #![trigger nointer@[k]] 0 <= k < nointer@.len() implies data.has_high(nointer@[k]) by {
                assert(nointer@.contains(nointer@[k]));
                assert(known.contains_key(HighEdge { first: high2, second: nointer@[k] }));
            }
        }
        HighIntersectTest::mark_all(data, &nointer);
        let ghost marked = *data;
        self.remove_edges(&edges);
        proof {
            assert forall|edge: HighEdge| #![trigger self@.contains_key(edge)]
                self@.contains_key(edge) == purged(known, high2).contains_key(edge) by {
                edges_listed(edges@, known, high2, edge);
                edges_listed(edges@, known, high2, turned(edge));
            }
            assert(self@ =~= purged(known, high2));
        }
        let ghost rest = self@;
        let high1_edges = self.edges_from(high1);
        let mut dropped: Vec<(HighEdge, bool)> = Vec::new();
        let mut i: usize = 0;
        while i < high1_edges.len()
            invariant
                i <= high1_edges@.len(),
                *data == marked,
                rest == purged(known, high2),
                tests_known(known, before),
                marks_upto(marked, before, nointer@, nointer@.len() as int),
                is_edges(high1_edges@, rest, high1),
                forall|o: HighId| #![trigger nointer@.contains(o)]
                    nointer@.contains(o) == tested(known, high2, high1, false, o),
                forall|edge: HighEdge| #![trigger in_list(dropped@, edge, dropped@.len() as int)]
                    in_list(dropped@, edge, dropped@.len() as int) == (in_list(high1_edges@, edge, i as int) && doubted(
                        rest,
                        known,
                        before,
                        high1,
                        high2,
                        edge,
                    )),
            decreases high1_edges@.len() - i,
        {
            let (edge, res) = high1_edges[i];
            let ghost sofar = dropped@;
            proof {
                assert(rest.contains_key(high1_edges@[i as int].0));
                assert(known.contains_key(edge));
                assert(before.has_high(edge.second));
                assert(marked.highs.slots@[edge.second.0 as int] is Some);
                named_contains(nointer@, edge.second);
                mark_bits(before.variable(edge.second).flags);
            }
            let keep = res || data.high(edge.second).is_mark();
            if !keep {
                dropped.push((edge, res));
            }
            proof {
                assert(keep == !doubted(rest, known, before, high1, high2, edge));
                assert forall|e: HighEdge| #![trigger in_list(dropped@, e, dropped@.len() as int)]
                    in_list(dropped@, e, dropped@.len() as int) == (in_list(high1_edges@, e, i + 1) && doubted(
                        rest,
                        known,
                        before,
                        high1,
                        high2,
                        e,
                    )) by {
                    in_list_next(high1_edges@, e, i as int);
                    assert(in_list(sofar, e, sofar.len() as int) == (in_list(high1_edges@, e, i as int) && doubted(
                        rest,
                        known,
                        before,
                        high1,
                        high2,
                        e,
                    )));
                    if !keep {
                        in_list_push(sofar, (edge, res), e);
                    }
                }
            }
            i = i + 1;
        }
        self.remove_edges(&dropped);
        proof {
            assert forall|edge: HighEdge| #![trigger self@.contains_key(edge)]
                self@.contains_key(edge) == left_of_first(known, before, high1, high2).contains_key(edge) by {
                edges_listed(high1_edges@, rest, high1, edge);
                edges_listed(high1_edges@, rest, high1, turned(edge));
                assert(in_list(dropped@, edge, dropped@.len() as int) == doubted(
                    rest,
                    known,
                    before,
                    high1,
                    high2,
                    edge,
                ));
                assert(in_list(dropped@, turned(edge), dropped@.len() as int) == doubted(
                    rest,
                    known,
                    before,
                    high1,
                    high2,
                    turned(edge),
                ));
            }
            assert(self@ =~= left_of_first(known, before, high1, high2));
            assert forall|k: int| #![trigger nointer@[k]] 0 <= k < nointer@.len() implies marked.has_high(nointer@[k]) by {
                assert(nointer@.contains(nointer@[k]));
                assert(known.contains_key(HighEdge { first: high2, second: nointer@[k] }));
                assert(marked.highs.slots@[nointer@[k].0 as int] is Some);
            }
        }
        HighIntersectTest::unmark_all(data, &nointer);
        proof {
            assert forall|h: u32| #![trigger data.highs.slots@[h as int]]
                h < data.highs.slots@.len() implies data.highs.slots@[h as int] == if before.highs.has(h) && tested(
                known,
                high2,
                high1,
                false,
                HighId(h),
            ) {
                Some(
                    HighVariable {
                        flags: before.highs.item(h).flags & !Varnode::MARK,
                        ..before.highs.item(h)
                    },
                )
            } else {
                before.highs.slots@[h as int]
            } by {
                named_contains(nointer@, HighId(h));
                mark_bits(before.highs.item(h).flags);
                assert(nointer@.contains(HighId(h)) == tested(known, high2, high1, false, HighId(h)));
                assert(marked.highs.slots@[h as int] == if before.highs.has(h) && crate::variable::piece::named(
                    nointer@,
                    h,
                    nointer@.len() as int,
                ) {
                    Some(
                        HighVariable { flags: before.highs.item(h).flags | Varnode::MARK, ..before.highs.item(h) },
                    )
                } else {
                    before.highs.slots@[h as int]
                });
            }
        }
        let ghost kept = self@;
        let mut i: usize = 0;
        while i < yesinter.len()
            invariant
                old(self).listed_once() ==> self.listed_once(),
                i <= yesinter@.len(),
                forall|edge: HighEdge| #![trigger self@.contains_key(edge)]
                    self@.contains_key(edge) == (kept.contains_key(edge) || given(yesinter@, high1, edge, i as int)),
                forall|edge: HighEdge| #![trigger self@[edge]]
                    self@.contains_key(edge) ==> self@[edge] == (given(yesinter@, high1, edge, i as int)
                        || kept[edge]),
            decreases yesinter@.len() - i,
        {
            let other = yesinter[i];
            let ghost mid = self@;
            self.insert_test(HighEdge::new(high1, other), true);
            self.insert_test(HighEdge::new(other, high1), true);
            proof {
                assert forall|edge: HighEdge|
                    given(yesinter@, high1, edge, i + 1) == (given(yesinter@, high1, edge, i as int) || edge
                        == (HighEdge { first: high1, second: other }) || edge == (HighEdge {
                        first: other,
                        second: high1,
                    })) by {
                    given_next(yesinter@, high1, edge, i as int);
                }
            }
            i = i + 1;
        }
        proof {
            assert forall|edge: HighEdge|
                given(yesinter@, high1, edge, yesinter@.len() as int) == takes_over(known, high1, high2, edge) by {
                given_all(yesinter@, high1, edge);
                assert(yesinter@.contains(edge.second) == tested(known, high2, high1, true, edge.second));
                assert(yesinter@.contains(edge.first) == tested(known, high2, high1, true, edge.first));
            }
            assert(self@ =~= moved_tests(known, before, high1, high2));
        }
    }
}

/// Whether a variable was split off with an outcome from the first `n` pairs of a list.
pub open spec fn split_off(list: Seq<(HighEdge, bool)>, but: HighId, outcome: bool, other: HighId, n: int) -> bool {
    exists|i: int|
        0 <= i < n && (#[trigger] list[i]).0.second == other && list[i].1 == outcome && other != but
}

proof fn split_next(list: Seq<(HighEdge, bool)>, but: HighId, outcome: bool, other: HighId, n: int)
    requires
        0 <= n < list.len(),
    ensures
        split_off(list, but, outcome, other, n + 1) == (split_off(list, but, outcome, other, n) || (list[n].0.second
            == other && list[n].1 == outcome && other != but)),
{
    if split_off(list, but, outcome, other, n) {
        let i = choose|i: int|
            0 <= i < n && (#[trigger] list[i]).0.second == other && list[i].1 == outcome && other != but;
        assert(list[i].0.second == other && i < n + 1);
    }
    if list[n].0.second == other && list[n].1 == outcome && other != but {
        assert(list[n].0.second == other && n < n + 1);
    }
    if split_off(list, but, outcome, other, n + 1) && !split_off(list, but, outcome, other, n) {
        let i = choose|i: int|
            0 <= i < n + 1 && (#[trigger] list[i]).0.second == other && list[i].1 == outcome && other != but;
        assert(i == n);
    }
}

proof fn split_all(
    list: Seq<(HighEdge, bool)>,
    known: Map<HighEdge, bool>,
    but: HighId,
    high: HighId,
    outcome: bool,
    other: HighId,
)
    requires
        is_edges(list, known, high),
    ensures
        split_off(list, but, outcome, other, list.len() as int) == tested(known, high, but, outcome, other),
{
    let edge = HighEdge { first: high, second: other };
    if split_off(list, but, outcome, other, list.len() as int) {
        let i = choose|i: int|
            0 <= i < list.len() && (#[trigger] list[i]).0.second == other && list[i].1 == outcome && other != but;
        assert(list[i].0 == edge);
    }
    if tested(known, high, but, outcome, other) {
        let i = choose|i: int| 0 <= i < list.len() && (#[trigger] list[i]).0 == edge;
        assert(list[i].0.second == other && list[i].1 == outcome);
    }
}

proof fn pushed_contains(before: Seq<HighId>, after: Seq<HighId>, other: HighId)
    requires
        after == before || (after.len() > 0 && after == before.push(after.last())),
    ensures
        after.contains(other) == (before.contains(other) || (after != before && after.last() == other)),
{
    if before.contains(other) {
        let k = choose|k: int| 0 <= k < before.len() && before[k] == other;
        assert(after[k] == other);
    }
}

proof fn named_contains(list: Seq<HighId>, other: HighId)
    ensures
        crate::variable::piece::named(list, other.0, list.len() as int) == list.contains(other),
{
    if crate::variable::piece::named(list, other.0, list.len() as int) {
        let k = choose|k: int| 0 <= k < list.len() && (#[trigger] list[k]).0 == other.0;
        assert(list[k] == other);
    }
    if list.contains(other) {
        let k = choose|k: int| 0 <= k < list.len() && list[k] == other;
        assert(list[k].0 == other.0);
    }
}

proof fn in_list_push(list: Seq<(HighEdge, bool)>, entry: (HighEdge, bool), edge: HighEdge)
    ensures
        in_list(list.push(entry), edge, list.len() as int + 1) == (in_list(list, edge, list.len() as int) || entry.0 == edge),
{
    let more = list.push(entry);
    in_list_next(more, edge, list.len() as int);
    if in_list(more, edge, list.len() as int) {
        let i = choose|i: int| 0 <= i < list.len() && (#[trigger] more[i]).0 == edge;
        assert(list[i].0 == edge);
    }
    if in_list(list, edge, list.len() as int) {
        let i = choose|i: int| 0 <= i < list.len() && (#[trigger] list[i]).0 == edge;
        assert(more[i].0 == edge);
    }
}

/// Whether a pair joins a variable with one of the first `n` of a list.
pub open spec fn given(list: Seq<HighId>, high: HighId, edge: HighEdge, n: int) -> bool {
    ||| edge.first == high && crate::variable::piece::named(list, edge.second.0, n)
    ||| edge.second == high && crate::variable::piece::named(list, edge.first.0, n)
}

proof fn given_next(list: Seq<HighId>, high: HighId, edge: HighEdge, n: int)
    requires
        0 <= n < list.len(),
    ensures
        given(list, high, edge, n + 1) == (given(list, high, edge, n) || edge == (HighEdge {
            first: high,
            second: list[n],
        }) || edge == (HighEdge { first: list[n], second: high })),
{
    crate::variable::piece::named_next(list, edge.second.0, n);
    crate::variable::piece::named_next(list, edge.first.0, n);
}

proof fn given_all(list: Seq<HighId>, high: HighId, edge: HighEdge)
    ensures
        given(list, high, edge, list.len() as int) == ((edge.first == high && list.contains(edge.second)) || (
        edge.second == high && list.contains(edge.first))),
{
    named_contains(list, edge.second);
    named_contains(list, edge.first);
}

/// The variables that are named in the outcomes exist.
pub open spec fn tests_known(known: Map<HighEdge, bool>, data: Funcdata) -> bool {
    forall|edge: HighEdge| #![trigger known.contains_key(edge)]
        known.contains_key(edge) ==> edge.second.0 == u32::MAX || data.has_high(edge.second)
}

/// Marks are gone from the variables that a variable was tested against with a negative outcome.
pub open spec fn unmarked(after: Funcdata, before: Funcdata, known: Map<HighEdge, bool>, high1: HighId, high2: HighId) -> bool {
    &&& after.same_but_highs(before)
    &&& after.highs.slots@.len() == before.highs.slots@.len()
    &&& forall|h: u32| #![trigger after.highs.slots@[h as int]]
        h < after.highs.slots@.len() ==> after.highs.slots@[h as int] == if before.highs.has(h) && tested(
            known,
            high2,
            high1,
            false,
            HighId(h),
        ) {
            Some(
                HighVariable {
                    flags: before.highs.item(h).flags & !Varnode::MARK,
                    ..before.highs.item(h)
                },
            )
        } else {
            before.highs.slots@[h as int]
        }
}

} // verus!

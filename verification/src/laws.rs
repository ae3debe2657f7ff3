//! What holds of several operations together.
pub mod fitting;
pub mod meeting;
pub mod operating;
pub mod ordering;
pub mod spreading;
pub mod walking;
pub mod writing;

use vstd::prelude::*;
use crate::error::{Error, Result};
use crate::funcdata::Funcdata;
use crate::ids::{HighId, OpId, TypeId, VarnodeId};
use crate::marshal::{
    Attribute, Element, Written, ATTRIB_FORMAT, ATTRIB_ID, ATTRIB_LABEL, ATTRIB_METATYPE, ATTRIB_NAME, ATTRIB_OFFSET, ATTRIB_SIZE,
};
use crate::typeop::OpFacts;
use crate::opcodes::OpCode;
use crate::types::decode::Basics;
use crate::types::labels::{
    ATTRIB_ALIGNMENT, ATTRIB_CORE, ATTRIB_INCOMPLETE, ATTRIB_OPAQUESTRING, ATTRIB_VARLENGTH, ELEM_FIELD,
};
use crate::types::layout::Layout;
use crate::types::members::FieldFacts;
use crate::types::names::NameMap;
use crate::types::{Datatype, TypeBitField, TypeFactory, TypeField, TypeKind, TypeMetatype};
use crate::unionresolve::{ResolveEdge, ResolvedUnion};
use crate::userop::{UserOpManage, UserPcodeOp};
use crate::variable::edges::HighEdge;
use crate::variable::HighVariable;

verus! {

/// What is entered for a place is what is found there, and nothing else changes.
pub proof fn entry_is_given_back(
    list: Seq<(ResolveEdge, ResolvedUnion)>,
    edge: ResolveEdge,
    resolve: ResolvedUnion,
    other: ResolveEdge,
    i: nat,
)
    requires
        i <= list.len(),
    ensures
        crate::unionresolve::entry_for(crate::unionresolve::with_entry(list, edge, resolve, i), edge, i) == Some(resolve),
        other != edge ==> crate::unionresolve::entry_for(
            crate::unionresolve::with_entry(list, edge, resolve, i),
            other,
            i,
        ) == crate::unionresolve::entry_for(list, other, i),
    decreases list.len() - i,
{
    let after = crate::unionresolve::with_entry(list, edge, resolve, i);
    if i < list.len() && list[i as int].0 != edge {
        entry_is_given_back(list, edge, resolve, other, i + 1);
        entry_after(list, edge, resolve, i + 1);
        assert(after[i as int] == list[i as int]);
    } else if i < list.len() {
        assert(after[i as int] == (edge, resolve));
        if other != edge {
            same_rest(list, after, other, i + 1);
        }
    } else {
        assert(after[i as int] == (edge, resolve));
        assert(crate::unionresolve::entry_for(after, other, i + 1) is None);
    }
}

proof fn entry_after(list: Seq<(ResolveEdge, ResolvedUnion)>, edge: ResolveEdge, resolve: ResolvedUnion, i: nat)
    requires
        i <= list.len(),
    ensures
        ({
            let after = crate::unionresolve::with_entry(list, edge, resolve, i);
            &&& after.len() >= list.len()
            &&& forall|k: int| 0 <= k < i ==> #[trigger] after[k] == list[k]
        }),
    decreases list.len() - i,
{
    if i < list.len() && list[i as int].0 != edge {
        entry_after(list, edge, resolve, i + 1);
    }
}

proof fn same_rest(
    a: Seq<(ResolveEdge, ResolvedUnion)>,
    b: Seq<(ResolveEdge, ResolvedUnion)>,
    edge: ResolveEdge,
    i: nat,
)
    requires
        a.len() == b.len(),
        forall|k: int| i <= k < a.len() ==> a[k] == b[k],
    ensures
        crate::unionresolve::entry_for(a, edge, i) == crate::unionresolve::entry_for(b, edge, i),
    decreases a.len() - i,
{
    if i < a.len() {
        same_rest(a, b, edge, i + 1);
    }
}

/// A resolution of a union that is noted is the one that is found for the same operation
/// and slot, taken over by what was known there. A locked one keeps its field.
pub proof fn noted_union_is_given_back(
    after: Funcdata,
    before: Funcdata,
    tp: TypeId,
    op: OpId,
    slot: i32,
    resolve: ResolvedUnion,
    types: TypeFactory,
)
    requires
        after.noted_union(before, tp, op, slot, resolve, types),
    ensures
        after.union_field(tp, op, slot, types) == Some(
            match before.union_field(tp, op, slot, types) {
                Some(there) => there.updated(resolve),
                None => resolve,
            },
        ),
{
    let edge = ResolveEdge::at(tp, op, slot, before, types);
    assert(ResolveEdge::at(tp, op, slot, after, types) == edge);
    entry_is_given_back(
        before.union_map@,
        edge,
        match before.union_field(tp, op, slot, types) {
            Some(there) => there.updated(resolve),
            None => resolve,
        },
        edge,
        0,
    );
}

/// Forgetting a variable forgets the tests against it in both directions, and no others.
pub proof fn purge_is_thorough(known: Map<HighEdge, bool>, high: HighId, edge: HighEdge)
    requires
        forall|e: HighEdge| #[trigger] known.contains_key(e) ==> known.contains_key(crate::variable::edges::turned(e)),
        edge.first.0 != u32::MAX,
        edge.second.0 != u32::MAX,
    ensures
        crate::variable::edges::purged(known, high).contains_key(edge) == (known.contains_key(edge) && edge.first != high
            && edge.second != high),
{
    if known.contains_key(edge) {
        assert(known.contains_key(crate::variable::edges::turned(edge)));
    }
}

/// Varnodes are listed by where they are stored.
pub open spec fn in_storage_order(data: Funcdata, list: Seq<VarnodeId>) -> bool {
    forall|i: int, j: int|
        0 <= i < j < list.len() ==> !HighVariable::stored_before(
            data.value(#[trigger] list[j]),
            data.value(#[trigger] list[i]),
        )
}

/// A varnode of one of two lists, from the given places on.
pub open spec fn is_one_of(first: Seq<VarnodeId>, second: Seq<VarnodeId>, i: nat, j: nat, vn: VarnodeId) -> bool {
    ||| exists|k: int| i <= k < first.len() && #[trigger] first[k] == vn
    ||| exists|k: int| j <= k < second.len() && #[trigger] second[k] == vn
}

/// Bringing two lists of varnodes together keeps the order by storage, and loses and adds
/// none.
pub proof fn merged_varnodes_in_order(data: Funcdata, first: Seq<VarnodeId>, second: Seq<VarnodeId>, i: nat, j: nat)
    requires
        in_storage_order(data, first),
        in_storage_order(data, second),
        i <= first.len(),
        j <= second.len(),
    ensures
        in_storage_order(data, data.by_storage(first, second, i, j)),
        data.by_storage(first, second, i, j).len() == first.len() - i + second.len() - j,
        forall|k: int|
            0 <= k < data.by_storage(first, second, i, j).len() ==> is_one_of(
                first,
                second,
                i,
                j,
                #[trigger] data.by_storage(first, second, i, j)[k],
            ),
    decreases first.len() - i + second.len() - j,
{
    let all = data.by_storage(first, second, i, j);
    if i < first.len() || j < second.len() {
        let from_second = i >= first.len() || (j < second.len() && HighVariable::stored_before(
            data.value(second[j as int]),
            data.value(first[i as int]),
        ));
        let (x, y) = if from_second {
            (i, j + 1)
        } else {
            (i + 1, j)
        };
        let head = if from_second {
            second[j as int]
        } else {
            first[i as int]
        };
        merged_varnodes_in_order(data, first, second, x, y);
        let rest = data.by_storage(first, second, x, y);
        assert(all == seq![head] + rest);
        assert forall|k: int| 0 <= k < all.len() implies is_one_of(first, second, i, j, #[trigger] all[k]) by {
            if k == 0 {
                assert(all[0] == head);
            } else {
                assert(all[k] == rest[k - 1]);
                assert(is_one_of(first, second, x, y, rest[k - 1]));
            }
        }
        assert forall|a: int, b: int| 0 <= a < b < all.len() implies !HighVariable::stored_before(
            data.value(#[trigger] all[b]),
            data.value(#[trigger] all[a]),
        ) by {
            assert(all[b] == rest[b - 1]);
            if a > 0 {
                assert(all[a] == rest[a - 1]);
            } else {
                assert(all[a] == head);
                assert(is_one_of(first, second, x, y, rest[b - 1]));
                if j < second.len() {
                    let next = second[j as int];
                    assert(data.value(next) == data.value(second[j as int]));
                }
                if i < first.len() {
                    let next = first[i as int];
                    assert(data.value(next) == data.value(first[i as int]));
                }
            }
        }
    }
}

/// Outcomes are known of pairs in both directions, and are the same.
pub open spec fn known_both_ways(known: Map<HighEdge, bool>) -> bool {
    forall|edge: HighEdge| #![trigger known.contains_key(edge)]
        known.contains_key(edge) ==> known.contains_key(crate::variable::edges::turned(edge)) && known[edge]
            == known[crate::variable::edges::turned(edge)]
}

proof fn purge_keeps_both_ways(known: Map<HighEdge, bool>, high: HighId)
    requires
        known_both_ways(known),
    ensures
        known_both_ways(crate::variable::edges::purged(known, high)),
{
    let left = crate::variable::edges::purged(known, high);
    assert forall|edge: HighEdge| #![trigger left.contains_key(edge)] left.contains_key(edge) implies left.contains_key(
        crate::variable::edges::turned(edge),
    ) && left[edge] == left[crate::variable::edges::turned(edge)] by {
        let back = crate::variable::edges::turned(edge);
        assert(known.contains_key(edge));
        assert(known.contains_key(back));
        assert(crate::variable::edges::turned(back) == edge);
    }
}

/// Testing a variable against itself finds no intersection and remembers nothing.
pub proof fn no_variable_meets_itself(
    tests: Map<HighEdge, bool>,
    data: Funcdata,
    old_tests: Map<HighEdge, bool>,
    old_data: Funcdata,
    ops: Seq<crate::cover::AffectingOp>,
    high: HighId,
    res: Result<bool>,
)
    requires
        crate::variable::intersect::tests_intersection(tests, data, old_tests, old_data, ops, high, high, res),
    ensures
        res == Ok::<bool, Error>(false),
        tests == old_tests,
        data == old_data,
{
}

/// What a test of two variables finds is remembered for both directions.
pub proof fn intersection_is_remembered(
    tests: Map<HighEdge, bool>,
    data: Funcdata,
    old_tests: Map<HighEdge, bool>,
    old_data: Funcdata,
    ops: Seq<crate::cover::AffectingOp>,
    first: HighId,
    second: HighId,
    outcome: bool,
)
    requires
        first != second,
        known_both_ways(old_tests),
        crate::variable::intersect::tests_intersection(
            tests,
            data,
            old_tests,
            old_data,
            ops,
            first,
            second,
            Ok::<bool, Error>(outcome),
        ),
    ensures
        known_both_ways(tests),
        tests.contains_key(HighEdge { first, second }) && tests[HighEdge { first, second }] == outcome,
        tests.contains_key(HighEdge { first: second, second: first }) && tests[HighEdge { first: second, second: first }]
            == outcome,
{
    let edge = HighEdge { first, second };
    let back = crate::variable::edges::turned(edge);
    purge_keeps_both_ways(old_tests, first);
    purge_keeps_both_ways(old_tests, second);
    purge_keeps_both_ways(crate::variable::edges::purged(old_tests, first), second);
    let (tests1, data1, ares, tests2, data2, bres) = choose|
        tests1: Map<HighEdge, bool>,
        data1: Funcdata,
        ares: bool,
        tests2: Map<HighEdge, bool>,
        data2: Funcdata,
        bres: bool,
    |
        #![trigger crate::variable::intersect::updates_high(tests1, data1, old_tests, old_data, first, ares), crate::variable::intersect::updates_high(
            tests2,
            data2,
            tests1,
            data1,
            second,
            bres,
        )]
        {
            &&& crate::variable::intersect::updates_high(tests1, data1, old_tests, old_data, first, ares)
            &&& crate::variable::intersect::updates_high(tests2, data2, tests1, data1, second, bres)
            &&& if ares && bres && tests2.contains_key(edge) {
                tests == tests2 && data == data2 && outcome == tests2[edge]
            } else {
                tests == tests2.insert(edge, outcome).insert(back, outcome)
            }
        };
    assert(known_both_ways(tests2));
    assert(crate::variable::edges::turned(back) == edge);
    assert forall|e: HighEdge| #![trigger tests.contains_key(e)] tests.contains_key(e) implies tests.contains_key(
        crate::variable::edges::turned(e),
    ) && tests[e] == tests[crate::variable::edges::turned(e)] by {
        assert(crate::variable::edges::turned(crate::variable::edges::turned(e)) == e);
        if e != edge && e != back {
            assert(tests2.contains_key(e));
            assert(crate::variable::edges::turned(e) != edge);
            assert(crate::variable::edges::turned(e) != back);
        }
    }
    if tests == tests2 {
        assert(tests2.contains_key(edge));
    }
}

/// The test of two variables does not depend on their order: who asks again the other way
/// round, before a cover has to be found anew, gets the same answer, and nothing changes.
pub proof fn intersection_is_symmetric(
    again: Map<HighEdge, bool>,
    again_data: Funcdata,
    tests: Map<HighEdge, bool>,
    data: Funcdata,
    old_tests: Map<HighEdge, bool>,
    old_data: Funcdata,
    ops: Seq<crate::cover::AffectingOp>,
    first: HighId,
    second: HighId,
    outcome: bool,
    res: Result<bool>,
)
    requires
        first != second,
        known_both_ways(old_tests),
        crate::variable::intersect::tests_intersection(
            tests,
            data,
            old_tests,
            old_data,
            ops,
            first,
            second,
            Ok::<bool, Error>(outcome),
        ),
        !data.variable(first).note(HighVariable::COVERDIRTY | HighVariable::EXTENDCOVERDIRTY),
        !data.variable(second).note(HighVariable::COVERDIRTY | HighVariable::EXTENDCOVERDIRTY),
        crate::variable::intersect::tests_intersection(again, again_data, tests, data, ops, second, first, res),
    ensures
        res == Ok::<bool, Error>(outcome),
        again == tests,
        again_data == data,
{
    intersection_is_remembered(tests, data, old_tests, old_data, ops, first, second, outcome);
}

/// A data-type that has been added is the one that is found for it.
pub proof fn added_type_is_found(before: TypeFactory, after: TypeFactory, d: Datatype)
    requires
        before.sound(),
        before.arena@.len() < u32::MAX,
        before.found(d) is None,
        after.grown(before, d),
    ensures
        after.found(d) == Some(TypeId(before.arena@.len() as u32)),
{
    let id = TypeId(before.arena@.len() as u32);
    let p = before.place(d, 0);
    place_is_first(before, d, 0);
    assert(after.dt(id) == d);
    crate::types::compare::factory_order_reflexive(d);
    place_stays(before, after, d, 0);
}

proof fn place_is_first(types: TypeFactory, d: Datatype, i: nat)
    requires
        i <= types.tree@.len(),
    ensures
        i <= types.place(d, i) <= types.tree@.len(),
        forall|k: int|
            i <= k < types.place(d, i) ==> crate::types::compare::factory_order(types.dt(#[trigger] types.tree@[k]), d) < 0,
    decreases types.tree@.len() - i,
{
    if i < types.tree@.len() && crate::types::compare::factory_order(types.dt(types.tree@[i as int]), d) < 0 {
        place_is_first(types, d, i + 1);
    }
}

proof fn place_stays(before: TypeFactory, after: TypeFactory, d: Datatype, i: nat)
    requires
        before.sound(),
        before.arena@.len() < u32::MAX,
        after.grown(before, d),
        after.dt(TypeId(before.arena@.len() as u32)) == d,
        i <= before.place(d, 0) <= before.tree@.len(),
        forall|k: int|
            0 <= k < before.place(d, 0) ==> crate::types::compare::factory_order(
                before.dt(#[trigger] before.tree@[k]),
                d,
            ) < 0,
        crate::types::compare::factory_order(d, d) == 0,
    ensures
        after.place(d, i) == before.place(d, 0),
    decreases before.tree@.len() - i,
{
    let p = before.place(d, 0);
    if i < p {
        assert(after.tree@[i as int] == before.tree@[i as int]);
        before.tree_names_members(i as int);
        assert(after.dt(before.tree@[i as int]) == before.dt(before.tree@[i as int]));
        place_stays(before, after, d, i + 1);
    } else {
        assert(after.tree@[p as int] == TypeId(before.arena@.len() as u32));
    }
}

/// A data-type that has been added under a name and an id is the one that is found under
/// them, if they were free.
pub proof fn added_name_is_found(before: TypeFactory, after: TypeFactory, d: Datatype)
    requires
        after.grown(before, d),
        d.id != 0,
        before.by_name(d.name@, d.id) is None,
    ensures
        after.by_name(d.name@, d.id) == Some(TypeId(before.arena@.len() as u32)),
{
    name_is_last(before, after, d, 0);
}

proof fn name_is_last(before: TypeFactory, after: TypeFactory, d: Datatype, i: nat)
    requires
        after.grown(before, d),
        d.id != 0,
        i <= before.nametree@.len(),
        before.name_place(d.name@, d.id, 0) < 0,
        before.name_place(d.name@, d.id, i) < 0,
    ensures
        after.name_place(d.name@, d.id, i) == before.nametree@.len(),
    decreases before.nametree@.len() - i,
{
    if i < before.nametree@.len() {
        assert(after.nametree@[i as int] == after.nametree@.drop_last()[i as int]);
        name_is_last(before, after, d, i + 1);
    }
}

/// Two kinds with the same contents stand in the same place of the order by data-type.
proof fn alike_in_order(x: Datatype, a: Datatype, b: Datatype)
    requires
        a.size == b.size,
        a.submeta == b.submeta,
        a.kind.alike(b.kind),
    ensures
        crate::types::compare::dependency_order(x, a) == crate::types::compare::dependency_order(x, b),
{
    match (x.kind, a.kind) {
        (TypeKind::Enum(data), TypeKind::Enum(_)) | (TypeKind::Enum(data), TypeKind::PartialEnum(_)) => {
            alike_names(data.namemap, a.names(), b.names(), 0);
        },
        _ => {},
    }
}

proof fn alike_names(x: NameMap, a: NameMap, b: NameMap, i: int)
    requires
        a.entries@ == b.entries@,
    ensures
        crate::types::compare::names_order(x, a, i) == crate::types::compare::names_order(x, b, i),
    decreases x.entries@.len() - i,
{
    if 0 <= i < x.entries@.len() && i < a.entries@.len() {
        alike_names(x, a, b, i + 1);
    }
}

proof fn alike_in_place(types: TypeFactory, a: Datatype, b: Datatype, i: nat)
    requires
        a.size == b.size,
        a.submeta == b.submeta,
        a.id == b.id,
        a.kind.alike(b.kind),
        i <= types.tree@.len(),
    ensures
        types.place(a, i) == types.place(b, i),
        types.place(a, i) <= types.tree@.len(),
        types.place(a, i) < types.tree@.len() ==> crate::types::compare::factory_order(
            types.dt(types.tree@[types.place(a, i) as int]),
            a,
        ) == crate::types::compare::factory_order(types.dt(types.tree@[types.place(b, i) as int]), b),
    decreases types.tree@.len() - i,
{
    if i < types.tree@.len() {
        alike_in_order(types.dt(types.tree@[i as int]), a, b);
        alike_in_place(types, a, b, i + 1);
    }
}

/// Who asks a factory for a data-type twice gets one handle: the second time nothing is
/// added, and the data-type under the handle is the one that was asked for.
pub proof fn asking_twice_gives_one_handle(
    before: TypeFactory,
    after: TypeFactory,
    again: TypeFactory,
    ct: Datatype,
    r: TypeId,
    res: Result<TypeId>,
)
    requires
        before.sound(),
        before.arena@.len() < u32::MAX,
        after.adds(before, ct, Ok::<TypeId, Error>(r)),
        again.adds(after, ct, res),
    ensures
        res == Ok::<TypeId, Error>(r),
        again == after,
        crate::types::compare::dependency_order(after.dt(r), ct) == 0,
{
    let existing = if ct.name@.len() > 0 {
        before.by_name(ct.name@, ct.id)
    } else {
        before.found(ct)
    };
    if existing is None {
        let d = choose|d: Datatype| #[trigger]
            before.completes(d, ct) && after.inserts(before, d, Ok::<TypeId, Error>(r));
        assert(after.dt(r) == d);
        crate::types::compare::factory_order_reflexive(d);
        alike_in_order(d, d, ct);
        if ct.name@.len() > 0 {
            added_name_is_found(before, after, d);
        } else {
            added_type_is_found(before, after, d);
            alike_in_place(after, d, ct, 0);
        }
    }
}

/// The last choice of operators counts.
pub proof fn last_operators_count(facts: OpFacts, opcode: OpCode, first: bool, second: bool)
    ensures
        crate::typeop::table::with_operators(
            crate::typeop::table::with_operators(facts, opcode, first),
            opcode,
            second,
        ) == crate::typeop::table::with_operators(facts, opcode, second),
{
}

/// An operation that has been registered is found under its index.
pub proof fn registered_op_is_found(after: UserOpManage, before: UserOpManage, op: UserPcodeOp, res: Result<()>)
    requires
        crate::userop::registers(after, before, op, res),
        res is Ok,
    ensures
        op.useropindex >= 0,
        after.op_at(op.useropindex as u32) == Some(std::sync::Arc::new(op)),
{
}

/// Every operation of a list carries the place that it stands at as its index.
pub open spec fn own_indices(list: Seq<Option<std::sync::Arc<UserPcodeOp>>>) -> bool {
    forall|i: int| #![trigger list[i]] 0 <= i < list.len() && list[i] is Some ==> list[i]->0.useropindex == i
}

/// Registering an operation leaves every operation at the place of its index, whether the
/// operation is taken or not.
pub proof fn listed_ops_carry_their_index(after: UserOpManage, before: UserOpManage, op: UserPcodeOp, res: Result<()>)
    requires
        crate::userop::registers(after, before, op, res),
        own_indices(before.useroplist@),
    ensures
        own_indices(after.useroplist@),
{
    let grown = crate::userop::stretched(before.useroplist@, (op.useropindex + 1) as nat);
    assert forall|i: int| #![trigger after.useroplist@[i]]
        0 <= i < after.useroplist@.len() && after.useroplist@[i] is Some implies after.useroplist@[i]->0.useropindex == i by {
        if after.useroplist@ != before.useroplist@ && i < before.useroplist@.len() {
            assert(grown[i] == before.useroplist@[i]);
        }
    }
}

proof fn named_at(list: Seq<Option<std::sync::Arc<UserPcodeOp>>>, nm: Seq<char>, place: int, i: nat)
    requires
        i <= place < list.len(),
        list[place] is Some && list[place]->0.name@ == nm,
        forall|k: int| #![trigger list[k]] i <= k < place ==> !(list[k] is Some && list[k]->0.name@ == nm),
    ensures
        crate::userop::named_from(list, nm, i) == list[place],
    decreases place - i,
{
    if i < place {
        assert(!(list[i as int] is Some && list[i as int]->0.name@ == nm));
        named_at(list, nm, place, i + 1);
    }
}

proof fn named_first(list: Seq<Option<std::sync::Arc<UserPcodeOp>>>, nm: Seq<char>, i: nat) -> (place: int)
    requires
        i <= list.len(),
    ensures
        i <= place <= list.len(),
        forall|k: int| #![trigger list[k]] i <= k < place ==> !(list[k] is Some && list[k]->0.name@ == nm),
        crate::userop::named_from(list, nm, i) is None ==> place == list.len(),
        crate::userop::named_from(list, nm, i) is Some ==> place < list.len() && crate::userop::named_from(list, nm, i)
            == list[place],
    decreases list.len() - i,
{
    if i >= list.len() || (list[i as int] is Some && list[i as int]->0.name@ == nm) {
        i as int
    } else {
        named_first(list, nm, i + 1)
    }
}

/// An operation that has been registered is found under its name.
pub proof fn registered_op_is_found_by_name(after: UserOpManage, before: UserOpManage, op: UserPcodeOp, res: Result<()>)
    requires
        crate::userop::registers(after, before, op, res),
        res is Ok,
        own_indices(before.useroplist@),
    ensures
        crate::userop::named_from(after.useroplist@, op.name@, 0) == Some(std::sync::Arc::new(op)),
{
    let list = before.useroplist@;
    let place = named_first(list, op.name@, 0);
    let ind = op.useropindex as int;
    let now = after.useroplist@;
    assert(now[ind] == Some(std::sync::Arc::new(op)));
    assert forall|k: int| #![trigger now[k]] 0 <= k < ind implies !(now[k] is Some && now[k]->0.name@ == op.name@) by {
        if k < list.len() {
            assert(now[k] == list[k]);
            if place < list.len() {
                assert(list[place]->0.useropindex == place);
            }
        }
    }
    named_at(now, op.name@, ind, 0);
}

/// The values of the named entries at some places, combined.
pub open spec fn made_up(map: NameMap, places: Seq<int>) -> u64
    decreases places.len(),
{
    if places.len() == 0 {
        0
    } else {
        map.entries@[places[0]].value ^ made_up(map, places.skip(1))
    }
}

/// The names of the entries at some places.
pub open spec fn named_by(map: NameMap, places: Seq<int>, names: Seq<String>) -> bool {
    &&& places.len() == names.len()
    &&& forall|i: int|
        0 <= i < places.len() ==> 0 <= #[trigger] places[i] < map.entries@.len() && names[i]
            == map.entries@[places[i]].name
}

proof fn greedy_names_make_up(map: NameMap, bitsleft: u64, target: u64) -> (places: Seq<int>)
    ensures
        named_by(map, places, crate::types::enums::greedy_names(map, bitsleft, target).0),
        made_up(map, places) ^ crate::types::enums::greedy_names(map, bitsleft, target).1 == bitsleft,
    decreases target,
{
    let i = crate::types::enums::last_upto(map, target, map.entries@.len());
    let curval = map.entries@[i].value;
    let diff = crate::types::enums::cover_of(bitsleft ^ curval);
    crate::types::enums::cover_exists(bitsleft ^ curval);
    crate::types::enums::last_upto_fits(map, target, map.entries@.len());
    if target == 0 || i < 0 || diff >= bitsleft {
        assert(0u64 ^ bitsleft == bitsleft) by (bit_vector);
        Seq::empty()
    } else {
        crate::types::enums::taken_out(bitsleft, curval, diff);
        if curval & diff == 0 {
            let rest = greedy_names_make_up(map, bitsleft ^ curval, bitsleft ^ curval);
            let places = seq![i] + rest;
            assert(places.skip(1) =~= rest);
            let m = made_up(map, rest);
            let left = crate::types::enums::greedy_names(map, bitsleft ^ curval, bitsleft ^ curval).1;
            assert((curval ^ m) ^ left == bitsleft) by (bit_vector)
                requires
                    m ^ left == bitsleft ^ curval,
            ;
            places
        } else {
            greedy_names_make_up(map, bitsleft, curval & !diff)
        }
    }
}

/// The names that are found for a value of an enumeration make the value up.
pub proof fn names_make_up_value(map: NameMap, val: u64) -> (places: Seq<int>)
    requires
        crate::types::enums::exact_names(map, val) is Some,
    ensures
        named_by(map, places, crate::types::enums::exact_names(map, val)->0),
        made_up(map, places) == val,
{
    if val == 0 {
        let i = crate::types::enums::last_upto(map, 0, map.entries@.len());
        crate::types::enums::last_upto_fits(map, 0, map.entries@.len());
        assert(seq![i].skip(1) =~= Seq::<int>::empty());
        assert(made_up(map, seq![i].skip(1)) == 0);
        assert(0u64 ^ 0u64 == 0u64) by (bit_vector);
        seq![i]
    } else {
        let places = greedy_names_make_up(map, val, val);
        let m = made_up(map, places);
        assert(m ^ 0u64 == m) by (bit_vector);
        places
    }
}

/// An attribute that says what was written.
pub open spec fn says(attrib: Attribute, token: Written) -> bool {
    match token {
        Written::Bool(id, b) => attrib.id == id && attrib.value.boolean() == Some(b),
        Written::Signed(id, n) => attrib.id == id && attrib.value.signed() == Some(n),
        Written::Unsigned(id, n) => attrib.id == id && attrib.value.unsigned() == Some(n),
        Written::Text(id, text) => attrib.id == id && attrib.value.text() == Some(text),
        Written::Space(id, spc) => attrib.id == id && attrib.value.space() == Some(spc),
        _ => false,
    }
}

/// An element whose attributes are what was written.
pub open spec fn holds_written(elem: Element, tokens: Seq<Written>) -> bool {
    &&& elem.attributes@.len() == tokens.len()
    &&& forall|i: int| 0 <= i < tokens.len() ==> says(#[trigger] elem.attributes@[i], tokens[i])
}

/// Attributes that start with what was written; the rest says nothing of what all data-types
/// have.
pub open spec fn starts_with_written(list: Seq<Attribute>, tokens: Seq<Written>) -> bool {
    &&& list.len() >= tokens.len()
    &&& forall|i: int| 0 <= i < tokens.len() ==> says(#[trigger] list[i], tokens[i])
    &&& forall|i: int| tokens.len() <= i < list.len() ==> is_foreign(#[trigger] list[i])
}

#[verifier::opaque]
spec fn taken(known: Basics, attrib: Attribute) -> Basics {
    crate::types::decode::basics_with(known, attrib)
}

/// What is known once the first attributes are read.
spec fn basics_upto(list: Seq<Attribute>, n: nat, known: Basics) -> Basics
    decreases n,
{
    if n == 0 {
        known
    } else {
        let so_far = basics_upto(list, (n - 1) as nat, known);
        if so_far.fault is Some {
            so_far
        } else {
            taken(so_far, list[n - 1])
        }
    }
}

proof fn basics_either_way(list: Seq<Attribute>, n: nat, known: Basics)
    requires
        n <= list.len(),
    ensures
        crate::types::decode::basics_from(list, n, basics_upto(list, n, known)) == crate::types::decode::basics_from(
            list,
            0,
            known,
        ),
    decreases n,
{
    reveal(taken);
    if n > 0 {
        basics_either_way(list, (n - 1) as nat, known);
    }
}

proof fn takes_text(known: Basics, attrib: Attribute, text: Seq<char>)
    ensures
        says(attrib, Written::Text(ATTRIB_NAME, text)) ==> taken(known, attrib) == (Basics { name: text, ..known }),
        says(attrib, Written::Text(ATTRIB_METATYPE, text)) && crate::types::print::named_meta(text) is Some ==> taken(
            known,
            attrib,
        ) == (Basics { meta: crate::types::print::named_meta(text)->0, ..known }),
        says(attrib, Written::Text(ATTRIB_FORMAT, text)) && crate::types::print::named_format(text) is Some ==> taken(
            known,
            attrib,
        ) == (Basics {
            flags: (known.flags & !Datatype::FORCE_FORMAT) | (crate::types::print::named_format(text)->0 << 12),
            ..known
        }),
{
    reveal(taken);
}

proof fn takes_number(known: Basics, attrib: Attribute, id: u64, n: i32)
    ensures
        says(attrib, Written::Unsigned(ATTRIB_ID, id)) ==> taken(known, attrib) == (Basics { id, ..known }),
        says(attrib, Written::Signed(ATTRIB_SIZE, n as i64)) ==> taken(known, attrib) == (Basics { size: n, ..known }),
        says(attrib, Written::Signed(ATTRIB_ALIGNMENT, n as i64)) ==> taken(known, attrib) == (Basics {
            alignment: n,
            ..known
        }),
{
    reveal(taken);
}

proof fn takes_flag(known: Basics, attrib: Attribute)
    ensures
        says(attrib, Written::Bool(ATTRIB_CORE, true)) ==> taken(known, attrib) == (Basics {
            flags: known.flags | Datatype::CORETYPE,
            ..known
        }),
        says(attrib, Written::Bool(ATTRIB_VARLENGTH, true)) ==> taken(known, attrib) == (Basics {
            flags: known.flags | Datatype::VARIABLE_LENGTH,
            ..known
        }),
        says(attrib, Written::Bool(ATTRIB_OPAQUESTRING, true)) ==> taken(known, attrib) == (Basics {
            flags: known.flags | Datatype::OPAQUE_STRING,
            ..known
        }),
{
    reveal(taken);
}

/// The properties that a document tells of a data-type.
pub open spec fn told_properties() -> u32 {
    Datatype::CORETYPE | Datatype::VARIABLE_LENGTH | Datatype::OPAQUE_STRING | Datatype::FORCE_FORMAT
}

/// An attribute that says nothing of what all data-types have.
pub open spec fn is_foreign(attrib: Attribute) -> bool {
    &&& attrib.id != ATTRIB_NAME
    &&& attrib.id != ATTRIB_SIZE
    &&& attrib.id != ATTRIB_METATYPE
    &&& attrib.id != ATTRIB_CORE
    &&& attrib.id != ATTRIB_ID
    &&& attrib.id != ATTRIB_VARLENGTH
    &&& attrib.id != ATTRIB_ALIGNMENT
    &&& attrib.id != ATTRIB_OPAQUESTRING
    &&& attrib.id != ATTRIB_FORMAT
    &&& attrib.id != ATTRIB_LABEL
    &&& attrib.id != ATTRIB_INCOMPLETE
}

proof fn foreign_tell_nothing(list: Seq<Attribute>, n: nat, m: nat, known: Basics)
    requires
        n <= m <= list.len(),
        forall|i: int| n <= i < m ==> is_foreign(#[trigger] list[i]),
    ensures
        basics_upto(list, m, known) == basics_upto(list, n, known),
    decreases m,
{
    if n < m {
        foreign_tell_nothing(list, n, (m - 1) as nat, known);
        assert(is_foreign(list[m - 1]));
        reveal(taken);
    }
}

/// Attributes that start with what was written of a data-type and go on with what says nothing
/// of it tell what was written.
#[verifier::rlimit(60)]
#[verifier::spinoff_prover]
proof fn basics_read(list: Seq<Attribute>, d: Datatype, bare: Datatype, meta: TypeMetatype, align: i32)
    requires
        crate::types::encode::basic_written(Seq::empty(), d, meta, align).error is None,
        starts_with_written(list, crate::types::encode::basic_written(Seq::empty(), d, meta, align).tokens),
        !(meta is PartialEnum),
        d.size >= 0,
        bare.flags == 0,
    ensures
        ({
            let told = crate::types::decode::basics_from(
                list,
                0,
                Basics { size: -1i32, meta: TypeMetatype::Void, id: 0, ..bare.basics(None) },
            );
            &&& told.fault is None
            &&& told.name == d.name@
            &&& told.size == d.size
            &&& told.meta == meta
            &&& told.id == d.unsized_id()
            &&& told.alignment == if align > 0 {
                align
            } else {
                bare.alignment
            }
            &&& told.flags == d.flags & told_properties()
        }),
{
    let known = Basics { size: -1i32, meta: TypeMetatype::Void, id: 0, ..bare.basics(None) };
    let none: Seq<Written> = Seq::empty();
    let named = none.push(Written::Text(ATTRIB_NAME, d.name@));
    let with_id = crate::types::encode::put_if(
        named,
        d.unsized_id() != 0,
        Written::Unsigned(ATTRIB_ID, d.unsized_id()),
    );
    let sized = with_id.push(Written::Signed(ATTRIB_SIZE, d.size as i64));
    let classed = sized.push(Written::Text(ATTRIB_METATYPE, crate::types::print::meta_name(meta)));
    let aligned = crate::types::encode::put_if(classed, align > 0, Written::Signed(ATTRIB_ALIGNMENT, align as i64));
    let core = crate::types::encode::put_if(aligned, d.flag(Datatype::CORETYPE), Written::Bool(ATTRIB_CORE, true));
    let variable = crate::types::encode::put_if(
        core,
        d.flag(Datatype::VARIABLE_LENGTH),
        Written::Bool(ATTRIB_VARLENGTH, true),
    );
    let opaque_text = crate::types::encode::put_if(
        variable,
        d.flag(Datatype::OPAQUE_STRING),
        Written::Bool(ATTRIB_OPAQUESTRING, true),
    );
    let all = crate::types::encode::basic_written(none, d, meta, align).tokens;
    let format = (d.flags & Datatype::FORCE_FORMAT) >> 12;
    assert(all == if format == 0 {
        opaque_text
    } else {
        opaque_text.push(Written::Text(ATTRIB_FORMAT, crate::types::print::format_name(format)->0))
    });
    assert(forall|i: int| 0 <= i < opaque_text.len() ==> all[i] == opaque_text[i]);
    assert(forall|i: int| 0 <= i < variable.len() ==> opaque_text[i] == variable[i]);
    assert(forall|i: int| 0 <= i < core.len() ==> variable[i] == core[i]);
    assert(forall|i: int| 0 <= i < aligned.len() ==> core[i] == aligned[i]);
    assert(forall|i: int| 0 <= i < classed.len() ==> aligned[i] == classed[i]);
    assert(forall|i: int| 0 <= i < sized.len() ==> classed[i] == sized[i]);
    assert(forall|i: int| 0 <= i < with_id.len() ==> sized[i] == with_id[i]);
    assert(forall|i: int| 0 <= i < named.len() ==> with_id[i] == named[i]);
    crate::types::print::class_names_round_trip(meta);
    if format != 0 {
        crate::types::print::format_names_round_trip(format);
    }
    assert(basics_upto(list, 0, known) == known);
    let k1 = basics_upto(list, named.len(), known);
    assert(says(list[0], all[0]));
    takes_text(known, list[0], d.name@);
    assert(k1 == Basics { name: d.name@, ..known });
    let k2 = basics_upto(list, with_id.len(), known);
    assert(with_id.len() > named.len() ==> says(list[1], all[1]));
    takes_number(k1, list[1], d.unsized_id(), 0);
    assert(k2 == Basics { id: d.unsized_id(), ..k1 });
    let k3 = basics_upto(list, sized.len(), known);
    assert(says(list[with_id.len() as int], all[with_id.len() as int]));
    takes_number(k2, list[with_id.len() as int], 0, d.size);
    assert(k3 == Basics { size: d.size, ..k2 });
    let k4 = basics_upto(list, classed.len(), known);
    assert(says(list[sized.len() as int], all[sized.len() as int]));
    takes_text(k3, list[sized.len() as int], crate::types::print::meta_name(meta));
    assert(k4 == Basics { meta, ..k3 });
    let k5 = basics_upto(list, aligned.len(), known);
    assert(aligned.len() > classed.len() ==> says(list[classed.len() as int], all[classed.len() as int]));
    takes_number(k4, list[classed.len() as int], 0, align);
    assert(k5 == Basics {
        alignment: if align > 0 {
            align
        } else {
            bare.alignment
        },
        ..k4
    });
    let k6 = basics_upto(list, core.len(), known);
    assert(core.len() > aligned.len() ==> says(list[aligned.len() as int], all[aligned.len() as int]));
    let f6 = if d.flag(Datatype::CORETYPE) {
        0u32 | Datatype::CORETYPE
    } else {
        0u32
    };
    takes_flag(k5, list[aligned.len() as int]);
    assert(k6 == Basics { flags: f6, ..k5 });
    let k7 = basics_upto(list, variable.len(), known);
    assert(variable.len() > core.len() ==> says(list[core.len() as int], all[core.len() as int]));
    let f7 = if d.flag(Datatype::VARIABLE_LENGTH) {
        f6 | Datatype::VARIABLE_LENGTH
    } else {
        f6
    };
    takes_flag(k6, list[core.len() as int]);
    assert(k7 == Basics { flags: f7, ..k6 });
    let k8 = basics_upto(list, opaque_text.len(), known);
    assert(opaque_text.len() > variable.len() ==> says(list[variable.len() as int], all[variable.len() as int]));
    let f8 = if d.flag(Datatype::OPAQUE_STRING) {
        f7 | Datatype::OPAQUE_STRING
    } else {
        f7
    };
    takes_flag(k7, list[variable.len() as int]);
    assert(k8 == Basics { flags: f8, ..k7 });
    let k9 = basics_upto(list, all.len(), known);
    assert(all.len() > opaque_text.len() ==> says(list[opaque_text.len() as int], all[opaque_text.len() as int]));
    let f9 = if format != 0 {
        (f8 & !Datatype::FORCE_FORMAT) | (format << 12)
    } else {
        f8
    };
    takes_text(k8, list[opaque_text.len() as int], crate::types::print::format_name(format)->0);
    assert(k9 == Basics { flags: f9, ..k8 });
    foreign_tell_nothing(list, all.len(), list.len(), known);
    basics_either_way(list, list.len(), known);
    let flags = d.flags;
    assert(f9 == flags & (1u32 | 128u32 | 64u32 | 0x7000u32)) by (bit_vector)
        requires
            format == (flags & 0x7000u32) >> 12,
            f6 == (if flags & 1u32 != 0 {
                0u32 | 1u32
            } else {
                0u32
            }),
            f7 == (if flags & 128u32 != 0 {
                f6 | 128u32
            } else {
                f6
            }),
            f8 == (if flags & 64u32 != 0 {
                f7 | 64u32
            } else {
                f7
            }),
            f9 == (if format != 0 {
                (f8 & !0x7000u32) | (format << 12)
            } else {
                f8
            }),
    ;
}

/// What is written of a data-type is what is read of it: its name, its size, its class, its
/// id, its alignment and some of its properties.
pub proof fn basics_read_back(d: Datatype, bare: Datatype, elem: Element, meta: TypeMetatype, align: i32)
    requires
        crate::types::encode::basic_written(Seq::empty(), d, meta, align).error is None,
        starts_with_written(
            elem.attributes@,
            crate::types::encode::basic_written(Seq::empty(), d, meta, align).tokens,
        ),
        !(meta is PartialEnum),
        d.size >= 0,
        bare.flags == 0,
    ensures
        bare.basic_fault(elem) is None,
        bare.told(elem).name == d.name@,
        bare.told(elem).size == d.size,
        bare.told(elem).meta == meta,
        bare.told(elem).id == d.unsized_id(),
        bare.told(elem).alignment == if align > 0 {
            align
        } else {
            bare.alignment
        },
        bare.told(elem).flags == d.flags & told_properties(),
{
    basics_read(elem.attributes@, d, bare, meta, align);
}

/// A data-type that takes what was written of another one has its name, its size, its
/// class and its id.
pub proof fn type_reads_back(d: Datatype, bare: Datatype, read: Datatype, elem: Element, align: i32)
    requires
        crate::types::encode::basic_written(Seq::empty(), d, d.metatype, align).error is None,
        holds_written(elem, crate::types::encode::basic_written(Seq::empty(), d, d.metatype, align).tokens),
        !(d.metatype is PartialEnum),
        d.size >= 0,
        d.unsized_id() != 0,
        bare.flags == 0,
        read.takes_basics(bare, elem),
    ensures
        read.name@ == d.name@,
        read.size == d.size,
        read.metatype == d.metatype,
        read.id == d.id,
        read.flags == d.flags & told_properties(),
{
    basics_read_back(d, bare, elem, d.metatype, align);
    crate::types::read::size_hash_involution(d.id, d.size);
    let flags = d.flags;
    assert(((flags & (1u32 | 128u32 | 64u32 | 0x7000u32)) & 128u32 != 0) == (flags & 128u32 != 0)) by (bit_vector);
}

/// A field that is written is what is read of it.
pub proof fn field_reads_back(field: TypeField, elem: Element)
    requires
        elem.id == ELEM_FIELD,
        holds_written(
            elem,
            crate::types::encode::put_if(
                Seq::<Written>::empty().push(Written::Text(ATTRIB_NAME, field.name@)).push(
                    Written::Signed(ATTRIB_OFFSET, field.offset as i64),
                ),
                field.ident != field.offset,
                Written::Signed(ATTRIB_ID, field.ident as i64),
            ),
        ),
        field.name@.len() > 0,
        field.offset >= 0,
        field.ident >= 0,
    ensures
        crate::types::members::field_fault(elem, false) is None,
        TypeField::fault_in(crate::types::members::field_told(elem, false)) is None,
        forall|read: TypeField| #[trigger]
            read.is_told(crate::types::members::field_told(elem, false), field.tp) ==> read.name@ == field.name@
                && read.offset == field.offset && read.ident == field.ident && read.tp == field.tp,
{
    let list = elem.attributes@;
    let head = Seq::<Written>::empty().push(Written::Text(ATTRIB_NAME, field.name@)).push(
        Written::Signed(ATTRIB_OFFSET, field.offset as i64),
    );
    assert(says(list[0], head[0]));
    assert(says(list[1], head[1]));
    let start = FieldFacts { name: Seq::empty(), offset: -1i32, ident: -1i32, size: -1i32, first: -1i32, fault: None };
    let one = crate::types::members::field_with(start, false, list[0]);
    let two = crate::types::members::field_with(one, false, list[1]);
    assert(crate::types::members::field_facts(list, 0, false, start) == crate::types::members::field_facts(
        list,
        1,
        false,
        one,
    ));
    assert(crate::types::members::field_facts(list, 1, false, one) == crate::types::members::field_facts(
        list,
        2,
        false,
        two,
    ));
    if field.ident != field.offset {
        let whole = head.push(Written::Signed(ATTRIB_ID, field.ident as i64));
        assert(says(list[2], whole[2]));
        let three = crate::types::members::field_with(two, false, list[2]);
        assert(crate::types::members::field_facts(list, 2, false, two) == crate::types::members::field_facts(
            list,
            3,
            false,
            three,
        ));
        assert(crate::types::members::field_facts(list, 3, false, three) == three);
    } else {
        assert(crate::types::members::field_facts(list, 2, false, two) == two);
    }
}

/// A reference that is written to a data-type with an id names that data-type when it is
/// read. A data-type of variable length goes by an id that its size is not part of.
pub proof fn reference_reads_back(d: Datatype, elem: Element)
    requires
        holds_written(
            elem,
            if d.flag(Datatype::VARIABLE_LENGTH) {
                seq![
                    Written::Text(ATTRIB_NAME, d.name@),
                    Written::Unsigned(ATTRIB_ID, crate::types::read::size_hash(d.id, d.size)),
                    Written::Signed(ATTRIB_SIZE, d.size as i64),
                ]
            } else {
                seq![Written::Text(ATTRIB_NAME, d.name@), Written::Unsigned(ATTRIB_ID, d.id)]
            },
        ),
        d.unsized_id() != 0,
        d.flag(Datatype::VARIABLE_LENGTH) ==> d.size > 0,
    ensures
        ({
            let told = crate::types::finish::reference_told(elem);
            &&& told.fault is None
            &&& told.name == d.name@
            &&& d.id == if told.size > 0 {
                crate::types::read::size_hash(told.id, told.size)
            } else {
                told.id
            }
        }),
{
    let list = elem.attributes@;
    let start = crate::types::finish::NameFacts { id: 0, size: -1i32, name: Seq::empty(), format: 0, fault: None };
    let one = crate::types::finish::reference_with(start, list[0]);
    let two = crate::types::finish::reference_with(one, list[1]);
    assert(says(list[0], Written::Text(ATTRIB_NAME, d.name@)));
    assert(says(list[1], Written::Unsigned(ATTRIB_ID, d.unsized_id())));
    assert(crate::types::finish::reference_from(list, 0, start) == crate::types::finish::reference_from(list, 1, one));
    assert(crate::types::finish::reference_from(list, 1, one) == crate::types::finish::reference_from(list, 2, two));
    crate::types::read::size_hash_involution(d.id, d.size);
    if d.flag(Datatype::VARIABLE_LENGTH) {
        assert(says(list[2], Written::Signed(ATTRIB_SIZE, d.size as i64)));
        let three = crate::types::finish::reference_with(two, list[2]);
        assert(crate::types::finish::reference_from(list, 2, two) == crate::types::finish::reference_from(
            list,
            3,
            three,
        ));
        assert(crate::types::finish::reference_from(list, 3, three) == three);
    } else {
        assert(crate::types::finish::reference_from(list, 2, two) == two);
    }
    assert(elem.attribute(ATTRIB_NAME) == Some(list[0].value));
}

/// Fields that are to be laid out: none has a place yet, their alignments are powers of
/// two and no offset gets out of range.
pub open spec fn can_be_laid_out(fields: Seq<TypeField>, types: TypeFactory) -> bool {
    &&& forall|k: int|
        0 <= k < fields.len() ==> (#[trigger] fields[k]).offset == -1 && types.dt(fields[k].tp).align_size >= 0
            && is_power(types.dt(fields[k].tp).alignment)
    &&& forall|n: nat|
        n < fields.len() ==> (#[trigger] Layout::upto(fields, Seq::empty(), types, n)).offset + types.dt(
            fields[n as int].tp,
        ).alignment + types.dt(fields[n as int].tp).align_size <= i32::MAX
}

pub open spec fn is_power(n: i32) -> bool {
    exists|power: nat| power < 31 && n == #[trigger] vstd::arithmetic::power2::pow2(power)
}

proof fn first_fields_apart(fields: Seq<TypeField>, types: TypeFactory, n: nat)
    requires
        can_be_laid_out(fields, types),
        n <= fields.len(),
    ensures
        ({
            let l = Layout::upto(fields, Seq::empty(), types, n);
            &&& l.offset >= 0
            &&& l.bits.len() == 0
            &&& l.bit_place == -1
            &&& l.fields.len() == fields.len()
            &&& forall|k: int| n <= k < fields.len() ==> #[trigger] l.fields[k] == fields[k]
            &&& forall|k: int|
                0 <= k < n ==> (#[trigger] l.fields[k]).tp == fields[k].tp && 0 <= l.fields[k].offset && l.fields[k].offset
                    + types.dt(fields[k].tp).align_size <= l.offset && l.fields[k].offset as int % types.dt(
                    fields[k].tp,
                ).alignment as int == 0
            &&& forall|i: int, j: int|
                0 <= i < j < n ==> (#[trigger] l.fields[i]).offset + types.dt(fields[i].tp).align_size <= (
                #[trigger] l.fields[j]).offset
        }),
    decreases n,
{
    if n > 0 {
        first_fields_apart(fields, types, (n - 1) as nat);
        let before = Layout::upto(fields, Seq::empty(), types, (n - 1) as nat);
        let field = fields[n - 1];
        assert(before.fields[n - 1] == field);
        let d = types.dt(field.tp);
        let power = choose|power: nat| power < 31 && d.alignment == #[trigger] vstd::arithmetic::power2::pow2(power);
        assert(is_power(d.alignment));
        crate::types::layout::raised_is_aligned(before.offset, d.alignment, power);
        vstd::arithmetic::power2::lemma_pow2_pos(power);
        crate::types::read::aligned_is_multiple(before.offset as int, d.alignment as int);
    }
}

/// Fields that are laid out do not overlap, stand in their order and start at multiples of
/// their alignments.
pub proof fn fields_do_not_overlap(fields: Seq<TypeField>, types: TypeFactory, i: int, j: int)
    requires
        can_be_laid_out(fields, types),
        0 <= i < j < fields.len(),
    ensures
        ({
            let laid = Layout::complete(fields, Seq::empty(), types).fields;
            &&& laid[i].offset + types.dt(laid[i].tp).align_size <= laid[j].offset
            &&& laid[j].offset as int % types.dt(laid[j].tp).alignment as int == 0
        }),
{
    first_fields_apart(fields, types, fields.len());
    let l = Layout::upto(fields, Seq::empty(), types, fields.len());
    assert(l.fields[i].tp == fields[i].tp);
    assert(l.fields[j].tp == fields[j].tp);
}

/// Exchanging two names turns their order around.
pub proof fn name_order_turns(a: Seq<char>, b: Seq<char>)
    ensures
        crate::types::compare::name_order(a, b) == -crate::types::compare::name_order(b, a),
{
    let x = vstd::utf8::encode_utf8(a);
    let y = vstd::utf8::encode_utf8(b);
    crate::text::bytes_order_antisymmetric(x, y);
    crate::text::bytes_order_zero(x, y);
    vstd::utf8::encode_utf8_decode_utf8(a);
    vstd::utf8::encode_utf8_decode_utf8(b);
}

proof fn fields_dependency_turns(a: Seq<TypeField>, b: Seq<TypeField>, i: int)
    requires
        a.len() == b.len(),
    ensures
        crate::types::compare::fields_dependency(a, b, i) == -crate::types::compare::fields_dependency(b, a, i),
    decreases a.len() - i,
{
    if 0 <= i < a.len() {
        name_order_turns(a[i].name@, b[i].name@);
        fields_dependency_turns(a, b, i + 1);
    }
}

proof fn bits_dependency_turns(a: Seq<TypeBitField>, b: Seq<TypeBitField>, i: int)
    requires
        a.len() == b.len(),
    ensures
        crate::types::compare::bits_dependency(a, b, i) == -crate::types::compare::bits_dependency(b, a, i),
    decreases a.len() - i,
{
    if 0 <= i < a.len() {
        name_order_turns(a[i].name@, b[i].name@);
        bits_dependency_turns(a, b, i + 1);
    }
}

proof fn union_dependency_turns(a: Seq<TypeField>, b: Seq<TypeField>, i: int)
    requires
        a.len() == b.len(),
    ensures
        crate::types::compare::union_dependency(a, b, i) == -crate::types::compare::union_dependency(b, a, i),
    decreases a.len() - i,
{
    if 0 <= i < a.len() {
        name_order_turns(a[i].name@, b[i].name@);
        union_dependency_turns(a, b, i + 1);
    }
}

proof fn params_dependency_turns(a: Seq<TypeId>, b: Seq<TypeId>, i: int)
    requires
        a.len() == b.len(),
    ensures
        crate::types::compare::params_dependency(a, b, i) == -crate::types::compare::params_dependency(b, a, i),
    decreases a.len() - i,
{
    if 0 <= i < a.len() {
        params_dependency_turns(a, b, i + 1);
    }
}

proof fn names_order_turns(a: NameMap, b: NameMap, i: int)
    requires
        a.entries@.len() == b.entries@.len(),
    ensures
        crate::types::compare::names_order(a, b, i) == -crate::types::compare::names_order(b, a, i),
    decreases a.entries@.len() - i,
{
    if 0 <= i < a.entries@.len() {
        name_order_turns(a.entries@[i].name@, b.entries@[i].name@);
        names_order_turns(a, b, i + 1);
    }
}

/// Two data-types of one kind, with sizes and numbers of fields that can be compared.
pub open spec fn comparable(a: Datatype, b: Datatype) -> bool {
    &&& a.size >= 0 && b.size >= 0
    &&& match (a.kind, b.kind) {
        (TypeKind::Struct(x), TypeKind::Struct(y)) => x.field@.len() <= i32::MAX && y.field@.len() <= i32::MAX
            && x.bitfield@.len() <= i32::MAX && y.bitfield@.len() <= i32::MAX,
        (TypeKind::Union(x), TypeKind::Union(y)) => x.field@.len() <= i32::MAX && y.field@.len() <= i32::MAX,
        (TypeKind::Pointer(_), TypeKind::Pointer(_)) => true,
        (TypeKind::PointerRel(_), TypeKind::PointerRel(_)) => true,
        (TypeKind::Array(_), TypeKind::Array(_)) => true,
        (TypeKind::Enum(_), TypeKind::Enum(_)) => true,
        (TypeKind::PartialEnum(_), TypeKind::PartialEnum(_)) => true,
        (TypeKind::PartialStruct(_), TypeKind::PartialStruct(_)) => true,
        (TypeKind::PartialUnion(_), TypeKind::PartialUnion(_)) => true,
        (TypeKind::Code(_), TypeKind::Code(_)) => true,
        (TypeKind::Spacebase(_), TypeKind::Spacebase(_)) => true,
        (TypeKind::Base, TypeKind::Base) => true,
        (TypeKind::Char, TypeKind::Char) => true,
        (TypeKind::Unicode, TypeKind::Unicode) => true,
        (TypeKind::Void, TypeKind::Void) => true,
        _ => false,
    }
}

/// Exchanging two data-types of one kind turns the order of the factory around.
#[verifier::rlimit(40)]
pub proof fn factory_order_turns(a: Datatype, b: Datatype)
    requires
        comparable(a, b),
    ensures
        crate::types::compare::factory_order(a, b) == -crate::types::compare::factory_order(b, a),
{
    match (a.kind, b.kind) {
        (TypeKind::Struct(x), TypeKind::Struct(y)) => {
            if x.field@.len() == y.field@.len() {
                fields_dependency_turns(x.field@, y.field@, 0);
            }
            if x.bitfield@.len() == y.bitfield@.len() {
                bits_dependency_turns(x.bitfield@, y.bitfield@, 0);
            }
        },
        (TypeKind::Union(x), TypeKind::Union(y)) => {
            if x.field@.len() == y.field@.len() {
                union_dependency_turns(x.field@, y.field@, 0);
            }
        },
        (TypeKind::Enum(x), TypeKind::Enum(y)) => {
            if x.namemap.entries@.len() == y.namemap.entries@.len() {
                names_order_turns(x.namemap, y.namemap, 0);
            }
        },
        (TypeKind::Code(x), TypeKind::Code(y)) => {
            if x.signature is Some && y.signature is Some {
                let p = x.signature->0;
                let q = y.signature->0;
                if p.model_name is Some && q.model_name is Some {
                    name_order_turns(p.model_name->0@, q.model_name->0@);
                }
                if p.params@.len() == q.params@.len() {
                    params_dependency_turns(p.params@, q.params@, 0);
                }
            }
        },
        _ => {},
    }
}

} // verus!

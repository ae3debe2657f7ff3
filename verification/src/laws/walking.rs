//! What is found inside data-types and variables.
use vstd::prelude::*;
use crate::architecture::Architecture;
use crate::funcdata::Funcdata;
use crate::ids::{HighId, TypeId, VarnodeId};
use crate::types::{Datatype, TypeFactory, TypeField};
use crate::variable::{HighVariable, PieceEntry, VariablePiece};
use crate::varnode::Varnode;

verus! {

proof fn holder_holds(fields: Seq<TypeField>, off: int, types: TypeFactory, n: nat)
    requires
        n <= fields.len(),
    ensures
        ({
            let i = crate::types::fields::holder(fields, off, types, n);
            &&& -1 <= i < n
            &&& i >= 0 ==> fields[i].offset <= off < fields[i].offset + types.dt(fields[i].tp).size
        }),
    decreases n,
{
    if n > 0 {
        holder_holds(fields, off, types, (n - 1) as nat);
    }
}

/// A step into a structure leads to a field that holds the byte, and counts on from its start.
pub proof fn step_into_structure_finds_the_byte(d: Datatype, off: i64, types: TypeFactory, sub: TypeId)
    requires
        types.walkable(),
        types.rests(d),
        d.kind is Struct,
        0 <= off <= i32::MAX,
        crate::types::inside::step_into(d, off, off, types, None).0 == Some(sub),
    ensures
        exists|i: int| 0 <= i < d.fields().len() && {
            let field = #[trigger] d.fields()[i];
            &&& field.tp == sub
            &&& field.offset <= off < field.offset + types.dt(sub).size
            &&& crate::types::inside::step_into(d, off, off, types, None).1 == off - field.offset
        },
{
    let fields = d.fields();
    holder_holds(fields, off as int, types, fields.len());
    let i = crate::types::fields::field_holding(fields, (off as i32) as int, types);
    assert(off as i32 == off);
    assert(fields[i].tp == sub);
    assert(off.wrapping_sub(fields[i].offset as i64) == off - fields[i].offset);
}

/// A step into an array leads to its elements, to the byte that the offset has in one of them.
pub proof fn step_into_array_finds_the_element(d: Datatype, off: i64, types: TypeFactory)
    requires
        types.walkable(),
        types.rests(d),
        d.kind is Array,
        d.kind->Array_0.arrayof is Some,
        0 <= off < d.size,
        types.dt(d.kind->Array_0.arrayof->0).align_size >= 1,
    ensures
        ({
            let (sub, inner) = crate::types::inside::step_into(d, off, off, types, None);
            let el = types.dt(d.kind->Array_0.arrayof->0).align_size;
            &&& sub == d.kind->Array_0.arrayof
            &&& 0 <= inner < el
            &&& exists|index: int| index >= 0 && off == #[trigger] (index * el) + inner
        }),
{
    let el = types.dt(d.kind->Array_0.arrayof->0).align_size as int;
    let inner = off as int % el;
    let index = off as int / el;
    vstd::arithmetic::div_mod::lemma_fundamental_div_mod(off as int, el);
    vstd::arithmetic::div_mod::lemma_div_pos_is_pos(off as int, el);
    vstd::arithmetic::mul::lemma_mul_is_commutative(el, index);
    assert(off == index * el + inner);
}

/// A step past the end of an array leads nowhere.
pub proof fn no_element_past_the_end(d: Datatype, off: i64, types: TypeFactory)
    requires
        types.walkable(),
        types.rests(d),
        d.kind is Array,
        off >= d.size,
    ensures
        crate::types::inside::step_into(d, off, off, types, None).0 is None,
{
}

/// What is found of a data-type from its start on has no more bytes than were asked for.
pub proof fn found_within_fits(cur: TypeId, size: i32, glb: Architecture, found: TypeId)
    requires
        glb.workable(),
        glb.types.member(cur),
        crate::unionresolve::fit::first_within(cur, size, glb) == Some(found),
    ensures
        glb.types.dt(found).size <= size,
        glb.types.dt(cur).size <= size ==> found == cur,
    decreases glb.types.above(glb.types.dt(cur)), glb.types.depth_of(glb.types.dt(cur)),
{
    let d = glb.types.dt(cur);
    if d.size > size {
        let next = crate::types::inside::step_into(d, 0, 0, glb.types, Some(&glb)).0->0;
        found_within_fits(next, size, glb, found);
    }
}

/// Two pieces of a group have a byte in common.
pub open spec fn have_byte_in_common(data: Funcdata, a: HighId, b: HighId) -> bool {
    let x = data.variable(a).piece->0;
    let y = data.variable(b).piece->0;
    exists|byte: int| #[trigger] has_byte(x, byte) && has_byte(y, byte)
}

/// A byte of a group belongs to a piece.
pub open spec fn has_byte(piece: VariablePiece, byte: int) -> bool {
    piece.group_offset <= byte < piece.group_offset + piece.size
}

proof fn common_byte(data: Funcdata, a: HighId, b: HighId)
    requires
        data.variable(a).piece->0.size >= 1,
        data.variable(b).piece->0.size >= 1,
    ensures
        have_byte_in_common(data, a, b) == ({
            let x = data.variable(a).piece->0;
            let y = data.variable(b).piece->0;
            x.group_offset + x.size > y.group_offset && x.group_offset < y.group_offset + y.size
        }),
{
    let x = data.variable(a).piece->0;
    let y = data.variable(b).piece->0;
    let byte = if x.group_offset <= y.group_offset {
        y.group_offset as int
    } else {
        x.group_offset as int
    };
    assert(has_byte(x, byte) == (x.group_offset <= byte < x.group_offset + x.size));
}

/// The pieces that are found to share storage with a piece are just those other pieces of its
/// group that have a byte in common with it.
pub proof fn sharing_means_a_common_byte(data: Funcdata, list: Seq<PieceEntry>, high: HighId, n: nat, other: HighId)
    requires
        n <= list.len(),
        data.variable(high).piece->0.size >= 1,
        forall|k: int| 0 <= k < list.len() ==> data.variable((#[trigger] list[k]).high).piece->0.size >= 1,
    ensures
        data.sharing(list, high, n).contains(other) == (other != high && have_byte_in_common(data, high, other) && exists|
            k: int,
        |
            0 <= k < n && (#[trigger] list[k]).high == other),
    decreases n,
{
    if n > 0 {
        sharing_means_a_common_byte(data, list, high, (n - 1) as nat, other);
        let rest = data.sharing(list, high, (n - 1) as nat);
        let all = data.sharing(list, high, n);
        let last = list[n - 1].high;
        common_byte(data, high, last);
        if all.len() > rest.len() {
            assert(all[rest.len() as int] == last);
            if rest.contains(other) {
                let k = choose|k: int| 0 <= k < rest.len() && rest[k] == other;
                assert(all[k] == other);
            }
            if all.contains(other) && other != last {
                let k = choose|k: int| 0 <= k < all.len() && all[k] == other;
                assert(rest[k] == other);
            }
        }
    }
}

/// What makes one varnode a better one to name a variable by than another: a locked name before all
/// else, then that it keeps its value over calls, that it persists, that it is an input, that it is
/// tied to its storage; at the end, that it is written, and written earlier.
pub proof fn better_names(data: Funcdata, a: VarnodeId, b: VarnodeId)
    ensures
        data.names_better(a, b) ==> !data.names_better(b, a),
        data.value(a).flag(Varnode::NAMELOCK) ==> !data.names_better(a, b),
        !data.value(a).flag(Varnode::NAMELOCK) && data.value(b).flag(Varnode::NAMELOCK) ==> data.names_better(a, b),
        ({
            let x = data.value(a);
            let y = data.value(b);
            let unlocked = !x.flag(Varnode::NAMELOCK) && !y.flag(Varnode::NAMELOCK);
            let unaffected = x.flag(Varnode::UNAFFECTED) == y.flag(Varnode::UNAFFECTED);
            let persist = x.flag(Varnode::PERSIST) == y.flag(Varnode::PERSIST);
            let input = x.flag(Varnode::INPUT) == y.flag(Varnode::INPUT);
            let tied = x.flag(Varnode::ADDRTIED) == y.flag(Varnode::ADDRTIED);
            let partial = x.flag(Varnode::PROTO_PARTIAL) == y.flag(Varnode::PROTO_PARTIAL);
            let placed = data.internal(a) == data.internal(b);
            &&& unlocked && !unaffected ==> data.names_better(a, b) == y.flag(Varnode::UNAFFECTED)
            &&& unlocked && unaffected && !persist ==> data.names_better(a, b) == y.flag(Varnode::PERSIST)
            &&& unlocked && unaffected && persist && !input ==> data.names_better(a, b) == y.flag(Varnode::INPUT)
            &&& unlocked && unaffected && persist && input && !tied ==> data.names_better(a, b) == y.flag(Varnode::ADDRTIED)
            &&& unlocked && unaffected && persist && input && tied && partial && !placed ==> data.names_better(a, b)
                == !data.internal(b)
            &&& unlocked && unaffected && persist && input && tied && partial && placed && y.flag(Varnode::WRITTEN)
                && !x.flag(Varnode::WRITTEN) ==> data.names_better(a, b)
            &&& unlocked && unaffected && persist && input && tied && partial && placed && x.flag(Varnode::WRITTEN)
                && y.flag(Varnode::WRITTEN) ==> data.names_better(a, b) == (data.written_at(b) < data.written_at(a))
        }),
{
}

proof fn better_than_better(data: Funcdata, a: VarnodeId, b: VarnodeId, c: VarnodeId)
    requires
        !data.names_better(a, b),
        data.names_better(a, c),
    ensures
        !data.names_better(c, b),
{
}

/// The varnode that names a variable is one of its varnodes, and no other one is better.
pub proof fn the_best_names_a_variable(data: Funcdata, high: HighVariable, n: nat)
    requires
        1 <= n <= high.inst@.len(),
    ensures
        exists|i: int| 0 <= i < n && #[trigger] high.inst@[i] == data.name_leader(high, n),
        forall|i: int| 0 <= i < n ==> !data.names_better(data.name_leader(high, n), #[trigger] high.inst@[i]),
    decreases n,
{
    if n == 1 {
        better_names(data, high.inst@[0], high.inst@[0]);
        assert(high.inst@[0] == data.name_leader(high, n));
    } else {
        the_best_names_a_variable(data, high, (n - 1) as nat);
        let rep = data.name_leader(high, (n - 1) as nat);
        let last = high.inst@[n - 1];
        let now = data.name_leader(high, n);
        assert forall|i: int| 0 <= i < n implies !data.names_better(now, #[trigger] high.inst@[i]) by {
            if i == n - 1 {
                better_names(data, last, last);
            } else if data.names_better(rep, last) {
                better_than_better(data, rep, high.inst@[i], last);
            }
        }
        if data.names_better(rep, last) {
            assert(high.inst@[n - 1] == now);
        } else {
            let i = choose|i: int| 0 <= i < n - 1 && #[trigger] high.inst@[i] == rep;
            assert(high.inst@[i] == now);
        }
    }
}

/// The varnode that settles the data-type of a variable is one of its varnodes, and one whose
/// data-type is locked if there is any.
pub proof fn a_locked_type_settles(data: Funcdata, high: HighVariable, glb: Architecture, n: nat)
    requires
        1 <= n <= high.inst@.len(),
    ensures
        exists|i: int| 0 <= i < n && #[trigger] high.inst@[i] == data.type_leader(high, glb, n),
        forall|i: int| 0 <= i < n && data.value(#[trigger] high.inst@[i]).flag(Varnode::TYPELOCK) ==> data.value(
            data.type_leader(high, glb, n),
        ).flag(Varnode::TYPELOCK),
    decreases n,
{
    if n == 1 {
        assert(high.inst@[0] == data.type_leader(high, glb, n));
    } else {
        a_locked_type_settles(data, high, glb, (n - 1) as nat);
        let rep = data.type_leader(high, glb, (n - 1) as nat);
        let last = high.inst@[n - 1];
        let now = data.type_leader(high, glb, n);
        if data.leads_type(last, rep, glb) {
            assert(high.inst@[n - 1] == now);
        } else {
            let i = choose|i: int| 0 <= i < n - 1 && #[trigger] high.inst@[i] == rep;
            assert(high.inst@[i] == now);
        }
    }
}

/// Of two varnodes that are both locked or both not, the one of the more specific class settles the
/// data-type; truth values and parts of unions give way.
pub proof fn the_more_specific_type_settles(data: Funcdata, vn: VarnodeId, rep: VarnodeId, glb: Architecture)
    requires
        data.value(vn).flag(Varnode::TYPELOCK) == data.value(rep).flag(Varnode::TYPELOCK),
        data.value(vn).tp != data.value(rep).tp,
    ensures
        ({
            let a = glb.types.dt(data.value(vn).tp);
            let b = glb.types.dt(data.value(rep).tp);
            let plain = !(a.metatype is Bool || a.metatype is PartialUnion || b.metatype is Bool || b.metatype
                is PartialUnion);
            &&& plain && a.submeta.rank() < b.submeta.rank() ==> data.leads_type(vn, rep, glb)
            &&& plain && a.submeta.rank() > b.submeta.rank() ==> !data.leads_type(vn, rep, glb)
            &&& a.metatype is Bool && !(b.metatype is PartialUnion) ==> !data.leads_type(vn, rep, glb)
            &&& b.metatype is Bool && !(a.metatype is Bool) && !(a.metatype is PartialUnion) ==> data.leads_type(
                vn,
                rep,
                glb,
            )
        }),
{
    let a = glb.types.dt(data.value(vn).tp);
    let b = glb.types.dt(data.value(rep).tp);
    if a.submeta.rank() != b.submeta.rank() {
        crate::laws::ordering::finer_class_comes_first(a, b, 10, glb.types);
    }
}

} // verus!

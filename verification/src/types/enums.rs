//! The values of enumerations and their names.
use vstd::prelude::*;
use crate::address::{calc_mask, coveringmask};
use crate::error::{Error, Result};
use crate::types::names::NameMap;
use crate::types::{Datatype, EnumRepresentation, TypeFactory, TypeKind};

verus! {

/// A value moved up by the bytes that a part of an enumeration starts after. The
/// distance counts modulo the width of the value.
pub open spec fn moved_up(val: u64, offset: i32) -> u64 {
    val << (offset.wrapping_mul(8) as u32 % 64)
}

fn move_up(val: u64, offset: i32) -> (res: u64)
    ensures
        res == moved_up(val, offset),
{
    val << (offset.wrapping_mul(8) as u32 % 64)
}

/// Whether a value has a name in an enumeration or in what it is a part of.
pub open spec fn has_name(d: Datatype, val: u64, types: TypeFactory) -> bool
    decreases types.chain_of(d),
    when types.sound() && types.valid(d)
{
    proof {
        types.parts(d);
    }
    match d.kind {
        TypeKind::PartialEnum(data) => has_name(types.dt(data.parent), moved_up(val, data.offset), types),
        _ => d.names().named(val),
    }
}

/// The smallest run of one bits that covers a value.
pub open spec fn cover_of(val: u64) -> u64 {
    choose|m: u64| crate::address::covers(m, val)
}

/// Every value has a cover.
pub proof fn cover_exists(val: u64)
    ensures
        crate::address::covers(cover_of(val), val),
{
    let a: u64 = val | (val >> 1);
    let b: u64 = a | (a >> 2);
    let c: u64 = b | (b >> 4);
    let d: u64 = c | (c >> 8);
    let e: u64 = d | (d >> 16);
    let f: u64 = e | (e >> 32);
    assert(f & ((f + 1) as u64) == 0 && f >= val && (val == 0 ==> f == 0) && (val > 0 ==> f / 2
        < val)) by (bit_vector)
        requires
            a == val | (val >> 1),
            b == a | (a >> 2),
            c == b | (b >> 4),
            d == c | (c >> 8),
            e == d | (d >> 16),
            f == e | (e >> 32),
    ;
    assert(crate::address::covers(f, val));
}

/// Taking a value out of the bits that are left leaves less than the value.
pub proof fn taken_out(bitsleft: u64, curval: u64, diff: u64)
    requires
        crate::address::covers(diff, bitsleft ^ curval),
        diff < bitsleft,
    ensures
        curval & diff == 0 ==> (bitsleft ^ curval) < curval,
        curval & diff != 0 ==> (curval & !diff) < curval,
{
    assert(curval & diff == 0 ==> (bitsleft ^ curval) < curval) by (bit_vector)
        requires
            diff & ((diff + 1) as u64) == 0,
            diff >= (bitsleft ^ curval),
            diff < bitsleft,
    ;
    assert(curval & diff != 0 ==> (curval & !diff) < curval) by (bit_vector);
}

/// The last of the first `n` entries whose value is not greater than the given one, or -1.
pub open spec fn last_upto(map: NameMap, value: u64, n: nat) -> int
    decreases n,
{
    if n == 0 {
        -1
    } else if map.entries@[n - 1].value <= value {
        n - 1
    } else {
        last_upto(map, value, (n - 1) as nat)
    }
}

pub proof fn last_upto_fits(map: NameMap, value: u64, n: nat)
    requires
        n <= map.entries@.len(),
    ensures
        -1 <= last_upto(map, value, n) < n,
        last_upto(map, value, n) >= 0 ==> map.entries@[last_upto(map, value, n)].value <= value,
    decreases n,
{
    if n > 0 {
        last_upto_fits(map, value, (n - 1) as nat);
    }
}

proof fn last_upto_is_count(map: NameMap, value: u64, count: int, n: nat)
    requires
        map.count_upto(value, count),
        count <= n <= map.entries@.len(),
    ensures
        last_upto(map, value, n) == count - 1,
    decreases n,
{
    if n > count {
        last_upto_is_count(map, value, count, (n - 1) as nat);
    }
}

/// The names whose values make up a value, taken greedily from the most
/// significant bit down, and the bits that no name covers.
pub open spec fn greedy_names(map: NameMap, bitsleft: u64, target: u64) -> (Seq<String>, u64)
    decreases target,
{
    let i = last_upto(map, target, map.entries@.len());
    let curval = map.entries@[i].value;
    let diff = cover_of(bitsleft ^ curval);
    proof {
        cover_exists(bitsleft ^ curval);
        last_upto_fits(map, target, map.entries@.len());
        if diff < bitsleft {
            taken_out(bitsleft, curval, diff);
        }
    }
    if target == 0 || i < 0 || diff >= bitsleft {
        (Seq::empty(), bitsleft)
    } else if curval & diff == 0 {
        let (names, rest) = greedy_names(map, bitsleft ^ curval, bitsleft ^ curval);
        (seq![map.entries@[i].name] + names, rest)
    } else {
        greedy_names(map, bitsleft, curval & !diff)
    }
}

/// The names that make up a value exactly, if there are any.
pub open spec fn exact_names(map: NameMap, val: u64) -> Option<Seq<String>> {
    if val == 0 {
        let i = last_upto(map, 0, map.entries@.len());
        if i >= 0 {
            Some(seq![map.entries@[i].name])
        } else {
            None
        }
    } else {
        let (names, rest) = greedy_names(map, val, val);
        if rest == 0 {
            Some(names)
        } else {
            None
        }
    }
}

/// Every name that is taken covers bits: as long as there are names, less is left.
pub proof fn greedy_takes_bits(map: NameMap, bitsleft: u64, target: u64)
    ensures
        greedy_names(map, bitsleft, target).0.len() == 0 ==> greedy_names(map, bitsleft, target).1 == bitsleft,
        greedy_names(map, bitsleft, target).0.len() > 0 ==> greedy_names(map, bitsleft, target).1 < bitsleft,
    decreases target,
{
    let i = last_upto(map, target, map.entries@.len());
    let curval = map.entries@[i].value;
    let diff = cover_of(bitsleft ^ curval);
    cover_exists(bitsleft ^ curval);
    last_upto_fits(map, target, map.entries@.len());
    if !(target == 0 || i < 0 || diff >= bitsleft) {
        taken_out(bitsleft, curval, diff);
        if curval & diff == 0 {
            greedy_takes_bits(map, bitsleft ^ curval, bitsleft ^ curval);
        } else {
            greedy_takes_bits(map, bitsleft, curval & !diff);
        }
    }
}


/// How a value is written with the names of an enumeration. Names that were
/// there before stay in front, unless only the complement can be written.
pub open spec fn writing(d: Datatype, val: u64, before: EnumRepresentation, after: EnumRepresentation, types: TypeFactory) -> bool
    decreases types.chain_of(d),
    when types.sound() && types.valid(d)
{
    proof {
        types.parts(d);
    }
    match d.kind {
        TypeKind::PartialEnum(data) => writing(
            types.dt(data.parent),
            moved_up(val, data.offset),
            EnumRepresentation { shift_amount: data.offset.wrapping_mul(8), ..before },
            after,
            types,
        ),
        _ => {
            let whole = val ^ crate::address::mask_of(d.size as int);
            &&& after.shift_amount == before.shift_amount
            &&& match (exact_names(d.names(), val), exact_names(d.names(), whole)) {
                (Some(names), _) => after.matchname@ == before.matchname@ + names && !after.complement,
                (None, Some(names)) => after.matchname@ == names && after.complement,
                (None, None) => after.matchname@ == Seq::<String>::empty() && after.complement == before.complement,
            }
        },
    }
}

impl Datatype {
    /// Whether a value has a name.
    pub fn has_named_value(&self, val: u64, types: &TypeFactory) -> (res: bool)
        requires
            types.sound(),
            types.valid(*self),
            self.has_names(),
        ensures
            res == has_name(*self, val, *types),
        decreases types.chain_of(*self),
    {
        proof {
            types.parts(*self);
        }
        match &self.kind {
            TypeKind::PartialEnum(data) => {
                let moved: u64 = move_up(val, data.offset);
                types.get(data.parent).has_named_value(moved, types)
            },
            _ => self.get_enum_map().contains(val),
        }
    }

    /// Collects the names whose values make up a value. Whether all of it is made up is returned.
    fn collect_names(namemap: &NameMap, val: u64, names: &mut Vec<String>) -> (allmatch: bool)
        requires
            namemap.sorted(),
        ensures
            match exact_names(*namemap, val) {
                Some(found) => allmatch && final(names)@ == old(names)@ + found,
                None => !allmatch,
            },
    {
        if val == 0 {
            let n: usize = namemap.upper_bound(0);
            proof {
                last_upto_is_count(*namemap, 0, n as int, namemap.entries@.len());
            }
            if n > 0 {
                names.push(namemap.entries[n - 1].name.clone());
                assert(names@ =~= old(names)@ + seq![namemap.entries@[n - 1].name]);
                return true;
            }
            return false;
        }
        let mut bitsleft: u64 = val;
        let mut target: u64 = val;
        let ghost mut taken: Seq<String> = Seq::empty();
        while target != 0
            invariant
                namemap.sorted(),
                names@ == old(names)@ + taken,
                greedy_names(*namemap, val, val).0 == taken + greedy_names(*namemap, bitsleft, target).0,
                greedy_names(*namemap, val, val).1 == greedy_names(*namemap, bitsleft, target).1,
                target == 0 ==> greedy_names(*namemap, bitsleft, target).0.len() == 0,
            ensures
                names@ == old(names)@ + taken,
                greedy_names(*namemap, val, val).0 == taken,
                greedy_names(*namemap, val, val).1 == bitsleft,
            decreases target,
        {
            let n: usize = namemap.upper_bound(target);
            proof {
                last_upto_is_count(*namemap, target, n as int, namemap.entries@.len());
            }
            if n == 0 {
                assert(taken + Seq::<String>::empty() =~= taken);
                break;
            }
            let curval: u64 = namemap.entries[n - 1].value;
            let diff: u64 = coveringmask(bitsleft ^ curval);
            proof {
                cover_exists(bitsleft ^ curval);
                crate::address::covering_is_unique(bitsleft ^ curval, diff, cover_of(bitsleft ^ curval));
            }
            if diff >= bitsleft {
                assert(taken + Seq::<String>::empty() =~= taken);
                break;
            }
            proof {
                taken_out(bitsleft, curval, diff);
            }
            if (curval & diff) == 0 {
                let ghost name = namemap.entries@[n - 1].name;
                let ghost rest = greedy_names(*namemap, bitsleft ^ curval, bitsleft ^ curval).0;
                proof {
                    assert(taken + (seq![name] + rest) =~= (taken + seq![name]) + rest);
                    assert((old(names)@ + taken).push(name) =~= old(names)@ + (taken + seq![name]));
                    taken = taken + seq![name];
                }
                names.push(namemap.entries[n - 1].name.clone());
                bitsleft = bitsleft ^ curval;
                target = bitsleft;
            } else {
                target = curval & !diff;
            }
            proof {
                if target == 0 {
                    assert(taken + Seq::<String>::empty() =~= taken);
                }
            }
        }
        proof {
            assert(taken + Seq::<String>::empty() =~= taken);
        }
        bitsleft == 0
    }

    /// Writes a value with the names of the enumeration.
    pub fn get_matches(&self, val: u64, rep: &mut EnumRepresentation, types: &TypeFactory)
        requires
            types.sound(),
            types.valid(*self),
            self.has_names(),
        ensures
            writing(*self, val, *old(rep), *final(rep), *types),
        decreases types.chain_of(*self),
    {
        proof {
            types.parts(*self);
        }
        if let TypeKind::PartialEnum(data) = &self.kind {
            let moved: u64 = move_up(val, data.offset);
            rep.shift_amount = data.offset.wrapping_mul(8);
            types.get(data.parent).get_matches(moved, rep, types);
            return;
        }
        let namemap = self.get_enum_map();
        if Datatype::collect_names(namemap, val, &mut rep.matchname) {
            rep.complement = false;
            return;
        }
        let whole: u64 = val ^ calc_mask(self.size);
        rep.matchname.clear();
        if Datatype::collect_names(namemap, whole, &mut rep.matchname) {
            rep.complement = true;
            proof {
                let found = exact_names(*namemap, whole)->0;
                assert(Seq::<String>::empty() + found =~= found);
            }
            return;
        }
        rep.matchname.clear();
    }
}

/// The names by value.
pub open spec fn table(map: NameMap) -> Map<u64, Seq<char>> {
    Map::new(|v: u64| map.named(v), |v: u64| map.name_of(v)@)
}

/// Naming a value adds it to the table.
proof fn insertion_adds(before: NameMap, after: NameMap, value: u64, name: Seq<char>)
    requires
        before.sorted(),
        after.inserted(before, value, name),
        !before.named(value),
    ensures
        table(after) == table(before).insert(value, name),
{
    let n = choose|n: int|
        0 <= n <= before.entries@.len() && after.entries@.len() > n && (#[trigger] after.entries@[n]).value == value
            && after.entries@[n].name@ == name && after.entries@.remove(n) == before.entries@;
    let grown = table(before).insert(value, name);
    assert forall|v: u64| table(after).dom().contains(v) implies #[trigger] table(after)[v] == grown[v] by {
        assert(after.named(v));
        let i = choose|i: int| 0 <= i < after.entries@.len() && (#[trigger] after.entries@[i]).value == v;
        if v == value {
            after.position_is_unique(i, n);
        } else {
            let k = choose|k: int| 0 <= k < before.entries@.len() && (#[trigger] before.entries@[k]).value == v;
            let j = if i < n { i } else { i - 1 };
            assert(i != n);
            assert(after.entries@.remove(n)[j] == after.entries@[i]);
            assert(before.entries@[j].value == v);
            before.position_is_unique(j, k);
        }
    }
    assert(table(after) =~= grown);
}

/// A table with fewer names than values leaves a value free.
proof fn some_value_is_free(map: NameMap, mask: u64)
    requires
        map.sorted(),
        map.entries@.len() <= mask,
    ensures
        exists|v: u64| v <= mask && !(#[trigger] table(map).dom().contains(v)),
{
    if forall|v: u64| v <= mask ==> #[trigger] table(map).dom().contains(v) {
        filled_up(map, mask, map.entries@.len());
        assert(table(map).dom().contains(map.entries@.len() as u64));
        let m = map.entries@.len() as u64;
        assert(map.named(m));
        let i = choose|i: int| 0 <= i < map.entries@.len() && (#[trigger] map.entries@[i]).value == m;
        assert(map.entries@[i].value == i);
        assert(false);
    }
}

proof fn filled_up(map: NameMap, mask: u64, n: nat)
    requires
        map.sorted(),
        n <= map.entries@.len() <= mask,
        forall|v: u64| v <= mask ==> #[trigger] table(map).dom().contains(v),
    ensures
        forall|k: int| 0 <= k < n ==> (#[trigger] map.entries@[k]).value == k,
    decreases n,
{
    if n > 0 {
        filled_up(map, mask, (n - 1) as nat);
        let k = (n - 1) as u64;
        assert(table(map).dom().contains(k));
        assert(map.named(k));
        let i = choose|i: int| 0 <= i < map.entries@.len() && (#[trigger] map.entries@[i]).value == k;
        if i < n - 1 {
            assert(map.entries@[i].value == i);
        }
        if i > n - 1 {
            assert(map.entries@[n - 1].value < map.entries@[i].value);
            if n > 1 {
                assert(map.entries@[n - 2].value == n - 2);
                assert(map.entries@[n - 2].value < map.entries@[n - 1].value);
            }
        }
    }
}

/// How far it is from a number to a free value.
pub open spec fn distance(names: Map<u64, Seq<char>>, from: u64, mask: u64) -> u64 {
    let v = choose|v: u64| v <= mask && !(#[trigger] names.dom().contains(v));
    ((v - from - 1) as u64) & mask
}

pub open spec fn leaves_free(names: Map<u64, Seq<char>>, mask: u64) -> bool {
    exists|v: u64| v <= mask && !(#[trigger] names.dom().contains(v))
}

pub proof fn distance_shrinks(names: Map<u64, Seq<char>>, from: u64, mask: u64)
    requires
        leaves_free(names, mask),
        mask & ((mask + 1) as u64) == 0,
        names.dom().contains(from.wrapping_add(1) & mask),
    ensures
        distance(names, from.wrapping_add(1), mask) < distance(names, from, mask),
{
    let v = choose|v: u64| v <= mask && !(#[trigger] names.dom().contains(v));
    let next = from.wrapping_add(1);
    assert(next == (from + 1) as u64) by {
        if from == u64::MAX {
            assert((from + 1) as u64 == 0) by (bit_vector)
                requires
                    from == 0xffff_ffff_ffff_ffffu64,
            ;
        }
    }
    assert(next & mask != v);
    assert((((v - next - 1) as u64) & mask) < (((v - from - 1) as u64) & mask)) by (bit_vector)
        requires
            next == (from + 1) as u64,
            mask & ((mask + 1) as u64) == 0,
            v <= mask,
            next & mask != v,
    ;
}

/// The first number after the given one that stands for a free value.
pub open spec fn next_free(names: Map<u64, Seq<char>>, from: u64, mask: u64) -> u64
    decreases distance(names, from, mask),
    when leaves_free(names, mask) && mask & ((mask + 1) as u64) == 0
{
    proof {
        if names.dom().contains(from.wrapping_add(1) & mask) {
            crate::types::enums::distance_shrinks(names, from, mask);
        }
    }
    let next = from.wrapping_add(1);
    if names.dom().contains(next & mask) {
        next_free(names, next, mask)
    } else {
        next
    }
}

/// The table after those of the first `n` names whose values are given have
/// been added, unless a value comes twice.
pub open spec fn given(
    names: Map<u64, Seq<char>>,
    list: Seq<String>,
    vals: Seq<u64>,
    assigned: Seq<bool>,
    mask: u64,
    n: nat,
) -> Option<Map<u64, Seq<char>>>
    decreases n,
{
    if n == 0 {
        Some(names)
    } else {
        match given(names, list, vals, assigned, mask, (n - 1) as nat) {
            None => None,
            Some(t) => if !assigned[n - 1] {
                Some(t)
            } else if t.dom().contains(vals[n - 1] & mask) {
                None
            } else {
                Some(t.insert(vals[n - 1] & mask, list[n - 1]@))
            },
        }
    }
}

/// The greatest of the first `n` values that are given.
pub open spec fn greatest_given(vals: Seq<u64>, assigned: Seq<bool>, n: nat) -> u64
    decreases n,
{
    if n == 0 {
        0
    } else {
        let rest = greatest_given(vals, assigned, (n - 1) as nat);
        if assigned[n - 1] && vals[n - 1] > rest {
            vals[n - 1]
        } else {
            rest
        }
    }
}

/// The table, and the number counted up to, after those of the first `n` names
/// whose values are not given have got the next free values.
pub open spec fn counted(
    names: Map<u64, Seq<char>>,
    maxval: u64,
    list: Seq<String>,
    assigned: Seq<bool>,
    mask: u64,
    n: nat,
) -> (Map<u64, Seq<char>>, u64)
    decreases n,
{
    if n == 0 {
        (names, maxval)
    } else {
        let (t, m) = counted(names, maxval, list, assigned, mask, (n - 1) as nat);
        if assigned[n - 1] {
            (t, m)
        } else {
            let next = next_free(t, m, mask);
            (t.insert(next & mask, list[n - 1]@), next)
        }
    }
}

/// The message about a value that comes twice.
pub open spec fn duplicate_message(te: Seq<char>, name: Seq<char>) -> Seq<char> {
    "Enum \""@ + te + "\": \""@ + name + "\" is a duplicate value"@
}

/// Masks are runs of one bits.
proof fn mask_is_run(size: int)
    ensures
        crate::address::mask_of(size) & ((crate::address::mask_of(size) + 1) as u64) == 0,
{
    let m = crate::address::mask_of(size);
    assert(m & ((m + 1) as u64) == 0) by (bit_vector)
        requires
            m == 0 || m == 0xff || m == 0xffff || m == 0xff_ffff || m == 0xffff_ffff || m == 0xff_ffff_ffff || m
                == 0xffff_ffff_ffff || m == 0xff_ffff_ffff_ffff || m == 0xffff_ffff_ffff_ffff,
    ;
}

impl Datatype {
    /// Gives the names of an enumeration their values: first those that are
    /// given, then, counting up from the greatest of them, the free ones.
    pub fn assign_values(
        nmap: &mut NameMap,
        namelist: &[String],
        vallist: &[u64],
        assignlist: &[bool],
        te: &Datatype,
    ) -> (res: Result<()>)
        requires
            old(nmap).sorted(),
            vallist@.len() == namelist@.len(),
            assignlist@.len() == namelist@.len(),
            given(
                table(*old(nmap)),
                namelist@,
                vallist@,
                assignlist@,
                crate::address::mask_of(te.size as int),
                namelist@.len(),
            ) is Some && (exists|k: int| 0 <= k < namelist@.len() && !(#[trigger] assignlist@[k])) ==> old(
                nmap,
            ).entries@.len() + namelist@.len() <= crate::address::mask_of(te.size as int) + 1,
        ensures
            final(nmap).sorted(),
            ({
                let mask = crate::address::mask_of(te.size as int);
                let n = namelist@.len();
                match given(table(*old(nmap)), namelist@, vallist@, assignlist@, mask, n) {
                    Some(t) => res is Ok && table(*final(nmap)) == counted(
                        t,
                        greatest_given(vallist@, assignlist@, n),
                        namelist@,
                        assignlist@,
                        mask,
                        n,
                    ).0,
                    None => exists|k: int|
                        0 <= k < n && assignlist@[k] && #[trigger] given(
                            table(*old(nmap)),
                            namelist@,
                            vallist@,
                            assignlist@,
                            mask,
                            k as nat,
                        ) == Some(table(*final(nmap))) && table(*final(nmap)).dom().contains(vallist@[k] & mask) && (
                        res matches Err(e) && e.is_lowlevel(duplicate_message(te.name@, namelist@[k]@))),
                }
            }),
    {
        let mask: u64 = calc_mask(te.get_size());
        let mut maxval: u64 = 0;
        let ghost start = table(*nmap);
        let ghost len0 = nmap.entries@.len();
        let mut index: usize = 0;
        let ghost mut added: nat = 0;
        while index < namelist.len()
            invariant
                start == table(*old(nmap)),
                vallist@.len() == namelist@.len(),
                assignlist@.len() == namelist@.len(),
                mask == crate::address::mask_of(te.size as int),
                index <= namelist@.len(),
                nmap.sorted(),
                nmap.entries@.len() == len0 + added,
                added + open_count(assignlist@, index as nat) == index,
                maxval == greatest_given(vallist@, assignlist@, index as nat),
                given(start, namelist@, vallist@, assignlist@, mask, index as nat) == Some(table(*nmap)),
            decreases namelist@.len() - index,
        {
            if assignlist[index] {
                let val: u64 = vallist[index];
                if val > maxval {
                    maxval = val;
                }
                let masked: u64 = val & mask;
                if nmap.contains(masked) {
                    let mut text = String::new();
                    text.push_str("Enum \"");
                    text.push_str(te.name.as_str());
                    text.push_str("\": \"");
                    text.push_str(namelist[index].as_str());
                    text.push_str("\" is a duplicate value");
                    assert(text@ =~= duplicate_message(te.name@, namelist@[index as int]@));
                    proof {
                        given_stays_none(
                            start,
                            namelist@,
                            vallist@,
                            assignlist@,
                            mask,
                            (index + 1) as nat,
                            namelist@.len(),
                        );
                        assert(table(*nmap).dom().contains(vallist@[index as int] & mask));
                    }
                    return Err(Error::Lowlevel(text));
                }
                let ghost before = *nmap;
                nmap.insert(masked, namelist[index].clone());
                proof {
                    insertion_adds(before, *nmap, masked, namelist@[index as int]@);
                    added = added + 1;
                }
            }
            index = index + 1;
        }
        let ghost middle = table(*nmap);
        let ghost len1 = nmap.entries@.len();
        let ghost maxval1 = maxval;
        let mut second: usize = 0;
        proof {
            mask_is_run(te.size as int);
        }
        while second < namelist.len()
            invariant
                start == table(*old(nmap)),
                given(start, namelist@, vallist@, assignlist@, mask, namelist@.len()) == Some(middle),
                maxval1 == greatest_given(vallist@, assignlist@, namelist@.len()),
                assignlist@.len() == namelist@.len(),
                mask == crate::address::mask_of(te.size as int),
                mask & ((mask + 1) as u64) == 0,
                second <= namelist@.len(),
                nmap.sorted(),
                (exists|k: int| 0 <= k < namelist@.len() && !(#[trigger] assignlist@[k])) ==> len1 + open_count(
                    assignlist@,
                    namelist@.len(),
                ) <= mask + 1,
                nmap.entries@.len() == len1 + open_count(assignlist@, second as nat),
                (table(*nmap), maxval) == counted(middle, maxval1, namelist@, assignlist@, mask, second as nat),
            decreases namelist@.len() - second,
        {
            if !assignlist[second] {
                proof {
                    open_count_grows(assignlist@, (second + 1) as nat, namelist@.len());
                    some_value_is_free(*nmap, mask);
                }
                let ghost m = maxval;
                let ghost mut from = m;
                maxval = maxval.wrapping_add(1);
                while nmap.contains(maxval & mask)
                    invariant
                        nmap.sorted(),
                        leaves_free(table(*nmap), mask),
                        mask & ((mask + 1) as u64) == 0,
                        maxval == from.wrapping_add(1),
                        next_free(table(*nmap), from, mask) == next_free(table(*nmap), m, mask),
                    decreases distance(table(*nmap), from, mask),
                {
                    proof {
                        assert(table(*nmap).dom().contains(maxval & mask));
                        distance_shrinks(table(*nmap), from, mask);
                        from = maxval;
                    }
                    maxval = maxval.wrapping_add(1);
                }
                let ghost before = *nmap;
                assert(!table(before).dom().contains(maxval & mask));
                assert(maxval == next_free(table(before), m, mask));
                nmap.insert(maxval & mask, namelist[second].clone());
                proof {
                    insertion_adds(before, *nmap, maxval & mask, namelist@[second as int]@);
                }
            }
            second = second + 1;
        }
        Ok(())
    }
}

/// The number of the first `n` names whose values are not given.
spec fn open_count(assigned: Seq<bool>, n: nat) -> nat
    decreases n,
{
    if n == 0 {
        0
    } else {
        open_count(assigned, (n - 1) as nat) + if assigned[n - 1] {
            0nat
        } else {
            1nat
        }
    }
}

proof fn open_count_grows(assigned: Seq<bool>, n: nat, m: nat)
    requires
        n <= m,
    ensures
        open_count(assigned, n) <= open_count(assigned, m),
    decreases m - n,
{
    if n < m {
        open_count_grows(assigned, n, (m - 1) as nat);
    }
}

proof fn given_stays_none(
    names: Map<u64, Seq<char>>,
    list: Seq<String>,
    vals: Seq<u64>,
    assigned: Seq<bool>,
    mask: u64,
    k: nat,
    n: nat,
)
    requires
        k <= n,
        given(names, list, vals, assigned, mask, k) is None,
    ensures
        given(names, list, vals, assigned, mask, n) is None,
    decreases n,
{
    if k < n {
        given_stays_none(names, list, vals, assigned, mask, k, (n - 1) as nat);
    }
}

} // verus!

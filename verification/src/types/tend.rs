//! Keeping the tables of the factory in step with the data-types.
use vstd::prelude::*;
use crate::error::{Error, Result};
use crate::ids::TypeId;
use crate::space::SpaceRef;
use crate::types::{Datatype, SubMetatype, TypeFactory, TypeKind, TypeMetatype};

verus! {

impl TypeFactory {
    /// The tree after a data-type has been taken out, if it is found in its place.
    pub open spec fn tree_without(self, before: TypeFactory, ct: TypeId) -> bool {
        let d = before.dt(ct);
        let p = before.place(d, 0) as int;
        &&& self == (TypeFactory { tree: self.tree, ..before })
        &&& self.tree@ == if before.holds(d) && before.tree@[p] == ct {
            before.tree@.remove(p)
        } else {
            before.tree@
        }
    }

    /// The tree after a data-type has been put in its place, unless one that the
    /// order does not tell from it is there.
    pub open spec fn tree_having(self, before: TypeFactory, ct: TypeId) -> bool {
        let d = before.dt(ct);
        &&& self == (TypeFactory { tree: self.tree, ..before })
        &&& self.tree@ == if before.holds(d) {
            before.tree@
        } else {
            before.tree@.insert(before.place(d, 0) as int, ct)
        }
    }

    pub fn tree_erase(&mut self, ct: TypeId)
        requires
            old(self).sound(),
            old(self).has(ct),
        ensures
            final(self).tree_without(*old(self), ct),
            final(self).sound(),
            old(self).tidy() ==> final(self).tidy(),
    {
        let ghost before = *self;
        if let Ok(pos) = self.tree_find(self.get(ct)) {
            if self.tree[pos] == ct {
                self.tree.remove(pos);
            }
        }
        proof {
            let p = before.place(before.dt(ct), 0) as int;
            before.place_inside(before.dt(ct), 0);
            assert forall|i: int| #![trigger self.tree@[i]] 0 <= i < self.tree@.len() implies self.has(
                self.tree@[i],
            ) by {
                if self.tree@.len() < before.tree@.len() {
                    let j = if i < p { i } else { i + 1 };
                    assert(self.tree@[i] == before.tree@[j]);
                    before.tree_names_members(j);
                } else {
                    before.tree_names_members(i);
                }
            }
            names_stay(before, *self);
            same_types_are_sound(before, *self);
        }
    }

    pub fn tree_insert(&mut self, ct: TypeId) -> (res: bool)
        requires
            old(self).sound(),
            old(self).has(ct),
        ensures
            res == !old(self).holds(old(self).dt(ct)),
            final(self).tree_having(*old(self), ct),
            final(self).sound(),
            old(self).tidy() ==> final(self).tidy(),
    {
        let ghost before = *self;
        proof {
            before.place_inside(before.dt(ct), 0);
        }
        match self.tree_find(self.get(ct)) {
            Ok(_) => {
                proof {
                    assert(self.tree_having(before, ct));
                }
                false
            },
            Err(pos) => {
                self.tree.insert(pos, ct);
                proof {
                    let p = pos as int;
                    assert forall|i: int| #![trigger self.tree@[i]] 0 <= i < self.tree@.len() implies self.has(
                        self.tree@[i],
                    ) by {
                        if i < p {
                            assert(self.tree@[i] == before.tree@[i]);
                            before.tree_names_members(i);
                        } else if i > p {
                            assert(self.tree@[i] == before.tree@[i - 1]);
                            before.tree_names_members(i - 1);
                        }
                    }
                    names_stay(before, *self);
                    same_types_are_sound(before, *self);
                }
                true
            },
        }
    }
}

/// The same index by name names the same data-types.
proof fn names_stay(before: TypeFactory, after: TypeFactory)
    requires
        before.sound(),
        after.nametree == before.nametree,
        after.arena == before.arena,
    ensures
        forall|i: int| #![trigger after.nametree@[i]]
            0 <= i < after.nametree@.len() ==> after.has(after.nametree@[i].tp),
{
    assert forall|i: int| #![trigger after.nametree@[i]] 0 <= i < after.nametree@.len() implies after.has(
        after.nametree@[i].tp,
    ) by {
        before.names_name_members(i);
    }
}

/// The same data-types with another index are sound.
pub proof fn same_types_are_sound(before: TypeFactory, after: TypeFactory)
    requires
        before.sound(),
        after.extends(before),
        after.arena == before.arena,
        after.depth == before.depth,
        after.firmness == before.firmness,
        forall|i: int| #![trigger after.tree@[i]] 0 <= i < after.tree@.len() ==> after.has(after.tree@[i]),
        forall|i: int| #![trigger after.nametree@[i]]
            0 <= i < after.nametree@.len() ==> after.has(after.nametree@[i].tp),
    ensures
        after.sound(),
        before.tidy() ==> after.tidy(),
{
    reveal(TypeFactory::sound);
    crate::types::grow::stays_indexed(before, after);
    assert forall|x: TypeId| #![trigger after.dt(x)] after.has(x) implies {
        &&& after.valid(after.dt(x))
        &&& after.firm() ==> after.firm_kind(after.dt(x)) && after.depth_of(after.dt(x)) <= after.depth@[x]
            && after.reserve_of(after.dt(x)) <= after.depth@[x]
        &&& after.chain_of(after.dt(x)) <= x.0
    } by {
        assert(before.has(x));
        before.look(x);
        crate::types::grow::stays_valid(before, after, before.dt(x));
    }
    if before.tidy() {
        reveal(TypeFactory::tidy);
        assert forall|x: TypeId| #![trigger after.dt(x)] after.has(x) implies after.tidy_type(after.dt(x)) by {
            assert(before.has(x));
            let d = before.dt(x);
        }
    }
}

impl Default for TypeFactory {
    fn default() -> (res: TypeFactory)
        ensures
            res.ready(),
            res.firm(),
            res.arena@.len() == 0,
            res.tree@.len() == 0,
            res.nametree@.len() == 0,
            res.no_caches(),
            res.warnings@.len() == 0,
            res.incomplete_typedef@.len() == 0,
            res.align_map@.len() == 0,
            res.size_of_int == 0,
            res.size_of_long == 0,
            res.size_of_char == 0,
            res.size_of_wchar == 0,
            res.size_of_pointer == 0,
            res.size_of_alt_pointer == 0,
            res.enumsize == 0,
            res.enumtype is EnumUint,
            res.default_data_space is None,
            res.max_basetype_size == 0,
    {
        TypeFactory::new()
    }
}

impl TypeFactory {
    /// A factory without data-types and with no sizes set.
    pub fn new() -> (res: TypeFactory)
        ensures
            res.ready(),
            res.firm(),
            res.arena@.len() == 0,
            res.tree@.len() == 0,
            res.nametree@.len() == 0,
            res.no_caches(),
            res.warnings@.len() == 0,
            res.incomplete_typedef@.len() == 0,
            res.align_map@.len() == 0,
            res.size_of_int == 0,
            res.size_of_long == 0,
            res.size_of_char == 0,
            res.size_of_wchar == 0,
            res.size_of_pointer == 0,
            res.size_of_alt_pointer == 0,
            res.enumsize == 0,
            res.enumtype is EnumUint,
            res.default_data_space is None,
            res.max_basetype_size == 0,
    {
        let res = TypeFactory {
            size_of_int: 0,
            size_of_long: 0,
            size_of_char: 0,
            size_of_wchar: 0,
            size_of_pointer: 0,
            size_of_alt_pointer: 0,
            enumsize: 0,
            enumtype: TypeMetatype::EnumUint,
            align_map: Vec::new(),
            arena: Vec::new(),
            tree: Vec::new(),
            nametree: Vec::new(),
            typecache: empty_slots(72),
            typecache10: None,
            typecache16: None,
            type_nochar: None,
            charcache: empty_slots(5),
            warnings: Vec::new(),
            incomplete_typedef: Vec::new(),
            default_data_space: None,
            max_basetype_size: 0,
            depth: Ghost(Map::empty()),
            firmness: Ghost(true),
        };
        proof {
            nothing_is_sound(res);
        }
        res
    }

    /// Nothing is cached.
    pub open spec fn no_caches(self) -> bool {
        &&& self.typecache@ == Seq::new(72, |i: int| None::<TypeId>)
        &&& self.typecache10 is None
        &&& self.typecache16 is None
        &&& self.type_nochar is None
        &&& self.charcache@ == Seq::new(5, |i: int| None::<TypeId>)
    }

    /// Forgets the cached data-types.
    pub fn clear_cache(&mut self)
        requires
            old(self).sound(),
        ensures
            final(self).no_caches(),
            *final(self) == (TypeFactory {
                typecache: final(self).typecache,
                typecache10: None,
                typecache16: None,
                type_nochar: None,
                charcache: final(self).charcache,
                ..*old(self)
            }),
            final(self).sound(),
            old(self).tidy() ==> final(self).tidy(),
    {
        let ghost before = *self;
        self.typecache = empty_slots(72);
        self.typecache10 = None;
        self.typecache16 = None;
        self.type_nochar = None;
        self.charcache = empty_slots(5);
        proof {
            uncached_is_sound(before, *self);
        }
    }

    /// Forgets all data-types. The settings stay.
    pub fn clear(&mut self)
        ensures
            final(self).arena@.len() == 0,
            final(self).tree@.len() == 0,
            final(self).nametree@.len() == 0,
            final(self).no_caches(),
            final(self).warnings@.len() == 0,
            final(self).incomplete_typedef@.len() == 0,
            final(self).same_settings(*old(self)),
            final(self).sound(),
            final(self).firm(),
            old(self).tidy() ==> final(self).tidy(),
    {
        let ghost before = *self;
        self.firmness = Ghost(true);
        self.arena.clear();
        self.tree.clear();
        self.nametree.clear();
        self.typecache = empty_slots(72);
        self.typecache10 = None;
        self.typecache16 = None;
        self.type_nochar = None;
        self.charcache = empty_slots(5);
        self.warnings.clear();
        self.incomplete_typedef.clear();
        proof {
            nothing_is_sound(*self);
            if before.tidy() {
                reveal(TypeFactory::tidy);
            }
        }
    }

    pub fn set_arch_properties(&mut self, default_data_space: Option<SpaceRef>, max_basetype_size: i32)
        requires
            max_basetype_size >= 0,
        ensures
            *final(self) == (TypeFactory { default_data_space, max_basetype_size, ..*old(self) }),
            old(self).sound() ==> final(self).sound(),
            old(self).tidy() ==> final(self).tidy(),
    {
        let ghost before = *self;
        self.default_data_space = default_data_space;
        self.max_basetype_size = max_basetype_size;
        proof {
            if before.sound() {
                resettled_is_sound(before, *self);
            }
            if before.tidy() {
                reveal(TypeFactory::tidy);
                assert forall|x: TypeId| #![trigger self.dt(x)] self.has(x) implies self.tidy_type(self.dt(x)) by {
                    assert(before.has(x));
                    let d = before.dt(x);
                }
            }
        }
    }

    /// The data-types in the order of the factory.
    pub fn tree_ids(&self) -> (res: &[TypeId])
        ensures
            res@ == self.tree@,
    {
        self.tree.as_slice()
    }

    pub fn get_size_of_int(&self) -> (res: i32)
        ensures
            res == self.size_of_int,
    {
        self.size_of_int
    }

    pub fn get_size_of_long(&self) -> (res: i32)
        ensures
            res == self.size_of_long,
    {
        self.size_of_long
    }

    pub fn get_size_of_char(&self) -> (res: i32)
        ensures
            res == self.size_of_char,
    {
        self.size_of_char
    }

    pub fn get_size_of_wchar(&self) -> (res: i32)
        ensures
            res == self.size_of_wchar,
    {
        self.size_of_wchar
    }

    pub fn get_size_of_pointer(&self) -> (res: i32)
        ensures
            res == self.size_of_pointer,
    {
        self.size_of_pointer
    }

    pub fn get_size_of_alt_pointer(&self) -> (res: i32)
        ensures
            res == self.size_of_alt_pointer,
    {
        self.size_of_alt_pointer
    }

    /// The alignments that hold if a program does not give any: those of values
    /// that are aligned to the greatest power of two they hold, up to eight.
    pub fn set_default_alignment_map(&mut self)
        ensures
            *final(self) == (TypeFactory { align_map: final(self).align_map, ..*old(self) }),
            final(self).align_map@ == seq![1i32, 1, 2, 2, 4, 4, 4, 4, 8],
            old(self).sound() ==> final(self).sound(),
            old(self).tidy() ==> final(self).tidy(),
    {
        let ghost before = *self;
        let mut map: Vec<i32> = Vec::new();
        map.push(1);
        map.push(1);
        map.push(2);
        map.push(2);
        map.push(4);
        map.push(4);
        map.push(4);
        map.push(4);
        map.push(8);
        assert(map@ =~= seq![1i32, 1, 2, 2, 4, 4, 4, 4, 8]);
        self.align_map = map;
        proof {
            if before.sound() {
                resettled_is_sound(before, *self);
            }
            if before.tidy() {
                reveal(TypeFactory::tidy);
                assert forall|x: TypeId| #![trigger self.dt(x)] self.has(x) implies self.tidy_type(self.dt(x)) by {
                    assert(before.has(x));
                    let d = before.dt(x);
                }
            }
        }
    }
}

/// A list of slots that are empty.
fn empty_slots(n: usize) -> (res: Vec<Option<TypeId>>)
    ensures
        res@ == Seq::new(n as nat, |i: int| None::<TypeId>),
{
    let mut res: Vec<Option<TypeId>> = Vec::new();
    let mut i: usize = 0;
    while i < n
        invariant
            i <= n,
            res@ == Seq::new(i as nat, |k: int| None::<TypeId>),
        decreases n - i,
    {
        res.push(None);
        i = i + 1;
        assert(res@ =~= Seq::new(i as nat, |k: int| None::<TypeId>));
    }
    res
}

/// A factory without data-types is sound.
proof fn nothing_is_sound(types: TypeFactory)
    requires
        types.arena@.len() == 0,
        types.tree@.len() == 0,
        types.nametree@.len() == 0,
        types.no_caches(),
    ensures
        types.sound(),
        types.align_map@.len() == 0 && types.max_basetype_size >= 0 ==> types.tidy(),
{
    reveal(TypeFactory::sound);
    reveal(TypeFactory::indexed);
    reveal(TypeFactory::tidy);
    assert forall|size: int, meta: TypeMetatype| #![trigger types.cached(size, meta)]
        0 <= size < 9 && meta.rank() >= 10 implies types.cached(size, meta) is None by {
        crate::types::metatype_rank_injective(meta, meta);
    }
}

/// A sound factory without its caches is sound.
proof fn uncached_is_sound(before: TypeFactory, after: TypeFactory)
    requires
        before.sound(),
        after.no_caches(),
        after == (TypeFactory {
            typecache: after.typecache,
            typecache10: None,
            typecache16: None,
            type_nochar: None,
            charcache: after.charcache,
            ..before
        }),
    ensures
        after.sound(),
        before.tidy() ==> after.tidy(),
{
    reveal(TypeFactory::sound);
    reveal(TypeFactory::indexed);
    assert forall|size: int, meta: TypeMetatype| #![trigger after.cached(size, meta)]
        0 <= size < 9 && meta.rank() >= 10 implies after.cached(size, meta) is None by {
        crate::types::metatype_rank_injective(meta, meta);
    }
    assert forall|i: int| #![trigger after.tree@[i]] 0 <= i < after.tree@.len() implies after.has(after.tree@[i]) by {
        assert(before.has(before.tree@[i]));
    }
    assert forall|i: int| #![trigger after.nametree@[i]] 0 <= i < after.nametree@.len() implies after.has(
        after.nametree@[i].tp,
    ) by {
        assert(before.has(before.nametree@[i].tp));
    }
    assert(after.indexed());
    assert forall|x: TypeId| #![trigger after.dt(x)] after.has(x) implies {
        &&& after.valid(after.dt(x))
        &&& after.firm() ==> after.firm_kind(after.dt(x)) && after.depth_of(after.dt(x)) <= after.depth@[x]
            && after.reserve_of(after.dt(x)) <= after.depth@[x]
        &&& after.chain_of(after.dt(x)) <= x.0
    } by {
        assert(before.has(x));
        before.look(x);
        same_arena_valid(before, after, before.dt(x));
    }
    if before.tidy() {
        reveal(TypeFactory::tidy);
        assert forall|x: TypeId| #![trigger after.dt(x)] after.has(x) implies after.tidy_type(after.dt(x)) by {
            assert(before.has(x));
            let d = before.dt(x);
        }
    }
}

/// Validity only looks at the data-types.
pub proof fn same_arena_valid(before: TypeFactory, after: TypeFactory, d: Datatype)
    requires
        after.arena == before.arena,
        after.depth == before.depth,
        before.valid(d),
    ensures
        after.valid(d),
        before.firm_kind(d) ==> after.firm_kind(d),
        after.depth_of(d) == before.depth_of(d),
        after.reserve_of(d) == before.reserve_of(d),
        after.chain_of(d) == before.chain_of(d),
{
    reveal(TypeFactory::kind_valid);
    reveal(TypeFactory::firm_kind);
    assert forall|id: TypeId| #[trigger] after.has(id) == before.has(id) && after.dt(id) == before.dt(id) by {}
    match d.kind {
        TypeKind::Struct(data) => {
            assert forall|i: int| #![trigger data.field@[i]] 0 <= i < data.field@.len() implies after.has(
                data.field@[i].tp,
            ) by {
                assert(before.has(data.field@[i].tp));
            }
        },
        TypeKind::Union(data) => {
            assert forall|i: int| #![trigger data.field@[i]] 0 <= i < data.field@.len() implies after.has(
                data.field@[i].tp,
            ) by {
                assert(before.has(data.field@[i].tp));
            }
        },
        _ => {},
    }
}

/// Other settings leave a factory sound.
proof fn resettled_is_sound(before: TypeFactory, after: TypeFactory)
    requires
        before.sound(),
        after.arena == before.arena,
        after.depth == before.depth,
        after.firmness == before.firmness,
        after.tree == before.tree,
        after.nametree == before.nametree,
        after.same_notes(before),
    ensures
        after.sound(),
{
    reveal(TypeFactory::sound);
    reveal(TypeFactory::indexed);
    assert forall|size: int, meta: TypeMetatype| #![trigger after.cached(size, meta)]
        0 <= size < 9 && meta.rank() >= 10 && after.cached(size, meta) is Some implies {
        &&& after.has(after.cached(size, meta)->0)
        &&& after.dt(after.cached(size, meta)->0).size == size
        &&& after.dt(after.cached(size, meta)->0).metatype == meta
    } by {
        assert(before.cached(size, meta) == after.cached(size, meta));
    }
    assert forall|i: int| #![trigger after.tree@[i]] 0 <= i < after.tree@.len() implies after.has(after.tree@[i]) by {
        assert(before.has(before.tree@[i]));
    }
    assert forall|i: int| #![trigger after.nametree@[i]] 0 <= i < after.nametree@.len() implies after.has(
        after.nametree@[i].tp,
    ) by {
        assert(before.has(before.nametree@[i].tp));
    }
    assert(after.indexed());
    assert forall|x: TypeId| #![trigger after.dt(x)] after.has(x) implies {
        &&& after.valid(after.dt(x))
        &&& after.firm() ==> after.firm_kind(after.dt(x)) && after.depth_of(after.dt(x)) <= after.depth@[x]
            && after.reserve_of(after.dt(x)) <= after.depth@[x]
        &&& after.chain_of(after.dt(x)) <= x.0
    } by {
        assert(before.has(x));
        before.look(x);
        same_arena_valid(before, after, before.dt(x));
    }
}

impl TypeFactory {
    /// A new data-type for nothing.
    pub open spec fn is_void(d: Datatype) -> bool {
        d.made(
            TypeFactory::id_for("void"@),
            0,
            1,
            TypeMetatype::Void,
            SubMetatype::Void,
            Datatype::CORETYPE,
            "void"@,
        ) && d.kind is Void
    }

    /// The factory after its data-type for nothing has been added and cached.
    pub open spec fn voided(self, before: TypeFactory, d: Datatype) -> bool {
        let id = TypeId(before.arena@.len() as u32);
        &&& self.same_settings(before)
        &&& self.arena@ == before.arena@.push(Some(d))
        &&& self.tree@ == if before.holds(d) {
            before.tree@
        } else {
            before.tree@.insert(before.place(d, 0) as int, id)
        }
        &&& self.name_entered(before, d.name@, d.id, id)
        &&& self.typecache@ == before.typecache@.update(7, Some(id))
        &&& self.typecache10 == before.typecache10
        &&& self.typecache16 == before.typecache16
        &&& self.type_nochar == before.type_nochar
        &&& self.charcache == before.charcache
        &&& self.warnings == before.warnings
        &&& self.incomplete_typedef == before.incomplete_typedef
    }

    /// The data-type for nothing.
    pub fn get_type_void(&mut self) -> (res: Result<TypeId>)
        requires
            old(self).ready(),
            old(self).arena@.len() < u32::MAX,
        ensures
            final(self).ready(),
            match old(self).cached(0, TypeMetatype::Void) {
                Some(ct) => *final(self) == *old(self) && res == Ok::<TypeId, Error>(ct),
                None => res == Ok::<TypeId, Error>(TypeId(old(self).arena@.len() as u32)) && exists|d: Datatype|
                    #[trigger] TypeFactory::is_void(d) && final(self).voided(*old(self), d),
            },
            res matches Ok(id) ==> final(self).member(id) && final(self).dt(id).kind is Void,
            forall|i: int|
                0 <= i < old(self).arena@.len() ==> #[trigger] final(self).arena@[i] == old(self).arena@[i],
    {
        if let Some(ct) = self.cache_lookup(0, TypeMetatype::Void) {
            return Ok(ct);
        }
        let mut tv = Datatype::new_void()?;
        tv.id = Datatype::hash_name("void");
        let newtype = tv.clone_type(self)?;
        let ghost before = *self;
        let ghost d = newtype;
        proof {
            reveal(TypeFactory::kind_valid);
            reveal(TypeFactory::firm_kind);
            assert((1u32 | 1u32) == 1u32) by (bit_vector);
            crate::types::grow::free_bits();
            crate::types::grow::free_flags_fit(d);
            assert(TypeFactory::is_void(d));
            before.cache_sizes();
        }
        let ct = TypeId(self.arena.len() as u32);
        self.arena.push(Some(newtype));
        self.depth = Ghost(self.depth@.insert(ct, 1nat));
        let ghost pushed = *self;
        proof {
            reveal(TypeFactory::firm_kind);
            assert(pushed.extends(before)) by {
                assert forall|x: TypeId| before.has(x) implies #[trigger] pushed.depth@[x] == before.depth@[x] by {
                    assert(x.0 < before.arena@.len());
                }
            }
            assert forall|i: int| #![trigger pushed.tree@[i]] 0 <= i < pushed.tree@.len() implies pushed.has(
                pushed.tree@[i],
            ) by {
                before.tree_names_members(i);
                assert(pushed.arena@[before.tree@[i].0 as int] == before.arena@[before.tree@[i].0 as int]);
            }
            assert forall|i: int| #![trigger pushed.nametree@[i]] 0 <= i < pushed.nametree@.len() implies pushed.has(
                pushed.nametree@[i].tp,
            ) by {
                before.names_name_members(i);
                let t = before.nametree@[i].tp;
                assert(pushed.arena@[t.0 as int] == before.arena@[t.0 as int]);
            }
            crate::types::grow::pushed_is_sound(before, pushed, d);
            same_place(before, pushed, d, 0);
            crate::types::grow::same_name_place(before, pushed, d.name@, d.id, 0);
        }
        self.tree_insert(ct);
        let ghost treed = *self;
        proof {
            crate::types::grow::same_name_place(before, treed, d.name@, d.id, 0);
        }
        self.nametree_insert(ct);
        let ghost named = *self;
        proof {
            named_in_is_sound(treed, named, ct);
        }
        self.typecache.set(7, Some(ct));
        proof {
            assert(TypeMetatype::Void.rank() == 17);
            caching_is_sound(named, *self, 0, TypeMetatype::Void, ct);
            assert(self.voided(before, d));
            self.look(ct);
        }
        Ok(ct)
    }
}

/// Two factories find the same place for a data-type if their trees name the
/// same data-types.
pub proof fn same_place(before: TypeFactory, after: TypeFactory, ct: Datatype, i: nat)
    requires
        before.sound(),
        after.tree == before.tree,
        after.arena@.len() >= before.arena@.len(),
        forall|k: int| 0 <= k < before.arena@.len() ==> #[trigger] after.arena@[k] == before.arena@[k],
    ensures
        after.place(ct, i) == before.place(ct, i),
        i == 0 ==> after.holds(ct) == before.holds(ct),
    decreases before.tree@.len() - i,
{
    if i < before.tree@.len() {
        before.tree_names_members(i as int);
        let t = before.tree@[i as int];
        assert(after.arena@[t.0 as int] == before.arena@[t.0 as int]);
        same_place(before, after, ct, i + 1);
    }
    if i == 0 {
        before.place_inside(ct, 0);
        if before.place(ct, 0) < before.tree@.len() {
            before.tree_names_members(before.place(ct, 0) as int);
            let t = before.tree@[before.place(ct, 0) as int];
            assert(after.arena@[t.0 as int] == before.arena@[t.0 as int]);
        }
    }
}

/// Entering a data-type into the index by name leaves the factory sound.
pub proof fn named_in_is_sound(before: TypeFactory, after: TypeFactory, ct: TypeId)
    requires
        before.ready(),
        before.has(ct),
        after == (TypeFactory { nametree: after.nametree, ..before }),
        after.name_entered(before, before.dt(ct).name@, before.dt(ct).id, ct),
    ensures
        after.ready(),
{
    assert forall|i: int| #![trigger after.nametree@[i]] 0 <= i < after.nametree@.len() implies after.has(
        after.nametree@[i].tp,
    ) by {
        if i < before.nametree@.len() {
            if after.nametree@.len() > before.nametree@.len() {
                assert(after.nametree@.drop_last()[i] == after.nametree@[i]);
            }
            before.names_name_members(i);
        }
    }
    assert forall|i: int| #![trigger after.tree@[i]] 0 <= i < after.tree@.len() implies after.has(after.tree@[i]) by {
        before.tree_names_members(i);
    }
    same_types_are_sound(before, after);
}

/// Taking a name out of the index leaves the factory sound.
pub proof fn named_out_is_sound(before: TypeFactory, after: TypeFactory, nm: Seq<char>, id: u64)
    requires
        before.ready(),
        after == (TypeFactory { nametree: after.nametree, ..before }),
        after.name_removed(before, nm, id),
    ensures
        after.ready(),
{
    let p = before.name_place(nm, id, 0);
    before.name_place_inside(nm, id, 0);
    assert forall|i: int| #![trigger after.nametree@[i]] 0 <= i < after.nametree@.len() implies after.has(
        after.nametree@[i].tp,
    ) by {
        let j = if p < 0 || i < p { i } else { i + 1 };
        assert(after.nametree@[i] == before.nametree@[j]);
        before.names_name_members(j);
    }
    assert forall|i: int| #![trigger after.tree@[i]] 0 <= i < after.tree@.len() implies after.has(after.tree@[i]) by {
        before.tree_names_members(i);
    }
    same_types_are_sound(before, after);
}

/// Caching a data-type under its size and class leaves the factory sound.
pub proof fn caching_is_sound(before: TypeFactory, after: TypeFactory, size: int, meta: TypeMetatype, id: TypeId)
    requires
        before.ready(),
        0 <= size < 9,
        meta.rank() >= 10,
        before.has(id),
        before.dt(id).size == size,
        before.dt(id).metatype == meta,
        after == (TypeFactory { typecache: after.typecache, ..before }),
        after.typecache@ == before.typecache@.update(8 * size + meta.rank() - 10, Some(id)),
    ensures
        after.ready(),
{
    reveal(TypeFactory::sound);
    reveal(TypeFactory::indexed);
    crate::types::metatype_rank_injective(meta, meta);
    assert forall|s: int, m: TypeMetatype| #![trigger after.cached(s, m)]
        0 <= s < 9 && m.rank() >= 10 && after.cached(s, m) is Some implies {
        &&& after.has(after.cached(s, m)->0)
        &&& after.dt(after.cached(s, m)->0).size == s
        &&& after.dt(after.cached(s, m)->0).metatype == m
    } by {
        crate::types::metatype_rank_injective(m, meta);
        if 8 * s + m.rank() - 10 == 8 * size + meta.rank() - 10 {
            assert(s == size && m == meta);
        } else {
            assert(before.cached(s, m) == after.cached(s, m));
        }
    }
    recached_is_sound(before, after);
}

/// Warnings do not matter for soundness.
pub proof fn noted_is_sound(before: TypeFactory, after: TypeFactory)
    requires
        before.ready(),
        after == (TypeFactory { warnings: after.warnings, ..before }) || after == (TypeFactory {
            incomplete_typedef: after.incomplete_typedef,
            ..before
        }),
    ensures
        after.ready(),
{
    reveal(TypeFactory::sound);
    reveal(TypeFactory::indexed);
    assert forall|size: int, meta: TypeMetatype| #![trigger after.cached(size, meta)]
        0 <= size < 9 && meta.rank() >= 10 && after.cached(size, meta) is Some implies {
        &&& after.has(after.cached(size, meta)->0)
        &&& after.dt(after.cached(size, meta)->0).size == size
        &&& after.dt(after.cached(size, meta)->0).metatype == meta
    } by {
        assert(before.cached(size, meta) == after.cached(size, meta));
    }
    assert forall|i: int| #![trigger after.tree@[i]] 0 <= i < after.tree@.len() implies after.has(after.tree@[i]) by {
        assert(before.has(before.tree@[i]));
    }
    assert forall|i: int| #![trigger after.nametree@[i]] 0 <= i < after.nametree@.len() implies after.has(
        after.nametree@[i].tp,
    ) by {
        assert(before.has(before.nametree@[i].tp));
    }
    assert(after.indexed());
    assert forall|x: TypeId| #![trigger after.dt(x)] after.has(x) implies {
        &&& after.valid(after.dt(x))
        &&& after.firm() ==> after.firm_kind(after.dt(x)) && after.depth_of(after.dt(x)) <= after.depth@[x]
            && after.reserve_of(after.dt(x)) <= after.depth@[x]
        &&& after.chain_of(after.dt(x)) <= x.0
    } by {
        assert(before.has(x));
        before.look(x);
        same_arena_valid(before, after, before.dt(x));
    }
    reveal(TypeFactory::tidy);
    assert forall|x: TypeId| #![trigger after.dt(x)] after.has(x) implies after.tidy_type(after.dt(x)) by {
        assert(before.has(x));
        let d = before.dt(x);
    }
}

/// Other caches leave the rest of a factory as it is.
pub proof fn recached_is_sound(before: TypeFactory, after: TypeFactory)
    requires
        before.ready(),
        after == (TypeFactory {
            typecache: after.typecache,
            typecache10: after.typecache10,
            typecache16: after.typecache16,
            type_nochar: after.type_nochar,
            charcache: after.charcache,
            ..before
        }),
        after.typecache@.len() == 72,
        after.charcache@.len() == 5,
        forall|size: int, meta: TypeMetatype| #![trigger after.cached(size, meta)]
            0 <= size < 9 && meta.rank() >= 10 && after.cached(size, meta) is Some ==> {
                &&& after.has(after.cached(size, meta)->0)
                &&& after.dt(after.cached(size, meta)->0).size == size
                &&& after.dt(after.cached(size, meta)->0).metatype == meta
            },
        after.typecache10 is Some ==> after.has(after.typecache10->0) && after.dt(after.typecache10->0).size == 10
            && after.dt(after.typecache10->0).metatype is Float,
        after.typecache16 is Some ==> after.has(after.typecache16->0) && after.dt(after.typecache16->0).size == 16
            && after.dt(after.typecache16->0).metatype is Float,
        after.type_nochar is Some ==> after.has(after.type_nochar->0) && after.dt(after.type_nochar->0).size == 1
            && after.dt(after.type_nochar->0).metatype is Int,
        forall|i: int| #![trigger after.charcache@[i]]
            0 <= i < 5 && after.charcache@[i] is Some ==> {
                &&& after.has(after.charcache@[i]->0)
                &&& after.dt(after.charcache@[i]->0).size == i
                &&& after.dt(after.charcache@[i]->0).metatype is Int || after.dt(after.charcache@[i]->0).metatype is Uint
            },
    ensures
        after.ready(),
{
    reveal(TypeFactory::sound);
    reveal(TypeFactory::indexed);
    assert forall|i: int| #![trigger after.tree@[i]] 0 <= i < after.tree@.len() implies after.has(after.tree@[i]) by {
        assert(before.has(before.tree@[i]));
    }
    assert forall|i: int| #![trigger after.nametree@[i]] 0 <= i < after.nametree@.len() implies after.has(
        after.nametree@[i].tp,
    ) by {
        assert(before.has(before.nametree@[i].tp));
    }
    assert(after.indexed());
    assert forall|x: TypeId| #![trigger after.dt(x)] after.has(x) implies {
        &&& after.valid(after.dt(x))
        &&& after.firm() ==> after.firm_kind(after.dt(x)) && after.depth_of(after.dt(x)) <= after.depth@[x]
            && after.reserve_of(after.dt(x)) <= after.depth@[x]
        &&& after.chain_of(after.dt(x)) <= x.0
    } by {
        assert(before.has(x));
        before.look(x);
        same_arena_valid(before, after, before.dt(x));
    }
    reveal(TypeFactory::tidy);
    assert forall|x: TypeId| #![trigger after.dt(x)] after.has(x) implies after.tidy_type(after.dt(x)) by {
        assert(before.has(x));
        let d = before.dt(x);
    }
}

} // verus!

//! The factory that owns the data-types.
use vstd::prelude::*;
use crate::ids::TypeId;
use crate::types::compare::order_in_factory;
use crate::types::{Datatype, SubMetatype, TypeArrayData, TypeFactory, TypeKind, TypeMetatype};

verus! {

impl TypeFactory {
    pub fn get(&self, id: TypeId) -> (res: &Datatype)
        requires
            self.has(id),
        ensures
            *res == self.dt(id),
    {
        match &self.arena[id.0 as usize] {
            Some(dt) => dt,
            None => vstd::pervasive::unreached(),
        }
    }
}

/// A base data-type without a name, as far as its place in the order goes.
pub open spec fn plain_type(size: i32, meta: TypeMetatype) -> Datatype {
    Datatype {
        id: 0,
        size,
        flags: 0,
        name: arbitrary(),
        display_name: arbitrary(),
        metatype: meta,
        submeta: crate::types::base_submeta(meta),
        typedef_imm: None,
        alignment: -1i32,
        align_size: size,
        kind: TypeKind::Base,
    }
}

/// An array without a name, as far as its place in the order goes.
pub open spec fn plain_array(count: i32, element: TypeId, types: TypeFactory) -> Datatype {
    Datatype {
        id: 0,
        size: count.wrapping_mul(types.dt(element).align_size),
        flags: 0,
        name: arbitrary(),
        display_name: arbitrary(),
        metatype: TypeMetatype::Array,
        submeta: SubMetatype::Array,
        typedef_imm: None,
        alignment: types.dt(element).alignment,
        align_size: count.wrapping_mul(types.dt(element).align_size),
        kind: TypeKind::Array(TypeArrayData { arrayof: Some(element), arraysize: count }),
    }
}

impl TypeFactory {
    /// The first place, from the given one on, that does not come before a data-type.
    pub open spec fn place(self, ct: Datatype, i: nat) -> nat
        decreases self.tree@.len() - i,
    {
        if i < self.tree@.len() && crate::types::compare::factory_order(self.dt(self.tree@[i as int]), ct) < 0 {
            self.place(ct, i + 1)
        } else {
            i
        }
    }

    /// Whether the tree holds a data-type that the order does not tell from the given one.
    pub open spec fn holds(self, ct: Datatype) -> bool {
        let i = self.place(ct, 0);
        i < self.tree@.len() && crate::types::compare::factory_order(self.dt(self.tree@[i as int]), ct) == 0
    }

    /// The data-type of the tree that the order does not tell from the given one.
    pub open spec fn found(self, ct: Datatype) -> Option<TypeId> {
        if self.holds(ct) {
            Some(self.tree@[self.place(ct, 0) as int])
        } else {
            None
        }
    }

    /// What the tables of a sound factory name are members.
    pub proof fn tree_names_members(self, i: int)
        requires
            self.sound(),
            0 <= i < self.tree@.len(),
        ensures
            self.member(self.tree@[i]),
    {
        reveal(TypeFactory::sound);
        reveal(TypeFactory::indexed);
        self.look(self.tree@[i]);
    }

    /// The sizes of the caches of a sound factory.
    pub proof fn cache_sizes(self)
        requires
            self.sound(),
        ensures
            self.typecache@.len() == 72,
            self.charcache@.len() == 5,
            self.arena@.len() <= u32::MAX,
    {
        reveal(TypeFactory::sound);
        reveal(TypeFactory::indexed);
    }

    /// A cached base data-type has the size and the class that it is cached under.
    pub proof fn cache_fits(self, size: int, meta: TypeMetatype)
        requires
            self.sound(),
            0 <= size < 9,
            meta.rank() >= 10,
            self.cached(size, meta) is Some,
        ensures
            self.member(self.cached(size, meta)->0),
            self.dt(self.cached(size, meta)->0).size == size,
            self.dt(self.cached(size, meta)->0).metatype == meta,
    {
        reveal(TypeFactory::sound);
        reveal(TypeFactory::indexed);
        self.look(self.cached(size, meta)->0);
    }

    /// Finds the place of a data-type in the tree.
    pub fn tree_find(&self, ct: &Datatype) -> (res: core::result::Result<usize, usize>)
        requires
            self.sound(),
        ensures
            match res {
                Ok(pos) => self.holds(*ct) && pos == self.place(*ct, 0),
                Err(pos) => !self.holds(*ct) && pos == self.place(*ct, 0),
            },
            self.place(*ct, 0) <= self.tree@.len(),
    {
        let mut i: usize = 0;
        while i < self.tree.len()
            invariant
                self.sound(),
                i <= self.tree@.len(),
                self.place(*ct, 0) == self.place(*ct, i as nat),
            decreases self.tree@.len() - i,
        {
            proof {
                self.tree_names_members(i as int);
            }
            let order: i32 = order_in_factory(self.get(self.tree[i]), ct, self);
            if order == 0 {
                return Ok(i);
            }
            if order > 0 {
                return Err(i);
            }
            i = i + 1;
        }
        Err(i)
    }

    /// Finds the data-type of the tree that the order does not tell from the given one.
    pub fn find_no_name(&self, ct: &Datatype) -> (res: Option<TypeId>)
        requires
            self.sound(),
        ensures
            res == self.found(*ct),
            res is Some ==> self.member(res->0) && crate::types::compare::factory_order(self.dt(res->0), *ct) == 0,
    {
        match self.tree_find(ct) {
            Ok(pos) => {
                proof {
                    self.tree_names_members(pos as int);
                }
                Some(self.tree[pos])
            },
            Err(_) => None,
        }
    }

    /// The base data-type of a size and a class, if the factory has it already.
    pub open spec fn base_existing(self, size: i32, meta: TypeMetatype) -> Option<TypeId> {
        if 0 <= size < 9 && meta.rank() >= 10 && self.cached(size as int, meta) is Some {
            self.cached(size as int, meta)
        } else if !(0 <= size < 9) && meta is Float && size == 10 {
            self.typecache10
        } else if !(0 <= size < 9) && meta is Float && size == 16 {
            self.typecache16
        } else if size > self.max_basetype_size {
            match self.cached(1, TypeMetatype::Unknown) {
                None => None,
                Some(unknown) => if size.wrapping_mul(self.dt(unknown).align_size) < 0 {
                    None
                } else {
                    self.found(plain_array(size, unknown, self))
                },
            }
        } else if size < 0 {
            None
        } else {
            self.found(plain_type(size, meta))
        }
    }

    /// Looks up the cached base data-type of a size and a class.
    pub fn cache_lookup(&self, size: i32, meta: TypeMetatype) -> (res: Option<TypeId>)
        requires
            self.sound(),
            0 <= size < 9,
            meta.rank() >= 10,
        ensures
            res == self.cached(size as int, meta),
            res is Some ==> self.member(res->0) && self.dt(res->0).size == size && self.dt(res->0).metatype == meta,
    {
        proof {
            self.cache_sizes();
            if self.cached(size as int, meta) is Some {
                self.cache_fits(size as int, meta);
            }
        }
        let index: usize = 8 * (size as usize) + (meta.position() - 10) as usize;
        self.typecache[index]
    }
}

impl TypeFactory {
    /// The order does not look at the names of a base data-type.
    proof fn place_of_plain(self, ct: Datatype, size: i32, meta: TypeMetatype, i: nat)
        requires
            ct.id == 0,
            ct.size == size,
            ct.submeta == crate::types::base_submeta(meta),
            ct.kind is Base,
        ensures
            self.place(ct, i) == self.place(plain_type(size, meta), i),
        decreases self.tree@.len() - i,
    {
        if i < self.tree@.len() {
            self.place_of_plain(ct, size, meta, i + 1);
        }
    }

    proof fn place_of_array(self, ct: Datatype, count: i32, element: TypeId, i: nat)
        requires
            ct.is_new_array(count, element, self.dt(element)),
        ensures
            self.place(ct, i) == self.place(plain_array(count, element, self), i),
        decreases self.tree@.len() - i,
    {
        if i < self.tree@.len() {
            self.place_of_array(ct, count, element, i + 1);
        }
    }

    /// Finds the base data-type of a size and a class, if the factory has it already.
    pub fn find_base_existing(&self, size: i32, metatype: TypeMetatype) -> (res: Option<TypeId>)
        requires
            self.sound(),
        ensures
            res == self.base_existing(size, metatype),
            res is Some ==> self.member(res->0),
    {
        if 0 <= size && size < 9 {
            if metatype.position() >= 10 {
                if let Some(ct) = self.cache_lookup(size, metatype) {
                    return Some(ct);
                }
            }
        } else if metatype == TypeMetatype::Float {
            proof {
                reveal(TypeFactory::sound);
                reveal(TypeFactory::indexed);
                if self.typecache10 is Some {
                    self.look(self.typecache10->0);
                }
                if self.typecache16 is Some {
                    self.look(self.typecache16->0);
                }
            }
            if size == 10 {
                return self.typecache10;
            }
            if size == 16 {
                return self.typecache16;
            }
        }
        if size > self.max_basetype_size {
            match self.cache_lookup(1, TypeMetatype::Unknown) {
                None => {
                    return None;
                },
                Some(unknown) => {
                    match Datatype::new_array(size, unknown, self) {
                        Ok(tmp) => {
                            proof {
                                self.place_of_array(tmp, size, unknown, 0);
                            }
                            return self.find_no_name(&tmp);
                        },
                        Err(_) => {
                            return None;
                        },
                    }
                },
            }
        }
        match Datatype::new_base(size, metatype) {
            Ok(tmp) => {
                proof {
                    self.place_of_plain(tmp, size, metatype, 0);
                }
                self.find_no_name(&tmp)
            },
            Err(_) => None,
        }
    }

    /// The code data-type that is cached hands out no other one.
    pub open spec fn code_is_bare(self) -> bool {
        self.cached(1, TypeMetatype::Code) is Some ==> (self.dt(
            self.cached(1, TypeMetatype::Code)->0,
        ).kind matches TypeKind::Code(data) ==> !data.factory)
    }

    /// A code data-type that the factory finds for code cannot hand out another one.
    pub proof fn existing_code_is_bare(self)
        requires
            self.sound(),
            self.base_existing(1, TypeMetatype::Code) is Some,
        ensures
            self.member(self.base_existing(1, TypeMetatype::Code)->0),
            !(self.dt(self.base_existing(1, TypeMetatype::Code)->0).kind is Spacebase),
            self.max_basetype_size >= 1 && self.code_is_bare() ==> self.depth_of(
                self.dt(self.base_existing(1, TypeMetatype::Code)->0),
            ) == 0,
    {
        let id = self.base_existing(1, TypeMetatype::Code)->0;
        if self.cached(1, TypeMetatype::Code) is Some {
            self.cache_fits(1, TypeMetatype::Code);
            let d = self.dt(id);
        } else if 1 > self.max_basetype_size {
            let unknown = self.cached(1, TypeMetatype::Unknown)->0;
            self.tree_names_members(self.place(plain_array(1, unknown, self), 0) as int);
            let d = self.dt(id);
            assert(d.submeta.rank() == SubMetatype::Array.rank());
        } else {
            self.tree_names_members(self.place(plain_type(1, TypeMetatype::Code), 0) as int);
            let d = self.dt(id);
            assert(d.submeta.rank() == SubMetatype::Code.rank());
            self.parts(d);
        }
    }
}

} // verus!

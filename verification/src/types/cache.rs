//! The core data-types and the cache that finds them.
use vstd::prelude::*;
use crate::error::{Error, Result};
use crate::ids::TypeId;
use crate::types::{Datatype, TypeFactory, TypeKind, TypeMetatype};

verus! {

/// The caches of the factory.
pub ghost struct Caches {
    pub base: Seq<Option<TypeId>>,
    pub float10: Option<TypeId>,
    pub float16: Option<TypeId>,
    pub nochar: Option<TypeId>,
    pub chars: Seq<Option<TypeId>>,
}

/// The slot of a size and a class in the cache of base data-types.
pub open spec fn slot(size: int, meta: TypeMetatype) -> int {
    8 * size + meta.rank() - 10
}

impl Caches {
    /// A base data-type is cached unless one of its size and class is.
    pub open spec fn generic(self, d: Datatype, id: TypeId) -> Caches {
        if self.base[slot(d.size as int, d.metatype)] is None {
            Caches { base: self.base.update(slot(d.size as int, d.metatype), Some(id)), ..self }
        } else {
            self
        }
    }

    /// The caches after a core data-type has been looked at.
    pub open spec fn with_core(self, d: Datatype, id: TypeId) -> Caches {
        if d.size > 8 {
            if d.metatype is Float && d.size == 10 {
                Caches { float10: Some(id), ..self }
            } else if d.metatype is Float && d.size == 16 {
                Caches { float16: Some(id), ..self }
            } else {
                self
            }
        } else if d.metatype is Int || d.metatype is Uint {
            let ascii = d.flag(Datatype::CHARTYPE);
            let printed = d.flag(Datatype::CHARTYPE | Datatype::UTF16 | Datatype::UTF32 | Datatype::OPAQUE_STRING);
            let first = if d.metatype is Int && d.size == 1 && !ascii {
                Caches { nochar: Some(id), ..self }
            } else {
                self
            };
            if d.flag(Datatype::ENUMTYPE) {
                first
            } else if printed {
                let second = if d.size < 5 {
                    Caches { chars: first.chars.update(d.size as int, Some(id)), ..first }
                } else {
                    first
                };
                if ascii {
                    Caches { base: second.base.update(slot(d.size as int, d.metatype), Some(id)), ..second }
                } else {
                    second
                }
            } else {
                first.generic(d, id)
            }
        } else if d.metatype is Void || d.metatype is Unknown || d.metatype is Bool || d.metatype is Code
            || d.metatype is Float {
            self.generic(d, id)
        } else {
            self
        }
    }
}

impl TypeFactory {
    /// What the factory has cached.
    pub open spec fn caches(self) -> Caches {
        Caches {
            base: self.typecache@,
            float10: self.typecache10,
            float16: self.typecache16,
            nochar: self.type_nochar,
            chars: self.charcache@,
        }
    }

    /// The caches after the core data-types among the first `n` of the tree have
    /// been looked at.
    pub open spec fn caches_upto(self, n: nat) -> Caches
        decreases n,
    {
        if n == 0 {
            self.caches()
        } else {
            let before = self.caches_upto((n - 1) as nat);
            let id = self.tree@[n - 1];
            if self.dt(id).flag(Datatype::CORETYPE) {
                before.with_core(self.dt(id), id)
            } else {
                before
            }
        }
    }

    /// Caches the core data-types.
    pub fn cache_core_types(&mut self) -> (res: Result<()>)
        requires
            old(self).ready(),
        ensures
            final(self).ready(),
            final(self).caches() == old(self).caches_upto(old(self).tree@.len()),
            *final(self) == (TypeFactory {
                typecache: final(self).typecache,
                typecache10: final(self).typecache10,
                typecache16: final(self).typecache16,
                type_nochar: final(self).type_nochar,
                charcache: final(self).charcache,
                ..*old(self)
            }),
            res is Ok,
    {
        let ghost before = *self;
        let mut pos: usize = 0;
        while pos < self.tree.len()
            invariant
                before == *old(self),
                before.ready(),
                self.ready(),
                pos <= self.tree@.len(),
                *self == (TypeFactory {
                    typecache: self.typecache,
                    typecache10: self.typecache10,
                    typecache16: self.typecache16,
                    type_nochar: self.type_nochar,
                    charcache: self.charcache,
                    ..before
                }),
                self.caches() == before.caches_upto(pos as nat),
            decreases self.tree@.len() - pos,
        {
            let ct = self.tree[pos];
            proof {
                self.tree_names_members(pos as int);
                assert(before.tree@[pos as int] == ct);
            }
            let dt = self.get(ct);
            if dt.is_core_type() {
                self.cache_core_type(ct);
            }
            pos = pos + 1;
        }
        Ok(())
    }

    fn cache_core_type(&mut self, ct: TypeId)
        requires
            old(self).ready(),
            old(self).has(ct),
        ensures
            final(self).ready(),
            final(self).caches() == old(self).caches().with_core(old(self).dt(ct), ct),
            *final(self) == (TypeFactory {
                typecache: final(self).typecache,
                typecache10: final(self).typecache10,
                typecache16: final(self).typecache16,
                type_nochar: final(self).type_nochar,
                charcache: final(self).charcache,
                ..*old(self)
            }),
    {
        proof {
            self.look(ct);
            self.cache_sizes();
        }
        let dt = self.get(ct);
        let size: i32 = dt.get_size();
        let meta = dt.get_metatype();
        let is_ascii = dt.is_ascii();
        let is_enum = dt.is_enum_type();
        let is_char_print = dt.is_char_print();
        if size > 8 {
            if meta == TypeMetatype::Float {
                if size == 10 {
                    self.typecache10 = Some(ct);
                } else if size == 16 {
                    self.typecache16 = Some(ct);
                }
            }
            proof {
                slots_are_sound(*old(self), *self, ct);
            }
            return;
        }
        let mut fill_generic = false;
        match meta {
            TypeMetatype::Int | TypeMetatype::Uint => {
                if meta == TypeMetatype::Int && size == 1 && !is_ascii {
                    self.type_nochar = Some(ct);
                }
                if is_enum {
                } else if is_char_print {
                    if size < 5 {
                        self.charcache.set(size as usize, Some(ct));
                    }
                    if is_ascii {
                        let index: usize = 8 * (size as usize) + meta.cache_index();
                        self.typecache.set(index, Some(ct));
                    }
                } else {
                    fill_generic = true;
                }
            },
            TypeMetatype::Void | TypeMetatype::Unknown | TypeMetatype::Bool | TypeMetatype::Code
            | TypeMetatype::Float => {
                fill_generic = true;
            },
            _ => {},
        }
        if fill_generic {
            let index: usize = 8 * (size as usize) + meta.cache_index();
            if self.typecache[index].is_none() {
                self.typecache.set(index, Some(ct));
            }
        }
        proof {
            slots_are_sound(*old(self), *self, ct);
        }
    }
}

/// Caching a data-type in slots that fit it leaves the factory sound.
proof fn slots_are_sound(before: TypeFactory, after: TypeFactory, ct: TypeId)
    requires
        before.ready(),
        before.has(ct),
        after == (TypeFactory {
            typecache: after.typecache,
            typecache10: after.typecache10,
            typecache16: after.typecache16,
            type_nochar: after.type_nochar,
            charcache: after.charcache,
            ..before
        }),
        after.caches() == before.caches().with_core(before.dt(ct), ct),
    ensures
        after.ready(),
{
    reveal(TypeFactory::sound);
    reveal(TypeFactory::indexed);
    let d = before.dt(ct);
    crate::types::metatype_rank_injective(d.metatype, d.metatype);
    assert forall|s: int, m: TypeMetatype| #![trigger after.cached(s, m)]
        0 <= s < 9 && m.rank() >= 10 && after.cached(s, m) is Some implies {
        &&& after.has(after.cached(s, m)->0)
        &&& after.dt(after.cached(s, m)->0).size == s
        &&& after.dt(after.cached(s, m)->0).metatype == m
    } by {
        crate::types::metatype_rank_injective(m, d.metatype);
        if slot(s, m) == slot(d.size as int, d.metatype) && 0 <= d.size <= 8 && d.metatype.rank() >= 10 {
            assert(s == d.size && m == d.metatype);
            let c = before.cached(s, m);
        } else {
            assert(before.cached(s, m) == after.cached(s, m));
        }
    }
    assert forall|i: int| #![trigger after.charcache@[i]] 0 <= i < 5 && after.charcache@[i] is Some implies {
        &&& after.has(after.charcache@[i]->0)
        &&& after.dt(after.charcache@[i]->0).size == i
        &&& after.dt(after.charcache@[i]->0).metatype is Int || after.dt(after.charcache@[i]->0).metatype is Uint
    } by {
        let c = before.charcache@[i];
    }
    crate::types::tend::recached_is_sound(before, after);
}

impl TypeFactory {
    /// What asking for a core data-type does.
    pub open spec fn makes_core(
        self,
        before: TypeFactory,
        name: Seq<char>,
        size: i32,
        meta: TypeMetatype,
        chartp: bool,
        res: Result<TypeId>,
    ) -> bool {
        if chartp {
            if size == 1 {
                exists|tmp: Datatype| #[trigger]
                    TypeFactory::is_named_char(tmp, name) && self.adds(before, tmp, res)
            } else if size < 0 {
                self == before && Datatype::bad_size(res)
            } else {
                exists|tmp: Datatype| #[trigger]
                    TypeFactory::is_named_unicode(tmp, name, size, meta) && self.adds(before, tmp, res)
            }
        } else if meta is Code {
            if name.len() == 0 {
                self.makes_code(before, res)
            } else {
                exists|tmp: Datatype| #[trigger]
                    TypeFactory::is_bare_code(tmp, name, TypeFactory::id_for(name)) && self.adds(before, tmp, res)
            }
        } else if meta is Void {
            match before.cached(0, TypeMetatype::Void) {
                Some(ct) => self == before && res == Ok::<TypeId, Error>(ct),
                None => res == Ok::<TypeId, Error>(TypeId(before.arena@.len() as u32)) && exists|d: Datatype|
                    #[trigger] TypeFactory::is_void(d) && self.voided(before, d),
            }
        } else if size < 0 {
            self == before && Datatype::bad_size(res)
        } else {
            exists|tmp: Datatype| #[trigger]
                TypeFactory::is_base(tmp, size, meta, name, TypeFactory::id_for(name)) && self.adds(before, tmp, res)
        }
    }

    /// Makes a core data-type.
    pub fn set_core_type(&mut self, name: &str, size: i32, meta: TypeMetatype, chartp: bool) -> (res: Result<()>)
        requires
            old(self).has_room(size),
            old(self).has_room(1),
            if chartp {
                size == 1 || meta is Int || meta is Uint
            } else {
                meta is Code || meta is Void || TypeFactory::base_class(meta)
            },
        ensures
            final(self).ready(),
            exists|mid: TypeFactory, r: Result<TypeId>| #[trigger]
                mid.makes_core(*old(self), name@, size, meta, chartp, r) && match r {
                    Ok(ct) => res is Ok && final(self).retouched(
                        mid,
                        ct,
                        Datatype { flags: mid.dt(ct).flags | Datatype::CORETYPE, ..mid.dt(ct) },
                    ),
                    Err(e) => *final(self) == mid && res == Err::<(), Error>(e),
                },
    {
        let made = if chartp {
            if size == 1 {
                self.get_type_char_named(name)
            } else {
                self.get_type_unicode(name, size, meta)
            }
        } else if meta == TypeMetatype::Code {
            self.get_type_code_named(name)
        } else if meta == TypeMetatype::Void {
            self.get_type_void()
        } else {
            self.get_base_named(size, meta, name)
        };
        let ghost mid = *self;
        proof {
            assert(mid.makes_core(*old(self), name@, size, meta, chartp, made));
        }
        match made {
            Err(e) => Err(e),
            Ok(ct) => {
                let dt = self.get_mut(ct);
                dt.flags = dt.flags | Datatype::CORETYPE;
                proof {
                    mid.look(ct);
                    crate::types::grow::free_bits();
                    crate::types::grow::freely_added(mid.dt(ct).flags, Datatype::CORETYPE);
                    crate::types::change::reflagged_is_sound(mid, *self, ct, self.dt(ct).flags);
                    assert(mid.makes_core(*old(self), name@, size, meta, chartp, made));
                }
                Ok(())
            },
        }
    }
}

} // verus!

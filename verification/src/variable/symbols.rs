//! The symbols of variables.
use vstd::prelude::*;
use crate::architecture::Architecture;
use crate::cover::Cover;
use crate::database::Symbol;
use crate::error::{Error, Result};
use crate::funcdata::Funcdata;
use crate::ids::{EntryId, HighId, SymbolId, VarnodeId};
use crate::types::TypeMetatype;
use crate::variable::{HighVariable, VariablePiece};
use crate::varnode::Varnode;

verus! {

impl Funcdata {
    /// A varnode is stored where a symbol is, and a variable can get that symbol.
    pub open spec fn can_name(self, high: HighVariable, vn: VarnodeId, glb: Architecture) -> bool {
        let node = self.value(vn);
        let entry = glb.symboltab.entry(node.mapentry->0);
        &&& glb.sound()
        &&& self.has_vn(vn)
        &&& node.mapentry is Some
        &&& (node.mapentry->0).0 < glb.symboltab.entries@.len()
        &&& glb.symboltab.symbol(entry.symbol).tp is Some
        &&& high.symbol is Some ==> (high.symbol->0).0 < glb.symboltab.symbols@.len()
        &&& high.tp is Some ==> glb.types.has(high.tp->0)
        &&& high.piece is Some ==> self.has_group(high.piece->0.group)
    }

    /// Where in its symbol a variable lies, if it is not the whole symbol.
    pub open spec fn symbol_place(self, high: HighVariable, vn: VarnodeId, glb: Architecture) -> i32 {
        let node = self.value(vn);
        let entry = glb.symboltab.entry(node.mapentry->0);
        let sym = glb.symboltab.symbol(entry.symbol);
        let size = glb.types.dt(sym.tp->0).size;
        if node.flag(Varnode::PROTO_PARTIAL) && high.piece is Some {
            high.piece->0.group_offset.wrapping_add(self.group(high.piece->0.group).symbol_offset)
        } else if entry.addr.base is None || sym.category == Symbol::EQUATE {
            -1i32
        } else if size == node.size && entry.addr.same(node.loc) && !entry.piece {
            -1i32
        } else {
            node.loc.place_in(0, entry.addr, size).wrapping_add(entry.offset)
        }
    }

    /// A variable that has got the symbol of one of its varnodes.
    pub open spec fn named_by(self, high: HighVariable, vn: VarnodeId, glb: Architecture) -> HighVariable {
        let entry = glb.symboltab.entry(self.value(vn).mapentry->0);
        let partial = high.tp is Some && glb.types.dt(high.tp->0).metatype is PartialUnion;
        HighVariable {
            symbol: Some(entry.symbol),
            symboloffset: self.symbol_place(high, vn, glb),
            highflags: (if partial {
                high.highflags | HighVariable::TYPEDIRTY
            } else {
                high.highflags
            }) & !HighVariable::SYMBOLDIRTY,
            ..high
        }
    }

    /// Whether a variable has another symbol already.
    pub open spec fn other_symbol(self, high: HighVariable, vn: VarnodeId, glb: Architecture) -> bool {
        &&& high.symbol is Some
        &&& high.symbol->0 != glb.symboltab.entry(self.value(vn).mapentry->0).symbol
        &&& !high.note(HighVariable::SYMBOLDIRTY)
    }

    /// Gives a variable the symbol of one of its varnodes.
    pub fn high_set_symbol(&mut self, high: HighId, vn: VarnodeId, glb: &Architecture) -> (res: Result<()>)
        requires
            old(self).has_high(high),
            old(self).can_name(old(self).variable(high), vn, *glb),
        ensures
            ({
                let old_high = old(self).variable(high);
                if old(self).other_symbol(old_high, vn, *glb) {
                    &&& *final(self) == *old(self)
                    &&& res matches Err(e) && e.is_lowlevel(
                        "Symbols \""@ + glb.symboltab.symbol(old_high.symbol->0).name@ + "\" and \""@
                            + glb.symboltab.symbol(
                            glb.symboltab.entry(old(self).value(vn).mapentry->0).symbol,
                        ).name@ + "\" assigned to the same variable"@,
                    )
                } else {
                    &&& res is Ok
                    &&& final(self).same_but(*old(self), high)
                    &&& final(self).variable(high) == old(self).named_by(old_high, vn, *glb)
                }
            }),
    {
        let varnode = self.vn(vn);
        let entry = glb.symboltab.get_entry(varnode.get_symbol_entry().unwrap());
        let entry_symbol = entry.get_symbol();
        let high_data = self.high(high);
        let sym = glb.symboltab.get_symbol(entry_symbol);
        if let Some(current) = high_data.symbol {
            if current != entry_symbol && (high_data.highflags & HighVariable::SYMBOLDIRTY) == 0 {
                let mut text = "Symbols \"".to_owned();
                text.push_str(&glb.symboltab.get_symbol(current).name);
                text.push_str("\" and \"");
                text.push_str(&sym.name);
                text.push_str("\" assigned to the same variable");
                return Err(Error::Lowlevel(text));
            }
        }
        assert(glb.symbol_type_valid(glb.symboltab.symbols@[entry_symbol.0 as int].tp));
        let piece_place: Option<i32> = match &high_data.piece {
            Some(piece) => if varnode.is_proto_partial() {
                Some(
                    piece.get_offset().wrapping_add(
                        self.groups.get(piece.get_group().0).get_symbol_offset(),
                    ),
                )
            } else {
                None
            },
            None => None,
        };
        let symboloffset: i32 = match piece_place {
            Some(off) => off,
            None => {
                let sym_size: i32 = glb.types.get(sym.get_type().unwrap()).get_size();
                if entry.is_dynamic() {
                    -1
                } else if sym.get_category() == Symbol::EQUATE {
                    -1
                } else if sym_size == varnode.get_size() && entry.addr.same_as(varnode.get_addr())
                    && !entry.is_piece() {
                    -1
                } else {
                    varnode.get_addr().overlap_join(0, &entry.addr, sym_size).wrapping_add(entry.get_offset())
                }
            },
        };
        let partial_union = match high_data.tp {
            Some(tp) => glb.types.get(tp).get_metatype() == TypeMetatype::PartialUnion,
            None => false,
        };
        let high_data = self.high_mut(high);
        high_data.symbol = Some(entry_symbol);
        high_data.symboloffset = symboloffset;
        if partial_union {
            high_data.highflags = high_data.highflags | HighVariable::TYPEDIRTY;
        }
        high_data.highflags = high_data.highflags & !HighVariable::SYMBOLDIRTY;
        Ok(())
    }

    /// The first varnode of a variable, from the given place on, that is stored where a symbol is.
    pub open spec fn first_mapped(self, high: HighVariable, i: nat) -> Option<VarnodeId>
        decreases high.inst@.len() - i,
    {
        if i >= high.inst@.len() {
            None
        } else if self.value(high.inst@[i as int]).mapentry is Some {
            Some(high.inst@[i as int])
        } else {
            self.first_mapped(high, i + 1)
        }
    }

    /// The varnodes of a variable exist, and the variable can get their symbols.
    pub open spec fn instances_mapped(self, high: HighVariable, glb: Architecture) -> bool {
        forall|i: int| #![trigger high.inst@[i]]
            0 <= i < high.inst@.len() ==> self.has_vn(high.inst@[i]) && (self.value(high.inst@[i]).mapentry is Some
                ==> self.can_name(high, high.inst@[i], glb))
    }

    /// A variable once its symbol has been found.
    pub open spec fn symboled(self, high: HighVariable, glb: Architecture) -> HighVariable {
        let bare = HighVariable { symbol: None, highflags: high.highflags & !HighVariable::SYMBOLDIRTY, ..high };
        if !high.note(HighVariable::SYMBOLDIRTY) {
            high
        } else {
            match self.first_mapped(high, 0) {
                Some(vn) => self.named_by(bare, vn, glb),
                None => bare,
            }
        }
    }

    /// Finds the symbol of a variable, if it is not known.
    pub fn high_update_symbol(&mut self, high: HighId, glb: &Architecture)
        requires
            old(self).has_high(high),
            old(self).instances_mapped(old(self).variable(high), *glb),
        ensures
            final(self).same_but(*old(self), high),
            final(self).variable(high) == old(self).symboled(old(self).variable(high), *glb),
    {
        let ghost before = *self;
        if (self.high(high).highflags & HighVariable::SYMBOLDIRTY) == 0 {
            assert(self.highs.slots@ =~= self.highs.with(high.0, self.variable(high)));
            return;
        }
        let high_data = self.high_mut(high);
        high_data.highflags = high_data.highflags & !HighVariable::SYMBOLDIRTY;
        high_data.symbol = None;
        let ghost bare = *self;
        let mut found: Option<VarnodeId> = None;
        let mut i: usize = 0;
        while i < self.high(high).inst.len()
            invariant_except_break
                found is None,
                before.first_mapped(before.variable(high), i as nat) == before.first_mapped(before.variable(high), 0),
            invariant
                before == *old(self),
                *self == bare,
                bare.same_but(before, high),
                before.has_high(high),
                before.instances_mapped(before.variable(high), *glb),
                bare.variable(high).inst == before.variable(high).inst,
                bare.variable(high).piece == before.variable(high).piece,
                bare.variable(high).tp == before.variable(high).tp,
                bare.variable(high).symbol is None,
                i <= before.variable(high).inst@.len(),
            ensures
                found == before.first_mapped(before.variable(high), 0),
                found is Some ==> before.can_name(before.variable(high), found->0, *glb),
            decreases before.variable(high).inst@.len() - i,
        {
            let vn = self.high(high).inst[i];
            assert(before.variable(high).inst@[i as int] == vn);
            if self.vn(vn).get_symbol_entry().is_some() {
                found = Some(vn);
                break;
            }
            i = i + 1;
        }
        match found {
            Some(vn) => {
                assert(bare.can_name(bare.variable(high), vn, *glb));
                let _ = self.high_set_symbol(high, vn, glb);
                assert(self.highs.slots@ =~= before.highs.with(high.0, self.variable(high)));
            },
            None => {},
        }
    }

    pub fn high_get_symbol(&mut self, high: HighId, glb: &Architecture) -> (res: Option<SymbolId>)
        requires
            old(self).has_high(high),
            old(self).instances_mapped(old(self).variable(high), *glb),
        ensures
            final(self).same_but(*old(self), high),
            final(self).variable(high) == old(self).symboled(old(self).variable(high), *glb),
            res == final(self).variable(high).symbol,
    {
        self.high_update_symbol(high, glb);
        self.high(high).symbol
    }

    /// The first storage, from the given place on, that belongs to the symbol of a variable.
    pub open spec fn entry_of(self, high: HighVariable, glb: Architecture, i: nat) -> Option<EntryId>
        decreases high.inst@.len() - i,
    {
        if i >= high.inst@.len() {
            None
        } else {
            let entry = self.value(high.inst@[i as int]).mapentry;
            if entry is Some && Some(glb.symboltab.entry(entry->0).symbol) == high.symbol {
                entry
            } else {
                self.entry_of(high, glb, i + 1)
            }
        }
    }

    /// Finds where the symbol of a variable is stored, going by its varnodes.
    pub fn high_get_symbol_entry(&self, high: HighId, glb: &Architecture) -> (res: Option<EntryId>)
        requires
            self.has_high(high),
            self.instances_mapped(self.variable(high), *glb),
        ensures
            res == self.entry_of(self.variable(high), *glb, 0),
    {
        let high_data = self.high(high);
        let mut i: usize = 0;
        while i < high_data.inst.len()
            invariant
                i <= high_data.inst@.len(),
                *high_data == self.variable(high),
                self.instances_mapped(*high_data, *glb),
                self.entry_of(*high_data, *glb, i as nat) == self.entry_of(*high_data, *glb, 0),
            decreases high_data.inst@.len() - i,
        {
            let vn = high_data.inst[i];
            assert(self.has_vn(high_data.inst@[i as int]));
            if let Some(entry) = self.vn(vn).get_symbol_entry() {
                let symbol = glb.symboltab.get_entry(entry).get_symbol();
                if let Some(own) = high_data.symbol {
                    if own == symbol {
                        return Some(entry);
                    }
                }
            }
            i = i + 1;
        }
        None
    }

    /// A variable of one varnode, of which nothing is known.
    pub open spec fn is_fresh(high: HighVariable, vn: VarnodeId) -> bool {
        &&& high.inst@ == seq![vn]
        &&& high.num_merge_classes == 1
        &&& high.highflags == HighVariable::FLAGSDIRTY | HighVariable::NAMEREPDIRTY | HighVariable::TYPEDIRTY
            | HighVariable::COVERDIRTY
        &&& high.flags == 0
        &&& high.tp is None
        &&& high.name_representative is None
        &&& high.internal_cover.stretches@.len() == 0
        &&& high.piece is None
        &&& high.symbol is None
        &&& high.symboloffset == -1
    }

    /// A varnode has been made a variable of its own.
    pub open spec fn raised(self, before: Funcdata, vn: VarnodeId, high: HighId) -> bool {
        &&& self == (Funcdata { highs: self.highs, varnodes: self.varnodes, ..before })
        &&& high.0 == before.highs.slots@.len()
        &&& self.highs.slots@ == before.highs.slots@.push(Some(self.variable(high)))
        &&& Funcdata::is_fresh(self.variable(high), vn)
        &&& self.varnodes.slots@ == before.varnodes.with(
            vn.0,
            Varnode { high: Some(high), merge_group: 0, ..before.value(vn) },
        )
    }

    pub fn high_create_unmapped(&mut self, vn: VarnodeId) -> (res: HighId)
        requires
            old(self).has_vn(vn),
            old(self).highs.slots@.len() < u32::MAX,
        ensures
            final(self).raised(*old(self), vn, res),
    {
        let mut inst: Vec<VarnodeId> = Vec::new();
        inst.push(vn);
        assert(inst@ =~= seq![vn]);
        let high = HighId(
            self.highs.put(
                HighVariable {
                    inst,
                    num_merge_classes: 1,
                    highflags: HighVariable::FLAGSDIRTY | HighVariable::NAMEREPDIRTY | HighVariable::TYPEDIRTY
                        | HighVariable::COVERDIRTY,
                    flags: 0,
                    tp: None,
                    name_representative: None,
                    internal_cover: Cover::new(),
                    piece: None,
                    symbol: None,
                    symboloffset: -1,
                },
            ),
        );
        self.vn_mut(vn).set_high(Some(high), 0);
        high
    }

    /// Makes a varnode a variable of its own, with the symbol that is stored there.
    pub fn high_create(&mut self, vn: VarnodeId, glb: &Architecture) -> (res: Result<HighId>)
        requires
            old(self).has_vn(vn),
            old(self).highs.slots@.len() < u32::MAX,
            old(self).value(vn).mapentry is Some ==> {
                &&& glb.sound()
                &&& (old(self).value(vn).mapentry->0).0 < glb.symboltab.entries@.len()
                &&& glb.symboltab.symbol(glb.symboltab.entry(old(self).value(vn).mapentry->0).symbol).tp is Some
            },
        ensures
            res is Ok,
            exists|mid: Funcdata| #[trigger]
                mid.raised(*old(self), vn, res->Ok_0) && if old(self).value(vn).mapentry is Some {
                    &&& final(self).same_but(mid, res->Ok_0)
                    &&& final(self).variable(res->Ok_0) == mid.named_by(mid.variable(res->Ok_0), vn, *glb)
                } else {
                    *final(self) == mid
                },
    {
        let high = self.high_create_unmapped(vn);
        let ghost mid = *self;
        assert(mid.raised(*old(self), vn, high));
        assert(self.value(vn).mapentry == old(self).value(vn).mapentry);
        if self.vn(vn).get_symbol_entry().is_some() {
            assert(!mid.other_symbol(mid.variable(high), vn, *glb));
            self.high_set_symbol(high, vn, glb)?;
            assert(self.same_but(mid, high));
        }
        let res: Result<HighId> = Ok(high);
        assert(mid.raised(*old(self), vn, res->Ok_0));
        res
    }

    /// A variable has been removed, and its piece with it.
    pub open spec fn destroyed(self, before: Funcdata, high: HighId) -> bool {
        exists|mid: Funcdata| #[trigger]
            mid.piece_gone(before, high) && self == (Funcdata { highs: self.highs, ..mid }) && self.highs.slots@
                == mid.highs.slots@.update(high.0 as int, None)
    }

    /// A variable has given its piece up, if it had one.
    pub open spec fn piece_gone(self, before: Funcdata, high: HighId) -> bool {
        match before.variable(high).piece {
            Some(piece) => exists|mid: Funcdata| #[trigger]
                mid.detached(before, high) && VariablePiece::released(self, mid, piece),
            None => self == before,
        }
    }

    pub fn high_destroy(&mut self, high: HighId)
        requires
            old(self).has_high(high),
            old(self).variable(high).piece matches Some(piece) ==> old(self).has_group(piece.group),
        ensures
            final(self).destroyed(*old(self), high),
    {
        if self.high(high).piece.is_some() {
            VariablePiece::destroy(self, high);
        }
        let ghost mid = *self;
        assert(mid.piece_gone(*old(self), high));
        self.highs.remove(high.0);
    }

    /// What is stored where the symbol of a variable begins, seen from its group.
    pub fn high_establish_group_symbol_offset(&mut self, high: HighId) -> (res: Result<()>)
        requires
            old(self).has_high(high),
            old(self).variable(high).piece is Some,
            old(self).has_group(old(self).variable(high).piece->0.group),
            old(self).variable(high).symboloffset - old(self).variable(high).piece->0.group_offset <= i32::MAX,
            -(old(self).variable(high).piece->0.group_offset as int) <= i32::MAX,
        ensures
            ({
                let old_high = old(self).variable(high);
                let group = old_high.piece->0.group;
                let off = (if old_high.symboloffset < 0 {
                    0
                } else {
                    old_high.symboloffset as int
                }) - old_high.piece->0.group_offset;
                if off < 0 {
                    &&& *final(self) == *old(self)
                    &&& res matches Err(e) && e.is_lowlevel("Symbol offset is incompatible with VariableGroup"@)
                } else {
                    &&& res is Ok
                    &&& *final(self) == (Funcdata { groups: final(self).groups, ..*old(self) })
                    &&& final(self).groups.slots@ == old(self).groups.with(
                        group.0,
                        crate::variable::VariableGroup { symbol_offset: off as i32, ..old(self).group(group) },
                    )
                }
            }),
    {
        let (group, piece_offset): (crate::ids::GroupId, i32) = match &self.high(high).piece {
            Some(piece) => (piece.get_group(), piece.get_offset()),
            None => vstd::pervasive::unreached(),
        };
        let mut off: i32 = self.high(high).symboloffset;
        if off < 0 {
            off = 0;
        }
        if (off as i64) < piece_offset as i64 {
            return Err(Error::lowlevel("Symbol offset is incompatible with VariableGroup"));
        }
        self.groups.get_mut(group.0).set_symbol_offset(off - piece_offset);
        Ok(())
    }
}

} // verus!

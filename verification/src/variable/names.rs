//! Which varnode names a variable, and what a variable looks like.
use vstd::prelude::*;
use crate::architecture::Architecture;
use crate::cover::Cover;
use crate::error::{Error, Result};
use crate::funcdata::Funcdata;
use crate::ids::{HighId, VarnodeId};
use crate::space::SpaceType;
use crate::text::push_decimal;
use crate::types::TypeMetatype;
use crate::variable::HighVariable;
use crate::varnode::Varnode;

verus! {

impl Funcdata {
    /// A varnode exists, and so does what writes it.
    pub open spec fn defined(self, vn: VarnodeId) -> bool {
        self.has_vn(vn) && (self.value(vn).flag(Varnode::WRITTEN) ==> self.value(vn).def is Some && self.has_op(
            self.value(vn).def->0,
        ))
    }

    /// When a varnode is written.
    pub open spec fn written_at(self, vn: VarnodeId) -> u32 {
        self.operation(self.value(vn).def->0).time
    }

    /// A varnode is stored in no memory of the program.
    pub open spec fn internal(self, vn: VarnodeId) -> bool {
        self.value(vn).loc.base is Some && self.value(vn).loc.base->0.kind is Internal
    }

    /// Whether the second of two varnodes is the better one to name a variable by.
    pub open spec fn names_better(self, vn1: VarnodeId, vn2: VarnodeId) -> bool {
        let first = self.value(vn1);
        let second = self.value(vn2);
        if first.flag(Varnode::NAMELOCK) {
            false
        } else if second.flag(Varnode::NAMELOCK) {
            true
        } else if first.flag(Varnode::UNAFFECTED) != second.flag(Varnode::UNAFFECTED) {
            second.flag(Varnode::UNAFFECTED)
        } else if first.flag(Varnode::PERSIST) != second.flag(Varnode::PERSIST) {
            second.flag(Varnode::PERSIST)
        } else if first.flag(Varnode::INPUT) != second.flag(Varnode::INPUT) {
            second.flag(Varnode::INPUT)
        } else if first.flag(Varnode::ADDRTIED) != second.flag(Varnode::ADDRTIED) {
            second.flag(Varnode::ADDRTIED)
        } else if first.flag(Varnode::PROTO_PARTIAL) != second.flag(Varnode::PROTO_PARTIAL) {
            second.flag(Varnode::PROTO_PARTIAL)
        } else if self.internal(vn1) != self.internal(vn2) {
            self.internal(vn1)
        } else if first.flag(Varnode::WRITTEN) != second.flag(Varnode::WRITTEN) {
            second.flag(Varnode::WRITTEN)
        } else {
            first.flag(Varnode::WRITTEN) && self.written_at(vn2) < self.written_at(vn1)
        }
    }

    /// Whether the second of two varnodes is the better one to name a variable by.
    pub fn high_compare_name(&self, vn1: VarnodeId, vn2: VarnodeId) -> (res: bool)
        requires
            self.defined(vn1),
            self.defined(vn2),
        ensures
            res == self.names_better(vn1, vn2),
    {
        let first = self.vn(vn1);
        let second = self.vn(vn2);
        if first.is_name_lock() {
            return false;
        }
        if second.is_name_lock() {
            return true;
        }
        if first.is_unaffected() != second.is_unaffected() {
            return second.is_unaffected();
        }
        if first.is_persist() != second.is_persist() {
            return second.is_persist();
        }
        if first.is_input() != second.is_input() {
            return second.is_input();
        }
        if first.is_addr_tied() != second.is_addr_tied() {
            return second.is_addr_tied();
        }
        if first.is_proto_partial() != second.is_proto_partial() {
            return second.is_proto_partial();
        }
        let first_internal = match first.get_space() {
            Some(spc) => spc.get_type() == SpaceType::Internal,
            None => false,
        };
        let second_internal = match second.get_space() {
            Some(spc) => spc.get_type() == SpaceType::Internal,
            None => false,
        };
        if !first_internal && second_internal {
            return false;
        }
        if first_internal && !second_internal {
            return true;
        }
        if first.is_written() != second.is_written() {
            return second.is_written();
        }
        if !first.is_written() {
            return false;
        }
        let first_time: u32 = self.op(first.get_def().unwrap()).get_time();
        let second_time: u32 = self.op(second.get_def().unwrap()).get_time();
        second_time < first_time
    }

    /// The varnodes of a variable exist, and so does what writes them.
    pub open spec fn instances_defined(self, high: HighVariable) -> bool {
        forall|i: int| #![trigger high.inst@[i]] 0 <= i < high.inst@.len() ==> self.defined(high.inst@[i])
    }

    /// The varnode, among the first `n`, that names a variable.
    pub open spec fn name_leader(self, high: HighVariable, n: nat) -> VarnodeId
        decreases n,
    {
        if n <= 1 {
            high.inst@[0]
        } else {
            let rep = self.name_leader(high, (n - 1) as nat);
            if self.names_better(rep, high.inst@[n - 1]) {
                high.inst@[n - 1]
            } else {
                rep
            }
        }
    }

    /// Finds the varnode that names a variable, if it is not known.
    pub fn high_get_name_representative(&mut self, high: HighId) -> (res: VarnodeId)
        requires
            old(self).has_high(high),
            old(self).variable(high).inst@.len() > 0,
            old(self).instances_defined(old(self).variable(high)),
            !old(self).variable(high).note(HighVariable::NAMEREPDIRTY) ==> old(self).variable(high).name_representative
                is Some,
        ensures
            ({
                let old_high = old(self).variable(high);
                if old_high.note(HighVariable::NAMEREPDIRTY) {
                    &&& res == old(self).name_leader(old_high, old_high.inst@.len())
                    &&& final(self).same_but(*old(self), high)
                    &&& final(self).variable(high) == (HighVariable {
                        name_representative: Some(res),
                        highflags: old_high.highflags & !HighVariable::NAMEREPDIRTY,
                        ..old_high
                    })
                } else {
                    res == old_high.name_representative->0 && *final(self) == *old(self)
                }
            }),
    {
        if (self.high(high).highflags & HighVariable::NAMEREPDIRTY) == 0 {
            return self.high(high).name_representative.unwrap();
        }
        let inst = &self.high(high).inst;
        let mut rep = inst[0];
        assert(self.variable(high).inst@[0] == rep);
        let mut i: usize = 1;
        while i < inst.len()
            invariant
                1 <= i <= inst@.len(),
                inst@ == self.variable(high).inst@,
                self.instances_defined(self.variable(high)),
                self.defined(rep),
                rep == self.name_leader(self.variable(high), i as nat),
            decreases inst@.len() - i,
        {
            let vn = inst[i];
            assert(self.variable(high).inst@[i as int] == vn);
            if self.high_compare_name(rep, vn) {
                rep = vn;
            }
            i = i + 1;
        }
        let high_data = self.high_mut(high);
        high_data.highflags = high_data.highflags & !HighVariable::NAMEREPDIRTY;
        high_data.name_representative = Some(rep);
        rep
    }

    /// What settles, by the varnodes of a variable from a place on, that it has no
    /// name of its own: a varnode that has no place to be alive in, or one that is
    /// part of an expression. That is an error if other varnodes are merged with it.
    pub open spec fn unnamed_from(self, high: HighVariable, i: nat) -> Option<Seq<char>>
        decreases high.inst@.len() - i,
    {
        if i >= high.inst@.len() {
            None
        } else {
            let vn = self.value(high.inst@[i as int]);
            if !vn.coverable() {
                Some("Non-coverable varnode has been merged"@)
            } else if vn.flag(Varnode::IMPLIED) {
                Some("Implied varnode has been merged"@)
            } else {
                self.unnamed_from(high, i + 1)
            }
        }
    }

    /// All varnodes of a variable from a place on are reached by indirect effects only.
    pub open spec fn indirect_only_from(self, high: HighVariable, i: nat) -> bool
        decreases high.inst@.len() - i,
    {
        i >= high.inst@.len() || (self.value(high.inst@[i as int]).flag(Varnode::INDIRECTONLY)
            && self.indirect_only_from(high, i + 1))
    }

    /// Whether a variable that no call changes has a name: only an input has, and
    /// not one that is there for its address alone.
    pub open spec fn unaffected_named(self, high: HighVariable, flags: u32, res: Result<bool>) -> bool {
        if (flags & Varnode::INPUT) == 0 || self.indirect_only_from(high, 0) {
            res == Ok::<bool, Error>(false)
        } else {
            match self.first_with(high, Varnode::INPUT, 0) {
                None => res matches Err(e) && e.is_lowlevel("Could not find input varnode"@),
                Some(vn) => res == Ok::<bool, Error>(
                    (self.value(vn).flags & (Varnode::INPUT | Varnode::DIRECTWRITE)) == Varnode::INPUT || !self.value(
                        vn,
                    ).flag(Varnode::SPACEBASE),
                ),
            }
        }
    }

    /// Whether a variable has a name of its own.
    pub fn high_has_name(&mut self, high: HighId) -> (res: Result<bool>)
        requires
            old(self).has_high(high),
            old(self).instances_exist(old(self).variable(high)),
        ensures
            ({
                let old_high = old(self).variable(high);
                match old(self).unnamed_from(old_high, 0) {
                    Some(text) => {
                        &&& *final(self) == *old(self)
                        &&& if old_high.inst@.len() > 1 {
                            res matches Err(e) && e.is_lowlevel(text)
                        } else {
                            res == Ok::<bool, Error>(false)
                        }
                    },
                    None => {
                        let flags = final(self).variable(high).flags;
                        &&& final(self).flagged(*old(self), high)
                        &&& if (flags & Varnode::UNAFFECTED) != 0 {
                            old(self).unaffected_named(old_high, flags, res)
                        } else {
                            res == Ok::<bool, Error>(true)
                        }
                    },
                }
            }),
    {
        let ghost before = *self;
        let mut indirectonly = true;
        let inst = &self.high(high).inst;
        let inst_count: usize = inst.len();
        let mut index: usize = 0;
        while index < inst_count
            invariant
                index <= inst_count == inst@.len(),
                *self == before,
                inst@ == before.variable(high).inst@,
                before.instances_exist(before.variable(high)),
                before.unnamed_from(before.variable(high), index as nat) == before.unnamed_from(
                    before.variable(high),
                    0,
                ),
                before.indirect_only_from(before.variable(high), 0) == (indirectonly && before.indirect_only_from(
                    before.variable(high),
                    index as nat,
                )),
            decreases inst_count - index,
        {
            assert(before.has_vn(before.variable(high).inst@[index as int]));
            let vn = self.vn(inst[index]);
            if !vn.has_cover() {
                if inst_count > 1 {
                    return Err(Error::lowlevel("Non-coverable varnode has been merged"));
                }
                return Ok(false);
            }
            if vn.is_implied() {
                if inst_count > 1 {
                    return Err(Error::lowlevel("Implied varnode has been merged"));
                }
                return Ok(false);
            }
            if !vn.is_indirect_only() {
                indirectonly = false;
            }
            index = index + 1;
        }
        if self.high_is_unaffected(high) {
            let ghost one = *self;
            proof {
                one.flags_found(before, high);
            }
            if !self.high_is_input(high) {
                return Ok(false);
            }
            if indirectonly {
                return Ok(false);
            }
            proof {
                one.same_first(before, high, Varnode::INPUT, 0);
            }
            let input = self.high_get_input_varnode(high)?;
            let vn = self.vn(input);
            if !vn.is_illegal_input() && vn.is_spacebase() {
                return Ok(false);
            }
        }
        Ok(true)
    }

    proof fn flags_found(self, before: Funcdata, high: HighId)
        requires
            before.has_high(high),
            before.instances_exist(before.variable(high)),
            self.flagged(before, high),
        ensures
            self.has_high(high),
            self.instances_exist(self.variable(high)),
            !self.variable(high).note(HighVariable::FLAGSDIRTY),
            self.variable(high).inst == before.variable(high).inst,
            self.same_but_highs(before),
    {
        let flags = before.variable(high).highflags;
        assert((flags & !1u32) & 1u32 == 0) by (bit_vector);
        let v = self.variable(high);
        assert forall|n: int| #![trigger v.inst@[n]] 0 <= n < v.inst@.len() implies self.has_vn(v.inst@[n]) by {
            assert(before.has_vn(before.variable(high).inst@[n]));
        }
    }

    proof fn same_first(self, before: Funcdata, high: HighId, bits: u32, i: nat)
        requires
            self.same_but_highs(before),
            self.variable(high).inst == before.variable(high).inst,
        ensures
            self.first_with(self.variable(high), bits, i) == before.first_with(before.variable(high), bits, i),
        decreases before.variable(high).inst@.len() - i,
    {
        if i < before.variable(high).inst@.len() {
            self.same_first(before, high, bits, i + 1);
        }
    }

    /// Where the first `n` varnodes of a variable are alive, taken together.
    pub open spec fn met_before(self, high: HighVariable, vn: Cover, n: nat) -> bool {
        crate::cover::meeting_blocks(
            self.instance_stretches(high, n),
            vn.stretches@,
            2,
            self.instance_stretches(high, n).len(),
        ).len() > 0
    }

    /// Whether two varnodes of a variable are alive together and do not hold the same value.
    pub open spec fn inner_clash(self, high: HighVariable, i: int, j: int) -> bool {
        let vn = self.value(high.inst@[i]).cover->0;
        let other = self.value(high.inst@[j]).cover->0;
        self.met_before(high, vn, i as nat) && other.meeting(vn) == 2 && !self.copies(high.inst@[j], high.inst@[i])
    }

    /// Tests that no two varnodes of a variable are alive together with different values.
    pub fn high_verify_cover(&self, high: HighId) -> (res: Result<()>)
        requires
            self.instances_alive(high),
        ensures
            match res {
                Ok(_) => forall|i: int, j: int|
                    #![trigger self.inner_clash(self.variable(high), i, j)]
                    0 <= j < i < self.variable(high).inst@.len() ==> !self.inner_clash(self.variable(high), i, j),
                Err(e) => {
                    &&& e.is_lowlevel("HighVariable has internal intersection"@)
                    &&& exists|i: int, j: int|
                        #![trigger self.inner_clash(self.variable(high), i, j)]
                        0 <= j < i < self.variable(high).inst@.len() && self.inner_clash(self.variable(high), i, j)
                },
            },
    {
        let mut accum_cover = Cover::new();
        let data = self.high(high);
        let mut index: usize = 0;
        assert(accum_cover.stretches@ =~= self.instance_stretches(*data, 0));
        while index < data.inst.len()
            invariant
                index <= data.inst@.len(),
                *data == self.variable(high),
                self.instances_alive(high),
                accum_cover.stretches@ == self.instance_stretches(*data, index as nat),
                forall|i: int, j: int|
                    #![trigger self.inner_clash(self.variable(high), i, j)]
                    0 <= j < i < index ==> !self.inner_clash(self.variable(high), i, j),
            decreases data.inst@.len() - index,
        {
            let vn = data.inst[index];
            assert(self.has_vn(self.variable(high).inst@[index as int]));
            match &self.vn(vn).cover {
                Some(vn_cover) => {
                    let met: i32 = accum_cover.intersect(vn_cover);
                    if met == 2 {
                        let mut j: usize = 0;
                        while j < index
                            invariant
                                j <= index < data.inst@.len(),
                                *data == self.variable(high),
                                self.instances_alive(high),
                                vn == data.inst@[index as int],
                                self.value(vn).cover == Some(*vn_cover),
                                self.met_before(*data, *vn_cover, index as nat),
                                forall|k: int| #![trigger self.inner_clash(self.variable(high), index as int, k)]
                                    0 <= k < j ==> !self.inner_clash(self.variable(high), index as int, k),
                            decreases index - j,
                        {
                            let other_vn = data.inst[j];
                            assert(self.has_vn(self.variable(high).inst@[j as int]));
                            match &self.vn(other_vn).cover {
                                Some(other_cover) => {
                                    if other_cover.intersect(vn_cover) == 2 && !self.vn_copy_shadow(other_vn, vn) {
                                        assert(self.inner_clash(self.variable(high), index as int, j as int));
                                        return Err(Error::lowlevel("HighVariable has internal intersection"));
                                    }
                                },
                                None => {
                                    vstd::pervasive::unreached()
                                },
                            }
                            j = j + 1;
                        }
                    }
                    accum_cover.merge(vn_cover);
                },
                None => {
                    vstd::pervasive::unreached()
                },
            }
            index = index + 1;
        }
        Ok(())
    }

    /// The lines of a listing for the first `n` varnodes of a variable.
    pub open spec fn instance_lines(self, high: HighVariable, n: nat) -> Seq<char>
        decreases n,
    {
        if n == 0 {
            Seq::empty()
        } else {
            let vn = self.value(high.inst@[n - 1]);
            self.instance_lines(high, (n - 1) as nat) + crate::text::decimal(vn.merge_group as int) + ": "@
                + vn.label@ + "\n"@
        }
    }

    /// What a listing says of a variable.
    pub open spec fn info_text(self, high: HighVariable, glb: Architecture) -> Seq<char> {
        let name = match high.symbol {
            None => "Variable: UNNAMED\n"@,
            Some(sym) => "Variable: "@ + glb.symboltab.symbol(sym).name@ + if high.symboloffset != -1 {
                "(partial)"@
            } else {
                Seq::empty()
            } + "\n"@,
        };
        name + "Type: "@ + crate::types::print::raw_text(glb.types, glb.types.dt(high.tp->0)) + "\n\n"@
            + self.instance_lines(high, high.inst@.len())
    }

    pub fn high_print_info(&mut self, high: HighId, out: &mut String, glb: &Architecture)
        requires
            old(self).has_high(high),
            old(self).instances_typed(old(self).variable(high), *glb),
            old(self).symbol_typed(old(self).variable(high), *glb),
            old(self).typed(old(self).variable(high), *glb).tp is Some,
            glb.types.has(old(self).typed(old(self).variable(high), *glb).tp->0),
        ensures
            final(self).same_but(*old(self), high),
            final(self).variable(high) == old(self).typed(old(self).variable(high), *glb),
            final(out)@ == old(out)@ + final(self).info_text(final(self).variable(high), *glb),
    {
        let ghost before = *self;
        self.high_update_type(high, glb);
        let high_data = self.high(high);
        let ghost start = out@;
        match high_data.symbol {
            None => {
                out.push_str("Variable: UNNAMED\n");
            },
            Some(sym) => {
                out.push_str("Variable: ");
                out.push_str(&glb.symboltab.get_symbol(sym).name);
                if high_data.symboloffset != -1 {
                    out.push_str("(partial)");
                }
                out.push_str("\n");
            },
        }
        out.push_str("Type: ");
        proof {
            glb.types.look(high_data.tp->0);
        }
        glb.types.get(high_data.tp.unwrap()).print_raw(out, &glb.types);
        out.push_str("\n\n");
        let ghost head = out@;
        let mut i: usize = 0;
        assert(out@ =~= head + self.instance_lines(*high_data, 0));
        while i < high_data.inst.len()
            invariant
                i <= high_data.inst@.len(),
                *high_data == self.variable(high),
                high_data.inst == before.variable(high).inst,
                self.same_but_highs(before),
                before.instances_typed(before.variable(high), *glb),
                out@ == head + self.instance_lines(*high_data, i as nat),
            decreases high_data.inst@.len() - i,
        {
            assert(before.has_vn(before.variable(high).inst@[i as int]));
            let vn = self.vn(high_data.inst[i]);
            push_decimal(out, vn.get_merge_group() as i64);
            out.push_str(": ");
            out.push_str(&vn.label);
            out.push_str("\n");
            i = i + 1;
            assert(out@ =~= head + self.instance_lines(*high_data, i as nat));
        }
        assert(out@ =~= start + self.info_text(*high_data, *glb));
    }

    /// Where a variable starts in its symbol.
    pub open spec fn symbol_start(high: HighVariable) -> i32 {
        if high.symboloffset > 0 {
            high.symboloffset
        } else {
            0
        }
    }

    /// What settling the data-type of a variable by its symbol does: the part of
    /// the symbol that the variable is gives the data-type, if it is known.
    pub open spec fn finalized(self, before: Funcdata, glb: Architecture, old_glb: Architecture, high: HighId, res: Result<()>) -> bool {
        let old_high = before.variable(high);
        if old_high.symbol is None {
            self == before && glb == old_glb && res is Ok
        } else {
            let cur = old_glb.symboltab.symbol(old_high.symbol->0).tp->0;
            let off = Funcdata::symbol_start(old_high);
            let size = before.value(old_high.inst@[0]).size;
            &&& glb.same_program(old_glb)
            &&& exists|made: Result<Option<crate::ids::TypeId>>| #[trigger]
                glb.types.makes_piece(old_glb.types, cur, off, size, made) && match made {
                    Err(e) => self == before && res == Err::<(), Error>(e),
                    Ok(None) => self == before && res is Ok,
                    Ok(Some(tp)) => res is Ok && if glb.types.dt(tp).metatype is Unknown {
                        self == before
                    } else {
                        &&& self.same_but(before, high)
                        &&& self.variable(high) == (HighVariable {
                            tp: Some(before.shown_type(old_high, tp, glb)),
                            highflags: old_high.highflags | HighVariable::TYPE_FINALIZED,
                            ..old_high
                        })
                    },
                }
        }
    }

    /// Settles the data-type of a variable by its symbol.
    pub fn high_finalize_datatype(&mut self, high: HighId, glb: &mut Architecture) -> (res: Result<()>)
        requires
            old(self).has_high(high),
            old(glb).sound(),
            old(self).variable(high).inst@.len() > 0,
            old(self).instances_exist(old(self).variable(high)),
            old(self).symbol_typed(old(self).variable(high), *old(glb)),
            old(self).variable(high).symbol matches Some(sym) ==> {
                &&& old(glb).types.walkable()
                &&& old(glb).types.ready()
                &&& old(glb).types.arena@.len() < u32::MAX - 1
                &&& old(glb).types.can_cut(
                    old(glb).symboltab.symbol(sym).tp->0,
                    Funcdata::symbol_start(old(self).variable(high)),
                    old(self).value(old(self).variable(high).inst@[0]).size,
                )
                &&& forall|id: crate::ids::TypeId| #![trigger old(glb).types.dt(id)]
                    old(glb).types.has(id) ==> old(glb).types.dt(id).genuine()
            },
        ensures
            final(self).finalized(*old(self), *final(glb), *old(glb), high, res),
            final(glb).sound(),
    {
        let ghost before = *self;
        let ghost old_glb = *glb;
        let sym = match self.high(high).symbol {
            Some(sym) => sym,
            None => {
                return Ok(());
            },
        };
        assert(glb.symbol_type_valid(glb.symboltab.symbols@[sym.0 as int].tp));
        let cur = glb.symboltab.get_symbol(sym).get_type().unwrap();
        let off: i32 = if self.high(high).symboloffset > 0 {
            self.high(high).symboloffset
        } else {
            0
        };
        assert(self.has_vn(self.variable(high).inst@[0]));
        let size: i32 = self.vn(self.high(high).inst[0]).get_size();
        let made = glb.types.get_exact_piece(cur, off, size);
        proof {
            assert(off == Funcdata::symbol_start(before.variable(high)));
            assert(glb.types.makes_piece(old_glb.types, cur, off, size, made));
            crate::types::pointers::extending_keeps(old_glb.types, glb.types);
            crate::types::chain::kept_program_is_sound(old_glb, *glb);
        }
        match made {
            Err(e) => Err(e),
            Ok(None) => Ok(()),
            Ok(Some(tp)) => {
                if glb.types.get(tp).get_metatype() == TypeMetatype::Unknown {
                    return Ok(());
                }
                self.high_mut(high).tp = Some(tp);
                proof {
                    let v = self.variable(high);
                    assert forall|n: int| #![trigger v.inst@[n]] 0 <= n < v.inst@.len() implies self.has_vn(
                        v.inst@[n],
                    ) by {
                        assert(before.has_vn(before.variable(high).inst@[n]));
                    }
                }
                self.high_strip_type(high, glb);
                let high_data = self.high_mut(high);
                high_data.highflags = high_data.highflags | HighVariable::TYPE_FINALIZED;
                assert(self.highs.slots@ =~= before.highs.with(high.0, self.variable(high)));
                Ok(())
            },
        }
    }
}

} // verus!

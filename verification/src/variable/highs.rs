//! What follows for a variable from its varnodes: properties, data-type, symbol.
use vstd::prelude::*;
use crate::architecture::Architecture;
use crate::funcdata::Funcdata;
use crate::ids::{HighId, TypeId, VarnodeId};
use crate::types::{Datatype, TypeMetatype};
use crate::variable::HighVariable;
use crate::varnode::Varnode;

verus! {

impl Funcdata {
    /// The varnodes of a variable exist.
    pub open spec fn instances_exist(self, high: HighVariable) -> bool {
        forall|i: int| #![trigger high.inst@[i]] 0 <= i < high.inst@.len() ==> self.has_vn(high.inst@[i])
    }

    /// The properties that the first `n` varnodes of a variable have between them.
    pub open spec fn joint_flags(self, high: HighVariable, n: nat) -> u32
        decreases n,
    {
        if n == 0 {
            0
        } else {
            self.joint_flags(high, (n - 1) as nat) | self.value(high.inst@[n - 1]).flags
        }
    }

    /// The properties of a variable: its own mark and type lock, and what its
    /// varnodes have between them.
    pub open spec fn fresh_flags(self, high: HighVariable) -> u32 {
        (high.flags & (Varnode::MARK | Varnode::TYPELOCK)) | (self.joint_flags(high, high.inst@.len()) & !(Varnode::MARK
            | Varnode::DIRECTWRITE | Varnode::TYPELOCK))
    }

    /// The properties of a variable have been found.
    pub open spec fn flagged(self, before: Funcdata, high: HighId) -> bool {
        let old_high = before.variable(high);
        if old_high.note(HighVariable::FLAGSDIRTY) {
            &&& self.same_but(before, high)
            &&& self.variable(high) == (HighVariable {
                flags: before.fresh_flags(old_high),
                highflags: old_high.highflags & !HighVariable::FLAGSDIRTY,
                ..old_high
            })
        } else {
            self == before
        }
    }

    /// Finds the properties of a variable, if they are not known.
    pub fn high_update_flags(&mut self, high: HighId)
        requires
            old(self).has_high(high),
            old(self).instances_exist(old(self).variable(high)),
        ensures
            final(self).flagged(*old(self), high),
    {
        if (self.high(high).highflags & HighVariable::FLAGSDIRTY) == 0 {
            return;
        }
        let mut fl: u32 = 0;
        let data = self.high(high);
        let mut i: usize = 0;
        while i < data.inst.len()
            invariant
                i <= data.inst@.len(),
                self.instances_exist(*data),
                fl == self.joint_flags(*data, i as nat),
            decreases data.inst@.len() - i,
        {
            fl = fl | self.vn(data.inst[i]).get_flags();
            i = i + 1;
        }
        let high_data = self.high_mut(high);
        high_data.flags = (high_data.flags & (Varnode::MARK | Varnode::TYPELOCK)) | (fl & !(Varnode::MARK
            | Varnode::DIRECTWRITE | Varnode::TYPELOCK));
        high_data.highflags = high_data.highflags & !HighVariable::FLAGSDIRTY;
    }

    pub fn high_is_mapped(&mut self, high: HighId) -> (res: bool)
        requires
            old(self).has_high(high),
            old(self).instances_exist(old(self).variable(high)),
        ensures
            final(self).flagged(*old(self), high),
            res == ((final(self).variable(high).flags & Varnode::MAPPED) != 0),
    {
        self.high_update_flags(high);
        (self.high(high).flags & Varnode::MAPPED) != 0
    }

    pub fn high_is_persist(&mut self, high: HighId) -> (res: bool)
        requires
            old(self).has_high(high),
            old(self).instances_exist(old(self).variable(high)),
        ensures
            final(self).flagged(*old(self), high),
            res == ((final(self).variable(high).flags & Varnode::PERSIST) != 0),
    {
        self.high_update_flags(high);
        (self.high(high).flags & Varnode::PERSIST) != 0
    }

    pub fn high_is_addr_tied(&mut self, high: HighId) -> (res: bool)
        requires
            old(self).has_high(high),
            old(self).instances_exist(old(self).variable(high)),
        ensures
            final(self).flagged(*old(self), high),
            res == ((final(self).variable(high).flags & Varnode::ADDRTIED) != 0),
    {
        self.high_update_flags(high);
        (self.high(high).flags & Varnode::ADDRTIED) != 0
    }

    pub fn high_is_input(&mut self, high: HighId) -> (res: bool)
        requires
            old(self).has_high(high),
            old(self).instances_exist(old(self).variable(high)),
        ensures
            final(self).flagged(*old(self), high),
            res == ((final(self).variable(high).flags & Varnode::INPUT) != 0),
    {
        self.high_update_flags(high);
        (self.high(high).flags & Varnode::INPUT) != 0
    }

    pub fn high_is_implied(&mut self, high: HighId) -> (res: bool)
        requires
            old(self).has_high(high),
            old(self).instances_exist(old(self).variable(high)),
        ensures
            final(self).flagged(*old(self), high),
            res == ((final(self).variable(high).flags & Varnode::IMPLIED) != 0),
    {
        self.high_update_flags(high);
        (self.high(high).flags & Varnode::IMPLIED) != 0
    }

    pub fn high_is_spacebase(&mut self, high: HighId) -> (res: bool)
        requires
            old(self).has_high(high),
            old(self).instances_exist(old(self).variable(high)),
        ensures
            final(self).flagged(*old(self), high),
            res == ((final(self).variable(high).flags & Varnode::SPACEBASE) != 0),
    {
        self.high_update_flags(high);
        (self.high(high).flags & Varnode::SPACEBASE) != 0
    }

    pub fn high_is_constant(&mut self, high: HighId) -> (res: bool)
        requires
            old(self).has_high(high),
            old(self).instances_exist(old(self).variable(high)),
        ensures
            final(self).flagged(*old(self), high),
            res == ((final(self).variable(high).flags & Varnode::CONSTANT) != 0),
    {
        self.high_update_flags(high);
        (self.high(high).flags & Varnode::CONSTANT) != 0
    }

    pub fn high_is_unaffected(&mut self, high: HighId) -> (res: bool)
        requires
            old(self).has_high(high),
            old(self).instances_exist(old(self).variable(high)),
        ensures
            final(self).flagged(*old(self), high),
            res == ((final(self).variable(high).flags & Varnode::UNAFFECTED) != 0),
    {
        self.high_update_flags(high);
        (self.high(high).flags & Varnode::UNAFFECTED) != 0
    }

    pub fn high_is_extra_out(&mut self, high: HighId) -> (res: bool)
        requires
            old(self).has_high(high),
            old(self).instances_exist(old(self).variable(high)),
        ensures
            final(self).flagged(*old(self), high),
            res == ((final(self).variable(high).flags & (Varnode::INDIRECT_CREATION | Varnode::ADDRTIED)) == Varnode::INDIRECT_CREATION),
    {
        self.high_update_flags(high);
        (self.high(high).flags & (Varnode::INDIRECT_CREATION | Varnode::ADDRTIED)) == Varnode::INDIRECT_CREATION
    }

    pub fn high_is_proto_partial(&mut self, high: HighId) -> (res: bool)
        requires
            old(self).has_high(high),
            old(self).instances_exist(old(self).variable(high)),
        ensures
            final(self).flagged(*old(self), high),
            res == ((final(self).variable(high).flags & Varnode::PROTO_PARTIAL) != 0),
    {
        self.high_update_flags(high);
        (self.high(high).flags & Varnode::PROTO_PARTIAL) != 0
    }

    pub fn high_has_cover(&mut self, high: HighId) -> (res: bool)
        requires
            old(self).has_high(high),
            old(self).instances_exist(old(self).variable(high)),
        ensures
            final(self).flagged(*old(self), high),
            res == ((final(self).variable(high).flags & (Varnode::CONSTANT | Varnode::ANNOTATION | Varnode::INSERT)) == Varnode::INSERT),
    {
        self.high_update_flags(high);
        (self.high(high).flags & (Varnode::CONSTANT | Varnode::ANNOTATION | Varnode::INSERT)) == Varnode::INSERT
    }

    pub fn high_is_name_lock(&mut self, high: HighId) -> (res: bool)
        requires
            old(self).has_high(high),
            old(self).instances_exist(old(self).variable(high)),
        ensures
            final(self).flagged(*old(self), high),
            res == ((final(self).variable(high).flags & Varnode::NAMELOCK) != 0),
    {
        self.high_update_flags(high);
        (self.high(high).flags & Varnode::NAMELOCK) != 0
    }

    /// The varnodes of a variable exist and have data-types of the program.
    pub open spec fn instances_typed(self, high: HighVariable, glb: Architecture) -> bool {
        &&& glb.sound()
        &&& high.inst@.len() > 0
        &&& forall|i: int| #![trigger high.inst@[i]]
            0 <= i < high.inst@.len() ==> self.has_vn(high.inst@[i]) && glb.types.has(self.value(high.inst@[i]).tp)
    }

    /// The varnode, among the first `n`, that settles the data-type of a variable:
    /// one whose data-type is locked, then the one with the most specific data-type.
    pub open spec fn type_leader(self, high: HighVariable, glb: Architecture, n: nat) -> VarnodeId
        decreases n,
    {
        if n <= 1 {
            high.inst@[0]
        } else {
            let rep = self.type_leader(high, glb, (n - 1) as nat);
            let vn = high.inst@[n - 1];
            if self.leads_type(vn, rep, glb) {
                vn
            } else {
                rep
            }
        }
    }

    /// Whether one varnode comes before another in settling a data-type.
    pub open spec fn leads_type(self, vn: VarnodeId, rep: VarnodeId, glb: Architecture) -> bool {
        let locked = self.value(vn).flag(Varnode::TYPELOCK);
        if self.value(rep).flag(Varnode::TYPELOCK) != locked {
            locked
        } else {
            Datatype::formal_order(self.value(vn).tp, self.value(rep).tp, glb.types) < 0
        }
    }

    pub fn high_get_type_representative(&self, high: HighId, glb: &Architecture) -> (res: VarnodeId)
        requires
            self.has_high(high),
            self.instances_typed(self.variable(high), *glb),
        ensures
            res == self.type_leader(self.variable(high), *glb, self.variable(high).inst@.len()),
            self.has_vn(res),
            glb.types.has(self.value(res).tp),
    {
        let inst = &self.high(high).inst;
        let mut rep = inst[0];
        let mut i: usize = 1;
        assert(self.variable(high).inst@[0] == rep);
        while i < inst.len()
            invariant
                1 <= i <= inst@.len(),
                self.instances_typed(self.variable(high), *glb),
                inst@ == self.variable(high).inst@,
                self.has_vn(rep),
                glb.types.has(self.value(rep).tp),
                rep == self.type_leader(self.variable(high), *glb, i as nat),
            decreases inst@.len() - i,
        {
            let vn = inst[i];
            assert(self.variable(high).inst@[i as int] == vn);
            let locked = self.vn(vn).is_type_lock();
            if self.vn(rep).is_type_lock() != locked {
                if locked {
                    rep = vn;
                }
            } else if Datatype::type_order_formal(self.vn(vn).get_type(), self.vn(rep).get_type(), &glb.types) < 0 {
                rep = vn;
            }
            i = i + 1;
        }
        rep
    }

    /// The data-type that a variable is shown with: the form without detail,
    /// unless the detail is what matters.
    pub open spec fn shown_type(self, high: HighVariable, tp: TypeId, glb: Architecture) -> TypeId {
        let d = glb.types.dt(tp);
        let symbol_type = glb.symboltab.symbol(high.symbol->0).tp->0;
        let composite = high.symbol is Some && high.symboloffset != -1 && {
            let meta = glb.types.dt(symbol_type).metatype;
            meta is Struct || meta is Union || meta is Array
        };
        if !d.flag(Datatype::HAS_STRIPPED) {
            tp
        } else if d.metatype is PartialUnion || d.metatype is PartialStruct {
            if composite {
                tp
            } else {
                d.stripped()->0
            }
        } else if d.flag(Datatype::ENUMTYPE) && high.inst@.len() == 1 && self.value(high.inst@[0]).flag(
            Varnode::CONSTANT,
        ) {
            tp
        } else {
            d.stripped()->0
        }
    }

    /// The symbol of a variable, if it has one, has a data-type.
    pub open spec fn symbol_typed(self, high: HighVariable, glb: Architecture) -> bool {
        high.symbol matches Some(sym) ==> sym.0 < glb.symboltab.symbols@.len() && glb.symboltab.symbol(sym).tp is Some
    }

    pub fn high_strip_type(&mut self, high: HighId, glb: &Architecture)
        requires
            old(self).has_high(high),
            glb.sound(),
            old(self).variable(high).tp is Some,
            glb.types.has(old(self).variable(high).tp->0),
            old(self).instances_exist(old(self).variable(high)),
            old(self).symbol_typed(old(self).variable(high), *glb),
        ensures
            final(self).same_but(*old(self), high),
            final(self).variable(high) == (HighVariable {
                tp: Some(old(self).shown_type(old(self).variable(high), old(self).variable(high).tp->0, *glb)),
                ..old(self).variable(high)
            }),
    {
        let high_data = self.high(high);
        proof {
            let tp = high_data.tp->0;
            glb.types.look(tp);
            assert(self.highs.slots@ =~= self.highs.with(high.0, self.variable(high)));
        }
        let datatype = glb.types.get(high_data.tp.unwrap());
        if !datatype.has_stripped() {
            return;
        }
        let meta = datatype.get_metatype();
        if meta == TypeMetatype::PartialUnion || meta == TypeMetatype::PartialStruct {
            if let Some(sym) = high_data.symbol {
                if high_data.symboloffset != -1 {
                    assert(glb.symbol_type_valid(glb.symboltab.symbols@[sym.0 as int].tp));
                    let sym_type = glb.symboltab.get_symbol(sym).get_type().unwrap();
                    let submeta = glb.types.get(sym_type).get_metatype();
                    if submeta == TypeMetatype::Struct || submeta == TypeMetatype::Union || submeta
                        == TypeMetatype::Array {
                        return;
                    }
                }
            }
        } else if datatype.is_enum_type() && high_data.inst.len() == 1 {
            assert(self.has_vn(high_data.inst@[0]));
            if self.vn(high_data.inst[0]).is_constant() {
                return;
            }
        }
        let stripped = datatype.get_stripped().unwrap();
        self.high_mut(high).tp = Some(stripped);
    }

    /// A variable once its data-type has been found.
    pub open spec fn typed(self, high: HighVariable, glb: Architecture) -> HighVariable {
        let noted = HighVariable { highflags: high.highflags & !HighVariable::TYPEDIRTY, ..high };
        let leader = self.value(self.type_leader(high, glb, high.inst@.len()));
        if !high.note(HighVariable::TYPEDIRTY) {
            high
        } else if noted.note(HighVariable::TYPE_FINALIZED) {
            noted
        } else {
            HighVariable {
                tp: Some(self.shown_type(noted, leader.tp, glb)),
                flags: if leader.flag(Varnode::TYPELOCK) {
                    (high.flags & !Varnode::TYPELOCK) | Varnode::TYPELOCK
                } else {
                    high.flags & !Varnode::TYPELOCK
                },
                ..noted
            }
        }
    }

    /// Finds the data-type of a variable, if it is not known.
    pub fn high_update_type(&mut self, high: HighId, glb: &Architecture)
        requires
            old(self).has_high(high),
            old(self).instances_typed(old(self).variable(high), *glb),
            old(self).symbol_typed(old(self).variable(high), *glb),
        ensures
            final(self).same_but(*old(self), high),
            final(self).variable(high) == old(self).typed(old(self).variable(high), *glb),
    {
        let ghost before = *self;
        if (self.high(high).highflags & HighVariable::TYPEDIRTY) == 0 {
            assert(self.highs.slots@ =~= self.highs.with(high.0, self.variable(high)));
            return;
        }
        let high_data = self.high_mut(high);
        high_data.highflags = high_data.highflags & !HighVariable::TYPEDIRTY;
        if (self.high(high).highflags & HighVariable::TYPE_FINALIZED) != 0 {
            return;
        }
        let ghost noted = *self;
        proof {
            assert forall|i: int| #![trigger noted.variable(high).inst@[i]]
                0 <= i < noted.variable(high).inst@.len() implies noted.has_vn(noted.variable(high).inst@[i])
                && glb.types.has(noted.value(noted.variable(high).inst@[i]).tp) by {
                assert(before.has_vn(before.variable(high).inst@[i]));
            }
            noted.same_leader(before, before.variable(high), noted.variable(high), *glb, before.variable(high).inst@.len());
        }
        let vn = self.high_get_type_representative(high, glb);
        let tp = self.vn(vn).get_type();
        self.high_mut(high).tp = Some(tp);
        let type_lock = self.vn(vn).is_type_lock();
        self.high_strip_type(high, glb);
        let high_data = self.high_mut(high);
        high_data.flags = high_data.flags & !Varnode::TYPELOCK;
        if type_lock {
            high_data.flags = high_data.flags | Varnode::TYPELOCK;
        }
        assert(self.highs.slots@ =~= before.highs.with(high.0, self.variable(high)));
    }

    /// Which varnode settles the data-type does not depend on anything but the varnodes.
    pub proof fn same_leader(self, before: Funcdata, old_high: HighVariable, high: HighVariable, glb: Architecture, n: nat)
        requires
            self.same_but_highs(before),
            high.inst == old_high.inst,
        ensures
            self.type_leader(high, glb, n) == before.type_leader(old_high, glb, n),
        decreases n,
    {
        if n > 1 {
            self.same_leader(before, old_high, high, glb, (n - 1) as nat);
        }
    }

    pub fn high_get_type(&mut self, high: HighId, glb: &Architecture) -> (res: TypeId)
        requires
            old(self).has_high(high),
            old(self).instances_typed(old(self).variable(high), *glb),
            old(self).symbol_typed(old(self).variable(high), *glb),
            old(self).typed(old(self).variable(high), *glb).tp is Some,
        ensures
            final(self).same_but(*old(self), high),
            final(self).variable(high) == old(self).typed(old(self).variable(high), *glb),
            res == final(self).variable(high).tp->0,
    {
        self.high_update_type(high, glb);
        self.high(high).tp.unwrap()
    }

    pub fn high_is_type_lock(&mut self, high: HighId, glb: &Architecture) -> (res: bool)
        requires
            old(self).has_high(high),
            old(self).instances_typed(old(self).variable(high), *glb),
            old(self).symbol_typed(old(self).variable(high), *glb),
        ensures
            final(self).same_but(*old(self), high),
            final(self).variable(high) == old(self).typed(old(self).variable(high), *glb),
            res == ((final(self).variable(high).flags & Varnode::TYPELOCK) != 0),
    {
        self.high_update_type(high, glb);
        (self.high(high).flags & Varnode::TYPELOCK) != 0
    }
}

} // verus!

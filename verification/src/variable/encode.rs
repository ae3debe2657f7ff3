//! Writing variables.
use vstd::prelude::*;
use crate::architecture::Architecture;
use crate::database::Symbol;
use crate::error::Result;
use crate::funcdata::Funcdata;
use crate::ids::{HighId, SymbolId, TypeId, VarnodeId};
use crate::marshal::{Encoder, Written, ATTRIB_OFFSET, ATTRIB_REF, ATTRIB_TYPELOCK, ELEM_ADDR};
use crate::variable::HighVariable;
use crate::varnode::Varnode;

verus! {

pub const ATTRIB_CLASS: u32 = 66;

pub const ATTRIB_REPREF: u32 = 67;

pub const ATTRIB_SYMREF: u32 = 68;

pub const ELEM_HIGH: u32 = 82;

/// What a variable is, in one word.
pub open spec fn class_of(flags: u32, symbol: Option<SymbolId>, glb: Architecture) -> Seq<char> {
    let persists = flags & Varnode::PERSIST != 0;
    if flags & Varnode::SPACEBASE != 0 || flags & Varnode::IMPLIED != 0 {
        "other"@
    } else if persists && flags & Varnode::ADDRTIED != 0 {
        "global"@
    } else if flags & Varnode::CONSTANT != 0 {
        "constant"@
    } else if !persists && symbol is Some {
        let sym = glb.symboltab.symbol(symbol->0);
        if sym.category == Symbol::FUNCTION_PARAMETER {
            "param"@
        } else if glb.symboltab.scope(sym.scope).is_global {
            "global"@
        } else {
            "local"@
        }
    } else {
        "other"@
    }
}

/// The symbol of a variable, if it has one, stands in the symbol table with its scope.
pub open spec fn symbol_placed(symbol: Option<SymbolId>, glb: Architecture) -> bool {
    symbol matches Some(sym) ==> {
        &&& sym.0 < glb.symboltab.symbols@.len()
        &&& glb.symboltab.symbol(sym).scope.0 < glb.symboltab.scopes@.len()
    }
}

fn find_class(flags: u32, symbol: Option<SymbolId>, glb: &Architecture) -> (res: &'static str)
    requires
        symbol_placed(symbol, *glb),
    ensures
        res@ == class_of(flags, symbol, *glb),
{
    let persists = flags & Varnode::PERSIST != 0;
    if flags & Varnode::SPACEBASE != 0 || flags & Varnode::IMPLIED != 0 {
        return "other";
    }
    if persists && flags & Varnode::ADDRTIED != 0 {
        return "global";
    }
    if flags & Varnode::CONSTANT != 0 {
        return "constant";
    }
    if !persists {
        if let Some(id) = symbol {
            let sym = glb.symboltab.get_symbol(id);
            if sym.get_category() == Symbol::FUNCTION_PARAMETER {
                return "param";
            }
            if glb.symboltab.get_scope(sym.scope).is_global {
                return "global";
            }
            return "local";
        }
    }
    "other"
}

/// Writes the varnodes of a variable, from one of them on.
pub open spec fn instances_written(start: Seq<Written>, list: Seq<VarnodeId>, i: nat, data: Funcdata) -> Seq<Written>
    decreases list.len() - i,
{
    if i >= list.len() {
        start
    } else {
        instances_written(
            start.push(Written::Open(ELEM_ADDR)).push(
                Written::Unsigned(ATTRIB_REF, data.value(list[i as int]).create_index as u64),
            ).push(Written::Close(ELEM_ADDR)),
            list,
            i + 1,
            data,
        )
    }
}

/// Writes what is known of a variable, up to its data-type.
pub open spec fn high_opened(start: Seq<Written>, rep: VarnodeId, flags: u32, high: HighVariable, data: Funcdata, glb: Architecture) -> Seq<
    Written,
> {
    let classed = start.push(Written::Open(ELEM_HIGH)).push(
        Written::Unsigned(ATTRIB_REPREF, data.value(rep).create_index as u64),
    ).push(Written::Text(ATTRIB_CLASS, class_of(flags, high.symbol, glb)));
    let locked = crate::types::encode::put_if(
        classed,
        high.flags & Varnode::TYPELOCK != 0,
        Written::Bool(ATTRIB_TYPELOCK, true),
    );
    match high.symbol {
        Some(sym) => crate::types::encode::put_if(
            locked.push(Written::Unsigned(ATTRIB_SYMREF, glb.symboltab.symbol(sym).id)),
            high.symboloffset >= 0,
            Written::Signed(ATTRIB_OFFSET, high.symboloffset as i64),
        ),
        None => locked,
    }
}

/// To note that the name or the properties are known leaves what is noted of the data-type.
proof fn other_notes(highflags: u32)
    ensures
        (highflags & !HighVariable::NAMEREPDIRTY) & HighVariable::TYPEDIRTY == highflags & HighVariable::TYPEDIRTY,
        (highflags & !HighVariable::FLAGSDIRTY) & HighVariable::TYPEDIRTY == highflags & HighVariable::TYPEDIRTY,
        (highflags & !HighVariable::NAMEREPDIRTY) & !HighVariable::TYPEDIRTY & HighVariable::TYPE_FINALIZED == highflags
            & !HighVariable::TYPEDIRTY & HighVariable::TYPE_FINALIZED,
        (highflags & !HighVariable::FLAGSDIRTY) & !HighVariable::TYPEDIRTY & HighVariable::TYPE_FINALIZED == highflags
            & !HighVariable::TYPEDIRTY & HighVariable::TYPE_FINALIZED,
{
    assert((highflags & !2u32) & 4u32 == highflags & 4u32 && (highflags & !1u32) & 4u32 == highflags & 4u32 && (highflags
        & !2u32) & !4u32 & 0x80u32 == highflags & !4u32 & 0x80u32 && (highflags & !1u32) & !4u32 & 0x80u32 == highflags
        & !4u32 & 0x80u32) by (bit_vector);
}

impl Funcdata {
    /// The varnode that names a variable has been found.
    pub open spec fn named(self, before: Funcdata, high: HighId, rep: VarnodeId) -> bool {
        let old_high = before.variable(high);
        if old_high.note(HighVariable::NAMEREPDIRTY) {
            &&& rep == before.name_leader(old_high, old_high.inst@.len())
            &&& self.same_but(before, high)
            &&& self.variable(high) == (HighVariable {
                name_representative: Some(rep),
                highflags: old_high.highflags & !HighVariable::NAMEREPDIRTY,
                ..old_high
            })
        } else {
            rep == old_high.name_representative->0 && self == before
        }
    }

    /// The name, the properties and the data-type of a variable have been found, in this order.
    pub open spec fn looked_up(
        self,
        second: Funcdata,
        first: Funcdata,
        before: Funcdata,
        high: HighId,
        rep: VarnodeId,
        glb: Architecture,
    ) -> bool {
        &&& first.named(before, high, rep)
        &&& second.flagged(first, high)
        &&& self.same_but(second, high)
        &&& self.variable(high) == second.typed(second.variable(high), glb)
    }

    /// The varnode that names a variable is one of its own.
    proof fn leader_is_listed(self, high: HighVariable, n: nat)
        requires
            self.instances_defined(high),
            1 <= n <= high.inst@.len(),
        ensures
            self.has_vn(self.name_leader(high, n)),
        decreases n,
    {
        assert(self.defined(high.inst@[n - 1]));
        assert(self.defined(high.inst@[0]));
        if n > 1 {
            self.leader_is_listed(high, (n - 1) as nat);
        }
    }

    /// The data-type of a variable depends only on its varnodes and its symbol.
    proof fn type_kept(self, before: Funcdata, high: HighId, glb: Architecture)
        requires
            self.same_but_highs(before),
            self.variable(high).inst == before.variable(high).inst,
            self.variable(high).symbol == before.variable(high).symbol,
            self.variable(high).symboloffset == before.variable(high).symboloffset,
            self.variable(high).tp == before.variable(high).tp,
            self.variable(high).note(HighVariable::TYPEDIRTY) == before.variable(high).note(HighVariable::TYPEDIRTY),
            self.variable(high).highflags & !HighVariable::TYPEDIRTY & HighVariable::TYPE_FINALIZED == before.variable(
                high,
            ).highflags & !HighVariable::TYPEDIRTY & HighVariable::TYPE_FINALIZED,
        ensures
            self.typed(self.variable(high), glb).tp == before.typed(before.variable(high), glb).tp,
    {
        self.same_leader(
            before,
            before.variable(high),
            self.variable(high),
            glb,
            self.variable(high).inst@.len(),
        );
    }

    /// Writes a variable.
    pub fn high_encode(&mut self, high: HighId, encoder: &mut Encoder, glb: &Architecture) -> (res: Result<()>)
        requires
            old(self).has_high(high),
            old(self).instances_defined(old(self).variable(high)),
            old(self).instances_typed(old(self).variable(high), *glb),
            old(self).symbol_typed(old(self).variable(high), *glb),
            symbol_placed(old(self).variable(high).symbol, *glb),
            crate::types::encode::encodes(*glb),
            !old(self).variable(high).note(HighVariable::NAMEREPDIRTY) ==> (old(self).variable(high).name_representative
                matches Some(rep) && old(self).has_vn(rep)),
            old(self).typed(old(self).variable(high), *glb).tp matches Some(tp) && glb.types.has(tp),
            forall|start: Seq<Written>, id: TypeId|
                glb.types.has(id) ==> #[trigger] crate::types::encode::referable(start, glb.types.dt(id), *glb),
        ensures
            exists|first: Funcdata, second: Funcdata, rep: VarnodeId| #[trigger]
                final(self).looked_up(second, first, *old(self), high, rep, *glb) && ({
                    let known = final(self).variable(high);
                    let doc = crate::types::encode::after_reference(
                        high_opened(old(encoder)@, rep, second.variable(high).flags, known, *final(self), *glb),
                        glb.types.dt(known.tp->0),
                        *glb,
                    );
                    &&& doc.reported(res)
                    &&& final(encoder)@ == if doc.error is None {
                        instances_written(doc.tokens, known.inst@, 0, *final(self)).push(Written::Close(ELEM_HIGH))
                    } else {
                        doc.tokens
                    }
                }),
    {
        let ghost before = *self;
        let vn = self.high_get_name_representative(high);
        let ghost first = *self;
        proof {
            if before.variable(high).note(HighVariable::NAMEREPDIRTY) {
                before.leader_is_listed(before.variable(high), before.variable(high).inst@.len());
            }
            assert(self.instances_exist(self.variable(high))) by {
                assert forall|i: int| #![trigger self.variable(high).inst@[i]]
                    0 <= i < self.variable(high).inst@.len() implies self.has_vn(self.variable(high).inst@[i]) by {
                    assert(before.has_vn(before.variable(high).inst@[i]));
                }
            }
        }
        encoder.open_element(ELEM_HIGH);
        encoder.write_unsigned_integer(ATTRIB_REPREF, self.vn(vn).get_create_index() as u64);
        self.high_update_flags(high);
        let ghost second = *self;
        proof {
            other_notes(before.variable(high).highflags);
            other_notes(first.variable(high).highflags);
            second.type_kept(before, high, *glb);
            assert forall|i: int| #![trigger second.variable(high).inst@[i]]
                0 <= i < second.variable(high).inst@.len() implies second.has_vn(second.variable(high).inst@[i])
                && glb.types.has(second.value(second.variable(high).inst@[i]).tp) by {
                assert(before.has_vn(before.variable(high).inst@[i]));
            }
        }
        let flags: u32 = self.high(high).flags;
        let symbol = self.high(high).symbol;
        encoder.write_string(ATTRIB_CLASS, find_class(flags, symbol, glb));
        if self.high_is_type_lock(high, glb) {
            encoder.write_bool(ATTRIB_TYPELOCK, true);
        }
        if let Some(sym) = symbol {
            encoder.write_unsigned_integer(ATTRIB_SYMREF, glb.symboltab.get_symbol(sym).id);
            if self.high(high).symboloffset >= 0 {
                encoder.write_signed_integer(ATTRIB_OFFSET, self.high(high).symboloffset as i64);
            }
        }
        let tp = self.high(high).tp.unwrap();
        assert(self.looked_up(second, first, before, high, vn, *glb));
        proof {
            glb.types.look(tp);
        }
        match glb.types.get(tp).encode_ref(encoder, glb) {
            Ok(()) => {},
            Err(e) => {
                return Err(e);
            },
        }
        let ghost start = encoder@;
        proof {
            assert forall|i: int| #![trigger self.variable(high).inst@[i]]
                0 <= i < self.variable(high).inst@.len() implies self.has_vn(self.variable(high).inst@[i]) by {
                assert(before.has_vn(before.variable(high).inst@[i]));
            }
        }
        let inst = &self.high(high).inst;
        let mut i: usize = 0;
        while i < inst.len()
            invariant
                i <= inst@.len(),
                self.instances_exist(self.variable(high)),
                inst@ == self.variable(high).inst@,
                instances_written(encoder@, inst@, i as nat, *self) == instances_written(start, inst@, 0, *self),
            decreases inst@.len() - i,
        {
            let instance = inst[i];
            assert(self.variable(high).inst@[i as int] == instance);
            encoder.open_element(ELEM_ADDR);
            encoder.write_unsigned_integer(ATTRIB_REF, self.vn(instance).get_create_index() as u64);
            encoder.close_element(ELEM_ADDR);
            i = i + 1;
        }
        encoder.close_element(ELEM_HIGH);
        Ok(())
    }
}

} // verus!

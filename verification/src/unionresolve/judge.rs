//! How well a data-type fits one operation, and where to look next.
use vstd::prelude::*;
use crate::address::sign_extend;
use crate::architecture::Architecture;
use crate::error::{Error, Result};
use crate::funcdata::Funcdata;
use crate::ids::{OpId, TypeId, VarnodeId};
use crate::opcodes::OpCode;
use crate::types::{TypeFactory, TypeMetatype};
use crate::unionresolve::fit::{
    deref_pointer, follow_on, score_parameter, score_return_type, score_truncation,
};
use crate::unionresolve::tables::{is_aggregate_meta, score_read, score_write};
use crate::varnode::Varnode;

verus! {

#[derive(Copy, Clone, Debug, PartialEq, Eq, Structural)]
pub enum TrialDirection {
    FitDown,
    FitUp,
}

/// A data-type to be tried on a value: on an operation that reads it, or on the one that writes it.
#[derive(Copy, Clone, Debug, PartialEq, Eq, Structural)]
pub struct Trial {
    pub vn: VarnodeId,
    pub op: Option<OpId>,
    pub inslot: i32,
    pub direction: TrialDirection,
    /// Bytes that may be added to a pointer, or zero where that is open.
    pub max_length: i32,
    pub fit_type: TypeId,
    /// The field whose score the trial counts for.
    pub score_index: i32,
}

impl Trial {
    pub open spec fn down(op: OpId, slot: i32, ct: TypeId, index: i32, max: i32, data: Funcdata) -> Trial {
        Trial {
            vn: data.operation(op).inrefs@[slot as int],
            op: Some(op),
            inslot: slot,
            direction: TrialDirection::FitDown,
            fit_type: ct,
            score_index: index,
            max_length: max,
        }
    }

    pub fn new_down(op: OpId, slot: i32, ct: TypeId, index: i32, max: i32, data: &Funcdata) -> (res: Trial)
        requires
            data.has_op(op),
            0 <= slot < data.operation(op).inrefs@.len(),
        ensures
            res == Trial::down(op, slot, ct, index, max, *data),
    {
        Trial {
            vn: data.op(op).get_in(slot),
            op: Some(op),
            inslot: slot,
            direction: TrialDirection::FitDown,
            fit_type: ct,
            score_index: index,
            max_length: max,
        }
    }

    pub open spec fn up(vn: VarnodeId, ct: TypeId, index: i32, max: i32) -> Trial {
        Trial {
            vn,
            op: None,
            inslot: -1i32,
            direction: TrialDirection::FitUp,
            fit_type: ct,
            score_index: index,
            max_length: max,
        }
    }

    pub fn new_up(vn: VarnodeId, ct: TypeId, index: i32, max: i32) -> (res: Trial)
        ensures
            res == Trial::up(vn, ct, index, max),
    {
        Trial {
            vn,
            op: None,
            inslot: -1,
            direction: TrialDirection::FitUp,
            fit_type: ct,
            score_index: index,
            max_length: max,
        }
    }

    /// A trial that speaks of what is there.
    pub open spec fn fits(self, data: Funcdata, types: TypeFactory) -> bool {
        &&& data.has_vn(self.vn)
        &&& types.has(self.fit_type)
        &&& self.direction is FitDown ==> {
            &&& self.op is Some
            &&& data.has_op(self.op->0)
            &&& 0 <= self.inslot < data.operation(self.op->0).inrefs@.len()
        }
    }
}

/// What a trial gives: a score, and a data-type for the value that the operation
/// writes or for one that it reads, with the bytes that may be added to a pointer.
#[derive(Copy, Clone, Debug)]
pub struct Verdict {
    pub score: i32,
    pub out: Option<(TypeId, i32)>,
    pub input: Option<(i32, TypeId, i32)>,
}

pub open spec fn verdict(score: i32) -> Verdict {
    Verdict { score, out: None, input: None }
}

fn plain_verdict(score: i32) -> (res: Verdict)
    ensures
        res == verdict(score),
{
    Verdict { score, out: None, input: None }
}

/// Where the bytes that a truncation keeps start in what it truncates.
pub open spec fn kept_from(op: OpId, data: Funcdata) -> i32 {
    let o = data.operation(op);
    let whole = data.value(o.inrefs@[0]);
    let lsb = data.value(o.inrefs@[1]).loc.offset as i32;
    if whole.loc.base->0.big_endian {
        ((whole.size - data.value(o.output->0).size) as i32).wrapping_sub(lsb)
    } else {
        lsb
    }
}

pub fn kept_byte_offset(op: OpId, data: &Funcdata) -> (res: i32)
    requires
        data.flowing(),
        data.has_op(op),
        data.operation(op).opcode == OpCode::Subpiece,
    ensures
        res == kept_from(op, *data),
{
    assert(data.shaped(data.operation(op)));
    assert(data.has_vn(data.operation(op).inrefs@[0]));
    assert(data.has_vn(data.operation(op).inrefs@[1]));
    let pcode = data.op(op);
    let out_size: i32 = data.vn(pcode.get_out().unwrap()).get_size();
    let lsb: i32 = data.vn(pcode.get_in(1)).get_offset() as i32;
    let vn = data.vn(pcode.get_in(0));
    if vn.get_space().unwrap().is_big_endian() {
        (vn.get_size() - out_size).wrapping_sub(lsb)
    } else {
        lsb
    }
}

/// The size of the elements that a value counts, if it is a product with a constant.
pub open spec fn element_bytes(vn: Varnode, data: Funcdata) -> i32 {
    let mult = data.operation(vn.def->0);
    let by = data.value(mult.inrefs@[1]);
    if vn.flag(Varnode::WRITTEN) && mult.opcode == OpCode::IntMult && by.flag(Varnode::CONSTANT) {
        by.loc.offset as i32
    } else {
        1i32
    }
}

fn find_element_bytes(vn: VarnodeId, data: &Funcdata) -> (res: i32)
    requires
        data.flowing(),
        data.has_vn(vn),
    ensures
        res == element_bytes(data.value(vn), *data),
{
    let vn_data = data.vn(vn);
    if vn_data.is_written() {
        assert(data.has_op(data.value(vn).def->0));
        let def = vn_data.get_def().unwrap();
        let mult_op = data.op(def);
        if mult_op.code() == OpCode::IntMult {
            assert(data.shaped(data.operation(def)));
            assert(data.has_vn(data.operation(def).inrefs@[1]));
            let mult_vn = data.vn(mult_op.get_in(1));
            if mult_vn.is_constant() {
                return mult_vn.get_offset() as i32;
            }
        }
    }
    1
}

/// What a constant that is added to a pointer says.
pub open spec fn constant_added(vn: Varnode) -> i64 {
    crate::address::extended(vn.loc.offset as i64, vn.size * 8 - 1)
}

/// What judging a pointer that something is added to does.
pub open spec fn judges_sum(
    after: Architecture,
    before: Architecture,
    trial: Trial,
    data: Funcdata,
    res: Result<Verdict>,
) -> bool {
    let vn = data.value(data.operation(trial.op->0).inrefs@[1 - trial.inslot]);
    let off = constant_added(vn);
    let target = before.types.dt(before.types.dt(trial.fit_type).pointer().ptrto->0);
    let bytes = element_bytes(vn, data);
    if vn.flag(Varnode::CONSTANT) {
        if trial.max_length != 0 && !(0 <= off < trial.max_length) {
            after == before && res == Ok::<Verdict, Error>(verdict(-1i32))
        } else {
            exists|end: Result<Option<TypeId>>| #[trigger]
                crate::unionresolve::fit::follows_on(after, before, trial.fit_type, off, u32::MAX as nat, end) && match end {
                    Ok(Some(base)) => res == Ok::<Verdict, Error>(
                        Verdict {
                            score: 5,
                            out: Some((base, after.types.dt(after.types.dt(base).pointer().ptrto->0).size)),
                            input: None,
                        },
                    ),
                    Ok(None) => res == Ok::<Verdict, Error>(verdict(0)),
                    Err(e) => res == Err::<Verdict, Error>(e),
                }
        }
    } else {
        &&& after == before
        &&& res == Ok::<Verdict, Error>(
            if trial.max_length == 0 {
                verdict(5)
            } else if target.align_size == bytes {
                Verdict {
                    score: if bytes == trial.max_length {
                        2
                    } else {
                        5
                    },
                    out: Some((trial.fit_type, trial.max_length)),
                    input: None,
                }
            } else {
                verdict(1)
            },
        )
    }
}

fn judge_sum(trial: &Trial, data: &Funcdata, glb: &mut Architecture) -> (res: Result<Verdict>)
    requires
        old(glb).workable(),
        data.flowing(),
        trial.fits(*data, old(glb).types),
        trial.direction is FitDown,
        data.operation(trial.op->0).inrefs@.len() == 2,
        old(glb).types.dt(trial.fit_type).is_pointer(),
    ensures
        final(glb).grew(*old(glb)),
        judges_sum(*final(glb), *old(glb), *trial, *data, res),
        res matches Ok(v) ==> v.input is None && (v.out is Some ==> final(glb).types.has((v.out->0).0)),
{
    let ghost before = *glb;
    proof {
        glb.types.look(trial.fit_type);
        glb.types.parts(glb.types.dt(trial.fit_type));
        crate::types::suit::grew_never(*glb);
        assert(data.has_vn(data.operation(trial.op->0).inrefs@[1 - trial.inslot]));
    }
    let vn = data.op(trial.op.unwrap()).get_in(1 - trial.inslot);
    if data.vn(vn).is_constant() {
        let vn_data = data.vn(vn);
        let off: i64 = sign_extend(vn_data.get_offset() as i64, vn_data.get_size() * 8 - 1);
        if trial.max_length != 0 && (off < 0 || off >= trial.max_length as i64) {
            return Ok(plain_verdict(-1));
        }
        let end = follow_on(glb, trial.fit_type, off, u32::MAX);
        assert(crate::unionresolve::fit::follows_on(*glb, before, trial.fit_type, off, u32::MAX as nat, end));
        match end {
            Ok(Some(base)) => {
                proof {
                    glb.types.look(base);
                    glb.types.parts(glb.types.dt(base));
                }
                let max_length: i32 = glb.types.get(glb.types.get(base).get_ptr_to()).get_size();
                Ok(Verdict { score: 5, out: Some((base, max_length)), input: None })
            },
            Ok(None) => Ok(plain_verdict(0)),
            Err(e) => Err(e),
        }
    } else if trial.max_length != 0 {
        let el_size: i32 = find_element_bytes(vn, data);
        let base_ptrto = glb.types.get(trial.fit_type).get_ptr_to();
        if glb.types.get(base_ptrto).get_align_size() == el_size {
            Ok(
                Verdict {
                    score: if el_size == trial.max_length {
                        2
                    } else {
                        5
                    },
                    out: Some((trial.fit_type, trial.max_length)),
                    input: None,
                },
            )
        } else {
            Ok(plain_verdict(1))
        }
    } else {
        Ok(plain_verdict(5))
    }
}

/// What judging a data-type that is stored or is stored through does.
pub open spec fn judges_store(
    after: Architecture,
    before: Architecture,
    trial: Trial,
    last: bool,
    data: Funcdata,
    res: Result<Verdict>,
) -> bool {
    let op = trial.op->0;
    let o = data.operation(op);
    let through = before.types.dt(data.read_facing(o.inrefs@[1], op, before.types));
    if trial.inslot == 1 {
        exists|found: Result<(i32, Option<TypeId>)>| #[trigger]
            crate::unionresolve::fit::dereferences(
                after,
                before,
                trial.fit_type,
                trial.max_length,
                data.value(o.inrefs@[2]).size,
                found,
            ) && match found {
                Ok((score, tp)) => res == Ok::<Verdict, Error>(
                    Verdict {
                        score,
                        out: None,
                        input: if tp is Some && !last {
                            Some((2i32, tp->0, 0i32))
                        } else {
                            None
                        },
                    },
                ),
                Err(e) => res == Err::<Verdict, Error>(e),
            }
    } else if trial.inslot == 2 {
        if before.types.dt(trial.fit_type).metatype == TypeMetatype::Code {
            after == before && res == Ok::<Verdict, Error>(verdict(-5i32))
        } else if !last && through.is_pointer() {
            &&& after.same_program(before)
            &&& exists|ptr: Result<TypeId>| #[trigger]
                after.types.makes_pointer(
                    before.types,
                    through.size,
                    crate::types::pointers::plain_pointer(
                        before.types.element_form(trial.fit_type),
                        through.pointer().wordsize,
                    ),
                    Seq::empty(),
                    0,
                    ptr,
                ) && match ptr {
                    Ok(tp) => res == Ok::<Verdict, Error>(
                        Verdict { score: 1, out: None, input: Some((1i32, tp, before.types.dt(trial.fit_type).size)) },
                    ),
                    Err(e) => res == Err::<Verdict, Error>(e),
                }
        } else {
            after == before && res == Ok::<Verdict, Error>(verdict(1))
        }
    } else {
        after == before && res == Ok::<Verdict, Error>(verdict(0))
    }
}

fn judge_store(trial: &Trial, last: bool, data: &Funcdata, glb: &mut Architecture) -> (res: Result<Verdict>)
    requires
        old(glb).workable(),
        old(glb).types.spaces_sizeless(),
        old(glb).roomy(9),
        data.flowing(),
        data.typed_in(old(glb).types),
        trial.fits(*data, old(glb).types),
        trial.direction is FitDown,
        data.operation(trial.op->0).opcode == OpCode::Store,
    ensures
        final(glb).grew(*old(glb)),
        judges_store(*final(glb), *old(glb), *trial, last, *data, res),
        res matches Ok(v) ==> v.out is None && (v.input matches Some(i) ==> {
            &&& 0 <= i.0 < data.operation(trial.op->0).inrefs@.len()
            &&& final(glb).types.has(i.1)
        }),
{
    let ghost before = *glb;
    let op = trial.op.unwrap();
    proof {
        crate::types::suit::grew_never(*glb);
        assert(data.shaped(data.operation(op)));
        assert(data.has_vn(data.operation(op).inrefs@[1]));
        assert(data.has_vn(data.operation(op).inrefs@[2]));
    }
    if trial.inslot == 1 {
        let value = data.op(op).get_in(2);
        let found = deref_pointer(trial.fit_type, trial.max_length, data.vn(value).get_size(), glb);
        assert(crate::unionresolve::fit::dereferences(
            *glb,
            before,
            trial.fit_type,
            trial.max_length,
            data.value(data.operation(op).inrefs@[2]).size,
            found,
        ));
        match found {
            Ok((score, tp)) => {
                let input = match tp {
                    Some(tp) => if last {
                        None
                    } else {
                        Some((2, tp, 0))
                    },
                    None => None,
                };
                Ok(Verdict { score, out: None, input })
            },
            Err(e) => Err(e),
        }
    } else if trial.inslot == 2 {
        if glb.types.get(trial.fit_type).get_metatype() == TypeMetatype::Code {
            return Ok(plain_verdict(-5));
        }
        let store_vn = data.op(op).get_in(1);
        let store_ptr = data.vn_get_type_read_facing(store_vn, op, glb);
        proof {
            glb.types.look(store_ptr);
            glb.types.parts(glb.types.dt(store_ptr));
            assert(glb.suits(glb.types.dt(store_ptr)));
        }
        let store_dt = glb.types.get(store_ptr);
        if !last && store_dt.get_metatype() == TypeMetatype::Ptr {
            let store_size: i32 = store_dt.get_size();
            let wordsize: u32 = store_dt.get_word_size();
            let fit_size: i32 = glb.types.get(trial.fit_type).get_size();
            let ptr = glb.element_pointer(store_size, trial.fit_type, wordsize);
            assert(glb.types.makes_pointer(
                before.types,
                store_size,
                crate::types::pointers::plain_pointer(before.types.element_form(trial.fit_type), wordsize),
                Seq::empty(),
                0,
                ptr,
            ));
            match ptr {
                Ok(tp) => Ok(Verdict { score: 1, out: None, input: Some((1, tp, fit_size)) }),
                Err(e) => Err(e),
            }
        } else {
            Ok(plain_verdict(1))
        }
    } else {
        Ok(plain_verdict(0))
    }
}

/// What judging a data-type by an operation that reads it does.
pub open spec fn judges_down(
    after: Architecture,
    before: Architecture,
    trial: Trial,
    last: bool,
    data: Funcdata,
    base: TypeId,
    res: Result<Verdict>,
) -> bool {
    let op = trial.op->0;
    let o = data.operation(op);
    let d = before.types.dt(trial.fit_type);
    let meta = d.metatype;
    let target = before.types.dt(d.pointer().ptrto->0);
    let quiet = |v: Verdict| after == before && res == Ok::<Verdict, Error>(v);
    match o.opcode {
        OpCode::Copy | OpCode::Multiequal | OpCode::Indirect => quiet(
            Verdict { score: 0, out: Some((trial.fit_type, trial.max_length)), input: None },
        ),
        OpCode::Load => exists|found: Result<(i32, Option<TypeId>)>| #[trigger]
            crate::unionresolve::fit::dereferences(
                after,
                before,
                trial.fit_type,
                trial.max_length,
                data.value(o.output->0).size,
                found,
            ) && match found {
                Ok((score, tp)) => res == Ok::<Verdict, Error>(
                    Verdict {
                        score,
                        out: match tp {
                            Some(tp) => Some((tp, 0i32)),
                            None => None,
                        },
                        input: None,
                    },
                ),
                Err(e) => res == Err::<Verdict, Error>(e),
            },
        OpCode::Store => judges_store(after, before, trial, last, data, res),
        OpCode::Call | OpCode::Callother => quiet(
            verdict(
                if trial.inslot > 0 {
                    crate::unionresolve::fit::parameter_fit(
                        trial.fit_type,
                        data.call_proto(op),
                        (trial.inslot - 1) as i32,
                        before.types,
                    )
                } else {
                    0
                },
            ),
        ),
        OpCode::Callind => quiet(
            verdict(
                if trial.inslot != 0 {
                    crate::unionresolve::fit::parameter_fit(
                        trial.fit_type,
                        data.call_proto(op),
                        (trial.inslot - 1) as i32,
                        before.types,
                    )
                } else if meta != TypeMetatype::Ptr {
                    0
                } else if target.metatype == TypeMetatype::Code {
                    10
                } else {
                    -10i32
                },
            ),
        ),
        OpCode::Return => quiet(
            verdict(crate::unionresolve::fit::return_fit(trial.fit_type, Some(data.proto), before.types)),
        ),
        OpCode::IntAdd | OpCode::IntSub | OpCode::Ptrsub => match meta {
            TypeMetatype::Ptr => judges_sum(after, before, trial, data, res),
            TypeMetatype::Int | TypeMetatype::Uint | TypeMetatype::Unknown => quiet(
                Verdict { score: 1, out: Some((trial.fit_type, 0i32)), input: None },
            ),
            TypeMetatype::Bool => quiet(verdict(-3i32)),
            _ => quiet(verdict(-5i32)),
        },
        OpCode::Subpiece => {
            let (score, tp) = crate::unionresolve::fit::truncation_fit(
                trial.fit_type,
                data.value(o.output->0).size,
                kept_from(op, data),
                base,
                before,
            );
            quiet(
                Verdict {
                    score,
                    out: match tp {
                        Some(tp) => Some((tp, 0i32)),
                        None => None,
                    },
                    input: None,
                },
            )
        },
        OpCode::Ptradd => quiet(
            if meta == TypeMetatype::Ptr {
                if trial.inslot != 0 {
                    verdict(-10i32)
                } else if target.align_size == data.value(o.inrefs@[2]).loc.offset {
                    Verdict { score: 10, out: Some((trial.fit_type, 0i32)), input: None }
                } else {
                    verdict(0)
                }
            } else if crate::unionresolve::tables::aggregate(meta) {
                verdict(-5i32)
            } else {
                verdict(1)
            },
        ),
        _ => quiet(verdict(crate::unionresolve::tables::fit_of_read(o.opcode, trial.inslot, meta))),
    }
}

/// The prototype that a call goes by has data-types of the program.
proof fn call_typed(data: Funcdata, op: OpId, types: TypeFactory)
    requires
        data.typed_in(types),
        data.call_proto(op) is Some,
    ensures
        crate::unionresolve::proto_typed(data.call_proto(op)->0, types),
{
    data.call_is_listed(op, 0);
}

fn score_argument(trial: &Trial, data: &Funcdata, types: &TypeFactory) -> (res: i32)
    requires
        types.sound(),
        data.typed_in(*types),
        trial.op is Some,
        trial.inslot > i32::MIN,
        types.has(trial.fit_type),
    ensures
        res == crate::unionresolve::fit::parameter_fit(
            trial.fit_type,
            data.call_proto(trial.op->0),
            (trial.inslot - 1) as i32,
            *types,
        ),
{
    let proto = data.get_call_specs_op(trial.op.unwrap());
    proof {
        if proto is Some {
            call_typed(*data, trial.op->0, *types);
        }
    }
    score_parameter(trial.fit_type, proto, trial.inslot - 1, types)
}

pub fn judge_down(trial: &Trial, last: bool, data: &Funcdata, base: TypeId, glb: &mut Architecture) -> (res: Result<Verdict>)
    requires
        old(glb).workable(),
        old(glb).types.spaces_sizeless(),
        old(glb).roomy(9),
        data.flowing(),
        data.typed_in(old(glb).types),
        trial.fits(*data, old(glb).types),
        trial.direction is FitDown,
    ensures
        final(glb).grew(*old(glb)),
        judges_down(*final(glb), *old(glb), *trial, last, *data, base, res),
        res matches Ok(v) ==> {
            &&& v.out is Some ==> data.operation(trial.op->0).output is Some && final(glb).types.has((v.out->0).0)
            &&& v.input matches Some(i) ==> 0 <= i.0 < data.operation(trial.op->0).inrefs@.len()
                && final(glb).types.has(i.1)
        },
{
    let ghost before = *glb;
    let op = trial.op.unwrap();
    proof {
        glb.types.look(trial.fit_type);
        glb.types.parts(glb.types.dt(trial.fit_type));
        crate::types::suit::grew_never(*glb);
        assert(data.shaped(data.operation(op)));
        assert(data.has_op(op));
    }
    let code = data.op(op).code();
    let meta = glb.types.get(trial.fit_type).get_metatype();
    match code {
        OpCode::Copy | OpCode::Multiequal | OpCode::Indirect => Ok(
            Verdict { score: 0, out: Some((trial.fit_type, trial.max_length)), input: None },
        ),
        OpCode::Load => {
            let out = data.op(op).get_out().unwrap();
            let found = deref_pointer(trial.fit_type, trial.max_length, data.vn(out).get_size(), glb);
            assert(crate::unionresolve::fit::dereferences(
                *glb,
                before,
                trial.fit_type,
                trial.max_length,
                data.value(data.operation(op).output->0).size,
                found,
            ));
            match found {
                Ok((score, tp)) => {
                    let out = match tp {
                        Some(tp) => Some((tp, 0)),
                        None => None,
                    };
                    Ok(Verdict { score, out, input: None })
                },
                Err(e) => Err(e),
            }
        },
        OpCode::Store => judge_store(trial, last, data, glb),
        OpCode::Call | OpCode::Callother => if trial.inslot > 0 {
            Ok(plain_verdict(score_argument(trial, data, &glb.types)))
        } else {
            Ok(plain_verdict(0))
        },
        OpCode::Callind => if trial.inslot != 0 {
            Ok(plain_verdict(score_argument(trial, data, &glb.types)))
        } else if meta == TypeMetatype::Ptr {
            let ptrto = glb.types.get(trial.fit_type).get_ptr_to();
            if glb.types.get(ptrto).get_metatype() == TypeMetatype::Code {
                Ok(plain_verdict(10))
            } else {
                Ok(plain_verdict(-10))
            }
        } else {
            Ok(plain_verdict(0))
        },
        OpCode::Return => Ok(plain_verdict(score_return_type(trial.fit_type, Some(&data.proto), &glb.types))),
        OpCode::IntAdd | OpCode::IntSub | OpCode::Ptrsub => match meta {
            TypeMetatype::Ptr => judge_sum(trial, data, glb),
            TypeMetatype::Int | TypeMetatype::Uint | TypeMetatype::Unknown => Ok(
                Verdict { score: 1, out: Some((trial.fit_type, 0)), input: None },
            ),
            TypeMetatype::Bool => Ok(plain_verdict(-3)),
            _ => Ok(plain_verdict(-5)),
        },
        OpCode::Subpiece => {
            let offset: i32 = kept_byte_offset(op, data);
            let size: i32 = data.vn(data.op(op).get_out().unwrap()).get_size();
            let (score, tp) = score_truncation(trial.fit_type, size, offset, base, glb);
            let out = match tp {
                Some(tp) => Some((tp, 0)),
                None => None,
            };
            Ok(Verdict { score, out, input: None })
        },
        OpCode::Ptradd => {
            if meta == TypeMetatype::Ptr {
                if trial.inslot != 0 {
                    return Ok(plain_verdict(-10));
                }
                assert(data.has_vn(data.operation(op).inrefs@[2]));
                let ptrto = glb.types.get(trial.fit_type).get_ptr_to();
                proof {
                    glb.types.look(ptrto);
                }
                if glb.types.get(ptrto).get_align_size() as u64 == data.vn(data.op(op).get_in(2)).get_offset() {
                    Ok(Verdict { score: 10, out: Some((trial.fit_type, 0)), input: None })
                } else {
                    Ok(plain_verdict(0))
                }
            } else if is_aggregate_meta(meta) {
                Ok(plain_verdict(-5))
            } else {
                Ok(plain_verdict(1))
            }
        },
        _ => Ok(plain_verdict(score_read(code, trial.inslot, meta))),
    }
}

/// What judging a data-type by the operation that writes the value does. The
/// value is written.
pub open spec fn judges_up(
    after: Architecture,
    before: Architecture,
    trial: Trial,
    data: Funcdata,
    res: Result<Verdict>,
) -> bool {
    let op = data.value(trial.vn).def->0;
    let o = data.operation(op);
    let d = before.types.dt(trial.fit_type);
    let meta = d.metatype;
    let target = before.types.dt(d.pointer().ptrto->0);
    let in1 = data.value(o.inrefs@[1]);
    let quiet = |v: Verdict| after == before && res == Ok::<Verdict, Error>(v);
    match o.opcode {
        OpCode::Copy | OpCode::Multiequal | OpCode::Indirect => quiet(
            Verdict { score: 0, out: None, input: Some((0i32, trial.fit_type, trial.max_length)) },
        ),
        OpCode::Load => {
            &&& after.same_program(before)
            &&& exists|ptr: Result<TypeId>| #[trigger]
                after.types.makes_pointer(
                    before.types,
                    in1.size,
                    crate::types::pointers::plain_pointer(before.types.element_form(trial.fit_type), 1),
                    Seq::empty(),
                    0,
                    ptr,
                ) && match ptr {
                    Ok(tp) => res == Ok::<Verdict, Error>(
                        Verdict { score: 0, out: None, input: Some((1i32, tp, d.size)) },
                    ),
                    Err(e) => res == Err::<Verdict, Error>(e),
                }
        },
        OpCode::Call | OpCode::Callother | OpCode::Callind => quiet(
            verdict(crate::unionresolve::fit::return_fit(trial.fit_type, data.call_proto(op), before.types)),
        ),
        OpCode::IntAdd | OpCode::IntSub | OpCode::Ptrsub => quiet(
            verdict(
                if meta == TypeMetatype::Ptr {
                    if trial.max_length == 0 && in1.flag(Varnode::CONSTANT) && target.align_size
                        == in1.loc.offset as i32 {
                        6
                    } else {
                        5
                    }
                } else if meta == TypeMetatype::Int || meta == TypeMetatype::Uint {
                    5
                } else if crate::unionresolve::tables::aggregate(meta) {
                    -5i32
                } else {
                    1
                },
            ),
        ),
        OpCode::Subpiece => quiet(
            verdict(
                if meta == TypeMetatype::Int || meta == TypeMetatype::Uint || meta == TypeMetatype::Bool {
                    if in1.loc.offset == 0 {
                        3
                    } else {
                        1
                    }
                } else {
                    -5i32
                },
            ),
        ),
        OpCode::Ptradd => quiet(
            verdict(
                if meta == TypeMetatype::Ptr {
                    if target.align_size == data.value(o.inrefs@[2]).loc.offset {
                        10
                    } else {
                        2
                    }
                } else if crate::unionresolve::tables::aggregate(meta) {
                    -5i32
                } else {
                    1
                },
            ),
        ),
        _ => quiet(verdict(crate::unionresolve::tables::fit_of_write(o.opcode, meta, d.size))),
    }
}

pub fn judge_up(trial: &Trial, data: &Funcdata, glb: &mut Architecture) -> (res: Result<Verdict>)
    requires
        old(glb).workable(),
        old(glb).types.spaces_sizeless(),
        old(glb).roomy(9),
        data.flowing(),
        data.typed_in(old(glb).types),
        trial.fits(*data, old(glb).types),
        data.value(trial.vn).flag(Varnode::WRITTEN),
    ensures
        final(glb).grew(*old(glb)),
        judges_up(*final(glb), *old(glb), *trial, *data, res),
        res matches Ok(v) ==> v.out is None && (v.input matches Some(i) ==> {
            &&& 0 <= i.0 < data.operation(data.value(trial.vn).def->0).inrefs@.len()
            &&& final(glb).types.has(i.1)
        }),
{
    let ghost before = *glb;
    assert(data.has_vn(trial.vn));
    let op = data.vn(trial.vn).get_def().unwrap();
    proof {
        glb.types.look(trial.fit_type);
        glb.types.parts(glb.types.dt(trial.fit_type));
        crate::types::suit::grew_never(*glb);
        assert(data.has_op(op));
        assert(data.shaped(data.operation(op)));
    }
    let code = data.op(op).code();
    let meta = glb.types.get(trial.fit_type).get_metatype();
    let fit_size: i32 = glb.types.get(trial.fit_type).get_size();
    match code {
        OpCode::Copy | OpCode::Multiequal | OpCode::Indirect => Ok(
            Verdict { score: 0, out: None, input: Some((0, trial.fit_type, trial.max_length)) },
        ),
        OpCode::Load => {
            assert(data.has_vn(data.operation(op).inrefs@[1]));
            let ptr_size: i32 = data.vn(data.op(op).get_in(1)).get_size();
            let ptr = glb.element_pointer(ptr_size, trial.fit_type, 1);
            assert(glb.types.makes_pointer(
                before.types,
                ptr_size,
                crate::types::pointers::plain_pointer(before.types.element_form(trial.fit_type), 1),
                Seq::empty(),
                0,
                ptr,
            ));
            match ptr {
                Ok(tp) => Ok(Verdict { score: 0, out: None, input: Some((1, tp, fit_size)) }),
                Err(e) => Err(e),
            }
        },
        OpCode::Call | OpCode::Callother | OpCode::Callind => {
            let proto = data.get_call_specs_op(op);
            proof {
                if proto is Some {
                    call_typed(*data, op, glb.types);
                }
            }
            Ok(plain_verdict(score_return_type(trial.fit_type, proto, &glb.types)))
        },
        OpCode::IntAdd | OpCode::IntSub | OpCode::Ptrsub => {
            if meta == TypeMetatype::Ptr {
                assert(data.has_vn(data.operation(op).inrefs@[1]));
                let in1 = data.vn(data.op(op).get_in(1));
                if trial.max_length == 0 && in1.is_constant() {
                    let ptrto = glb.types.get(trial.fit_type).get_ptr_to();
                    if glb.types.get(ptrto).get_align_size() == in1.get_offset() as i32 {
                        return Ok(plain_verdict(6));
                    }
                }
                Ok(plain_verdict(5))
            } else if meta == TypeMetatype::Int || meta == TypeMetatype::Uint {
                Ok(plain_verdict(5))
            } else if is_aggregate_meta(meta) {
                Ok(plain_verdict(-5))
            } else {
                Ok(plain_verdict(1))
            }
        },
        OpCode::Subpiece => {
            assert(data.has_vn(data.operation(op).inrefs@[1]));
            if meta == TypeMetatype::Int || meta == TypeMetatype::Uint || meta == TypeMetatype::Bool {
                if data.vn(data.op(op).get_in(1)).get_offset() == 0 {
                    Ok(plain_verdict(3))
                } else {
                    Ok(plain_verdict(1))
                }
            } else {
                Ok(plain_verdict(-5))
            }
        },
        OpCode::Ptradd => {
            assert(data.has_vn(data.operation(op).inrefs@[2]));
            if meta == TypeMetatype::Ptr {
                let ptrto = glb.types.get(trial.fit_type).get_ptr_to();
                proof {
                    glb.types.look(ptrto);
                }
                if glb.types.get(ptrto).get_align_size() as u64 == data.vn(data.op(op).get_in(2)).get_offset() {
                    Ok(plain_verdict(10))
                } else {
                    Ok(plain_verdict(2))
                }
            } else if is_aggregate_meta(meta) {
                Ok(plain_verdict(-5))
            } else {
                Ok(plain_verdict(1))
            }
        },
        _ => Ok(plain_verdict(score_write(code, meta, fit_size))),
    }
}

} // verus!

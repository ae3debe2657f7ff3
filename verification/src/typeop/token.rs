//! The data-types that a language gives to the outcome of operations.
use vstd::prelude::*;
use crate::architecture::Architecture;
use crate::cpool::ConstantPool;
use crate::error::{Error, Result};
use crate::funcdata::Funcdata;
use crate::ids::{OpId, TypeId};
use crate::opcodes::OpCode;
use crate::space::AddrSpace;
use crate::typeop::cast::Facing;
use crate::typeop::local::{get_output_local, give_base};
use crate::typeop::ops::TypeOpSubpiece;
use crate::typeop::TypeOpMeta;
use crate::types::{Datatype, TypeMetatype};
use crate::unionresolve::fit::too_many_types;
use crate::userop::UserOpManage;

verus! {

/// The data-type of an outcome, or the word that the arithmetic of the language decides.
#[derive(Copy, Clone, Debug, PartialEq, Eq, Structural)]
pub enum TokenPlan {
    Known(TypeId),
    Arithmetic,
}

/// A data-type that was asked for is known.
pub open spec fn known(asked: Result<TypeId>) -> Result<TokenPlan> {
    match asked {
        Ok(ct) => Ok(TokenPlan::Known(ct)),
        Err(e) => Err(e),
    }
}

fn make_known(asked: Result<TypeId>) -> (res: Result<TokenPlan>)
    ensures
        res == known(asked),
{
    match asked {
        Ok(ct) => Ok(TokenPlan::Known(ct)),
        Err(e) => Err(e),
    }
}

/// What asking for a base data-type as an outcome does.
pub open spec fn tokens_base(
    after: Architecture,
    before: Architecture,
    size: i32,
    meta: TypeMetatype,
    res: Result<TokenPlan>,
) -> bool {
    exists|made: Result<TypeId>| #[trigger]
        crate::typeop::local::gives_base(after, before, size, meta, made) && res == known(made)
}

/// What asking for a pointer into what a pointer leads to does.
pub open spec fn tokens_inside(
    after: Architecture,
    before: Architecture,
    op: OpId,
    ptype: TypeId,
    data: Funcdata,
    res: Result<TokenPlan>,
) -> bool {
    let ws = before.types.dt(ptype).pointer().wordsize;
    let offset = data.value(data.operation(op).inrefs@[1]).loc.offset.wrapping_mul(ws as u64) as i64;
    if !before.roomy(9) {
        after == before && (res matches Err(e) && crate::unionresolve::fit::out_of_room(e))
    } else {
        exists|mid: Architecture, new_off: i64, par: Option<TypeId>, par_off: i64, r: Result<Option<TypeId>>| #[trigger]
            crate::types::chain::follows_down(
                mid,
                before,
                ptype,
                false,
                offset,
                new_off,
                None,
                par,
                0,
                par_off,
                r,
            ) && match r {
                Err(e) => after == mid && res == Err::<TokenPlan, Error>(e),
                Ok(found) => if new_off == 0 && found is Some {
                    after == mid && res == Ok::<TokenPlan, Error>(TokenPlan::Known(found->0))
                } else {
                    tokens_byte_pointer(after, mid, crate::typeop::local::size_out(op, data), ws, res)
                },
            }
    }
}

/// What asking for a pointer to a byte as an outcome does.
pub open spec fn tokens_byte_pointer(
    after: Architecture,
    before: Architecture,
    size: i32,
    ws: u32,
    res: Result<TokenPlan>,
) -> bool {
    exists|made: Result<TypeId>| #[trigger]
        crate::types::suit::makes_byte_pointer(after, before, size, ws, made) && res == known(made)
}

fn token_inside(op: OpId, ptype: TypeId, data: &Funcdata, glb: &mut Architecture) -> (res: Result<TokenPlan>)
    requires
        old(glb).workable(),
        old(glb).types.has(ptype),
        old(glb).types.dt(ptype).is_pointer(),
        data.flowing(),
        data.has_op(op),
        data.operation(op).opcode == OpCode::Ptrsub,
        crate::typeop::local::size_out(op, *data) <= 8,
    ensures
        final(glb).grew(*old(glb)),
        tokens_inside(*final(glb), *old(glb), op, ptype, *data, res),
{
    let ghost before = *glb;
    proof {
        crate::types::suit::grew_never(*glb);
        assert(data.shaped(data.operation(op)));
        assert(data.has_vn(data.operation(op).inrefs@[1]));
        glb.types.look(ptype);
        glb.types.parts(glb.types.dt(ptype));
        assert(glb.suits(glb.types.dt(ptype)));
    }
    if !glb.has_room_for(9) {
        return Err(too_many_types());
    }
    let wordsize: u32 = glb.types.get(ptype).get_word_size();
    let raw_offset: u64 = data.vn(data.op(op).get_in(1)).get_offset();
    let start: i64 = AddrSpace::address_to_byte(raw_offset, wordsize) as i64;
    let mut offset: i64 = start;
    let mut par: Option<TypeId> = None;
    let mut par_off: i64 = 0;
    let r = glb.follow_chain(ptype, &mut offset, &mut par, &mut par_off, false);
    let ghost mid = *glb;
    assert(crate::types::chain::follows_down(mid, before, ptype, false, start, offset, None, par, 0, par_off, r));
    match r {
        Err(e) => Err(e),
        Ok(found) => {
            if offset == 0 {
                if let Some(ct) = found {
                    return Ok(TokenPlan::Known(ct));
                }
            }
            let size: i32 = data.vn(data.op(op).get_out().unwrap()).get_size();
            let made = glb.byte_pointer(size, wordsize);
            proof {
                crate::types::suit::grew_twice(*glb, mid, before);
            }
            make_known(made)
        },
    }
}

/// What asking for the data-type of the outcome of an operation does.
pub open spec fn tokens(
    after: Architecture,
    before: Architecture,
    opcode: OpCode,
    meta: Option<TypeOpMeta>,
    op: OpId,
    facing: Facing,
    data: Funcdata,
    userops: UserOpManage,
    cpool: ConstantPool,
    at_address: Option<TypeId>,
    res: Result<TokenPlan>,
) -> bool {
    let types = before.types;
    let is = |ct: TypeId| after == before && res == Ok::<TokenPlan, Error>(TokenPlan::Known(ct));
    let written = facing.written->0;
    let first = types.dt(facing.reads@[0]);
    let size = crate::typeop::local::size_out(op, data);
    match opcode {
        OpCode::IntAdd
        | OpCode::IntSub
        | OpCode::Int2comp
        | OpCode::IntNegate
        | OpCode::IntXor
        | OpCode::IntAnd
        | OpCode::IntOr
        | OpCode::IntMult => after == before && res == Ok::<TokenPlan, Error>(TokenPlan::Arithmetic),
        OpCode::IntLeft | OpCode::IntRight | OpCode::IntSright => if first.metatype == TypeMetatype::Bool {
            tokens_base(after, before, first.size, TypeMetatype::Int, res)
        } else {
            is(facing.reads@[0])
        },
        OpCode::Insert | OpCode::Zpull | OpCode::Spull => is(written),
        OpCode::Copy | OpCode::Ptradd => is(facing.reads@[0]),
        OpCode::Segmentop => is(facing.reads@[2]),
        OpCode::Load => {
            let address = types.dt(facing.reads@[1]);
            let target = address.pointer().ptrto->0;
            if address.is_pointer() && types.dt(target).size == size {
                is(target)
            } else {
                is(written)
            }
        },
        OpCode::Piece => if types.dt(written).metatype == TypeMetatype::Int || types.dt(written).metatype
            == TypeMetatype::Uint {
            is(written)
        } else {
            tokens_base(after, before, size, TypeMetatype::Uint, res)
        },
        OpCode::Subpiece => {
            let field = crate::types::resolve::truncation(
                facing.reads@[0],
                crate::unionresolve::judge::kept_from(op, data) as i64,
                size,
                op,
                1,
                0,
                data,
                types,
            ).0;
            if field is Some && types.dt(field->0.tp).size == size {
                is(field->0.tp)
            } else if types.dt(written).metatype != TypeMetatype::Unknown {
                is(written)
            } else {
                tokens_base(after, before, size, TypeMetatype::Int, res)
            }
        },
        OpCode::Ptrsub if first.is_pointer() => tokens_inside(after, before, op, facing.reads@[0], data, res),
        _ => exists|made: Result<TypeId>| #[trigger]
            crate::typeop::local::gives_output(
                after,
                before,
                opcode,
                meta,
                op,
                data,
                userops,
                cpool,
                at_address,
                made,
            ) && res == known(made),
    }
}

/// What is asked of a value that an operation takes a part of.
pub open spec fn cuts(opcode: OpCode, op: OpId, facing: Facing, data: Funcdata, glb: Architecture) -> bool {
    let ct = facing.reads@[0];
    opcode == OpCode::Subpiece ==> {
        &&& glb.types.dt(ct).kind is Union ==> crate::types::resolve::reads_field(ct, op, 1, data, glb.types)
        &&& glb.types.dt(ct).kind matches crate::types::TypeKind::PartialUnion(partial)
            ==> crate::types::resolve::reads_field(partial.container, op, 1, data, glb.types)
    }
}

/// What is asked of an operation whose outcome is given a data-type.
pub open spec fn token_asked(
    opcode: OpCode,
    meta: Option<TypeOpMeta>,
    op: OpId,
    facing: Facing,
    data: Funcdata,
    glb: Architecture,
) -> bool {
    let o = data.operation(op);
    &&& crate::typeop::local::wishes(opcode, meta, op, data, glb)
    &&& crate::typeop::cast::faces(facing, op, data, glb.types)
    &&& o.output is Some
    &&& cuts(opcode, op, facing, data, glb)
    &&& opcode == OpCode::Ptrsub ==> crate::typeop::local::size_out(op, data) <= 8
    &&& opcode == OpCode::IntLeft || opcode == OpCode::IntRight || opcode == OpCode::IntSright ==> o.inrefs@.len() >= 1
        && glb.types.dt(facing.reads@[0]).size <= 0x1000_0000
}

/// The data-type of the outcome of an operation, as far as that can be told without asking
/// the language.
pub fn get_output_token(
    opcode: OpCode,
    meta: Option<TypeOpMeta>,
    op: OpId,
    facing: &Facing,
    data: &Funcdata,
    glb: &mut Architecture,
    userops: &UserOpManage,
    cpool: &ConstantPool,
    at_address: Option<TypeId>,
) -> (res: Result<TokenPlan>)
    requires
        token_asked(opcode, meta, op, *facing, *data, *old(glb)),
    ensures
        final(glb).grew(*old(glb)),
        tokens(*final(glb), *old(glb), opcode, meta, op, *facing, *data, *userops, *cpool, at_address, res),
{
    proof {
        crate::types::suit::grew_never(*glb);
        assert(data.shaped(data.operation(op)));
        assert(data.has_vn(data.operation(op).output->0));
    }
    let size: i32 = data.vn(data.op(op).get_out().unwrap()).get_size();
    let written = facing.written.unwrap();
    match opcode {
        OpCode::IntAdd
        | OpCode::IntSub
        | OpCode::Int2comp
        | OpCode::IntNegate
        | OpCode::IntXor
        | OpCode::IntAnd
        | OpCode::IntOr
        | OpCode::IntMult => {
            return Ok(TokenPlan::Arithmetic);
        },
        OpCode::IntLeft | OpCode::IntRight | OpCode::IntSright => {
            let res1 = facing.reads[0];
            if glb.types.get(res1).get_metatype() == TypeMetatype::Bool {
                let width: i32 = glb.types.get(res1).get_size();
                let made = give_base(width, TypeMetatype::Int, glb);
                return make_known(made);
            }
            return Ok(TokenPlan::Known(res1));
        },
        OpCode::Insert | OpCode::Zpull | OpCode::Spull => {
            return Ok(TokenPlan::Known(written));
        },
        OpCode::Copy | OpCode::Ptradd => {
            return Ok(TokenPlan::Known(facing.reads[0]));
        },
        OpCode::Segmentop => {
            return Ok(TokenPlan::Known(facing.reads[2]));
        },
        OpCode::Load => {
            let ct = facing.reads[1];
            proof {
                glb.types.look(ct);
                glb.types.parts(glb.types.dt(ct));
            }
            if glb.types.get(ct).get_metatype() == TypeMetatype::Ptr {
                let ptrto = glb.types.get(ct).get_ptr_to();
                if glb.types.get(ptrto).get_size() == size {
                    return Ok(TokenPlan::Known(ptrto));
                }
            }
            return Ok(TokenPlan::Known(written));
        },
        OpCode::Piece => {
            let meta_out = glb.types.get(written).get_metatype();
            if meta_out == TypeMetatype::Int || meta_out == TypeMetatype::Uint {
                return Ok(TokenPlan::Known(written));
            }
            let made = give_base(size, TypeMetatype::Uint, glb);
            return make_known(made);
        },
        OpCode::Subpiece => {
            let byte_off: i64 = TypeOpSubpiece::compute_byte_offset_for_composite(op, data) as i64;
            let mut offset: i64 = 0;
            proof {
                glb.types.look(facing.reads@[0]);
            }
            let field = Datatype::find_truncation(facing.reads[0], byte_off, size, op, 1, &mut offset, data, glb);
            if let Some(field) = field {
                if glb.types.get(field.tp).get_size() == size {
                    return Ok(TokenPlan::Known(field.tp));
                }
            }
            if glb.types.get(written).get_metatype() != TypeMetatype::Unknown {
                return Ok(TokenPlan::Known(written));
            }
            let made = give_base(size, TypeMetatype::Int, glb);
            return make_known(made);
        },
        OpCode::Ptrsub => {
            let ptype = facing.reads[0];
            proof {
                glb.types.look(ptype);
                glb.types.parts(glb.types.dt(ptype));
            }
            if glb.types.get(ptype).get_metatype() == TypeMetatype::Ptr {
                return token_inside(op, ptype, data, glb);
            }
        },
        _ => {},
    }
    let made = get_output_local(opcode, meta, op, data, glb, userops, cpool, at_address);
    make_known(made)
}

} // verus!

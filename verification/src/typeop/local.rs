//! The data-types that operations want for what they read and write.
use vstd::prelude::*;
use crate::architecture::Architecture;
use crate::cpool::{CPoolRecord, ConstantPool};
use crate::error::{Error, Result};
use crate::fspec::FuncProto;
use crate::funcdata::Funcdata;
use crate::ids::{OpId, TypeId};
use crate::opcodes::OpCode;
use crate::space::SpaceType;
use crate::text::push_decimal;
use crate::typeop::print::cpool_refs;
use crate::typeop::TypeOpMeta;
use crate::types::{TypeFactory, TypeMetatype};
use crate::unionresolve::fit::too_many_types;
use crate::userop::UserOpManage;

verus! {

/// What asking for a base data-type does, as far as there is room.
pub open spec fn gives_base(
    after: Architecture,
    before: Architecture,
    size: i32,
    meta: TypeMetatype,
    res: Result<TypeId>,
) -> bool {
    if !before.roomy(1) {
        after == before && (res matches Err(e) && crate::unionresolve::fit::out_of_room(e))
    } else {
        after.same_program(before) && after.types.makes_base(before.types, size, meta, res)
    }
}

pub fn give_base(size: i32, meta: TypeMetatype, glb: &mut Architecture) -> (res: Result<TypeId>)
    requires
        old(glb).workable(),
        TypeFactory::base_class(meta),
        size <= 0x1000_0000,
    ensures
        final(glb).grew(*old(glb)),
        gives_base(*final(glb), *old(glb), size, meta, res),
        res matches Ok(id) ==> final(glb).types.has(id),
{
    proof {
        crate::types::suit::grew_never(*glb);
    }
    if !glb.has_room_for(1) {
        return Err(too_many_types());
    }
    glb.base_of(size, meta)
}

/// What asking for the data-type of a shift amount does.
pub open spec fn gives_amount(after: Architecture, before: Architecture, size: i32, res: Result<TypeId>) -> bool {
    if before.roomy(1) && size == 1 && before.types.type_nochar is Some {
        after == before && res == Ok::<TypeId, Error>(before.types.type_nochar->0)
    } else {
        gives_base(after, before, size, TypeMetatype::Int, res)
    }
}

fn give_amount(size: i32, glb: &mut Architecture) -> (res: Result<TypeId>)
    requires
        old(glb).workable(),
        size <= 0x1000_0000,
    ensures
        final(glb).grew(*old(glb)),
        gives_amount(*final(glb), *old(glb), size, res),
        res matches Ok(id) ==> final(glb).types.has(id),
{
    proof {
        crate::types::suit::grew_never(*glb);
    }
    if !glb.has_room_for(1) {
        return Err(too_many_types());
    }
    glb.base_no_char_of(size, TypeMetatype::Int)
}

/// What asking for a pointer to code does.
pub open spec fn gives_code_pointer(
    after: Architecture,
    before: Architecture,
    size: i32,
    ws: u32,
    res: Result<TypeId>,
) -> bool {
    if !before.roomy(4) {
        after == before && (res matches Err(e) && crate::unionresolve::fit::out_of_room(e))
    } else {
        &&& after.same_program(before)
        &&& exists|mid: TypeFactory, c: Result<TypeId>| #[trigger]
            mid.makes_code(before.types, c) && match c {
                Ok(code) => after.types.makes_pointer(
                    mid,
                    size,
                    crate::types::pointers::plain_pointer(mid.plain_form(code), ws),
                    Seq::empty(),
                    0,
                    res,
                ),
                Err(e) => after.types == mid && res == Err::<TypeId, Error>(e),
            }
    }
}

fn give_code_pointer(size: i32, ws: u32, glb: &mut Architecture) -> (res: Result<TypeId>)
    requires
        old(glb).workable(),
        1 <= size <= 8,
        ws >= 1,
    ensures
        final(glb).grew(*old(glb)),
        gives_code_pointer(*final(glb), *old(glb), size, ws, res),
        res matches Ok(id) ==> final(glb).types.has(id),
{
    let ghost before = *glb;
    proof {
        crate::types::suit::grew_never(*glb);
    }
    if !glb.has_room_for(4) {
        return Err(too_many_types());
    }
    let made = glb.code_type();
    let ghost mid = *glb;
    assert(mid.types.makes_code(before.types, made));
    match made {
        Ok(code) => {
            let res = glb.plain_pointer_to(size, code, ws);
            proof {
                crate::types::suit::grew_twice(*glb, mid, before);
            }
            res
        },
        Err(e) => Err(e),
    }
}

/// The size of what an operation writes.
pub open spec fn size_out(op: OpId, data: Funcdata) -> i32 {
    data.value(data.operation(op).output->0).size
}

/// The size of what an operation reads.
pub open spec fn size_in(op: OpId, slot: i32, data: Funcdata) -> i32 {
    data.value(data.operation(op).inrefs@[slot as int]).size
}

fn find_size_out(op: OpId, data: &Funcdata) -> (res: i32)
    requires
        data.flowing(),
        data.has_op(op),
        data.operation(op).output is Some,
    ensures
        res == size_out(op, *data),
        1 <= res < 0x1000_0000,
{
    data.vn(data.op(op).get_out().unwrap()).get_size()
}

fn find_size_in(op: OpId, slot: i32, data: &Funcdata) -> (res: i32)
    requires
        data.flowing(),
        data.has_op(op),
        0 <= slot < data.operation(op).inrefs@.len(),
    ensures
        res == size_in(op, slot, *data),
        1 <= res < 0x1000_0000,
{
    assert(data.has_vn(data.operation(op).inrefs@[slot as int]));
    data.vn(data.op(op).get_in(slot)).get_size()
}

pub fn binary_get_output_local(meta: &TypeOpMeta, op: OpId, data: &Funcdata, glb: &mut Architecture) -> (res: Result<TypeId>)
    requires
        old(glb).workable(),
        data.flowing(),
        data.has_op(op),
        data.operation(op).output is Some,
        TypeFactory::base_class(meta.metaout),
    ensures
        final(glb).grew(*old(glb)),
        gives_base(*final(glb), *old(glb), size_out(op, *data), meta.metaout, res),
        res matches Ok(id) ==> final(glb).types.has(id),
{
    give_base(find_size_out(op, data), meta.metaout, glb)
}

pub fn binary_get_input_local(meta: &TypeOpMeta, op: OpId, slot: i32, data: &Funcdata, glb: &mut Architecture) -> (res: Result<
    TypeId,
>)
    requires
        old(glb).workable(),
        data.flowing(),
        data.has_op(op),
        0 <= slot < data.operation(op).inrefs@.len(),
        TypeFactory::base_class(meta.metain),
    ensures
        final(glb).grew(*old(glb)),
        gives_base(*final(glb), *old(glb), size_in(op, slot, *data), meta.metain, res),
        res matches Ok(id) ==> final(glb).types.has(id),
{
    give_base(find_size_in(op, slot, data), meta.metain, glb)
}

pub fn unary_get_output_local(meta: &TypeOpMeta, op: OpId, data: &Funcdata, glb: &mut Architecture) -> (res: Result<TypeId>)
    requires
        old(glb).workable(),
        data.flowing(),
        data.has_op(op),
        data.operation(op).output is Some,
        TypeFactory::base_class(meta.metaout),
    ensures
        final(glb).grew(*old(glb)),
        gives_base(*final(glb), *old(glb), size_out(op, *data), meta.metaout, res),
        res matches Ok(id) ==> final(glb).types.has(id),
{
    give_base(find_size_out(op, data), meta.metaout, glb)
}

pub fn unary_get_input_local(meta: &TypeOpMeta, op: OpId, slot: i32, data: &Funcdata, glb: &mut Architecture) -> (res: Result<
    TypeId,
>)
    requires
        old(glb).workable(),
        data.flowing(),
        data.has_op(op),
        0 <= slot < data.operation(op).inrefs@.len(),
        TypeFactory::base_class(meta.metain),
    ensures
        final(glb).grew(*old(glb)),
        gives_base(*final(glb), *old(glb), size_in(op, slot, *data), meta.metain, res),
        res matches Ok(id) ==> final(glb).types.has(id),
{
    give_base(find_size_in(op, slot, data), meta.metain, glb)
}

pub fn func_get_output_local(meta: &TypeOpMeta, op: OpId, data: &Funcdata, glb: &mut Architecture) -> (res: Result<TypeId>)
    requires
        old(glb).workable(),
        data.flowing(),
        data.has_op(op),
        data.operation(op).output is Some,
        TypeFactory::base_class(meta.metaout),
    ensures
        final(glb).grew(*old(glb)),
        gives_base(*final(glb), *old(glb), size_out(op, *data), meta.metaout, res),
        res matches Ok(id) ==> final(glb).types.has(id),
{
    give_base(find_size_out(op, data), meta.metaout, glb)
}

pub fn func_get_input_local(meta: &TypeOpMeta, op: OpId, slot: i32, data: &Funcdata, glb: &mut Architecture) -> (res: Result<
    TypeId,
>)
    requires
        old(glb).workable(),
        data.flowing(),
        data.has_op(op),
        0 <= slot < data.operation(op).inrefs@.len(),
        TypeFactory::base_class(meta.metain),
    ensures
        final(glb).grew(*old(glb)),
        gives_base(*final(glb), *old(glb), size_in(op, slot, *data), meta.metain, res),
        res matches Ok(id) ==> final(glb).types.has(id),
{
    give_base(find_size_in(op, slot, data), meta.metain, glb)
}

/// The prototype that the first input of a call stands for, if it stands for one.
pub open spec fn called(op: OpId, data: Funcdata) -> Option<FuncProto> {
    let o = data.operation(op);
    if o.opcode == OpCode::Call {
        let target = data.value(o.inrefs@[0]).loc;
        if target.base is Some && target.base->0.kind == SpaceType::Fspec && target.offset < data.calls@.len() {
            Some(data.calls@[target.offset as int].proto)
        } else {
            None
        }
    } else {
        data.call_proto(op)
    }
}

fn find_called<'a>(op: OpId, data: &'a Funcdata) -> (res: Option<&'a FuncProto>)
    requires
        data.flowing(),
        data.has_op(op),
        data.operation(op).inrefs@.len() >= 1,
    ensures
        match res {
            Some(proto) => called(op, *data) == Some(*proto),
            None => called(op, *data) is None,
        },
{
    if data.op(op).code() == OpCode::Call {
        assert(data.has_vn(data.operation(op).inrefs@[0]));
        let addr = data.vn(data.op(op).get_in(0)).get_addr();
        if let Some(spc) = addr.get_space() {
            if spc.get_type() == SpaceType::Fspec && addr.get_offset() < data.calls.len() as u64 {
                return Some(&data.calls[addr.get_offset() as usize].proto);
            }
        }
        return None;
    }
    data.get_call_specs_op(op)
}

/// The data-types of the prototype that is called are those of the program.
proof fn called_typed(op: OpId, data: Funcdata, types: TypeFactory)
    requires
        data.typed_in(types),
        called(op, data) is Some,
    ensures
        crate::unionresolve::proto_typed(called(op, data)->0, types),
{
    data.call_is_listed(op, 0);
}

/// The data-type that a prototype fixes for an argument, if it does. It may have to fit into a size.
pub open spec fn fixed_argument(proto: FuncProto, slot: i32, max_size: Option<i32>, types: TypeFactory) -> Option<TypeId> {
    let param = proto.params@[slot - 1];
    let d = types.dt(param.tp);
    if !(1 <= slot <= proto.params@.len()) {
        None
    } else if param.type_locked {
        if d.metatype != TypeMetatype::Void && (max_size is Some ==> d.size <= max_size->0) {
            Some(param.tp)
        } else {
            None
        }
    } else if param.this_pointer && d.is_pointer() && types.dt(d.pointer().ptrto->0).metatype == TypeMetatype::Struct {
        Some(param.tp)
    } else {
        None
    }
}

fn locked_param_type(proto: &FuncProto, slot: i32, max_size: Option<i32>, types: &TypeFactory) -> (res: Option<TypeId>)
    requires
        types.sound(),
        crate::unionresolve::proto_typed(*proto, *types),
        slot >= 0,
    ensures
        res == fixed_argument(*proto, slot, max_size, *types),
        res is Some ==> types.has(res->0),
{
    let Some(param) = proto.get_param(slot - 1) else {
        return None;
    };
    assert(types.has(proto.params@[slot - 1].tp));
    let ct = param.get_type();
    proof {
        types.look(ct);
        types.parts(types.dt(ct));
    }
    if param.is_type_locked() {
        let fits = match max_size {
            Some(size) => types.get(ct).get_size() <= size,
            None => true,
        };
        if types.get(ct).get_metatype() != TypeMetatype::Void && fits {
            return Some(ct);
        }
    } else if param.is_this_pointer() {
        if types.get(ct).get_metatype() == TypeMetatype::Ptr {
            let target = types.get(ct).get_ptr_to();
            if types.get(target).get_metatype() == TypeMetatype::Struct {
                return Some(ct);
            }
        }
    }
    None
}

/// The data-type that a prototype fixes for what is returned, if it does.
pub open spec fn fixed_return(proto: FuncProto, types: TypeFactory) -> Option<TypeId> {
    if proto.output_locked() && types.dt(proto.output->0.tp).metatype != TypeMetatype::Void {
        Some(proto.output->0.tp)
    } else {
        None
    }
}

fn locked_output_type(proto: &FuncProto, types: &TypeFactory) -> (res: Option<TypeId>)
    requires
        types.sound(),
        crate::unionresolve::proto_typed(*proto, *types),
    ensures
        res == fixed_return(*proto, *types),
        res is Some ==> types.has(res->0),
{
    if !proto.is_output_locked() {
        return None;
    }
    match &proto.output {
        Some(out) => {
            let ct = out.get_type();
            if types.get(ct).get_metatype() == TypeMetatype::Void {
                return None;
            }
            Some(ct)
        },
        None => None,
    }
}

/// A data-type that is known, or else one of bytes that nothing is known of.
pub open spec fn or_unknown(
    after: Architecture,
    before: Architecture,
    known: Option<TypeId>,
    size: i32,
    res: Result<TypeId>,
) -> bool {
    match known {
        Some(tp) => after == before && res == Ok::<TypeId, Error>(tp),
        None => gives_base(after, before, size, TypeMetatype::Unknown, res),
    }
}

fn give_or_unknown(known: Option<TypeId>, size: i32, glb: &mut Architecture) -> (res: Result<TypeId>)
    requires
        old(glb).workable(),
        size <= 0x1000_0000,
    ensures
        final(glb).grew(*old(glb)),
        or_unknown(*final(glb), *old(glb), known, size, res),
{
    proof {
        crate::types::suit::grew_never(*glb);
    }
    match known {
        Some(tp) => Ok(tp),
        None => give_base(size, TypeMetatype::Unknown, glb),
    }
}

/// An error where a number stands for no operation.
pub open spec fn unknown_userop(e: Error, index: i32) -> bool {
    e.is_lowlevel("unknown user-defined p-code op index "@ + crate::text::decimal(index as int))
}

fn userop_error(index: i32) -> (res: Error)
    ensures
        unknown_userop(res, index),
{
    let mut text = "unknown user-defined p-code op index ".to_owned();
    push_decimal(&mut text, index as i64);
    Error::Lowlevel(text)
}

/// What asking for the data-type that an operation wants for what it writes does. The
/// data-type of a symbol counts for an operation on an address.
pub open spec fn gives_output(
    after: Architecture,
    before: Architecture,
    opcode: OpCode,
    meta: Option<TypeOpMeta>,
    op: OpId,
    data: Funcdata,
    userops: UserOpManage,
    cpool: ConstantPool,
    at_address: Option<TypeId>,
    res: Result<TypeId>,
) -> bool {
    let o = data.operation(op);
    let size = size_out(op, data);
    match opcode {
        OpCode::Ptradd | OpCode::Ptrsub => gives_base(after, before, size, TypeMetatype::Int, res),
        OpCode::Call | OpCode::Callind => or_unknown(
            after,
            before,
            match called(op, data) {
                Some(proto) => fixed_return(proto, before.types),
                None => None,
            },
            size,
            res,
        ),
        OpCode::Callother => {
            let index = data.value(o.inrefs@[0]).loc.offset as i32;
            match userops.op_at(index as u32) {
                None => after == before && (res matches Err(e) && unknown_userop(e, index)),
                Some(user) => or_unknown(after, before, user.output_type(op, data, at_address), size, res),
            }
        },
        OpCode::Cpoolref => match cpool.record(crate::typeop::print::pool_refs(op, data, o.inrefs@.len())) {
            None => gives_base(after, before, size, TypeMetatype::Unknown, res),
            Some(record) => if record.tag == CPoolRecord::INSTANCE_OF {
                gives_base(after, before, 1, TypeMetatype::Bool, res)
            } else {
                or_unknown(after, before, record.tp, size, res)
            },
        },
        _ => gives_base(
            after,
            before,
            size,
            match meta {
                Some(meta) => meta.metaout,
                None => TypeMetatype::Unknown,
            },
            res,
        ),
    }
}

/// What is asked of an operation whose wishes are asked for.
pub open spec fn wishes(opcode: OpCode, meta: Option<TypeOpMeta>, op: OpId, data: Funcdata, glb: Architecture) -> bool {
    &&& glb.workable()
    &&& data.flowing()
    &&& data.typed_in(glb.types)
    &&& data.has_op(op)
    &&& data.operation(op).opcode == opcode
    &&& opcode == OpCode::Call || opcode == OpCode::Callind || opcode == OpCode::Callother ==> data.operation(
        op,
    ).inrefs@.len() >= 1
    &&& meta matches Some(m) ==> TypeFactory::base_class(m.metaout) && TypeFactory::base_class(m.metain)
}

pub fn get_output_local(
    opcode: OpCode,
    meta: Option<TypeOpMeta>,
    op: OpId,
    data: &Funcdata,
    glb: &mut Architecture,
    userops: &UserOpManage,
    cpool: &ConstantPool,
    at_address: Option<TypeId>,
) -> (res: Result<TypeId>)
    requires
        wishes(opcode, meta, op, *data, *old(glb)),
        data.operation(op).output is Some,
    ensures
        final(glb).grew(*old(glb)),
        gives_output(*final(glb), *old(glb), opcode, meta, op, *data, *userops, *cpool, at_address, res),
{
    proof {
        crate::types::suit::grew_never(*glb);
    }
    let size: i32 = find_size_out(op, data);
    match opcode {
        OpCode::Ptradd | OpCode::Ptrsub => give_base(size, TypeMetatype::Int, glb),
        OpCode::Call | OpCode::Callind => {
            let known = match find_called(op, data) {
                Some(proto) => {
                    proof {
                        called_typed(op, *data, glb.types);
                    }
                    locked_output_type(proto, &glb.types)
                },
                None => None,
            };
            give_or_unknown(known, size, glb)
        },
        OpCode::Callother => {
            assert(data.has_vn(data.operation(op).inrefs@[0]));
            let index: i32 = data.vn(data.op(op).get_in(0)).get_offset() as i32;
            match userops.get_op(index as u32) {
                None => Err(userop_error(index)),
                Some(userop) => {
                    let known = userop.get_output_local(op, data, at_address);
                    give_or_unknown(known, size, glb)
                },
            }
        },
        OpCode::Cpoolref => {
            let refs = cpool_refs(op, data);
            match cpool.get_record(&refs) {
                None => give_base(size, TypeMetatype::Unknown, glb),
                Some(rec) => if rec.tag == CPoolRecord::INSTANCE_OF {
                    give_base(1, TypeMetatype::Bool, glb)
                } else {
                    give_or_unknown(rec.tp, size, glb)
                },
            }
        },
        _ => match meta {
            Some(meta) => give_base(size, meta.metaout, glb),
            None => give_base(size, TypeMetatype::Unknown, glb),
        },
    }
}

/// What asking for the data-type that an operation wants for what it reads does.
pub open spec fn gives_input(
    after: Architecture,
    before: Architecture,
    opcode: OpCode,
    meta: Option<TypeOpMeta>,
    op: OpId,
    slot: i32,
    data: Funcdata,
    userops: UserOpManage,
    at_address: Option<TypeId>,
    res: Result<TypeId>,
) -> bool {
    let o = data.operation(op);
    let size = size_in(op, slot, data);
    let unknown = gives_base(after, before, size, TypeMetatype::Unknown, res);
    let plain = gives_base(
        after,
        before,
        size,
        match meta {
            Some(meta) => meta.metain,
            None => TypeMetatype::Unknown,
        },
        res,
    );
    match opcode {
        OpCode::Cbranch => if slot == 1 {
            gives_base(after, before, size, TypeMetatype::Bool, res)
        } else {
            gives_code_pointer(
                after,
                before,
                size_in(op, 0, data),
                data.value(o.inrefs@[0]).loc.base->0.word_size,
                res,
            )
        },
        OpCode::Call => or_unknown(
            after,
            before,
            match called(op, data) {
                Some(proto) => fixed_argument(proto, slot, Some(size), before.types),
                None => None,
            },
            size,
            res,
        ),
        OpCode::Callind => if slot == 0 {
            gives_code_pointer(after, before, size, o.addr.base->0.word_size, res)
        } else {
            or_unknown(
                after,
                before,
                match called(op, data) {
                    Some(proto) => fixed_argument(proto, slot, None, before.types),
                    None => None,
                },
                size,
                res,
            )
        },
        OpCode::Callother => {
            let index = data.value(o.inrefs@[0]).loc.offset as i32;
            match userops.op_at(index as u32) {
                None => after == before && (res matches Err(e) && unknown_userop(e, index)),
                Some(user) => or_unknown(after, before, user.input_type(op, slot, data, at_address), size, res),
            }
        },
        OpCode::Return => or_unknown(
            after,
            before,
            returned_type(op, slot, data, before.types),
            size,
            res,
        ),
        OpCode::Indirect => if slot == 0 {
            unknown
        } else {
            gives_code_pointer(
                after,
                before,
                size_in(op, 0, data),
                data.operation(caused_by(op, data)).addr.base->0.word_size,
                res,
            )
        },
        OpCode::IntLeft | OpCode::IntRight | OpCode::IntSright => if slot == 1 {
            gives_amount(after, before, size, res)
        } else {
            plain
        },
        OpCode::Ptradd | OpCode::Ptrsub | OpCode::Cpoolref => gives_base(after, before, size, TypeMetatype::Int, res),
        OpCode::Zpull | OpCode::Spull => if slot == 0 {
            unknown
        } else {
            plain
        },
        OpCode::Insert => if slot <= 1 {
            unknown
        } else {
            plain
        },
        _ => plain,
    }
}

/// The data-type of a value that is returned, if the prototype tells and it has just that size.
pub open spec fn returned_type(op: OpId, slot: i32, data: Funcdata, types: TypeFactory) -> Option<TypeId> {
    let ct = data.proto.output->0.tp;
    if slot != 0 && data.operation(op).parent is Some && data.proto.output is Some && types.dt(ct).metatype
        != TypeMetatype::Void && types.dt(ct).size == size_in(op, slot, data) {
        Some(ct)
    } else {
        None
    }
}

/// The operation whose effect another one stands for.
pub open spec fn caused_by(op: OpId, data: Funcdata) -> OpId {
    OpId(data.value(data.operation(op).inrefs@[1]).loc.offset as u32)
}

/// What is asked of an operation that wants a pointer to code.
pub open spec fn points_to_code(opcode: OpCode, op: OpId, slot: i32, data: Funcdata) -> bool {
    let o = data.operation(op);
    match opcode {
        OpCode::Cbranch => slot != 1 ==> size_in(op, 0, data) <= 8 && data.value(o.inrefs@[0]).loc.base is Some
            && data.value(o.inrefs@[0]).loc.base->0.word_size >= 1,
        OpCode::Callind => slot == 0 ==> size_in(op, 0, data) <= 8 && o.addr.base is Some && o.addr.base->0.word_size >= 1,
        OpCode::Indirect => slot != 0 ==> size_in(op, 0, data) <= 8 && data.has_op(caused_by(op, data)) && data.operation(
            caused_by(op, data),
        ).addr.base is Some && data.operation(caused_by(op, data)).addr.base->0.word_size >= 1,
        _ => true,
    }
}

pub fn get_input_local(
    opcode: OpCode,
    meta: Option<TypeOpMeta>,
    op: OpId,
    slot: i32,
    data: &Funcdata,
    glb: &mut Architecture,
    userops: &UserOpManage,
    at_address: Option<TypeId>,
) -> (res: Result<TypeId>)
    requires
        wishes(opcode, meta, op, *data, *old(glb)),
        0 <= slot < data.operation(op).inrefs@.len(),
        points_to_code(opcode, op, slot, *data),
    ensures
        final(glb).grew(*old(glb)),
        gives_input(*final(glb), *old(glb), opcode, meta, op, slot, *data, *userops, at_address, res),
{
    proof {
        crate::types::suit::grew_never(*glb);
        assert(data.has_vn(data.operation(op).inrefs@[0]));
        assert(data.shaped(data.operation(op)));
    }
    let size: i32 = find_size_in(op, slot, data);
    let pcode = data.op(op);
    match opcode {
        OpCode::Cbranch => {
            if slot == 1 {
                return give_base(size, TypeMetatype::Bool, glb);
            }
            let invn = data.vn(pcode.get_in(0));
            let wordsize: u32 = invn.get_space().unwrap().get_word_size();
            give_code_pointer(invn.get_size(), wordsize, glb)
        },
        OpCode::Call => {
            let known = match find_called(op, data) {
                Some(proto) => {
                    proof {
                        called_typed(op, *data, glb.types);
                    }
                    locked_param_type(proto, slot, Some(size), &glb.types)
                },
                None => None,
            };
            give_or_unknown(known, size, glb)
        },
        OpCode::Callind => {
            if slot == 0 {
                let wordsize: u32 = pcode.get_addr().get_space().unwrap().get_word_size();
                return give_code_pointer(size, wordsize, glb);
            }
            let known = match find_called(op, data) {
                Some(proto) => {
                    proof {
                        called_typed(op, *data, glb.types);
                    }
                    locked_param_type(proto, slot, None, &glb.types)
                },
                None => None,
            };
            give_or_unknown(known, size, glb)
        },
        OpCode::Callother => {
            let index: i32 = data.vn(pcode.get_in(0)).get_offset() as i32;
            match userops.get_op(index as u32) {
                None => Err(userop_error(index)),
                Some(userop) => {
                    let known = userop.get_input_local(op, slot, data, at_address);
                    give_or_unknown(known, size, glb)
                },
            }
        },
        OpCode::Return => {
            let mut known: Option<TypeId> = None;
            if slot != 0 && pcode.get_parent().is_some() {
                if let Some(output) = &data.proto.output {
                    let ct = output.get_type();
                    if glb.types.get(ct).get_metatype() != TypeMetatype::Void && glb.types.get(ct).get_size() == size {
                        known = Some(ct);
                    }
                }
            }
            give_or_unknown(known, size, glb)
        },
        OpCode::Indirect => {
            if slot == 0 {
                return give_base(size, TypeMetatype::Unknown, glb);
            }
            assert(data.has_vn(data.operation(op).inrefs@[1]));
            let iop = OpId(data.vn(pcode.get_in(1)).get_offset() as u32);
            let wordsize: u32 = data.op(iop).get_addr().get_space().unwrap().get_word_size();
            let first: i32 = data.vn(pcode.get_in(0)).get_size();
            give_code_pointer(first, wordsize, glb)
        },
        OpCode::IntLeft | OpCode::IntRight | OpCode::IntSright => {
            if slot == 1 {
                return give_amount(size, glb);
            }
            match meta {
                Some(meta) => give_base(size, meta.metain, glb),
                None => give_base(size, TypeMetatype::Unknown, glb),
            }
        },
        OpCode::Ptradd | OpCode::Ptrsub | OpCode::Cpoolref => give_base(size, TypeMetatype::Int, glb),
        OpCode::Zpull | OpCode::Spull => match meta {
            Some(meta) => if slot == 0 {
                give_base(size, TypeMetatype::Unknown, glb)
            } else {
                give_base(size, meta.metain, glb)
            },
            None => give_base(size, TypeMetatype::Unknown, glb),
        },
        OpCode::Insert => match meta {
            Some(meta) => if slot <= 1 {
                give_base(size, TypeMetatype::Unknown, glb)
            } else {
                give_base(size, meta.metain, glb)
            },
            None => give_base(size, TypeMetatype::Unknown, glb),
        },
        _ => match meta {
            Some(meta) => give_base(size, meta.metain, glb),
            None => give_base(size, TypeMetatype::Unknown, glb),
        },
    }
}

} // verus!

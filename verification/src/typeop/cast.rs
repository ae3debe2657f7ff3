//! Where a reader of the program needs to see a cast.
use vstd::prelude::*;
use crate::architecture::Architecture;
use crate::error::{Error, Result};
use crate::funcdata::Funcdata;
use crate::ids::{OpId, TypeId, VarnodeId};
use crate::opcodes::OpCode;
use crate::typeop::local::get_input_local;
use crate::typeop::ops::TypeOpFloatInt2Float;
use crate::typeop::spread::const_space;
use crate::typeop::TypeOpMeta;
use crate::types::{TypeFactory, TypeMetatype};
use crate::unionresolve::fit::too_many_types;
use crate::userop::UserOpManage;
use crate::varnode::Varnode;

verus! {

/// A value is not made wider.
pub const NO_PROMOTION: i32 = -1;

/// A value is made wider with zeros.
pub const UNSIGNED_EXTENSION: i32 = 1;

/// A value is made wider with its sign.
pub const SIGNED_EXTENSION: i32 = 2;

/// The data-types of the variables around an operation, as the operation sees them.
#[derive(Debug)]
pub struct Facing {
    pub reads: Vec<TypeId>,
    pub written: Option<TypeId>,
}

/// The question whether one data-type has to be cast to another, and what counts in it.
#[derive(Copy, Clone, Debug, PartialEq, Eq, Structural)]
pub struct CastQuestion {
    pub required: TypeId,
    pub current: TypeId,
    pub care_uint_int: bool,
    pub care_ptr_uint: bool,
}

/// What a language has to be asked before it is clear whether there is a cast.
#[derive(Copy, Clone, Debug, PartialEq, Eq, Structural)]
pub enum CastPlan {
    Never,
    Always(TypeId),
    /// The standard rule of the language.
    Standard(CastQuestion),
    /// The standard rule for what is pointed to.
    Pointed(CastQuestion, i32, u32),
    /// A cast if the language widens what is compared, or else the standard rule.
    UnlessCompared(CastQuestion),
    /// A cast if the language widens what is extended, or else the standard rule.
    UnlessExtended(CastQuestion),
    /// A cast if the language widens in another way, or else the standard rule.
    UnlessWidened(CastQuestion, i32),
}

/// What a language answers.
#[derive(Copy, Clone, Debug, PartialEq, Eq, Structural)]
pub struct CastAnswers {
    pub widens: bool,
    pub widening: i32,
    pub standard: Option<TypeId>,
}

/// What asking for a pointer does, as far as there is room.
pub open spec fn gives_pointer(
    after: Architecture,
    before: Architecture,
    size: i32,
    target: TypeId,
    ws: u32,
    res: Result<TypeId>,
) -> bool {
    if !before.roomy(3) {
        after == before && (res matches Err(e) && crate::unionresolve::fit::out_of_room(e))
    } else {
        after.same_program(before) && after.types.makes_pointer(
            before.types,
            size,
            crate::types::pointers::plain_pointer(before.types.plain_form(target), ws),
            Seq::empty(),
            0,
            res,
        )
    }
}

fn give_pointer(size: i32, target: TypeId, ws: u32, glb: &mut Architecture) -> (res: Result<TypeId>)
    requires
        old(glb).workable(),
        old(glb).types.has(target),
        1 <= size <= 8,
        ws >= 1,
    ensures
        final(glb).grew(*old(glb)),
        gives_pointer(*final(glb), *old(glb), size, target, ws, res),
{
    proof {
        crate::types::suit::grew_never(*glb);
    }
    if !glb.has_room_for(3) {
        return Err(too_many_types());
    }
    glb.plain_pointer_to(size, target, ws)
}

impl CastPlan {
    /// What comes of a plan, given the answers of the language.
    pub open spec fn settles(
        self,
        after: Architecture,
        before: Architecture,
        answers: CastAnswers,
        res: Result<Option<TypeId>>,
    ) -> bool {
        let plain = |ct: Option<TypeId>| after == before && res == Ok::<Option<TypeId>, Error>(ct);
        match self {
            CastPlan::Never => plain(None),
            CastPlan::Always(ct) => plain(Some(ct)),
            CastPlan::Standard(question) => plain(answers.standard),
            CastPlan::Pointed(question, size, ws) => match answers.standard {
                Some(ct) => gives_some(after, before, size, ct, ws, res),
                None => plain(None),
            },
            CastPlan::UnlessCompared(question) | CastPlan::UnlessExtended(question) => plain(
                if answers.widens {
                    Some(question.required)
                } else {
                    answers.standard
                },
            ),
            CastPlan::UnlessWidened(question, extension) => plain(
                if answers.widening != NO_PROMOTION && answers.widening & extension == 0 {
                    Some(question.required)
                } else {
                    answers.standard
                },
            ),
        }
    }

    pub fn settle(self, answers: CastAnswers, glb: &mut Architecture) -> (res: Result<Option<TypeId>>)
        requires
            old(glb).workable(),
            answers.standard is Some ==> old(glb).types.has(answers.standard->0),
            self matches CastPlan::Pointed(question, size, ws) ==> 1 <= size <= 8 && ws >= 1,
        ensures
            final(glb).grew(*old(glb)),
            self.settles(*final(glb), *old(glb), answers, res),
    {
        proof {
            crate::types::suit::grew_never(*glb);
        }
        match self {
            CastPlan::Never => Ok(None),
            CastPlan::Always(ct) => Ok(Some(ct)),
            CastPlan::Standard(_) => Ok(answers.standard),
            CastPlan::Pointed(_, size, ws) => match answers.standard {
                Some(ct) => {
                    let made = give_pointer(size, ct, ws, glb);
                    match made {
                        Ok(tp) => Ok(Some(tp)),
                        Err(e) => Err(e),
                    }
                },
                None => Ok(None),
            },
            CastPlan::UnlessCompared(question) | CastPlan::UnlessExtended(question) => if answers.widens {
                Ok(Some(question.required))
            } else {
                Ok(answers.standard)
            },
            CastPlan::UnlessWidened(question, extension) => if answers.widening != NO_PROMOTION && answers.widening
                & extension == 0 {
                Ok(Some(question.required))
            } else {
                Ok(answers.standard)
            },
        }
    }
}

/// What asking for a pointer that surely is a cast does.
pub open spec fn gives_some(
    after: Architecture,
    before: Architecture,
    size: i32,
    target: TypeId,
    ws: u32,
    res: Result<Option<TypeId>>,
) -> bool {
    exists|made: Result<TypeId>| #[trigger]
        gives_pointer(after, before, size, target, ws, made) && res == (match made {
            Ok(tp) => Ok::<Option<TypeId>, Error>(Some(tp)),
            Err(e) => Err(e),
        })
}

/// A question to the standard rule.
pub open spec fn asks(required: TypeId, current: TypeId, care_uint_int: bool, care_ptr_uint: bool) -> CastQuestion {
    CastQuestion { required, current, care_uint_int, care_ptr_uint }
}

/// A plan about a data-type that had to be asked for.
pub open spec fn plan_from(asked: Result<TypeId>, plan: spec_fn(TypeId) -> CastPlan) -> Result<CastPlan> {
    match asked {
        Ok(ct) => Ok(plan(ct)),
        Err(e) => Err(e),
    }
}

/// A value is only the outcome of a cast and is shown where it is read.
pub open spec fn shown_cast(vn: VarnodeId, data: Funcdata) -> bool {
    &&& data.value(vn).flag(Varnode::IMPLIED)
    &&& data.value(vn).flag(Varnode::WRITTEN)
    &&& data.operation(data.value(vn).def->0).opcode == OpCode::Cast
}

fn is_shown_cast(vn: VarnodeId, data: &Funcdata) -> (res: bool)
    requires
        data.flowing(),
        data.has_vn(vn),
    ensures
        res == shown_cast(vn, *data),
{
    let value = data.vn(vn);
    value.is_implied() && value.is_written() && data.op(value.get_def().unwrap()).code() == OpCode::Cast
}

/// The plan for what is read from memory.
pub open spec fn plans_load(
    after: Architecture,
    before: Architecture,
    op: OpId,
    slot: i32,
    facing: Facing,
    data: Funcdata,
    res: Result<CastPlan>,
) -> bool {
    let types = before.types;
    let vn = data.operation(op).inrefs@[1];
    let required = facing.written->0;
    let address = types.dt(facing.reads@[1]);
    let target = address.pointer().ptrto->0;
    let ws = named(op, data, before).word_size;
    if slot != 1 {
        after == before && res == Ok::<CastPlan, Error>(CastPlan::Never)
    } else if !address.is_pointer() {
        exists|made: Result<TypeId>| #[trigger]
            gives_pointer(after, before, data.value(vn).size, required, ws, made) && res == plan_from(
                made,
                |ct: TypeId| CastPlan::Always(ct),
            )
    } else if target != required && types.dt(target).size == types.dt(required).size && !composite(
        types.dt(target).metatype,
    ) && !shown_cast(vn, data) {
        after == before && res == Ok::<CastPlan, Error>(CastPlan::Never)
    } else {
        after == before && res == Ok::<CastPlan, Error>(
            CastPlan::Pointed(asks(required, target, false, true), data.value(vn).size, ws),
        )
    }
}

/// The space that a read or a write of memory goes to.
pub open spec fn named(op: OpId, data: Funcdata, glb: Architecture) -> crate::space::AddrSpace {
    *crate::typeop::spread::named_space(data.operation(op).inrefs@[0], data, glb)
}

/// A class whose data-types have parts.
pub open spec fn composite(meta: TypeMetatype) -> bool {
    meta == TypeMetatype::Struct || meta == TypeMetatype::Array || meta == TypeMetatype::Spacebase || meta
        == TypeMetatype::Union
}

/// The variables around an operation have data-types of the program.
pub open spec fn faces(facing: Facing, op: OpId, data: Funcdata, types: TypeFactory) -> bool {
    &&& facing.reads@.len() == data.operation(op).inrefs@.len()
    &&& forall|i: int| 0 <= i < facing.reads@.len() ==> types.has(#[trigger] facing.reads@[i])
    &&& data.operation(op).output is Some ==> facing.written is Some
    &&& facing.written is Some ==> types.has(facing.written->0)
}

fn plan_load(op: OpId, slot: i32, facing: &Facing, data: &Funcdata, glb: &mut Architecture) -> (res: Result<CastPlan>)
    requires
        old(glb).workable(),
        data.flowing(),
        data.has_op(op),
        data.operation(op).opcode == OpCode::Load,
        faces(*facing, op, *data, old(glb).types),
        crate::typeop::spread::names_space(data.operation(op).inrefs@[0], *data, *old(glb)),
    ensures
        final(glb).grew(*old(glb)),
        plans_load(*final(glb), *old(glb), op, slot, *facing, *data, res),
{
    proof {
        crate::types::suit::grew_never(*glb);
        assert(data.shaped(data.operation(op)));
        assert(data.has_vn(data.operation(op).inrefs@[1]));
        let types = glb.types;
        types.look(facing.reads@[1]);
        types.parts(types.dt(facing.reads@[1]));
    }
    if slot != 1 {
        return Ok(CastPlan::Never);
    }
    let reqtype = facing.written.unwrap();
    let invn = data.op(op).get_in(1);
    let address = facing.reads[1];
    let wordsize: u32 = const_space(data, data.op(op).get_in(0), glb).get_word_size();
    let insize: i32 = data.vn(invn).get_size();
    if glb.types.get(address).get_metatype() != TypeMetatype::Ptr {
        return match give_pointer(insize, reqtype, wordsize, glb) {
            Ok(tp) => Ok(CastPlan::Always(tp)),
            Err(e) => Err(e),
        };
    }
    let curtype = glb.types.get(address).get_ptr_to();
    if curtype != reqtype && glb.types.get(curtype).get_size() == glb.types.get(reqtype).get_size() {
        let curmeta = glb.types.get(curtype).get_metatype();
        if curmeta != TypeMetatype::Struct && curmeta != TypeMetatype::Array && curmeta != TypeMetatype::Spacebase
            && curmeta != TypeMetatype::Union {
            if !is_shown_cast(invn, data) {
                return Ok(CastPlan::Never);
            }
        }
    }
    Ok(
        CastPlan::Pointed(
            CastQuestion { required: reqtype, current: curtype, care_uint_int: false, care_ptr_uint: true },
            insize,
            wordsize,
        ),
    )
}

/// The plan for what is written to memory.
pub open spec fn plans_store(
    after: Architecture,
    before: Architecture,
    op: OpId,
    slot: i32,
    facing: Facing,
    data: Funcdata,
    res: Result<CastPlan>,
) -> bool {
    let types = before.types;
    let o = data.operation(op);
    let vn = o.inrefs@[1];
    let pointer = facing.reads@[1];
    let value = facing.reads@[2];
    let target = types.dt(pointer).pointer().ptrto->0;
    let ws = named(op, data, before).word_size;
    let size = data.value(vn).size;
    let never = after == before && res == Ok::<CastPlan, Error>(CastPlan::Never);
    if slot == 0 || o.addlflags & crate::op::PcodeOp::SPECIAL_PRINT != 0 {
        never
    } else if !(types.dt(pointer).is_pointer() && types.dt(target).size == types.dt(value).size) {
        if slot == 1 {
            exists|made: Result<TypeId>| #[trigger]
                gives_pointer(after, before, size, value, ws, made) && res == plan_from(
                    made,
                    |ct: TypeId| CastPlan::Always(ct),
                )
        } else {
            never
        }
    } else if slot == 1 {
        if shown_cast(vn, data) && data.value(vn).descend@.len() == 1 && data.value(vn).descend@[0] == op {
            exists|made: Result<TypeId>| #[trigger]
                gives_pointer(after, before, size, value, ws, made) && res == plan_from(
                    made,
                    |ct: TypeId|
                        if pointer != ct {
                            CastPlan::Always(ct)
                        } else {
                            CastPlan::Never
                        },
                )
        } else {
            never
        }
    } else {
        after == before && res == Ok::<CastPlan, Error>(CastPlan::Standard(asks(target, value, false, true)))
    }
}

fn plan_store(op: OpId, slot: i32, facing: &Facing, data: &Funcdata, glb: &mut Architecture) -> (res: Result<CastPlan>)
    requires
        old(glb).workable(),
        data.flowing(),
        data.has_op(op),
        data.operation(op).opcode == OpCode::Store,
        faces(*facing, op, *data, old(glb).types),
        crate::typeop::spread::names_space(data.operation(op).inrefs@[0], *data, *old(glb)),
    ensures
        final(glb).grew(*old(glb)),
        plans_store(*final(glb), *old(glb), op, slot, *facing, *data, res),
{
    proof {
        crate::types::suit::grew_never(*glb);
        assert(data.shaped(data.operation(op)));
        assert(data.has_vn(data.operation(op).inrefs@[1]));
        let types = glb.types;
        types.look(facing.reads@[1]);
        types.parts(types.dt(facing.reads@[1]));
        types.look(facing.reads@[2]);
        types.parts(types.dt(facing.reads@[2]));
    }
    if slot == 0 || data.op(op).does_special_printing() {
        return Ok(CastPlan::Never);
    }
    let pointer_vn = data.op(op).get_in(1);
    let pointer_type = facing.reads[1];
    let value_type = facing.reads[2];
    let wordsize: u32 = const_space(data, data.op(op).get_in(0), glb).get_word_size();
    let pointer_size: i32 = data.vn(pointer_vn).get_size();
    let target = if glb.types.get(pointer_type).get_metatype() == TypeMetatype::Ptr {
        Some(glb.types.get(pointer_type).get_ptr_to())
    } else {
        None
    };
    let fits = match target {
        Some(ct) => glb.types.get(ct).get_size() == glb.types.get(value_type).get_size(),
        None => false,
    };
    if !fits {
        if slot == 1 {
            return match give_pointer(pointer_size, value_type, wordsize, glb) {
                Ok(tp) => Ok(CastPlan::Always(tp)),
                Err(e) => Err(e),
            };
        }
        return Ok(CastPlan::Never);
    }
    if slot == 1 {
        if is_shown_cast(pointer_vn, data) && data.vn(pointer_vn).lone_descend() == Some(op) {
            return match give_pointer(pointer_size, value_type, wordsize, glb) {
                Ok(tp) => if pointer_type != tp {
                    Ok(CastPlan::Always(tp))
                } else {
                    Ok(CastPlan::Never)
                },
                Err(e) => Err(e),
            };
        }
        return Ok(CastPlan::Never);
    }
    Ok(
        CastPlan::Standard(
            CastQuestion {
                required: target.unwrap(),
                current: value_type,
                care_uint_int: false,
                care_ptr_uint: true,
            },
        ),
    )
}

/// The two are pointers to elements of one size.
pub open spec fn same_stride(required: TypeId, current: TypeId, types: TypeFactory) -> bool {
    let r = types.dt(required);
    let c = types.dt(current);
    &&& r.is_pointer()
    &&& c.is_pointer()
    &&& types.dt(r.pointer().ptrto->0).align_size == types.dt(c.pointer().ptrto->0).align_size
}

fn has_same_stride(required: TypeId, current: TypeId, types: &TypeFactory) -> (res: bool)
    requires
        types.sound(),
        types.has(required),
        types.has(current),
    ensures
        res == same_stride(required, current, *types),
{
    proof {
        types.look(required);
        types.parts(types.dt(required));
        types.look(current);
        types.parts(types.dt(current));
    }
    if types.get(required).get_metatype() != TypeMetatype::Ptr || types.get(current).get_metatype()
        != TypeMetatype::Ptr {
        return false;
    }
    let reqbase = types.get(required).get_ptr_to();
    let curbase = types.get(current).get_ptr_to();
    types.get(reqbase).get_align_size() == types.get(curbase).get_align_size()
}

/// What a typedef stands for.
fn find_meant(start: TypeId, types: &TypeFactory) -> (res: TypeId)
    requires
        types.sound(),
        types.has(start),
    ensures
        res == types.meant_by(start),
{
    let mut cur = start;
    proof {
        types.look(cur);
        types.parts(types.dt(cur));
    }
    loop
        invariant
            types.sound(),
            types.member(cur),
            types.linked(types.dt(cur)),
            types.meant_by(cur) == types.meant_by(start),
        ensures
            cur == types.meant_by(start),
        decreases cur.0,
    {
        match types.get(cur).get_typedef() {
            Some(typedef_imm) => {
                cur = typedef_imm;
                proof {
                    types.look(cur);
                    types.parts(types.dt(cur));
                }
            },
            None => {
                break;
            },
        }
    }
    cur
}

/// The two point to what is the same but for typedefs, in arrays or not.
pub open spec fn same_target(required: TypeId, current: TypeId, types: TypeFactory) -> bool {
    let r = types.dt(required);
    let c = types.dt(current);
    let to_r = r.pointer().ptrto->0;
    let to_c = c.pointer().ptrto->0;
    let arrays = types.dt(to_r).kind is Array && types.dt(to_c).kind is Array;
    required == current || {
        &&& r.is_pointer()
        &&& c.is_pointer()
        &&& if arrays {
            types.meant_by(types.dt(to_r).kind->Array_0.arrayof->0) == types.meant_by(
                types.dt(to_c).kind->Array_0.arrayof->0,
            )
        } else {
            types.meant_by(to_r) == types.meant_by(to_c)
        }
    }
}

fn has_same_target(required: TypeId, current: TypeId, types: &TypeFactory) -> (res: bool)
    requires
        types.sound(),
        types.has(required),
        types.has(current),
    ensures
        res == same_target(required, current, *types),
{
    if required == current {
        return true;
    }
    proof {
        types.look(required);
        types.parts(types.dt(required));
        types.look(current);
        types.parts(types.dt(current));
    }
    if types.get(required).get_metatype() != TypeMetatype::Ptr || types.get(current).get_metatype()
        != TypeMetatype::Ptr {
        return false;
    }
    let mut reqbase = types.get(required).get_ptr_to();
    let mut curbase = types.get(current).get_ptr_to();
    proof {
        types.look(reqbase);
        types.parts(types.dt(reqbase));
        types.look(curbase);
        types.parts(types.dt(curbase));
    }
    if types.get(curbase).get_metatype() == TypeMetatype::Array && types.get(reqbase).get_metatype()
        == TypeMetatype::Array {
        curbase = types.get(curbase).get_base();
        reqbase = types.get(reqbase).get_base();
    }
    find_meant(reqbase, types) == find_meant(curbase, types)
}

/// The sign of a value that is converted may be set.
pub open spec fn may_be_negative(value: Varnode) -> bool {
    value.size <= 8 ==> (value.nz_mask >> ((8 * value.size - 1) as u64)) & 1 != 0
}

fn can_be_negative(value: &Varnode) -> (res: bool)
    requires
        1 <= value.size,
    ensures
        res == may_be_negative(*value),
{
    if value.get_size() <= 8 {
        let shift: u64 = (8 * value.get_size() - 1) as u64;
        (value.get_nz_mask() >> shift) & 1 != 0
    } else {
        true
    }
}

/// How a plan follows from the data-type that an operation wants.
pub open spec fn plan_for(opcode: OpCode, op: OpId, slot: i32, facing: Facing, data: Funcdata, wanted: TypeId) -> CastPlan {
    let current = facing.reads@[slot as int];
    match opcode {
        OpCode::IntSless | OpCode::IntSlessequal => CastPlan::UnlessCompared(asks(wanted, current, true, true)),
        OpCode::IntLess | OpCode::IntLessequal => CastPlan::UnlessCompared(asks(wanted, current, true, false)),
        OpCode::IntZext | OpCode::IntSext => CastPlan::UnlessExtended(asks(wanted, current, true, false)),
        OpCode::IntDiv | OpCode::IntRem => CastPlan::UnlessWidened(asks(wanted, current, true, true), UNSIGNED_EXTENSION),
        OpCode::IntSdiv | OpCode::IntSrem => CastPlan::UnlessWidened(asks(wanted, current, true, true), SIGNED_EXTENSION),
        OpCode::IntRight if slot == 0 => CastPlan::UnlessWidened(asks(wanted, current, true, true), UNSIGNED_EXTENSION),
        OpCode::IntSright if slot == 0 => CastPlan::UnlessWidened(asks(wanted, current, true, true), SIGNED_EXTENSION),
        OpCode::FloatInt2float => CastPlan::Standard(
            asks(wanted, current, may_be_negative(data.value(data.operation(op).inrefs@[slot as int])), true),
        ),
        _ => CastPlan::Standard(asks(wanted, current, false, true)),
    }
}

/// Only the opcode and what is read decide whether the data-type that an operation wants is asked for.
pub open spec fn asks_for_local(opcode: OpCode, op: OpId, slot: i32, data: Funcdata) -> bool {
    match opcode {
        OpCode::IntSless | OpCode::IntSlessequal | OpCode::IntLess | OpCode::IntLessequal | OpCode::IntZext
        | OpCode::IntSext | OpCode::IntDiv | OpCode::IntRem | OpCode::IntSdiv | OpCode::IntSrem => true,
        OpCode::IntRight if slot == 0 => true,
        OpCode::IntSright if slot == 0 => true,
        OpCode::FloatInt2float => TypeOpFloatInt2Float::absorbed(op, data) is None,
        _ => !data.value(data.operation(op).inrefs@[slot as int]).flag(Varnode::ANNOTATION),
    }
}

/// What asking for a cast of what an operation reads does.
pub open spec fn plans(
    after: Architecture,
    before: Architecture,
    opcode: OpCode,
    meta: Option<TypeOpMeta>,
    op: OpId,
    slot: i32,
    facing: Facing,
    data: Funcdata,
    userops: UserOpManage,
    at_address: Option<TypeId>,
    res: Result<CastPlan>,
) -> bool {
    let types = before.types;
    let plain = |plan: CastPlan| after == before && res == Ok::<CastPlan, Error>(plan);
    let near = data.read_facing(data.operation(op).inrefs@[0], op, types);
    match opcode {
        OpCode::Piece
        | OpCode::Subpiece
        | OpCode::Segmentop
        | OpCode::Cpoolref
        | OpCode::New
        | OpCode::Insert
        | OpCode::Zpull
        | OpCode::Spull => plain(CastPlan::Never),
        OpCode::IntEqual | OpCode::IntNotequal => {
            let first = facing.reads@[0];
            let second = facing.reads@[1];
            let wanted = if crate::types::compare::type_order_at(types.dt(second), types.dt(first), 10, types) < 0 {
                second
            } else {
                first
            };
            plain(CastPlan::UnlessCompared(asks(wanted, facing.reads@[slot as int], false, false)))
        },
        OpCode::Copy => plain(CastPlan::Standard(asks(facing.written->0, facing.reads@[0], false, true))),
        OpCode::Load => plans_load(after, before, op, slot, facing, data, res),
        OpCode::Store => plans_store(after, before, op, slot, facing, data, res),
        OpCode::Ptradd if slot == 0 => plain(
            if same_stride(near, facing.reads@[0], types) {
                CastPlan::Never
            } else {
                CastPlan::Always(near)
            },
        ),
        OpCode::Ptrsub if slot == 0 => plain(
            if same_target(near, facing.reads@[0], types) {
                CastPlan::Never
            } else {
                CastPlan::Always(near)
            },
        ),
        _ => if !asks_for_local(opcode, op, slot, data) {
            plain(CastPlan::Never)
        } else {
            exists|wanted: Result<TypeId>| #[trigger]
                crate::typeop::local::gives_input(
                    after,
                    before,
                    opcode,
                    meta,
                    op,
                    slot,
                    data,
                    userops,
                    at_address,
                    wanted,
                ) && res == plan_from(wanted, |ct: TypeId| plan_for(opcode, op, slot, facing, data, ct))
        },
    }
}

fn make_plan(opcode: OpCode, op: OpId, slot: i32, facing: &Facing, data: &Funcdata, wanted: TypeId) -> (res: CastPlan)
    requires
        data.flowing(),
        data.has_op(op),
        0 <= slot < data.operation(op).inrefs@.len(),
        facing.reads@.len() == data.operation(op).inrefs@.len(),
    ensures
        res == plan_for(opcode, op, slot, *facing, *data, wanted),
{
    assert(data.has_vn(data.operation(op).inrefs@[slot as int]));
    let current = facing.reads[slot as usize];
    let strict = CastQuestion { required: wanted, current, care_uint_int: true, care_ptr_uint: true };
    let loose = CastQuestion { required: wanted, current, care_uint_int: true, care_ptr_uint: false };
    let plain = CastQuestion { required: wanted, current, care_uint_int: false, care_ptr_uint: true };
    match opcode {
        OpCode::IntSless | OpCode::IntSlessequal => CastPlan::UnlessCompared(strict),
        OpCode::IntLess | OpCode::IntLessequal => CastPlan::UnlessCompared(loose),
        OpCode::IntZext | OpCode::IntSext => CastPlan::UnlessExtended(loose),
        OpCode::IntDiv | OpCode::IntRem => CastPlan::UnlessWidened(strict, UNSIGNED_EXTENSION),
        OpCode::IntSdiv | OpCode::IntSrem => CastPlan::UnlessWidened(strict, SIGNED_EXTENSION),
        OpCode::IntRight => if slot == 0 {
            CastPlan::UnlessWidened(strict, UNSIGNED_EXTENSION)
        } else {
            CastPlan::Standard(plain)
        },
        OpCode::IntSright => if slot == 0 {
            CastPlan::UnlessWidened(strict, SIGNED_EXTENSION)
        } else {
            CastPlan::Standard(plain)
        },
        OpCode::FloatInt2float => {
            let care = can_be_negative(data.vn(data.op(op).get_in(slot)));
            CastPlan::Standard(CastQuestion { required: wanted, current, care_uint_int: care, care_ptr_uint: true })
        },
        _ => CastPlan::Standard(plain),
    }
}

/// What is asked of an operation whose input may have to be cast.
pub open spec fn cast_asked(
    opcode: OpCode,
    meta: Option<TypeOpMeta>,
    op: OpId,
    slot: i32,
    facing: Facing,
    data: Funcdata,
    glb: Architecture,
) -> bool {
    let o = data.operation(op);
    &&& crate::typeop::local::wishes(opcode, meta, op, data, glb)
    &&& crate::typeop::local::points_to_code(opcode, op, slot, data)
    &&& 0 <= slot < o.inrefs@.len()
    &&& faces(facing, op, data, glb.types)
    &&& opcode == OpCode::IntEqual || opcode == OpCode::IntNotequal ==> o.inrefs@.len() == 2
    &&& opcode == OpCode::Load || opcode == OpCode::Store ==> crate::typeop::spread::names_space(
        o.inrefs@[0],
        data,
        glb,
    )
}

/// Whether what an operation reads has to be cast, as far as that can be told without
/// asking the language.
pub fn get_input_cast(
    opcode: OpCode,
    meta: Option<TypeOpMeta>,
    op: OpId,
    slot: i32,
    facing: &Facing,
    data: &Funcdata,
    glb: &mut Architecture,
    userops: &UserOpManage,
    at_address: Option<TypeId>,
) -> (res: Result<CastPlan>)
    requires
        cast_asked(opcode, meta, op, slot, *facing, *data, *old(glb)),
    ensures
        final(glb).grew(*old(glb)),
        plans(*final(glb), *old(glb), opcode, meta, op, slot, *facing, *data, *userops, at_address, res),
{
    proof {
        crate::types::suit::grew_never(*glb);
        assert(data.shaped(data.operation(op)));
        assert(data.has_vn(data.operation(op).inrefs@[0]));
        assert(data.has_vn(data.operation(op).inrefs@[slot as int]));
    }
    match opcode {
        OpCode::Piece
        | OpCode::Subpiece
        | OpCode::Segmentop
        | OpCode::Cpoolref
        | OpCode::New
        | OpCode::Insert
        | OpCode::Zpull
        | OpCode::Spull => {
            return Ok(CastPlan::Never);
        },
        OpCode::IntEqual | OpCode::IntNotequal => {
            let mut reqtype = facing.reads[0];
            let othertype = facing.reads[1];
            proof {
                glb.types.look(reqtype);
                glb.types.look(othertype);
            }
            if 0 > glb.types.get(othertype).type_order(glb.types.get(reqtype), &glb.types) {
                reqtype = othertype;
            }
            return Ok(
                CastPlan::UnlessCompared(
                    CastQuestion {
                        required: reqtype,
                        current: facing.reads[slot as usize],
                        care_uint_int: false,
                        care_ptr_uint: false,
                    },
                ),
            );
        },
        OpCode::Copy => {
            return Ok(
                CastPlan::Standard(
                    CastQuestion {
                        required: facing.written.unwrap(),
                        current: facing.reads[0],
                        care_uint_int: false,
                        care_ptr_uint: true,
                    },
                ),
            );
        },
        OpCode::Load => {
            return plan_load(op, slot, facing, data, glb);
        },
        OpCode::Store => {
            return plan_store(op, slot, facing, data, glb);
        },
        OpCode::Ptradd => if slot == 0 {
            let reqtype = data.vn_get_type_read_facing(data.op(op).get_in(0), op, glb);
            if has_same_stride(reqtype, facing.reads[0], &glb.types) {
                return Ok(CastPlan::Never);
            }
            return Ok(CastPlan::Always(reqtype));
        },
        OpCode::Ptrsub => if slot == 0 {
            let reqtype = data.vn_get_type_read_facing(data.op(op).get_in(0), op, glb);
            if has_same_target(reqtype, facing.reads[0], &glb.types) {
                return Ok(CastPlan::Never);
            }
            return Ok(CastPlan::Always(reqtype));
        },
        OpCode::FloatInt2float => if TypeOpFloatInt2Float::absorb_zext(op, data).is_some() {
            return Ok(CastPlan::Never);
        },
        _ => {},
    }
    let always_asks = match opcode {
        OpCode::IntSless | OpCode::IntSlessequal | OpCode::IntLess | OpCode::IntLessequal | OpCode::IntZext
        | OpCode::IntSext | OpCode::IntDiv | OpCode::IntRem | OpCode::IntSdiv | OpCode::IntSrem
        | OpCode::FloatInt2float => true,
        OpCode::IntRight | OpCode::IntSright => slot == 0,
        _ => false,
    };
    if !always_asks && data.vn(data.op(op).get_in(slot)).is_annotation() {
        return Ok(CastPlan::Never);
    }
    let wanted = get_input_local(opcode, meta, op, slot, data, glb, userops, at_address);
    match wanted {
        Ok(ct) => Ok(make_plan(opcode, op, slot, facing, data, ct)),
        Err(e) => Err(e),
    }
}

} // verus!

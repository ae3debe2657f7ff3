//! How operations are printed.
use vstd::prelude::*;
use crate::architecture::Architecture;
use crate::cpool::ConstantPool;
use crate::funcdata::Funcdata;
use crate::ids::{BlockId, OpId, VarnodeId};
use crate::op::PcodeOp;
use crate::opcodes::OpCode;
use crate::text::push_decimal;
use crate::typeop::spread::const_space;
use crate::userop::UserOpManage;

verus! {

/// Texts, one behind the other.
pub open spec fn joined(parts: Seq<Seq<char>>, n: nat) -> Seq<char>
    decreases n,
{
    if n == 0 {
        Seq::empty()
    } else {
        joined(parts, (n - 1) as nat) + parts[n - 1]
    }
}

pub open spec fn all_joined(parts: Seq<Seq<char>>) -> Seq<char> {
    joined(parts, parts.len())
}

/// Texts that are put together.
#[derive(Debug)]
pub struct Parts {
    pub list: Vec<String>,
}

impl View for Parts {
    type V = Seq<Seq<char>>;

    open spec fn view(&self) -> Seq<Seq<char>> {
        self.list@.map_values(|s: String| s@)
    }
}

impl Parts {
    fn new() -> (res: Parts)
        ensures
            res@ == Seq::<Seq<char>>::empty(),
    {
        let res = Parts { list: Vec::new() };
        assert(res@ =~= Seq::<Seq<char>>::empty());
        res
    }

    fn put(&mut self, text: &str)
        ensures
            final(self)@ == old(self)@.push(text@),
    {
        self.list.push(text.to_owned());
        assert(self@ =~= old(self)@.push(text@));
    }

    fn put_text(&mut self, text: String)
        ensures
            final(self)@ == old(self)@.push(text@),
    {
        self.list.push(text);
        assert(self@ =~= old(self)@.push(text@));
    }

    fn put_vn(&mut self, vn: Option<VarnodeId>, data: &Funcdata)
        requires
            vn is Some ==> data.has_vn(vn->0),
        ensures
            final(self)@ == old(self)@.push(raw(vn, *data)),
    {
        match vn {
            Some(vn) => self.put_text(data.vn(vn).label.clone()),
            None => self.put("<null>"),
        }
    }

    fn put_input(&mut self, op: OpId, slot: i32, data: &Funcdata)
        requires
            data.flowing(),
            data.has_op(op),
            slot >= 0,
        ensures
            final(self)@ == old(self)@.push(input(op, slot as nat, *data)),
    {
        if slot < data.op(op).num_input() {
            assert(data.has_vn(data.operation(op).inrefs@[slot as int]));
        }
        self.put_vn(data.op(op).get_in_option(slot), data);
    }

    fn put_output(&mut self, op: OpId, data: &Funcdata)
        requires
            data.flowing(),
            data.has_op(op),
        ensures
            final(self)@ == old(self)@.push(raw(data.operation(op).output, *data)),
    {
        self.put_vn(data.op(op).get_out(), data);
    }

    fn append_to(&self, out: &mut String)
        ensures
            final(out)@ == old(out)@ + all_joined(self@),
    {
        let mut i: usize = 0;
        assert(out@ =~= old(out)@ + joined(self@, 0));
        while i < self.list.len()
            invariant
                i <= self.list@.len(),
                out@ == old(out)@ + joined(self@, i as nat),
            decreases self.list@.len() - i,
        {
            out.push_str(self.list[i].as_str());
            proof {
                assert(self@[i as int] == self.list@[i as int]@);
                assert(out@ =~= old(out)@ + (joined(self@, i as nat) + self@[i as int]));
            }
            i = i + 1;
        }
        assert(self@.len() == self.list@.len());
    }
}

/// How a value is printed.
pub open spec fn raw(vn: Option<VarnodeId>, data: Funcdata) -> Seq<char> {
    match vn {
        Some(vn) => data.value(vn).label@,
        None => "<null>"@,
    }
}

/// How an input is printed.
pub open spec fn input(op: OpId, slot: nat, data: Funcdata) -> Seq<char> {
    let inputs = data.operation(op).inrefs@;
    raw(
        if slot < inputs.len() {
            Some(inputs[slot as int])
        } else {
            None
        },
        data,
    )
}

/// Inputs, each with a text before it, up to one of them.
pub open spec fn inputs_after(before: Seq<Seq<char>>, op: OpId, first: nat, n: nat, data: Funcdata) -> Seq<Seq<char>>
    decreases n,
{
    if n <= first {
        Seq::empty()
    } else {
        inputs_after(before, op, first, (n - 1) as nat, data) + before.push(input(op, (n - 1) as nat, data))
    }
}

/// The inputs from one of them on, in brackets.
pub open spec fn bracketed(op: OpId, first: nat, data: Funcdata) -> Seq<Seq<char>> {
    seq!["("@, input(op, first, data)] + inputs_after(
        seq![","@],
        op,
        first + 1,
        data.operation(op).inrefs@.len(),
        data,
    ) + seq![")"@]
}

/// What a function-like operation is printed as.
pub open spec fn function_parts(name: Seq<char>, op: OpId, data: Funcdata) -> Seq<Seq<char>> {
    seq![raw(data.operation(op).output, data), " = "@, name] + bracketed(op, 0, data)
}

pub open spec fn binary_parts(name: Seq<char>, op: OpId, data: Funcdata) -> Seq<Seq<char>> {
    seq![
        raw(data.operation(op).output, data),
        " = "@,
        input(op, 0, data),
        " "@,
        name,
        " "@,
        input(op, 1, data),
    ]
}

pub open spec fn unary_parts(name: Seq<char>, op: OpId, data: Funcdata) -> Seq<Seq<char>> {
    seq![raw(data.operation(op).output, data), " = "@, name, " "@, input(op, 0, data)]
}

/// An assignment, where there is something to assign.
pub open spec fn assigned(op: OpId, data: Funcdata) -> Seq<Seq<char>> {
    if data.operation(op).output is Some {
        seq![raw(data.operation(op).output, data), " = "@]
    } else {
        Seq::empty()
    }
}

impl Parts {
    fn put_inputs_after(&mut self, before: &str, op: OpId, first: i32, data: &Funcdata)
        requires
            data.flowing(),
            data.has_op(op),
            first >= 0,
        ensures
            final(self)@ == old(self)@ + inputs_after(
                seq![before@],
                op,
                first as nat,
                data.operation(op).inrefs@.len(),
                *data,
            ),
    {
        let ghost start = self@;
        let num: i32 = data.op(op).num_input();
        let mut index: i32 = first;
        assert(self@ =~= start + Seq::<Seq<char>>::empty());
        if num <= first {
            return;
        }
        assert(inputs_after(seq![before@], op, first as nat, first as nat, *data) =~= Seq::empty());
        while index < num
            invariant
                data.flowing(),
                data.has_op(op),
                0 <= first <= index <= num,
                num == data.operation(op).inrefs@.len(),
                self@ == start + inputs_after(seq![before@], op, first as nat, index as nat, *data),
            decreases num - index,
        {
            let ghost past = inputs_after(seq![before@], op, first as nat, index as nat, *data);
            self.put(before);
            self.put_input(op, index, data);
            index = index + 1;
            assert(self@ =~= start + (past + seq![before@].push(input(op, (index - 1) as nat, *data))));
        }
    }

    fn put_bracketed(&mut self, op: OpId, first: i32, data: &Funcdata)
        requires
            data.flowing(),
            data.has_op(op),
            0 <= first < i32::MAX,
        ensures
            final(self)@ == old(self)@ + bracketed(op, first as nat, *data),
    {
        let ghost start = self@;
        self.put("(");
        self.put_input(op, first, data);
        self.put_inputs_after(",", op, first + 1, data);
        self.put(")");
        assert(self@ =~= start + bracketed(op, first as nat, *data));
    }

    fn put_assigned(&mut self, op: OpId, data: &Funcdata)
        requires
            data.flowing(),
            data.has_op(op),
        ensures
            final(self)@ == old(self)@ + assigned(op, *data),
    {
        let ghost start = self@;
        if data.op(op).get_out().is_some() {
            self.put_output(op, data);
            self.put(" = ");
        }
        assert(self@ =~= start + assigned(op, *data));
    }
}

pub fn binary_print_raw(name: &str, out: &mut String, op: OpId, data: &Funcdata)
    requires
        data.flowing(),
        data.has_op(op),
    ensures
        final(out)@ == old(out)@ + all_joined(binary_parts(name@, op, *data)),
{
    let mut parts = Parts::new();
    parts.put_output(op, data);
    parts.put(" = ");
    parts.put_input(op, 0, data);
    parts.put(" ");
    parts.put(name);
    parts.put(" ");
    parts.put_input(op, 1, data);
    assert(parts@ =~= binary_parts(name@, op, *data));
    parts.append_to(out);
}

pub fn unary_print_raw(name: &str, out: &mut String, op: OpId, data: &Funcdata)
    requires
        data.flowing(),
        data.has_op(op),
    ensures
        final(out)@ == old(out)@ + all_joined(unary_parts(name@, op, *data)),
{
    let mut parts = Parts::new();
    parts.put_output(op, data);
    parts.put(" = ");
    parts.put(name);
    parts.put(" ");
    parts.put_input(op, 0, data);
    assert(parts@ =~= unary_parts(name@, op, *data));
    parts.append_to(out);
}

pub fn func_print_raw(name: &str, out: &mut String, op: OpId, data: &Funcdata)
    requires
        data.flowing(),
        data.has_op(op),
    ensures
        final(out)@ == old(out)@ + all_joined(function_parts(name@, op, *data)),
{
    let mut parts = Parts::new();
    parts.put_output(op, data);
    parts.put(" = ");
    parts.put(name);
    assert(parts@ =~= seq![raw(data.operation(op).output, *data), " = "@, name@]);
    parts.put_bracketed(op, 0, data);
    parts.append_to(out);
}

/// A name with sizes behind it.
pub open spec fn with_sizes(name: Seq<char>, sizes: Seq<int>) -> Seq<char>
    decreases sizes.len(),
{
    if sizes.len() == 0 {
        name
    } else {
        with_sizes(name, sizes.drop_last()) + crate::text::decimal(sizes.last())
    }
}

/// What an operation is called where it is printed.
pub open spec fn operator_name(opcode: OpCode, name: Seq<char>, op: OpId, data: Funcdata, userops: UserOpManage) -> Seq<char> {
    let o = data.operation(op);
    let first = data.value(o.inrefs@[0]);
    match opcode {
        OpCode::IntZext | OpCode::IntSext | OpCode::Subpiece => with_sizes(
            name,
            seq![first.size as int, data.value(o.output->0).size as int],
        ),
        OpCode::Piece => with_sizes(name, seq![first.size as int, data.value(o.inrefs@[1]).size as int]),
        OpCode::IntCarry | OpCode::IntScarry | OpCode::IntSborrow => with_sizes(name, seq![first.size as int]),
        OpCode::Callother => {
            let user = userops.op_at(first.loc.offset as u32);
            if o.parent is Some && user is Some {
                user->0.shown_name(op, data)
            } else {
                name + seq!['['] + first.label@ + seq![']']
            }
        },
        _ => name,
    }
}

/// What an operation whose name is asked for has.
pub open spec fn nameable(opcode: OpCode, op: OpId, data: Funcdata) -> bool {
    let o = data.operation(op);
    match opcode {
        OpCode::IntZext | OpCode::IntSext | OpCode::Subpiece => o.inrefs@.len() >= 1 && o.output is Some,
        OpCode::Piece => o.inrefs@.len() >= 2,
        OpCode::IntCarry | OpCode::IntScarry | OpCode::IntSborrow | OpCode::Callother => o.inrefs@.len() >= 1,
        _ => true,
    }
}

pub fn get_operator_name(opcode: OpCode, name: &str, op: OpId, data: &Funcdata, userops: &UserOpManage) -> (res: String)
    requires
        data.flowing(),
        data.has_op(op),
        nameable(opcode, op, *data),
    ensures
        res@ == operator_name(opcode, name@, op, *data, *userops),
{
    let pcode = data.op(op);
    let mut res = name.to_owned();
    proof {
        reveal_with_fuel(with_sizes, 3);
        if data.operation(op).inrefs@.len() >= 1 {
            assert(data.has_vn(data.operation(op).inrefs@[0]));
        }
    }
    match opcode {
        OpCode::IntZext | OpCode::IntSext | OpCode::Subpiece => {
            let first: i32 = data.vn(pcode.get_in(0)).get_size();
            let second: i32 = data.vn(pcode.get_out().unwrap()).get_size();
            push_decimal(&mut res, first as i64);
            push_decimal(&mut res, second as i64);
            proof {
                let sizes = seq![first as int, second as int];
                assert(sizes.drop_last() =~= seq![first as int]);
                assert(seq![first as int].drop_last() =~= Seq::<int>::empty());
            }
        },
        OpCode::Piece => {
            assert(data.has_vn(data.operation(op).inrefs@[1]));
            let first: i32 = data.vn(pcode.get_in(0)).get_size();
            let second: i32 = data.vn(pcode.get_in(1)).get_size();
            push_decimal(&mut res, first as i64);
            push_decimal(&mut res, second as i64);
            proof {
                let sizes = seq![first as int, second as int];
                assert(sizes.drop_last() =~= seq![first as int]);
                assert(seq![first as int].drop_last() =~= Seq::<int>::empty());
            }
        },
        OpCode::IntCarry | OpCode::IntScarry | OpCode::IntSborrow => {
            let first: i32 = data.vn(pcode.get_in(0)).get_size();
            push_decimal(&mut res, first as i64);
            assert(seq![first as int].drop_last() =~= Seq::<int>::empty());
        },
        OpCode::Callother => {
            let vn = data.vn(pcode.get_in(0));
            if pcode.get_parent().is_some() {
                if let Some(userop) = userops.get_op(vn.get_offset() as u32) {
                    return userop.get_operator_name(op, data);
                }
            }
            res.push('[');
            res.push_str(vn.label.as_str());
            res.push(']');
            assert(res@ =~= name@ + seq!['['] + vn.label@ + seq![']']);
        },
        _ => {},
    }
    res
}

/// The descriptions that an operation refers to a constant by.
pub open spec fn pool_refs(op: OpId, data: Funcdata, n: nat) -> Seq<u64>
    decreases n,
{
    if n <= 1 {
        Seq::empty()
    } else {
        pool_refs(op, data, (n - 1) as nat).push(data.value(data.operation(op).inrefs@[n - 1]).loc.offset)
    }
}

pub fn cpool_refs(op: OpId, data: &Funcdata) -> (res: Vec<u64>)
    requires
        data.flowing(),
        data.has_op(op),
    ensures
        res@ == pool_refs(op, *data, data.operation(op).inrefs@.len()),
{
    let num: i32 = data.op(op).num_input();
    let mut res: Vec<u64> = Vec::new();
    let mut slot: i32 = 1;
    if num <= 1 {
        return res;
    }
    while slot < num
        invariant
            data.flowing(),
            data.has_op(op),
            1 <= slot <= num,
            num == data.operation(op).inrefs@.len(),
            res@ == pool_refs(op, *data, slot as nat),
        decreases num - slot,
    {
        assert(data.has_vn(data.operation(op).inrefs@[slot as int]));
        res.push(data.vn(data.op(op).get_in(slot)).get_offset());
        slot = slot + 1;
    }
    res
}

/// How an operation without brackets of its own is called where it is printed between its inputs.
pub open spec fn infix_name(opcode: OpCode) -> Option<Seq<char>> {
    match opcode {
        OpCode::IntSless => Some("s<"@),
        OpCode::IntSlessequal => Some("s<="@),
        OpCode::IntSright => Some("s>>"@),
        OpCode::IntSdiv => Some("s/"@),
        OpCode::IntSrem => Some("s%"@),
        OpCode::FloatEqual => Some("f=="@),
        OpCode::FloatNotequal => Some("f!="@),
        OpCode::FloatLess => Some("f<"@),
        OpCode::FloatLessequal => Some("f<="@),
        OpCode::FloatAdd => Some("f+"@),
        OpCode::FloatDiv => Some("f/"@),
        OpCode::FloatMult => Some("f*"@),
        OpCode::FloatSub => Some("f-"@),
        _ => None,
    }
}

fn find_infix_name(opcode: OpCode) -> (res: Option<&'static str>)
    ensures
        match res {
            Some(name) => infix_name(opcode) == Some(name@),
            None => infix_name(opcode) is None,
        },
{
    match opcode {
        OpCode::IntSless => Some("s<"),
        OpCode::IntSlessequal => Some("s<="),
        OpCode::IntSright => Some("s>>"),
        OpCode::IntSdiv => Some("s/"),
        OpCode::IntSrem => Some("s%"),
        OpCode::FloatEqual => Some("f=="),
        OpCode::FloatNotequal => Some("f!="),
        OpCode::FloatLess => Some("f<"),
        OpCode::FloatLessequal => Some("f<="),
        OpCode::FloatAdd => Some("f+"),
        OpCode::FloatDiv => Some("f/"),
        OpCode::FloatMult => Some("f*"),
        OpCode::FloatSub => Some("f-"),
        _ => None,
    }
}

/// What an operation of the program flow is printed as.
pub open spec fn flow_parts(opcode: OpCode, name: Seq<char>, op: OpId, data: Funcdata) -> Seq<Seq<char>> {
    let o = data.operation(op);
    let n = o.inrefs@.len();
    let block = data.blocks@[(o.parent->0).0 as int];
    match opcode {
        OpCode::Branch => seq![
            name,
            " "@,
            if o.parent is Some && block.outs@.len() == 1 {
                data.blocks@[block.outs@[0].0 as int].header@
            } else {
                input(op, 0, data)
            },
        ],
        OpCode::Cbranch => {
            let both = o.parent is Some && block.outs@.len() == 2;
            seq![
                name,
                " "@,
                if both {
                    data.blocks@[block.outs@[block.true_out as int].0 as int].header@
                } else {
                    input(op, 0, data)
                },
                " if ("@,
                input(op, 1, data),
                if o.flag(PcodeOp::BOOLEAN_FLIP) {
                    " == 0)"@
                } else {
                    " != 0)"@
                },
            ] + if both {
                seq![" else "@, data.blocks@[block.outs@[1 - block.true_out as int].0 as int].header@]
            } else {
                Seq::empty()
            }
        },
        OpCode::Branchind => seq![name, " "@, input(op, 0, data)],
        _ => seq![name] + (if n >= 1 {
            seq!["("@, input(op, 0, data), ")"@]
        } else {
            Seq::empty()
        }) + (if n > 1 {
            seq![" "@, input(op, 1, data)] + inputs_after(seq![","@], op, 2, n, data)
        } else {
            Seq::empty()
        }),
    }
}

/// The blocks that an operation leads to are there.
pub open spec fn leads_somewhere(op: OpId, data: Funcdata) -> bool {
    let o = data.operation(op);
    let block = data.blocks@[(o.parent->0).0 as int];
    o.parent is Some ==> {
        &&& (o.parent->0).0 < data.blocks@.len()
        &&& forall|k: int| #![trigger block.outs@[k]] 0 <= k < block.outs@.len() ==> block.outs@[k].0 < data.blocks@.len()
        &&& block.outs@.len() == 2 ==> block.true_out < 2
    }
}

fn flow_raw(opcode: OpCode, name: &str, op: OpId, data: &Funcdata) -> (res: Parts)
    requires
        data.flowing(),
        data.has_op(op),
        leads_somewhere(op, *data),
    ensures
        res@ == flow_parts(opcode, name@, op, *data),
{
    let mut parts = Parts::new();
    let pcode = data.op(op);
    match opcode {
        OpCode::Branch => {
            parts.put(name);
            parts.put(" ");
            let mut done = false;
            if let Some(parent) = pcode.get_parent() {
                let block = &data.blocks[parent.0 as usize];
                if block.outs.len() == 1 {
                    let target = block.outs[0];
                    parts.put(data.blocks[target.0 as usize].header.as_str());
                    done = true;
                }
            }
            if !done {
                parts.put_input(op, 0, data);
            }
            assert(parts@ =~= flow_parts(opcode, name@, op, *data));
        },
        OpCode::Cbranch => {
            parts.put(name);
            parts.put(" ");
            let mut false_out: Option<BlockId> = None;
            if let Some(parent) = pcode.get_parent() {
                let block = &data.blocks[parent.0 as usize];
                if block.outs.len() == 2 {
                    let true_out = block.outs[block.true_out];
                    parts.put(data.blocks[true_out.0 as usize].header.as_str());
                    false_out = Some(block.outs[1 - block.true_out]);
                }
            }
            if false_out.is_none() {
                parts.put_input(op, 0, data);
            }
            parts.put(" if (");
            parts.put_input(op, 1, data);
            if pcode.is_boolean_flip() {
                parts.put(" == 0)");
            } else {
                parts.put(" != 0)");
            }
            if let Some(false_out) = false_out {
                parts.put(" else ");
                parts.put(data.blocks[false_out.0 as usize].header.as_str());
            }
            assert(parts@ =~= flow_parts(opcode, name@, op, *data));
        },
        OpCode::Branchind => {
            parts.put(name);
            parts.put(" ");
            parts.put_input(op, 0, data);
            assert(parts@ =~= flow_parts(opcode, name@, op, *data));
        },
        _ => {
            let num: i32 = pcode.num_input();
            parts.put(name);
            if num >= 1 {
                parts.put("(");
                parts.put_input(op, 0, data);
                parts.put(")");
            }
            if num > 1 {
                parts.put(" ");
                parts.put_input(op, 1, data);
                parts.put_inputs_after(",", op, 2, data);
            }
            assert(parts@ =~= flow_parts(opcode, name@, op, *data));
        },
    }
    parts
}

/// What an operation is printed as.
pub open spec fn printed_parts(
    opcode: OpCode,
    name: Seq<char>,
    op: OpId,
    data: Funcdata,
    glb: Architecture,
    userops: UserOpManage,
    cpool: ConstantPool,
) -> Seq<Seq<char>> {
    let o = data.operation(op);
    let n = o.inrefs@.len();
    let out = raw(o.output, data);
    let shown = operator_name(opcode, name, op, data, userops);
    let space = crate::typeop::spread::named_space(o.inrefs@[0], data, glb).name@;
    match opcode {
        OpCode::Copy => seq![out, " = "@, input(op, 0, data)],
        OpCode::Load => seq![out, " = *("@, space, ","@, input(op, 1, data), ")"@],
        OpCode::Store => seq!["*("@, space, ","@, input(op, 1, data), ") = "@, input(op, 2, data)],
        OpCode::Branch | OpCode::Cbranch | OpCode::Branchind | OpCode::Return => flow_parts(opcode, name, op, data),
        OpCode::Call => assigned(op, data) + seq![name, " "@, input(op, 0, data)] + (if n > 1 {
            bracketed(op, 1, data)
        } else {
            Seq::empty()
        }),
        OpCode::Callind => assigned(op, data) + seq![name, input(op, 0, data)] + (if n > 1 {
            bracketed(op, 1, data)
        } else {
            Seq::empty()
        }),
        OpCode::Callother => assigned(op, data) + seq![shown] + (if n > 1 {
            bracketed(op, 1, data)
        } else {
            Seq::empty()
        }),
        OpCode::Multiequal => seq![out, " = "@, input(op, 0, data)] + (if n == 1 {
            seq![" "@, shown]
        } else {
            Seq::empty()
        }) + inputs_after(seq![" "@, shown, " "@], op, 1, n, data),
        OpCode::Indirect => seq![out, " = "@] + (if o.flag(PcodeOp::INDIRECT_CREATION) {
            seq!["[create] "@]
        } else {
            seq![input(op, 0, data), " "@, shown, " "@]
        }) + seq![input(op, 1, data)],
        OpCode::Int2comp | OpCode::IntNegate | OpCode::BoolNegate | OpCode::Cast => unary_parts(name, op, data),
        OpCode::FloatNeg => unary_parts("f-"@, op, data),
        OpCode::IntEqual | OpCode::IntNotequal | OpCode::IntLess | OpCode::IntLessequal | OpCode::IntAdd | OpCode::IntSub
        | OpCode::IntXor | OpCode::IntAnd | OpCode::IntOr | OpCode::IntLeft | OpCode::IntRight | OpCode::IntMult
        | OpCode::IntDiv | OpCode::IntRem | OpCode::BoolXor | OpCode::BoolAnd | OpCode::BoolOr | OpCode::Ptrsub =>
            binary_parts(name, op, data),
        OpCode::Ptradd => binary_parts(name, op, data) + seq!["(*"@, input(op, 2, data), ")"@],
        OpCode::Segmentop => assigned(op, data) + seq![
            shown,
            "("@,
            space,
            ","@,
            input(op, 1, data),
            ","@,
            input(op, 2, data),
            ")"@,
        ],
        OpCode::Cpoolref => assigned(op, data) + seq![shown] + (match cpool.record(pool_refs(op, data, n)) {
            Some(record) => seq!["_"@, record.token@],
            None => Seq::empty(),
        }) + seq!["("@, input(op, 0, data)] + inputs_after(seq![","@], op, 2, n, data) + seq![")"@],
        OpCode::New => assigned(op, data) + seq![shown] + bracketed(op, 0, data),
        _ => match infix_name(opcode) {
            Some(infix) => binary_parts(infix, op, data),
            None => function_parts(shown, op, data),
        },
    }
}

/// What is asked of an operation that is printed.
pub open spec fn printable(opcode: OpCode, op: OpId, data: Funcdata, glb: Architecture) -> bool {
    &&& data.flowing()
    &&& data.has_op(op)
    &&& nameable(opcode, op, data)
    &&& leads_somewhere(op, data)
    &&& opcode == OpCode::Load || opcode == OpCode::Store || opcode == OpCode::Segmentop ==> data.operation(
        op,
    ).inrefs@.len() > 0 && crate::typeop::spread::names_space(data.operation(op).inrefs@[0], data, glb)
}

impl Parts {
    fn put_inputs_named(&mut self, name: &str, op: OpId, data: &Funcdata)
        requires
            data.flowing(),
            data.has_op(op),
        ensures
            final(self)@ == old(self)@ + inputs_after(
                seq![" "@, name@, " "@],
                op,
                1,
                data.operation(op).inrefs@.len(),
                *data,
            ),
    {
        let ghost start = self@;
        let ghost before = seq![" "@, name@, " "@];
        let num: i32 = data.op(op).num_input();
        let mut index: i32 = 1;
        assert(self@ =~= start + Seq::<Seq<char>>::empty());
        if num <= 1 {
            return;
        }
        assert(inputs_after(before, op, 1, 1, *data) =~= Seq::empty());
        while index < num
            invariant
                data.flowing(),
                data.has_op(op),
                1 <= index <= num,
                before == seq![" "@, name@, " "@],
                num == data.operation(op).inrefs@.len(),
                self@ == start + inputs_after(before, op, 1, index as nat, *data),
            decreases num - index,
        {
            let ghost past = inputs_after(before, op, 1, index as nat, *data);
            self.put(" ");
            self.put(name);
            self.put(" ");
            self.put_input(op, index, data);
            index = index + 1;
            assert(self@ =~= start + (past + before.push(input(op, (index - 1) as nat, *data))));
        }
    }
}

/// Prints an operation.
#[verifier::spinoff_prover]
#[verifier::rlimit(60)]
pub fn print_raw(
    opcode: OpCode,
    name: &str,
    out: &mut String,
    op: OpId,
    data: &Funcdata,
    glb: &Architecture,
    userops: &UserOpManage,
    cpool: &ConstantPool,
)
    requires
        printable(opcode, op, *data, *glb),
    ensures
        final(out)@ == old(out)@ + all_joined(printed_parts(opcode, name@, op, *data, *glb, *userops, *cpool)),
{
    let pcode = data.op(op);
    let num: i32 = pcode.num_input();
    let mut parts = Parts::new();
    match opcode {
        OpCode::Copy => {
            parts.put_output(op, data);
            parts.put(" = ");
            parts.put_input(op, 0, data);
        },
        OpCode::Load => {
            parts.put_output(op, data);
            parts.put(" = *(");
            parts.put(const_space(data, pcode.get_in(0), glb).get_name());
            parts.put(",");
            parts.put_input(op, 1, data);
            parts.put(")");
        },
        OpCode::Store => {
            parts.put("*(");
            parts.put(const_space(data, pcode.get_in(0), glb).get_name());
            parts.put(",");
            parts.put_input(op, 1, data);
            parts.put(") = ");
            parts.put_input(op, 2, data);
        },
        OpCode::Branch | OpCode::Cbranch | OpCode::Branchind | OpCode::Return => {
            parts = flow_raw(opcode, name, op, data);
        },
        OpCode::Call => {
            parts.put_assigned(op, data);
            parts.put(name);
            parts.put(" ");
            parts.put_input(op, 0, data);
            if num > 1 {
                parts.put_bracketed(op, 1, data);
            }
        },
        OpCode::Callind => {
            parts.put_assigned(op, data);
            parts.put(name);
            parts.put_input(op, 0, data);
            if num > 1 {
                parts.put_bracketed(op, 1, data);
            }
        },
        OpCode::Callother => {
            parts.put_assigned(op, data);
            parts.put_text(get_operator_name(opcode, name, op, data, userops));
            if num > 1 {
                parts.put_bracketed(op, 1, data);
            }
        },
        OpCode::Multiequal => {
            parts.put_output(op, data);
            parts.put(" = ");
            parts.put_input(op, 0, data);
            if num == 1 {
                parts.put(" ");
                parts.put(name);
            }
            parts.put_inputs_named(name, op, data);
        },
        OpCode::Indirect => {
            parts.put_output(op, data);
            parts.put(" = ");
            if pcode.is_indirect_creation() {
                parts.put("[create] ");
            } else {
                parts.put_input(op, 0, data);
                parts.put(" ");
                parts.put(name);
                parts.put(" ");
            }
            parts.put_input(op, 1, data);
        },
        OpCode::Int2comp | OpCode::IntNegate | OpCode::BoolNegate | OpCode::Cast => {
            unary_print_raw(name, out, op, data);
            return;
        },
        OpCode::FloatNeg => {
            unary_print_raw("f-", out, op, data);
            return;
        },
        OpCode::IntEqual | OpCode::IntNotequal | OpCode::IntLess | OpCode::IntLessequal | OpCode::IntAdd | OpCode::IntSub
        | OpCode::IntXor | OpCode::IntAnd | OpCode::IntOr | OpCode::IntLeft | OpCode::IntRight | OpCode::IntMult
        | OpCode::IntDiv | OpCode::IntRem | OpCode::BoolXor | OpCode::BoolAnd | OpCode::BoolOr | OpCode::Ptrsub => {
            binary_print_raw(name, out, op, data);
            return;
        },
        OpCode::Ptradd => {
            parts.put_output(op, data);
            parts.put(" = ");
            parts.put_input(op, 0, data);
            parts.put(" ");
            parts.put(name);
            parts.put(" ");
            parts.put_input(op, 1, data);
            parts.put("(*");
            parts.put_input(op, 2, data);
            parts.put(")");
        },
        OpCode::Segmentop => {
            parts.put_assigned(op, data);
            parts.put(name);
            parts.put("(");
            parts.put(const_space(data, pcode.get_in(0), glb).get_name());
            parts.put(",");
            parts.put_input(op, 1, data);
            parts.put(",");
            parts.put_input(op, 2, data);
            parts.put(")");
        },
        OpCode::Cpoolref => {
            parts.put_assigned(op, data);
            parts.put(name);
            let refs = cpool_refs(op, data);
            if let Some(rec) = cpool.get_record(&refs) {
                parts.put("_");
                parts.put(rec.token.as_str());
            }
            parts.put("(");
            parts.put_input(op, 0, data);
            parts.put_inputs_after(",", op, 2, data);
            parts.put(")");
        },
        OpCode::New => {
            parts.put_assigned(op, data);
            parts.put(name);
            parts.put_bracketed(op, 0, data);
        },
        _ => {
            match find_infix_name(opcode) {
                Some(infix) => binary_print_raw(infix, out, op, data),
                None => {
                    let shown = get_operator_name(opcode, name, op, data, userops);
                    func_print_raw(shown.as_str(), out, op, data);
                },
            }
            return;
        },
    }
    assert(parts@ =~= printed_parts(opcode, name@, op, *data, *glb, *userops, *cpool));
    parts.append_to(out);
}

} // verus!

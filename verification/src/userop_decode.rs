//! Reading the operations that a processor defines.
use std::sync::Arc;
use vstd::prelude::*;
use crate::architecture::Architecture;
use crate::error::{Error, Result};
use crate::ids::TypeId;
use crate::marshal::{Attribute, Element, ATTRIB_FORMAT, ATTRIB_NAME, ATTRIB_SPACE};
use crate::space::SpaceRef;
use crate::text::{is_empty_text, same_text};
use crate::types::TypeMetatype;
use crate::unionresolve::fit::too_many_types;
use crate::userop::{
    error_with, InjectPayload, JumpAssistData, SegmentOpData, UserOpManage, UserOpType, UserPcodeOp, UserPcodeOpKind,
    VarnodeData, ATTRIB_FARPOINTER, ATTRIB_INPUTOP, ATTRIB_OUTPUTOP, ATTRIB_USEROP,
    ELEM_ADDR_PCODE, ELEM_CASE_PCODE, ELEM_CONSTRESOLVE, ELEM_DEFAULT_PCODE, ELEM_JUMPASSIST, ELEM_PCODE, ELEM_SEGMENTOP,
    ELEM_SIZE_PCODE,
};

verus! {

/// What the attributes of a segment say, or the text of what is wrong with them.
pub ghost struct SegmentAttributes {
    pub spc: Option<SpaceRef>,
    pub far: bool,
    pub name: Seq<char>,
    pub fault: Option<Seq<char>>,
}

/// What the attributes of a segment say, with what was known before, from one of them on.
pub open spec fn segment_attributes(list: Seq<Attribute>, i: nat, known: SegmentAttributes) -> SegmentAttributes
    decreases list.len() - i,
{
    if i >= list.len() || known.fault is Some {
        known
    } else {
        let value = list[i as int].value;
        let next = if list[i as int].id == ATTRIB_SPACE {
            match value.space() {
                Some(spc) => SegmentAttributes { spc: Some(spc), ..known },
                None => SegmentAttributes { fault: Some("Expecting space attribute"@), ..known },
            }
        } else if list[i as int].id == ATTRIB_FARPOINTER {
            SegmentAttributes { far: true, ..known }
        } else if list[i as int].id == ATTRIB_USEROP {
            match value.text() {
                Some(name) => SegmentAttributes { name, ..known },
                None => SegmentAttributes { fault: Some("Expecting string attribute"@), ..known },
            }
        } else {
            known
        };
        segment_attributes(list, i + 1, next)
    }
}

pub open spec fn all_segment_attributes(elem: Element) -> SegmentAttributes {
    segment_attributes(
        elem.attributes@,
        0,
        SegmentAttributes { spc: None, far: false, name: "segment"@, fault: None },
    )
}

fn read_segment_attributes(elem: &Element) -> (res: Result<(Option<SpaceRef>, bool, String)>)
    ensures
        ({
            let all = all_segment_attributes(*elem);
            match all.fault {
                Some(text) => res matches Err(e) && e.is_decoder(text),
                None => res matches Ok(found) && found.0 == all.spc && found.1 == all.far && (found.2)@ == all.name,
            }
        }),
{
    let mut spc: Option<SpaceRef> = None;
    let mut far = false;
    let mut name = "segment".to_owned();
    let mut i: usize = 0;
    while i < elem.attributes.len()
        invariant
            i <= elem.attributes@.len(),
            segment_attributes(
                elem.attributes@,
                i as nat,
                SegmentAttributes { spc, far, name: name@, fault: None },
            ) == all_segment_attributes(*elem),
        decreases elem.attributes@.len() - i,
    {
        let id: u32 = elem.attributes[i].id;
        let value = &elem.attributes[i].value;
        proof {
            reveal_with_fuel(segment_attributes, 3);
        }
        if id == ATTRIB_SPACE {
            match value.read_space() {
                Ok(found) => {
                    spc = Some(found);
                },
                Err(e) => {
                    return Err(e);
                },
            }
        } else if id == ATTRIB_FARPOINTER {
            far = true;
        } else if id == ATTRIB_USEROP {
            match value.read_string() {
                Ok(found) => {
                    name = found;
                },
                Err(e) => {
                    return Err(e);
                },
            }
        }
        i = i + 1;
    }
    Ok((spc, far, name))
}

/// How many of the first children are pieces of code.
pub open spec fn code_before(list: Seq<Element>, i: nat) -> nat
    decreases i,
{
    if i == 0 {
        0
    } else {
        code_before(list, (i - 1) as nat) + if list[i - 1].id == ELEM_PCODE {
            1nat
        } else {
            0nat
        }
    }
}

/// The number of the piece of code that counts for a segment: that of the last one.
pub open spec fn segment_code(list: Seq<Element>, injected: Seq<i32>, i: nat) -> i32
    decreases i,
{
    if i == 0 {
        -1i32
    } else if list[i - 1].id == ELEM_PCODE {
        injected[code_before(list, (i - 1) as nat) as int]
    } else {
        segment_code(list, injected, (i - 1) as nat)
    }
}

/// Where the segment of a constant is found: what the last child that tells says.
pub open spec fn segment_place(list: Seq<Element>, i: nat) -> VarnodeData
    decreases i,
{
    if i == 0 {
        VarnodeData { space: None, offset: 0, size: 0 }
    } else if list[i - 1].id == ELEM_CONSTRESOLVE && list[i - 1].place is Some {
        let place = list[i - 1].place->0;
        VarnodeData { space: Some(place.0), offset: place.1, size: place.2 as u32 }
    } else {
        segment_place(list, (i - 1) as nat)
    }
}

/// A segment can be read: its children are known, and each piece of code has a number.
pub open spec fn segment_readable(elem: Element, injected: Seq<i32>, payloads: Seq<InjectPayload>) -> bool {
    let list = elem.children@;
    &&& forall|k: int| #![trigger list[k]]
        0 <= k < list.len() ==> list[k].id == ELEM_CONSTRESOLVE || list[k].id == ELEM_PCODE
    &&& code_before(list, list.len()) <= injected.len()
    &&& forall|k: int| #![trigger injected[k]] 0 <= k < injected.len() ==> 0 <= injected[k] < payloads.len()
}

/// What reading a segment gives.
pub open spec fn reads_segment(
    elem: Element,
    injected: Seq<i32>,
    payloads: Seq<InjectPayload>,
    userops: UserOpManage,
    flags: u32,
    res: Result<UserPcodeOp>,
) -> bool {
    let all = all_segment_attributes(elem);
    let other = crate::userop::named_from(userops.useroplist@, all.name, 0);
    let list = elem.children@;
    let code = segment_code(list, injected, list.len());
    let payload = payloads[code as int];
    let inputs = payload.input_sizes@;
    if elem.id != ELEM_SEGMENTOP {
        res matches Err(e) && e.is_decoder("Unexpected element"@)
    } else if all.fault is Some {
        res matches Err(e) && e.is_decoder(all.fault->0)
    } else if all.spc is None {
        res matches Err(e) && e.is_lowlevel("<segmentop> expecting space attribute"@)
    } else if other is None {
        res matches Err(e) && e.is_lowlevel("<segmentop> unknown userop "@ + all.name)
    } else if other->0.tp != UserOpType::Unspecialized {
        res matches Err(e) && e.is_lowlevel("Redefining userop "@ + all.name)
    } else if code < 0 {
        res matches Err(e) && e.is_lowlevel("Missing <pcode> child in <segmentop> tag"@)
    } else if payload.output_count != 1 {
        res matches Err(e) && e.is_lowlevel("<pcode> child of <segmentop> tag must declare one <output>"@)
    } else if inputs.len() != 1 && inputs.len() != 2 {
        res matches Err(e) && e.is_lowlevel("<pcode> child of <segmentop> tag must declare one or two <input> tags"@)
    } else {
        res matches Ok(op) && op.is(all.name, UserOpType::Segment, other->0.useropindex, flags) && op.kind
            == UserPcodeOpKind::Segment(
            SegmentOpData {
                spc: all.spc,
                inject_id: code,
                baseinsize: if inputs.len() == 2 {
                    inputs[0] as i32
                } else {
                    0
                },
                innerinsize: inputs.last() as i32,
                supportsfarpointer: all.far,
                constresolve: segment_place(list, list.len()),
            },
        )
    }
}

fn decode_segment(
    elem: &Element,
    injected: &Vec<i32>,
    payloads: &Vec<InjectPayload>,
    userops: &UserOpManage,
    flags: u32,
) -> (res: Result<UserPcodeOp>)
    requires
        segment_readable(*elem, injected@, payloads@),
    ensures
        reads_segment(*elem, injected@, payloads@, *userops, flags, res),
{
    if let Err(e) = elem.expect(ELEM_SEGMENTOP) {
        return Err(e);
    }
    let (spc, far, name) = match read_segment_attributes(elem) {
        Ok(found) => found,
        Err(e) => {
            return Err(e);
        },
    };
    if spc.is_none() {
        return Err(Error::lowlevel("<segmentop> expecting space attribute"));
    }
    let index: i32 = match userops.get_op_by_name(name.as_str()) {
        None => {
            return Err(error_with("<segmentop> unknown userop ", name.as_str()));
        },
        Some(otherop) => {
            if otherop.get_type() != UserOpType::Unspecialized {
                return Err(error_with("Redefining userop ", name.as_str()));
            }
            otherop.get_index()
        },
    };
    let mut constresolve = VarnodeData { space: None, offset: 0, size: 0 };
    let mut inject_id: i32 = -1;
    let mut used: usize = 0;
    let count: usize = injected.len();
    let mut i: usize = 0;
    while i < elem.children.len()
        invariant
            count == injected@.len(),
            i <= elem.children@.len(),
            segment_readable(*elem, injected@, payloads@),
            used == code_before(elem.children@, i as nat),
            inject_id == segment_code(elem.children@, injected@, i as nat),
            -1 <= inject_id < payloads@.len(),
            constresolve == segment_place(elem.children@, i as nat),
        decreases elem.children@.len() - i,
    {
        let child = &elem.children[i];
        proof {
            code_grows(elem.children@, (i + 1) as nat, elem.children@.len());
        }
        if child.id == ELEM_CONSTRESOLVE {
            if let Some(place) = &child.place {
                constresolve = VarnodeData { space: Some(place.0.clone()), offset: place.1, size: place.2 as u32 };
            }
        } else {
            assert(child.id == ELEM_PCODE);
            inject_id = injected[used];
            used = used + 1;
        }
        i = i + 1;
    }
    if inject_id < 0 {
        return Err(Error::lowlevel("Missing <pcode> child in <segmentop> tag"));
    }
    let payload = &payloads[inject_id as usize];
    if payload.output_count != 1 {
        return Err(Error::lowlevel("<pcode> child of <segmentop> tag must declare one <output>"));
    }
    let count: usize = payload.input_sizes.len();
    if count != 1 && count != 2 {
        return Err(Error::lowlevel("<pcode> child of <segmentop> tag must declare one or two <input> tags"));
    }
    let baseinsize: i32 = if count == 2 {
        payload.input_sizes[0] as i32
    } else {
        0
    };
    let innerinsize: i32 = payload.input_sizes[count - 1] as i32;
    let mut op = UserPcodeOp::new(
        name.as_str(),
        UserOpType::Segment,
        index,
        UserPcodeOpKind::Segment(
            SegmentOpData { spc, inject_id, baseinsize, innerinsize, supportsfarpointer: far, constresolve },
        ),
    );
    op.flags = flags;
    Ok(op)
}

proof fn code_grows(list: Seq<Element>, i: nat, n: nat)
    requires
        i <= n,
    ensures
        code_before(list, i) <= code_before(list, n),
    decreases n,
{
    if i < n {
        code_grows(list, i, (n - 1) as nat);
    }
}

/// What is known of the pieces of code of a jump after the first children, or the text of what is wrong.
pub ghost struct AssistKnown {
    pub data: JumpAssistData,
    pub used: nat,
    pub fault: Option<Seq<char>>,
}

pub open spec fn assist_code(list: Seq<Element>, injected: Seq<i32>, i: nat) -> AssistKnown
    decreases i,
{
    if i == 0 {
        AssistKnown { data: crate::userop::blank_assist(), used: 0, fault: None }
    } else {
        let known = assist_code(list, injected, (i - 1) as nat);
        let code = injected[known.used as int];
        let id = list[i - 1].id;
        if known.fault is Some {
            known
        } else if id == ELEM_CASE_PCODE {
            if known.data.index2case != -1 {
                AssistKnown { fault: Some("Too many <case_pcode> tags"@), ..known }
            } else {
                AssistKnown { data: JumpAssistData { index2case: code, ..known.data }, used: known.used + 1, ..known }
            }
        } else if id == ELEM_ADDR_PCODE {
            if known.data.index2addr != -1 {
                AssistKnown { fault: Some("Too many <addr_pcode> tags"@), ..known }
            } else {
                AssistKnown { data: JumpAssistData { index2addr: code, ..known.data }, used: known.used + 1, ..known }
            }
        } else if id == ELEM_DEFAULT_PCODE {
            if known.data.defaultaddr != -1 {
                AssistKnown { fault: Some("Too many <default_pcode> tags"@), ..known }
            } else {
                AssistKnown { data: JumpAssistData { defaultaddr: code, ..known.data }, used: known.used + 1, ..known }
            }
        } else {
            if known.data.calcsize != -1 {
                AssistKnown { fault: Some("Too many <size_pcode> tags"@), ..known }
            } else {
                AssistKnown { data: JumpAssistData { calcsize: code, ..known.data }, used: known.used + 1, ..known }
            }
        }
    }
}

/// A jump can be read: its children are known, and each has a number.
pub open spec fn assist_readable(elem: Element, injected: Seq<i32>) -> bool {
    let list = elem.children@;
    &&& forall|k: int| #![trigger list[k]]
        0 <= k < list.len() ==> list[k].id == ELEM_CASE_PCODE || list[k].id == ELEM_ADDR_PCODE || list[k].id
            == ELEM_DEFAULT_PCODE || list[k].id == ELEM_SIZE_PCODE
    &&& list.len() <= injected.len()
}

proof fn assist_used(list: Seq<Element>, injected: Seq<i32>, i: nat)
    ensures
        assist_code(list, injected, i).used <= i,
    decreases i,
{
    if i > 0 {
        assist_used(list, injected, (i - 1) as nat);
    }
}

proof fn assist_faulty(list: Seq<Element>, injected: Seq<i32>, i: nat, n: nat)
    requires
        i <= n,
        assist_code(list, injected, i).fault is Some,
    ensures
        assist_code(list, injected, n).fault == assist_code(list, injected, i).fault,
    decreases n,
{
    if i < n {
        assist_faulty(list, injected, i, (n - 1) as nat);
    }
}

fn decode_jump_assist_children(elem: &Element, injected: &Vec<i32>) -> (res: Result<JumpAssistData>)
    requires
        assist_readable(*elem, injected@),
    ensures
        ({
            let all = assist_code(elem.children@, injected@, elem.children@.len());
            match all.fault {
                Some(text) => res matches Err(e) && e.is_lowlevel(text),
                None => res == Ok::<JumpAssistData, Error>(all.data),
            }
        }),
{
    let mut assist = JumpAssistData { index2case: -1, index2addr: -1, defaultaddr: -1, calcsize: -1 };
    let mut i: usize = 0;
    while i < elem.children.len()
        invariant
            i <= elem.children@.len(),
            assist_readable(*elem, injected@),
            assist_code(elem.children@, injected@, i as nat) == (AssistKnown { data: assist, used: i as nat, fault: None }),
        decreases elem.children@.len() - i,
    {
        let id: u32 = elem.children[i].id;
        let code: i32 = injected[i];
        proof {
            if assist_code(elem.children@, injected@, (i + 1) as nat).fault is Some {
                assist_faulty(elem.children@, injected@, (i + 1) as nat, elem.children@.len());
            }
        }
        if id == ELEM_CASE_PCODE {
            if assist.index2case != -1 {
                return Err(Error::lowlevel("Too many <case_pcode> tags"));
            }
            assist.index2case = code;
        } else if id == ELEM_ADDR_PCODE {
            if assist.index2addr != -1 {
                return Err(Error::lowlevel("Too many <addr_pcode> tags"));
            }
            assist.index2addr = code;
        } else if id == ELEM_DEFAULT_PCODE {
            if assist.defaultaddr != -1 {
                return Err(Error::lowlevel("Too many <default_pcode> tags"));
            }
            assist.defaultaddr = code;
        } else {
            if assist.calcsize != -1 {
                return Err(Error::lowlevel("Too many <size_pcode> tags"));
            }
            assist.calcsize = code;
        }
        i = i + 1;
    }
    Ok(assist)
}

/// A text around a name.
pub open spec fn around(before: Seq<char>, name: Seq<char>, after: Seq<char>) -> Seq<char> {
    before + name + after
}

fn error_around(before: &str, name: &str, after: &str) -> (res: Error)
    ensures
        res.is_lowlevel(around(before@, name@, after@)),
{
    let mut text = before.to_owned();
    text.push_str(name);
    text.push_str(after);
    Error::Lowlevel(text)
}

/// What reading a jump gives.
pub open spec fn reads_assist(
    elem: Element,
    injected: Seq<i32>,
    userops: UserOpManage,
    flags: u32,
    res: Result<UserPcodeOp>,
) -> bool {
    let all = assist_code(elem.children@, injected, elem.children@.len());
    let name = elem.attribute(ATTRIB_NAME);
    let text = name->0.text()->0;
    let other = crate::userop::named_from(userops.useroplist@, text, 0);
    if elem.id != ELEM_JUMPASSIST {
        res matches Err(e) && e.is_decoder("Unexpected element"@)
    } else if name is None {
        res matches Err(e) && Element::lacks(e)
    } else if name->0.text() is None {
        res matches Err(e) && e.is_decoder("Expecting string attribute"@)
    } else if all.fault is Some {
        res matches Err(e) && e.is_lowlevel(all.fault->0)
    } else if all.data.index2addr == -1 {
        res matches Err(e) && e.is_lowlevel(around("userop: "@, text, " is missing <addr_pcode>"@))
    } else if all.data.defaultaddr == -1 {
        res matches Err(e) && e.is_lowlevel(around("userop: "@, text, " is missing <default_pcode>"@))
    } else if other is None {
        res matches Err(e) && e.is_lowlevel("Unknown userop name in <jumpassist>: "@ + text)
    } else if other->0.tp != UserOpType::Unspecialized {
        res matches Err(e) && e.is_lowlevel("<jumpassist> overloads userop with another purpose: "@ + text)
    } else {
        res matches Ok(op) && op.is(text, UserOpType::Jumpassist, other->0.useropindex, flags) && op.kind
            == UserPcodeOpKind::JumpAssist(all.data)
    }
}

fn read_assist(elem: &Element, injected: &Vec<i32>, userops: &UserOpManage, flags: u32) -> (res: Result<UserPcodeOp>)
    requires
        assist_readable(*elem, injected@),
    ensures
        reads_assist(*elem, injected@, *userops, flags, res),
{
    if let Err(e) = elem.expect(ELEM_JUMPASSIST) {
        return Err(e);
    }
    let name = match elem.read_string_attr(ATTRIB_NAME) {
        Ok(name) => name,
        Err(e) => {
            return Err(e);
        },
    };
    let assist = match decode_jump_assist_children(elem, injected) {
        Ok(assist) => assist,
        Err(e) => {
            return Err(e);
        },
    };
    if assist.index2addr == -1 {
        return Err(error_around("userop: ", name.as_str(), " is missing <addr_pcode>"));
    }
    if assist.defaultaddr == -1 {
        return Err(error_around("userop: ", name.as_str(), " is missing <default_pcode>"));
    }
    let index: i32 = match lookup_unspecialized_index(
        userops,
        name.as_str(),
        "Unknown userop name in <jumpassist>: ",
        "<jumpassist> overloads userop with another purpose: ",
    ) {
        Ok(index) => index,
        Err(e) => {
            return Err(e);
        },
    };
    let mut op = UserPcodeOp::new(
        name.as_str(),
        UserOpType::Jumpassist,
        index,
        UserPcodeOpKind::JumpAssist(assist),
    );
    op.flags = flags;
    Ok(op)
}

/// The number of an operation that has no purpose yet.
fn lookup_unspecialized_index(userops: &UserOpManage, name: &str, unknown: &str, overloaded: &str) -> (res: Result<i32>)
    ensures
        match crate::userop::named_from(userops.useroplist@, name@, 0) {
            None => res matches Err(e) && e.is_lowlevel(unknown@ + name@),
            Some(base) => if base.tp != UserOpType::Unspecialized {
                res matches Err(e) && e.is_lowlevel(overloaded@ + name@)
            } else {
                res == Ok::<i32, Error>(base.useropindex)
            },
        },
{
    match userops.get_op_by_name(name) {
        None => Err(error_with(unknown, name)),
        Some(base) => {
            if base.get_type() != UserOpType::Unspecialized {
                return Err(error_with(overloaded, name));
            }
            Ok(base.get_index())
        },
    }
}

/// What reading an operation that code stands for gives.
pub open spec fn reads_injected(
    injectid: i32,
    payloads: Seq<InjectPayload>,
    userops: UserOpManage,
    flags: u32,
    res: Result<UserPcodeOp>,
) -> bool {
    let name = payloads[injectid as int].target@;
    let other = crate::userop::named_from(userops.useroplist@, name, 0);
    if other is None {
        res matches Err(e) && e.is_lowlevel("Unknown userop name in <callotherfixup>: "@ + name)
    } else if other->0.tp != UserOpType::Unspecialized {
        res matches Err(e) && e.is_lowlevel("<callotherfixup> overloads userop with another purpose: "@ + name)
    } else {
        res matches Ok(op) && op.is(name, UserOpType::Injected, other->0.useropindex, flags) && op.kind == (
        UserPcodeOpKind::Injected { injectid: injectid as u32 })
    }
}

fn decode_injected(injectid: i32, payloads: &Vec<InjectPayload>, userops: &UserOpManage, flags: u32) -> (res: Result<
    UserPcodeOp,
>)
    requires
        0 <= injectid < payloads@.len(),
    ensures
        reads_injected(injectid, payloads@, *userops, flags, res),
{
    let name = &payloads[injectid as usize].target;
    let index: i32 = match lookup_unspecialized_index(
        userops,
        name.as_str(),
        "Unknown userop name in <callotherfixup>: ",
        "<callotherfixup> overloads userop with another purpose: ",
    ) {
        Ok(index) => index,
        Err(e) => {
            return Err(e);
        },
    };
    let mut op = UserPcodeOp::new_injected(name.as_str(), index, injectid);
    op.flags = flags;
    Ok(op)
}

/// An operation of a kind can be read from an element.
pub open spec fn readable(tp: UserOpType, elem: Element, injected: Seq<i32>, payloads: Seq<InjectPayload>) -> bool {
    match tp {
        UserOpType::Injected => injected.len() >= 1 && 0 <= injected[0] < payloads.len(),
        UserOpType::Segment => segment_readable(elem, injected, payloads),
        UserOpType::Jumpassist => assist_readable(elem, injected),
        _ => true,
    }
}

/// What reading an operation of a kind gives.
pub open spec fn reads(
    tp: UserOpType,
    elem: Element,
    injected: Seq<i32>,
    payloads: Seq<InjectPayload>,
    userops: UserOpManage,
    flags: u32,
    res: Result<UserPcodeOp>,
) -> bool {
    match tp {
        UserOpType::Injected => reads_injected(injected[0], payloads, userops, flags, res),
        UserOpType::Segment => reads_segment(elem, injected, payloads, userops, flags, res),
        UserOpType::Jumpassist => reads_assist(elem, injected, userops, flags, res),
        _ => false,
    }
}

impl UserPcodeOp {
    /// Reads the operation from an element. The pieces of code in the element have
    /// been given numbers. An operation that cannot be read stays as it is.
    pub fn decode(
        &mut self,
        elem: &Element,
        injected: &Vec<i32>,
        payloads: &Vec<InjectPayload>,
        userops: &UserOpManage,
    ) -> (res: Result<()>)
        requires
            readable(old(self).tp, *elem, injected@, payloads@),
        ensures
            match old(self).tp {
                UserOpType::Injected | UserOpType::Segment | UserOpType::Jumpassist => exists|r: Result<UserPcodeOp>|
                    #[trigger]
                    reads(old(self).tp, *elem, injected@, payloads@, *userops, old(self).flags, r) && match r {
                        Ok(op) => *final(self) == op && res == Ok::<(), Error>(()),
                        Err(e) => *final(self) == *old(self) && res == Err::<(), Error>(e),
                    },
                _ => *final(self) == *old(self) && res == Ok::<(), Error>(()),
            },
    {
        let r = match self.tp {
            UserOpType::Injected => decode_injected(injected[0], payloads, userops, self.flags),
            UserOpType::Segment => decode_segment(elem, injected, payloads, userops, self.flags),
            UserOpType::Jumpassist => read_assist(elem, injected, userops, self.flags),
            _ => {
                return Ok(());
            },
        };
        assert(reads(old(self).tp, *elem, injected@, payloads@, *userops, old(self).flags, r));
        match r {
            Ok(op) => {
                *self = op;
                Ok(())
            },
            Err(e) => Err(e),
        }
    }
}

/// What reading an operation and registering it does.
pub open spec fn takes_in(
    after: UserOpManage,
    before: UserOpManage,
    tp: UserOpType,
    elem: Element,
    injected: Seq<i32>,
    payloads: Seq<InjectPayload>,
    res: Result<()>,
) -> bool {
    exists|r: Result<UserPcodeOp>| #[trigger]
        reads(tp, elem, injected, payloads, before, 0, r) && match r {
            Ok(op) => crate::userop::registers(after, before, op, res),
            Err(e) => after == before && res == Err::<(), Error>(e),
        }
}

/// The numbers of operations, and of the spaces in elements, are not the last ones.
pub open spec fn numbered(userops: UserOpManage, elem: Element) -> bool {
    &&& forall|k: int| #![trigger userops.useroplist@[k]]
        0 <= k < userops.useroplist@.len() && userops.useroplist@[k] is Some ==> userops.useroplist@[k]->0.useropindex
            < i32::MAX
    &&& forall|k: int| #![trigger elem.attributes@[k]]
        0 <= k < elem.attributes@.len() ==> (elem.attributes@[k].value.space() matches Some(spc) ==> 0 <= spc.index
            < i32::MAX)
}

proof fn names_numbered(list: Seq<Option<Arc<UserPcodeOp>>>, nm: Seq<char>, i: nat)
    requires
        forall|k: int| #![trigger list[k]]
            0 <= k < list.len() && list[k] is Some ==> list[k]->0.useropindex < i32::MAX,
        crate::userop::named_from(list, nm, i) is Some,
    ensures
        crate::userop::named_from(list, nm, i)->0.useropindex < i32::MAX,
    decreases list.len() - i,
{
    if i < list.len() && !(list[i as int] is Some && list[i as int]->0.name@ == nm) {
        names_numbered(list, nm, i + 1);
    }
}

proof fn spaces_numbered(list: Seq<Attribute>, i: nat, known: SegmentAttributes)
    requires
        forall|k: int| #![trigger list[k]]
            0 <= k < list.len() ==> (list[k].value.space() matches Some(spc) ==> 0 <= spc.index < i32::MAX),
        known.spc matches Some(spc) ==> 0 <= spc.index < i32::MAX,
    ensures
        segment_attributes(list, i, known).spc matches Some(spc) ==> 0 <= spc.index < i32::MAX,
    decreases list.len() - i,
{
    if i < list.len() && known.fault is None {
        let value = list[i as int].value;
        let next = if list[i as int].id == ATTRIB_SPACE {
            match value.space() {
                Some(spc) => SegmentAttributes { spc: Some(spc), ..known },
                None => SegmentAttributes { fault: Some("Expecting space attribute"@), ..known },
            }
        } else if list[i as int].id == ATTRIB_FARPOINTER {
            SegmentAttributes { far: true, ..known }
        } else if list[i as int].id == ATTRIB_USEROP {
            match value.text() {
                Some(name) => SegmentAttributes { name, ..known },
                None => SegmentAttributes { fault: Some("Expecting string attribute"@), ..known },
            }
        } else {
            known
        };
        spaces_numbered(list, i + 1, next);
    }
}

impl UserOpManage {
    fn take_in(
        &mut self,
        tp: UserOpType,
        elem: &Element,
        injected: &Vec<i32>,
        payloads: &Vec<InjectPayload>,
    ) -> (res: Result<()>)
        requires
            tp is Injected || tp is Segment || tp is Jumpassist,
            readable(tp, *elem, injected@, payloads@),
            numbered(*old(self), *elem),
        ensures
            takes_in(*final(self), *old(self), tp, *elem, injected@, payloads@, res),
    {
        let r = match tp {
            UserOpType::Injected => decode_injected(injected[0], payloads, self, 0),
            UserOpType::Segment => decode_segment(elem, injected, payloads, self, 0),
            _ => read_assist(elem, injected, self, 0),
        };
        assert(reads(tp, *elem, injected@, payloads@, *old(self), 0, r));
        match r {
            Ok(op) => {
                proof {
                    names_numbered(self.useroplist@, op.name@, 0);
                    if tp is Segment {
                        spaces_numbered(
                            elem.attributes@,
                            0,
                            SegmentAttributes { spc: None, far: false, name: "segment"@, fault: None },
                        );
                    }
                }
                self.register_op(op)
            },
            Err(e) => Err(e),
        }
    }

    pub fn decode_segment_op(&mut self, elem: &Element, injected: &Vec<i32>, payloads: &Vec<InjectPayload>) -> (res: Result<()>)
        requires
            segment_readable(*elem, injected@, payloads@),
            numbered(*old(self), *elem),
        ensures
            takes_in(*final(self), *old(self), UserOpType::Segment, *elem, injected@, payloads@, res),
    {
        self.take_in(UserOpType::Segment, elem, injected, payloads)
    }

    pub fn decode_call_other_fixup(&mut self, elem: &Element, injected: &Vec<i32>, payloads: &Vec<InjectPayload>) -> (res:
        Result<()>)
        requires
            readable(UserOpType::Injected, *elem, injected@, payloads@),
            numbered(*old(self), *elem),
        ensures
            takes_in(*final(self), *old(self), UserOpType::Injected, *elem, injected@, payloads@, res),
    {
        self.take_in(UserOpType::Injected, elem, injected, payloads)
    }

    pub fn decode_jump_assist(&mut self, elem: &Element, injected: &Vec<i32>, payloads: &Vec<InjectPayload>) -> (res: Result<
        (),
    >)
        requires
            assist_readable(*elem, injected@),
            numbered(*old(self), *elem),
        ensures
            takes_in(*final(self), *old(self), UserOpType::Jumpassist, *elem, injected@, payloads@, res),
    {
        self.take_in(UserOpType::Jumpassist, elem, injected, payloads)
    }

    /// Gives an operation that has no purpose yet a piece of code with a number.
    pub fn manual_call_other_fixup(&mut self, useropname: &str, injectid: i32) -> (res: Result<()>)
        requires
            forall|k: int| #![trigger old(self).useroplist@[k]]
                0 <= k < old(self).useroplist@.len() && old(self).useroplist@[k] is Some
                    ==> old(self).useroplist@[k]->0.useropindex < i32::MAX,
        ensures
            match crate::userop::named_from(old(self).useroplist@, useropname@, 0) {
                None => *final(self) == *old(self) && (res matches Err(e) && e.is_lowlevel("Unknown userop: "@ + useropname@)),
                Some(base) => if base.tp != UserOpType::Unspecialized {
                    *final(self) == *old(self) && (res matches Err(e) && e.is_lowlevel(
                        "Cannot fixup userop: "@ + useropname@,
                    ))
                } else {
                    exists|op: UserPcodeOp|
                        op.is(useropname@, UserOpType::Injected, base.useropindex, 0) && op.kind == (
                        UserPcodeOpKind::Injected { injectid: injectid as u32 }) && #[trigger] crate::userop::registers(
                            *final(self),
                            *old(self),
                            op,
                            res,
                        )
                },
            },
    {
        let index: i32 = match lookup_unspecialized_index(self, useropname, "Unknown userop: ", "Cannot fixup userop: ") {
            Ok(index) => index,
            Err(e) => {
                return Err(e);
            },
        };
        proof {
            names_numbered(self.useroplist@, useropname@, 0);
        }
        let op = UserPcodeOp::new_injected(useropname, index, injectid);
        self.register_op(op)
    }

    /// Registers the operations that a processor names, from one of them on. An empty name stands for none.
    fn initialize_from(&mut self, names: &Vec<String>, i: usize) -> (res: Result<()>)
        requires
            i <= names@.len() < i32::MAX,
        ensures
            registers_names(*final(self), *old(self), names@, i as nat, res),
        decreases names@.len() - i,
    {
        let ghost before = *self;
        if i >= names.len() {
            return Ok(());
        }
        if is_empty_text(names[i].as_str()) {
            return self.initialize_from(names, i + 1);
        }
        let userop = UserPcodeOp::new_unspecialized(names[i].as_str(), i as i32);
        let ghost op = userop;
        let r = self.register_op(userop);
        let ghost mid = *self;
        assert(registers_name(mid, before, names@[i as int]@, i as i32, r));
        match r {
            Ok(_) => self.initialize_from(names, i + 1),
            Err(e) => Err(e),
        }
    }

    pub fn initialize(&mut self, names: &Vec<String>) -> (res: Result<()>)
        requires
            names@.len() < i32::MAX,
        ensures
            registers_names(*final(self), *old(self), names@, 0, res),
    {
        self.initialize_from(names, 0)
    }
}

/// What registering an operation that has a name and no purpose does.
pub open spec fn registers_name(after: UserOpManage, before: UserOpManage, name: Seq<char>, index: i32, res: Result<()>) -> bool {
    exists|op: UserPcodeOp|
        op.is(name, UserOpType::Unspecialized, index, 0) && op.kind == UserPcodeOpKind::Unspecialized
            && #[trigger] crate::userop::registers(after, before, op, res)
}

/// What registering the operations that a processor names does, from one of them on.
pub open spec fn registers_names(
    after: UserOpManage,
    before: UserOpManage,
    names: Seq<String>,
    i: nat,
    res: Result<()>,
) -> bool
    decreases names.len() - i,
{
    if i >= names.len() {
        after == before && res == Ok::<(), Error>(())
    } else if names[i as int]@.len() == 0 {
        registers_names(after, before, names, i + 1, res)
    } else {
        exists|mid: UserOpManage, r: Result<()>| #[trigger]
            registers_name(mid, before, names[i as int]@, i as i32, r) && match r {
                Ok(_) => registers_names(after, mid, names, i + 1, res),
                Err(e) => after == mid && res == Err::<(), Error>(e),
            }
    }
}

/// What the attributes of volatile memory say, or the text of what is wrong with them.
pub ghost struct VolatileAttributes {
    pub read: Seq<char>,
    pub write: Seq<char>,
    pub functional: bool,
    pub fault: bool,
}

pub open spec fn volatile_attributes(list: Seq<Attribute>, i: nat, known: VolatileAttributes) -> VolatileAttributes
    decreases list.len() - i,
{
    let id = list[i as int].id;
    if i >= list.len() || known.fault {
        known
    } else if id != ATTRIB_INPUTOP && id != ATTRIB_OUTPUTOP && id != ATTRIB_FORMAT {
        volatile_attributes(list, i + 1, known)
    } else {
        let next = match list[i as int].value.text() {
            None => VolatileAttributes { fault: true, ..known },
            Some(text) => if id == ATTRIB_INPUTOP {
                VolatileAttributes { read: text, ..known }
            } else if id == ATTRIB_OUTPUTOP {
                VolatileAttributes { write: text, ..known }
            } else {
                VolatileAttributes { functional: known.functional || text == "functional"@, ..known }
            },
        };
        volatile_attributes(list, i + 1, next)
    }
}

pub open spec fn all_volatile_attributes(elem: Element) -> VolatileAttributes {
    volatile_attributes(
        elem.attributes@,
        0,
        VolatileAttributes { read: ""@, write: ""@, functional: false, fault: false },
    )
}

/// What reading how volatile memory is accessed does: two operations come to be built in.
pub open spec fn takes_volatile(after: UserOpManage, before: UserOpManage, elem: Element, res: Result<()>) -> bool {
    let all = all_volatile_attributes(elem);
    let n = before.builtinmap@.len() as int;
    if all.fault {
        after == before && (res matches Err(e) && e.is_decoder("Expecting string attribute"@))
    } else if all.read.len() == 0 || all.write.len() == 0 {
        after == before && (res matches Err(e) && e.is_lowlevel(
            "Missing inputop/outputop attributes in <volatile> element"@,
        ))
    } else if crate::userop::builtin_from(before.builtinmap@, UserPcodeOp::BUILTIN_VOLATILE_READ, 0) is Some {
        after == before && (res matches Err(e) && e.is_lowlevel("read_volatile user-op registered more than once"@))
    } else if crate::userop::builtin_from(before.builtinmap@, UserPcodeOp::BUILTIN_VOLATILE_WRITE, 0) is Some {
        after == before && (res matches Err(e) && e.is_lowlevel("write_volatile user-op registered more than once"@))
    } else {
        &&& res == Ok::<(), Error>(())
        &&& after.useroplist == before.useroplist
        &&& after.segmentop == before.segmentop
        &&& after.builtinmap@.len() == n + 2
        &&& after.builtinmap@.take(n) == before.builtinmap@
        &&& after.builtinmap@[n].0 == UserPcodeOp::BUILTIN_VOLATILE_READ
        &&& after.builtinmap@[n].1.is(
            all.read,
            UserOpType::VolatileRead,
            UserPcodeOp::BUILTIN_VOLATILE_READ as i32,
            if all.functional {
                0
            } else {
                UserPcodeOp::NO_OPERATOR
            },
        )
        &&& after.builtinmap@[n].1.kind == UserPcodeOpKind::VolatileRead
        &&& after.builtinmap@[n + 1].0 == UserPcodeOp::BUILTIN_VOLATILE_WRITE
        &&& after.builtinmap@[n + 1].1.is(
            all.write,
            UserOpType::VolatileWrite,
            UserPcodeOp::BUILTIN_VOLATILE_WRITE as i32,
            if all.functional {
                0
            } else {
                UserPcodeOp::ANNOTATION_ASSIGNMENT
            },
        )
        &&& after.builtinmap@[n + 1].1.kind == UserPcodeOpKind::VolatileWrite
    }
}

impl UserOpManage {
    pub fn decode_volatile(&mut self, elem: &Element) -> (res: Result<()>)
        ensures
            takes_volatile(*final(self), *old(self), *elem, res),
    {
        let mut read_op_name = "".to_owned();
        let mut write_op_name = "".to_owned();
        let mut functional_display = false;
        let mut i: usize = 0;
        while i < elem.attributes.len()
            invariant
                *self == *old(self),
                i <= elem.attributes@.len(),
                volatile_attributes(
                    elem.attributes@,
                    i as nat,
                    VolatileAttributes {
                        read: read_op_name@,
                        write: write_op_name@,
                        functional: functional_display,
                        fault: false,
                    },
                ) == all_volatile_attributes(*elem),
            decreases elem.attributes@.len() - i,
        {
            let id: u32 = elem.attributes[i].id;
            proof {
                reveal_with_fuel(volatile_attributes, 3);
            }
            if id == ATTRIB_INPUTOP || id == ATTRIB_OUTPUTOP || id == ATTRIB_FORMAT {
                let text = match elem.attributes[i].value.read_string() {
                    Ok(text) => text,
                    Err(e) => {
                        return Err(e);
                    },
                };
                if id == ATTRIB_INPUTOP {
                    read_op_name = text;
                } else if id == ATTRIB_OUTPUTOP {
                    write_op_name = text;
                } else if same_text(text.as_str(), "functional") {
                    functional_display = true;
                }
            }
            i = i + 1;
        }
        if is_empty_text(read_op_name.as_str()) || is_empty_text(write_op_name.as_str()) {
            return Err(Error::lowlevel("Missing inputop/outputop attributes in <volatile> element"));
        }
        if self.find_builtin(UserPcodeOp::BUILTIN_VOLATILE_READ).is_some() {
            return Err(Error::lowlevel("read_volatile user-op registered more than once"));
        }
        if self.find_builtin(UserPcodeOp::BUILTIN_VOLATILE_WRITE).is_some() {
            return Err(Error::lowlevel("write_volatile user-op registered more than once"));
        }
        let vr_op = UserPcodeOp::new_volatile_read(read_op_name.as_str(), functional_display);
        self.builtinmap.push((UserPcodeOp::BUILTIN_VOLATILE_READ, Arc::new(vr_op)));
        let vw_op = UserPcodeOp::new_volatile_write(write_op_name.as_str(), functional_display);
        self.builtinmap.push((UserPcodeOp::BUILTIN_VOLATILE_WRITE, Arc::new(vw_op)));
        assert(self.builtinmap@.take(old(self).builtinmap@.len() as int) =~= old(self).builtinmap@);
        Ok(())
    }
}

/// The data-type whose elements an operation that copies moves.
pub open spec fn copied_element(index: u32, glb: Architecture) -> Result<TypeId> {
    let types = glb.types;
    if index == UserPcodeOp::BUILTIN_MEMCPY {
        Ok(types.cached(0, TypeMetatype::Void)->0)
    } else {
        let size = if index == UserPcodeOp::BUILTIN_STRNCPY {
            types.size_of_char
        } else {
            types.size_of_wchar
        };
        Ok(types.charcache@[size as int]->0)
    }
}

/// There is a data-type for the elements that an operation that copies moves.
pub open spec fn has_copied_element(index: u32, glb: Architecture) -> bool {
    let types = glb.types;
    let size = if index == UserPcodeOp::BUILTIN_STRNCPY {
        types.size_of_char
    } else {
        types.size_of_wchar
    };
    index != UserPcodeOp::BUILTIN_MEMCPY ==> 0 <= size < 5 && types.charcache@[size as int] is Some
}

/// What making an operation that copies does.
pub open spec fn makes_copier(after: Architecture, before: Architecture, index: u32, res: Result<UserPcodeOp>) -> bool {
    let spc = before.manager.default_data_space;
    if spc is None {
        after == before && (res matches Err(e) && e.is_lowlevel("missing default data space"@))
    } else if !before.roomy(4) {
        after == before && (res matches Err(e) && crate::unionresolve::fit::out_of_room(e))
    } else if !has_copied_element(index, before) {
        after == before && (res matches Err(e) && e.is_lowlevel("Request for unsupported character data-type"@))
    } else {
        exists|mid: Architecture, p: Result<TypeId>| #[trigger]
            makes_element_pointer(mid, before, index, p) && match p {
                Ok(ptr) => makes_copier_of(after, mid, index, ptr, res),
                Err(e) => after == mid && res == Err::<UserPcodeOp, Error>(e),
            }
    }
}

pub open spec fn makes_element_pointer(after: Architecture, before: Architecture, index: u32, res: Result<TypeId>) -> bool {
    &&& after.same_program(before)
    &&& after.types.makes_pointer(
        before.types,
        before.types.size_of_pointer,
        crate::types::pointers::plain_pointer(
            before.types.plain_form(copied_element(index, before)->Ok_0),
            before.manager.default_data_space->0.word_size,
        ),
        Seq::empty(),
        0,
        res,
    )
}

pub open spec fn makes_copier_of(
    after: Architecture,
    before: Architecture,
    index: u32,
    ptr: TypeId,
    res: Result<UserPcodeOp>,
) -> bool {
    &&& after.same_program(before)
    &&& exists|n: Result<TypeId>| #[trigger]
        after.types.makes_base(before.types, 4, TypeMetatype::Int, n) && match n {
            Ok(int_type) => res matches Ok(op) && op.is(copier_name(index), UserOpType::Datatype, index as i32, 0) && (
            op.kind matches UserPcodeOpKind::Datatype { out_type, in_types } && out_type == Some(ptr) && in_types@
                == seq![Some(ptr), Some(ptr), Some(int_type)]),
            Err(e) => res == Err::<UserPcodeOp, Error>(e),
        }
}

pub open spec fn copier_name(index: u32) -> Seq<char> {
    if index == UserPcodeOp::BUILTIN_MEMCPY {
        "builtin_memcpy"@
    } else if index == UserPcodeOp::BUILTIN_STRNCPY {
        "builtin_strncpy"@
    } else {
        "builtin_wcsncpy"@
    }
}

fn make_copier(index: u32, glb: &mut Architecture) -> (res: Result<UserPcodeOp>)
    requires
        old(glb).workable(),
        old(glb).types.cached(0, TypeMetatype::Void) is Some,
        old(glb).manager.default_data_space matches Some(spc) ==> spc.word_size >= 1,
    ensures
        final(glb).grew(*old(glb)),
        makes_copier(*final(glb), *old(glb), index, res),
{
    let ghost before = *glb;
    proof {
        crate::types::suit::grew_never(*glb);
    }
    let word_size: u32 = match glb.manager.get_default_data_space() {
        Some(spc) => spc.get_word_size(),
        None => {
            return Err(Error::lowlevel("missing default data space"));
        },
    };
    if !glb.has_room_for(4) {
        return Err(too_many_types());
    }
    let ptr_size: i32 = glb.types.get_size_of_pointer();
    let element = if index == UserPcodeOp::BUILTIN_MEMCPY {
        glb.types.get_type_void()
    } else if index == UserPcodeOp::BUILTIN_STRNCPY {
        let size: i32 = glb.types.get_size_of_char();
        glb.types.get_type_char(size)
    } else {
        let size: i32 = glb.types.get_size_of_wchar();
        glb.types.get_type_char(size)
    };
    assert(*glb == before);
    let element_type = match element {
        Ok(tp) => tp,
        Err(e) => {
            return Err(e);
        },
    };
    let p = glb.plain_pointer_to(ptr_size, element_type, word_size);
    let ghost mid = *glb;
    assert(makes_element_pointer(mid, before, index, p));
    match p {
        Ok(ptr_type) => {
            let n = glb.base_of(4, TypeMetatype::Int);
            proof {
                crate::types::suit::grew_twice(*glb, mid, before);
                assert(glb.types.makes_base(mid.types, 4, TypeMetatype::Int, n));
            }
            let res = match n {
                Ok(int_type) => {
                    let name = if index == UserPcodeOp::BUILTIN_MEMCPY {
                        "builtin_memcpy"
                    } else if index == UserPcodeOp::BUILTIN_STRNCPY {
                        "builtin_strncpy"
                    } else {
                        "builtin_wcsncpy"
                    };
                    let op = UserPcodeOp::new_datatype(
                        name,
                        index as i32,
                        Some(ptr_type),
                        Some(ptr_type),
                        Some(ptr_type),
                        Some(int_type),
                        None,
                    );
                    proof {
                        reveal_with_fuel(crate::userop::given, 5);
                        assert(op.kind->in_types@ =~= seq![Some(ptr_type), Some(ptr_type), Some(int_type)]);
                    }
                    Ok(op)
                },
                Err(e) => Err(e),
            };
            assert(makes_copier_of(*glb, mid, index, ptr_type, res));
            res
        },
        Err(e) => Err(e),
    }
}

/// What making an operation that is built in does.
pub open spec fn makes_builtin(after: Architecture, before: Architecture, index: u32, res: Result<UserPcodeOp>) -> bool {
    if index == UserPcodeOp::BUILTIN_STRINGDATA {
        after == before && (res matches Ok(op) && op.is(
            "stringdata"@,
            UserOpType::StringData,
            index as i32,
            UserPcodeOp::DISPLAY_STRING,
        ) && op.kind == UserPcodeOpKind::InternalString)
    } else if index == UserPcodeOp::BUILTIN_VOLATILE_READ {
        after == before && (res matches Ok(op) && op.is(
            "read_volatile"@,
            UserOpType::VolatileRead,
            index as i32,
            UserPcodeOp::NO_OPERATOR,
        ) && op.kind == UserPcodeOpKind::VolatileRead)
    } else if index == UserPcodeOp::BUILTIN_VOLATILE_WRITE {
        after == before && (res matches Ok(op) && op.is(
            "write_volatile"@,
            UserOpType::VolatileWrite,
            index as i32,
            UserPcodeOp::ANNOTATION_ASSIGNMENT,
        ) && op.kind == UserPcodeOpKind::VolatileWrite)
    } else if index == UserPcodeOp::BUILTIN_MEMCPY || index == UserPcodeOp::BUILTIN_STRNCPY || index
        == UserPcodeOp::BUILTIN_WCSNCPY {
        makes_copier(after, before, index, res)
    } else {
        after == before && (res matches Err(e) && e.is_lowlevel("Bad built-in userop id"@))
    }
}

impl UserOpManage {
    /// The operation that is built in under a number. It comes to be built in if it is not yet.
    pub fn register_builtin(&mut self, glb: &mut Architecture, index: u32) -> (res: Result<Arc<UserPcodeOp>>)
        requires
            old(glb).workable(),
            old(glb).types.cached(0, TypeMetatype::Void) is Some,
            old(glb).manager.default_data_space matches Some(spc) ==> spc.word_size >= 1,
        ensures
            final(glb).grew(*old(glb)),
            match crate::userop::builtin_from(old(self).builtinmap@, index, 0) {
                Some(op) => *final(self) == *old(self) && *final(glb) == *old(glb) && res == Ok::<
                    Arc<UserPcodeOp>,
                    Error,
                >(op),
                None => exists|r: Result<UserPcodeOp>| #[trigger]
                    makes_builtin(*final(glb), *old(glb), index, r) && match r {
                        Ok(op) => {
                            &&& res == Ok::<Arc<UserPcodeOp>, Error>(Arc::new(op))
                            &&& final(self).builtinmap@ == old(self).builtinmap@.push((index, Arc::new(op)))
                            &&& final(self).useroplist == old(self).useroplist
                            &&& final(self).segmentop == old(self).segmentop
                        },
                        Err(e) => *final(self) == *old(self) && res == Err::<Arc<UserPcodeOp>, Error>(e),
                    },
            },
    {
        proof {
            crate::types::suit::grew_never(*glb);
        }
        if let Some(existing) = self.find_builtin(index) {
            return Ok(existing.clone());
        }
        let made = if index == UserPcodeOp::BUILTIN_STRINGDATA {
            Ok(UserPcodeOp::new_internal_string())
        } else if index == UserPcodeOp::BUILTIN_VOLATILE_READ {
            Ok(UserPcodeOp::new_volatile_read("read_volatile", false))
        } else if index == UserPcodeOp::BUILTIN_VOLATILE_WRITE {
            Ok(UserPcodeOp::new_volatile_write("write_volatile", false))
        } else if index == UserPcodeOp::BUILTIN_MEMCPY || index == UserPcodeOp::BUILTIN_STRNCPY || index
            == UserPcodeOp::BUILTIN_WCSNCPY {
            make_copier(index, glb)
        } else {
            Err(Error::lowlevel("Bad built-in userop id"))
        };
        assert(makes_builtin(*glb, *old(glb), index, made));
        match made {
            Ok(op) => {
                let op = Arc::new(op);
                self.builtinmap.push((index, op.clone()));
                Ok(op)
            },
            Err(e) => Err(e),
        }
    }
}

} // verus!

use decompiler::address::Address;
use decompiler::arena::Arena;
use decompiler::cover::Cover;
use decompiler::error::Error;
use decompiler::fspec::FuncProto;
use decompiler::funcdata::Funcdata;
use decompiler::ids::{HighId, OpId, TypeId, VarnodeId};
use decompiler::op::PcodeOp;
use decompiler::opcodes::OpCode;
use decompiler::space::{AddrSpace, SpaceRef, SpaceType};
use decompiler::typeop::table::{register_instructions, select_java_operators};
use decompiler::typeop::{TypeOp, TypeOpRecord};
use decompiler::types::{TypeFactory, TypeField, TypeMetatype};
use decompiler::unionresolve::{ResolveEdge, ResolvedUnion};
use decompiler::userop::{UserOpManage, UserOpType, UserPcodeOp};
use decompiler::variable::edges::{HighEdge, HighIntersectTest};
use decompiler::variable::HighVariable;
use decompiler::varnode::Varnode;
use std::sync::Arc;

fn ram() -> SpaceRef {
    Arc::new(AddrSpace {
        name: "ram".to_string(),
        index: 3,
        kind: SpaceType::Processor,
        addr_size: 8,
        word_size: 1,
        big_endian: false,
        highest: u64::MAX,
        pointer_lower_bound: 0x1000,
        pointer_upper_bound: u64::MAX,
    })
}

fn function() -> Funcdata {
    Funcdata {
        varnodes: Arena::new(),
        ops: Arena::new(),
        blocks: Vec::new(),
        highs: Arena::new(),
        groups: Arena::new(),
        calls: Vec::new(),
        proto: FuncProto { model_name: None, params: Vec::new(), output: None, flags: 0 },
        copy_shadows: Vec::new(),
        partial_shadows: Vec::new(),
        union_map: Vec::new(),
    }
}

fn varnode(data: &mut Funcdata, offset: u64, tp: TypeId) -> VarnodeId {
    let index = data.varnodes.put(Varnode {
        flags: Varnode::INSERT,
        size: 4,
        loc: Address::new(&ram(), offset),
        def: None,
        descend: Vec::new(),
        high: None,
        merge_group: 0,
        tp,
        temp_type: None,
        nz_mask: 0xffff_ffff,
        mapentry: None,
        create_index: 0,
        cover: Some(Cover::new()),
        label: String::new(),
    });
    VarnodeId(index)
}

fn operation(data: &mut Funcdata, opcode: OpCode, inrefs: Vec<VarnodeId>) -> OpId {
    let index = data.ops.put(PcodeOp {
        opcode,
        flags: 0,
        addlflags: 0,
        addr: Address::new(&ram(), 0x1000),
        time: 7,
        output: None,
        inrefs,
        parent: None,
    });
    OpId(index)
}

fn variable(data: &mut Funcdata, inst: Vec<VarnodeId>) -> HighId {
    let index = data.highs.put(HighVariable {
        inst: inst.clone(),
        num_merge_classes: 1,
        highflags: 0,
        flags: 0,
        tp: None,
        name_representative: None,
        internal_cover: Cover::new(),
        piece: None,
        symbol: None,
        symboloffset: -1,
    });
    for vn in inst.iter() {
        data.vn_mut(*vn).set_high(Some(HighId(index)), 0);
    }
    HighId(index)
}

fn factory() -> TypeFactory {
    let mut types = TypeFactory::new();
    types.set_arch_properties(Some(ram()), 16);
    types.set_default_alignment_map();
    types
}

fn message(err: Error) -> String {
    match err {
        Error::Lowlevel(text) => text,
        Error::Decoder(text) => format!("decoder: {}", text),
    }
}

#[test]
fn noted_unions_are_given_back() {
    let mut types = factory();
    let narrow = types.get_base(2, TypeMetatype::Int).expect("base");
    let wide = types.get_base(4, TypeMetatype::Int).expect("base");
    let either = types.get_type_union("either").expect("union");
    let mut fields = vec![TypeField::new(0, 0, "narrow", narrow), TypeField::new(1, 0, "wide", wide)];
    types.assign_raw_fields_union(either, &mut fields).expect("fields");
    let mut data = function();
    let vn = varnode(&mut data, 0x10, either);
    let op = operation(&mut data, OpCode::Copy, vec![vn]);
    assert_eq!(data.get_union_field(either, op, 0, &types), None);
    let first = ResolvedUnion { resolve: narrow, base_type: either, field_num: 0, lock: false };
    data.set_union_field(either, op, 0, &first, &types);
    assert_eq!(data.get_union_field(either, op, 0, &types), Some(first));
    let second = ResolvedUnion { resolve: wide, base_type: either, field_num: 1, lock: false };
    data.set_union_field(either, op, 0, &second, &types);
    assert_eq!(data.get_union_field(either, op, 0, &types), Some(second));
    assert_eq!(data.get_union_field(either, op, 1, &types), None);
    let mut locked = second;
    locked.set_lock(true);
    assert!(!locked.update(&first));
    assert_eq!(locked.get_field_num(), 1);
    let edge = ResolveEdge::new(either, op, 0, &data, &types);
    let other = ResolveEdge::new(either, op, 1, &data, &types);
    assert!(edge.before(&other) != other.before(&edge));
}

#[test]
fn merging_keeps_the_order_of_storage() {
    let mut types = factory();
    let int4 = types.get_base(4, TypeMetatype::Int).expect("base");
    let mut data = function();
    let places: Vec<VarnodeId> = [0x10u64, 0x30, 0x20, 0x40].iter().map(|off| varnode(&mut data, *off, int4)).collect();
    let first = variable(&mut data, vec![places[0], places[1]]);
    let second = variable(&mut data, vec![places[2], places[3]]);
    data.high_merge_internal(first, second, false).expect("merge");
    assert_eq!(data.high(first).inst, vec![places[0], places[2], places[1], places[3]]);
    for vn in places.iter() {
        assert_eq!(data.vn(*vn).get_high_option(), Some(first));
    }
}

#[test]
fn speculative_merges_count_classes() {
    let mut types = factory();
    let int4 = types.get_base(4, TypeMetatype::Int).expect("base");
    let mut data = function();
    let places: Vec<VarnodeId> = [0x10u64, 0x20, 0x30].iter().map(|off| varnode(&mut data, *off, int4)).collect();
    let first = variable(&mut data, vec![places[0]]);
    let second = variable(&mut data, vec![places[1]]);
    let third = variable(&mut data, vec![places[2]]);
    data.high_merge_internal(first, second, true).expect("merge");
    assert_eq!(data.high(first).num_merge_classes, 2);
    assert_eq!(data.vn(places[1]).get_merge_group(), 1);
    let err = data.high_merge_internal(first, third, false).expect_err("speculative before");
    assert_eq!(message(err), "Making a non-speculative merge after speculative merges have occurred");
}

#[test]
fn registered_operations_are_found() {
    let mut ops = UserOpManage::new();
    ops.initialize(&vec!["syscall".to_string(), "fence".to_string()]).expect("names");
    assert_eq!(ops.get_op(1).expect("op").get_name(), "fence");
    assert_eq!(ops.get_op_by_name("syscall").expect("op").get_index(), 0);
    assert!(ops.get_op(7).is_none());
    ops.manual_call_other_fixup("fence", 12).expect("fixup");
    let fence = ops.get_op(1).expect("op");
    assert_eq!(fence.get_type(), UserOpType::Injected);
    assert_eq!(fence.get_inject_id(), 12);
    assert_eq!(ops.get_op_by_name("fence").expect("op").get_index(), 1);
    assert_eq!(ops.get_op_by_name("fence").expect("op").get_inject_id(), 12);
    let err = ops.manual_call_other_fixup("fence", 13).expect_err("twice");
    assert_eq!(message(err), "Cannot fixup userop: fence");
    let err = ops.manual_call_other_fixup("nowhere", 13).expect_err("unknown");
    assert_eq!(message(err), "Unknown userop: nowhere");
    let err = ops.register_op(UserPcodeOp::new_unspecialized("lost", -1)).expect_err("index");
    assert_eq!(message(err), "UserOp not assigned an index");
    let err = ops.register_op(UserPcodeOp::new_unspecialized("syscall", 5)).expect_err("conflict");
    assert_eq!(message(err), "Conflicting indices for userop name syscall");
    assert_eq!(UserPcodeOp::append_size("read_volatile", 4), "read_volatile_4");
}

#[test]
fn segment_operations_name_their_code() {
    let op = UserPcodeOp::new_segment("segment", 3);
    let request = op.execute(&[1, 2]);
    assert_eq!(request.inject_id, -1);
    assert_eq!(request.input, vec![1, 2]);
}

#[test]
fn the_last_choice_of_operators_counts() {
    let mut inst: Vec<Option<TypeOpRecord>> = Vec::new();
    register_instructions(&mut inst, &factory());
    select_java_operators(&mut inst, true);
    assert_eq!(inst[OpCode::IntRight.index()].as_ref().expect("shift").get_name(), ">>>");
    select_java_operators(&mut inst, false);
    assert_eq!(inst[OpCode::IntRight.index()].as_ref().expect("shift").get_name(), ">>");
}

#[test]
fn intersections_are_remembered_both_ways() {
    let mut types = factory();
    let int4 = types.get_base(4, TypeMetatype::Int).expect("base");
    let mut data = function();
    let (here, there) = (varnode(&mut data, 0x10, int4), varnode(&mut data, 0x20, int4));
    let first = variable(&mut data, vec![here]);
    let second = variable(&mut data, vec![there]);
    let mut tests = HighIntersectTest::new();
    assert!(!tests.intersection(&mut data, &Vec::new(), first, first).expect("same"));
    assert_eq!(tests.known_test(HighEdge::new(first, first)), None);
    let found = tests.intersection(&mut data, &Vec::new(), first, second).expect("pair");
    assert!(!found);
    assert_eq!(tests.known_test(HighEdge::new(first, second)), Some(found));
    assert_eq!(tests.known_test(HighEdge::new(second, first)), Some(found));
    assert_eq!(tests.intersection(&mut data, &Vec::new(), second, first).expect("turned"), found);
}

#[test]
fn the_first_slot_of_the_table_is_free() {
    let types = factory();
    let mut table: Vec<Option<TypeOpRecord>> = Vec::new();
    register_instructions(&mut table, &types);
    assert!(table[0].is_none());
    assert_eq!(table.iter().filter(|slot| slot.is_some()).count(), 73);
}

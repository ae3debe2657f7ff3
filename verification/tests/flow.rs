use decompiler::address::Address;
use decompiler::architecture::{Architecture, SpaceManager};
use decompiler::arena::Arena;
use decompiler::cover::Cover;
use decompiler::cpool::ConstantPool;
use decompiler::database::{Database, Scope};
use decompiler::fspec::FuncProto;
use decompiler::funcdata::Funcdata;
use decompiler::ids::{OpId, ScopeId, TypeId, VarnodeId};
use decompiler::op::PcodeOp;
use decompiler::opcodes::OpCode;
use decompiler::space::{AddrSpace, SpaceRef, SpaceType};
use decompiler::typeop::cast::{CastAnswers, CastPlan, Facing};
use decompiler::typeop::ops::{TypeOpCopy, TypeOpFloatAdd, TypeOpIntAdd};
use decompiler::typeop::TypeOp;
use decompiler::types::{Datatype, TypeFactory, TypeField, TypeMetatype};
use decompiler::unionresolve::score::ScoreUnionFields;
use decompiler::userop::UserOpManage;
use decompiler::varnode::Varnode;
use std::sync::Arc;

fn space(name: &str, index: i32, kind: SpaceType) -> SpaceRef {
    Arc::new(AddrSpace {
        name: name.to_string(),
        index,
        kind,
        addr_size: 8,
        word_size: 1,
        big_endian: false,
        highest: u64::MAX,
        pointer_lower_bound: 0x1000,
        pointer_upper_bound: u64::MAX,
    })
}

fn program() -> Architecture {
    let ram = space("ram", 3, SpaceType::Processor);
    let mut types = TypeFactory::new();
    types.set_arch_properties(Some(ram.clone()), 16);
    types.set_default_alignment_map();
    let global = Scope {
        id: 0,
        is_global: true,
        function: None,
        entries: Vec::new(),
        children: Vec::new(),
        ranges: Vec::new(),
    };
    Architecture {
        types,
        manager: SpaceManager {
            spaces: vec![space("const", 0, SpaceType::Constant), ram.clone()],
            default_data_space: Some(ram),
            stack_space: None,
            stack_pointer_size: None,
            default_size: 8,
        },
        symboltab: Database {
            scopes: vec![global],
            entries: Vec::new(),
            symbols: Vec::new(),
            global_scope: Some(ScopeId(0)),
        },
        float_formats: Vec::new(),
    }
}

struct Values {
    data: Funcdata,
}

impl Values {
    fn new() -> Values {
        Values {
            data: Funcdata {
                varnodes: Arena::new(),
                ops: Arena::new(),
                blocks: Vec::new(),
                highs: Arena::new(),
                groups: Arena::new(),
                calls: Vec::new(),
                proto: FuncProto { model_name: None, params: Vec::new(), output: None, flags: 0 },
                copy_shadows: Vec::new(),
                partial_shadows: Vec::new(),
                union_map: Vec::new(),
            },
        }
    }

    fn value(&mut self, flags: u32, size: i32, loc: Address, tp: TypeId, label: &str) -> VarnodeId {
        VarnodeId(self.data.varnodes.put(Varnode {
            flags,
            size,
            loc,
            def: None,
            descend: Vec::new(),
            high: None,
            merge_group: 0,
            tp,
            temp_type: Some(tp),
            nz_mask: u64::MAX,
            mapentry: None,
            create_index: 0,
            cover: Some(Cover::new()),
            label: label.to_string(),
        }))
    }

    fn stored(&mut self, size: i32, offset: u64, tp: TypeId, label: &str) -> VarnodeId {
        let loc = Address::new(&space("ram", 3, SpaceType::Processor), offset);
        self.value(Varnode::INSERT | Varnode::INPUT, size, loc, tp, label)
    }

    fn constant(&mut self, size: i32, val: u64, tp: TypeId) -> VarnodeId {
        let loc = Address::new(&space("const", 0, SpaceType::Constant), val);
        self.value(Varnode::CONSTANT, size, loc, tp, "constant")
    }

    fn operation(&mut self, opcode: OpCode, inrefs: Vec<VarnodeId>, output: VarnodeId) -> OpId {
        let loc = Address::new(&space("ram", 3, SpaceType::Processor), 0x1000);
        let op = OpId(self.data.ops.put(PcodeOp {
            opcode,
            flags: 0,
            addlflags: 0,
            addr: loc,
            time: 1,
            output: Some(output),
            inrefs: inrefs.clone(),
            parent: None,
        }));
        for vn in inrefs.iter() {
            self.data.vn_mut(*vn).descend.push(op);
        }
        let out = self.data.vn_mut(output);
        out.def = Some(op);
        out.flags = (out.flags & !Varnode::INPUT) | Varnode::WRITTEN;
        op
    }
}

fn pair(glb: &mut Architecture) -> (TypeId, TypeId, TypeId) {
    let int4 = glb.types.get_base(4, TypeMetatype::Int).expect("base");
    let pair = glb.types.get_type_struct("pair").expect("structure");
    let mut fields = vec![TypeField::new(-1, -1, "x", int4), TypeField::new(-1, -1, "y", int4)];
    glb.types.assign_raw_fields_struct(pair, &mut fields, &mut Vec::new()).expect("fields");
    let ptr = glb.types.get_type_pointer(8, pair, 1).expect("pointer");
    (int4, pair, ptr)
}

#[test]
fn chains_lead_to_fields() {
    let mut glb = program();
    let (int4, _pair, ptr) = pair(&mut glb);
    let mut off: i64 = 4;
    let mut par: Option<TypeId> = None;
    let mut par_off: i64 = 0;
    let down = Datatype::down_chain(ptr, &mut off, &mut par, &mut par_off, false, &mut glb).expect("chain").expect("field");
    assert_eq!(glb.types.get(down).get_ptr_to(), int4);
    assert_eq!(off, 0);
    assert_eq!((par, par_off), (Some(ptr), 4));
}

#[test]
fn sums_of_pointers_point_to_fields() {
    let mut glb = program();
    let (int4, _pair, ptr) = pair(&mut glb);
    let long = glb.types.get_base(8, TypeMetatype::Uint).expect("base");
    let mut values = Values::new();
    let base = values.stored(8, 0x10, ptr, "base");
    let offset = values.constant(8, 4, long);
    let sum = values.stored(8, 0x20, long, "sum");
    let op = values.operation(OpCode::IntAdd, vec![base, offset], sum);
    let add = TypeOpIntAdd::new();
    let found = add
        .propagate_type(ptr, op, base, sum, 0, -1, &mut values.data, &mut glb)
        .expect("propagation")
        .expect("a data-type");
    assert_eq!(glb.types.get(glb.types.get(found).get_ptr_to()).get_size(), 4);
    assert_eq!(glb.types.get(found).get_metatype(), TypeMetatype::Ptr);
    let none = add.propagate_type(int4, op, base, sum, 0, -1, &mut values.data, &mut glb).expect("propagation");
    assert_eq!(none, None);
}

#[test]
fn copies_hand_data_types_on_and_print() {
    let mut glb = program();
    let int4 = glb.types.get_base(4, TypeMetatype::Int).expect("base");
    let mut values = Values::new();
    let from = values.stored(4, 0x10, int4, "from");
    let to = values.stored(4, 0x20, int4, "to");
    let op = values.operation(OpCode::Copy, vec![from], to);
    let copy = TypeOpCopy::new();
    let found = copy.propagate_type(int4, op, from, to, 0, -1, &mut values.data, &mut glb).expect("propagation");
    assert_eq!(found, Some(int4));
    let mut out = String::new();
    copy.print_raw(&mut out, op, &values.data, &glb, &UserOpManage::new(), &ConstantPool { records: Vec::new() });
    assert_eq!(out, "to = from");
    let request = copy.push_request(op, None);
    assert_eq!((request.opcode, request.op), (OpCode::Copy, op));
}

#[test]
fn casts_are_put_to_the_language() {
    let mut glb = program();
    let float4 = glb.types.get_base(4, TypeMetatype::Float).expect("base");
    let int4 = glb.types.get_base(4, TypeMetatype::Int).expect("base");
    let mut values = Values::new();
    let a = values.stored(4, 0x10, int4, "a");
    let b = values.stored(4, 0x14, float4, "b");
    let sum = values.stored(4, 0x20, float4, "sum");
    let op = values.operation(OpCode::FloatAdd, vec![a, b], sum);
    let add = TypeOpFloatAdd::new();
    let wanted = add.get_input_local(op, 0, &values.data, &mut glb, &UserOpManage::new(), None).expect("wish");
    assert_eq!(wanted, float4);
    let facing = Facing { reads: vec![int4, float4], written: Some(float4) };
    let plan = add.get_input_cast(op, 0, &facing, &values.data, &mut glb, &UserOpManage::new(), None).expect("plan");
    match plan {
        CastPlan::Standard(question) => {
            assert_eq!((question.required, question.current), (float4, int4));
            assert!(!question.care_uint_int);
            assert!(question.care_ptr_uint);
        }
        other => panic!("unexpected plan {:?}", other),
    }
    let answers = CastAnswers { widens: false, widening: 0, standard: Some(float4) };
    assert_eq!(plan.settle(answers, &mut glb).expect("cast"), Some(float4));
    let silent = CastAnswers { widens: false, widening: 0, standard: None };
    assert_eq!(plan.settle(silent, &mut glb).expect("no cast"), None);
}

#[test]
fn the_field_that_fits_an_operation_is_chosen() {
    let mut glb = program();
    let float4 = glb.types.get_base(4, TypeMetatype::Float).expect("base");
    let int4 = glb.types.get_base(4, TypeMetatype::Int).expect("base");
    let either = glb.types.get_type_union("either").expect("union");
    let mut fields = vec![TypeField::new(0, 0, "real", float4), TypeField::new(1, 0, "whole", int4)];
    glb.types.assign_raw_fields_union(either, &mut fields).expect("fields");
    let mut values = Values::new();
    let read = values.stored(4, 0x10, either, "read");
    let one = values.constant(4, 1, int4);
    let out = values.stored(4, 0x20, int4, "out");
    let op = values.operation(OpCode::IntAdd, vec![read, one], out);
    let score = ScoreUnionFields::new(&values.data, &mut glb, either, op, 0).expect("scores");
    assert_eq!(score.get_result().get_field_num(), 1);
    assert_eq!(score.get_result().get_datatype(), int4);
    let real = values.stored(4, 0x30, either, "real");
    let other = values.stored(4, 0x34, float4, "other");
    let sum = values.stored(4, 0x38, float4, "sum");
    let float_op = values.operation(OpCode::FloatAdd, vec![real, other], sum);
    let score = ScoreUnionFields::new(&values.data, &mut glb, either, float_op, 0).expect("scores");
    assert_eq!(score.get_result().get_field_num(), 0);
}

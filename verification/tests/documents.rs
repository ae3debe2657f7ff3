use decompiler::architecture::{Architecture, SpaceManager};
use decompiler::database::{Database, Scope};
use decompiler::error::Error;
use decompiler::fspec::{FuncProto, ProtoParameter};
use decompiler::ids::{ScopeId, TypeId};
use decompiler::marshal::{
    Attribute, Element, Encoder, Token, Value, ATTRIB_ID, ATTRIB_METATYPE, ATTRIB_NAME, ATTRIB_OFFSET, ATTRIB_SIZE, ATTRIB_SPACE, ATTRIB_VALUE,
    ATTRIB_WORDSIZE, ELEM_VAL, ELEM_VOID,
};
use decompiler::space::{AddrSpace, SpaceRef, SpaceType};
use decompiler::types::labels::{
    ATTRIB_ALIGNMENT, ATTRIB_ARRAYSIZE, ATTRIB_CORE, ATTRIB_INCOMPLETE, ELEM_CORETYPES, ELEM_DATA_ORGANIZATION, ELEM_DEF, ELEM_ENUM, ELEM_FIELD, ELEM_INTEGER_SIZE,
    ELEM_LONG_SIZE, ELEM_TYPE, ELEM_TYPEGRP, ELEM_TYPEREF,
};
use decompiler::types::{Datatype, TypeFactory, TypeMetatype};
use decompiler::unionresolve::fit::deref_pointer;
use std::sync::Arc;

fn ram() -> SpaceRef {
    Arc::new(AddrSpace {
        name: "ram".to_string(),
        index: 3,
        kind: SpaceType::Processor,
        addr_size: 8,
        word_size: 1,
        big_endian: false,
        highest: u64::MAX,
        pointer_lower_bound: 0x1000,
        pointer_upper_bound: u64::MAX,
    })
}

fn program() -> Architecture {
    let space = ram();
    let mut types = TypeFactory::new();
    types.set_arch_properties(Some(space.clone()), 16);
    types.set_default_alignment_map();
    let global = Scope {
        id: 0,
        is_global: true,
        function: None,
        entries: Vec::new(),
        children: Vec::new(),
        ranges: Vec::new(),
    };
    Architecture {
        types,
        manager: SpaceManager {
            spaces: vec![space.clone()],
            default_data_space: Some(space),
            stack_space: None,
            stack_pointer_size: None,
            default_size: 8,
        },
        symboltab: Database {
            scopes: vec![global],
            entries: Vec::new(),
            symbols: Vec::new(),
            global_scope: Some(ScopeId(0)),
        },
        float_formats: Vec::new(),
    }
}

fn element(id: u32, attributes: Vec<(u32, Value)>, children: Vec<Element>) -> Element {
    Element {
        id,
        attributes: attributes.into_iter().map(|(id, value)| Attribute { id, value }).collect(),
        children,
        place: None,
        prototype: None,
    }
}

fn text(val: &str) -> Value {
    Value::Text(val.to_string())
}

fn plain(name: &str, id: u64, size: i64, meta: &str) -> Element {
    element(
        ELEM_TYPE,
        vec![
            (ATTRIB_NAME, text(name)),
            (ATTRIB_SIZE, Value::Signed(size)),
            (ATTRIB_METATYPE, text(meta)),
            (ATTRIB_ID, Value::Unsigned(id)),
        ],
        Vec::new(),
    )
}

fn reference(name: &str, id: u64) -> Element {
    element(ELEM_TYPEREF, vec![(ATTRIB_NAME, text(name)), (ATTRIB_ID, Value::Unsigned(id))], Vec::new())
}

fn field(name: &str, offset: i64, tp: Element) -> Element {
    element(ELEM_FIELD, vec![(ATTRIB_NAME, text(name)), (ATTRIB_OFFSET, Value::Signed(offset))], vec![tp])
}

fn compound(name: &str, id: u64, size: i64, meta: &str, fields: Vec<Element>) -> Element {
    let mut res = plain(name, id, size, meta);
    res.children = fields;
    res
}

fn read(glb: &mut Architecture, elem: &Element) -> Result<TypeId, Error> {
    TypeFactory::decode_type(glb, elem, &Vec::new())
}

fn message(err: Error) -> String {
    match err {
        Error::Lowlevel(text) => text,
        Error::Decoder(text) => format!("decoder: {}", text),
    }
}

fn copy_value(value: &Value) -> Value {
    match value {
        Value::Bool(b) => Value::Bool(*b),
        Value::Signed(n) => Value::Signed(*n),
        Value::Unsigned(n) => Value::Unsigned(*n),
        Value::Text(s) => Value::Text(s.clone()),
        Value::Space(s) => Value::Space(s.clone()),
    }
}

/// The element that a document describes.
fn parsed(encoder: &Encoder) -> Element {
    let mut stack: Vec<Element> = vec![element(0, Vec::new(), Vec::new())];
    for token in encoder.tokens.iter() {
        match token {
            Token::Open(id) => stack.push(element(*id, Vec::new(), Vec::new())),
            Token::Attribute(id, value) => {
                let attribute = Attribute { id: *id, value: copy_value(value) };
                stack.last_mut().expect("no element").attributes.push(attribute);
            }
            Token::Close(id) => {
                let done = stack.pop().expect("no element");
                assert_eq!(done.id, *id);
                stack.last_mut().expect("no parent").children.push(done);
            }
            Token::Prototype(_) => {
                let mut proto = element(0, Vec::new(), Vec::new());
                proto.prototype = Some(0);
                stack.last_mut().expect("no element").children.push(proto);
            }
        }
    }
    let mut root = stack.pop().expect("no root");
    root.children.pop().expect("nothing was written")
}

#[test]
fn base_types_are_read_once() {
    let mut glb = program();
    let first = read(&mut glb, &plain("int4", 7, 4, "int")).expect("read failed");
    let again = read(&mut glb, &plain("int4", 7, 4, "int")).expect("read failed");
    assert_eq!(first, again);
    let dt = glb.types.get(first);
    assert_eq!(dt.get_name(), "int4");
    assert_eq!(dt.get_size(), 4);
    assert_eq!(dt.get_alignment(), 4);
    assert_eq!(dt.get_metatype(), TypeMetatype::Int);
    assert_eq!(dt.get_id(), 7);
    assert_eq!(glb.types.find_by_name("int4"), Some(first));
    assert_eq!(glb.types.find_by_id("int4", 7, 0), Some(first));
}

#[test]
fn redefinition_is_refused() {
    let mut glb = program();
    read(&mut glb, &plain("word", 9, 4, "int")).expect("read failed");
    let err = read(&mut glb, &plain("word", 9, 8, "int")).expect_err("redefinition");
    assert_eq!(message(err), "Trying to alter definition of type: word");
}

#[test]
fn bad_attributes_are_reported() {
    let mut glb = program();
    let err = read(&mut glb, &plain("odd", 1, 4, "splendid")).expect_err("metatype");
    assert_eq!(message(err), "Unknown metatype: splendid");
    let err = read(&mut glb, &plain("negative", 1, -2, "int")).expect_err("size");
    assert_eq!(message(err), "Bad size for type negative");
    let mut wrong = plain("number", 1, 4, "int");
    wrong.attributes[1].value = Value::Bool(true);
    let err = read(&mut glb, &wrong).expect_err("kind of attribute");
    assert_eq!(message(err), "decoder: Expecting signed integer attribute");
    let err = read(&mut glb, &reference("nowhere", 12)).expect_err("reference");
    assert_eq!(message(err), "Unable to resolve type: nowhere");
}

#[test]
fn pointers_and_arrays_are_read_with_what_they_hold() {
    let mut glb = program();
    let int4 = read(&mut glb, &plain("int4", 7, 4, "int")).expect("read failed");
    let mut ptr = plain("", 0, 8, "ptr");
    ptr.children.push(reference("int4", 7));
    let ptr_id = read(&mut glb, &ptr).expect("pointer");
    assert_eq!(glb.types.get(ptr_id).get_ptr_to(), int4);
    let mut out = String::new();
    glb.types.get(ptr_id).print_raw(&mut out, &glb.types);
    assert_eq!(out, "int4 *");
    let mut array = plain("", 0, 12, "array");
    array.attributes.push(Attribute { id: ATTRIB_ARRAYSIZE, value: Value::Signed(3) });
    array.children.push(plain("int4", 7, 4, "int"));
    let array_id = read(&mut glb, &array).expect("array");
    assert_eq!(glb.types.get(array_id).num_elements(), 3);
    assert_eq!(glb.types.get(array_id).get_base(), int4);
    let mut bad = plain("", 0, 10, "array");
    bad.attributes.push(Attribute { id: ATTRIB_ARRAYSIZE, value: Value::Signed(3) });
    bad.children.push(reference("int4", 7));
    assert!(read(&mut glb, &bad).is_err());
}

#[test]
fn structures_are_read_field_by_field() {
    let mut glb = program();
    let int4 = read(&mut glb, &plain("int4", 7, 4, "int")).expect("read failed");
    let pair = compound(
        "pair",
        20,
        8,
        "struct",
        vec![field("x", 0, reference("int4", 7)), field("y", 4, reference("int4", 7))],
    );
    let id = read(&mut glb, &pair).expect("structure");
    let dt = glb.types.get(id);
    assert!(!dt.is_incomplete());
    assert_eq!(dt.get_alignment(), 4);
    let fields = dt.get_fields();
    assert_eq!(fields.len(), 2);
    assert_eq!((fields[1].name.as_str(), fields[1].offset, fields[1].ident), ("y", 4, 4));
    assert_eq!(fields[1].tp, int4);
    let again = read(&mut glb, &pair).expect("the same structure");
    assert_eq!(id, again);
}

#[test]
fn faults_in_structures_are_reported() {
    let mut glb = program();
    read(&mut glb, &plain("int4", 7, 4, "int")).expect("read failed");
    let disordered = compound(
        "disordered",
        21,
        8,
        "struct",
        vec![field("y", 4, reference("int4", 7)), field("x", 0, reference("int4", 7))],
    );
    assert_eq!(message(read(&mut glb, &disordered).expect_err("order")), "Fields are out of order");
    let wide = compound("wide", 22, 4, "struct", vec![field("x", 2, reference("int4", 7))]);
    assert_eq!(message(read(&mut glb, &wide).expect_err("room")), "Field x does not fit in structure wide");
    let unnamed = compound("unnamed", 23, 4, "struct", vec![field("", 0, reference("int4", 7))]);
    assert_eq!(
        message(read(&mut glb, &unnamed).expect_err("name")),
        "name attribute must not be empty in <field> tag"
    );
    let nothing = compound(
        "nothing",
        24,
        4,
        "struct",
        vec![field("v", 0, element(ELEM_VOID, Vec::new(), Vec::new()))],
    );
    assert_eq!(message(read(&mut glb, &nothing).expect_err("void")), "Bad field data-type for structure: nothing");
    let overlapping = compound(
        "overlapping",
        25,
        8,
        "struct",
        vec![field("x", 0, reference("int4", 7)), field("y", 2, reference("int4", 7))],
    );
    let id = read(&mut glb, &overlapping).expect("overlap is only a warning");
    assert_eq!(glb.types.get(id).get_fields().len(), 1);
    assert_eq!(
        glb.types.find_warning(id),
        "Struct \"overlapping\": ignoring overlapping field \"y\""
    );
}

#[test]
fn unions_are_read_alternative_by_alternative() {
    let mut glb = program();
    read(&mut glb, &plain("int4", 7, 4, "int")).expect("read failed");
    read(&mut glb, &plain("int8", 8, 8, "int")).expect("read failed");
    let either = compound(
        "either",
        30,
        8,
        "union",
        vec![field("narrow", 0, reference("int4", 7)), field("wide", 0, reference("int8", 8))],
    );
    let id = read(&mut glb, &either).expect("union");
    let dt = glb.types.get(id);
    assert_eq!(dt.get_fields().len(), 2);
    assert_eq!(dt.get_alignment(), 8);
    assert!(dt.needs_resolution());
    let small = compound("small", 31, 4, "union", vec![field("wide", 0, reference("int8", 8))]);
    assert_eq!(message(read(&mut glb, &small).expect_err("room")), "Field wide does not fit in union small");
}

#[test]
fn a_structure_may_point_to_itself() {
    let mut glb = program();
    let mut ptr = plain("", 0, 8, "ptr");
    ptr.children.push(reference("node", 40));
    let node = compound("node", 40, 8, "struct", vec![field("next", 0, ptr)]);
    let id = read(&mut glb, &node).expect("structure");
    let next = glb.types.get(id).get_fields()[0].tp;
    assert_eq!(glb.types.get(next).get_ptr_to(), id);
}

#[test]
fn structures_may_hold_one_another_behind_pointers() {
    let mut glb = program();
    let inner = compound("inner", 51, 16, "struct", vec![field("whole", 0, reference("outer", 50))]);
    let mut ptr = plain("", 0, 8, "ptr");
    ptr.children.push(inner);
    let outer = compound("outer", 50, 16, "struct", vec![field("part", 8, ptr)]);
    let id = read(&mut glb, &outer).expect("structure");
    let part = glb.types.get(id).get_fields()[0].tp;
    let target = glb.types.get(part).get_ptr_to();
    assert_eq!(glb.types.get(target).get_name(), "inner");
    assert_eq!(glb.types.get(target).get_fields()[0].tp, id);
    assert_eq!(glb.types.get(id).get_fields().len(), 1);
}

#[test]
fn a_structure_that_holds_itself_is_kept() {
    let mut glb = program();
    let own = compound("own", 52, 8, "struct", vec![field("again", 0, reference("own", 52))]);
    let id = read(&mut glb, &own).expect("structure");
    assert_eq!(glb.types.get(id).get_fields()[0].tp, id);
    assert_eq!(read(&mut glb, &reference("own", 52)).expect("reference"), id);
}

#[test]
fn arrays_may_repeat_a_space_of_symbols() {
    let mut glb = program();
    let space = glb.types.get_type_spacebase(&ram(), 0).expect("space");
    let array = glb.types.get_type_array(2, space).expect("array");
    assert_eq!(glb.types.get(array).get_base(), space);
    assert_eq!(glb.types.get(array).num_elements(), 2);
}

#[test]
fn pointers_are_followed_to_what_is_read() {
    let mut glb = program();
    let int4 = read(&mut glb, &plain("int4", 7, 4, "int")).expect("integer");
    let ptr = glb.types.get_type_pointer(8, int4, 1).expect("pointer");
    assert_eq!(deref_pointer(int4, 1, 4, &mut glb).expect("no pointer"), (-10, None));
    assert_eq!(deref_pointer(ptr, 0, 4, &mut glb).expect("exact"), (10, Some(int4)));
    assert_eq!(deref_pointer(ptr, 0, 8, &mut glb).expect("no array"), (-5, None));
    assert_eq!(deref_pointer(ptr, 1, 6, &mut glb).expect("no multiple"), (-5, None));
    let (score, found) = deref_pointer(ptr, 1, 8, &mut glb).expect("array");
    let array = found.expect("array");
    assert_eq!(score, -4);
    assert_eq!(glb.types.get(array).get_base(), int4);
    assert_eq!(glb.types.get(array).num_elements(), 2);
}

#[test]
fn pointers_to_sized_spaces_are_followed_to_arrays() {
    let mut glb = program();
    let mut elem = plain("frame", 71, 4, "spacebase");
    elem.attributes.push(Attribute { id: ATTRIB_SPACE, value: Value::Space(ram()) });
    let space = read(&mut glb, &elem).expect("space");
    assert_eq!(glb.types.get(space).get_size(), 4);
    let ptr = glb.types.get_type_pointer(8, space, 1).expect("pointer");
    let (score, found) = deref_pointer(ptr, 1, 8, &mut glb).expect("array");
    let array = found.expect("array");
    assert_eq!(score, -4);
    assert_eq!(glb.types.get(array).get_base(), space);
    assert_eq!(glb.types.get(array).num_elements(), 2);
}

#[test]
fn a_structure_may_outgrow_its_holder() {
    let mut glb = program();
    read(&mut glb, &plain("int4", 7, 4, "int")).expect("read failed");
    let mut announced = compound("part", 53, 4, "struct", Vec::new());
    announced.attributes.push(Attribute { id: ATTRIB_INCOMPLETE, value: Value::Bool(true) });
    let part = read(&mut glb, &announced).expect("announced");
    let holder = compound(
        "holder",
        54,
        8,
        "struct",
        vec![field("head", 0, reference("part", 53)), field("tail", 4, reference("int4", 7))],
    );
    read(&mut glb, &holder).expect("holder");
    let whole = compound(
        "part",
        53,
        8,
        "struct",
        vec![field("x", 0, reference("int4", 7)), field("y", 4, reference("int4", 7))],
    );
    assert_eq!(read(&mut glb, &whole).expect("completed"), part);
    assert_eq!(glb.types.get(part).get_size(), 8);
    assert_eq!(glb.types.get(part).get_fields().len(), 2);
}

#[test]
fn unusual_data_types_are_taken_in() {
    let mut glb = program();
    let mut part = plain("part", 60, 4, "partstruct");
    part.attributes.push(Attribute { id: ATTRIB_ALIGNMENT, value: Value::Signed(4) });
    let id = read(&mut glb, &part).expect("part of a structure");
    assert_eq!(glb.types.get(id).get_metatype(), TypeMetatype::PartialStruct);
    assert_eq!(glb.types.get(id).get_alignment(), 4);
    let id = read(&mut glb, &plain("piece", 61, 4, "partunion")).expect("part of a union");
    assert_eq!(glb.types.get(id).get_metatype(), TypeMetatype::PartialUnion);
    let mut loose = plain("loose", 62, 4, "int");
    loose.attributes.push(Attribute { id: ATTRIB_ALIGNMENT, value: Value::Signed(0) });
    let id = read(&mut glb, &loose).expect("no alignment");
    assert_eq!(glb.types.get(id).get_alignment(), 0);
    let mut ptr = plain("", 0, 8, "ptr");
    ptr.attributes.push(Attribute { id: ATTRIB_WORDSIZE, value: Value::Unsigned(0) });
    ptr.children.push(reference("loose", 62));
    let id = read(&mut glb, &ptr).expect("no unit");
    assert_eq!(glb.types.get(id).get_word_size(), 0);
    let mut array = plain("", 0, 0, "array");
    array.attributes.push(Attribute { id: ATTRIB_ARRAYSIZE, value: Value::Signed(3) });
    array.children.push(compound("empty", 63, 0, "struct", Vec::new()));
    let id = read(&mut glb, &array).expect("no room");
    assert_eq!(glb.types.get(id).num_elements(), 3);
}

#[test]
fn parts_of_structures_are_written_and_read_back() {
    let mut glb = program();
    read(&mut glb, &plain("int4", 7, 4, "int")).expect("read failed");
    let wide = compound(
        "wide",
        20,
        12,
        "struct",
        vec![
            field("x", 0, reference("int4", 7)),
            field("y", 4, reference("int4", 7)),
            field("z", 8, reference("int4", 7)),
        ],
    );
    let whole = read(&mut glb, &wide).expect("structure");
    let part = glb.types.get_type_partial_struct(whole, 0, 8).expect("part");
    let mut encoder = Encoder::new();
    glb.types.get(part).encode(&mut encoder, &glb).expect("write");
    let copy = read(&mut glb, &parsed(&encoder)).expect("read back");
    assert_eq!(glb.types.get(copy).get_metatype(), TypeMetatype::PartialStruct);
    assert_eq!(glb.types.get(copy).get_size(), 8);
}

#[test]
fn core_code_may_have_a_prototype() {
    let mut glb = program();
    let protos = vec![FuncProto { model_name: Some("__cdecl".to_string()), params: Vec::new(), output: None, flags: 0 }];
    let mut child = element(0, Vec::new(), Vec::new());
    child.prototype = Some(0);
    let code = compound("code", 70, 1, "code", vec![child]);
    let core = element(ELEM_CORETYPES, Vec::new(), vec![plain("void", 1, 0, "void"), code]);
    TypeFactory::decode_core_types(&mut glb, &core, &protos).expect("core data-types");
    let id = glb.types.find_by_name("code").expect("code");
    assert!(glb.types.get(id).get_prototype().is_some());
    assert_eq!(glb.types.get_type_code().expect("code"), id);
}

#[test]
fn parts_come_before_what_they_make_up() {
    let mut glb = program();
    let int4 = read(&mut glb, &plain("int4", 7, 4, "int")).expect("read failed");
    let pair = compound(
        "pair",
        20,
        8,
        "struct",
        vec![field("x", 0, reference("int4", 7)), field("y", 4, reference("int4", 7))],
    );
    let whole = read(&mut glb, &pair).expect("structure");
    let again = read(&mut glb, &reference("pair", 20)).expect("reference");
    assert_eq!(again, whole);
    let mut order: Vec<TypeId> = Vec::new();
    glb.types.dependent_order(&mut order);
    let place = |id: TypeId| order.iter().position(|other| *other == id).expect("not listed");
    assert!(place(int4) < place(whole));
    assert_eq!(order.len(), glb.types.tree_ids().len());
}

#[test]
fn enumerations_are_read_by_value() {
    let mut glb = program();
    let val = |name: &str, value: i64| {
        element(ELEM_VAL, vec![(ATTRIB_NAME, text(name)), (ATTRIB_VALUE, Value::Signed(value))], Vec::new())
    };
    let colour = compound("colour", 50, 4, "enum_uint", vec![val("GREEN", 2), val("RED", 1), val("BLUE", 4)]);
    let id = read(&mut glb, &colour).expect("enumeration");
    let dt = glb.types.get(id);
    assert!(dt.is_enum_type());
    assert!(dt.has_named_value(2, &glb.types));
    assert!(!dt.has_named_value(3, &glb.types));
    let mut rep = decompiler::types::EnumRepresentation::new();
    dt.get_matches(5, &mut rep, &glb.types);
    assert_eq!(rep.matchname, vec!["BLUE".to_string(), "RED".to_string()]);
    assert!(!rep.complement);
}

#[test]
fn typedefs_name_another_data_type() {
    let mut glb = program();
    let int4 = read(&mut glb, &plain("int4", 7, 4, "int")).expect("read failed");
    let def = element(
        ELEM_DEF,
        vec![(ATTRIB_NAME, text("count")), (ATTRIB_ID, Value::Unsigned(60))],
        vec![reference("int4", 7)],
    );
    let id = read(&mut glb, &def).expect("typedef");
    assert_eq!(glb.types.get(id).get_typedef(), Some(int4));
    assert_eq!(glb.types.get(id).get_name(), "count");
    assert_eq!(read(&mut glb, &def).expect("typedef again"), id);
}

#[test]
fn code_takes_a_prototype_from_the_list() {
    let mut glb = program();
    let int4 = read(&mut glb, &plain("int4", 7, 4, "int")).expect("read failed");
    let proto = |tp: TypeId| FuncProto {
        model_name: Some("__cdecl".to_string()),
        params: vec![ProtoParameter { name: "a".to_string(), tp, type_locked: true, this_pointer: false }],
        output: None,
        flags: 0,
    };
    let mut child = element(0, Vec::new(), Vec::new());
    child.prototype = Some(0);
    let code = compound("callback", 70, 1, "code", vec![child]);
    let protos = vec![proto(int4)];
    let id = TypeFactory::decode_type(&mut glb, &code, &protos).expect("code");
    assert!(glb.types.get(id).get_prototype().is_some());
    let err = TypeFactory::decode_type(&mut glb, &compound("other", 71, 1, "code", vec![reference("int4", 7)]), &protos)
        .expect_err("no prototype");
    assert_eq!(message(err), "decoder: Expecting a prototype");
}

#[test]
fn a_pointer_to_flagged_code_has_no_size_left() {
    let mut glb = program();
    let mut ptr = plain("", 0, 8, "ptr");
    ptr.children.push(plain("callback", 70, 1, "code"));
    let err = TypeFactory::decode_type_with_code_flags(&mut glb, &ptr, true, false).expect_err("no size");
    assert_eq!(message(err), "Bad size for type ");
    let err = TypeFactory::decode_type_with_code_flags(&mut glb, &plain("int4", 7, 4, "int"), true, false)
        .expect_err("no pointer");
    assert_eq!(message(err), "Special type decode does not see pointer");
}

#[test]
fn groups_and_core_types_are_read() {
    let mut glb = program();
    let group = element(
        ELEM_TYPEGRP,
        Vec::new(),
        vec![plain("int4", 7, 4, "int"), plain("uint4", 8, 4, "uint")],
    );
    TypeFactory::decode(&mut glb, &group, &Vec::new()).expect("group");
    assert!(glb.types.find_by_name("uint4").is_some());
    let err = TypeFactory::decode(&mut glb, &plain("int4", 7, 4, "int"), &Vec::new()).expect_err("no group");
    assert_eq!(message(err), "decoder: Unexpected element");
    let core = element(ELEM_CORETYPES, Vec::new(), vec![plain("void", 1, 0, "void"), plain("long", 9, 8, "int")]);
    TypeFactory::decode_core_types(&mut glb, &core, &Vec::new()).expect("core data-types");
    assert_eq!(glb.types.find_by_name("int4"), None);
    let long = glb.types.find_by_name("long").expect("long");
    assert!(glb.types.get(long).is_core_type());
    assert_eq!(glb.types.get_base(8, TypeMetatype::Int).expect("base"), long);
}

#[test]
fn organization_sets_sizes() {
    let mut types = TypeFactory::new();
    let size = |id: u32, n: i64| element(id, vec![(ATTRIB_VALUE, Value::Signed(n))], Vec::new());
    let org = element(ELEM_DATA_ORGANIZATION, Vec::new(), vec![size(ELEM_INTEGER_SIZE, 2), size(ELEM_LONG_SIZE, 8)]);
    types.decode_data_organization(&org).expect("organization");
    assert_eq!(types.get_size_of_int(), 2);
    assert_eq!(types.get_size_of_long(), 8);
    assert!(types.decode_data_organization(&size(ELEM_ENUM, 2)).is_err());
}

#[test]
fn what_is_written_is_read_back() {
    let mut glb = program();
    read(&mut glb, &plain("int4", 7, 4, "int")).expect("read failed");
    let pair = compound(
        "pair",
        20,
        8,
        "struct",
        vec![field("x", 0, reference("int4", 7)), field("y", 4, reference("int4", 7))],
    );
    let mut ptr = plain("", 0, 8, "ptr");
    ptr.children.push(pair);
    let id = read(&mut glb, &ptr).expect("pointer to structure");
    let target = glb.types.get(id).get_ptr_to();
    let mut encoder = Encoder::new();
    glb.types.get(target).encode(&mut encoder, &glb).expect("write");
    let document = parsed(&encoder);
    assert_eq!(document.id, ELEM_TYPE);
    let mut other = program();
    read(&mut other, &plain("int4", 7, 4, "int")).expect("read failed");
    let copy = read(&mut other, &document).expect("read back");
    let (before, after) = (glb.types.get(target), other.types.get(copy));
    assert_eq!(before.get_name(), after.get_name());
    assert_eq!(before.get_size(), after.get_size());
    assert_eq!(before.get_id(), after.get_id());
    assert_eq!(before.get_alignment(), after.get_alignment());
    let names: Vec<&str> = after.get_fields().iter().map(|f| f.name.as_str()).collect();
    assert_eq!(names, vec!["x", "y"]);
    let mut by_name = Encoder::new();
    glb.types.get(target).encode_ref(&mut by_name, &glb).expect("write a name");
    assert_eq!(read(&mut other, &parsed(&by_name)).expect("reference"), copy);
}

#[test]
fn a_whole_factory_is_written_and_read_back() {
    let mut glb = program();
    let mut core = plain("int4", 7, 4, "int");
    core.attributes.push(Attribute { id: ATTRIB_CORE, value: Value::Bool(true) });
    read(&mut glb, &core).expect("core");
    let pair = compound("pair", 20, 4, "struct", vec![field("x", 0, reference("int4", 7))]);
    let pair_id = read(&mut glb, &pair).expect("structure");
    let mut cores = Encoder::new();
    glb.types.encode_core_types(&mut cores, &glb).expect("core data-types");
    let mut rest = Encoder::new();
    glb.types.encode(&mut rest, &glb).expect("the others");
    let mut other = program();
    TypeFactory::decode_core_types(&mut other, &parsed(&cores), &Vec::new()).expect("read core");
    TypeFactory::decode(&mut other, &parsed(&rest), &Vec::new()).expect("read the others");
    let copy = other.types.find_by_name("pair").expect("pair");
    let same: &Datatype = other.types.get(copy);
    assert_eq!(same.get_size(), glb.types.get(pair_id).get_size());
    assert!(same.needs_resolution());
}

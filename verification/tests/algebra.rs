use decompiler::address::{bit_transitions, calc_mask, coveringmask, sign_extend, BitRange};
use decompiler::cover::{Cover, Stretch};
use decompiler::types::compare::{datatype_compare, datatype_name_compare};
use decompiler::types::names::NameMap;
use decompiler::types::print::{metatype2string, string2metatype};
use decompiler::types::{Datatype, TypeBitField, TypeFactory, TypeField, TypeMetatype};
use std::cmp::Ordering;

fn factory() -> TypeFactory {
    let mut types = TypeFactory::new();
    types.set_arch_properties(None, 16);
    types.set_default_alignment_map();
    types
}

#[test]
fn ids_hash_sizes_in_and_out() {
    let id = Datatype::hash_name("flexible");
    assert_ne!(id, 0);
    let sized = Datatype::hash_size(id, 12);
    assert_ne!(sized, id);
    assert_eq!(Datatype::hash_size(sized, 12), id);
}

#[test]
fn sizes_are_rounded_to_alignments() {
    assert_eq!(Datatype::calc_align_size(5, 4), 8);
    assert_eq!(Datatype::calc_align_size(8, 4), 8);
    assert_eq!(Datatype::calc_align_size(0, 4), 0);
    let types = factory();
    assert_eq!(types.get_alignment(1).expect("alignment"), 1);
    assert_eq!(types.get_alignment(8).expect("alignment"), 8);
    assert!(TypeFactory::new().get_alignment(8).is_err());
}

#[test]
fn bit_ranges_are_minimized_and_compared() {
    let mut range = BitRange::new(0, 4, 10, 3, false);
    assert!(!range.is_byte_range());
    range.minimize_container();
    assert_eq!(range, BitRange::new(1, 1, 2, 3, false));
    let mut big = BitRange::new(0, 4, 10, 3, true);
    big.minimize_container();
    assert_eq!(big, BitRange::new(2, 1, 2, 3, true));
    let low = BitRange::new(0, 1, 0, 4, false);
    let high = BitRange::new(0, 1, 4, 4, false);
    assert_eq!(low.overlap_test(&high), -1);
    assert_eq!(high.overlap_test(&low), 1);
    assert_eq!(low.overlap_test(&low), 0);
    assert_eq!(low.overlap_test(&BitRange::new(0, 1, 2, 4, false)), 2);
    assert!(BitRange::new_bytes(0, 2, false).is_byte_range());
}

#[test]
fn masks_and_signs() {
    assert_eq!(calc_mask(2), 0xffff);
    assert_eq!(coveringmask(0x50), 0x7f);
    assert_eq!(sign_extend(0x80, 7), -0x80);
    assert_eq!(bit_transitions(0xff, 4), 1);
}

#[test]
fn covers_meet() {
    let cover = |block: i32, start: u64, stop: u64| Cover { stretches: vec![Stretch { block, start, stop }] };
    assert_eq!(cover(0, 1, 4).intersect(&cover(0, 2, 6)), 2);
    assert_eq!(cover(0, 1, 4).intersect(&cover(0, 4, 6)), 1);
    assert_eq!(cover(0, 1, 4).intersect(&cover(1, 2, 6)), 0);
    assert_eq!(cover(0, 1, 4).intersect_list(&cover(0, 2, 6), 2), vec![0]);
}

#[test]
fn classes_go_by_names() {
    assert_eq!(metatype2string(TypeMetatype::Uint).expect("name"), "uint");
    assert_eq!(string2metatype("uint").expect("class"), TypeMetatype::Uint);
    assert!(string2metatype("number").is_err());
    assert_eq!(Datatype::encode_integer_format("hex").expect("format"), 1);
    assert_eq!(Datatype::decode_integer_format(4).expect("format"), "bin");
    assert!(Datatype::encode_integer_format("roman").is_err());
    assert!(Datatype::decode_integer_format(9).is_err());
}

#[test]
fn what_was_added_is_found() {
    let mut types = factory();
    let four = types.get_base(4, TypeMetatype::Int).expect("base");
    let unsigned = types.get_base(4, TypeMetatype::Uint).expect("base");
    assert_ne!(four, unsigned);
    assert_eq!(types.get_base(4, TypeMetatype::Int).expect("base"), four);
    let ptr = types.get_type_pointer(8, four, 1).expect("pointer");
    assert_eq!(types.get_type_pointer(8, four, 1).expect("pointer"), ptr);
    assert_eq!(types.find_no_name(types.get(ptr)), Some(ptr));
    let place = types.tree_find(types.get(ptr)).expect("not in the tree");
    assert_eq!(types.tree_ids()[place], ptr);
    let array = types.get_type_array(5, four).expect("array");
    assert_eq!(types.get(array).get_size(), 20);
    assert_eq!(types.get_type_array(5, four).expect("array"), array);
}

#[test]
fn the_factory_order_turns_around() {
    let mut types = factory();
    let ids = vec![
        types.get_base(1, TypeMetatype::Uint).expect("base"),
        types.get_base(4, TypeMetatype::Int).expect("base"),
        types.get_base(8, TypeMetatype::Int).expect("base"),
        types.get_base(8, TypeMetatype::Float).expect("base"),
    ];
    for a in ids.iter() {
        for b in ids.iter() {
            let straight = datatype_compare(types.get(*a), types.get(*b), &types);
            let back = datatype_compare(types.get(*b), types.get(*a), &types);
            assert_eq!(straight, back.reverse());
            assert_eq!(straight == Ordering::Equal, a == b);
            assert_eq!(types.get(*a).type_order(types.get(*b), &types).signum(), -types.get(*b).type_order(types.get(*a), &types).signum());
        }
    }
    assert_eq!(types.get(ids[2]).type_order(types.get(ids[1]), &types).signum(), -1);
    let named = types.get_base_named(4, TypeMetatype::Int, "alpha").expect("named");
    let other = types.get_base_named(4, TypeMetatype::Int, "beta").expect("named");
    assert_eq!(datatype_name_compare(types.get(named), types.get(other)), Ordering::Less);
}

#[test]
fn fields_are_laid_out_apart() {
    let mut types = factory();
    let byte = types.get_base(1, TypeMetatype::Uint).expect("base");
    let word = types.get_base(4, TypeMetatype::Int).expect("base");
    let mut list = vec![
        TypeField::new(-1, -1, "a", byte),
        TypeField::new(-1, -1, "b", word),
        TypeField::new(-1, -1, "c", byte),
    ];
    let mut bits: Vec<TypeBitField> = Vec::new();
    let (mut size, mut align, mut flags): (i32, i32, u32) = (0, 0, 0);
    Datatype::assign_field_offsets_struct(&mut list, &mut bits, &mut size, &mut align, &mut flags, None, &types)
        .expect("layout");
    let offsets: Vec<i32> = list.iter().map(|f| f.offset).collect();
    assert_eq!(offsets, vec![0, 4, 8]);
    assert_eq!((size, align), (12, 4));
}

#[test]
fn pieces_have_the_size_asked_for() {
    let mut types = factory();
    let byte = types.get_base(1, TypeMetatype::Uint).expect("base");
    let word = types.get_base(4, TypeMetatype::Int).expect("base");
    let pair = types.get_type_struct("pair").expect("structure");
    let mut fields = vec![TypeField::new(-1, -1, "x", word), TypeField::new(-1, -1, "y", word), TypeField::new(-1, -1, "z", byte)];
    types.assign_raw_fields_struct(pair, &mut fields, &mut Vec::new()).expect("fields");
    assert_eq!(types.get(pair).get_size(), 12);
    assert_eq!(types.get_exact_piece(pair, 4, 4).expect("piece"), Some(word));
    let part = types.get_exact_piece(pair, 2, 4).expect("piece").expect("part");
    assert_eq!(types.get(part).get_size(), 4);
    assert_eq!(types.get(part).get_metatype(), TypeMetatype::PartialStruct);
    let mut newoff: i64 = 0;
    assert_eq!(types.get(pair).get_sub_type_local(5, &mut newoff, &types), Some(word));
    assert_eq!(newoff, 1);
    let mut order = Vec::new();
    types.dependent_order(&mut order);
    let place = |id| order.iter().position(|x| *x == id);
    assert!(place(word) < place(pair));
}

#[test]
fn names_stay_sorted() {
    let mut names = NameMap::new();
    names.insert(4, "four".to_string());
    names.insert(1, "one".to_string());
    names.insert(2, "two".to_string());
    let values: Vec<u64> = names.entries.iter().map(|e| e.value).collect();
    assert_eq!(values, vec![1, 2, 4]);
    assert!(names.contains(2));
    assert!(!names.contains(3));
}

#[test]
fn free_values_count_up() {
    let mut names = NameMap::new();
    let te = Datatype::new_enum_named(4, TypeMetatype::EnumUint, "numbers").expect("enumeration");
    let labels = vec!["A".to_string(), "B".to_string(), "C".to_string()];
    Datatype::assign_values(&mut names, &labels, &[0, 5, 0], &[false, true, false], &te).expect("values");
    let given: Vec<(u64, &str)> = names.entries.iter().map(|e| (e.value, e.name.as_str())).collect();
    assert_eq!(given, vec![(5, "B"), (6, "A"), (7, "C")]);
    let mut twice = NameMap::new();
    assert!(Datatype::assign_values(&mut twice, &labels[0..2], &[5, 5], &[true, true], &te).is_err());
}

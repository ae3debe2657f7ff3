use decompiler::arena::Arena;
use decompiler::cover::Cover;
use decompiler::ids::{GroupId, HighId};
use decompiler::variable::edges::{HighEdge, HighIntersectTest};
use decompiler::variable::{HighVariable, VariableGroup, VariablePiece};

fn piece_high(highs: &mut Arena<HighVariable>, id: HighId, group: GroupId, offset: i32, size: i32) -> HighId {
    let index = highs.put(HighVariable {
        inst: Vec::new(),
        num_merge_classes: 1,
        highflags: 0,
        flags: 0,
        tp: None,
        name_representative: None,
        internal_cover: Cover::new(),
        piece: Some(VariablePiece {
            group,
            high: id,
            group_offset: offset,
            size,
            intersection: Vec::new(),
            cover: Cover::new(),
        }),
        symbol: None,
        symboloffset: -1,
    });
    assert_eq!(index, id.0);
    id
}

#[test]
fn group_pieces_and_offsets() {
    let mut groups: Arena<VariableGroup> = Arena::new();
    let mut highs: Arena<HighVariable> = Arena::new();
    let group = GroupId(groups.put(VariableGroup::new()));
    let low = piece_high(&mut highs, HighId(0), group, 0, 4);
    let high = piece_high(&mut highs, HighId(1), group, 4, 4);
    let duplicate = piece_high(&mut highs, HighId(2), group, 4, 4);
    VariableGroup::add_piece(&mut groups, &mut highs, group, low).expect("add failed");
    VariableGroup::add_piece(&mut groups, &mut highs, group, high).expect("add failed");
    assert!(VariableGroup::add_piece(&mut groups, &mut highs, group, duplicate).is_err());
    assert_eq!(groups.get(group.0).get_size(), 8);
    VariableGroup::adjust_offsets(&mut groups, &mut highs, group, 2);
    assert_eq!(groups.get(group.0).get_size(), 10);
    let keys: Vec<(i32, i32)> = groups.get(group.0).piece_set.iter().map(|entry| (entry.offset, entry.size)).collect();
    assert_eq!(keys, vec![(2, 4), (6, 4)]);
    assert_eq!(highs.get(high.0).piece.as_ref().map(|piece| piece.get_offset()), Some(6));
    VariablePiece::mark_intersection_dirty(&mut highs, &groups, low);
    assert_ne!(highs.get(high.0).highflags & HighVariable::INTERSECTDIRTY, 0);
    VariablePiece::mark_extend_cover_dirty(&mut highs, low);
    assert_eq!(
        highs.get(low.0).highflags & HighVariable::EXTENDCOVERDIRTY,
        HighVariable::EXTENDCOVERDIRTY
    );
}

#[test]
fn purge_removes_both_directions() {
    let mut test = HighIntersectTest::new();
    let (first, second, third) = (HighId(1), HighId(2), HighId(3));
    test.insert_test(HighEdge::new(first, second), true);
    test.insert_test(HighEdge::new(second, first), true);
    test.insert_test(HighEdge::new(second, third), false);
    test.insert_test(HighEdge::new(third, second), false);
    test.purge_high(first);
    assert_eq!(test.highedgemap.len(), 2);
    test.purge_high(third);
    assert!(test.highedgemap.is_empty());
}

use disastris::data::bodies::TetrisBricks;
use disastris::field::blob::{Blob, GridBody};
use disastris::field::field_element::{FieldElement, FieldElementKind, FieldState};
use disastris::field::tool::{apply_movement_tool, cutter_cutout_blocks, tool_layout, Tool};
use disastris::field::Block;
use disastris::math::{Entity, IVec2};
use disastris::movement::{MoveDirection, RotateDirection};
use disastris::view::{Rotation, ViewUpdate};

fn e(id: u64) -> Entity {
    Entity::from_bits(id)
}

fn v(x: i32, y: i32) -> IVec2 {
    IVec2::new(x, y)
}

#[test]
fn tool_numbers_round_trip() {
    let tools = [
        Tool::Move(MoveDirection::Up),
        Tool::Move(MoveDirection::Left),
        Tool::Rotate(RotateDirection::Right),
        Tool::Cutter(TetrisBricks::SmallT),
        Tool::Simulate,
        Tool::Reset,
        Tool::Eraser,
        Tool::EraseAll,
    ];
    for t in tools {
        let n: i32 = t.into();
        assert_eq!(Tool::try_from(n), Ok(t));
    }
    let n: i32 = Tool::Move(MoveDirection::Left).into();
    assert_eq!(n, 104);
    let n: i32 = Tool::Cutter(TetrisBricks::L).into();
    assert_eq!(n, 303);
    let n: i32 = Tool::EraseAll.into();
    assert_eq!(n, 701);
    assert_eq!(Tool::try_from(105), Err(()));
    assert_eq!(Tool::try_from(0), Err(()));
    assert_eq!(Tool::default(), Tool::Simulate);
}

#[test]
fn tool_labels_and_variants() {
    assert_eq!(Tool::Move(MoveDirection::Down).label(), "Move");
    assert_eq!(Tool::Rotate(RotateDirection::Right).label(), "Rotate");
    assert_eq!(Tool::Cutter(TetrisBricks::Line).label(), "Cut");
    assert_eq!(Tool::Simulate.label(), "Play");
    assert_eq!(Tool::Reset.label(), "Pause");
    assert_eq!(Tool::Eraser.label(), "Eraser");
    assert_eq!(Tool::EraseAll.label(), "Reset Factory");
    assert_eq!(Tool::Move(MoveDirection::Left).as_default_variant(), Tool::Move(MoveDirection::Up));
    assert_eq!(
        Tool::Rotate(RotateDirection::Right).as_default_variant(),
        Tool::Rotate(RotateDirection::Left)
    );
    assert_eq!(
        Tool::Cutter(TetrisBricks::StairsR).as_default_variant(),
        Tool::Cutter(TetrisBricks::Square)
    );
    assert_eq!(Tool::Eraser.as_default_variant(), Tool::Eraser);
    assert!(Tool::Cutter(TetrisBricks::L).is_placeable());
    assert!(!Tool::Eraser.is_placeable());
}

fn field_with_tool_at(p: IVec2, tool_entity: Entity) -> FieldState {
    let mut s = FieldState::new((v(0, 0), v(10, 10)));
    s.set_element(
        p,
        FieldElement { is_target: false, entity: Some(e(50)), kind: FieldElementKind::Tool(tool_entity), position: p },
    );
    s
}

fn blob_store(pivot: IVec2, id: Entity) -> Vec<(Entity, Block)> {
    let field = e(99);
    vec![
        (e(10), Block { position: pivot, relative_position: Some(v(0, 0)), group: Some(id), field }),
        (e(11), Block { position: v(pivot.x + 1, pivot.y), relative_position: Some(v(1, 0)), group: Some(id), field }),
        (e(12), Block { position: v(7, 7), relative_position: Some(v(0, 0)), group: Some(e(77)), field }),
    ]
}

#[test]
fn mover_under_pivot_sets_movement() {
    let blob_id = e(1);
    let pivot = v(3, 3);
    let state = field_with_tool_at(pivot, e(5));
    let tools = vec![(e(5), Tool::Move(MoveDirection::Right))];
    let mut blob = Blob::new_main();
    let mut body = GridBody { pivot, blocks: vec![e(10), e(11)], transferred: false };
    let mut store = blob_store(pivot, blob_id);
    let before = store.clone();
    let r = apply_movement_tool(blob_id, &mut blob, &mut body, &state, &tools, &mut store);
    assert_eq!(r, None);
    assert_eq!(blob.movement, v(1, 0));
    assert_eq!(store, before);
}

#[test]
fn rotator_under_pivot_turns_the_blob_only() {
    let blob_id = e(1);
    let pivot = v(3, 3);
    let state = field_with_tool_at(pivot, e(5));
    let tools = vec![(e(5), Tool::Rotate(RotateDirection::Left))];
    let mut blob = Blob::new_main();
    let mut body = GridBody { pivot, blocks: vec![e(10), e(11)], transferred: false };
    let mut store = blob_store(pivot, blob_id);
    let r = apply_movement_tool(blob_id, &mut blob, &mut body, &state, &tools, &mut store);
    assert_eq!(r, Some(ViewUpdate::BlobRotated(blob_id, Rotation::Left)));
    assert_eq!(blob, Blob::new_main());
    // (1, 0) turned left is (0, -1)
    assert_eq!(store[1].1.relative_position, Some(v(0, -1)));
    assert_eq!(store[1].1.position, v(3, 2));
    assert_eq!(store[2].1.position, v(7, 7));

    let tools = vec![(e(5), Tool::Rotate(RotateDirection::Right))];
    let mut store = blob_store(pivot, blob_id);
    let r = apply_movement_tool(blob_id, &mut blob, &mut body, &state, &tools, &mut store);
    assert_eq!(r, Some(ViewUpdate::BlobRotated(blob_id, Rotation::Right)));
    assert_eq!(store[1].1.relative_position, Some(v(0, 1)));
    assert_eq!(store[1].1.position, v(3, 4));
}

#[test]
fn cut_out_or_empty_cell_leaves_blob_alone() {
    let blob_id = e(1);
    let pivot = v(3, 3);
    let state = field_with_tool_at(v(6, 6), e(5));
    let tools = vec![(e(5), Tool::Move(MoveDirection::Right))];
    let mut blob = Blob::new_main();
    let mut body = GridBody { pivot, blocks: vec![e(10), e(11)], transferred: false };
    let mut store = blob_store(pivot, blob_id);
    assert_eq!(apply_movement_tool(blob_id, &mut blob, &mut body, &state, &tools, &mut store), None);
    assert_eq!(blob.movement, v(0, 1));
    let state = field_with_tool_at(pivot, e(5));
    let mut cut = Blob::new_cutout();
    assert_eq!(apply_movement_tool(blob_id, &mut cut, &mut body, &state, &tools, &mut store), None);
    assert_eq!(cut.movement, v(0, 1));
}

#[test]
fn cutter_cuts_when_blob_fills_it() {
    let field = e(99);
    let cutter = e(5);
    let blob = e(1);
    let store = vec![
        (e(20), Block { position: v(2, 2), relative_position: Some(v(0, 0)), group: Some(cutter), field }),
        (e(21), Block { position: v(3, 2), relative_position: Some(v(1, 0)), group: Some(cutter), field }),
        (e(30), Block { position: v(1, 2), relative_position: Some(v(0, 0)), group: Some(blob), field }),
        (e(31), Block { position: v(2, 2), relative_position: Some(v(1, 0)), group: Some(blob), field }),
        (e(32), Block { position: v(3, 2), relative_position: Some(v(2, 0)), group: Some(blob), field }),
    ];
    let tool_body = GridBody { pivot: v(2, 2), blocks: vec![e(20), e(21)], transferred: false };
    let body = GridBody { pivot: v(1, 2), blocks: vec![e(30), e(31), e(32)], transferred: false };
    let tool = Tool::Cutter(TetrisBricks::Line);
    assert_eq!(cutter_cutout_blocks(tool, &tool_body, &body, &store), Some(vec![e(31), e(32)]));
    assert_eq!(cutter_cutout_blocks(Tool::Move(MoveDirection::Up), &tool_body, &body, &store), None);
    let small = GridBody { pivot: v(1, 2), blocks: vec![e(30), e(31)], transferred: false };
    assert_eq!(cutter_cutout_blocks(tool, &tool_body, &small, &store), None);
}

#[test]
fn tool_layouts() {
    let (extra, own) = tool_layout(Tool::Move(MoveDirection::Up), v(2, 3), e(4), e(9));
    assert!(extra.is_empty());
    assert_eq!(own, Block { position: v(2, 3), group: Some(e(4)), relative_position: Some(v(0, 0)), field: e(9) });
    let (extra, own) = tool_layout(Tool::Cutter(TetrisBricks::Square), v(2, 3), e(4), e(9));
    assert_eq!(own.position, v(2, 3));
    let positions: Vec<IVec2> = extra.iter().map(|(b, _)| b.position).collect();
    assert_eq!(positions, vec![v(3, 3), v(2, 4), v(3, 4)]);
    assert!(extra.iter().all(|(b, pivot)| !*pivot && b.group == Some(e(4)) && b.field == e(9)));
}

#[test]
fn cutout_hands_blocks_to_the_new_blob() {
    let blob = e(1);
    let new_blob = e(2);
    let field = e(99);
    let mut store = vec![
        (e(30), Block { position: v(1, 2), relative_position: Some(v(0, 0)), group: Some(blob), field }),
        (e(31), Block { position: v(2, 2), relative_position: Some(v(1, 0)), group: Some(blob), field }),
        (e(32), Block { position: v(3, 2), relative_position: Some(v(2, 0)), group: Some(blob), field }),
    ];
    let mut body = GridBody { pivot: v(1, 2), blocks: vec![e(30), e(31), e(32)], transferred: false };
    let (ev, new_body, cut) = body.cutout(&vec![e(31), e(32)], v(2, 2), new_blob, &mut store);
    assert_eq!(ev, ViewUpdate::BlobCutout(new_blob));
    assert_eq!(new_body, GridBody { pivot: v(2, 2), blocks: vec![e(31), e(32)], transferred: false });
    assert_eq!(cut, Blob::new_cutout());
    assert_eq!(body.blocks, vec![e(30)]);
    assert_eq!(body.pivot, v(1, 2));
    assert_eq!(store[0].1.group, Some(blob));
    assert_eq!(store[1].1.group, Some(new_blob));
    assert_eq!(store[1].1.relative_position, Some(v(0, 0)));
    assert_eq!(store[2].1.relative_position, Some(v(1, 0)));
    assert_eq!(store[2].1.position, v(3, 2));
}

#[test]
fn turning_left_then_right_restores_the_blob() {
    let blob = e(1);
    let field = e(99);
    let start = vec![
        (e(30), Block { position: v(5, 5), relative_position: Some(v(0, 0)), group: Some(blob), field }),
        (e(31), Block { position: v(6, 7), relative_position: Some(v(1, 2)), group: Some(blob), field }),
        (e(32), Block { position: v(0, 0), relative_position: Some(v(3, 3)), group: Some(e(8)), field }),
    ];
    let mut store = start.clone();
    let mut body = GridBody { pivot: v(5, 5), blocks: vec![e(30), e(31)], transferred: false };
    assert_eq!(body.rotate_left(&mut store, blob), ViewUpdate::BlobRotated(blob, Rotation::Left));
    assert_eq!(store[1].1.relative_position, Some(v(2, -1)));
    assert_eq!(store[1].1.position, v(7, 4));
    assert_eq!(store[2], start[2]);
    assert_eq!(body.rotate_right(&mut store, blob), ViewUpdate::BlobRotated(blob, Rotation::Right));
    assert_eq!(store, start);
}

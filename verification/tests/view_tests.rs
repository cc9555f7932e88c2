use disastris::data::bodies::gen_blob_body;
use disastris::field::blob::{Blob, GridBody};
use disastris::field::Block;
use disastris::math::{Entity, IVec2};
use disastris::view::{
    cutout_triangle_from_blob, demo_blob_coordinates, demo_step_down, demo_transfer, lowest_blocks_of_testblob,
    next_rotation_steps, rotate_coord, rotate_demo_blob, Rotation,
};

#[test]
fn test_rotate_coord() {
    let c1 = IVec2::new(0, 0);
    let c2 = IVec2::new(0, -1);
    let c3 = IVec2::new(1, 0);
    let c4 = IVec2::new(1, -1);
    let c5 = IVec2::new(1, 1);

    assert_eq!(rotate_coord(c1, Rotation::Right), c1);
    assert_eq!(rotate_coord(c1, Rotation::Left), c1);
    assert_eq!(rotate_coord(c2, Rotation::Right), c3);
    assert_eq!(rotate_coord(c4, Rotation::Right), c5);
    assert_eq!(rotate_coord(c3, Rotation::Left), c2);
    assert_eq!(rotate_coord(c5, Rotation::Left), c4);
}

#[test]
fn rotations_cancel_and_four_turns_return() {
    let c = IVec2::new(3, -7);
    assert_eq!(rotate_coord(rotate_coord(c, Rotation::Left), Rotation::Right), c);
    assert_eq!(rotate_coord(rotate_coord(c, Rotation::Right), Rotation::Left), c);
    let mut d = c;
    for _ in 0..4 {
        d = rotate_coord(d, Rotation::Left);
    }
    assert_eq!(d, c);
    assert_eq!(rotate_coord(c, Rotation::Left), IVec2::new(-7, -3));
    assert_eq!(rotate_coord(c, Rotation::Right), IVec2::new(7, 3));
}

#[test]
fn rotation_steps_wrap_modulo_four() {
    assert_eq!(next_rotation_steps(3, Rotation::Left), 0);
    assert_eq!(next_rotation_steps(0, Rotation::Right), 3);
    assert_eq!(next_rotation_steps(1, Rotation::Left), 2);
    assert_eq!(next_rotation_steps(2, Rotation::Right), 1);
}

fn e(id: u64) -> Entity {
    Entity::from_bits(id)
}

fn demo_store() -> (GridBody, Vec<(Entity, Block)>) {
    let field = e(100);
    let coords = demo_blob_coordinates();
    let mut store = Vec::new();
    let mut ids = Vec::new();
    for (i, c) in coords.iter().enumerate() {
        let id = e(i as u64 + 1);
        ids.push(id);
        store.push((id, Block { position: *c, relative_position: Some(*c), group: None, field }));
    }
    (GridBody { pivot: IVec2::new(0, 0), blocks: ids, transferred: false }, store)
}

#[test]
fn demo_blob_is_level_one_start_blob() {
    let coords = demo_blob_coordinates();
    let body = gen_blob_body(1).unwrap();
    assert_eq!(coords.len(), body.iter().filter(|v| **v != 0).count());
    assert_eq!(coords[0], IVec2::new(-2, -2));
    assert_eq!(coords[1], IVec2::new(0, -2));
    assert_eq!(coords[coords.len() - 1], IVec2::new(1, 1));
}

#[test]
fn lowest_blocks_are_the_bottom_row() {
    let (body, store) = demo_store();
    let lowest = lowest_blocks_of_testblob(&body, &store);
    // the bottom row of level 1's blob holds two blocks at relative row 1
    assert_eq!(lowest.len(), 2);
    for id in lowest {
        let b = store.iter().find(|(i, _)| *i == id).unwrap().1;
        assert_eq!(b.relative_position.unwrap().y, 1);
    }
}

#[test]
fn cutout_triangle_takes_block_with_right_and_lower_neighbour() {
    let (mut body, mut store) = demo_store();
    let coordinates: Vec<(IVec2, Entity)> =
        store.iter().map(|(id, b)| (b.relative_position.unwrap(), *id)).collect();
    let (new_body, new_blob) = cutout_triangle_from_blob(&mut body, &coordinates, &mut store).unwrap();
    assert_eq!(new_blob, Blob { movement: IVec2::new(0, 0), active: true, cutout: true });
    // (-2,-2) has no right neighbour; the first block with both is (0,-2)
    assert_eq!(new_body.pivot, IVec2::new(0, -2));
    assert_eq!(new_body.blocks.len(), 3);
    assert!(!new_body.transferred);
    for id in &new_body.blocks {
        assert!(!body.blocks.contains(id));
    }
    let rel: Vec<IVec2> = new_body
        .blocks
        .iter()
        .map(|id| store.iter().find(|(i, _)| i == id).unwrap().1.relative_position.unwrap())
        .collect();
    assert_eq!(rel, vec![IVec2::new(0, 0), IVec2::new(1, 0), IVec2::new(0, 1)]);
}

#[test]
fn cutout_triangle_without_triangle_changes_nothing() {
    let field = e(100);
    let mut store = vec![
        (e(1), Block { position: IVec2::new(0, 0), relative_position: Some(IVec2::new(0, 0)), group: None, field }),
        (e(2), Block { position: IVec2::new(2, 0), relative_position: Some(IVec2::new(2, 0)), group: None, field }),
    ];
    let mut body = GridBody { pivot: IVec2::new(0, 0), blocks: vec![e(1), e(2)], transferred: false };
    let coordinates = vec![(IVec2::new(0, 0), e(1)), (IVec2::new(2, 0), e(2))];
    let before = store.clone();
    assert!(cutout_triangle_from_blob(&mut body, &coordinates, &mut store).is_none());
    assert_eq!(store, before);
    assert_eq!(body.blocks, vec![e(1), e(2)]);
}

#[test]
fn rotate_demo_blob_turns_relative_positions() {
    let (body, mut store) = demo_store();
    let before = store.clone();
    rotate_demo_blob(&body, &mut store, Rotation::Right);
    for (k, (id, b)) in store.iter().enumerate() {
        assert_eq!(*id, before[k].0);
        assert_eq!(
            b.relative_position.unwrap(),
            rotate_coord(before[k].1.relative_position.unwrap(), Rotation::Right)
        );
        assert_eq!(b.position, before[k].1.position);
    }
}

#[test]
fn rotate_demo_blob_turns_once_per_listing() {
    let field = e(100);
    let mut store = vec![
        (e(1), Block { position: IVec2::new(0, 0), relative_position: Some(IVec2::new(1, 0)), group: None, field }),
        (e(2), Block { position: IVec2::new(0, 0), relative_position: Some(IVec2::new(2, 3)), group: None, field }),
        (e(3), Block { position: IVec2::new(5, 5), relative_position: None, group: None, field }),
    ];
    let body = GridBody { pivot: IVec2::new(0, 0), blocks: vec![e(1), e(2), e(1)], transferred: false };
    rotate_demo_blob(&body, &mut store, Rotation::Left);
    // listed twice: two left turns
    assert_eq!(store[0].1.relative_position, Some(IVec2::new(-1, 0)));
    assert_eq!(store[1].1.relative_position, Some(IVec2::new(3, -2)));
    assert_eq!(store[2].1.relative_position, None);
}

#[test]
fn demo_blob_steps_down_and_transfers() {
    let (mut body, _) = demo_store();
    demo_step_down(&mut body);
    assert_eq!(body.pivot, IVec2::new(0, 1));
    body.pivot = IVec2::new(3, 7);
    demo_transfer(&mut body);
    assert_eq!(body.pivot, IVec2::new(3, 0));
    assert!(body.transferred);
}

use disastris::data::bodies::gen_target_body;
use disastris::field::blob::{Blob, GridBody};
use disastris::field::target::{Coordinate, Target};
use disastris::field::{Block, Field};
use disastris::math::{Entity, IVec2};
use disastris::movement::{
    dissolve_blob, handle_move, handle_move_blob_event, move_blob, move_events_by_gravity,
    sort_by_row, BlobMoveEvent, MoveDirection, MoveOutcome, RotateDirection,
};
use disastris::view::ViewUpdate;

fn e(id: u64) -> Entity {
    Entity::from_bits(id)
}

fn v(x: i32, y: i32) -> IVec2 {
    IVec2::new(x, y)
}

#[test]
fn directions_and_numbers() {
    assert_eq!(MoveDirection::try_from(1), Ok(MoveDirection::Up));
    assert_eq!(MoveDirection::try_from(4), Ok(MoveDirection::Left));
    assert_eq!(MoveDirection::try_from(5), Err(()));
    assert_eq!(MoveDirection::Down.number(), 3);
    assert_eq!((MoveDirection::min(), MoveDirection::max()), (1, 4));
    let p: (i32, i32) = MoveDirection::Up.into();
    assert_eq!(p, (0, -1));
    let q: IVec2 = MoveDirection::Left.into();
    assert_eq!(q, v(-1, 0));
    assert_eq!(RotateDirection::try_from(2), Ok(RotateDirection::Right));
    assert_eq!(RotateDirection::try_from(3), Err(()));
    assert_eq!(RotateDirection::Left.number(), 1);
    assert_eq!((RotateDirection::min(), RotateDirection::max()), (1, 2));
}

#[test]
fn bodies_are_sorted_top_rows_first() {
    let bodies = vec![(e(1), 5), (e(2), -3), (e(3), 5), (e(4), 0)];
    let sorted = sort_by_row(&bodies);
    let rows: Vec<i32> = sorted.iter().map(|(_, r)| *r).collect();
    assert_eq!(rows, vec![-3, 0, 5, 5]);
    let ids: Vec<u64> = sorted.iter().map(|(id, _)| id.to_bits()).collect();
    // bodies on one row keep their order
    assert_eq!(ids, vec![2, 4, 1, 3]);
    assert!(sort_by_row(&vec![]).is_empty());
}

#[test]
fn gravity_moves_active_blobs_top_first() {
    let bodies = vec![(e(1), 7), (e(2), 2), (e(3), 4)];
    let mut moving = Blob::new_main();
    moving.movement = v(1, 0);
    let mut paused = Blob::new_main();
    paused.active = false;
    let blobs = vec![(e(1), Blob::new_main()), (e(2), moving), (e(3), paused)];
    let events = move_events_by_gravity(&bodies, &blobs);
    assert_eq!(
        events,
        vec![BlobMoveEvent { delta: v(1, 0), entity: e(2) }, BlobMoveEvent { delta: v(0, 1), entity: e(1) }]
    );
}

fn store(blob: Entity) -> Vec<(Entity, Block)> {
    let field = e(99);
    vec![
        (e(10), Block { position: v(3, 3), relative_position: Some(v(0, 0)), group: Some(blob), field }),
        (e(11), Block { position: v(3, 4), relative_position: Some(v(0, 1)), group: Some(blob), field }),
        (e(12), Block { position: v(8, 8), relative_position: None, group: None, field }),
    ]
}

#[test]
fn moving_a_blob_moves_pivot_and_blocks() {
    let blob = e(1);
    let mut s = store(blob);
    let mut body = GridBody { pivot: v(3, 3), blocks: vec![e(10), e(11)], transferred: false };
    let r = move_blob(blob, &mut body, v(-1, 2), &mut s);
    assert_eq!(r, ViewUpdate::BlobMoved(blob));
    assert_eq!(body.pivot, v(2, 5));
    assert_eq!(s[0].1.position, v(2, 5));
    assert_eq!(s[1].1.position, v(2, 6));
    assert_eq!(s[1].1.relative_position, Some(v(0, 1)));
    assert_eq!(s[2].1.position, v(8, 8));
}

#[test]
fn dissolving_a_blob_frees_its_blocks() {
    let blob = e(1);
    let mut s = store(blob);
    s.push((e(13), Block { position: v(0, 0), relative_position: Some(v(0, 0)), group: Some(e(2)), field: e(99) }));
    dissolve_blob(blob, &mut s);
    assert_eq!(s[0].1.group, None);
    assert_eq!(s[1].1.group, None);
    assert_eq!(s[1].1.position, v(3, 4));
    assert_eq!(s[3].1.group, Some(e(2)));
    let again = s.clone();
    dissolve_blob(blob, &mut s);
    assert_eq!(s, again);
}

fn level_one_target() -> Target {
    Target { body: gen_target_body(1).unwrap(), coordinate: Some(Coordinate { r: 12, c: 0 }) }
}

fn field_with(blocks: &Vec<(Entity, Block)>, blob: Entity) -> Field {
    let mut f = Field::as_factory();
    f.generate_field_state(blocks, &vec![], &vec![blob], &level_one_target());
    f
}

#[test]
fn move_event_moves_a_free_blob() {
    let blob = e(1);
    let mut s = store(blob);
    let f = field_with(&s, blob);
    let mut body = GridBody { pivot: v(3, 3), blocks: vec![e(10), e(11)], transferred: false };
    assert!(handle_move(&body, v(0, 1), &f, &s));
    let r = handle_move_blob_event(blob, &Blob::new_main(), &mut body, v(0, 1), &f, &mut s);
    assert_eq!(r, MoveOutcome::Moved(ViewUpdate::BlobMoved(blob)));
    assert_eq!(body.pivot, v(3, 4));
    assert_eq!(s[1].1.position, v(3, 5));
}

#[test]
fn blob_dissolves_on_a_loose_block() {
    let blob = e(1);
    let mut s = store(blob);
    s[2].1.position = v(3, 5);
    let f = field_with(&s, blob);
    let mut body = GridBody { pivot: v(3, 3), blocks: vec![e(10), e(11)], transferred: false };
    assert!(!handle_move(&body, v(0, 1), &f, &s));
    let r = handle_move_blob_event(blob, &Blob::new_main(), &mut body, v(0, 1), &f, &mut s);
    assert_eq!(r, MoveOutcome::Dissolved);
    assert_eq!(body.pivot, v(3, 3));
    assert_eq!(s[0].1.group, None);
    assert_eq!(s[1].1.group, None);
    assert_eq!(s[1].1.position, v(3, 4));
}

#[test]
fn blob_dissolves_at_the_bottom_of_the_field() {
    let blob = e(1);
    let field = e(99);
    let mut s = vec![
        (e(10), Block { position: v(3, 22), relative_position: Some(v(0, 0)), group: Some(blob), field }),
        (e(11), Block { position: v(3, 23), relative_position: Some(v(0, 1)), group: Some(blob), field }),
    ];
    let f = field_with(&s, blob);
    let mut body = GridBody { pivot: v(3, 22), blocks: vec![e(10), e(11)], transferred: false };
    let r = handle_move_blob_event(blob, &Blob::new_main(), &mut body, v(0, 1), &f, &mut s);
    assert_eq!(r, MoveOutcome::Dissolved);
}

#[test]
fn inactive_or_transferred_blob_ignores_events() {
    let blob = e(1);
    let mut s = store(blob);
    let f = field_with(&s, blob);
    let before = s.clone();
    let mut body = GridBody { pivot: v(3, 3), blocks: vec![e(10), e(11)], transferred: true };
    let r = handle_move_blob_event(blob, &Blob::new_main(), &mut body, v(0, 1), &f, &mut s);
    assert_eq!(r, MoveOutcome::Ignored);
    let mut paused = Blob::new_main();
    paused.active = false;
    body.transferred = false;
    let r = handle_move_blob_event(blob, &paused, &mut body, v(0, 1), &f, &mut s);
    assert_eq!(r, MoveOutcome::Ignored);
    assert_eq!(s, before);
    assert_eq!(body.pivot, v(3, 3));
}

#[test]
fn cut_out_blob_leaves_to_the_left() {
    let blob = e(1);
    let mut s = store(blob);
    let f = field_with(&s, blob);
    let mut body = GridBody { pivot: v(3, 3), blocks: vec![e(10), e(11)], transferred: false };
    let r = handle_move_blob_event(blob, &Blob::new_cutout(), &mut body, v(0, 1), &f, &mut s);
    assert_eq!(r, MoveOutcome::Moved(ViewUpdate::BlobMoved(blob)));
    assert_eq!(body.pivot, v(1, 6));
}

#[test]
fn moving_there_and_back_restores_the_blob() {
    let blob = e(1);
    let start = store(blob);
    let mut s = start.clone();
    let mut body = GridBody { pivot: v(3, 3), blocks: vec![e(10), e(11)], transferred: false };
    move_blob(blob, &mut body, v(4, -2), &mut s);
    move_blob(blob, &mut body, v(-4, 2), &mut s);
    assert_eq!(s, start);
    assert_eq!(body.pivot, v(3, 3));
}

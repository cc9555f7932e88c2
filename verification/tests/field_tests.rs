use disastris::data::bodies::{gen_target_body, BodyDefinition};
use disastris::field::blob::{Blob, GridBody};
use disastris::field::field_element::{FieldElement, FieldElementKind, FieldState};
use disastris::field::target::{Coordinate, Target};
use disastris::field::tool::Tool;
use disastris::field::{blocks_are_on_field, grid_dimensions, grid_pivot, Block, Field};
use disastris::game::{level_won, level_won_system};
use disastris::math::{Entity, IVec2};
use disastris::movement::{MoveDirection, RotateDirection};
use disastris::state::PlayerStateLevel;

fn e(id: u64) -> Entity {
    Entity::from_bits(id)
}

fn v(x: i32, y: i32) -> IVec2 {
    IVec2::new(x, y)
}

#[test]
fn field_state_new_sets_positions_and_bounds() {
    let s = FieldState::new((v(-2, -1), v(3, 4)));
    assert_eq!(s.len(), (5, 5));
    assert_eq!(s.bounds(), (v(-2, -1), v(3, 4)));
    let el = s.get_element(v(-2, -1)).unwrap();
    assert_eq!(el.position, v(-2, -1));
    assert_eq!(el.kind, FieldElementKind::Empty);
    assert!(!el.is_target);
    assert_eq!(s.get_element(v(2, 3)).unwrap().position, v(2, 3));
    assert!(s.get_element(v(3, 0)).is_none());
    assert!(s.get_element(v(0, -2)).is_none());
}

#[test]
fn field_state_set_then_get() {
    let mut s = FieldState::new((v(0, 0), v(4, 3)));
    let el = FieldElement {
        is_target: true,
        entity: Some(e(7)),
        kind: FieldElementKind::Block(None),
        position: v(1, 2),
    };
    assert!(s.set_element(v(1, 2), el));
    assert_eq!(s.get_element(v(1, 2)), Some(el));
    assert_eq!(s.get_element(v(2, 1)).unwrap().kind, FieldElementKind::Empty);
    assert!(!s.set_element(v(4, 0), el));
    assert!(s.get_element(v(4, 0)).is_none());
}

#[test]
fn field_state_occupied_coordinates_in_row_major_order() {
    let mut s = FieldState::new((v(0, 0), v(3, 2)));
    let block = |p: IVec2| FieldElement { is_target: false, entity: None, kind: FieldElementKind::Block(None), position: p };
    let over = |p: IVec2| FieldElement { is_target: false, entity: None, kind: FieldElementKind::OutOfMovableRegion, position: p };
    let tool = |p: IVec2| FieldElement { is_target: false, entity: Some(e(1)), kind: FieldElementKind::Tool(e(1)), position: p };
    s.set_element(v(2, 1), block(v(2, 1)));
    s.set_element(v(1, 0), over(v(1, 0)));
    s.set_element(v(0, 1), tool(v(0, 1)));
    assert_eq!(s.get_occupied_coordinates(), vec![v(1, 0), v(2, 1)]);
}

#[test]
fn field_state_predicates_with_exceptions() {
    let mut s = FieldState::new((v(0, 0), v(3, 3)));
    s.set_element(v(1, 1), FieldElement { is_target: false, entity: None, kind: FieldElementKind::Block(None), position: v(1, 1) });
    let is_block = |el: &FieldElement| el.kind == FieldElementKind::Block(None);
    let outside = |el: &FieldElement| el.kind == FieldElementKind::OutOfValidRegion;
    let coords = vec![v(1, 1), v(0, 0)];
    assert!(!s.are_all_coordinates(&coords, None, &is_block));
    assert!(s.are_all_coordinates(&coords, Some(&vec![v(0, 0)]), &is_block));
    assert!(s.is_any_coordinate(&coords, None, &is_block));
    assert!(!s.is_any_coordinate(&coords, Some(&vec![v(1, 1)]), &is_block));
    assert!(s.predicate_at_coordinate(v(5, 5), None, &outside));
    assert!(!s.predicate_at_coordinate(v(5, 5), Some((&vec![v(5, 5)], false)), &outside));
    assert!(s.are_all_coordinates(&vec![], None, &is_block));
    assert!(!s.is_any_coordinate(&vec![], None, &is_block));
}

#[test]
fn default_field_state_has_no_coordinates() {
    let s = FieldState::default();
    assert_eq!(s.len(), (0, 0));
    assert!(s.get_element(v(0, 0)).is_none());
}

#[test]
fn field_kinds_have_their_sizes() {
    let f = Field::as_factory();
    assert_eq!(f.bounds(), (v(-4, -4), v(14, 24)));
    assert_eq!(f.mov_size(), (10, 24));
    let p = Field::as_production_field();
    assert_eq!(p.bounds(), (v(0, -10), v(10, 18)));
    let d = Field::default();
    assert_eq!(d.bounds(), (v(0, -5), v(10, 18)));
}

fn level_one_target() -> Target {
    Target { body: gen_target_body(1).unwrap(), coordinate: Some(Coordinate { r: 12, c: 0 }) }
}

#[test]
fn target_occupied_coordinates_of_level_one() {
    let t = level_one_target();
    assert_eq!(
        t.occupied_coordinates(),
        vec![(9, 20), (8, 21), (9, 21), (7, 22), (8, 22), (9, 22), (6, 23), (7, 23), (8, 23), (9, 23)]
    );
    assert!(Target::new(vec![1; 120]).occupied_coordinates().is_empty());
    assert_eq!(Target::coords_to_idx(2, 3), 23);
    assert_eq!(Target::dimensions(), (10, 12));
}

#[test]
fn coordinate_conversions_round_trip() {
    let c = Coordinate { r: 4, c: -2 };
    let p: (i32, i32) = c.into();
    assert_eq!(p, (-2, 4));
    let back: Coordinate = p.into();
    assert_eq!(back, c);
}

#[test]
fn generate_field_state_marks_overlap_targets_and_blocks() {
    let mut f = Field::as_factory();
    let target = level_one_target();
    f.generate_field_state(&vec![], &vec![], &vec![], &target);
    let s = f.get_field_state();
    assert_eq!(s.bounds(), (v(-4, -4), v(14, 24)));
    assert_eq!(s.get_element(v(-1, 0)).unwrap().kind, FieldElementKind::OutOfMovableRegion);
    assert_eq!(s.get_element(v(10, 5)).unwrap().kind, FieldElementKind::OutOfMovableRegion);
    assert_eq!(s.get_element(v(0, -1)).unwrap().kind, FieldElementKind::OutOfMovableRegion);
    let t = s.get_element(v(9, 20)).unwrap();
    assert!(t.is_target);
    assert_eq!(t.kind, FieldElementKind::Empty);
    assert!(!s.get_element(v(0, 20)).unwrap().is_target);

    let blob = e(1);
    let tool = e(2);
    let field = e(99);
    let blocks = vec![
        (e(10), Block { position: v(9, 20), relative_position: None, group: None, field }),
        (e(11), Block { position: v(3, 3), relative_position: Some(v(0, 0)), group: Some(blob), field }),
        (e(12), Block { position: v(4, 4), relative_position: Some(v(0, 0)), group: Some(tool), field }),
    ];
    f.generate_field_state(&blocks, &vec![tool], &vec![blob], &target);
    let s = f.get_field_state();
    let loose = s.get_element(v(9, 20)).unwrap();
    assert_eq!(loose.kind, FieldElementKind::Block(None));
    assert_eq!(loose.entity, Some(e(10)));
    assert!(loose.is_target);
    assert_eq!(s.get_element(v(3, 3)).unwrap().kind, FieldElementKind::Block(Some(blob)));
    assert_eq!(s.get_element(v(4, 4)).unwrap().kind, FieldElementKind::Tool(tool));
    assert_eq!(s.get_element(v(4, 4)).unwrap().entity, Some(e(12)));
}

#[test]
fn level_is_won_when_target_holds_loose_blocks() {
    let mut f = Field::as_factory();
    let target = level_one_target();
    f.generate_field_state(&vec![], &vec![], &vec![], &target);
    assert!(!level_won(&target, f.get_field_state()));
    let field = e(99);
    let blocks: Vec<(Entity, Block)> = target
        .occupied_coordinates()
        .iter()
        .enumerate()
        .map(|(i, (c, r))| {
            (e(i as u64 + 10), Block { position: v(*c, *r), relative_position: None, group: None, field })
        })
        .collect();
    f.generate_field_state(&blocks[..9].to_vec(), &vec![], &vec![], &target);
    assert!(!level_won(&target, f.get_field_state()));
    f.generate_field_state(&blocks, &vec![], &vec![], &target);
    assert!(level_won(&target, f.get_field_state()));
    let mut player = PlayerStateLevel::new();
    assert!(level_won_system(&target, f.get_field_state(), &mut player));
    assert!(player.won);
    assert!(!level_won_system(&target, f.get_field_state(), &mut player));
    assert!(player.won);
}

#[test]
fn blocks_of_a_body_around_its_pivot() {
    let body = BodyDefinition::as_blob(disastris::data::bodies::gen_square_body());
    assert_eq!(body.get_relative_positions(), vec![v(0, 0), v(1, 0), v(0, 1), v(1, 1)]);
    let with_pivot = Block::spawn_blocks_of_blob(&body, v(3, -4), e(1), e(2), true);
    assert_eq!(with_pivot.len(), 4);
    assert_eq!(with_pivot[0].0.position, v(3, -4));
    assert!(with_pivot[0].1);
    assert_eq!(with_pivot[3].0.position, v(4, -3));
    assert_eq!(with_pivot[3].0.relative_position, Some(v(1, 1)));
    assert_eq!(with_pivot[3].0.group, Some(e(1)));
    assert!(!with_pivot[3].1);
    let without = Block::spawn_blocks_of_blob(&body, v(3, -4), e(1), e(2), false);
    assert_eq!(without.len(), 3);
    assert_eq!(without[0].0.relative_position, Some(v(1, 0)));
}

#[test]
fn tools_on_the_field_are_listed_once() {
    let mut f = Field::as_factory();
    let target = level_one_target();
    let field = e(99);
    let cutter = e(5);
    let mover = e(6);
    let blocks = vec![
        (e(20), Block { position: v(2, 2), relative_position: Some(v(0, 0)), group: Some(cutter), field }),
        (e(21), Block { position: v(3, 2), relative_position: Some(v(1, 0)), group: Some(cutter), field }),
        (e(22), Block { position: v(0, 1), relative_position: Some(v(0, 0)), group: Some(mover), field }),
    ];
    f.generate_field_state(&blocks, &vec![cutter, mover], &vec![], &target);
    let tools = vec![(cutter, Tool::Cutter(disastris::data::bodies::TetrisBricks::Line)), (mover, Tool::Move(MoveDirection::Left))];
    let removed = f.remove_all_tools(&tools);
    assert_eq!(removed, vec![(mover, Tool::Move(MoveDirection::Left)), (cutter, Tool::Cutter(disastris::data::bodies::TetrisBricks::Line))]);
}

#[test]
fn render_ids_of_cells() {
    let mut f = Field::as_factory();
    let target = level_one_target();
    let field = e(99);
    let rot = e(5);
    let blocks = vec![(e(20), Block { position: v(2, 2), relative_position: Some(v(0, 0)), group: Some(rot), field })];
    f.generate_field_state(&blocks, &vec![rot], &vec![], &target);
    let tools = vec![(rot, Tool::Rotate(RotateDirection::Right))];
    assert_eq!(f.get_render_id(2, 2, Some(&tools)), 202);
    assert_eq!(f.get_render_id(0, -3, None), 2);
    assert_eq!(f.get_render_id(5, 5, None), 0);
    let empty = Field::as_factory();
    assert_eq!(empty.get_render_id(-1, 5, None), 2);
    assert_eq!(empty.get_render_id(5, 5, None), 0);
}

#[test]
fn grid_dimensions_and_pivot() {
    assert_eq!(grid_dimensions((v(-4, -4), v(14, 24))), (18, 28));
    assert_eq!(grid_pivot((v(-4, -4), v(14, 24))), (7, 12));
    assert_eq!(grid_pivot((v(-4, -4), v(-1, 3))), (0, 1));
}

#[test]
fn blocks_on_field_needs_at_least_one() {
    let b = |f: u64| Block { position: v(0, 0), relative_position: None, group: None, field: e(f) };
    assert!(!blocks_are_on_field(e(1), &vec![]));
    assert!(blocks_are_on_field(e(1), &vec![b(1), b(1)]));
    assert!(!blocks_are_on_field(e(1), &vec![b(1), b(2)]));
}

#[test]
fn blob_kinds() {
    let m = Blob::new_main();
    assert_eq!(m.movement, v(0, 1));
    assert!(m.active && !m.cutout);
    let c = Blob::new_cutout();
    assert!(c.active && c.cutout);
    let g = GridBody::new(v(3, 4));
    assert_eq!(g.pivot, v(3, 4));
    assert!(g.blocks.is_empty());
    assert_eq!(GridBody::size(), 9);
    assert_eq!(GridBody::coords_to_idx(2, 3), 21);
    assert_eq!(disastris::field::blob::pivot_coord(), (4, 4));
    assert_eq!(disastris::field::blob::coords_to_idx(2, 3, 10), 23);
}

#[test]
fn block_on_a_target_cell_is_a_target_from_the_first_generation() {
    let mut f = Field::as_factory();
    let target = level_one_target();
    let field = e(99);
    let blocks = vec![(e(10), Block { position: v(9, 20), relative_position: None, group: None, field })];
    f.generate_field_state(&blocks, &vec![], &vec![], &target);
    let cell = f.get_field_state().get_element(v(9, 20)).unwrap();
    assert_eq!(cell.kind, FieldElementKind::Block(None));
    assert!(cell.is_target);
    let off = vec![(e(11), Block { position: v(0, 20), relative_position: None, group: None, field })];
    f.generate_field_state(&off, &vec![], &vec![], &target);
    assert!(!f.get_field_state().get_element(v(0, 20)).unwrap().is_target);
}

use disastris::data::bodies::{
    brick_from_random, gen_blob_body, gen_l_body, gen_line_body, gen_random_tetris_body,
    gen_square_body, gen_t_body, gen_target_body, gen_tetris_body, BodyDefinition, TetrisBricks,
};
use disastris::data::level::Level;
use disastris::field::tool::Tool;
use disastris::math::IVec2;
use disastris::movement::{MoveDirection, RotateDirection};
use disastris::{TUT1, TUT2};

fn ones(v: &[i32]) -> Vec<usize> {
    v.iter().enumerate().filter(|(_, x)| **x != 0).map(|(i, _)| i).collect()
}

#[test]
fn tetris_bodies_have_four_cells_around_the_pivot() {
    assert_eq!(ones(&gen_square_body()), vec![40, 41, 49, 50]);
    assert_eq!(ones(&gen_line_body()), vec![22, 31, 40, 49]);
    assert_eq!(ones(&gen_l_body()).len(), 4);
    assert_eq!(ones(&gen_t_body()).len(), 4);
    for kind in [
        TetrisBricks::Square,
        TetrisBricks::Line,
        TetrisBricks::L,
        TetrisBricks::InvL,
        TetrisBricks::StairsL,
        TetrisBricks::StairsR,
        TetrisBricks::SmallT,
    ] {
        let b = gen_tetris_body(kind);
        assert_eq!(b.len(), 81);
        assert_eq!(ones(&b).len(), 4);
        assert_eq!(b[40], 1, "the pivot cell belongs to every brick");
    }
    assert_eq!(gen_tetris_body(TetrisBricks::Line), gen_line_body());
}

#[test]
fn random_tetris_body_is_one_of_the_bricks() {
    for _ in 0..20 {
        let b = gen_random_tetris_body();
        assert_eq!(b.len(), 81);
        assert_eq!(ones(&b).len(), 4);
    }
}

#[test]
fn brick_numbers_round_trip() {
    for n in 1..=7 {
        let b = brick_from_random(n);
        assert_eq!(b.number(), n);
        assert_eq!(TetrisBricks::try_from(n), Ok(b));
    }
    assert_eq!(brick_from_random(2), TetrisBricks::Line);
    assert_eq!(TetrisBricks::try_from(0), Err(()));
    assert_eq!(TetrisBricks::try_from(8), Err(()));
    assert_eq!(TetrisBricks::min(), 1);
    assert_eq!(TetrisBricks::max(), 7);
    assert_eq!(TetrisBricks::default(), TetrisBricks::Square);
}

#[test]
fn level_bodies_and_errors() {
    let b1 = gen_blob_body(1).unwrap();
    assert_eq!(b1.len(), 81);
    assert_eq!(ones(&b1), vec![20, 22, 23, 29, 30, 31, 32, 40, 49, 50]);
    let b0 = gen_blob_body(0).unwrap();
    assert_eq!(ones(&b0), vec![22, 31, 32, 40, 41, 42, 49, 50, 51, 52]);
    assert_eq!(ones(&gen_blob_body(2).unwrap()), ones(&b0));
    assert_eq!(gen_blob_body(42), Err("Invalid Level number: 42".to_string()));
    let t = gen_target_body(1).unwrap();
    assert_eq!(t.len(), 120);
    assert_eq!(ones(&t).len(), 10);
    assert_eq!(gen_target_body(0).unwrap(), t);
    assert!(gen_target_body(100).unwrap().iter().all(|x| *x == 1));
    assert_eq!(gen_target_body(7), Err("Invalid Level number: 7".to_string()));
}

#[test]
fn body_definition_positions_around_pivot() {
    let body = BodyDefinition::as_blob(gen_blob_body(1).unwrap());
    let rel = body.get_relative_positions();
    assert_eq!(rel.len(), 10);
    assert_eq!(rel[0], IVec2::new(-2, -2));
    assert!(rel.contains(&IVec2::new(0, 0)));
    let line = BodyDefinition::as_blob(gen_line_body()).get_relative_positions();
    assert_eq!(line, vec![IVec2::new(0, -2), IVec2::new(0, -1), IVec2::new(0, 0), IVec2::new(0, 1)]);
}

#[test]
fn level_one_is_built_from_its_data() {
    let l = Level::new(1);
    assert_eq!(l.num, 1);
    assert_eq!(l.start_blob, (gen_blob_body(1).unwrap(), (3, -4)));
    assert_eq!(l.target_figure, (gen_target_body(1).unwrap(), (0, 12)));
    assert_eq!(l.get_text(), TUT1);
    assert_ne!(l.get_text(), TUT2);
    assert_eq!(l.applicable_tools.get(Tool::Rotate(RotateDirection::Left)), Some(1));
    assert_eq!(l.applicable_tools.get(Tool::Move(MoveDirection::Up)), Some(0));
    assert_eq!(l.applicable_tools.get(Tool::Cutter(TetrisBricks::Square)), Some(0));
    assert_eq!(l.applicable_tools.get(Tool::Simulate), None);
}

#[test]
fn levels_two_and_three_are_built_from_their_data() {
    let l2 = Level::new(2);
    assert_eq!(l2.num, 2);
    assert_eq!(l2.get_text(), TUT2);
    assert_eq!(l2.start_blob, (gen_blob_body(2).unwrap(), (3, -4)));
    assert_eq!(l2.target_figure, (gen_target_body(2).unwrap(), (0, 12)));
    assert_eq!(l2.applicable_tools.get(Tool::Move(MoveDirection::Up)), Some(2));
    let l3 = Level::level_03();
    assert_eq!(l3.num, 3);
    assert_eq!(l3.applicable_tools.get(Tool::Cutter(TetrisBricks::Square)), Some(1));
    assert_eq!(Level::level_02().num, 2);
    assert_eq!(Level::level_01().num, 1);
}

#[test]
fn blobs_match_their_targets_in_size() {
    for level in 0..=2 {
        assert_eq!(ones(&gen_blob_body(level).unwrap()).len(), ones(&gen_target_body(level).unwrap()).len());
    }
    assert_eq!(ones(&gen_blob_body(3).unwrap()).len(), ones(&gen_target_body(3).unwrap()).len() + 4);
    assert_eq!(gen_blob_body(4), Err("Invalid Level number: 4".to_string()));
}

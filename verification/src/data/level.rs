//! The levels of the game: the starting blob, the target figure, the tools and the hint.

use vstd::prelude::*;

use crate::data::bodies::{
    blob_body, blob_body_1, blob_body_2, blob_body_3, gen_blob_body, gen_target_body, target_body, target_body_1,
    TetrisBricks,
};
use crate::field::tool::Tool;
use crate::inventory::Inventory;
use crate::movement::{MoveDirection, RotateDirection};
use crate::text::string_of;
use crate::{TUT1, TUT2, TUT3};

verus! {

/// A Disastris puzzle that the player solves with tools.
#[derive(Debug)]
pub struct Level {
    pub num: u32,
    /// the flags of the starting blob and the coordinate of its pivot
    pub start_blob: (Vec<i32>, (i32, i32)),
    /// the flags of the target figure and the coordinate of its top left cell
    pub target_figure: (Vec<i32>, (i32, i32)),
    pub applicable_tools: Inventory,
    /// the hint shown before and during the level
    pub level_text: String,
}

/// The number of solid (non-zero) cells among the first `n` flags.
pub open spec fn solid_upto(flags: Seq<i32>, n: int) -> int
    decreases n,
{
    if n <= 0 {
        0
    } else {
        solid_upto(flags, n - 1) + if flags[n - 1] != 0 {
            1int
        } else {
            0int
        }
    }
}

/// The number of solid (non-zero) cells of a flag grid.
pub open spec fn solid_count(flags: Seq<i32>) -> int {
    solid_upto(flags, flags.len() as int)
}

/// The hint shown for a level.
pub open spec fn level_hint(num: u32) -> Seq<char> {
    if num == 1 {
        TUT1@
    } else if num == 2 {
        TUT2@
    } else if num == 3 {
        TUT3@
    } else {
        "NO TEXT FOR LEVEL yet"@
    }
}

/// The tools a level hands out.
pub open spec fn level_tools(num: u32) -> Map<Tool, usize> {
    if num == 1 {
        map![
            Tool::Rotate(RotateDirection::Left) => 1usize,
            Tool::Move(MoveDirection::Up) => 0usize,
            Tool::Cutter(TetrisBricks::Square) => 0usize,
        ]
    } else if num == 2 {
        map![
            Tool::Move(MoveDirection::Up) => 2usize,
            Tool::Rotate(RotateDirection::Left) => 1usize,
            Tool::Cutter(TetrisBricks::Square) => 0usize,
        ]
    } else {
        map![
            Tool::Move(MoveDirection::Up) => 0usize,
            Tool::Rotate(RotateDirection::Left) => 1usize,
            Tool::Cutter(TetrisBricks::Square) => 1usize,
        ]
    }
}

impl Level {
    /// The hint of the level.
    pub open spec fn spec_text(&self) -> Seq<char> {
        self.level_text@
    }

    /// Whether the level is level `num` as the game defines it: its blob, target, tools and hint.
    pub open spec fn is_level(&self, num: u32) -> bool {
        &&& self.num == num
        &&& self.start_blob.0@ == blob_body(num).unwrap()
        &&& self.start_blob.1 == (3i32, -4i32)
        &&& self.target_figure.0@ == target_body(num).unwrap()
        &&& self.target_figure.1 == (0i32, 12i32)
        &&& self.spec_text() == level_hint(num)
    }

    /// The hint of the level.
    pub fn get_text(&self) -> (r: &str)
        ensures
            r@ == self.spec_text(),
    {
        self.level_text.as_str()
    }

    /// The level with the given number.
    pub fn new(num: u32) -> (r: Level)
        requires
            1 <= num <= 3,
        ensures
            r.is_level(num),
            r.applicable_tools.counts() == level_tools(num),
    {
        match num {
            1 => Self::level_01(),
            2 => Self::level_02(),
            _ => Self::level_03(),
        }
    }

    /// The first level: one rotator.
    pub fn level_01() -> (r: Level)
        ensures
            r.is_level(1),
            r.applicable_tools.counts() == level_tools(1),
    {
        let mut applicable_tools = Inventory::new();
        applicable_tools.insert(Tool::Rotate(RotateDirection::Left), 1);
        applicable_tools.insert(Tool::Move(MoveDirection::Up), 0);
        applicable_tools.insert(Tool::Cutter(TetrisBricks::Square), 0);
        assert(applicable_tools.counts() =~= level_tools(1));
        Self::level_helper(1, applicable_tools)
    }

    /// The second level: two movers and one rotator.
    pub fn level_02() -> (r: Level)
        ensures
            r.is_level(2),
            r.applicable_tools.counts() == level_tools(2),
    {
        let mut applicable_tools = Inventory::new();
        applicable_tools.insert(Tool::Move(MoveDirection::Up), 2);
        applicable_tools.insert(Tool::Rotate(RotateDirection::Left), 1);
        applicable_tools.insert(Tool::Cutter(TetrisBricks::Square), 0);
        assert(applicable_tools.counts() =~= level_tools(2));
        Self::level_helper(2, applicable_tools)
    }

    /// The third level: one rotator and one cutter.
    pub fn level_03() -> (r: Level)
        ensures
            r.is_level(3),
            r.applicable_tools.counts() == level_tools(3),
    {
        let mut applicable_tools = Inventory::new();
        applicable_tools.insert(Tool::Move(MoveDirection::Up), 0);
        applicable_tools.insert(Tool::Rotate(RotateDirection::Left), 1);
        applicable_tools.insert(Tool::Cutter(TetrisBricks::Square), 1);
        assert(applicable_tools.counts() =~= level_tools(3));
        Self::level_helper(3, applicable_tools)
    }

    fn level_helper(num: u32, applicable_tools: Inventory) -> (r: Level)
        requires
            1 <= num <= 3,
        ensures
            r.is_level(num),
            r.applicable_tools == applicable_tools,
    {
        let lvl_txt = match num {
            1 => TUT1,
            2 => TUT2,
            3 => TUT3,
            _ => "NO TEXT FOR LEVEL yet",
        };
        let start = match gen_blob_body(num) {
            Ok(v) => v,
            Err(_) => Vec::new(),
        };
        let target = match gen_target_body(num) {
            Ok(v) => v,
            Err(_) => Vec::new(),
        };
        Level {
            start_blob: (start, (3, -4)),
            target_figure: (target, (0, 12)),
            applicable_tools,
            level_text: string_of(lvl_txt),
            num,
        }
    }
}

/// The starting blob of level 1 has ten solid cells.
proof fn lemma_solid_blob_1()
    ensures
        solid_count(blob_body_1()) == 10,
{
    let f = blob_body_1();
    assert(f.len() == 81);
    assert(solid_upto(f, 9) == 0) by {
        reveal_with_fuel(solid_upto, 10);
    }
    assert(solid_upto(f, 18) == 0) by {
        reveal_with_fuel(solid_upto, 10);
    }
    assert(solid_upto(f, 27) == 3) by {
        reveal_with_fuel(solid_upto, 10);
    }
    assert(solid_upto(f, 36) == 7) by {
        reveal_with_fuel(solid_upto, 10);
    }
    assert(solid_upto(f, 45) == 8) by {
        reveal_with_fuel(solid_upto, 10);
    }
    assert(solid_upto(f, 54) == 10) by {
        reveal_with_fuel(solid_upto, 10);
    }
    assert(solid_upto(f, 63) == 10) by {
        reveal_with_fuel(solid_upto, 10);
    }
    assert(solid_upto(f, 72) == 10) by {
        reveal_with_fuel(solid_upto, 10);
    }
    assert(solid_upto(f, 81) == 10) by {
        reveal_with_fuel(solid_upto, 10);
    }
}

/// The starting blob of level 2 has ten solid cells.
proof fn lemma_solid_blob_2()
    ensures
        solid_count(blob_body_2()) == 10,
{
    let f = blob_body_2();
    assert(f.len() == 81);
    assert(solid_upto(f, 9) == 0) by {
        reveal_with_fuel(solid_upto, 10);
    }
    assert(solid_upto(f, 18) == 0) by {
        reveal_with_fuel(solid_upto, 10);
    }
    assert(solid_upto(f, 27) == 1) by {
        reveal_with_fuel(solid_upto, 10);
    }
    assert(solid_upto(f, 36) == 3) by {
        reveal_with_fuel(solid_upto, 10);
    }
    assert(solid_upto(f, 45) == 6) by {
        reveal_with_fuel(solid_upto, 10);
    }
    assert(solid_upto(f, 54) == 10) by {
        reveal_with_fuel(solid_upto, 10);
    }
    assert(solid_upto(f, 63) == 10) by {
        reveal_with_fuel(solid_upto, 10);
    }
    assert(solid_upto(f, 72) == 10) by {
        reveal_with_fuel(solid_upto, 10);
    }
    assert(solid_upto(f, 81) == 10) by {
        reveal_with_fuel(solid_upto, 10);
    }
}

/// The starting blob of level 3 has fourteen solid cells.
proof fn lemma_solid_blob_3()
    ensures
        solid_count(blob_body_3()) == 14,
{
    let f = blob_body_3();
    assert(f.len() == 81);
    assert(solid_upto(f, 9) == 0) by {
        reveal_with_fuel(solid_upto, 10);
    }
    assert(solid_upto(f, 18) == 0) by {
        reveal_with_fuel(solid_upto, 10);
    }
    assert(solid_upto(f, 27) == 3) by {
        reveal_with_fuel(solid_upto, 10);
    }
    assert(solid_upto(f, 36) == 7) by {
        reveal_with_fuel(solid_upto, 10);
    }
    assert(solid_upto(f, 45) == 8) by {
        reveal_with_fuel(solid_upto, 10);
    }
    assert(solid_upto(f, 54) == 10) by {
        reveal_with_fuel(solid_upto, 10);
    }
    assert(solid_upto(f, 63) == 12) by {
        reveal_with_fuel(solid_upto, 10);
    }
    assert(solid_upto(f, 72) == 14) by {
        reveal_with_fuel(solid_upto, 10);
    }
    assert(solid_upto(f, 81) == 14) by {
        reveal_with_fuel(solid_upto, 10);
    }
}

/// The target of the levels 1 to 3 has ten cells.
proof fn lemma_solid_target()
    ensures
        solid_count(target_body_1()) == 10,
{
    let f = target_body_1();
    assert(f.len() == 120);
    assert(solid_upto(f, 10) == 0) by {
        reveal_with_fuel(solid_upto, 11);
    }
    assert(solid_upto(f, 20) == 0) by {
        reveal_with_fuel(solid_upto, 11);
    }
    assert(solid_upto(f, 30) == 0) by {
        reveal_with_fuel(solid_upto, 11);
    }
    assert(solid_upto(f, 40) == 0) by {
        reveal_with_fuel(solid_upto, 11);
    }
    assert(solid_upto(f, 50) == 0) by {
        reveal_with_fuel(solid_upto, 11);
    }
    assert(solid_upto(f, 60) == 0) by {
        reveal_with_fuel(solid_upto, 11);
    }
    assert(solid_upto(f, 70) == 0) by {
        reveal_with_fuel(solid_upto, 11);
    }
    assert(solid_upto(f, 80) == 0) by {
        reveal_with_fuel(solid_upto, 11);
    }
    assert(solid_upto(f, 90) == 1) by {
        reveal_with_fuel(solid_upto, 11);
    }
    assert(solid_upto(f, 100) == 3) by {
        reveal_with_fuel(solid_upto, 11);
    }
    assert(solid_upto(f, 110) == 6) by {
        reveal_with_fuel(solid_upto, 11);
    }
    assert(solid_upto(f, 120) == 10) by {
        reveal_with_fuel(solid_upto, 11);
    }
}

/// Every level's starting blob and target figure exist, and the blob has as many solid
/// cells as the target has cells, but in level 3, whose blob carries the four cells of a
/// square more, for the cutter to take.
pub proof fn lemma_level_shapes(num: u32)
    requires
        1 <= num <= 3,
    ensures
        blob_body(num) is Some,
        target_body(num) is Some,
        solid_count(target_body(num).unwrap()) == 10,
        solid_count(blob_body(num).unwrap()) == if num == 3 { 14int } else { 10int },
{
    lemma_solid_target();
    lemma_solid_blob_1();
    lemma_solid_blob_2();
    lemma_solid_blob_3();
}

} // verus!

//! The bodies are represented by a RxC (row cross column) i32 vector. Hereby the first R elements represent the top row of the body.
//! At time of writing only 0 and 1 are used to indicate if the given position is solid or not.
//! The tetris stones and blob objects use 9x9 vectors. The target shape is a 12x10 vector.

use vstd::prelude::*;

use crate::math::IVec2;
use crate::random::random_in_range;
use crate::text::{decimal, push_decimal, string_of};

verus! {

/// Describes the 7 default tetris bricks
#[derive(Debug, Clone, Copy, PartialEq, Eq, Structural, Hash, Default)]
pub enum TetrisBricks {
    #[default]
    Square,
    Line,
    L,
    InvL,
    StairsL,
    StairsR,
    SmallT,
}

/// The number that stands for a tetris brick kind.
pub open spec fn brick_number(b: TetrisBricks) -> i32 {
    match b {
        TetrisBricks::Square => 1,
        TetrisBricks::Line => 2,
        TetrisBricks::L => 3,
        TetrisBricks::InvL => 4,
        TetrisBricks::StairsL => 5,
        TetrisBricks::StairsR => 6,
        TetrisBricks::SmallT => 7,
    }
}

/// The tetris brick kind that a number stands for, if any.
pub open spec fn brick_of_number(v: i32) -> Option<TetrisBricks> {
    if v == 1 {
        Some(TetrisBricks::Square)
    } else if v == 2 {
        Some(TetrisBricks::Line)
    } else if v == 3 {
        Some(TetrisBricks::L)
    } else if v == 4 {
        Some(TetrisBricks::InvL)
    } else if v == 5 {
        Some(TetrisBricks::StairsL)
    } else if v == 6 {
        Some(TetrisBricks::StairsR)
    } else if v == 7 {
        Some(TetrisBricks::SmallT)
    } else {
        None
    }
}

impl TetrisBricks {
    /// The smallest number of a tetris brick kind.
    pub fn min() -> (r: i32)
        ensures
            r == 1,
    {
        1
    }

    /// The largest number of a tetris brick kind.
    pub fn max() -> (r: i32)
        ensures
            r == 7,
    {
        7
    }

    /// The number of this tetris brick kind.
    pub fn number(self) -> (r: i32)
        ensures
            r == brick_number(self),
    {
        match self {
            TetrisBricks::Square => 1,
            TetrisBricks::Line => 2,
            TetrisBricks::L => 3,
            TetrisBricks::InvL => 4,
            TetrisBricks::StairsL => 5,
            TetrisBricks::StairsR => 6,
            TetrisBricks::SmallT => 7,
        }
    }
}

impl TryFrom<i32> for TetrisBricks {
    type Error = ();

    fn try_from(value: i32) -> (r: Result<Self, Self::Error>) {
        if value == 1 {
            Ok(TetrisBricks::Square)
        } else if value == 2 {
            Ok(TetrisBricks::Line)
        } else if value == 3 {
            Ok(TetrisBricks::L)
        } else if value == 4 {
            Ok(TetrisBricks::InvL)
        } else if value == 5 {
            Ok(TetrisBricks::StairsL)
        } else if value == 6 {
            Ok(TetrisBricks::StairsR)
        } else if value == 7 {
            Ok(TetrisBricks::SmallT)
        } else {
            Err(())
        }
    }
}

impl vstd::std_specs::convert::TryFromSpecImpl<i32> for TetrisBricks {
    open spec fn obeys_try_from_spec() -> bool {
        true
    }

    open spec fn try_from_spec(v: i32) -> Result<Self, Self::Error> {
        match brick_of_number(v) {
            Some(b) => Ok(b),
            None => Err(()),
        }
    }
}

/// The 9x9 flag grid of a square tetris brick.
pub open spec fn square_body() -> Seq<i32> {
    seq![
        0, 0, 0, 0, 0, 0, 0, 0, 0, //
        0, 0, 0, 0, 0, 0, 0, 0, 0, //
        0, 0, 0, 0, 0, 0, 0, 0, 0, //
        0, 0, 0, 0, 0, 0, 0, 0, 0, //
        0, 0, 0, 0, 1, 1, 0, 0, 0, //
        0, 0, 0, 0, 1, 1, 0, 0, 0, //
        0, 0, 0, 0, 0, 0, 0, 0, 0, //
        0, 0, 0, 0, 0, 0, 0, 0, 0, //
        0, 0, 0, 0, 0, 0, 0, 0, 0, //
    ]
}

/// generates a square tetris brick as i32 9x9 flag vector
pub fn gen_square_body() -> (r: Vec<i32>)
    ensures
        r@ == square_body(),
{
    vec![
        0, 0, 0, 0, 0, 0, 0, 0, 0, //
        0, 0, 0, 0, 0, 0, 0, 0, 0, //
        0, 0, 0, 0, 0, 0, 0, 0, 0, //
        0, 0, 0, 0, 0, 0, 0, 0, 0, //
        0, 0, 0, 0, 1, 1, 0, 0, 0, //
        0, 0, 0, 0, 1, 1, 0, 0, 0, //
        0, 0, 0, 0, 0, 0, 0, 0, 0, //
        0, 0, 0, 0, 0, 0, 0, 0, 0, //
        0, 0, 0, 0, 0, 0, 0, 0, 0, //
    ]
}

/// The 9x9 flag grid of a line tetris brick.
pub open spec fn line_body() -> Seq<i32> {
    seq![
        0, 0, 0, 0, 0, 0, 0, 0, 0, //
        0, 0, 0, 0, 0, 0, 0, 0, 0, //
        0, 0, 0, 0, 1, 0, 0, 0, 0, //
        0, 0, 0, 0, 1, 0, 0, 0, 0, //
        0, 0, 0, 0, 1, 0, 0, 0, 0, //
        0, 0, 0, 0, 1, 0, 0, 0, 0, //
        0, 0, 0, 0, 0, 0, 0, 0, 0, //
        0, 0, 0, 0, 0, 0, 0, 0, 0, //
        0, 0, 0, 0, 0, 0, 0, 0, 0, //
    ]
}

/// generates a line tetris brick as i32 9x9 flag vector
pub fn gen_line_body() -> (r: Vec<i32>)
    ensures
        r@ == line_body(),
{
    vec![
        0, 0, 0, 0, 0, 0, 0, 0, 0, //
        0, 0, 0, 0, 0, 0, 0, 0, 0, //
        0, 0, 0, 0, 1, 0, 0, 0, 0, //
        0, 0, 0, 0, 1, 0, 0, 0, 0, //
        0, 0, 0, 0, 1, 0, 0, 0, 0, //
        0, 0, 0, 0, 1, 0, 0, 0, 0, //
        0, 0, 0, 0, 0, 0, 0, 0, 0, //
        0, 0, 0, 0, 0, 0, 0, 0, 0, //
        0, 0, 0, 0, 0, 0, 0, 0, 0, //
    ]
}

/// The 9x9 flag grid of an L tetris brick.
pub open spec fn l_body() -> Seq<i32> {
    seq![
        0, 0, 0, 0, 0, 0, 0, 0, 0, //
        0, 0, 0, 0, 0, 0, 0, 0, 0, //
        0, 0, 0, 0, 0, 0, 0, 0, 0, //
        0, 0, 0, 0, 1, 0, 0, 0, 0, //
        0, 0, 0, 0, 1, 0, 0, 0, 0, //
        0, 0, 0, 0, 1, 1, 0, 0, 0, //
        0, 0, 0, 0, 0, 0, 0, 0, 0, //
        0, 0, 0, 0, 0, 0, 0, 0, 0, //
        0, 0, 0, 0, 0, 0, 0, 0, 0, //
    ]
}

/// generates an L tetris brick as i32 9x9 flag vector
pub fn gen_l_body() -> (r: Vec<i32>)
    ensures
        r@ == l_body(),
{
    vec![
        0, 0, 0, 0, 0, 0, 0, 0, 0, //
        0, 0, 0, 0, 0, 0, 0, 0, 0, //
        0, 0, 0, 0, 0, 0, 0, 0, 0, //
        0, 0, 0, 0, 1, 0, 0, 0, 0, //
        0, 0, 0, 0, 1, 0, 0, 0, 0, //
        0, 0, 0, 0, 1, 1, 0, 0, 0, //
        0, 0, 0, 0, 0, 0, 0, 0, 0, //
        0, 0, 0, 0, 0, 0, 0, 0, 0, //
        0, 0, 0, 0, 0, 0, 0, 0, 0, //
    ]
}

/// The 9x9 flag grid of an inverse L tetris brick.
pub open spec fn inv_l_body() -> Seq<i32> {
    seq![
        0, 0, 0, 0, 0, 0, 0, 0, 0, //
        0, 0, 0, 0, 0, 0, 0, 0, 0, //
        0, 0, 0, 0, 0, 0, 0, 0, 0, //
        0, 0, 0, 0, 1, 0, 0, 0, 0, //
        0, 0, 0, 0, 1, 0, 0, 0, 0, //
        0, 0, 0, 1, 1, 0, 0, 0, 0, //
        0, 0, 0, 0, 0, 0, 0, 0, 0, //
        0, 0, 0, 0, 0, 0, 0, 0, 0, //
        0, 0, 0, 0, 0, 0, 0, 0, 0, //
    ]
}

/// generates an inverse L tetris brick as i32 9x9 flag vector
pub fn gen_inv_l_body() -> (r: Vec<i32>)
    ensures
        r@ == inv_l_body(),
{
    vec![
        0, 0, 0, 0, 0, 0, 0, 0, 0, //
        0, 0, 0, 0, 0, 0, 0, 0, 0, //
        0, 0, 0, 0, 0, 0, 0, 0, 0, //
        0, 0, 0, 0, 1, 0, 0, 0, 0, //
        0, 0, 0, 0, 1, 0, 0, 0, 0, //
        0, 0, 0, 1, 1, 0, 0, 0, 0, //
        0, 0, 0, 0, 0, 0, 0, 0, 0, //
        0, 0, 0, 0, 0, 0, 0, 0, 0, //
        0, 0, 0, 0, 0, 0, 0, 0, 0, //
    ]
}

/// The 9x9 flag grid of a stairs from left to right tetris brick.
pub open spec fn stairs_l_body() -> Seq<i32> {
    seq![
        0, 0, 0, 0, 0, 0, 0, 0, 0, //
        0, 0, 0, 0, 0, 0, 0, 0, 0, //
        0, 0, 0, 0, 0, 0, 0, 0, 0, //
        0, 0, 0, 0, 0, 0, 0, 0, 0, //
        0, 0, 0, 0, 1, 1, 0, 0, 0, //
        0, 0, 0, 1, 1, 0, 0, 0, 0, //
        0, 0, 0, 0, 0, 0, 0, 0, 0, //
        0, 0, 0, 0, 0, 0, 0, 0, 0, //
        0, 0, 0, 0, 0, 0, 0, 0, 0, //
    ]
}

/// generates a stairs from left to right tetris brick as i32 9x9 flag vector
pub fn gen_stairs_l_body() -> (r: Vec<i32>)
    ensures
        r@ == stairs_l_body(),
{
    vec![
        0, 0, 0, 0, 0, 0, 0, 0, 0, //
        0, 0, 0, 0, 0, 0, 0, 0, 0, //
        0, 0, 0, 0, 0, 0, 0, 0, 0, //
        0, 0, 0, 0, 0, 0, 0, 0, 0, //
        0, 0, 0, 0, 1, 1, 0, 0, 0, //
        0, 0, 0, 1, 1, 0, 0, 0, 0, //
        0, 0, 0, 0, 0, 0, 0, 0, 0, //
        0, 0, 0, 0, 0, 0, 0, 0, 0, //
        0, 0, 0, 0, 0, 0, 0, 0, 0, //
    ]
}

/// The 9x9 flag grid of a stairs from right to left tetris brick.
pub open spec fn stairs_r_body() -> Seq<i32> {
    seq![
        0, 0, 0, 0, 0, 0, 0, 0, 0, //
        0, 0, 0, 0, 0, 0, 0, 0, 0, //
        0, 0, 0, 0, 0, 0, 0, 0, 0, //
        0, 0, 0, 0, 0, 0, 0, 0, 0, //
        0, 0, 0, 0, 1, 1, 0, 0, 0, //
        0, 0, 0, 0, 0, 1, 1, 0, 0, //
        0, 0, 0, 0, 0, 0, 0, 0, 0, //
        0, 0, 0, 0, 0, 0, 0, 0, 0, //
        0, 0, 0, 0, 0, 0, 0, 0, 0, //
    ]
}

/// generates a stairs from right to left tetris brick as i32 9x9 flag vector
pub fn gen_stairs_r_body() -> (r: Vec<i32>)
    ensures
        r@ == stairs_r_body(),
{
    vec![
        0, 0, 0, 0, 0, 0, 0, 0, 0, //
        0, 0, 0, 0, 0, 0, 0, 0, 0, //
        0, 0, 0, 0, 0, 0, 0, 0, 0, //
        0, 0, 0, 0, 0, 0, 0, 0, 0, //
        0, 0, 0, 0, 1, 1, 0, 0, 0, //
        0, 0, 0, 0, 0, 1, 1, 0, 0, //
        0, 0, 0, 0, 0, 0, 0, 0, 0, //
        0, 0, 0, 0, 0, 0, 0, 0, 0, //
        0, 0, 0, 0, 0, 0, 0, 0, 0, //
    ]
}

/// The 9x9 flag grid of a T tetris brick.
pub open spec fn t_body() -> Seq<i32> {
    seq![
        0, 0, 0, 0, 0, 0, 0, 0, 0, //
        0, 0, 0, 0, 0, 0, 0, 0, 0, //
        0, 0, 0, 0, 0, 0, 0, 0, 0, //
        0, 0, 0, 0, 1, 0, 0, 0, 0, //
        0, 0, 0, 1, 1, 1, 0, 0, 0, //
        0, 0, 0, 0, 0, 0, 0, 0, 0, //
        0, 0, 0, 0, 0, 0, 0, 0, 0, //
        0, 0, 0, 0, 0, 0, 0, 0, 0, //
        0, 0, 0, 0, 0, 0, 0, 0, 0, //
    ]
}

/// generates a T tetris brick as i32 9x9 flag vector
pub fn gen_t_body() -> (r: Vec<i32>)
    ensures
        r@ == t_body(),
{
    vec![
        0, 0, 0, 0, 0, 0, 0, 0, 0, //
        0, 0, 0, 0, 0, 0, 0, 0, 0, //
        0, 0, 0, 0, 0, 0, 0, 0, 0, //
        0, 0, 0, 0, 1, 0, 0, 0, 0, //
        0, 0, 0, 1, 1, 1, 0, 0, 0, //
        0, 0, 0, 0, 0, 0, 0, 0, 0, //
        0, 0, 0, 0, 0, 0, 0, 0, 0, //
        0, 0, 0, 0, 0, 0, 0, 0, 0, //
        0, 0, 0, 0, 0, 0, 0, 0, 0, //
    ]
}

/// The flag grid of a tetris brick kind.
pub open spec fn tetris_body(kind: TetrisBricks) -> Seq<i32> {
    match kind {
        TetrisBricks::Square => square_body(),
        TetrisBricks::Line => line_body(),
        TetrisBricks::L => l_body(),
        TetrisBricks::InvL => inv_l_body(),
        TetrisBricks::StairsL => stairs_l_body(),
        TetrisBricks::StairsR => stairs_r_body(),
        TetrisBricks::SmallT => t_body(),
    }
}

/// Generates a tetris body.
///
/// # Arguments
/// * `kind` - A value of the [`TetrisBricks`] enum to indicate which body.
pub fn gen_tetris_body(kind: TetrisBricks) -> (r: Vec<i32>)
    ensures
        r@ == tetris_body(kind),
{
    match kind {
        TetrisBricks::Square => gen_square_body(),
        TetrisBricks::Line => gen_line_body(),
        TetrisBricks::L => gen_l_body(),
        TetrisBricks::InvL => gen_inv_l_body(),
        TetrisBricks::StairsL => gen_stairs_l_body(),
        TetrisBricks::StairsR => gen_stairs_r_body(),
        TetrisBricks::SmallT => gen_t_body(),
    }
}

/// generates a random tetris body
pub fn gen_random_tetris_body() -> (r: Vec<i32>)
    ensures
        exists|kind: TetrisBricks| r@ == #[trigger] tetris_body(kind),
{
    let num = random_in_range(TetrisBricks::min(), TetrisBricks::max() + 1);
    let kind = brick_from_random(num);
    gen_tetris_body(kind)
}

/// The brick kind that a number drawn from `min()..=max()` stands for.
pub fn brick_from_random(num: i32) -> (r: TetrisBricks)
    requires
        1 <= num <= 7,
    ensures
        brick_number(r) == num,
{
    match TetrisBricks::try_from(num) {
        Ok(kind) => kind,
        Err(_) => TetrisBricks::Square,
    }
}

/// The message of the error returned for a level number without data.
pub open spec fn invalid_level_message(level: u32) -> Seq<char> {
    "Invalid Level number: "@ + decimal(level as nat)
}

fn invalid_level(level: u32) -> (r: String)
    ensures
        r@ == invalid_level_message(level),
{
    let mut s = string_of("Invalid Level number: ");
    push_decimal(&mut s, level as u64);
    s
}

/// The starting blob of level 0.
pub open spec fn blob_body_0() -> Seq<i32> {
    seq![
        0, 0, 0, 0, 0, 0, 0, 0, 0, //
        0, 0, 0, 0, 0, 0, 0, 0, 0, //
        0, 0, 0, 0, 1, 0, 0, 0, 0, //
        0, 0, 0, 0, 1, 1, 0, 0, 0, //
        0, 0, 0, 0, 1, 1, 1, 0, 0, //
        0, 0, 0, 0, 1, 1, 1, 1, 0, //
        0, 0, 0, 0, 0, 0, 0, 0, 0, //
        0, 0, 0, 0, 0, 0, 0, 0, 0, //
        0, 0, 0, 0, 0, 0, 0, 0, 0, //
    ]
}

/// The starting blob of level 1.
pub open spec fn blob_body_1() -> Seq<i32> {
    seq![
        0, 0, 0, 0, 0, 0, 0, 0, 0, //
        0, 0, 0, 0, 0, 0, 0, 0, 0, //
        0, 0, 1, 0, 1, 1, 0, 0, 0, //
        0, 0, 1, 1, 1, 1, 0, 0, 0, //
        0, 0, 0, 0, 1, 0, 0, 0, 0, //
        0, 0, 0, 0, 1, 1, 0, 0, 0, //
        0, 0, 0, 0, 0, 0, 0, 0, 0, //
        0, 0, 0, 0, 0, 0, 0, 0, 0, //
        0, 0, 0, 0, 0, 0, 0, 0, 0, //
    ]
}

/// The starting blob of level 2: a staircase that has to be turned over before it fits.
pub open spec fn blob_body_2() -> Seq<i32> {
    seq![
        0, 0, 0, 0, 0, 0, 0, 0, 0, //
        0, 0, 0, 0, 0, 0, 0, 0, 0, //
        0, 0, 0, 0, 1, 0, 0, 0, 0, //
        0, 0, 0, 0, 1, 1, 0, 0, 0, //
        0, 0, 0, 0, 1, 1, 1, 0, 0, //
        0, 0, 0, 0, 1, 1, 1, 1, 0, //
        0, 0, 0, 0, 0, 0, 0, 0, 0, //
        0, 0, 0, 0, 0, 0, 0, 0, 0, //
        0, 0, 0, 0, 0, 0, 0, 0, 0, //
    ]
}

/// The starting blob of level 3: the blob of level 1 with a square below it that has to be
/// cut off.
pub open spec fn blob_body_3() -> Seq<i32> {
    seq![
        0, 0, 0, 0, 0, 0, 0, 0, 0, //
        0, 0, 0, 0, 0, 0, 0, 0, 0, //
        0, 0, 1, 0, 1, 1, 0, 0, 0, //
        0, 0, 1, 1, 1, 1, 0, 0, 0, //
        0, 0, 0, 0, 1, 0, 0, 0, 0, //
        0, 0, 0, 0, 1, 1, 0, 0, 0, //
        0, 0, 0, 0, 1, 1, 0, 0, 0, //
        0, 0, 0, 0, 1, 1, 0, 0, 0, //
        0, 0, 0, 0, 0, 0, 0, 0, 0, //
    ]
}

/// The starting blob of a level, if there is one.
pub open spec fn blob_body(level: u32) -> Option<Seq<i32>> {
    if level == 0 {
        Some(blob_body_0())
    } else if level == 1 {
        Some(blob_body_1())
    } else if level == 2 {
        Some(blob_body_2())
    } else if level == 3 {
        Some(blob_body_3())
    } else {
        None
    }
}

/// generate a 9x9 i32 flag vector that represents the starting blob given the level number
pub fn gen_blob_body(level: u32) -> (r: Result<Vec<i32>, String>)
    ensures
        match blob_body(level) {
            Some(b) => r matches Ok(v) && v@ == b,
            None => r matches Err(e) && e@ == invalid_level_message(level),
        },
{
    match level {
        0 => Ok(
            vec![
                0, 0, 0, 0, 0, 0, 0, 0, 0, //
                0, 0, 0, 0, 0, 0, 0, 0, 0, //
                0, 0, 0, 0, 1, 0, 0, 0, 0, //
                0, 0, 0, 0, 1, 1, 0, 0, 0, //
                0, 0, 0, 0, 1, 1, 1, 0, 0, //
                0, 0, 0, 0, 1, 1, 1, 1, 0, //
                0, 0, 0, 0, 0, 0, 0, 0, 0, //
                0, 0, 0, 0, 0, 0, 0, 0, 0, //
                0, 0, 0, 0, 0, 0, 0, 0, 0, //
            ],
        ),
        1 => Ok(
            vec![
                0, 0, 0, 0, 0, 0, 0, 0, 0, //
                0, 0, 0, 0, 0, 0, 0, 0, 0, //
                0, 0, 1, 0, 1, 1, 0, 0, 0, //
                0, 0, 1, 1, 1, 1, 0, 0, 0, //
                0, 0, 0, 0, 1, 0, 0, 0, 0, //
                0, 0, 0, 0, 1, 1, 0, 0, 0, //
                0, 0, 0, 0, 0, 0, 0, 0, 0, //
                0, 0, 0, 0, 0, 0, 0, 0, 0, //
                0, 0, 0, 0, 0, 0, 0, 0, 0, //
            ],
        ),
        2 => Ok(
            vec![
                0, 0, 0, 0, 0, 0, 0, 0, 0, //
                0, 0, 0, 0, 0, 0, 0, 0, 0, //
                0, 0, 0, 0, 1, 0, 0, 0, 0, //
                0, 0, 0, 0, 1, 1, 0, 0, 0, //
                0, 0, 0, 0, 1, 1, 1, 0, 0, //
                0, 0, 0, 0, 1, 1, 1, 1, 0, //
                0, 0, 0, 0, 0, 0, 0, 0, 0, //
                0, 0, 0, 0, 0, 0, 0, 0, 0, //
                0, 0, 0, 0, 0, 0, 0, 0, 0, //
            ],
        ),
        3 => Ok(
            vec![
                0, 0, 0, 0, 0, 0, 0, 0, 0, //
                0, 0, 0, 0, 0, 0, 0, 0, 0, //
                0, 0, 1, 0, 1, 1, 0, 0, 0, //
                0, 0, 1, 1, 1, 1, 0, 0, 0, //
                0, 0, 0, 0, 1, 0, 0, 0, 0, //
                0, 0, 0, 0, 1, 1, 0, 0, 0, //
                0, 0, 0, 0, 1, 1, 0, 0, 0, //
                0, 0, 0, 0, 1, 1, 0, 0, 0, //
                0, 0, 0, 0, 0, 0, 0, 0, 0, //
            ],
        ),
        _ => Err(invalid_level(level)),
    }
}

/// The 12x10 target area of the levels 0 to 3.
pub open spec fn target_body_1() -> Seq<i32> {
    seq![
        0, 0, 0, 0, 0, 0, 0, 0, 0, 0, //
        0, 0, 0, 0, 0, 0, 0, 0, 0, 0, //
        0, 0, 0, 0, 0, 0, 0, 0, 0, 0, //
        0, 0, 0, 0, 0, 0, 0, 0, 0, 0, //
        0, 0, 0, 0, 0, 0, 0, 0, 0, 0, //
        0, 0, 0, 0, 0, 0, 0, 0, 0, 0, //
        0, 0, 0, 0, 0, 0, 0, 0, 0, 0, //
        0, 0, 0, 0, 0, 0, 0, 0, 0, 0, //
        0, 0, 0, 0, 0, 0, 0, 0, 0, 1, //
        0, 0, 0, 0, 0, 0, 0, 0, 1, 1, //
        0, 0, 0, 0, 0, 0, 0, 1, 1, 1, //
        0, 0, 0, 0, 0, 0, 1, 1, 1, 1, //
    ]
}

/// The completely filled 12x10 target area.
pub open spec fn target_body_full() -> Seq<i32> {
    seq![
        1, 1, 1, 1, 1, 1, 1, 1, 1, 1, //
        1, 1, 1, 1, 1, 1, 1, 1, 1, 1, //
        1, 1, 1, 1, 1, 1, 1, 1, 1, 1, //
        1, 1, 1, 1, 1, 1, 1, 1, 1, 1, //
        1, 1, 1, 1, 1, 1, 1, 1, 1, 1, //
        1, 1, 1, 1, 1, 1, 1, 1, 1, 1, //
        1, 1, 1, 1, 1, 1, 1, 1, 1, 1, //
        1, 1, 1, 1, 1, 1, 1, 1, 1, 1, //
        1, 1, 1, 1, 1, 1, 1, 1, 1, 1, //
        1, 1, 1, 1, 1, 1, 1, 1, 1, 1, //
        1, 1, 1, 1, 1, 1, 1, 1, 1, 1, //
        1, 1, 1, 1, 1, 1, 1, 1, 1, 1, //
    ]
}

/// The target area of a level, if there is one.
pub open spec fn target_body(level: u32) -> Option<Seq<i32>> {
    if level <= 3 {
        Some(target_body_1())
    } else if level == 100 {
        Some(target_body_full())
    } else {
        None
    }
}

/// generates a 12x10 i32 flag vector that represents the target area
pub fn gen_target_body(level: u32) -> (r: Result<Vec<i32>, String>)
    ensures
        match target_body(level) {
            Some(b) => r matches Ok(v) && v@ == b,
            None => r matches Err(e) && e@ == invalid_level_message(level),
        },
{
    match level {
        0..=3 => Ok(
            vec![
                0, 0, 0, 0, 0, 0, 0, 0, 0, 0, //
                0, 0, 0, 0, 0, 0, 0, 0, 0, 0, //
                0, 0, 0, 0, 0, 0, 0, 0, 0, 0, //
                0, 0, 0, 0, 0, 0, 0, 0, 0, 0, //
                0, 0, 0, 0, 0, 0, 0, 0, 0, 0, //
                0, 0, 0, 0, 0, 0, 0, 0, 0, 0, //
                0, 0, 0, 0, 0, 0, 0, 0, 0, 0, //
                0, 0, 0, 0, 0, 0, 0, 0, 0, 0, //
                0, 0, 0, 0, 0, 0, 0, 0, 0, 1, //
                0, 0, 0, 0, 0, 0, 0, 0, 1, 1, //
                0, 0, 0, 0, 0, 0, 0, 1, 1, 1, //
                0, 0, 0, 0, 0, 0, 1, 1, 1, 1, //
            ],
        ),
        100 => Ok(
            vec![
                1, 1, 1, 1, 1, 1, 1, 1, 1, 1, //
                1, 1, 1, 1, 1, 1, 1, 1, 1, 1, //
                1, 1, 1, 1, 1, 1, 1, 1, 1, 1, //
                1, 1, 1, 1, 1, 1, 1, 1, 1, 1, //
                1, 1, 1, 1, 1, 1, 1, 1, 1, 1, //
                1, 1, 1, 1, 1, 1, 1, 1, 1, 1, //
                1, 1, 1, 1, 1, 1, 1, 1, 1, 1, //
                1, 1, 1, 1, 1, 1, 1, 1, 1, 1, //
                1, 1, 1, 1, 1, 1, 1, 1, 1, 1, //
                1, 1, 1, 1, 1, 1, 1, 1, 1, 1, //
                1, 1, 1, 1, 1, 1, 1, 1, 1, 1, //
                1, 1, 1, 1, 1, 1, 1, 1, 1, 1, //
            ],
        ),
        _ => Err(invalid_level(level)),
    }
}


/// A body: a grid of flags, its size and the pivot cell around which it turns.
#[derive(Debug, Default, PartialEq, Eq)]
pub struct BodyDefinition {
    pub block_positions: Vec<i32>,
    pub size: (usize, usize),
    pub pivot: (usize, usize),
}

/// Whether the numbers of a body definition can be computed with in `i32`.
pub open spec fn body_fits(bp_len: int, size: (usize, usize), pivot: (usize, usize)) -> bool {
    &&& 0 < size.0 <= i32::MAX
    &&& 0 < size.1 <= i32::MAX
    &&& pivot.0 <= i32::MAX
    &&& pivot.1 <= i32::MAX
    &&& bp_len <= i32::MAX
}

/// The position of cell `idx` relative to the pivot: the column is `idx % size.0`, the
/// row is `idx / size.1`.
pub open spec fn cell_offset(size: (usize, usize), pivot: (usize, usize), idx: int) -> IVec2 {
    IVec2 { x: (idx % (size.0 as int) - pivot.0) as i32, y: (idx / (size.1 as int) - pivot.1) as i32 }
}

/// The offsets of the solid cells among the first `n` flags, in order.
pub open spec fn solid_offsets(
    flags: Seq<i32>,
    size: (usize, usize),
    pivot: (usize, usize),
    n: int,
) -> Seq<IVec2>
    decreases n,
{
    if n <= 0 {
        Seq::empty()
    } else {
        let rest = solid_offsets(flags, size, pivot, n - 1);
        if flags[n - 1] != 0 {
            rest.push(cell_offset(size, pivot, n - 1))
        } else {
            rest
        }
    }
}

/// The offsets of a 9x9 body with its pivot in the center lie within four cells of the
/// pivot, as long as the body has at most 81 cells.
pub proof fn lemma_blob_offsets_bounded(flags: Seq<i32>, n: int)
    requires
        0 <= n <= 81,
        n <= flags.len(),
    ensures
        forall|i: int|
            0 <= i < solid_offsets(flags, (9usize, 9usize), (4usize, 4usize), n).len() ==> {
                let v = #[trigger] solid_offsets(flags, (9usize, 9usize), (4usize, 4usize), n)[i];
                -4 <= v.x <= 4 && -4 <= v.y <= 4
            },
    decreases n,
{
    if n > 0 {
        lemma_blob_offsets_bounded(flags, n - 1);
        let idx = n - 1;
        assert(0 <= idx % 9 < 9 && 0 <= idx / 9 <= 8) by (nonlinear_arith)
            requires
                0 <= idx < 81,
        ;
        let rest = solid_offsets(flags, (9usize, 9usize), (4usize, 4usize), n - 1);
        let all = solid_offsets(flags, (9usize, 9usize), (4usize, 4usize), n);
        assert forall|i: int| 0 <= i < all.len() implies {
            let v = #[trigger] all[i];
            -4 <= v.x <= 4 && -4 <= v.y <= 4
        } by {
            if i < rest.len() {
                assert(all[i] == rest[i]);
            } else {
                assert(all[i] == cell_offset((9usize, 9usize), (4usize, 4usize), idx));
            }
        }
    }
}

impl Clone for BodyDefinition {
    fn clone(&self) -> (r: BodyDefinition)
        ensures
            r.block_positions@ == self.block_positions@,
            r.size == self.size,
            r.pivot == self.pivot,
    {
        BodyDefinition {
            block_positions: self.block_positions.clone(),
            size: self.size,
            pivot: self.pivot,
        }
    }
}

impl BodyDefinition {
    /// The offsets of all solid cells of the body relative to its pivot, in order.
    pub open spec fn relative_positions(&self) -> Seq<IVec2> {
        solid_offsets(
            self.block_positions@,
            self.size,
            self.pivot,
            self.block_positions@.len() as int,
        )
    }

    /// A 9x9 body whose pivot is its center cell.
    pub fn as_blob(positions: Vec<i32>) -> (r: BodyDefinition)
        ensures
            r.block_positions@ == positions@,
            r.size == (9usize, 9usize),
            r.pivot == (4usize, 4usize),
    {
        BodyDefinition { block_positions: positions, size: (9, 9), pivot: (4, 4) }
    }

    /// The positions of the solid cells relative to the pivot, in the order of the flags.
    pub fn get_relative_positions(&self) -> (r: Vec<IVec2>)
        requires
            body_fits(self.block_positions@.len() as int, self.size, self.pivot),
        ensures
            r@ == self.relative_positions(),
    {
        let mut reval: Vec<IVec2> = Vec::new();
        let n = self.block_positions.len();
        let w = self.size.0 as i32;
        let h = self.size.1 as i32;
        let px = self.pivot.0 as i32;
        let py = self.pivot.1 as i32;
        let mut idx: usize = 0;
        while idx < n
            invariant
                n == self.block_positions@.len(),
                body_fits(n as int, self.size, self.pivot),
                w == self.size.0,
                h == self.size.1,
                px == self.pivot.0,
                py == self.pivot.1,
                idx <= n,
                reval@ == solid_offsets(self.block_positions@, self.size, self.pivot, idx as int),
            decreases n - idx,
        {
            let num = self.block_positions[idx];
            if num != 0 {
                let i = idx as i32;
                proof {
                    vstd::arithmetic::div_mod::lemma_mod_pos_bound(i as int, w as int);
                    vstd::arithmetic::div_mod::lemma_div_pos_is_pos(i as int, h as int);
                    vstd::arithmetic::div_mod::lemma_div_is_ordered_by_denominator(i as int, 1, h as int);
                }
                let x = (i % w) - px;
                let y = (i / h) - py;
                reval.push(IVec2 { x, y });
            }
            idx = idx + 1;
        }
        reval
    }
}

/// Every tetris brick survives the trip to its number and back, and every number of a brick
/// is that brick's number; the numbers run from 1 to 7.
pub proof fn lemma_brick_number_roundtrip(b: TetrisBricks, v: i32)
    ensures
        brick_of_number(brick_number(b)) == Some(b),
        brick_of_number(v) matches Some(c) ==> brick_number(c) == v,
        1 <= brick_number(b) <= 7,
{
}

} // verus!

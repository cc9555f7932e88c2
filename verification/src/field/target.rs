//! The target: the shape on the field that the player has to fill.

use vstd::prelude::*;

verus! {

/// A coordinate given by row and column.
#[derive(Debug, Default, PartialEq, Eq, Structural, Clone, Copy, Hash)]
pub struct Coordinate {
    pub r: i32,
    pub c: i32,
}

/// The pair `(column, row)` of a coordinate.
pub open spec fn pair_of_coordinate(c: Coordinate) -> (i32, i32) {
    (c.c, c.r)
}

/// The coordinate of a pair `(column, row)`.
pub open spec fn coordinate_of_pair(p: (i32, i32)) -> Coordinate {
    Coordinate { r: p.1, c: p.0 }
}

/// Converting a coordinate to a `(column, row)` pair and back gives the coordinate, and the
/// other way round.
pub proof fn lemma_coordinate_roundtrip(c: Coordinate, p: (i32, i32))
    ensures
        coordinate_of_pair(pair_of_coordinate(c)) == c,
        pair_of_coordinate(coordinate_of_pair(p)) == p,
{
}

impl From<Coordinate> for (i32, i32) {
    fn from(c: Coordinate) -> (r: (i32, i32)) {
        (c.c, c.r)
    }
}

impl vstd::std_specs::convert::FromSpecImpl<Coordinate> for (i32, i32) {
    open spec fn obeys_from_spec() -> bool {
        true
    }

    open spec fn from_spec(c: Coordinate) -> (i32, i32) {
        pair_of_coordinate(c)
    }
}

impl From<(i32, i32)> for Coordinate {
    fn from(p: (i32, i32)) -> (r: Coordinate) {
        Coordinate { r: p.1, c: p.0 }
    }
}

impl vstd::std_specs::convert::FromSpecImpl<(i32, i32)> for Coordinate {
    open spec fn obeys_from_spec() -> bool {
        true
    }

    open spec fn from_spec(p: (i32, i32)) -> Coordinate {
        coordinate_of_pair(p)
    }
}

/// The target shape of a level: a 12x10 flag grid placed at a coordinate.
#[derive(Debug, Default, PartialEq, Eq, Clone)]
pub struct Target {
    /// the body of the target, different values of the i32 represent different colors
    pub body: Vec<i32>,
    /// where the top left cell of the body lies in the coordinate system of the parent
    pub coordinate: Option<Coordinate>,
}

/// Number of columns of a target body.
pub open spec fn target_cols() -> int {
    10
}

/// Number of rows of a target body.
pub open spec fn target_rows() -> int {
    12
}

/// The field coordinates `(column, row)` of the solid cells among the first `n` cells of
/// `body` (row major, 10 columns), placed at `at`.
pub open spec fn target_cells(body: Seq<i32>, at: Coordinate, n: int) -> Seq<(i32, i32)>
    decreases n,
{
    if n <= 0 {
        Seq::empty()
    } else {
        let rest = target_cells(body, at, n - 1);
        let i = n - 1;
        if body[i] != 0 {
            rest.push(((i % 10 + at.c) as i32, (i / 10 + at.r) as i32))
        } else {
            rest
        }
    }
}

impl Target {
    /// A target that is not placed anywhere yet.
    pub fn new(body: Vec<i32>) -> (r: Target)
        ensures
            r.body@ == body@,
            r.coordinate is None,
    {
        Target { body, coordinate: None }
    }

    /// The row major index of row `r` and column `c` of a target body.
    pub fn coords_to_idx(r: usize, c: usize) -> (i: usize)
        requires
            r * 10 + c <= usize::MAX,
        ensures
            i == r * 10 + c,
    {
        r * Target::dimensions().0 + c
    }

    /// Columns and rows of a target body.
    pub fn dimensions() -> (r: (usize, usize))
        ensures
            r == (10usize, 12usize),
    {
        (10, 12)
    }

    /// Whether the target can list its coordinates: a placed target needs a complete body
    /// and a position whose cells stay inside `i32`.
    pub open spec fn can_list(&self) -> bool {
        self.coordinate matches Some(at) ==> {
            &&& self.body@.len() >= 120
            &&& at.c + 9 <= i32::MAX
            &&& at.r + 11 <= i32::MAX
        }
    }

    /// The occupied coordinates `(column, row)` in the coordinate system of the parent, in
    /// row major order; empty while the target is not placed.
    pub open spec fn spec_occupied(&self) -> Seq<(i32, i32)> {
        match self.coordinate {
            Some(at) => target_cells(self.body@, at, 120),
            None => Seq::empty(),
        }
    }

    /// the function calculates the occupied coordinates in the coordinate system of the
    /// parent (coordinate property)
    pub fn occupied_coordinates(&self) -> (res: Vec<(i32, i32)>)
        requires
            self.can_list(),
        ensures
            res@ == self.spec_occupied(),
    {
        let mut reval: Vec<(i32, i32)> = Vec::new();
        if let Some(coordinate) = self.coordinate {
            let mut r: usize = 0;
            while r < 12
                invariant
                    self.coordinate == Some(coordinate),
                    self.can_list(),
                    r <= 12,
                    reval@ == target_cells(self.body@, coordinate, (r * 10) as int),
                decreases 12 - r,
            {
                let mut c: usize = 0;
                while c < 10
                    invariant
                        self.coordinate == Some(coordinate),
                        self.can_list(),
                        r < 12,
                        c <= 10,
                        reval@ == target_cells(self.body@, coordinate, (r * 10 + c) as int),
                    decreases 10 - c,
                {
                    let idx = Target::coords_to_idx(r, c);
                    proof {
                        assert((r * 10 + c) % 10 == c && (r * 10 + c) / 10 == r) by (nonlinear_arith)
                            requires
                                c < 10,
                                r < 12,
                        ;
                    }
                    if self.body[idx] != 0 {
                        let cc = c as i32 + coordinate.c;
                        let rr = r as i32 + coordinate.r;
                        reval.push((cc, rr));
                    }
                    c = c + 1;
                }
                r = r + 1;
            }
        }
        reval
    }
}

} // verus!

//! The field state: a dense grid of [`FieldElement`]s that caches what occupies every coordinate of a field.

use vstd::prelude::*;

use crate::math::{Entity, IVec2};

verus! {

/// Enumeration that differentiates between the kinds of field elements
#[derive(Debug, Clone, Copy, PartialEq, Eq, Structural, Hash, Default)]
pub enum FieldElementKind {
    /// the area is empty
    #[default]
    Empty,
    /// the area is outside the movable region but rendering may occur here
    OutOfMovableRegion,
    /// the area is complety outside the valid region,
    OutOfValidRegion,
    /// the area is blocked by a block and the parent blob of the block entity may be given here
    Block(Option<Entity>),
    /// the area is occupied by a tool, if that is true it may be at the same time occupied by a block
    Tool(Entity),
}

/// a element that descirbes a coordinate in the FieldState
#[derive(Debug, Clone, Copy, PartialEq, Eq, Structural, Hash, Default)]
pub struct FieldElement {
    /// flag indicating if that field element is a target for the level
    pub is_target: bool,
    /// "most" relating entity, if a tool and a blob occupy the space this contains the tool
    pub entity: Option<Entity>,
    /// enumeration to distinguish between types of field elements
    pub kind: FieldElementKind,
    /// the relative position of the element in respect to the fields coordinate system
    pub position: IVec2,
}

/// The element that stands for an empty cell at `pos`.
pub open spec fn empty_element(pos: IVec2) -> FieldElement {
    FieldElement { is_target: false, entity: None, kind: FieldElementKind::Empty, position: pos }
}

/// The element that stands for a coordinate outside of a field state.
pub open spec fn out_of_valid_element(pos: IVec2) -> FieldElement {
    FieldElement {
        is_target: false,
        entity: None,
        kind: FieldElementKind::OutOfValidRegion,
        position: pos,
    }
}

/// Whether bounds describe a grid whose extents and indices fit the machine integers.
pub open spec fn bounds_fit(bounds: (IVec2, IVec2)) -> bool {
    &&& i32::MIN < bounds.0.x <= 0
    &&& i32::MIN < bounds.0.y <= 0
    &&& bounds.0.x <= bounds.1.x
    &&& bounds.0.y <= bounds.1.y
    &&& bounds.1.x - bounds.0.x <= i32::MAX
    &&& bounds.1.y - bounds.0.y <= i32::MAX
    &&& (bounds.1.x - bounds.0.x) * (bounds.1.y - bounds.0.y) <= usize::MAX
}

/// The bounds accepted by [`FieldState::new`]: the start lies at or before the origin and
/// each extent is positive.
pub open spec fn bounds_legal(bounds: (IVec2, IVec2)) -> bool {
    &&& !(bounds.0.x > 0 || bounds.0.x >= bounds.1.x || bounds.0.y > 0 || bounds.0.y >= bounds.1.y)
}

/// Width of the grid given by `bounds`.
pub open spec fn width_of(bounds: (IVec2, IVec2)) -> int {
    bounds.1.x - bounds.0.x
}

/// Height of the grid given by `bounds`.
pub open spec fn height_of(bounds: (IVec2, IVec2)) -> int {
    bounds.1.y - bounds.0.y
}

/// Whether `c` lies inside the half open rectangle given by `bounds`.
pub open spec fn bounds_contain(bounds: (IVec2, IVec2), c: IVec2) -> bool {
    bounds.0.x <= c.x < bounds.1.x && bounds.0.y <= c.y < bounds.1.y
}

/// The row major index of `c` in a grid with `bounds`.
pub open spec fn index_in(bounds: (IVec2, IVec2), c: IVec2) -> int {
    (c.x - bounds.0.x) + (c.y - bounds.0.y) * width_of(bounds)
}

/// The coordinate that is stored at row major index `i` of a grid with `bounds`.
pub open spec fn coord_at_index(bounds: (IVec2, IVec2), i: int) -> IVec2 {
    IVec2 {
        x: (bounds.0.x + i % width_of(bounds)) as i32,
        y: (bounds.0.y + i / width_of(bounds)) as i32,
    }
}

/// Whether a field element counts as occupied for [`FieldState::get_occupied_coordinates`].
pub open spec fn is_occupied_kind(k: FieldElementKind) -> bool {
    k matches FieldElementKind::OutOfMovableRegion || k matches FieldElementKind::Block(_)
}

/// The positions of the occupied elements of `cells`, in order.
pub open spec fn occupied_positions(cells: Seq<FieldElement>) -> Seq<IVec2>
    decreases cells.len(),
{
    if cells.len() == 0 {
        Seq::empty()
    } else {
        let rest = occupied_positions(cells.drop_last());
        if is_occupied_kind(cells.last().kind) {
            rest.push(cells.last().position)
        } else {
            rest
        }
    }
}

/// Encapsules the game state of a game field.
#[derive(Debug, Clone, PartialEq, Eq, Hash)]
pub struct FieldState {
    // gives the start values and end values of coordinates in this field
    bounds_start: IVec2,
    bounds_end: IVec2,
    /// Field elements.
    elements: Vec<FieldElement>,
}

impl Default for FieldState {
    /// An empty field state without any coordinate.
    fn default() -> (r: FieldState)
        ensures
            r.wf(),
            r.spec_bounds() == (IVec2 { x: 0, y: 0 }, IVec2 { x: 0, y: 0 }),
            forall|c: IVec2| #[trigger] r.element_at(c) == None::<FieldElement>,
    {
        FieldState {
            bounds_start: IVec2 { x: 0, y: 0 },
            bounds_end: IVec2 { x: 0, y: 0 },
            elements: Vec::new(),
        }
    }
}

impl FieldState {
    /// The internal invariant: the bounds fit the machine integers and there is exactly one
    /// element per coordinate.
    pub closed spec fn wf(self) -> bool {
        &&& bounds_fit((self.bounds_start, self.bounds_end))
        &&& self.elements.len() == width_of((self.bounds_start, self.bounds_end)) * height_of((self.bounds_start, self.bounds_end))
    }

    /// The bounds of the field state: the first coordinate and the end coordinate (exclusive).
    pub closed spec fn spec_bounds(self) -> (IVec2, IVec2) {
        (self.bounds_start, self.bounds_end)
    }

    /// The elements of the field state in row major order.
    pub closed spec fn cells(self) -> Seq<FieldElement> {
        self.elements@
    }

    /// Whether `c` is a coordinate of this field state.
    pub open spec fn contains(self, c: IVec2) -> bool {
        bounds_contain(self.spec_bounds(), c)
    }

    /// The element stored at coordinate `c`, if `c` belongs to the field state.
    pub open spec fn element_at(self, c: IVec2) -> Option<FieldElement> {
        if self.contains(c) {
            Some(self.cells()[index_in(self.spec_bounds(), c)])
        } else {
            None
        }
    }

    /// What a predicate sees at `c`: the stored element, or an out-of-valid-region element.
    pub open spec fn probe(self, c: IVec2) -> FieldElement {
        match self.element_at(c) {
            Some(e) => e,
            None => out_of_valid_element(c),
        }
    }

    /// Generates a field state with the given bounds, every element empty and carrying its own position.
    pub fn new(bounds: (IVec2, IVec2)) -> (r: FieldState)
        requires
            bounds_legal(bounds),
            bounds_fit(bounds),
        ensures
            r.wf(),
            r.spec_bounds() == bounds,
            forall|c: IVec2| #[trigger]
                r.element_at(c) == if bounds_contain(bounds, c) {
                    Some(empty_element(c))
                } else {
                    None
                },
    {
        let len = len_from_bounds(bounds);
        let n = len.0 * len.1;
        let mut elements: Vec<FieldElement> = Vec::new();
        let mut i: usize = 0;
        while i < n
            invariant
                n == width_of(bounds) * height_of(bounds),
                len.0 == width_of(bounds),
                len.0 > 0,
                bounds_fit(bounds),
                i <= n,
                elements.len() == i,
                forall|j: int|
                    0 <= j < i ==> #[trigger] elements@[j] == empty_element(
                        coord_at_index(bounds, j),
                    ),
            decreases n - i,
        {
            let x = (i % len.0) as i32;
            let y = (i / len.0) as i32;
            proof {
                lemma_index_decompose(bounds, i as int);
            }
            let pos = IVec2 { x: bounds.0.x + x, y: bounds.0.y + y };
            elements.push(
                FieldElement {
                    is_target: false,
                    entity: None,
                    kind: FieldElementKind::Empty,
                    position: pos,
                },
            );
            i = i + 1;
        }
        let r = FieldState { bounds_start: bounds.0, bounds_end: bounds.1, elements };
        assert forall|c: IVec2| #[trigger]
            r.element_at(c) == if bounds_contain(bounds, c) {
                Some(empty_element(c))
            } else {
                None
            } by {
            if bounds_contain(bounds, c) {
                lemma_index_roundtrip(bounds, c);
            }
        }
        r
    }

    /// The width and the height of the field state.
    pub fn len(&self) -> (r: (usize, usize))
        requires
            self.wf(),
        ensures
            r.0 == width_of(self.spec_bounds()),
            r.1 == height_of(self.spec_bounds()),
    {
        len_from_bounds((self.bounds_start, self.bounds_end))
    }

    /// The bounds of the field state.
    pub fn bounds(&self) -> (r: (IVec2, IVec2))
        requires
            self.wf(),
        ensures
            r == self.spec_bounds(),
            bounds_fit(r),
    {
        (self.bounds_start, self.bounds_end)
    }

    /// The element at `coord`, or `None` if `coord` lies outside the bounds.
    pub fn get_element(&self, coord: IVec2) -> (r: Option<FieldElement>)
        requires
            self.wf(),
        ensures
            r == self.element_at(coord),
    {
        match self.coord_to_idx(coord) {
            Some(idx) => Some(self.elements[idx]),
            None => None,
        }
    }

    /// Stores `new_el` at `coord`; returns whether `coord` lies inside the bounds.
    /// Outside the bounds nothing changes.
    pub fn set_element(&mut self, coord: IVec2, new_el: FieldElement) -> (r: bool)
        requires
            old(self).wf(),
        ensures
            r == old(self).contains(coord),
            final(self).wf(),
            final(self).spec_bounds() == old(self).spec_bounds(),
            forall|c: IVec2| #[trigger]
                final(self).element_at(c) == if c == coord && r {
                    Some(new_el)
                } else {
                    old(self).element_at(c)
                },
    {
        match self.coord_to_idx(coord) {
            Some(idx) => {
                self.elements.set(idx, new_el);
                proof {
                    assert forall|c: IVec2| #[trigger]
                        self.element_at(c) == if c == coord {
                            Some(new_el)
                        } else {
                            old(self).element_at(c)
                        } by {
                        assert(self.spec_bounds() == old(self).spec_bounds());
                        assert(self.cells() == old(self).cells().update(idx as int, new_el));
                        if self.contains(c) && c != coord {
                            lemma_index_injective((self.bounds_start, self.bounds_end), c, coord);
                            lemma_index_roundtrip((self.bounds_start, self.bounds_end), c);
                        }
                    }
                }
                true
            },
            None => false,
        }
    }

    /// The positions of all elements that are out of the movable region or hold a block,
    /// in row major order.
    pub fn get_occupied_coordinates(&self) -> (r: Vec<IVec2>)
        ensures
            r@ == occupied_positions(self.cells()),
    {
        let mut reval: Vec<IVec2> = Vec::new();
        let n = self.elements.len();
        let mut i: usize = 0;
        while i < n
            invariant
                n == self.cells().len(),
                i <= n,
                reval@ == occupied_positions(self.cells().take(i as int)),
            decreases n - i,
        {
            let el = self.elements[i];
            proof {
                assert(self.cells().take(i + 1).drop_last() =~= self.cells().take(i as int));
            }
            match el.kind {
                FieldElementKind::OutOfMovableRegion | FieldElementKind::Block(_) => {
                    reval.push(el.position);
                },
                _ => {},
            }
            i = i + 1;
        }
        proof {
            assert(self.cells().take(n as int) =~= self.cells());
        }
        reval
    }

    /// Number of elements of the state, i.e. width times height.
    pub fn num_elements(&self) -> (r: usize)
        ensures
            r == self.cells().len(),
    {
        self.elements.len()
    }

    /// The element at row major index `i`.
    pub fn element_by_index(&self, i: usize) -> (r: FieldElement)
        requires
            i < self.cells().len(),
        ensures
            r == self.cells()[i as int],
    {
        self.elements[i]
    }

    /// Whether `predicate` holds for every coordinate of `coords`; coordinates listed in
    /// `exceptions` count as fulfilled. Coordinates outside the bounds are checked as
    /// out-of-valid-region elements.
    pub fn are_all_coordinates<F: Fn(&FieldElement) -> bool>(
        &self,
        coords: &Vec<IVec2>,
        exceptions: Option<&Vec<IVec2>>,
        predicate: &F,
    ) -> (r: bool)
        requires
            self.wf(),
            forall|e: FieldElement| predicate.requires((&e,)),
        ensures
            r ==> forall|i: int|
                0 <= i < coords@.len() ==> is_exception(exceptions, #[trigger] coords@[i])
                    || predicate.ensures((&self.probe(coords@[i]),), true),
            !r ==> exists|i: int|
                0 <= i < coords@.len() && !is_exception(exceptions, #[trigger] coords@[i])
                    && predicate.ensures((&self.probe(coords@[i]),), false),
    {
        let pairs = match exceptions {
            Some(e) => Some((e, true)),
            None => None,
        };
        let mut i: usize = 0;
        while i < coords.len()
            invariant
                i <= coords@.len(),
                self.wf(),
                forall|e: FieldElement| predicate.requires((&e,)),
                pairs == with_flag(exceptions, true),
                forall|j: int|
                    0 <= j < i ==> is_exception(exceptions, #[trigger] coords@[j])
                        || predicate.ensures((&self.probe(coords@[j]),), true),
            decreases coords@.len() - i,
        {
            let res = self.predicate_at_coordinate(coords[i], pairs, predicate);
            if !res {
                assert(!is_exception(exceptions, coords@[i as int]));
                return false;
            }
            i = i + 1;
        }
        true
    }

    /// Whether `predicate` holds for any coordinate of `coords`; coordinates listed in
    /// `exceptions` never count. Coordinates outside the bounds are checked as
    /// out-of-valid-region elements.
    pub fn is_any_coordinate<F: Fn(&FieldElement) -> bool>(
        &self,
        coords: &Vec<IVec2>,
        exceptions: Option<&Vec<IVec2>>,
        predicate: &F,
    ) -> (r: bool)
        requires
            self.wf(),
            forall|e: FieldElement| predicate.requires((&e,)),
        ensures
            r ==> exists|i: int|
                0 <= i < coords@.len() && !is_exception(exceptions, #[trigger] coords@[i])
                    && predicate.ensures((&self.probe(coords@[i]),), true),
            !r ==> forall|i: int|
                0 <= i < coords@.len() ==> is_exception(exceptions, #[trigger] coords@[i])
                    || predicate.ensures((&self.probe(coords@[i]),), false),
    {
        let pairs = match exceptions {
            Some(e) => Some((e, false)),
            None => None,
        };
        let mut i: usize = 0;
        while i < coords.len()
            invariant
                i <= coords@.len(),
                self.wf(),
                forall|e: FieldElement| predicate.requires((&e,)),
                pairs == with_flag(exceptions, false),
                forall|j: int|
                    0 <= j < i ==> is_exception(exceptions, #[trigger] coords@[j])
                        || predicate.ensures((&self.probe(coords@[j]),), false),
            decreases coords@.len() - i,
        {
            let res = self.predicate_at_coordinate(coords[i], pairs, predicate);
            if res {
                assert(!is_exception(exceptions, coords@[i as int]));
                return true;
            }
            i = i + 1;
        }
        false
    }

    /// Evaluates `predicate` on the element at `coord`. If `coord` is listed in the
    /// exceptions, the flag given with them is returned instead; outside the bounds the
    /// predicate sees an out-of-valid-region element.
    pub fn predicate_at_coordinate<F: Fn(&FieldElement) -> bool>(
        &self,
        coord: IVec2,
        exceptions: Option<(&Vec<IVec2>, bool)>,
        predicate: &F,
    ) -> (r: bool)
        requires
            self.wf(),
            forall|e: FieldElement| predicate.requires((&e,)),
        ensures
            exception_hit(exceptions, coord) ==> r == exceptions.unwrap().1,
            !exception_hit(exceptions, coord) ==> predicate.ensures((&self.probe(coord),), r),
    {
        if let Some(exceptions) = exceptions {
            if vec_contains(exceptions.0, coord) {
                return exceptions.1;
            }
        }
        if let Some(element) = self.get_element(coord) {
            predicate(&element)
        } else {
            let el = FieldElement {
                entity: None,
                kind: FieldElementKind::OutOfValidRegion,
                position: coord,
                is_target: false,
            };
            predicate(&el)
        }
    }

    fn coord_to_idx(&self, coord: IVec2) -> (r: Option<usize>)
        requires
            self.wf(),
        ensures
            r is Some <==> self.contains(coord),
            r matches Some(i) ==> i == index_in(self.spec_bounds(), coord) && i < self.cells().len(),
    {
        if coord.x < self.bounds_start.x || coord.x >= self.bounds_end.x || coord.y < self.bounds_start.y
            || coord.y >= self.bounds_end.y {
            None
        } else {
            let len = self.len();
            let x = (coord.x - self.bounds_start.x) as usize;
            let y = (coord.y - self.bounds_start.y) as usize;
            proof {
                lemma_index_roundtrip((self.bounds_start, self.bounds_end), coord);
                assert(y * len.0 <= x + y * len.0 < len.0 * len.1);
            }
            Some(x + y * len.0)
        }
    }
}

/// Whether `c` is listed in `exceptions`.
pub open spec fn is_exception(exceptions: Option<&Vec<IVec2>>, c: IVec2) -> bool {
    match exceptions {
        Some(e) => e@.contains(c),
        None => false,
    }
}

/// Whether `c` is listed in the exceptions of a flagged exception list.
pub open spec fn exception_hit(exceptions: Option<(&Vec<IVec2>, bool)>, c: IVec2) -> bool {
    match exceptions {
        Some(e) => e.0@.contains(c),
        None => false,
    }
}

/// An exception list paired with the answer given for its coordinates.
pub open spec fn with_flag<'a>(exceptions: Option<&'a Vec<IVec2>>, flag: bool) -> Option<
    (&'a Vec<IVec2>, bool),
> {
    match exceptions {
        Some(e) => Some((e, flag)),
        None => None,
    }
}

/// Whether `v` holds `c`.
pub fn vec_contains(v: &Vec<IVec2>, c: IVec2) -> (r: bool)
    ensures
        r == v@.contains(c),
{
    let mut i: usize = 0;
    while i < v.len()
        invariant
            i <= v@.len(),
            forall|j: int| 0 <= j < i ==> v@[j] != c,
        decreases v@.len() - i,
    {
        if v[i] == c {
            assert(v@[i as int] == c);
            return true;
        }
        i = i + 1;
    }
    false
}

/// The width and height of the grid given by `bounds`.
fn len_from_bounds(bounds: (IVec2, IVec2)) -> (r: (usize, usize))
    requires
        bounds_fit(bounds),
    ensures
        r.0 == width_of(bounds),
        r.1 == height_of(bounds),
{
    let dx = bounds.1.x - bounds.0.x;
    let dy = bounds.1.y - bounds.0.y;
    (dx as usize, dy as usize)
}

/// Every index of the grid names a coordinate inside the bounds, and that coordinate's
/// index is the index again.
proof fn lemma_index_decompose(bounds: (IVec2, IVec2), i: int)
    requires
        bounds_fit(bounds),
        width_of(bounds) > 0,
        0 <= i < width_of(bounds) * height_of(bounds),
    ensures
        bounds_contain(bounds, coord_at_index(bounds, i)),
        index_in(bounds, coord_at_index(bounds, i)) == i,
        0 <= i % width_of(bounds) < width_of(bounds),
        0 <= i / width_of(bounds) < height_of(bounds),
        coord_at_index(bounds, i).x == bounds.0.x + i % width_of(bounds),
        coord_at_index(bounds, i).y == bounds.0.y + i / width_of(bounds),
{
    let w = width_of(bounds);
    let h = height_of(bounds);
    vstd::arithmetic::div_mod::lemma_fundamental_div_mod(i, w);
    vstd::arithmetic::div_mod::lemma_mod_pos_bound(i, w);
    vstd::arithmetic::div_mod::lemma_div_pos_is_pos(i, w);
    let q = i / w;
    let r = i % w;
    assert(q < h) by (nonlinear_arith)
        requires
            i == w * q + r,
            0 <= r < w,
            i < w * h,
            0 <= q,
    ;
    assert(w * q == q * w) by (nonlinear_arith);
}

/// A coordinate inside the bounds has an index inside the grid, and the index leads back
/// to the coordinate.
proof fn lemma_index_roundtrip(bounds: (IVec2, IVec2), c: IVec2)
    requires
        bounds_fit(bounds),
        bounds_contain(bounds, c),
    ensures
        0 <= index_in(bounds, c) < width_of(bounds) * height_of(bounds),
        coord_at_index(bounds, index_in(bounds, c)) == c,
        (c.y - bounds.0.y) * width_of(bounds) >= 0,
{
    let w = width_of(bounds);
    let h = height_of(bounds);
    let dx = c.x - bounds.0.x;
    let dy = c.y - bounds.0.y;
    assert(0 <= dx + dy * w < w * h && dy * w >= 0) by (nonlinear_arith)
        requires
            0 <= dx < w,
            0 <= dy < h,
    ;
    vstd::arithmetic::div_mod::lemma_fundamental_div_mod_converse(dx + dy * w, w, dy, dx);
}

/// Different coordinates inside the bounds have different indices.
proof fn lemma_index_injective(bounds: (IVec2, IVec2), a: IVec2, b: IVec2)
    requires
        bounds_fit(bounds),
        bounds_contain(bounds, a),
        bounds_contain(bounds, b),
        a != b,
    ensures
        index_in(bounds, a) != index_in(bounds, b),
{
    lemma_index_roundtrip(bounds, a);
    lemma_index_roundtrip(bounds, b);
}

} // verus!

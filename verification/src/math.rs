//! Plain grid values used throughout the game logic: integer grid vectors and entity ids.

use vstd::prelude::*;

verus! {

/// A two dimensional integer vector on the game grid.
///
/// `x` grows to the right, `y` grows downwards.
#[derive(Debug, Clone, Copy, PartialEq, Eq, Structural, Hash, Default)]
pub struct IVec2 {
    pub x: i32,
    pub y: i32,
}

/// The largest magnitude a coordinate may have so that sums and differences of
/// two coordinates stay inside `i32`.
pub open spec fn fits_i32(v: int) -> bool {
    i32::MIN <= v <= i32::MAX
}

impl IVec2 {
    /// The origin of a grid.
    pub fn zero() -> (r: IVec2)
        ensures
            r.x == 0,
            r.y == 0,
    {
        IVec2 { x: 0, y: 0 }
    }

    /// Builds a vector from its two components.
    pub fn new(x: i32, y: i32) -> (r: IVec2)
        ensures
            r.x == x,
            r.y == y,
    {
        IVec2 { x, y }
    }

    /// Whether the component-wise sum of the two vectors fits into `i32`.
    pub open spec fn can_add(self, other: IVec2) -> bool {
        fits_i32(self.x + other.x) && fits_i32(self.y + other.y)
    }

    /// The component-wise sum, as a specification.
    pub open spec fn spec_plus(self, other: IVec2) -> IVec2 {
        IVec2 { x: (self.x + other.x) as i32, y: (self.y + other.y) as i32 }
    }

    /// Component-wise sum of two vectors.
    pub fn plus(self, other: IVec2) -> (r: IVec2)
        requires
            self.can_add(other),
        ensures
            r == self.spec_plus(other),
            r.x == self.x + other.x,
            r.y == self.y + other.y,
    {
        IVec2 { x: self.x + other.x, y: self.y + other.y }
    }

    /// Whether the component-wise difference of the two vectors fits into `i32`.
    pub open spec fn can_sub(self, other: IVec2) -> bool {
        fits_i32(self.x - other.x) && fits_i32(self.y - other.y)
    }

    /// The component-wise difference, as a specification.
    pub open spec fn spec_minus(self, other: IVec2) -> IVec2 {
        IVec2 { x: (self.x - other.x) as i32, y: (self.y - other.y) as i32 }
    }

    /// Component-wise difference of two vectors.
    pub fn minus(self, other: IVec2) -> (r: IVec2)
        requires
            self.can_sub(other),
        ensures
            r == self.spec_minus(other),
            r.x == self.x - other.x,
            r.y == self.y - other.y,
    {
        IVec2 { x: self.x - other.x, y: self.y - other.y }
    }

    /// Whether the complex product of `self` and `rhs` fits into `i32`.
    pub open spec fn can_rotate(self, rhs: IVec2) -> bool {
        fits_i32(self.x * rhs.x - self.y * rhs.y) && fits_i32(self.y * rhs.x + self.x * rhs.y)
    }

    /// `rhs` rotated (and scaled) by `self`, i.e. the complex product of the two vectors.
    pub open spec fn spec_rotate(self, rhs: IVec2) -> IVec2 {
        IVec2 {
            x: (self.x * rhs.x - self.y * rhs.y) as i32,
            y: (self.y * rhs.x + self.x * rhs.y) as i32,
        }
    }

    /// Rotates `rhs` by the angle of `self`; for a unit vector `self` this is a pure rotation.
    pub fn rotate(self, rhs: IVec2) -> (r: IVec2)
        requires
            self.can_rotate(rhs),
        ensures
            r == self.spec_rotate(rhs),
    {
        let xx = mul_wide(self.x, rhs.x);
        let yy = mul_wide(self.y, rhs.y);
        let yx = mul_wide(self.y, rhs.x);
        let xy = mul_wide(self.x, rhs.y);
        IVec2 { x: (xx - yy) as i32, y: (yx + xy) as i32 }
    }
}

impl From<(i32, i32)> for IVec2 {
    fn from(p: (i32, i32)) -> (r: IVec2) {
        IVec2 { x: p.0, y: p.1 }
    }
}

impl vstd::std_specs::convert::FromSpecImpl<(i32, i32)> for IVec2 {
    open spec fn obeys_from_spec() -> bool {
        true
    }

    open spec fn from_spec(p: (i32, i32)) -> IVec2 {
        IVec2 { x: p.0, y: p.1 }
    }
}

/// The exact product of two `i32` values.
fn mul_wide(a: i32, b: i32) -> (r: i64)
    ensures
        r == a * b,
        -0x4000_0000_0000_0000 <= r <= 0x4000_0000_0000_0000,
{
    proof {
        assert(-0x4000_0000_0000_0000 <= a * b <= 0x4000_0000_0000_0000) by (nonlinear_arith)
            requires
                i32::MIN <= a <= i32::MAX,
                i32::MIN <= b <= i32::MAX,
        ;
    }
    (a as i64) * (b as i64)
}

/// The id of an entity of the game world.
#[derive(Debug, Clone, Copy, PartialEq, Eq, Structural, Hash, Default)]
pub struct Entity {
    pub id: u64,
}

impl Entity {
    /// Wraps a raw entity id.
    pub fn from_bits(id: u64) -> (r: Entity)
        ensures
            r.id == id,
    {
        Entity { id }
    }

    /// The raw entity id.
    pub fn to_bits(&self) -> (r: u64)
        ensures
            r == self.id,
    {
        self.id
    }
}

/// The value stored under entity `id` in a list of entries: that of the first entry with the id.
pub open spec fn lookup_entry<T>(entries: Seq<(Entity, T)>, id: Entity) -> Option<T>
    decreases entries.len(),
{
    if entries.len() == 0 {
        None
    } else if entries[0].0 == id {
        Some(entries[0].1)
    } else {
        lookup_entry(entries.drop_first(), id)
    }
}

/// The first entry with the id comes at `i` when no earlier entry has it.
proof fn lemma_lookup_entry_at<T>(entries: Seq<(Entity, T)>, id: Entity, i: int)
    requires
        0 <= i < entries.len(),
        entries[i].0 == id,
        forall|j: int| 0 <= j < i ==> entries[j].0 != id,
    ensures
        lookup_entry(entries, id) == Some(entries[i].1),
    decreases i,
{
    if i > 0 {
        assert forall|j: int| 0 <= j < i - 1 implies entries.drop_first()[j].0 != id by {
            assert(entries.drop_first()[j] == entries[j + 1]);
        }
        lemma_lookup_entry_at(entries.drop_first(), id, i - 1);
    }
}

/// Without an entry with the id, the lookup finds nothing.
proof fn lemma_lookup_entry_none<T>(entries: Seq<(Entity, T)>, id: Entity)
    requires
        forall|j: int| 0 <= j < entries.len() ==> entries[j].0 != id,
    ensures
        lookup_entry(entries, id) is None,
    decreases entries.len(),
{
    if entries.len() > 0 {
        assert forall|j: int| 0 <= j < entries.len() - 1 implies entries.drop_first()[j].0 != id by {
            assert(entries.drop_first()[j] == entries[j + 1]);
        }
        lemma_lookup_entry_none(entries.drop_first(), id);
    }
}

/// Finds the value stored under entity `id`.
pub fn find_entry<T: Copy>(entries: &Vec<(Entity, T)>, id: Entity) -> (r: Option<T>)
    ensures
        r == lookup_entry(entries@, id),
{
    let mut i: usize = 0;
    while i < entries.len()
        invariant
            i <= entries@.len(),
            forall|j: int| 0 <= j < i ==> entries@[j].0 != id,
        decreases entries@.len() - i,
    {
        if entries[i].0 == id {
            proof {
                lemma_lookup_entry_at(entries@, id, i as int);
            }
            return Some(entries[i].1);
        }
        i = i + 1;
    }
    proof {
        lemma_lookup_entry_none(entries@, id);
    }
    None
}

} // verus!

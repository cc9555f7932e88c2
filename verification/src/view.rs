//! The view side of the game logic: events for the renderer and the grid rotation they animate.

use vstd::prelude::*;

use crate::data::bodies::{blob_body_1, gen_blob_body, solid_offsets};
use crate::field::blob::{ids_distinct, same_ids, Blob, GridBody};
use crate::field::{find_block, index_of_block, lookup_block, Block};
use crate::math::{Entity, IVec2};

verus! {

/// A quarter turn, to the left (counter clock wise) or to the right (clock wise).
#[derive(Debug, Clone, Copy, PartialEq, Eq, Structural)]
pub enum Rotation {
    Left,
    Right,
}

/// Events for the Renderer
#[derive(Debug, Clone, PartialEq, Eq)]
pub enum ViewUpdate {
    /// A new blob has been spawned in the factory
    BlobSpawned(Entity),
    /// A blob has been moved
    BlobMoved(Entity),
    /// A blob has been rotated
    BlobRotated(Entity, Rotation),
    /// A new blob `entity` has been cutout. The new blob `entity` must have the
    /// blocks that originally were part of the original blob.
    BlobCutout(Entity),
    /// A blob has been transferred from the factory to tetris arena
    BlobTransferred(Entity),
    /// A line of blocks was removed in the tetris field.
    LineRemove(Vec<Entity>),
}

/// The unit vector whose angle a rotation turns by (`y` grows downwards).
pub open spec fn rotation_vector(rotation: Rotation) -> IVec2 {
    match rotation {
        Rotation::Left => IVec2 { x: 0, y: -1i32 },
        Rotation::Right => IVec2 { x: 0, y: 1 },
    }
}

/// A coordinate turned by a quarter: left maps `(x, y)` to `(y, -x)`, right maps it to `(-y, x)`.
pub open spec fn rotated(coord: IVec2, rotation: Rotation) -> IVec2 {
    match rotation {
        Rotation::Left => IVec2 { x: coord.y, y: -coord.x as i32 },
        Rotation::Right => IVec2 { x: -coord.y as i32, y: coord.x },
    }
}

/// Whether a quarter turn of `coord` stays inside `i32`.
pub open spec fn can_turn(coord: IVec2, rotation: Rotation) -> bool {
    match rotation {
        Rotation::Left => coord.x != i32::MIN,
        Rotation::Right => coord.y != i32::MIN,
    }
}

/// Turns a coordinate by a quarter around the origin.
pub fn rotate_coord(coord: IVec2, rotation: Rotation) -> (r: IVec2)
    requires
        can_turn(coord, rotation),
    ensures
        r == rotated(coord, rotation),
{
    let rot2vec = match rotation {
        Rotation::Left => IVec2::new(0, -1),
        Rotation::Right => IVec2::new(0, 1),
    };
    rot2vec.rotate(coord)
}

/// The number of left quarter turns (modulo four) after one more turn.
pub open spec fn next_steps(steps: int, rotation: Rotation) -> int {
    match rotation {
        Rotation::Left => (steps + 1) % 4,
        Rotation::Right => (steps - 1 + 4) % 4,
    }
}

/// Counts the rotation steps of a rendered blob: a left turn adds one, a right turn takes
/// one away, modulo four.
pub fn next_rotation_steps(steps: i32, rotation: Rotation) -> (r: i32)
    requires
        0 <= steps < 4,
    ensures
        r == next_steps(steps as int, rotation),
        0 <= r < 4,
{
    match rotation {
        Rotation::Left => (steps + 1) % 4,
        Rotation::Right => (steps - 1 + 4) % 4,
    }
}

/// A left turn undoes a right turn and the other way round.
pub proof fn lemma_rotations_cancel(coord: IVec2)
    requires
        coord.x != i32::MIN,
        coord.y != i32::MIN,
    ensures
        rotated(rotated(coord, Rotation::Left), Rotation::Right) == coord,
        rotated(rotated(coord, Rotation::Right), Rotation::Left) == coord,
{
}

/// Four quarter turns to the same side lead back to the start.
pub proof fn lemma_four_turns(coord: IVec2, rotation: Rotation)
    requires
        coord.x != i32::MIN,
        coord.y != i32::MIN,
    ensures
        rotated(rotated(rotated(rotated(coord, rotation), rotation), rotation), rotation) == coord,
{
}

//----------------------------------------------------------------------
// the animation demo

/// The relative positions of the demo blob: the solid cells of the starting blob of level 1
/// around its center, row by row.
pub fn demo_blob_coordinates() -> (r: Vec<IVec2>)
    ensures
        r@ == solid_offsets(blob_body_1(), (9usize, 9usize), (4usize, 4usize), 81),
{
    let body = match gen_blob_body(1) {
        Ok(b) => b,
        Err(_) => Vec::new(),
    };
    let mut rel_pos: Vec<IVec2> = Vec::new();
    let mut r: usize = 0;
    while r < 9
        invariant
            body@ == blob_body_1(),
            r <= 9,
            rel_pos@ == solid_offsets(body@, (9usize, 9usize), (4usize, 4usize), (r * 9) as int),
        decreases 9 - r,
    {
        let mut c: usize = 0;
        while c < 9
            invariant
                body@ == blob_body_1(),
                r < 9,
                c <= 9,
                rel_pos@ == solid_offsets(body@, (9usize, 9usize), (4usize, 4usize), (r * 9 + c) as int),
            decreases 9 - c,
        {
            let idx = GridBody::coords_to_idx(r, c);
            proof {
                assert((r * 9 + c) % 9 == c && (r * 9 + c) / 9 == r) by (nonlinear_arith)
                    requires
                        c < 9,
                        r < 9,
                ;
            }
            if body[idx] != 0 {
                let coord = IVec2::new(c as i32 - 4, r as i32 - 4);
                rel_pos.push(coord);
            }
            c = c + 1;
        }
        r = r + 1;
    }
    rel_pos
}

/// Moves the demo blob one row down.
pub fn demo_step_down(body: &mut GridBody)
    requires
        old(body).pivot.y < i32::MAX,
    ensures
        final(body).pivot == (IVec2 { x: old(body).pivot.x, y: (old(body).pivot.y + 1) as i32 }),
        final(body).blocks@ == old(body).blocks@,
        final(body).transferred == old(body).transferred,
{
    body.pivot.y = body.pivot.y + 1;
}

/// Hands the demo blob over to the tetris field: it is transferred and its pivot moves to
/// the top row.
pub fn demo_transfer(body: &mut GridBody)
    ensures
        final(body).pivot == (IVec2 { x: old(body).pivot.x, y: 0 }),
        final(body).blocks@ == old(body).blocks@,
        final(body).transferred,
{
    body.transferred = true;
    body.pivot.y = 0;
}

/// A coordinate after `n` quarter turns to the same side.
pub open spec fn turned_times(coord: IVec2, rotation: Rotation, n: nat) -> IVec2
    decreases n,
{
    if n == 0 {
        coord
    } else {
        rotated(turned_times(coord, rotation, (n - 1) as nat), rotation)
    }
}

/// How often `id` is listed in `ids`.
pub open spec fn count_of_id(ids: Seq<Entity>, id: Entity) -> nat
    decreases ids.len(),
{
    if ids.len() == 0 {
        0
    } else {
        count_of_id(ids.drop_last(), id) + if ids.last() == id {
            1nat
        } else {
            0nat
        }
    }
}

/// A block whose relative position was turned `n` times; unchanged for `n == 0`.
pub open spec fn turned_block(b: Block, rotation: Rotation, n: nat) -> Block {
    if n == 0 {
        b
    } else {
        Block {
            relative_position: Some(turned_times(b.relative_position.unwrap(), rotation, n)),
            ..b
        }
    }
}

/// Whether neither component of a coordinate is `i32::MIN`, so that it can be turned
/// any number of times.
pub open spec fn turnable(coord: IVec2) -> bool {
    coord.x != i32::MIN && coord.y != i32::MIN
}

/// Quarter turns keep a coordinate turnable.
proof fn lemma_turned_times_turnable(coord: IVec2, rotation: Rotation, n: nat)
    requires
        turnable(coord),
    ensures
        turnable(turned_times(coord, rotation, n)),
    decreases n,
{
    if n > 0 {
        lemma_turned_times_turnable(coord, rotation, (n - 1) as nat);
    }
}

/// Turns the relative positions of all blocks of the demo blob by a quarter: every listing
/// of a block in the blob turns it once.
pub fn rotate_demo_blob(blobdata: &GridBody, block_query: &mut Vec<(Entity, Block)>, rotation: Rotation)
    requires
        ids_distinct(old(block_query)@),
        forall|i: int|
            0 <= i < blobdata.blocks@.len() ==> (lookup_block(old(block_query)@, #[trigger] blobdata.blocks@[i])
                matches Some(b) && b.relative_position matches Some(rp) && turnable(rp)),
    ensures
        same_ids(final(block_query)@, old(block_query)@),
        forall|k: int|
            0 <= k < old(block_query)@.len() ==> #[trigger] final(block_query)@[k].1 == turned_block(
                old(block_query)@[k].1,
                rotation,
                count_of_id(blobdata.blocks@, old(block_query)@[k].0),
            ),
{
    let ghost start = block_query@;
    let ghost ids = blobdata.blocks@;
    let mut m: usize = 0;
    proof {
        assert forall|k: int| 0 <= k < start.len() implies #[trigger] block_query@[k].1
            == turned_block(start[k].1, rotation, count_of_id(ids.take(0), start[k].0)) by {
            assert(ids.take(0).len() == 0);
        }
    }
    while m < blobdata.blocks.len()
        invariant
            m <= ids.len(),
            ids == blobdata.blocks@,
            ids_distinct(start),
            same_ids(block_query@, start),
            forall|i: int|
                0 <= i < ids.len() ==> (lookup_block(start, #[trigger] ids[i]) matches Some(b)
                    && b.relative_position matches Some(rp) && turnable(rp)),
            forall|k: int|
                0 <= k < start.len() ==> #[trigger] block_query@[k].1 == turned_block(
                    start[k].1,
                    rotation,
                    count_of_id(ids.take(m as int), start[k].0),
                ),
        decreases ids.len() - m,
    {
        let id = blobdata.blocks[m];
        let ghost before = block_query@;
        proof {
            crate::field::lemma_index_of_block(start, id);
            crate::field::lemma_index_of_block(block_query@, id);
            if index_of_block(block_query@, id) is None {
                let j = index_of_block(start, id).unwrap();
                assert(block_query@[j].0 == id);
            }
        }
        let k = find_block(block_query, id).unwrap();
        let (e, bl) = block_query[k];
        let ghost sb = start[k as int].1;
        let ghost c = count_of_id(ids.take(m as int), id);
        proof {
            assert(before[k as int].0 == start[k as int].0);
            let j = index_of_block(start, id).unwrap();
            assert(j == k);
            assert(bl == turned_block(sb, rotation, c));
            let rp0 = sb.relative_position.unwrap();
            lemma_turned_times_turnable(rp0, rotation, c);
            assert(bl.relative_position == Some(turned_times(rp0, rotation, c)));
        }
        let rp = bl.relative_position.unwrap();
        block_query.set(k, (e, Block { relative_position: Some(rotate_coord(rp, rotation)), ..bl }));
        proof {
            assert(ids.take(m + 1).drop_last() =~= ids.take(m as int));
            assert(ids.take(m + 1).last() == id);
            assert forall|q: int| 0 <= q < start.len() implies #[trigger] block_query@[q].1
                == turned_block(start[q].1, rotation, count_of_id(ids.take(m + 1), start[q].0)) by {
                if q != k {
                    assert(start[q].0 != start[k as int].0);
                    assert(block_query@[q] == before[q]);
                    assert(count_of_id(ids.take(m + 1), start[q].0) == count_of_id(
                        ids.take(m as int),
                        start[q].0,
                    ));
                } else {
                    assert(count_of_id(ids.take(m + 1), id) == c + 1);
                    assert(turned_times(sb.relative_position.unwrap(), rotation, c + 1) == rotated(
                        turned_times(sb.relative_position.unwrap(), rotation, c),
                        rotation,
                    ));
                }
            }
        }
        m = m + 1;
    }
    proof {
        assert(ids.take(ids.len() as int) =~= ids);
    }
}

/// The largest row among the relative positions of the blocks `ids`, or 0 without blocks.
pub open spec fn max_row(ids: Seq<Entity>, store: Seq<(Entity, Block)>) -> i32
    decreases ids.len(),
{
    if ids.len() == 0 {
        0
    } else if ids.len() == 1 {
        lookup_block(store, ids[0]).unwrap().relative_position.unwrap().y
    } else {
        let rest = max_row(ids.drop_last(), store);
        let y = lookup_block(store, ids.last()).unwrap().relative_position.unwrap().y;
        if y > rest {
            y
        } else {
            rest
        }
    }
}

/// The blocks of `ids` whose relative row is `row`, in order.
pub open spec fn blocks_in_row(ids: Seq<Entity>, store: Seq<(Entity, Block)>, row: i32) -> Seq<Entity>
    decreases ids.len(),
{
    if ids.len() == 0 {
        Seq::empty()
    } else {
        let rest = blocks_in_row(ids.drop_last(), store, row);
        if lookup_block(store, ids.last()).unwrap().relative_position.unwrap().y == row {
            rest.push(ids.last())
        } else {
            rest
        }
    }
}

/// Whether every block of `ids` is in the store and has a relative position.
pub open spec fn all_placed(ids: Seq<Entity>, store: Seq<(Entity, Block)>) -> bool {
    forall|i: int|
        0 <= i < ids.len() ==> (lookup_block(store, #[trigger] ids[i]) matches Some(b)
            && b.relative_position is Some)
}

/// The lowest blocks of the demo blob: those in the largest relative row.
pub fn lowest_blocks_of_testblob(blobdata: &GridBody, block_query: &Vec<(Entity, Block)>) -> (r:
    Vec<Entity>)
    requires
        all_placed(blobdata.blocks@, block_query@),
    ensures
        r@ == blocks_in_row(blobdata.blocks@, block_query@, max_row(blobdata.blocks@, block_query@)),
{
    let n = blobdata.blocks.len();
    let mut max_y: i32 = 0;
    let mut i: usize = 0;
    while i < n
        invariant
            n == blobdata.blocks@.len(),
            all_placed(blobdata.blocks@, block_query@),
            i <= n,
            max_y == max_row(blobdata.blocks@.take(i as int), block_query@),
        decreases n - i,
    {
        let k = find_block(block_query, blobdata.blocks[i]).unwrap();
        let y = block_query[k].1.relative_position.unwrap().y;
        proof {
            assert(blobdata.blocks@.take(i + 1).drop_last() =~= blobdata.blocks@.take(i as int));
            assert(blobdata.blocks@.take(i + 1).last() == blobdata.blocks@[i as int]);
            assert(blobdata.blocks@.take(1)[0] == blobdata.blocks@[0]);
        }
        if i == 0 || y > max_y {
            max_y = y;
        }
        i = i + 1;
    }
    proof {
        assert(blobdata.blocks@.take(n as int) =~= blobdata.blocks@);
    }
    let mut out: Vec<Entity> = Vec::new();
    let mut j: usize = 0;
    while j < n
        invariant
            n == blobdata.blocks@.len(),
            all_placed(blobdata.blocks@, block_query@),
            j <= n,
            out@ == blocks_in_row(blobdata.blocks@.take(j as int), block_query@, max_y),
        decreases n - j,
    {
        let id = blobdata.blocks[j];
        let k = find_block(block_query, id).unwrap();
        proof {
            assert(blobdata.blocks@.take(j + 1).drop_last() =~= blobdata.blocks@.take(j as int));
            assert(blobdata.blocks@.take(j + 1).last() == id);
        }
        if block_query[k].1.relative_position.unwrap().y == max_y {
            out.push(id);
        }
        j = j + 1;
    }
    proof {
        assert(blobdata.blocks@.take(n as int) =~= blobdata.blocks@);
    }
    out
}

/// The entity stored under `key`: that of the first entry with the key.
pub open spec fn entity_at(coords: Seq<(IVec2, Entity)>, key: IVec2) -> Option<Entity>
    decreases coords.len(),
{
    if coords.len() == 0 {
        None
    } else if coords[0].0 == key {
        Some(coords[0].1)
    } else {
        entity_at(coords.drop_first(), key)
    }
}

/// The first entry of `coords[i..]` whose right and lower neighbours are both present:
/// that block and the two neighbours.
pub open spec fn triangle_from(coords: Seq<(IVec2, Entity)>, i: int) -> Option<(Entity, Entity, Entity)>
    decreases coords.len() - i,
{
    if i < 0 || i >= coords.len() {
        None
    } else {
        let (coord, block) = coords[i];
        match (
            entity_at(coords, IVec2 { x: (coord.x + 1) as i32, y: coord.y }),
            entity_at(coords, IVec2 { x: coord.x, y: (coord.y + 1) as i32 }),
        ) {
            (Some(a), Some(b)) => Some((block, a, b)),
            _ => triangle_from(coords, i + 1),
        }
    }
}

/// Finds the entity stored under `key`.
fn find_coordinate(coords: &Vec<(IVec2, Entity)>, key: IVec2) -> (r: Option<Entity>)
    ensures
        r == entity_at(coords@, key),
{
    let mut i: usize = 0;
    assert(coords@.skip(0) =~= coords@);
    while i < coords.len()
        invariant
            i <= coords@.len(),
            entity_at(coords@, key) == entity_at(coords@.skip(i as int), key),
        decreases coords@.len() - i,
    {
        proof {
            assert(coords@.skip(i as int).drop_first() =~= coords@.skip(i + 1));
        }
        if coords[i].0 == key {
            return Some(coords[i].1);
        }
        i = i + 1;
    }
    None
}

/// An entity found under a key comes from an entry with that key.
proof fn lemma_entity_at_witness(coords: Seq<(IVec2, Entity)>, key: IVec2)
    ensures
        entity_at(coords, key) matches Some(e) ==> exists|p: int|
            0 <= p < coords.len() && #[trigger] coords[p] == (key, e),
    decreases coords.len(),
{
    if coords.len() > 0 && coords[0].0 != key {
        lemma_entity_at_witness(coords.drop_first(), key);
        if let Some(e) = entity_at(coords, key) {
            let p = choose|p: int| 0 <= p < coords.drop_first().len() && #[trigger] coords.drop_first()[p] == (key, e);
            assert(coords[p + 1] == (key, e));
        }
    } else if coords.len() > 0 {
        assert(coords[0] == (key, coords[0].1));
    }
}

/// The right neighbour cell of `p`.
pub open spec fn right_of(p: IVec2) -> IVec2 {
    IVec2 { x: (p.x + 1) as i32, y: p.y }
}

/// The lower neighbour cell of `p`.
pub open spec fn below(p: IVec2) -> IVec2 {
    IVec2 { x: p.x, y: (p.y + 1) as i32 }
}

/// The relative position of block `id` in the store.
pub open spec fn rel_of(store: Seq<(Entity, Block)>, id: Entity) -> IVec2 {
    lookup_block(store, id).unwrap().relative_position.unwrap()
}

/// Whether the blocks `ids` hold a triangle: a block together with its right and its
/// lower neighbour.
pub open spec fn has_triangle(ids: Seq<Entity>, store: Seq<(Entity, Block)>) -> bool {
    exists|j1: int, j2: int, j3: int|
        #![trigger ids[j1], ids[j2], ids[j3]]
        0 <= j1 < ids.len() && 0 <= j2 < ids.len() && 0 <= j3 < ids.len() && rel_of(store, ids[j2])
            == right_of(rel_of(store, ids[j1])) && rel_of(store, ids[j3]) == below(
            rel_of(store, ids[j1]),
        )
}

/// Whether every entry of `coords` is a block of `ids` listed under its relative position.
#[verifier::opaque]
pub open spec fn entries_of_blob(coords: Seq<(IVec2, Entity)>, ids: Seq<Entity>, store: Seq<(Entity, Block)>) -> bool {
    forall|i: int|
        0 <= i < coords.len() ==> ids.contains((#[trigger] coords[i]).1) && (lookup_block(
            store,
            coords[i].1,
        ) matches Some(b) && b.relative_position == Some(coords[i].0))
}

/// Whether the relative position of every block of `ids` is a key of `coords`.
#[verifier::opaque]
pub open spec fn keys_cover_blob(coords: Seq<(IVec2, Entity)>, ids: Seq<Entity>, store: Seq<(Entity, Block)>) -> bool {
    forall|j: int|
        0 <= j < ids.len() ==> (lookup_block(store, #[trigger] ids[j]) matches Some(b)
            && b.relative_position matches Some(p) && exists|i: int|
            0 <= i < coords.len() && (#[trigger] coords[i]).0 == p)
}

/// Whether `coords` maps the relative positions of the blocks `ids` to blocks: every entry is
/// a block of the blob under its relative position, every relative position of a block is a
/// key, and no key repeats.
pub open spec fn lists_blob(coords: Seq<(IVec2, Entity)>, ids: Seq<Entity>, store: Seq<(Entity, Block)>) -> bool {
    &&& entries_of_blob(coords, ids, store)
    &&& keys_cover_blob(coords, ids, store)
    &&& forall|i: int, j: int|
        0 <= i < j < coords.len() ==> (#[trigger] coords[i]).0 != (#[trigger] coords[j]).0
}

/// A present key has an entity.
proof fn lemma_entity_at_found(coords: Seq<(IVec2, Entity)>, key: IVec2, p: int)
    requires
        0 <= p < coords.len(),
        coords[p].0 == key,
    ensures
        entity_at(coords, key) is Some,
    decreases p,
{
    if coords[0].0 != key {
        assert(coords.drop_first()[p - 1] == coords[p]);
        lemma_entity_at_found(coords.drop_first(), key, p - 1);
    }
}

/// An entry at or after `i` with both neighbours present makes the search succeed.
proof fn lemma_triangle_found(coords: Seq<(IVec2, Entity)>, i: int, m: int)
    requires
        0 <= i <= m < coords.len(),
        entity_at(coords, right_of(coords[m].0)) is Some,
        entity_at(coords, below(coords[m].0)) is Some,
    ensures
        triangle_from(coords, i) is Some,
    decreases m - i,
{
    if i < m {
        let coord = coords[i].0;
        if !(entity_at(coords, right_of(coord)) is Some && entity_at(coords, below(coord)) is Some) {
            lemma_triangle_found(coords, i + 1, m);
        }
    }
}

/// The three blocks of a found triangle come from three different entries: a block and the
/// entries of its right and lower neighbours.
proof fn lemma_triangle_witness(coords: Seq<(IVec2, Entity)>, i: int)
    requires
        0 <= i,
        forall|m: int|
            0 <= m < coords.len() ==> (#[trigger] coords[m]).0.x < i32::MAX && coords[m].0.y
                < i32::MAX,
    ensures
        triangle_from(coords, i) matches Some((x, y, z)) ==> exists|p: int, q: int, w: int|
            0 <= p < coords.len() && 0 <= q < coords.len() && 0 <= w < coords.len() && p != q
                && p != w && q != w && #[trigger] coords[p].1 == x && #[trigger] coords[q].1 == y
                && #[trigger] coords[w].1 == z && coords[q].0 == right_of(coords[p].0) && coords[w].0
                == below(coords[p].0),
    decreases coords.len() - i,
{
    if i < coords.len() {
        let (coord, block) = coords[i];
        let ka = right_of(coord);
        let kb = below(coord);
        match (entity_at(coords, ka), entity_at(coords, kb)) {
            (Some(a), Some(b)) => {
                lemma_entity_at_witness(coords, ka);
                lemma_entity_at_witness(coords, kb);
                let q = choose|q: int| 0 <= q < coords.len() && #[trigger] coords[q] == (ka, a);
                let w = choose|w: int| 0 <= w < coords.len() && #[trigger] coords[w] == (kb, b);
                assert(coords[i].1 == block);
                assert(coords[q].0 != coords[i].0);
                assert(coords[w].0 != coords[i].0);
                assert(coords[w].0 != coords[q].0);
                assert(triangle_from(coords, i) == Some((block, a, b)));
                assert(0 <= i < coords.len() && 0 <= q < coords.len() && 0 <= w < coords.len() && i != q
                    && i != w && q != w && coords[i].1 == block && coords[q].1 == a && coords[w].1 == b
                    && coords[q].0 == right_of(coords[i].0) && coords[w].0 == below(coords[i].0));
            },
            _ => {
                lemma_triangle_witness(coords, i + 1);
            },
        }
    }
}

/// A block of the cut out triangle after its relative position was moved by `-offset`.
pub open spec fn shifted_block(b: Block, offset: IVec2) -> Block {
    Block { relative_position: Some(b.relative_position.unwrap().spec_minus(offset)), ..b }
}

/// A triangle found by the search is a triangle of the blob.
proof fn lemma_triangle_some(coords: Seq<(IVec2, Entity)>, ids: Seq<Entity>, store: Seq<(Entity, Block)>)
    requires
        lists_blob(coords, ids, store),
        triangle_from(coords, 0) is Some,
        forall|m: int|
            0 <= m < coords.len() ==> (#[trigger] coords[m]).0.x < i32::MAX && coords[m].0.y
                < i32::MAX,
    ensures
        has_triangle(ids, store),
{
    lemma_triangle_witness(coords, 0);
    let (x, y, z) = triangle_from(coords, 0).unwrap();
    let (p, q, w) = choose|p: int, q: int, w: int|
        0 <= p < coords.len() && 0 <= q < coords.len() && 0 <= w < coords.len() && p != q && p
            != w && q != w && #[trigger] coords[p].1 == x && #[trigger] coords[q].1 == y
            && #[trigger] coords[w].1 == z && coords[q].0 == right_of(coords[p].0) && coords[w].0
            == below(coords[p].0);
    assert(ids.contains(x) && ids.contains(y) && ids.contains(z) && rel_of(store, x) == coords[p].0
        && rel_of(store, y) == coords[q].0 && rel_of(store, z) == coords[w].0) by {
        reveal(entries_of_blob);
        let cp = coords[p];
        let cq = coords[q];
        let cw = coords[w];
    }
    let j1 = choose|j: int| 0 <= j < ids.len() && ids[j] == x;
    let j2 = choose|j: int| 0 <= j < ids.len() && ids[j] == y;
    let j3 = choose|j: int| 0 <= j < ids.len() && ids[j] == z;
    assert(0 <= j1 < ids.len() && 0 <= j2 < ids.len() && 0 <= j3 < ids.len() && rel_of(store, ids[j2])
        == right_of(rel_of(store, ids[j1])) && rel_of(store, ids[j3]) == below(rel_of(store, ids[j1])));
}

/// A triangle of the blob is found by the search.
proof fn lemma_triangle_none(coords: Seq<(IVec2, Entity)>, ids: Seq<Entity>, store: Seq<(Entity, Block)>)
    requires
        lists_blob(coords, ids, store),
        has_triangle(ids, store),
    ensures
        triangle_from(coords, 0) is Some,
{
    let (j1, j2, j3) = choose|j1: int, j2: int, j3: int|
        #![trigger ids[j1], ids[j2], ids[j3]]
        0 <= j1 < ids.len() && 0 <= j2 < ids.len() && 0 <= j3 < ids.len() && rel_of(store, ids[j2])
            == right_of(rel_of(store, ids[j1])) && rel_of(store, ids[j3]) == below(
            rel_of(store, ids[j1]),
        );
    let p1 = rel_of(store, ids[j1]);
    assert((exists|i: int| 0 <= i < coords.len() && (#[trigger] coords[i]).0 == p1) && (exists|i: int|
        0 <= i < coords.len() && (#[trigger] coords[i]).0 == right_of(p1)) && (exists|i: int|
        0 <= i < coords.len() && (#[trigger] coords[i]).0 == below(p1))) by {
        reveal(keys_cover_blob);
        let a1 = ids[j1];
        let a2 = ids[j2];
        let a3 = ids[j3];
    }
    let m = choose|i: int| 0 <= i < coords.len() && (#[trigger] coords[i]).0 == p1;
    let i2 = choose|i: int| 0 <= i < coords.len() && (#[trigger] coords[i]).0 == right_of(p1);
    let i3 = choose|i: int| 0 <= i < coords.len() && (#[trigger] coords[i]).0 == below(p1);
    lemma_entity_at_found(coords, right_of(p1), i2);
    lemma_entity_at_found(coords, below(p1), i3);
    lemma_triangle_found(coords, 0, m);
}

/// Whether the search in `coordinates` finds a triangle exactly when the blob holds one.
proof fn lemma_triangle_iff(coords: Seq<(IVec2, Entity)>, ids: Seq<Entity>, store: Seq<(Entity, Block)>)
    requires
        lists_blob(coords, ids, store),
        forall|m: int|
            0 <= m < coords.len() ==> (#[trigger] coords[m]).0.x < i32::MAX && coords[m].0.y
                < i32::MAX,
    ensures
        (triangle_from(coords, 0) is Some) == has_triangle(ids, store),
{
    if triangle_from(coords, 0) is Some {
        lemma_triangle_some(coords, ids, store);
    }
    if has_triangle(ids, store) {
        lemma_triangle_none(coords, ids, store);
    }
}

/// Tries to cutout a triangle from the demo blob: finds three blocks forming a triangle
/// (a block with its right and lower neighbour, taking the blocks in the order of
/// `coordinates`, which maps the relative positions of the blob's blocks to the blocks),
/// removes them from the blob, makes their relative positions relative to the first of them
/// and returns the body and the blob of the new, cut out blob: its pivot is that block's
/// field coordinate, it stands still and is active.
pub fn cutout_triangle_from_blob(
    blobdata: &mut GridBody,
    coordinates: &Vec<(IVec2, Entity)>,
    block_query: &mut Vec<(Entity, Block)>,
) -> (r: Option<(GridBody, Blob)>)
    requires
        lists_blob(coordinates@, old(blobdata).blocks@, old(block_query)@),
        forall|i: int|
            0 <= i < coordinates@.len() ==> (#[trigger] coordinates@[i]).0.x < i32::MAX
                && coordinates@[i].0.y < i32::MAX,
        forall|i: int, j: int|
            0 <= i < j < coordinates@.len() ==> #[trigger] coordinates@[i].1
                != #[trigger] coordinates@[j].1,
        ids_distinct(old(block_query)@),
        triangle_from(coordinates@, 0) matches Some((x, _, _)) ==> rel_of(old(block_query)@, x).can_add(
            old(blobdata).pivot,
        ),
    ensures
        (r is Some) == has_triangle(old(blobdata).blocks@, old(block_query)@),
        match triangle_from(coordinates@, 0) {
            None => r is None && *final(blobdata) == *old(blobdata) && final(block_query)@ == old(
                block_query,
            )@,
            Some((a, b, c)) => {
                let offset = rel_of(old(block_query)@, a);
                &&& r matches Some((nb, blob)) && nb.pivot == offset.spec_plus(old(blobdata).pivot)
                    && nb.blocks@ == seq![a, b, c] && !nb.transferred
                    && blob == (Blob { movement: IVec2 { x: 0, y: 0 }, active: true, cutout: true })
                &&& final(blobdata).pivot == old(blobdata).pivot
                &&& final(blobdata).transferred == old(blobdata).transferred
                &&& final(blobdata).blocks@ == crate::field::blob::without(
                    old(blobdata).blocks@,
                    seq![a, b, c],
                )
                &&& same_ids(final(block_query)@, old(block_query)@)
                &&& forall|k: int|
                    0 <= k < old(block_query)@.len() ==> #[trigger] final(block_query)@[k].1 == if seq![a, b, c].contains(
                        old(block_query)@[k].0,
                    ) {
                        shifted_block(old(block_query)@[k].1, offset)
                    } else {
                        old(block_query)@[k].1
                    }
            },
        },
{
    proof {
        lemma_triangle_iff(coordinates@, blobdata.blocks@, block_query@);
    }
    // find the triangle
    let mut found: Option<(Entity, Entity, Entity)> = None;
    let mut i: usize = 0;
    while i < coordinates.len() && found.is_none()
        invariant
            i <= coordinates@.len(),
            forall|m: int|
                0 <= m < coordinates@.len() ==> (#[trigger] coordinates@[m]).0.x < i32::MAX
                    && coordinates@[m].0.y < i32::MAX,
            found is None ==> triangle_from(coordinates@, 0) == triangle_from(coordinates@, i as int),
            found matches Some(t) ==> triangle_from(coordinates@, 0) == Some(t),
        decreases coordinates@.len() - i,
    {
        let (coord, block) = coordinates[i];
        let a = find_coordinate(coordinates, IVec2::new(coord.x + 1, coord.y));
        let b = find_coordinate(coordinates, IVec2::new(coord.x, coord.y + 1));
        if let (Some(a), Some(b)) = (a, b) {
            found = Some((block, a, b));
        }
        i = i + 1;
    }
    if let Some((a, b, c)) = found {
        let ghost store0 = block_query@;
        proof {
            lemma_triangle_witness(coordinates@, 0);
            let (p, q, w) = choose|p: int, q: int, w: int|
                0 <= p < coordinates@.len() && 0 <= q < coordinates@.len() && 0 <= w
                    < coordinates@.len() && p != q && p != w && q != w
                    && #[trigger] coordinates@[p].1 == a && #[trigger] coordinates@[q].1 == b
                    && #[trigger] coordinates@[w].1 == c && coordinates@[q].0 == right_of(
                    coordinates@[p].0,
                ) && coordinates@[w].0 == below(coordinates@[p].0);
            assert(a != b && a != c && b != c);
            assert(lookup_block(store0, a) is Some && lookup_block(store0, b) is Some && lookup_block(store0, c) is Some
                && rel_of(store0, a) == coordinates@[p].0 && rel_of(store0, b) == coordinates@[q].0
                && rel_of(store0, c) == coordinates@[w].0
                && lookup_block(store0, a).unwrap().relative_position is Some
                && lookup_block(store0, b).unwrap().relative_position is Some
                && lookup_block(store0, c).unwrap().relative_position is Some) by {
                reveal(entries_of_blob);
                let cp = coordinates@[p];
                let cq = coordinates@[q];
                let cw = coordinates@[w];
            }
        }
        let ka = find_block(block_query, a).unwrap();
        let pivot_block_coordinate = block_query[ka].1.relative_position.unwrap();
        let pivot = pivot_block_coordinate.plus(blobdata.pivot);
        let blocks = vec![a, b, c];
        // remove the blocks from the blob
        let mut remaining: Vec<Entity> = Vec::new();
        let mut j: usize = 0;
        while j < blobdata.blocks.len()
            invariant
                j <= blobdata.blocks@.len(),
                blocks@ == seq![a, b, c],
                remaining@ == crate::field::blob::without(blobdata.blocks@.take(j as int), blocks@),
            decreases blobdata.blocks@.len() - j,
        {
            let el = blobdata.blocks[j];
            proof {
                assert(blobdata.blocks@.take(j + 1).drop_last() =~= blobdata.blocks@.take(j as int));
            }
            if !crate::field::contains_entity(&blocks, el) {
                remaining.push(el);
            }
            j = j + 1;
        }
        proof {
            assert(blobdata.blocks@.take(blobdata.blocks@.len() as int) =~= blobdata.blocks@);
        }
        blobdata.blocks = remaining;
        // relative positions relative to the first block
        let ghost start = block_query@;
        let mut m: usize = 0;
        while m < 3
            invariant
                m <= 3,
                blocks@ == seq![a, b, c],
                ids_distinct(start),
                same_ids(block_query@, start),
                blocks@[0] != blocks@[1] && blocks@[0] != blocks@[2] && blocks@[1] != blocks@[2],
                forall|q: int|
                    0 <= q < 3 ==> (lookup_block(start, #[trigger] blocks@[q]) matches Some(bb)
                        && bb.relative_position matches Some(rp) && rp.can_sub(pivot_block_coordinate)),
                forall|k: int|
                    0 <= k < start.len() ==> #[trigger] block_query@[k].1 == if blocks@.take(m as int).contains(
                        start[k].0,
                    ) {
                        shifted_block(start[k].1, pivot_block_coordinate)
                    } else {
                        start[k].1
                    },
            decreases 3 - m,
        {
            let id = blocks[m];
            let ghost before = block_query@;
            proof {
                crate::field::lemma_index_of_block(start, id);
                crate::field::lemma_index_of_block(block_query@, id);
                if index_of_block(block_query@, id) is None {
                    let j = index_of_block(start, id).unwrap();
                    assert(block_query@[j].0 == id);
                }
            }
            let k = find_block(block_query, id).unwrap();
            let (e, bl) = block_query[k];
            proof {
                assert(before[k as int].0 == start[k as int].0);
                assert(!blocks@.take(m as int).contains(id)) by {
                    if blocks@.take(m as int).contains(id) {
                        let w = choose|w: int| 0 <= w < m && #[trigger] blocks@.take(m as int)[w] == id;
                        assert(blocks@[w] == id);
                    }
                }
                assert(bl == start[k as int].1);
                assert(lookup_block(start, blocks@[m as int]) == Some(start[k as int].1));
            }
            let rp = bl.relative_position.unwrap();
            let shifted = Block { relative_position: Some(rp.minus(pivot_block_coordinate)), ..bl };
            block_query.set(k, (e, shifted));
            proof {
                assert(blocks@.take(m + 1) =~= blocks@.take(m as int).push(id));
                assert forall|q: int| 0 <= q < start.len() implies #[trigger] block_query@[q].1
                    == if blocks@.take(m + 1).contains(start[q].0) {
                    shifted_block(start[q].1, pivot_block_coordinate)
                } else {
                    start[q].1
                } by {
                    if q != k {
                        assert(start[q].0 != start[k as int].0);
                        assert(block_query@[q] == before[q]);
                        if blocks@.take(m + 1).contains(start[q].0) {
                            let w = choose|w: int| 0 <= w < m + 1 && #[trigger] blocks@.take(m + 1)[w] == start[q].0;
                            assert(w < m);
                            assert(blocks@.take(m as int)[w] == start[q].0);
                        }
                        if blocks@.take(m as int).contains(start[q].0) {
                            let w = choose|w: int| 0 <= w < m && #[trigger] blocks@.take(m as int)[w] == start[q].0;
                            assert(blocks@.take(m + 1)[w] == start[q].0);
                        }
                    } else {
                        assert(blocks@.take(m + 1)[m as int] == id);
                    }
                }
            }
            m = m + 1;
        }
        proof {
            assert(blocks@.take(3) =~= blocks@);
        }
        Some(
            (
                GridBody { pivot, blocks, transferred: false },
                Blob { movement: IVec2::zero(), active: true, cutout: true },
            ),
        )
    } else {
        None
    }
}

} // verus!

//! The blob module consists of the main struct [`Blob`] that is used to control a solid blob,
//! e.g. a tetris stone on the field, and the [`GridBody`] that gives blobs and tools their shape.

use vstd::prelude::*;

use super::{find_block, lookup_block, Block};
use crate::math::{Entity, IVec2};
use crate::view::{can_turn, rotate_coord, rotated, Rotation, ViewUpdate};

verus! {

/// Whether no two entries of the store have the same entity.
pub open spec fn ids_distinct(store: Seq<(Entity, Block)>) -> bool {
    forall|i: int, j: int|
        0 <= i < store.len() && 0 <= j < store.len() && i != j ==> #[trigger] store[i].0
            != #[trigger] store[j].0
}

/// Whether two stores hold the same entities in the same order.
pub open spec fn same_ids(a: Seq<(Entity, Block)>, b: Seq<(Entity, Block)>) -> bool {
    a.len() == b.len() && forall|k: int| 0 <= k < a.len() ==> #[trigger] a[k].0 == b[k].0
}

/// The relative positions of the blocks `ids` that the store holds, in order.
pub open spec fn relative_positions_of(ids: Seq<Entity>, store: Seq<(Entity, Block)>) -> Seq<IVec2>
    decreases ids.len(),
{
    if ids.len() == 0 {
        Seq::empty()
    } else {
        let rest = relative_positions_of(ids.drop_last(), store);
        match lookup_block(store, ids.last()) {
            Some(b) => rest.push(b.relative_position.unwrap()),
            None => rest,
        }
    }
}

/// Whether a block can be turned to the left around `pivot` with all numbers inside `i32`.
pub open spec fn turns_left_in_range(b: Block, pivot: IVec2) -> bool {
    b.relative_position matches Some(rp) && can_turn(rp, Rotation::Left) && rotated(
        rp,
        Rotation::Left,
    ).can_add(pivot)
}

/// A block after it was turned around the pivot `pivot` of its body to the left.
pub open spec fn turned_left(b: Block, pivot: IVec2) -> Block {
    let rel = rotated(b.relative_position.unwrap(), Rotation::Left);
    Block { relative_position: Some(rel), position: rel.spec_plus(pivot), ..b }
}

/// A block after it was turned around the pivot `pivot` of its body to the right; a block
/// without relative position lands on the pivot.
pub open spec fn turned_right(b: Block, pivot: IVec2) -> Block {
    match b.relative_position {
        Some(rp) => {
            let rel = rotated(rp, Rotation::Right);
            Block { relative_position: Some(rel), position: rel.spec_plus(pivot), ..b }
        },
        None => Block { relative_position: None, position: pivot, ..b },
    }
}

/// The store after the blocks of group `id` turned left around `pivot`.
pub open spec fn turned_store_left(s: Seq<(Entity, Block)>, id: Entity, pivot: IVec2) -> Seq<(Entity, Block)> {
    Seq::new(
        s.len(),
        |k: int|
            (s[k].0, if s[k].1.group == Some(id) {
                turned_left(s[k].1, pivot)
            } else {
                s[k].1
            }),
    )
}

/// The store after the blocks of group `id` turned right around `pivot`.
pub open spec fn turned_store_right(s: Seq<(Entity, Block)>, id: Entity, pivot: IVec2) -> Seq<(Entity, Block)> {
    Seq::new(
        s.len(),
        |k: int|
            (s[k].0, if s[k].1.group == Some(id) {
                turned_right(s[k].1, pivot)
            } else {
                s[k].1
            }),
    )
}

/// The entities of `ids` that are not listed in `cut`, in order.
pub open spec fn without(ids: Seq<Entity>, cut: Seq<Entity>) -> Seq<Entity>
    decreases ids.len(),
{
    if ids.len() == 0 {
        Seq::empty()
    } else {
        let rest = without(ids.drop_last(), cut);
        if cut.contains(ids.last()) {
            rest
        } else {
            rest.push(ids.last())
        }
    }
}

/// A block after it was handed to a cut out blob `new_blob` with pivot `new_pivot`.
pub open spec fn handed_over(b: Block, new_blob: Entity, new_pivot: IVec2) -> Block {
    Block {
        group: Some(new_blob),
        relative_position: Some(b.position.spec_minus(new_pivot)),
        ..b
    }
}

/// A component that represents a body on the grid. It supports rotation along it pivot
/// and provides a cutout function that can be used to cutout a [`Blob`] from anther [`Blob`].
/// Beside the definition of [`Blob`] it also gives tools a shape on the field
#[derive(Debug, Default, PartialEq, Eq, Clone)]
pub struct GridBody {
    /// the pivot of the blob that defines the center
    pub pivot: IVec2,
    /// a list of blocks that belong to this blob
    pub blocks: Vec<Entity>,
    /// a flag indicting of the body has already been teleported to the production field
    pub transferred: bool,
}

impl GridBody {
    /// Generates a new GridBody at the specified position
    pub fn new(position: IVec2) -> (r: GridBody)
        ensures
            r.pivot == position,
            r.blocks@ == Seq::<Entity>::empty(),
            !r.transferred,
    {
        GridBody { pivot: position, blocks: Vec::new(), transferred: false }
    }

    /// The relative positions of those blocks of the body that the store holds, in the
    /// order of the body's blocks.
    pub fn get_relative_positions(&self, block_query: &Vec<(Entity, Block)>) -> (r: Vec<IVec2>)
        requires
            forall|i: int|
                0 <= i < self.blocks@.len() ==> (lookup_block(
                    block_query@,
                    #[trigger] self.blocks@[i],
                ) matches Some(b) ==> b.relative_position is Some),
        ensures
            r@ == relative_positions_of(self.blocks@, block_query@),
    {
        let mut reval: Vec<IVec2> = Vec::new();
        let mut i: usize = 0;
        while i < self.blocks.len()
            invariant
                i <= self.blocks@.len(),
                forall|k: int|
                    0 <= k < self.blocks@.len() ==> (lookup_block(
                        block_query@,
                        #[trigger] self.blocks@[k],
                    ) matches Some(b) ==> b.relative_position is Some),
                reval@ == relative_positions_of(self.blocks@.take(i as int), block_query@),
            decreases self.blocks@.len() - i,
        {
            let block_id = self.blocks[i];
            proof {
                assert(self.blocks@.take(i + 1).drop_last() =~= self.blocks@.take(i as int));
                assert(self.blocks@.take(i + 1).last() == block_id);
            }
            if let Some(k) = find_block(block_query, block_id) {
                let rel = block_query[k].1.relative_position;
                if let Some(rp) = rel {
                    reval.push(rp);
                }
            }
            i = i + 1;
        }
        proof {
            assert(self.blocks@.take(self.blocks@.len() as int) =~= self.blocks@);
        }
        reval
    }

    /// Performs a Cutout operations by forming a second blob from the given entities.
    ///
    /// The cut out blocks leave this body; every block of `cutout_blocks` that the store
    /// holds now belongs to `new_blob_id` and lies relative to `new_pivot`, the pivot of the
    /// second blob in field coordinates. Returns the event that informs the renderer and the
    /// body and the blob of the second blob: all of `cutout_blocks` around `new_pivot`, a
    /// blob that was cut out.
    pub fn cutout(
        &mut self,
        cutout_blocks: &Vec<Entity>,
        new_pivot: IVec2,
        new_blob_id: Entity,
        block_query: &mut Vec<(Entity, Block)>,
    ) -> (r: (ViewUpdate, GridBody, Blob))
        requires
            ids_distinct(old(block_query)@),
            forall|k: int|
                0 <= k < old(block_query)@.len() && cutout_blocks@.contains(
                    #[trigger] old(block_query)@[k].0,
                ) ==> old(block_query)@[k].1.position.can_sub(new_pivot),
        ensures
            r.0 == ViewUpdate::BlobCutout(new_blob_id),
            r.1.pivot == new_pivot,
            r.1.blocks@ == cutout_blocks@,
            !r.1.transferred,
            r.2 == (Blob { movement: IVec2 { x: 0, y: 1 }, active: true, cutout: true }),
            final(self).pivot == old(self).pivot,
            final(self).transferred == old(self).transferred,
            final(self).blocks@ == without(old(self).blocks@, cutout_blocks@),
            same_ids(final(block_query)@, old(block_query)@),
            forall|k: int|
                0 <= k < old(block_query)@.len() ==> #[trigger] final(block_query)@[k].1 == if cutout_blocks@.contains(
                    old(block_query)@[k].0,
                ) {
                    handed_over(old(block_query)@[k].1, new_blob_id, new_pivot)
                } else {
                    old(block_query)@[k].1
                },
    {
        // remove blocks from self
        let mut remaining: Vec<Entity> = Vec::new();
        let mut i: usize = 0;
        while i < self.blocks.len()
            invariant
                i <= self.blocks@.len(),
                remaining@ == without(self.blocks@.take(i as int), cutout_blocks@),
            decreases self.blocks@.len() - i,
        {
            let el = self.blocks[i];
            proof {
                assert(self.blocks@.take(i + 1).drop_last() =~= self.blocks@.take(i as int));
            }
            if !crate::field::contains_entity(cutout_blocks, el) {
                remaining.push(el);
            }
            i = i + 1;
        }
        proof {
            assert(self.blocks@.take(self.blocks@.len() as int) =~= self.blocks@);
        }
        self.blocks = remaining;

        // hand the blocks over to the new blob
        let ghost start = block_query@;
        let mut j: usize = 0;
        while j < cutout_blocks.len()
            invariant
                j <= cutout_blocks@.len(),
                ids_distinct(start),
                same_ids(block_query@, start),
                forall|k: int|
                    0 <= k < start.len() && cutout_blocks@.contains(#[trigger] start[k].0)
                        ==> start[k].1.position.can_sub(new_pivot),
                forall|k: int|
                    0 <= k < start.len() ==> #[trigger] block_query@[k].1 == if cutout_blocks@.take(
                        j as int,
                    ).contains(start[k].0) {
                        handed_over(start[k].1, new_blob_id, new_pivot)
                    } else {
                        start[k].1
                    },
            decreases cutout_blocks@.len() - j,
        {
            let block_id = cutout_blocks[j];
            let ghost before = block_query@;
            proof {
                assert(cutout_blocks@.contains(block_id));
            }
            if let Some(k) = find_block(block_query, block_id) {
                let (e, b) = block_query[k];
                proof {
                    assert(before[k as int].0 == start[k as int].0);
                    assert(b == if cutout_blocks@.take(j as int).contains(start[k as int].0) {
                        handed_over(start[k as int].1, new_blob_id, new_pivot)
                    } else {
                        start[k as int].1
                    });
                }
                let updated = Block {
                    group: Some(new_blob_id),
                    relative_position: Some(b.position.minus(new_pivot)),
                    ..b
                };
                block_query.set(k, (e, updated));
                proof {
                    assert(updated == handed_over(start[k as int].1, new_blob_id, new_pivot));
                    assert(cutout_blocks@.take(j + 1) =~= cutout_blocks@.take(j as int).push(
                        block_id,
                    ));
                    assert forall|m: int| 0 <= m < start.len() implies #[trigger] block_query@[m].1
                        == if cutout_blocks@.take(j + 1).contains(start[m].0) {
                        handed_over(start[m].1, new_blob_id, new_pivot)
                    } else {
                        start[m].1
                    } by {
                        if m != k {
                            assert(start[m].0 != start[k as int].0);
                            assert(block_query@[m] == before[m]);
                            if cutout_blocks@.take(j + 1).contains(start[m].0) {
                                let w = choose|w: int|
                                    0 <= w < j + 1 && #[trigger] cutout_blocks@.take(j + 1)[w] == start[m].0;
                                assert(w < j);
                                assert(cutout_blocks@.take(j as int)[w] == start[m].0);
                            }
                            if cutout_blocks@.take(j as int).contains(start[m].0) {
                                let w = choose|w: int|
                                    0 <= w < j && #[trigger] cutout_blocks@.take(j as int)[w] == start[m].0;
                                assert(cutout_blocks@.take(j + 1)[w] == start[m].0);
                            }
                        } else {
                            assert(cutout_blocks@.take(j + 1)[j as int] == block_id);
                        }
                    }
                }
            } else {
                proof {
                    super::lemma_index_of_block(before, block_id);
                    assert(cutout_blocks@.take(j + 1) =~= cutout_blocks@.take(j as int).push(
                        block_id,
                    ));
                    assert forall|m: int| 0 <= m < start.len() implies #[trigger] block_query@[m].1
                        == if cutout_blocks@.take(j + 1).contains(start[m].0) {
                        handed_over(start[m].1, new_blob_id, new_pivot)
                    } else {
                        start[m].1
                    } by {
                        assert(before[m].0 != block_id);
                        if cutout_blocks@.take(j + 1).contains(start[m].0) {
                            let w = choose|w: int|
                                0 <= w < j + 1 && #[trigger] cutout_blocks@.take(j + 1)[w] == start[m].0;
                            assert(w < j);
                            assert(cutout_blocks@.take(j as int)[w] == start[m].0);
                        }
                        if cutout_blocks@.take(j as int).contains(start[m].0) {
                            let w = choose|w: int|
                                0 <= w < j && #[trigger] cutout_blocks@.take(j as int)[w] == start[m].0;
                            assert(cutout_blocks@.take(j + 1)[w] == start[m].0);
                        }
                    }
                }
            }
            j = j + 1;
        }
        proof {
            assert(cutout_blocks@.take(cutout_blocks@.len() as int) =~= cutout_blocks@);
        }

        // the body of the new blob and the event that informs the renderer
        let mut new_blocks: Vec<Entity> = Vec::new();
        let mut n: usize = 0;
        while n < cutout_blocks.len()
            invariant
                n <= cutout_blocks@.len(),
                new_blocks@ == cutout_blocks@.take(n as int),
            decreases cutout_blocks@.len() - n,
        {
            new_blocks.push(cutout_blocks[n]);
            proof {
                assert(cutout_blocks@.take(n + 1) =~= cutout_blocks@.take(n as int).push(cutout_blocks@[n as int]));
            }
            n = n + 1;
        }
        proof {
            assert(cutout_blocks@.take(cutout_blocks@.len() as int) =~= cutout_blocks@);
        }
        (
            ViewUpdate::BlobCutout(new_blob_id),
            GridBody { pivot: new_pivot, blocks: new_blocks, transferred: false },
            Blob::new_cutout(),
        )
    }

    /// the size is 9x9 fields - we decided for that magic number in one of the early meetings
    pub fn size() -> (r: usize)
        ensures
            r == 9,
    {
        9
    }

    /// The row major index of row `r` and column `c` in a 9x9 body.
    pub fn coords_to_idx(r: usize, c: usize) -> (i: usize)
        requires
            r * 9 + c <= usize::MAX,
        ensures
            i == r * 9 + c,
    {
        r * GridBody::size() + c
    }

    /// Rotates the blob left (counter-clock wise): every block of group `id` turns its
    /// relative position and takes its place around the pivot. Returns the event for the
    /// renderer.
    pub fn rotate_left(&mut self, block_iter: &mut Vec<(Entity, Block)>, id: Entity) -> (r:
        ViewUpdate)
        requires
            forall|k: int|
                0 <= k < old(block_iter)@.len() && (#[trigger] old(block_iter)@[k]).1.group == Some(
                    id,
                ) ==> turns_left_in_range(old(block_iter)@[k].1, old(self).pivot),
        ensures
            r == ViewUpdate::BlobRotated(id, Rotation::Left),
            *final(self) == *old(self),
            same_ids(final(block_iter)@, old(block_iter)@),
            forall|k: int|
                0 <= k < old(block_iter)@.len() ==> #[trigger] final(block_iter)@[k].1 == if old(
                    block_iter,
                )@[k].1.group == Some(id) {
                    turned_left(old(block_iter)@[k].1, old(self).pivot)
                } else {
                    old(block_iter)@[k].1
                },
            final(block_iter)@ == turned_store_left(old(block_iter)@, id, old(self).pivot),
    {
        let ghost start = block_iter@;
        let mut k: usize = 0;
        while k < block_iter.len()
            invariant
                k <= block_iter@.len(),
                same_ids(block_iter@, start),
                forall|m: int|
                    0 <= m < start.len() && (#[trigger] start[m]).1.group == Some(id)
                        ==> turns_left_in_range(start[m].1, self.pivot),
                forall|m: int|
                    0 <= m < start.len() ==> #[trigger] block_iter@[m].1 == if m < k && start[m].1.group
                        == Some(id) {
                        turned_left(start[m].1, self.pivot)
                    } else {
                        start[m].1
                    },
            decreases block_iter@.len() - k,
        {
            let (e, block) = block_iter[k];
            if block.group == Some(id) {
                proof {
                    assert(start[k as int].1.group == Some(id));
                }
                let rp = block.relative_position.unwrap();
                let rel = rotate_coord(rp, Rotation::Left);
                let turned = Block {
                    relative_position: Some(rel),
                    position: rel.plus(self.pivot),
                    ..block
                };
                block_iter.set(k, (e, turned));
            }
            k = k + 1;
        }
        proof {
            let t = turned_store_left(start, id, self.pivot);
            assert forall|m: int| 0 <= m < start.len() implies #[trigger] block_iter@[m] == t[m] by {
                assert(block_iter@[m].0 == start[m].0);
            }
            assert(block_iter@ =~= t);
        }
        ViewUpdate::BlobRotated(id, Rotation::Left)
    }

    /// Rotates the blob right (clock wise): every block of group `id` turns its relative
    /// position and takes its place around the pivot; a block without relative position is
    /// put on the pivot. Returns the event for the renderer.
    pub fn rotate_right(&mut self, block_iter: &mut Vec<(Entity, Block)>, id: Entity) -> (r:
        ViewUpdate)
        requires
            forall|k: int|
                0 <= k < old(block_iter)@.len() && (#[trigger] old(block_iter)@[k]).1.group == Some(
                    id,
                ) ==> (old(block_iter)@[k].1.relative_position matches Some(rp) ==> can_turn(
                    rp,
                    Rotation::Right,
                ) && rotated(rp, Rotation::Right).can_add(old(self).pivot)),
        ensures
            r == ViewUpdate::BlobRotated(id, Rotation::Right),
            *final(self) == *old(self),
            same_ids(final(block_iter)@, old(block_iter)@),
            forall|k: int|
                0 <= k < old(block_iter)@.len() ==> #[trigger] final(block_iter)@[k].1 == if old(
                    block_iter,
                )@[k].1.group == Some(id) {
                    turned_right(old(block_iter)@[k].1, old(self).pivot)
                } else {
                    old(block_iter)@[k].1
                },
            final(block_iter)@ == turned_store_right(old(block_iter)@, id, old(self).pivot),
    {
        let ghost start = block_iter@;
        let mut k: usize = 0;
        while k < block_iter.len()
            invariant
                k <= block_iter@.len(),
                same_ids(block_iter@, start),
                forall|m: int|
                    0 <= m < start.len() && (#[trigger] start[m]).1.group == Some(id) ==> (
                    start[m].1.relative_position matches Some(rp) ==> can_turn(rp, Rotation::Right)
                        && rotated(rp, Rotation::Right).can_add(self.pivot)),
                forall|m: int|
                    0 <= m < start.len() ==> #[trigger] block_iter@[m].1 == if m < k && start[m].1.group
                        == Some(id) {
                        turned_right(start[m].1, self.pivot)
                    } else {
                        start[m].1
                    },
            decreases block_iter@.len() - k,
        {
            let (e, block) = block_iter[k];
            if block.group == Some(id) {
                proof {
                    assert(start[k as int].1.group == Some(id));
                }
                let turned = match block.relative_position {
                    Some(rp) => {
                        let rel = rotate_coord(rp, Rotation::Right);
                        Block { relative_position: Some(rel), position: rel.plus(self.pivot), ..block }
                    },
                    None => Block {
                        relative_position: None,
                        position: IVec2::zero().plus(self.pivot),
                        ..block
                    },
                };
                block_iter.set(k, (e, turned));
            }
            k = k + 1;
        }
        proof {
            let t = turned_store_right(start, id, self.pivot);
            assert forall|m: int| 0 <= m < start.len() implies #[trigger] block_iter@[m] == t[m] by {
                assert(block_iter@[m].0 == start[m].0);
            }
            assert(block_iter@ =~= t);
        }
        ViewUpdate::BlobRotated(id, Rotation::Right)
    }
}

/// The pivot cell of a 9x9 body: its center.
pub fn pivot_coord() -> (r: (usize, usize))
    ensures
        r == (4usize, 4usize),
{
    (4, 4)
}

/// The row major index of row `r` and column `c` in a grid with `cs` columns.
pub fn coords_to_idx(r: usize, c: usize, cs: usize) -> (i: usize)
    requires
        r * cs + c <= usize::MAX,
    ensures
        i == r * cs + c,
{
    r * cs + c
}

/// A blob is a connection of blocks that together form a movable stone
#[derive(Debug, Default, PartialEq, Eq, Clone, Copy, Structural)]
pub struct Blob {
    /// the movement direction that can be changed by tools
    pub movement: IVec2,
    /// information if the blob is active (receives movement updates, or not) (for pause after cutting)
    pub active: bool,
    /// a cutout blob is not part of the game anymore but only visual, we do want to get rid of it
    pub cutout: bool,
}

impl Blob {
    /// The main blob of a level: active and moving down.
    pub fn new_main() -> (r: Blob)
        ensures
            r.movement == (IVec2 { x: 0, y: 1 }),
            r.active,
            !r.cutout,
    {
        Blob { movement: IVec2::new(0, 1), active: true, cutout: false }
    }

    /// A blob that was cut out of another one: active, moving down and marked as cut out.
    pub fn new_cutout() -> (r: Blob)
        ensures
            r.movement == (IVec2 { x: 0, y: 1 }),
            r.active,
            r.cutout,
    {
        Blob { movement: IVec2::new(0, 1), active: true, cutout: true }
    }
}

/// Turning a block to the left and then to the right around the same pivot puts it back.
pub proof fn lemma_turn_left_then_right(b: Block, pivot: IVec2)
    requires
        turns_left_in_range(b, pivot),
        b.relative_position.unwrap().y != i32::MIN,
        b.position == b.relative_position.unwrap().spec_plus(pivot),
    ensures
        turned_right(turned_left(b, pivot), pivot) == b,
{
}

/// A cutout splits the blocks of a body: a block stays in the body exactly when it was in
/// it and was not cut out.
pub proof fn lemma_without_partition(ids: Seq<Entity>, cut: Seq<Entity>, x: Entity)
    ensures
        without(ids, cut).contains(x) <==> (ids.contains(x) && !cut.contains(x)),
    decreases ids.len(),
{
    if ids.len() > 0 {
        let rest = ids.drop_last();
        lemma_without_partition(rest, cut, x);
        assert(ids =~= rest.push(ids.last()));
        if without(ids, cut).contains(x) {
            if !cut.contains(ids.last()) && x == ids.last() {
                assert(ids[ids.len() - 1] == x);
            } else {
                assert(without(rest, cut).contains(x)) by {
                    if !cut.contains(ids.last()) {
                        let w = choose|w: int| 0 <= w < without(ids, cut).len() && without(ids, cut)[w] == x;
                        assert(w < without(rest, cut).len());
                        assert(without(rest, cut)[w] == x);
                    }
                }
                let w = choose|w: int| 0 <= w < rest.len() && rest[w] == x;
                assert(ids[w] == x);
            }
        }
        if ids.contains(x) && !cut.contains(x) {
            let w = choose|w: int| 0 <= w < ids.len() && ids[w] == x;
            if w < ids.len() - 1 {
                assert(rest[w] == x);
                let v = choose|v: int| 0 <= v < without(rest, cut).len() && without(rest, cut)[v] == x;
                if !cut.contains(ids.last()) {
                    assert(without(ids, cut)[v] == x);
                }
            } else {
                assert(without(ids, cut) == without(rest, cut).push(x));
                assert(without(ids, cut)[without(rest, cut).len() as int] == x);
            }
        }
    }
}

/// Rotating a blob to the left and then to the right restores every block of the store:
/// its relative position and its position, as long as each block of the blob lies at its
/// relative position around the pivot and the turns stay inside `i32`.
pub proof fn lemma_rotate_left_then_right(s: Seq<(Entity, Block)>, id: Entity, pivot: IVec2)
    requires
        forall|k: int|
            0 <= k < s.len() && (#[trigger] s[k]).1.group == Some(id) ==> turns_left_in_range(
                s[k].1,
                pivot,
            ) && s[k].1.relative_position.unwrap().y != i32::MIN && s[k].1.position
                == s[k].1.relative_position.unwrap().spec_plus(pivot),
    ensures
        turned_store_right(turned_store_left(s, id, pivot), id, pivot) == s,
{
    let l = turned_store_left(s, id, pivot);
    let r = turned_store_right(l, id, pivot);
    assert forall|k: int| 0 <= k < s.len() implies #[trigger] r[k] == s[k] by {
        if s[k].1.group == Some(id) {
            lemma_turn_left_then_right(s[k].1, pivot);
        }
    }
    assert(r =~= s);
}

} // verus!

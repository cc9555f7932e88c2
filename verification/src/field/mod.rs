//! The field module represents the root element of the game world via the [`Field`] struct.
//!
//! On the field the [`target::Target`] marks the shape that has to be filled by the player. Beside that
//! [`tool::Tool`]s and [`blob::Blob`]s which consists of [`Block`]s may inhabit a field.

pub mod blob;
pub mod field_element;
pub mod target;
pub mod tool;

use vstd::prelude::*;

use self::field_element::{
    bounds_contain, bounds_fit, bounds_legal, empty_element, FieldElement, FieldElementKind,
    FieldState,
};
use self::target::Target;
use self::tool::Tool;
use crate::data::bodies::BodyDefinition;
use crate::math::{find_entry, lookup_entry, Entity, IVec2};
use itertools::Itertools;

verus! {

//----------------------------------------------------------------------
// Block and the store of blocks

/// Reperesents a block that occupies a coordinate in the field
///
/// A block can either be part of a blob (a collection of blocks that form shapes like the
/// tetris stones) or of a tool that mutates the behavior of blobs that touch it.
#[derive(Debug, Clone, Copy, PartialEq, Eq, Structural)]
pub struct Block {
    /// the position of the block in the coordinate system of the field
    pub position: IVec2,
    /// the relative position of the block in respect to the parent grid body (if parent is a blob)
    pub relative_position: Option<IVec2>,
    /// the group management entity of this block, (e.g. a blob or a tool), if any
    pub group: Option<Entity>,
    /// Reference to the parent field of this block
    pub field: Entity,
}

/// The block stored under entity `id`: the first entry with that id.
pub open spec fn lookup_block(store: Seq<(Entity, Block)>, id: Entity) -> Option<Block>
    decreases store.len(),
{
    if store.len() == 0 {
        None
    } else if store[0].0 == id {
        Some(store[0].1)
    } else {
        lookup_block(store.drop_first(), id)
    }
}

/// The index of the first entry of `store` with entity `id`, if there is one.
pub open spec fn index_of_block(store: Seq<(Entity, Block)>, id: Entity) -> Option<int>
    decreases store.len(),
{
    if store.len() == 0 {
        None
    } else if store[0].0 == id {
        Some(0)
    } else {
        match index_of_block(store.drop_first(), id) {
            Some(i) => Some(i + 1),
            None => None,
        }
    }
}

/// The lookup finds the entry at the first index with the id.
pub proof fn lemma_index_of_block(store: Seq<(Entity, Block)>, id: Entity)
    ensures
        index_of_block(store, id) matches Some(i) ==> {
            &&& 0 <= i < store.len()
            &&& store[i].0 == id
            &&& lookup_block(store, id) == Some(store[i].1)
            &&& forall|j: int| 0 <= j < i ==> store[j].0 != id
        },
        index_of_block(store, id) is None ==> {
            &&& lookup_block(store, id) is None
            &&& forall|j: int| 0 <= j < store.len() ==> store[j].0 != id
        },
    decreases store.len(),
{
    if store.len() > 0 && store[0].0 != id {
        lemma_index_of_block(store.drop_first(), id);
        if let Some(i) = index_of_block(store.drop_first(), id) {
            assert forall|j: int| 0 <= j < i + 1 implies store[j].0 != id by {
                if j > 0 {
                    assert(store[j] == store.drop_first()[j - 1]);
                }
            }
        } else {
            assert forall|j: int| 0 <= j < store.len() implies store[j].0 != id by {
                if j > 0 {
                    assert(store[j] == store.drop_first()[j - 1]);
                }
            }
        }
    }
}

/// Finds the index of the block of entity `id` in `store`.
pub fn find_block(store: &Vec<(Entity, Block)>, id: Entity) -> (r: Option<usize>)
    ensures
        r matches Some(i) ==> index_of_block(store@, id) == Some(i as int),
        r is None ==> index_of_block(store@, id) is None,
        r matches Some(i) ==> i < store@.len() && store@[i as int].0 == id && lookup_block(
            store@,
            id,
        ) == Some(store@[i as int].1),
        r is None ==> lookup_block(store@, id) is None,
{
    proof {
        lemma_index_of_block(store@, id);
    }
    let mut i: usize = 0;
    while i < store.len()
        invariant
            i <= store@.len(),
            forall|j: int| 0 <= j < i ==> store@[j].0 != id,
        decreases store@.len() - i,
    {
        if store[i].0 == id {
            proof {
                lemma_first_match(store@, id, i as int);
                lemma_index_of_block(store@, id);
            }
            return Some(i);
        }
        i = i + 1;
    }
    proof {
        if let Some(k) = index_of_block(store@, id) {
            assert(store@[k].0 == id);
        }
    }
    None
}

/// The first entry with the id is at `i` when no earlier entry has it.
proof fn lemma_first_match(store: Seq<(Entity, Block)>, id: Entity, i: int)
    requires
        0 <= i < store.len(),
        store[i].0 == id,
        forall|j: int| 0 <= j < i ==> store[j].0 != id,
    ensures
        index_of_block(store, id) == Some(i),
    decreases i,
{
    if i > 0 {
        assert forall|j: int| 0 <= j < i - 1 implies store.drop_first()[j].0 != id by {
            assert(store.drop_first()[j] == store[j + 1]);
        }
        lemma_first_match(store.drop_first(), id, i - 1);
    }
}

/// The blocks to create for a body whose pivot lies at `pivot`, each with a flag telling
/// whether it is the pivot block; the pivot cell is skipped unless `handle_zero_position`.
pub open spec fn spawned_blocks(
    offsets: Seq<IVec2>,
    pivot: IVec2,
    group_id: Entity,
    field: Entity,
    handle_zero_position: bool,
) -> Seq<(Block, bool)>
    decreases offsets.len(),
{
    if offsets.len() == 0 {
        Seq::empty()
    } else {
        let rest = spawned_blocks(
            offsets.drop_last(),
            pivot,
            group_id,
            field,
            handle_zero_position,
        );
        let v = offsets.last();
        if v == (IVec2 { x: 0, y: 0 }) && !handle_zero_position {
            rest
        } else {
            rest.push(
                (
                    Block {
                        position: pivot.spec_plus(v),
                        group: Some(group_id),
                        relative_position: Some(v),
                        field,
                    },
                    v == (IVec2 { x: 0, y: 0 }),
                ),
            )
        }
    }
}

impl Block {
    /// The blocks that make up `body_def` when its pivot lies at `pivot`, in the order of the
    /// body's cells, each with a flag telling whether it is the pivot block. The pivot cell is
    /// left out unless `handle_zero_position` is set.
    pub fn spawn_blocks_of_blob(
        body_def: &BodyDefinition,
        pivot: IVec2,
        group_id: Entity,
        field: Entity,
        handle_zero_position: bool,
    ) -> (r: Vec<(Block, bool)>)
        requires
            crate::data::bodies::body_fits(
                body_def.block_positions@.len() as int,
                body_def.size,
                body_def.pivot,
            ),
            forall|i: int|
                0 <= i < body_def.relative_positions().len() ==> pivot.can_add(
                    #[trigger] body_def.relative_positions()[i],
                ),
        ensures
            r@ == spawned_blocks(
                body_def.relative_positions(),
                pivot,
                group_id,
                field,
                handle_zero_position,
            ),
    {
        let rel = body_def.get_relative_positions();
        let mut reval: Vec<(Block, bool)> = Vec::new();
        let mut i: usize = 0;
        while i < rel.len()
            invariant
                rel@ == body_def.relative_positions(),
                forall|k: int| 0 <= k < rel@.len() ==> pivot.can_add(#[trigger] rel@[k]),
                i <= rel@.len(),
                reval@ == spawned_blocks(
                    rel@.take(i as int),
                    pivot,
                    group_id,
                    field,
                    handle_zero_position,
                ),
            decreases rel@.len() - i,
        {
            let v = rel[i];
            proof {
                assert(rel@.take(i + 1).drop_last() =~= rel@.take(i as int));
                assert(rel@.take(i + 1).last() == v);
            }
            let is_zero = v.x == 0 && v.y == 0;
            if is_zero && !handle_zero_position {
            } else {
                let b = Block {
                    position: pivot.plus(v),
                    group: Some(group_id),
                    relative_position: Some(v),
                    field,
                };
                reval.push((b, is_zero));
            }
            i = i + 1;
        }
        proof {
            assert(rel@.take(rel@.len() as int) =~= rel@);
        }
        reval
    }
}

//----------------------------------------------------------------------
// Field

/// The field: a movable region with overlaps around it and the cached state of all its
/// coordinates.
#[derive(Debug, PartialEq)]
pub struct Field {
    pub movable_size: (usize, usize),
    pub overlap_left: u32,
    pub overlap_right: u32,
    pub overlap_top: u32,
    pub overlap_bottom: u32,
    /// the cached state of all coordinates, regenerated by [`Field::generate_field_state`]
    pub field_state: FieldState,
}

impl Clone for Field {
    fn clone(&self) -> Field {
        Field {
            movable_size: self.movable_size,
            overlap_left: self.overlap_left,
            overlap_right: self.overlap_right,
            overlap_top: self.overlap_top,
            overlap_bottom: self.overlap_bottom,
            field_state: self.field_state.clone(),
        }
    }
}

/// Whether a coordinate lies outside the movable region of size `mov`.
pub open spec fn out_of_movable(mov: (usize, usize), c: IVec2) -> bool {
    c.x < 0 || c.y < 0 || c.x >= mov.0 || c.y >= mov.1
}

/// What a cell of a freshly generated state holds before blocks are entered: outside the
/// movable region the overlap marker, on the target an empty target cell, else an empty cell.
pub open spec fn base_element(mov: (usize, usize), target_cells: Seq<(i32, i32)>, c: IVec2) -> FieldElement {
    if out_of_movable(mov, c) {
        FieldElement {
            is_target: false,
            entity: None,
            kind: FieldElementKind::OutOfMovableRegion,
            position: c,
        }
    } else if target_cells.contains((c.x, c.y)) {
        FieldElement { is_target: true, entity: None, kind: FieldElementKind::Empty, position: c }
    } else {
        empty_element(c)
    }
}

/// Whether a block belongs to a group that is neither a blob nor a tool.
pub open spec fn is_orphan(block: Block, blob_ids: Seq<Entity>, tool_ids: Seq<Entity>) -> bool {
    block.group matches Some(g) && !blob_ids.contains(g) && !tool_ids.contains(g)
}

/// The element that a block of entity `e` enters into a freshly generated state: its cell
/// is a target cell when the target covers the block's position; an orphan block keeps the
/// element of the former state `old`.
pub open spec fn block_element(
    old: FieldState,
    target_cells: Seq<(i32, i32)>,
    blob_ids: Seq<Entity>,
    tool_ids: Seq<Entity>,
    e: Entity,
    block: Block,
) -> FieldElement {
    let is_target = target_cells.contains((block.position.x, block.position.y));
    match block.group {
        Some(g) => if blob_ids.contains(g) {
            FieldElement {
                is_target,
                entity: Some(e),
                kind: FieldElementKind::Block(Some(g)),
                position: block.position,
            }
        } else if tool_ids.contains(g) {
            FieldElement {
                is_target,
                entity: Some(e),
                kind: FieldElementKind::Tool(g),
                position: block.position,
            }
        } else {
            old.element_at(block.position).unwrap()
        },
        None => FieldElement {
            is_target,
            entity: Some(e),
            kind: FieldElementKind::Block(None),
            position: block.position,
        },
    }
}

/// The element at `c` after the first `n` blocks were entered: the last of them that lies
/// at `c` decides, without one the base element stays.
pub open spec fn generated_element(
    mov: (usize, usize),
    target_cells: Seq<(i32, i32)>,
    old: FieldState,
    blob_ids: Seq<Entity>,
    tool_ids: Seq<Entity>,
    blocks: Seq<(Entity, Block)>,
    n: int,
    c: IVec2,
) -> FieldElement
    decreases n,
{
    if n <= 0 {
        base_element(mov, target_cells, c)
    } else if blocks[n - 1].1.position == c {
        block_element(old, target_cells, blob_ids, tool_ids, blocks[n - 1].0, blocks[n - 1].1)
    } else {
        generated_element(mov, target_cells, old, blob_ids, tool_ids, blocks, n - 1, c)
    }
}

impl Field {
    /// The cached state of the field.
    pub open spec fn state(&self) -> FieldState {
        self.field_state
    }

    /// The internal invariant of the field: its cached state is well formed.
    pub open spec fn wf(&self) -> bool {
        self.state().wf()
    }

    /// Whether the sizes of the field can be turned into `i32` bounds.
    pub open spec fn sizes_fit(&self) -> bool {
        &&& self.overlap_left <= i32::MAX
        &&& self.overlap_top <= i32::MAX
        &&& self.overlap_right <= i32::MAX
        &&& self.overlap_bottom <= i32::MAX
        &&& self.movable_size.0 + self.overlap_right <= i32::MAX
        &&& self.movable_size.1 + self.overlap_bottom <= i32::MAX
    }

    /// The first coordinate and the end coordinate (exclusive) of the field including its overlaps.
    pub open spec fn spec_bounds(&self) -> (IVec2, IVec2) {
        (
            IVec2 { x: -self.overlap_left as i32, y: -self.overlap_top as i32 },
            IVec2 {
                x: (self.movable_size.0 + self.overlap_right) as i32,
                y: (self.movable_size.1 + self.overlap_bottom) as i32,
            },
        )
    }

    /// The factory field: 10x24 movable cells with overlaps of 4 on the left, right and top.
    pub fn as_factory() -> (r: Field)
        ensures
            r.wf(),
            r.movable_size == (10usize, 24usize),
            r.overlap_left == 4,
            r.overlap_right == 4,
            r.overlap_top == 4,
            r.overlap_bottom == 0,
            r.state().spec_bounds() == (IVec2 { x: 0, y: 0 }, IVec2 { x: 0, y: 0 }),
    {
        Field {
            movable_size: (10, 24),
            overlap_left: 4,
            overlap_right: 4,
            overlap_top: 4,
            overlap_bottom: 0,
            field_state: FieldState::default(),
        }
    }

    /// The production field: 10x18 movable cells with an overlap of 10 on the top.
    pub fn as_production_field() -> (r: Field)
        ensures
            r.wf(),
            r.movable_size == (10usize, 18usize),
            r.overlap_left == 0,
            r.overlap_right == 0,
            r.overlap_top == 10,
            r.overlap_bottom == 0,
            r.state().spec_bounds() == (IVec2 { x: 0, y: 0 }, IVec2 { x: 0, y: 0 }),
    {
        Field {
            movable_size: (10, 18),
            overlap_left: 0,
            overlap_right: 0,
            overlap_top: 10,
            overlap_bottom: 0,
            field_state: FieldState::default(),
        }
    }

    /// The first coordinate and the end coordinate (exclusive) of the field including its overlaps.
    pub fn bounds(&self) -> (r: (IVec2, IVec2))
        requires
            self.sizes_fit(),
        ensures
            r == self.spec_bounds(),
    {
        (
            IVec2::new(-(self.overlap_left as i32), -(self.overlap_top as i32)),
            IVec2::new(
                self.mov_size().0 as i32 + self.overlap_right as i32,
                self.mov_size().1 as i32 + self.overlap_bottom as i32,
            ),
        )
    }

    /// The cached state of the field.
    pub fn get_field_state(&self) -> (r: &FieldState)
        ensures
            *r == self.state(),
    {
        &self.field_state
    }

    /// The size of the movable region.
    pub fn mov_size(&self) -> (r: (usize, usize))
        ensures
            r == self.movable_size,
    {
        self.movable_size
    }

    /// Regenerates the cached field state from the blocks on the field.
    ///
    /// Cells outside the movable region are marked as such, target cells are marked as
    /// targets, and then every block enters its element at its position in the given order:
    /// blocks of a blob (an id of `blob_ids`) as blob blocks, blocks of a tool (an id of
    /// `tool_ids`) as tool cells, blocks without group as loose blocks. A block's cell is a
    /// target cell when the target covers it. A block whose group is neither a blob
    /// nor a tool keeps the former element at its position.
    pub fn generate_field_state(
        &mut self,
        blocks: &Vec<(Entity, Block)>,
        tool_ids: &Vec<Entity>,
        blob_ids: &Vec<Entity>,
        target: &Target,
    )
        requires
            old(self).wf(),
            old(self).sizes_fit(),
            bounds_legal(old(self).spec_bounds()),
            bounds_fit(old(self).spec_bounds()),
            target.can_list(),
            forall|i: int|
                0 <= i < blocks@.len() && is_orphan(#[trigger] blocks@[i].1, blob_ids@, tool_ids@)
                    ==> old(self).state().contains(blocks@[i].1.position),
        ensures
            final(self).wf(),
            final(self).movable_size == old(self).movable_size,
            final(self).overlap_left == old(self).overlap_left,
            final(self).overlap_right == old(self).overlap_right,
            final(self).overlap_top == old(self).overlap_top,
            final(self).overlap_bottom == old(self).overlap_bottom,
            final(self).state().spec_bounds() == old(self).spec_bounds(),
            forall|c: IVec2| #[trigger]
                final(self).state().element_at(c) == if bounds_contain(old(self).spec_bounds(), c) {
                    Some(
                        generated_element(
                            old(self).movable_size,
                            target.spec_occupied(),
                            old(self).state(),
                            blob_ids@,
                            tool_ids@,
                            blocks@,
                            blocks@.len() as int,
                            c,
                        ),
                    )
                } else {
                    None
                },
    {
        let bounds = self.bounds();
        let mov = self.mov_size();
        let ghost old_field = *old(self);
        let mut old_state = FieldState::new(bounds);
        std::mem::swap(&mut old_state, &mut self.field_state);
        let targets = target.occupied_coordinates();

        // cells outside of the movable region and target cells
        let mut x = bounds.0.x;
        while x < bounds.1.x
            invariant
                self.field_state.wf(),
                self.overlap_left == old_field.overlap_left,
                self.overlap_right == old_field.overlap_right,
                self.overlap_top == old_field.overlap_top,
                self.overlap_bottom == old_field.overlap_bottom,
                self.movable_size == mov,
                mov.0 <= i32::MAX,
                mov.1 <= i32::MAX,
                bounds == old_field.spec_bounds(),
                bounds_fit(bounds),
                self.field_state.spec_bounds() == bounds,
                bounds.0.x <= x <= bounds.1.x,
                forall|c: IVec2| #[trigger]
                    self.field_state.element_at(c) == if !bounds_contain(bounds, c) {
                        None
                    } else if c.x < x {
                        Some(base_element(mov, targets@, c))
                    } else {
                        Some(empty_element(c))
                    },
            decreases bounds.1.x - x,
        {
            let mut y = bounds.0.y;
            while y < bounds.1.y
                invariant
                    self.field_state.wf(),
                    bounds_fit(bounds),
                    self.overlap_left == old_field.overlap_left,
                    self.overlap_right == old_field.overlap_right,
                    self.overlap_top == old_field.overlap_top,
                    self.overlap_bottom == old_field.overlap_bottom,
                    self.movable_size == mov,
                    mov.0 <= i32::MAX,
                    mov.1 <= i32::MAX,
                    self.field_state.spec_bounds() == bounds,
                    bounds.0.x <= x < bounds.1.x,
                    bounds.0.y <= y <= bounds.1.y,
                    forall|c: IVec2| #[trigger]
                        self.field_state.element_at(c) == if !bounds_contain(bounds, c) {
                            None
                        } else if c.x < x || (c.x == x && c.y < y) {
                            Some(base_element(mov, targets@, c))
                        } else {
                            Some(empty_element(c))
                        },
                decreases bounds.1.y - y,
            {
                let pos = IVec2::new(x, y);
                let ghost before = self.field_state;
                if x < 0 || y < 0 || x >= mov.0 as i32 || y >= mov.1 as i32 {
                    self.field_state.set_element(
                        pos,
                        FieldElement {
                            is_target: false,
                            entity: None,
                            kind: FieldElementKind::OutOfMovableRegion,
                            position: pos,
                        },
                    );
                } else {
                    let is_target = contains_pair(&targets, (x, y));
                    if is_target {
                        self.field_state.set_element(
                            pos,
                            FieldElement {
                                is_target: true,
                                entity: None,
                                kind: FieldElementKind::Empty,
                                position: pos,
                            },
                        );
                    }
                }
                proof {
                    assert(base_element(mov, targets@, pos) == self.field_state.element_at(
                        pos,
                    ).unwrap());
                }
                y = y + 1;
            }
            x = x + 1;
        }

        // the blocks
        let mut i: usize = 0;
        while i < blocks.len()
            invariant
                self.field_state.wf(),
                self.overlap_left == old_field.overlap_left,
                self.overlap_right == old_field.overlap_right,
                self.overlap_top == old_field.overlap_top,
                self.overlap_bottom == old_field.overlap_bottom,
                self.movable_size == mov,
                self.field_state.spec_bounds() == bounds,
                old_state == old_field.state(),
                old_state.wf(),
                i <= blocks@.len(),
                forall|k: int|
                    0 <= k < blocks@.len() && is_orphan(#[trigger] blocks@[k].1, blob_ids@, tool_ids@)
                        ==> old_state.contains(blocks@[k].1.position),
                forall|c: IVec2| #[trigger]
                    self.field_state.element_at(c) == if !bounds_contain(bounds, c) {
                        None
                    } else {
                        Some(
                            generated_element(
                                mov,
                                targets@,
                                old_state,
                                blob_ids@,
                                tool_ids@,
                                blocks@,
                                i as int,
                                c,
                            ),
                        )
                    },
            decreases blocks@.len() - i,
        {
            let (entity, block) = blocks[i];
            let is_target = contains_pair(&targets, (block.position.x, block.position.y));
            let new_el = if let Some(group) = block.group {
                if contains_entity(blob_ids, group) {
                    FieldElement {
                        is_target,
                        entity: Some(entity),
                        kind: FieldElementKind::Block(Some(group)),
                        position: block.position,
                    }
                } else if contains_entity(tool_ids, group) {
                    FieldElement {
                        is_target,
                        entity: Some(entity),
                        kind: FieldElementKind::Tool(group),
                        position: block.position,
                    }
                } else {
                    assert(is_orphan(blocks@[i as int].1, blob_ids@, tool_ids@));
                    match old_state.get_element(block.position) {
                        Some(e) => e,
                        None => FieldElement {
                            is_target: false,
                            entity: None,
                            kind: FieldElementKind::Empty,
                            position: block.position,
                        },
                    }
                }
            } else {
                FieldElement {
                    is_target,
                    entity: Some(entity),
                    kind: FieldElementKind::Block(None),
                    position: block.position,
                }
            };
            assert(new_el == block_element(old_state, targets@, blob_ids@, tool_ids@, entity, block));
            self.field_state.set_element(block.position, new_el);
            i = i + 1;
        }
    }
}

//----------------------------------------------------------------------
// tools on the field and rendering ids

/// The tools that the cells of the state name, in row major order: for each tool cell the
/// tool entity and its tool.
pub open spec fn tool_cells(cells: Seq<FieldElement>, tools: Seq<(Entity, Tool)>) -> Seq<(Entity, Tool)>
    decreases cells.len(),
{
    if cells.len() == 0 {
        Seq::empty()
    } else {
        let rest = tool_cells(cells.drop_last(), tools);
        match cells.last().kind {
            FieldElementKind::Tool(te) => rest.push((te, lookup_entry(tools, te).unwrap())),
            _ => rest,
        }
    }
}

/// The entries whose entity was not seen before, in order: the first entry of each entity.
pub open spec fn first_of_each(items: Seq<(Entity, Tool)>) -> Seq<(Entity, Tool)>
    decreases items.len(),
{
    if items.len() == 0 {
        Seq::empty()
    } else {
        let rest = first_of_each(items.drop_last());
        if exists|i: int| 0 <= i < items.len() - 1 && #[trigger] items[i].0 == items.last().0 {
            rest
        } else {
            rest.push(items.last())
        }
    }
}

/// Keeps the first entry of each entity, by `Itertools::unique_by` keyed by the entity.
/// Claimed of the outside call, as its documentation says: it filters out the elements whose
/// key was produced before, keeps the first of each key and the order.
#[verifier::external_body]
fn unique_by_entity(items: Vec<(Entity, Tool)>) -> (r: Vec<(Entity, Tool)>)
    ensures
        r@ == first_of_each(items@),
{
    items.into_iter().unique_by(|p| p.0).collect()
}

/// Whether every tool cell of the state names an entity that `tools` knows.
pub open spec fn tools_known(cells: Seq<FieldElement>, tools: Seq<(Entity, Tool)>) -> bool {
    forall|i: int|
        0 <= i < cells.len() ==> ((#[trigger] cells[i]).kind matches FieldElementKind::Tool(te)
            ==> lookup_entry(tools, te) is Some)
}

/// The render id of a cell: its tool's number, 2 outside the movable region, -1 outside
/// the valid region, 0 otherwise.
pub open spec fn render_id_of(
    state: FieldState,
    mov: (usize, usize),
    tools: Seq<(Entity, Tool)>,
    r: i32,
    c: i32,
) -> i32 {
    match state.element_at(IVec2 { x: c, y: r }) {
        Some(element) => match element.kind {
            FieldElementKind::Empty => 0i32,
            FieldElementKind::OutOfMovableRegion => 2i32,
            FieldElementKind::OutOfValidRegion => -1i32,
            FieldElementKind::Block(_) => 0i32,
            FieldElementKind::Tool(te) => tool::tool_number(lookup_entry(tools, te).unwrap()),
        },
        None => if r < 0 || r >= mov.1 || c < 0 || c >= mov.0 {
            2i32
        } else {
            0i32
        },
    }
}

/// The width and height of a grid with the given bounds.
pub fn grid_dimensions(bounds: (IVec2, IVec2)) -> (r: (usize, usize))
    requires
        bounds.0.x <= bounds.1.x,
        bounds.0.y <= bounds.1.y,
        bounds.1.x - bounds.0.x <= i32::MAX,
        bounds.1.y - bounds.0.y <= i32::MAX,
    ensures
        r.0 == bounds.1.x - bounds.0.x,
        r.1 == bounds.1.y - bounds.0.y,
{
    ((bounds.1.x - bounds.0.x) as usize, (bounds.1.y - bounds.0.y) as usize)
}

/// Half of `v`, rounded towards zero.
pub open spec fn half_toward_zero(v: int) -> int {
    if v >= 0 {
        v / 2
    } else {
        -((-v) / 2)
    }
}

/// The cell that marks the pivot of a grid: half of the end coordinate of each axis,
/// rounded towards zero.
pub fn grid_pivot(bounds: (IVec2, IVec2)) -> (r: (i32, i32))
    requires
        bounds.0.x <= bounds.1.x,
        bounds.0.y <= bounds.1.y,
        bounds.1.x - bounds.0.x <= i32::MAX,
        bounds.1.y - bounds.0.y <= i32::MAX,
    ensures
        r.0 == half_toward_zero(bounds.1.x as int),
        r.1 == half_toward_zero(bounds.1.y as int),
{
    let d = grid_dimensions(bounds);
    ((d.0 as i32 + bounds.0.x) / 2, (d.1 as i32 + bounds.0.y) / 2)
}

impl Field {
    /// Lists the tools standing on the field, one entry per tool entity, in the row major
    /// order of their first cell; the caller removes them from the world and puts them back
    /// into the inventory.
    pub fn remove_all_tools(&self, tools: &Vec<(Entity, Tool)>) -> (r: Vec<(Entity, Tool)>)
        requires
            tools_known(self.state().cells(), tools@),
        ensures
            r@ == first_of_each(tool_cells(self.state().cells(), tools@)),
    {
        let state = self.get_field_state();
        let n = state.num_elements();
        let mut buffer: Vec<(Entity, Tool)> = Vec::new();
        let mut i: usize = 0;
        while i < n
            invariant
                *state == self.state(),
                n == state.cells().len(),
                i <= n,
                tools_known(state.cells(), tools@),
                buffer@ == tool_cells(state.cells().take(i as int), tools@),
            decreases n - i,
        {
            let e = state.element_by_index(i);
            proof {
                assert(state.cells().take(i + 1).drop_last() =~= state.cells().take(i as int));
                assert(state.cells().take(i + 1).last() == e);
            }
            if let FieldElementKind::Tool(tool_entity) = e.kind {
                let t = find_entry(tools, tool_entity).unwrap();
                buffer.push((tool_entity, t));
            }
            i = i + 1;
        }
        proof {
            assert(state.cells().take(n as int) =~= state.cells());
        }
        unique_by_entity(buffer)
    }

    /// The render id of the cell in row `r` and column `c`: the number of the tool standing
    /// there, 2 for the overlap, -1 outside the valid region and 0 for everything else.
    pub fn get_render_id(&self, r: i32, c: i32, tool_query: Option<&Vec<(Entity, Tool)>>) -> (id: i32)
        requires
            self.wf(),
            self.sizes_fit(),
            self.spec_bounds().0.y <= r < self.spec_bounds().1.y,
            self.spec_bounds().0.x <= c < self.spec_bounds().1.x,
            self.state().element_at(IVec2 { x: c, y: r }) matches Some(e) ==> (e.kind matches FieldElementKind::Tool(te) ==> (tool_query matches Some(q) && lookup_entry(q@, te) is Some)),
        ensures
            id == render_id_of(
                self.state(),
                self.movable_size,
                match tool_query {
                    Some(q) => q@,
                    None => Seq::empty(),
                },
                r,
                c,
            ),
    {
        let state = self.get_field_state();
        match state.get_element(IVec2::new(c, r)) {
            Some(element) => match element.kind {
                FieldElementKind::Empty => 0,
                FieldElementKind::OutOfMovableRegion => 2,
                FieldElementKind::OutOfValidRegion => -1,
                FieldElementKind::Block(_) => 0,
                FieldElementKind::Tool(tool_entity) => {
                    let query = tool_query.unwrap();
                    let tool = find_entry(query, tool_entity).unwrap();
                    tool.into()
                },
            },
            None => {
                if r < 0 || r >= self.mov_size().1 as i32 || c < 0 || c >= self.mov_size().0 as i32 {
                    // render the outside grid in gray
                    2
                } else {
                    // no field element kind found (e.g. during spawning)
                    0
                }
            },
        }
    }
}

/// Whether there is at least one block and every block belongs to the field `field_id`.
pub fn blocks_are_on_field(field_id: Entity, blocks: &Vec<Block>) -> (r: bool)
    ensures
        r == (blocks@.len() > 0 && forall|i: int| 0 <= i < blocks@.len() ==> (#[trigger] blocks@[i]).field == field_id),
{
    let mut at_least_one = false;
    let mut i: usize = 0;
    while i < blocks.len()
        invariant
            i <= blocks@.len(),
            at_least_one == (i > 0),
            forall|j: int| 0 <= j < i ==> (#[trigger] blocks@[j]).field == field_id,
        decreases blocks@.len() - i,
    {
        at_least_one = true;
        if blocks[i].field != field_id {
            return false;
        }
        i = i + 1;
    }
    at_least_one
}

impl Default for Field {
    /// A field of 10x18 movable cells with an overlap of 5 on the top.
    fn default() -> (r: Field)
        ensures
            r.wf(),
            r.movable_size == (10usize, 18usize),
            r.overlap_left == 0,
            r.overlap_right == 0,
            r.overlap_top == 5,
            r.overlap_bottom == 0,
            r.state().spec_bounds() == (IVec2 { x: 0, y: 0 }, IVec2 { x: 0, y: 0 }),
    {
        Field {
            movable_size: (10, 18),
            overlap_left: 0,
            overlap_right: 0,
            overlap_top: 5,
            overlap_bottom: 0,
            field_state: FieldState::default(),
        }
    }
}

/// Whether `v` holds the pair `p`.
pub fn contains_pair(v: &Vec<(i32, i32)>, p: (i32, i32)) -> (r: bool)
    ensures
        r == v@.contains(p),
{
    let mut i: usize = 0;
    while i < v.len()
        invariant
            i <= v@.len(),
            forall|j: int| 0 <= j < i ==> v@[j] != p,
        decreases v@.len() - i,
    {
        if v[i].0 == p.0 && v[i].1 == p.1 {
            assert(v@[i as int] == p);
            return true;
        }
        i = i + 1;
    }
    false
}

/// Whether `v` holds the entity `e`.
pub fn contains_entity(v: &Vec<Entity>, e: Entity) -> (r: bool)
    ensures
        r == v@.contains(e),
{
    let mut i: usize = 0;
    while i < v.len()
        invariant
            i <= v@.len(),
            forall|j: int| 0 <= j < i ==> v@[j] != e,
        decreases v@.len() - i,
    {
        if v[i] == e {
            assert(v@[i as int] == e);
            return true;
        }
        i = i + 1;
    }
    false
}

} // verus!

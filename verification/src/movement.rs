//! Movement of blobs: directions, move events and the rules that decide whether a blob moves.

use vstd::prelude::*;

use crate::field::blob::{relative_positions_of, same_ids, Blob, GridBody};
use crate::field::field_element::{FieldElement, FieldElementKind, FieldState};
use crate::field::{lookup_block, Block, Field};
use crate::math::{find_entry, lookup_entry, Entity, IVec2};
use crate::view::ViewUpdate;

verus! {

/// The direction for movement of an element in respect to a field
#[derive(Debug, Clone, Copy, PartialEq, Eq, Structural, Hash, Default)]
pub enum MoveDirection {
    #[default]
    Up,
    Right,
    Down,
    Left,
}

/// The number that stands for a move direction.
pub open spec fn move_number(d: MoveDirection) -> i32 {
    match d {
        MoveDirection::Up => 1,
        MoveDirection::Right => 2,
        MoveDirection::Down => 3,
        MoveDirection::Left => 4,
    }
}

/// The move direction that a number stands for, if any.
pub open spec fn move_of_number(v: i32) -> Option<MoveDirection> {
    if v == 1 {
        Some(MoveDirection::Up)
    } else if v == 2 {
        Some(MoveDirection::Right)
    } else if v == 3 {
        Some(MoveDirection::Down)
    } else if v == 4 {
        Some(MoveDirection::Left)
    } else {
        None
    }
}

/// The unit step of a move direction on the grid (`y` grows downwards).
pub open spec fn move_step(d: MoveDirection) -> IVec2 {
    match d {
        MoveDirection::Up => IVec2 { x: 0, y: -1i32 },
        MoveDirection::Right => IVec2 { x: 1, y: 0 },
        MoveDirection::Down => IVec2 { x: 0, y: 1 },
        MoveDirection::Left => IVec2 { x: -1i32, y: 0 },
    }
}

impl MoveDirection {
    /// The smallest number of a move direction, as a specification.
    pub open spec fn spec_min() -> i32 {
        1
    }

    /// The largest number of a move direction, as a specification.
    pub open spec fn spec_max() -> i32 {
        4
    }

    /// The smallest number of a move direction.
    pub fn min() -> (r: i32)
        ensures
            r == 1,
    {
        1
    }

    /// The largest number of a move direction.
    pub fn max() -> (r: i32)
        ensures
            r == 4,
    {
        4
    }

    /// The number of this direction.
    pub fn number(self) -> (r: i32)
        ensures
            r == move_number(self),
    {
        match self {
            MoveDirection::Up => 1,
            MoveDirection::Right => 2,
            MoveDirection::Down => 3,
            MoveDirection::Left => 4,
        }
    }
}

impl TryFrom<i32> for MoveDirection {
    type Error = ();

    fn try_from(value: i32) -> (r: Result<Self, Self::Error>) {
        if value == 1 {
            Ok(MoveDirection::Up)
        } else if value == 3 {
            Ok(MoveDirection::Down)
        } else if value == 4 {
            Ok(MoveDirection::Left)
        } else if value == 2 {
            Ok(MoveDirection::Right)
        } else {
            Err(())
        }
    }
}

impl vstd::std_specs::convert::TryFromSpecImpl<i32> for MoveDirection {
    open spec fn obeys_try_from_spec() -> bool {
        true
    }

    open spec fn try_from_spec(v: i32) -> Result<Self, Self::Error> {
        match move_of_number(v) {
            Some(d) => Ok(d),
            None => Err(()),
        }
    }
}

impl From<MoveDirection> for (i32, i32) {
    fn from(d: MoveDirection) -> (r: (i32, i32)) {
        match d {
            MoveDirection::Up => (0, -1),
            MoveDirection::Down => (0, 1),
            MoveDirection::Left => (-1, 0),
            MoveDirection::Right => (1, 0),
        }
    }
}

impl vstd::std_specs::convert::FromSpecImpl<MoveDirection> for (i32, i32) {
    open spec fn obeys_from_spec() -> bool {
        true
    }

    open spec fn from_spec(d: MoveDirection) -> (i32, i32) {
        (move_step(d).x, move_step(d).y)
    }
}

impl From<MoveDirection> for IVec2 {
    fn from(d: MoveDirection) -> (r: IVec2) {
        match d {
            MoveDirection::Up => IVec2 { x: 0, y: -1 },
            MoveDirection::Right => IVec2 { x: 1, y: 0 },
            MoveDirection::Down => IVec2 { x: 0, y: 1 },
            MoveDirection::Left => IVec2 { x: -1, y: 0 },
        }
    }
}

impl vstd::std_specs::convert::FromSpecImpl<MoveDirection> for IVec2 {
    open spec fn obeys_from_spec() -> bool {
        true
    }

    open spec fn from_spec(d: MoveDirection) -> IVec2 {
        move_step(d)
    }
}

/// The rotation of an element in respect to a field
#[derive(Debug, Clone, Copy, PartialEq, Eq, Structural, Hash, Default)]
pub enum RotateDirection {
    #[default]
    Left,
    Right,
}

/// The number that stands for a rotate direction.
pub open spec fn rotate_number(d: RotateDirection) -> i32 {
    match d {
        RotateDirection::Left => 1,
        RotateDirection::Right => 2,
    }
}

/// The rotate direction that a number stands for, if any.
pub open spec fn rotate_of_number(v: i32) -> Option<RotateDirection> {
    if v == 1 {
        Some(RotateDirection::Left)
    } else if v == 2 {
        Some(RotateDirection::Right)
    } else {
        None
    }
}

impl RotateDirection {
    /// The smallest number of a rotate direction.
    pub fn min() -> (r: i32)
        ensures
            r == 1,
    {
        1
    }

    /// The largest number of a rotate direction.
    pub fn max() -> (r: i32)
        ensures
            r == 2,
    {
        2
    }

    /// The number of this direction.
    pub fn number(self) -> (r: i32)
        ensures
            r == rotate_number(self),
    {
        match self {
            RotateDirection::Left => 1,
            RotateDirection::Right => 2,
        }
    }
}

impl TryFrom<i32> for RotateDirection {
    type Error = ();

    fn try_from(value: i32) -> (r: Result<Self, Self::Error>) {
        if value == 1 {
            Ok(RotateDirection::Left)
        } else if value == 2 {
            Ok(RotateDirection::Right)
        } else {
            Err(())
        }
    }
}

impl vstd::std_specs::convert::TryFromSpecImpl<i32> for RotateDirection {
    open spec fn obeys_try_from_spec() -> bool {
        true
    }

    open spec fn try_from_spec(v: i32) -> Result<Self, Self::Error> {
        match rotate_of_number(v) {
            Some(d) => Ok(d),
            None => Err(()),
        }
    }
}

/// A event that indicates that the Blob shall be moved, can be dispatched by
/// gravity, input and tools.
#[derive(Debug, Clone, Copy, PartialEq, Eq, Structural)]
pub struct BlobMoveEvent {
    pub delta: IVec2,
    pub entity: Entity,
}

//----------------------------------------------------------------------
// gravity

/// Whether the entries are ordered by their pivot row, top rows first.
pub open spec fn sorted_by_row(s: Seq<(Entity, i32)>) -> bool {
    forall|i: int, j: int| 0 <= i <= j < s.len() ==> #[trigger] s[i].1 <= #[trigger] s[j].1
}

/// The gravity events for the bodies `order`, in that order: one for each body that is an
/// active blob, moving it by the blob's movement.
pub open spec fn gravity_events(order: Seq<(Entity, i32)>, blobs: Seq<(Entity, Blob)>) -> Seq<
    BlobMoveEvent,
>
    decreases order.len(),
{
    if order.len() == 0 {
        Seq::empty()
    } else {
        let rest = gravity_events(order.drop_last(), blobs);
        match lookup_entry(blobs, order.last().0) {
            Some(b) => if b.active {
                rest.push(BlobMoveEvent { delta: b.movement, entity: order.last().0 })
            } else {
                rest
            },
            None => rest,
        }
    }
}

/// `s` with `item` inserted behind every entry whose row is not below the item's row.
pub open spec fn insert_by_row(s: Seq<(Entity, i32)>, item: (Entity, i32)) -> Seq<(Entity, i32)>
    decreases s.len(),
{
    if s.len() == 0 {
        seq![item]
    } else if item.1 < s[0].1 {
        seq![item] + s
    } else {
        seq![s[0]] + insert_by_row(s.drop_first(), item)
    }
}

/// The entries ordered by row, top rows first, each row in the order of the entries: the
/// result of a stable sort by row.
pub open spec fn rows_sorted(s: Seq<(Entity, i32)>) -> Seq<(Entity, i32)>
    decreases s.len(),
{
    if s.len() == 0 {
        Seq::empty()
    } else {
        insert_by_row(rows_sorted(s.drop_last()), s.last())
    }
}

/// Inserting by row puts the item at the first entry whose row lies below the item's row.
proof fn lemma_insert_by_row_at(s: Seq<(Entity, i32)>, item: (Entity, i32), p: int)
    requires
        0 <= p <= s.len(),
        forall|j: int| 0 <= j < p ==> #[trigger] s[j].1 <= item.1,
        p < s.len() ==> item.1 < s[p].1,
    ensures
        insert_by_row(s, item) == s.insert(p, item),
    decreases s.len(),
{
    if s.len() == 0 {
        assert(s.insert(p, item) =~= seq![item]);
    } else if item.1 < s[0].1 {
        if p > 0 {
            assert(s[0].1 <= item.1);
        }
        assert(s.insert(p, item) =~= seq![item] + s);
    } else {
        let t = s.drop_first();
        assert forall|j: int| 0 <= j < p - 1 implies #[trigger] t[j].1 <= item.1 by {
            assert(t[j] == s[j + 1]);
        }
        if p - 1 < t.len() {
            assert(t[p - 1] == s[p]);
        }
        lemma_insert_by_row_at(t, item, p - 1);
        assert(s.insert(p, item) =~= seq![s[0]] + t.insert(p - 1, item));
    }
}

/// Orders bodies by their pivot row, top rows first; bodies on one row keep their order.
pub fn sort_by_row(bodies: &Vec<(Entity, i32)>) -> (r: Vec<(Entity, i32)>)
    ensures
        r@ == rows_sorted(bodies@),
        sorted_by_row(r@),
        r@.to_multiset() == bodies@.to_multiset(),
{
    broadcast use vstd::seq_lib::group_to_multiset_ensures;

    let mut out: Vec<(Entity, i32)> = Vec::new();
    proof {
        assert(bodies@.take(0) =~= out@);
    }
    let mut i: usize = 0;
    while i < bodies.len()
        invariant
            i <= bodies@.len(),
            sorted_by_row(out@),
            out@.to_multiset() == bodies@.take(i as int).to_multiset(),
            out@ == rows_sorted(bodies@.take(i as int)),
        decreases bodies@.len() - i,
    {
        let item = bodies[i];
        let mut pos: usize = 0;
        while pos < out.len() && out[pos].1 <= item.1
            invariant
                pos <= out@.len(),
                forall|j: int| 0 <= j < pos ==> out@[j].1 <= item.1,
            decreases out@.len() - pos,
        {
            pos = pos + 1;
        }
        let ghost before = out@;
        out.insert(pos, item);
        proof {
            assert(bodies@.take(i + 1) =~= bodies@.take(i as int).push(item));
            assert(bodies@.take(i + 1).drop_last() =~= bodies@.take(i as int));
            lemma_insert_by_row_at(before, item, pos as int);
            vstd::seq_lib::to_multiset_insert(before, pos as int, item);
            vstd::seq_lib::to_multiset_build(bodies@.take(i as int), item);
            assert forall|a: int, b: int| 0 <= a <= b < out@.len() implies #[trigger] out@[a].1
                <= #[trigger] out@[b].1 by {
                if pos < before.len() {
                    assert(item.1 < before[pos as int].1);
                }
                if a < pos && b > pos {
                    assert(before[a].1 <= item.1);
                }
                if a == pos && b > pos {
                    assert(out@[b] == before[b - 1]);
                    assert(before[pos as int].1 <= before[b - 1].1);
                }
                if a < pos && b == pos {
                    assert(before[a].1 <= item.1);
                }
            }
        }
        i = i + 1;
    }
    proof {
        assert(bodies@.take(bodies@.len() as int) =~= bodies@);
    }
    out
}

/// The events that gravity sends when a new turn begins: the bodies (entity and pivot row)
/// are taken top rows first, and every active blob among them is moved by its movement.
pub fn move_events_by_gravity(bodies: &Vec<(Entity, i32)>, blobs: &Vec<(Entity, Blob)>) -> (r: Vec<
    BlobMoveEvent,
>)
    ensures
        r@ == gravity_events(rows_sorted(bodies@), blobs@),
{
    let order = sort_by_row(bodies);
    let mut evs: Vec<BlobMoveEvent> = Vec::new();
    let mut i: usize = 0;
    while i < order.len()
        invariant
            i <= order@.len(),
            evs@ == gravity_events(order@.take(i as int), blobs@),
        decreases order@.len() - i,
    {
        let id = order[i].0;
        proof {
            assert(order@.take(i + 1).drop_last() =~= order@.take(i as int));
        }
        if let Some(blob) = find_entry(blobs, id) {
            if blob.active {
                evs.push(BlobMoveEvent { delta: IVec2::new(blob.movement.x, blob.movement.y), entity: id });
            }
        }
        i = i + 1;
    }
    proof {
        assert(order@.take(order@.len() as int) =~= order@);
    }
    evs
}

//----------------------------------------------------------------------
// moving and dissolving blobs

/// A block after it was moved by `delta`.
pub open spec fn moved_block(b: Block, delta: IVec2) -> Block {
    Block { position: b.position.spec_plus(delta), ..b }
}

/// A block after its blob was dissolved: it no longer belongs to a group.
pub open spec fn loose_block(b: Block) -> Block {
    Block { group: None, ..b }
}

/// Whether every block of group `id` and the pivot can be moved by `delta` inside `i32`.
pub open spec fn can_move_group(
    store: Seq<(Entity, Block)>,
    id: Entity,
    pivot: IVec2,
    delta: IVec2,
) -> bool {
    &&& pivot.can_add(delta)
    &&& forall|k: int|
        0 <= k < store.len() && (#[trigger] store[k]).1.group == Some(id)
            ==> store[k].1.position.can_add(delta)
}

/// Removes the grouping of all blocks of blob `blob_id`; the blocks stay where they are.
pub fn dissolve_blob(blob_id: Entity, block_iter: &mut Vec<(Entity, Block)>)
    ensures
        same_ids(final(block_iter)@, old(block_iter)@),
        forall|k: int|
            0 <= k < old(block_iter)@.len() ==> #[trigger] final(block_iter)@[k].1 == if old(
                block_iter,
            )@[k].1.group == Some(blob_id) {
                loose_block(old(block_iter)@[k].1)
            } else {
                old(block_iter)@[k].1
            },
{
    let ghost start = block_iter@;
    let mut k: usize = 0;
    while k < block_iter.len()
        invariant
            k <= block_iter@.len(),
            same_ids(block_iter@, start),
            forall|m: int|
                0 <= m < start.len() ==> #[trigger] block_iter@[m].1 == if m < k && start[m].1.group
                    == Some(blob_id) {
                    loose_block(start[m].1)
                } else {
                    start[m].1
                },
        decreases block_iter@.len() - k,
    {
        let (e, block) = block_iter[k];
        if block.group == Some(blob_id) {
            block_iter.set(k, (e, Block { group: None, ..block }));
        }
        k = k + 1;
    }
}

/// Moves the blob `blob_id` by `delta`: its pivot and all its blocks. Returns the event
/// that informs the renderer.
pub fn move_blob(
    blob_id: Entity,
    body: &mut GridBody,
    delta: IVec2,
    block_iter: &mut Vec<(Entity, Block)>,
) -> (r: ViewUpdate)
    requires
        can_move_group(old(block_iter)@, blob_id, old(body).pivot, delta),
    ensures
        r == ViewUpdate::BlobMoved(blob_id),
        final(body).pivot == old(body).pivot.spec_plus(delta),
        final(body).blocks@ == old(body).blocks@,
        final(body).transferred == old(body).transferred,
        same_ids(final(block_iter)@, old(block_iter)@),
        forall|k: int|
            0 <= k < old(block_iter)@.len() ==> #[trigger] final(block_iter)@[k].1 == if old(
                block_iter,
            )@[k].1.group == Some(blob_id) {
                moved_block(old(block_iter)@[k].1, delta)
            } else {
                old(block_iter)@[k].1
            },
{
    // update the grid position
    body.pivot = body.pivot.plus(delta);

    // update the grid position of every block
    let ghost start = block_iter@;
    let mut k: usize = 0;
    while k < block_iter.len()
        invariant
            k <= block_iter@.len(),
            same_ids(block_iter@, start),
            forall|m: int|
                0 <= m < start.len() && (#[trigger] start[m]).1.group == Some(blob_id)
                    ==> start[m].1.position.can_add(delta),
            forall|m: int|
                0 <= m < start.len() ==> #[trigger] block_iter@[m].1 == if m < k && start[m].1.group
                    == Some(blob_id) {
                    moved_block(start[m].1, delta)
                } else {
                    start[m].1
                },
        decreases block_iter@.len() - k,
    {
        let (e, block) = block_iter[k];
        if let Some(blob_of_block) = block.group {
            if blob_of_block == blob_id {
                proof {
                    assert(start[k as int].1.group == Some(blob_id));
                }
                block_iter.set(k, (e, Block { position: block.position.plus(delta), ..block }));
            }
        }
        k = k + 1;
    }
    ViewUpdate::BlobMoved(blob_id)
}

//----------------------------------------------------------------------
// deciding whether a blob moves

/// The field coordinate of a block at relative position `rel` after its body, with pivot
/// `pivot`, moved by `delta`.
pub open spec fn moved_target(rel: IVec2, pivot: IVec2, delta: IVec2) -> IVec2 {
    rel.spec_plus(pivot).spec_plus(delta)
}

/// What a target cell says about a move: blob blocks, empty cells and tools let the blob
/// pass, the overlap lets it pass above the bottom of the movable region, a cell outside
/// the state lets it pass above the field, and an out-of-valid-region element repeats the
/// verdict of the cell before.
pub open spec fn cell_verdict(state: FieldState, bottom: int, ap: IVec2, prev: bool) -> bool {
    match state.element_at(ap) {
        Some(e) => match e.kind {
            FieldElementKind::Block(by) => by is Some,
            FieldElementKind::Empty => true,
            FieldElementKind::OutOfMovableRegion => ap.y < bottom,
            FieldElementKind::Tool(_) => true,
            FieldElementKind::OutOfValidRegion => prev,
        },
        None => ap.y < 0,
    }
}

/// Whether the target cells of the blocks `rel[i..]` all let the blob pass, given the
/// verdict `prev` of the cell before.
pub open spec fn cells_allow(
    state: FieldState,
    bottom: int,
    rel: Seq<IVec2>,
    pivot: IVec2,
    delta: IVec2,
    i: int,
    prev: bool,
) -> bool
    decreases rel.len() - i,
{
    if i < 0 || i >= rel.len() {
        true
    } else {
        let d = cell_verdict(state, bottom, moved_target(rel[i], pivot, delta), prev);
        d && cells_allow(state, bottom, rel, pivot, delta, i + 1, d)
    }
}

/// Whether the blocks of a body at relative positions `rel` may move by `delta`.
pub open spec fn move_allowed(
    state: FieldState,
    bottom: int,
    rel: Seq<IVec2>,
    pivot: IVec2,
    delta: IVec2,
) -> bool {
    cells_allow(state, bottom, rel, pivot, delta, 0, false)
}

/// Whether the target cells of all relative positions stay inside `i32`.
pub open spec fn targets_fit(rel: Seq<IVec2>, pivot: IVec2, delta: IVec2) -> bool {
    forall|i: int|
        0 <= i < rel.len() ==> (#[trigger] rel[i]).can_add(pivot) && rel[i].spec_plus(
            pivot,
        ).can_add(delta)
}

/// Whether the blocks of the body (those the store holds) may move by `delta` on the field.
pub fn handle_move(
    body: &GridBody,
    delta: IVec2,
    field: &Field,
    block_query: &Vec<(Entity, Block)>,
) -> (r: bool)
    requires
        field.wf(),
        field.movable_size.1 <= i32::MAX,
        forall|i: int|
            0 <= i < body.blocks@.len() ==> (lookup_block(
                block_query@,
                #[trigger] body.blocks@[i],
            ) matches Some(b) ==> b.relative_position is Some),
        targets_fit(relative_positions_of(body.blocks@, block_query@), body.pivot, delta),
    ensures
        r == move_allowed(
            field.state(),
            field.movable_size.1 as int,
            relative_positions_of(body.blocks@, block_query@),
            body.pivot,
            delta,
        ),
{
    let state = field.get_field_state();
    let rel_pos = body.get_relative_positions(block_query);
    let bottom = field.movable_size.1 as i32;
    let mut do_move = false;
    let mut i: usize = 0;
    while i < rel_pos.len()
        invariant
            *state == field.state(),
            state.wf(),
            bottom == field.movable_size.1,
            i <= rel_pos@.len(),
            rel_pos@ == relative_positions_of(body.blocks@, block_query@),
            targets_fit(rel_pos@, body.pivot, delta),
            move_allowed(*state, bottom as int, rel_pos@, body.pivot, delta) == cells_allow(
                *state,
                bottom as int,
                rel_pos@,
                body.pivot,
                delta,
                i as int,
                do_move,
            ),
        decreases rel_pos@.len() - i,
    {
        let pos = rel_pos[i];
        let ap = pos.plus(body.pivot).plus(delta);
        let ghost prev = do_move;
        do_move = match state.get_element(ap) {
            Some(element) => match element.kind {
                FieldElementKind::Block(by_id) => by_id.is_some(),
                FieldElementKind::Empty => true,
                FieldElementKind::OutOfMovableRegion => ap.y < bottom,
                FieldElementKind::Tool(_) => true,
                FieldElementKind::OutOfValidRegion => do_move,
            },
            None => ap.y < 0,
        };
        proof {
            assert(ap == moved_target(rel_pos@[i as int], body.pivot, delta));
            assert(do_move == cell_verdict(*state, bottom as int, ap, prev));
            assert(cells_allow(*state, bottom as int, rel_pos@, body.pivot, delta, i as int, prev)
                == (do_move && cells_allow(
                *state,
                bottom as int,
                rel_pos@,
                body.pivot,
                delta,
                i + 1,
                do_move,
            )));
        }
        if !do_move {
            return false;
        }
        i = i + 1;
    }
    true
}

/// Whether an element blocks a blob from moving into it: a loose block or a cell outside
/// the valid region.
pub open spec fn blocks_movement(el: FieldElement) -> bool {
    match el.kind {
        FieldElementKind::Empty | FieldElementKind::OutOfMovableRegion | FieldElementKind::Tool(
            _,
        ) => false,
        FieldElementKind::Block(id) => id is None,
        FieldElementKind::OutOfValidRegion => true,
    }
}

/// The positions of the blocks of group `id`, in the order of the store.
pub open spec fn group_positions(store: Seq<(Entity, Block)>, id: Entity) -> Seq<IVec2>
    decreases store.len(),
{
    if store.len() == 0 {
        Seq::empty()
    } else {
        let rest = group_positions(store.drop_last(), id);
        if store.last().1.group == Some(id) {
            rest.push(store.last().1.position)
        } else {
            rest
        }
    }
}

/// What handling a move event did to its blob.
#[derive(Debug, Clone, PartialEq, Eq)]
pub enum MoveOutcome {
    /// the blob is inactive or already transferred and nothing happened
    Ignored,
    /// the blob moved; the event informs the renderer
    Moved(ViewUpdate),
    /// the blob could not move and dissolved into loose blocks; its entity is to be removed
    Dissolved,
}

/// The step by which a blob moves for a move event of `delta`: a cut out blob is moved
/// away from the play field, two cells to the left and three times the vertical step.
pub open spec fn effective_delta(blob: Blob, delta: IVec2) -> IVec2 {
    if blob.cutout {
        IVec2 { x: -2i32, y: (3 * delta.y) as i32 }
    } else {
        delta
    }
}

/// Handles the move event of blob `blob_id`: an active blob that was not transferred moves
/// by its step if the field lets all its blocks pass; otherwise it dissolves and its blocks
/// stay on the field as loose blocks.
pub fn handle_move_blob_event(
    blob_id: Entity,
    blob: &Blob,
    body: &mut GridBody,
    ev_delta: IVec2,
    field: &Field,
    block_query: &mut Vec<(Entity, Block)>,
) -> (r: MoveOutcome)
    requires
        field.wf(),
        field.movable_size.1 <= i32::MAX,
        blob.active && !old(body).transferred ==> {
            &&& forall|i: int|
                0 <= i < old(body).blocks@.len() ==> (lookup_block(
                    old(block_query)@,
                    #[trigger] old(body).blocks@[i],
                ) matches Some(b) ==> b.relative_position is Some)
            &&& forall|k: int|
                0 <= k < old(block_query)@.len() && (#[trigger] old(block_query)@[k]).1.group
                    == Some(blob_id) ==> old(block_query)@[k].1.position.can_add(ev_delta)
            &&& blob.cutout ==> fits_i32_int(3 * ev_delta.y)
            &&& targets_fit(
                relative_positions_of(old(body).blocks@, old(block_query)@),
                old(body).pivot,
                effective_delta(*blob, ev_delta),
            )
            &&& move_allowed(
                field.state(),
                field.movable_size.1 as int,
                relative_positions_of(old(body).blocks@, old(block_query)@),
                old(body).pivot,
                effective_delta(*blob, ev_delta),
            ) ==> can_move_group(
                old(block_query)@,
                blob_id,
                old(body).pivot,
                effective_delta(*blob, ev_delta),
            )
        },
    ensures
        !(blob.active && !old(body).transferred) ==> r == MoveOutcome::Ignored && *final(body)
            == *old(body) && final(block_query)@ == old(block_query)@,
        blob.active && !old(body).transferred ==> {
            let delta = effective_delta(*blob, ev_delta);
            let allowed = move_allowed(
                field.state(),
                field.movable_size.1 as int,
                relative_positions_of(old(body).blocks@, old(block_query)@),
                old(body).pivot,
                delta,
            );
            &&& same_ids(final(block_query)@, old(block_query)@)
            &&& final(body).blocks@ == old(body).blocks@
            &&& final(body).transferred == old(body).transferred
            &&& allowed ==> {
                &&& r == MoveOutcome::Moved(ViewUpdate::BlobMoved(blob_id))
                &&& final(body).pivot == old(body).pivot.spec_plus(delta)
                &&& forall|k: int|
                    0 <= k < old(block_query)@.len() ==> #[trigger] final(block_query)@[k].1
                        == if old(block_query)@[k].1.group == Some(blob_id) {
                        moved_block(old(block_query)@[k].1, delta)
                    } else {
                        old(block_query)@[k].1
                    }
            }
            &&& !allowed ==> {
                &&& r == MoveOutcome::Dissolved
                &&& final(body).pivot == old(body).pivot
                &&& forall|k: int|
                    0 <= k < old(block_query)@.len() ==> #[trigger] final(block_query)@[k].1
                        == if old(block_query)@[k].1.group == Some(blob_id) {
                        loose_block(old(block_query)@[k].1)
                    } else {
                        old(block_query)@[k].1
                    }
            }
        },
{
    if !(blob.active && !body.transferred) {
        return MoveOutcome::Ignored;
    }
    // get block positions of the blob

    let mut occ_coords: Vec<IVec2> = Vec::new();
    let mut k: usize = 0;
    while k < block_query.len()
        invariant
            k <= block_query@.len(),
            forall|j: int|
                0 <= j < block_query@.len() && (#[trigger] block_query@[j]).1.group == Some(blob_id)
                    ==> block_query@[j].1.position.can_add(ev_delta),
            forall|m: int| 0 <= m < occ_coords@.len() ==> (#[trigger] occ_coords@[m]).can_add(ev_delta),
        decreases block_query@.len() - k,
    {
        if block_query[k].1.group == Some(blob_id) {
            proof {
                assert(block_query@[k as int].1.group == Some(blob_id));
            }
            occ_coords.push(block_query[k].1.position);
        }
        k = k + 1;
    }

    // transform blocks with given delta
    let mut occ_coords_delta: Vec<IVec2> = Vec::new();
    let mut m: usize = 0;
    while m < occ_coords.len()
        invariant
            m <= occ_coords@.len(),
            forall|q: int| 0 <= q < occ_coords@.len() ==> (#[trigger] occ_coords@[q]).can_add(ev_delta),
        decreases occ_coords@.len() - m,
    {
        let c = occ_coords[m];
        occ_coords_delta.push(c.plus(ev_delta));
        m = m + 1;
    }

    // check if any coordinate of the movement target is already occupied, e.g by a previous blob
    let state = field.get_field_state();
    let blocked = |el: &FieldElement| -> (b: bool)
        ensures
            b == blocks_movement(*el),
        {
            match el.kind {
                FieldElementKind::Empty
                | FieldElementKind::OutOfMovableRegion
                | FieldElementKind::Tool(_) => false,
                FieldElementKind::Block(id) => id.is_none(),
                FieldElementKind::OutOfValidRegion => true,
            }
        };
    let mut do_move = !state.is_any_coordinate(&occ_coords_delta, Some(&occ_coords), &blocked)
        || blob.cutout;

    // we don't want the cutout blobs to interfer with the playfield therefore we move them away
    let delta = if blob.cutout {
        IVec2::new(-2, 3 * ev_delta.y)
    } else {
        ev_delta
    };

    // depending on the state at the target position of the grid decide how the movement happens
    if !blob.cutout || do_move {
        do_move = handle_move(body, delta, field, block_query);
    }
    if do_move {
        let ev = move_blob(blob_id, body, delta, block_query);
        MoveOutcome::Moved(ev)
    } else {
        dissolve_blob(blob_id, block_query);
        MoveOutcome::Dissolved
    }
}

/// Whether an integer fits into `i32`.
pub open spec fn fits_i32_int(v: int) -> bool {
    i32::MIN <= v <= i32::MAX
}


//----------------------------------------------------------------------
// laws

/// Every move direction survives the trip to its number and back, and every number of a
/// direction is that direction's number.
pub proof fn lemma_move_number_roundtrip(d: MoveDirection, v: i32)
    ensures
        move_of_number(move_number(d)) == Some(d),
        move_of_number(v) matches Some(e) ==> move_number(e) == v,
        MoveDirection::spec_min() <= move_number(d) <= MoveDirection::spec_max(),
{
}

/// Every rotate direction survives the trip to its number and back, and every number of a
/// direction is that direction's number.
pub proof fn lemma_rotate_number_roundtrip(d: RotateDirection, v: i32)
    ensures
        rotate_of_number(rotate_number(d)) == Some(d),
        rotate_of_number(v) matches Some(e) ==> rotate_number(e) == v,
        1 <= rotate_number(d) <= 2,
{
}

/// Moving a block by a step and then by the opposite step puts it back.
pub proof fn lemma_move_back(b: Block, delta: IVec2)
    requires
        b.position.can_add(delta),
        delta.x != i32::MIN,
        delta.y != i32::MIN,
    ensures
        moved_block(moved_block(b, delta), IVec2 { x: -delta.x as i32, y: -delta.y as i32 }) == b,
{
}

/// A loose block stays loose when its former blob is dissolved again, and a move leaves its
/// group as it is.
pub proof fn lemma_dissolve_idempotent(b: Block, delta: IVec2)
    ensures
        loose_block(loose_block(b)) == loose_block(b),
        moved_block(b, delta).group == b.group,
{
}

/// Gravity only sends events for active blobs, each with the blob's movement.
pub proof fn lemma_gravity_events_active(order: Seq<(Entity, i32)>, blobs: Seq<(Entity, Blob)>)
    ensures
        forall|i: int|
            0 <= i < gravity_events(order, blobs).len() ==> (lookup_entry(
                blobs,
                (#[trigger] gravity_events(order, blobs)[i]).entity,
            ) matches Some(b) && b.active && gravity_events(order, blobs)[i].delta == b.movement),
    decreases order.len(),
{
    if order.len() > 0 {
        lemma_gravity_events_active(order.drop_last(), blobs);
    }
}

/// A target cell that is empty, holds a tool, or holds a block of a blob lets a blob pass,
/// whatever the cell before said.
proof fn lemma_free_cells_from(
    state: FieldState,
    bottom: int,
    rel: Seq<IVec2>,
    pivot: IVec2,
    delta: IVec2,
    i: int,
    prev: bool,
)
    requires
        0 <= i,
        forall|j: int|
            0 <= j < rel.len() ==> (state.element_at(
                (#[trigger] rel[j]).spec_plus(pivot).spec_plus(delta),
            ) matches Some(e) && (e.kind is Empty || e.kind is Tool
                || e.kind matches FieldElementKind::Block(Some(_)))),
    ensures
        cells_allow(state, bottom, rel, pivot, delta, i, prev),
    decreases rel.len() - i,
{
    if i < rel.len() {
        let r = rel[i];
        assert(state.element_at(r.spec_plus(pivot).spec_plus(delta)) is Some);
        lemma_free_cells_from(state, bottom, rel, pivot, delta, i + 1, true);
    }
}

/// A blob may move when the target cell of each of its blocks is empty, holds a tool, or
/// holds a block of a blob: tools and blobs never stop a blob.
pub proof fn lemma_free_cells_allow_move(
    state: FieldState,
    bottom: int,
    rel: Seq<IVec2>,
    pivot: IVec2,
    delta: IVec2,
)
    requires
        forall|j: int|
            0 <= j < rel.len() ==> (state.element_at(
                (#[trigger] rel[j]).spec_plus(pivot).spec_plus(delta),
            ) matches Some(e) && (e.kind is Empty || e.kind is Tool
                || e.kind matches FieldElementKind::Block(Some(_)))),
    ensures
        move_allowed(state, bottom, rel, pivot, delta),
{
    lemma_free_cells_from(state, bottom, rel, pivot, delta, 0, false);
}

/// A blob may not move when the target cell of one of its blocks holds a loose block.
pub proof fn lemma_loose_block_stops_move(
    state: FieldState,
    bottom: int,
    rel: Seq<IVec2>,
    pivot: IVec2,
    delta: IVec2,
    k: int,
)
    requires
        0 <= k < rel.len(),
        state.element_at(rel[k].spec_plus(pivot).spec_plus(delta)) matches Some(e) && e.kind
            == FieldElementKind::Block(None),
    ensures
        !move_allowed(state, bottom, rel, pivot, delta),
{
    lemma_stopped_at(state, bottom, rel, pivot, delta, 0, false, k);
}

proof fn lemma_stopped_at(
    state: FieldState,
    bottom: int,
    rel: Seq<IVec2>,
    pivot: IVec2,
    delta: IVec2,
    i: int,
    prev: bool,
    k: int,
)
    requires
        0 <= i <= k < rel.len(),
        state.element_at(rel[k].spec_plus(pivot).spec_plus(delta)) matches Some(e) && e.kind
            == FieldElementKind::Block(None),
    ensures
        !cells_allow(state, bottom, rel, pivot, delta, i, prev),
    decreases k - i,
{
    if i < k {
        let d = cell_verdict(state, bottom, moved_target(rel[i], pivot, delta), prev);
        lemma_stopped_at(state, bottom, rel, pivot, delta, i + 1, d, k);
    }
}

/// Gravity sends an event for every body whose blob is active, moving it by the blob's
/// movement; cut out blobs included.
pub proof fn lemma_gravity_moves_every_active_blob(order: Seq<(Entity, i32)>, blobs: Seq<(Entity, Blob)>)
    ensures
        forall|i: int|
            0 <= i < order.len() && (lookup_entry(blobs, (#[trigger] order[i]).0) matches Some(b)
                && b.active) ==> exists|j: int|
                0 <= j < gravity_events(order, blobs).len() && #[trigger] gravity_events(
                    order,
                    blobs,
                )[j] == (BlobMoveEvent {
                    delta: lookup_entry(blobs, order[i].0).unwrap().movement,
                    entity: order[i].0,
                }),
    decreases order.len(),
{
    if order.len() > 0 {
        let rest_order = order.drop_last();
        lemma_gravity_moves_every_active_blob(rest_order, blobs);
        let rest = gravity_events(rest_order, blobs);
        let all = gravity_events(order, blobs);
        assert forall|i: int|
            0 <= i < order.len() && (lookup_entry(blobs, (#[trigger] order[i]).0) matches Some(b)
                && b.active) implies exists|j: int|
            0 <= j < all.len() && #[trigger] all[j] == (BlobMoveEvent {
                delta: lookup_entry(blobs, order[i].0).unwrap().movement,
                entity: order[i].0,
            }) by {
            let b = lookup_entry(blobs, order[i].0).unwrap();
            if i < order.len() - 1 {
                assert(rest_order[i] == order[i]);
                let j = choose|j: int|
                    0 <= j < rest.len() && #[trigger] rest[j] == (BlobMoveEvent {
                        delta: b.movement,
                        entity: rest_order[i].0,
                    });
                assert(all[j] == rest[j]);
            } else {
                assert(all[rest.len() as int] == (BlobMoveEvent { delta: b.movement, entity: order[i].0 }));
            }
        }
    }
}

} // verus!

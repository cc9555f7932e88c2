//! Tools: the commands a player places on the factory field to steer and cut blobs.

use vstd::prelude::*;

use super::blob::{
    same_ids, turned_left, turned_right, turns_left_in_range, Blob, GridBody,
};
use super::field_element::{FieldElementKind, FieldState};
use super::{find_block, lookup_block, spawned_blocks, Block};
use crate::data::bodies::{
    brick_number, gen_tetris_body, lemma_blob_offsets_bounded, solid_offsets, tetris_body, BodyDefinition,
    TetrisBricks,
};
use crate::math::{find_entry, lookup_entry, Entity, IVec2};
use crate::movement::{move_number, move_step, rotate_number, MoveDirection, RotateDirection};
use crate::text::string_of;
use crate::view::{can_turn, rotated, Rotation, ViewUpdate};

verus! {

/// An enumeration that describes the different tools/commands that can be used in the game.
#[derive(Debug, Clone, Copy, PartialEq, Eq, Structural, Hash, Default)]
pub enum Tool {
    /// A move tool that also stores in which direction it moves its subject
    Move(MoveDirection),
    /// A rotation tool that also stores the rotation direction for its subject
    Rotate(RotateDirection),
    /// A cutter tool can be one of the 7 tetris bricks
    Cutter(TetrisBricks),
    /// The simulate command is the default tool
    #[default]
    Simulate,
    /// The reset command stops a simulation but does not change the state of the field
    Reset,
    /// The eraser tool can be used to erase tools that are placed on the field
    Eraser,
    /// The erase All tool cleans up the field, such that everything can be build from scratch
    EraseAll,
}

/// The tool with its variant replaced by the default variant of its kind.
pub open spec fn default_variant(t: Tool) -> Tool {
    match t {
        Tool::Move(_) => Tool::Move(MoveDirection::Up),
        Tool::Rotate(_) => Tool::Rotate(RotateDirection::Left),
        Tool::Cutter(_) => Tool::Cutter(TetrisBricks::Square),
        _ => t,
    }
}

/// The number that stands for a tool: the hundreds give the kind, the ones the variant.
pub open spec fn tool_number(t: Tool) -> i32 {
    match t {
        Tool::Move(d) => (100 + move_number(d)) as i32,
        Tool::Rotate(d) => (200 + rotate_number(d)) as i32,
        Tool::Cutter(b) => (300 + brick_number(b)) as i32,
        Tool::Simulate => 401,
        Tool::Reset => 501,
        Tool::Eraser => 601,
        Tool::EraseAll => 701,
    }
}

/// The tool that a number stands for, if any.
pub open spec fn tool_of_number(v: i32) -> Option<Tool> {
    if v == 101 {
        Some(Tool::Move(MoveDirection::Up))
    } else if v == 102 {
        Some(Tool::Move(MoveDirection::Right))
    } else if v == 103 {
        Some(Tool::Move(MoveDirection::Down))
    } else if v == 104 {
        Some(Tool::Move(MoveDirection::Left))
    } else if v == 201 {
        Some(Tool::Rotate(RotateDirection::Left))
    } else if v == 202 {
        Some(Tool::Rotate(RotateDirection::Right))
    } else if v == 301 {
        Some(Tool::Cutter(TetrisBricks::Square))
    } else if v == 302 {
        Some(Tool::Cutter(TetrisBricks::Line))
    } else if v == 303 {
        Some(Tool::Cutter(TetrisBricks::L))
    } else if v == 304 {
        Some(Tool::Cutter(TetrisBricks::InvL))
    } else if v == 305 {
        Some(Tool::Cutter(TetrisBricks::StairsL))
    } else if v == 306 {
        Some(Tool::Cutter(TetrisBricks::StairsR))
    } else if v == 307 {
        Some(Tool::Cutter(TetrisBricks::SmallT))
    } else if v == 401 {
        Some(Tool::Simulate)
    } else if v == 501 {
        Some(Tool::Reset)
    } else if v == 601 {
        Some(Tool::Eraser)
    } else if v == 701 {
        Some(Tool::EraseAll)
    } else {
        None
    }
}

/// The name under which a tool is shown to the player.
pub open spec fn tool_label(t: Tool) -> Seq<char> {
    match t {
        Tool::Move(_) => "Move"@,
        Tool::Rotate(_) => "Rotate"@,
        Tool::Cutter(_) => "Cut"@,
        Tool::Simulate => "Play"@,
        Tool::Reset => "Pause"@,
        Tool::Eraser => "Eraser"@,
        Tool::EraseAll => "Reset Factory"@,
    }
}

impl Tool {
    /// The tool of the same kind in its default variant; tools without variants stay as they are.
    pub fn as_default_variant(self) -> (r: Tool)
        ensures
            r == default_variant(self),
    {
        match self {
            Tool::Move(_) => Tool::Move(MoveDirection::Up),
            Tool::Rotate(_) => Tool::Rotate(RotateDirection::Left),
            Tool::Cutter(_) => Tool::Cutter(TetrisBricks::Square),
            _ => self,
        }
    }

    /// The name under which the tool is shown to the player.
    pub fn label(&self) -> (r: String)
        ensures
            r@ == tool_label(*self),
    {
        match self {
            Tool::Move(_) => string_of("Move"),
            Tool::Rotate(_) => string_of("Rotate"),
            Tool::Cutter(_) => string_of("Cut"),
            Tool::Simulate => string_of("Play"),
            Tool::Reset => string_of("Pause"),
            Tool::Eraser => string_of("Eraser"),
            Tool::EraseAll => string_of("Reset Factory"),
        }
    }

    /// Whether the tool can be placed on the field.
    pub fn is_placeable(&self) -> (r: bool)
        ensures
            r == (*self is Move || *self is Rotate || *self is Cutter),
    {
        match self {
            Tool::Move(_) | Tool::Rotate(_) | Tool::Cutter(_) => true,
            _ => false,
        }
    }
}

impl TryFrom<i32> for Tool {
    type Error = ();

    fn try_from(value: i32) -> (r: Result<Self, Self::Error>) {
        match value {
            101 => Ok(Tool::Move(MoveDirection::Up)),
            102 => Ok(Tool::Move(MoveDirection::Right)),
            103 => Ok(Tool::Move(MoveDirection::Down)),
            104 => Ok(Tool::Move(MoveDirection::Left)),
            201 => Ok(Tool::Rotate(RotateDirection::Left)),
            202 => Ok(Tool::Rotate(RotateDirection::Right)),
            301 => Ok(Tool::Cutter(TetrisBricks::Square)),
            302 => Ok(Tool::Cutter(TetrisBricks::Line)),
            303 => Ok(Tool::Cutter(TetrisBricks::L)),
            304 => Ok(Tool::Cutter(TetrisBricks::InvL)),
            305 => Ok(Tool::Cutter(TetrisBricks::StairsL)),
            306 => Ok(Tool::Cutter(TetrisBricks::StairsR)),
            307 => Ok(Tool::Cutter(TetrisBricks::SmallT)),
            401 => Ok(Tool::Simulate),
            501 => Ok(Tool::Reset),
            601 => Ok(Tool::Eraser),
            701 => Ok(Tool::EraseAll),
            _ => Err(()),
        }
    }
}

impl vstd::std_specs::convert::TryFromSpecImpl<i32> for Tool {
    open spec fn obeys_try_from_spec() -> bool {
        true
    }

    open spec fn try_from_spec(v: i32) -> Result<Self, Self::Error> {
        match tool_of_number(v) {
            Some(t) => Ok(t),
            None => Err(()),
        }
    }
}

impl From<Tool> for i32 {
    fn from(t: Tool) -> (r: i32) {
        match t {
            Tool::Move(d) => 100 + d.number(),
            Tool::Rotate(d) => 200 + d.number(),
            Tool::Cutter(brick) => 300 + brick.number(),
            Tool::Simulate => 401,
            Tool::Reset => 501,
            Tool::Eraser => 601,
            Tool::EraseAll => 701,
        }
    }
}

impl vstd::std_specs::convert::FromSpecImpl<Tool> for i32 {
    open spec fn obeys_from_spec() -> bool {
        true
    }

    open spec fn from_spec(t: Tool) -> i32 {
        tool_number(t)
    }
}

//----------------------------------------------------------------------
// movement tools

/// The tool whose cell lies under the pivot, if the field state shows one there.
pub open spec fn tool_at(state: FieldState, tools: Seq<(Entity, Tool)>, pivot: IVec2) -> Option<Tool> {
    match state.element_at(pivot) {
        Some(e) => match e.kind {
            FieldElementKind::Tool(te) => lookup_entry(tools, te),
            _ => None,
        },
        None => None,
    }
}

/// Whether every block of group `id` can turn to the right around `pivot` inside `i32`.
pub open spec fn turns_right_in_range(b: Block, pivot: IVec2) -> bool {
    b.relative_position matches Some(rp) ==> can_turn(rp, Rotation::Right) && rotated(
        rp,
        Rotation::Right,
    ).can_add(pivot)
}

/// Applies the tool under the pivot of an active, not cut out blob: a move tool sets the
/// blob's movement to its direction, a rotation tool turns the blob's blocks around the
/// pivot. Other blobs and other cells leave everything unchanged. Returns the event for the
/// renderer, if there is one.
pub fn apply_movement_tool(
    blob_id: Entity,
    blob: &mut Blob,
    body: &mut GridBody,
    state: &FieldState,
    tools: &Vec<(Entity, Tool)>,
    block_query: &mut Vec<(Entity, Block)>,
) -> (r: Option<ViewUpdate>)
    requires
        state.wf(),
        !old(blob).cutout && old(blob).active ==> match state.element_at(old(body).pivot) {
            Some(e) => match e.kind {
                FieldElementKind::Tool(te) => lookup_entry(tools@, te) is Some,
                _ => true,
            },
            None => true,
        },
        !old(blob).cutout && old(blob).active ==> forall|k: int|
            0 <= k < old(block_query)@.len() && (#[trigger] old(block_query)@[k]).1.group == Some(
                blob_id,
            ) ==> match tool_at(*state, tools@, old(body).pivot) {
                Some(Tool::Rotate(RotateDirection::Left)) => turns_left_in_range(
                    old(block_query)@[k].1,
                    old(body).pivot,
                ),
                Some(Tool::Rotate(RotateDirection::Right)) => turns_right_in_range(
                    old(block_query)@[k].1,
                    old(body).pivot,
                ),
                _ => true,
            },
    ensures
        *final(body) == *old(body),
        same_ids(final(block_query)@, old(block_query)@),
        old(blob).cutout || !old(blob).active ==> r is None && *final(blob) == *old(blob)
            && final(block_query)@ == old(block_query)@,
        !old(blob).cutout && old(blob).active ==> match tool_at(*state, tools@, old(body).pivot) {
            Some(Tool::Move(d)) => r is None && *final(blob) == (Blob {
                movement: move_step(d),
                ..*old(blob)
            }) && final(block_query)@ == old(block_query)@,
            Some(Tool::Rotate(RotateDirection::Left)) => r == Some(
                ViewUpdate::BlobRotated(blob_id, Rotation::Left),
            ) && *final(blob) == *old(blob) && forall|k: int|
                0 <= k < old(block_query)@.len() ==> #[trigger] final(block_query)@[k].1 == if old(
                    block_query,
                )@[k].1.group == Some(blob_id) {
                    turned_left(old(block_query)@[k].1, old(body).pivot)
                } else {
                    old(block_query)@[k].1
                },
            Some(Tool::Rotate(RotateDirection::Right)) => r == Some(
                ViewUpdate::BlobRotated(blob_id, Rotation::Right),
            ) && *final(blob) == *old(blob) && forall|k: int|
                0 <= k < old(block_query)@.len() ==> #[trigger] final(block_query)@[k].1 == if old(
                    block_query,
                )@[k].1.group == Some(blob_id) {
                    turned_right(old(block_query)@[k].1, old(body).pivot)
                } else {
                    old(block_query)@[k].1
                },
            _ => r is None && *final(blob) == *old(blob) && final(block_query)@ == old(
                block_query,
            )@,
        },
{
    if blob.cutout || !blob.active {
        return None;
    }
    if let Some(element) = state.get_element(body.pivot) {
        if let FieldElementKind::Tool(tool_entity) = element.kind {
            let tool = find_entry(tools, tool_entity).unwrap();
            match tool {
                Tool::Move(d) => {
                    blob.movement = d.into();
                    None
                },
                Tool::Rotate(d) => {
                    match d {
                        RotateDirection::Left => Some(body.rotate_left(block_query, blob_id)),
                        RotateDirection::Right => Some(body.rotate_right(block_query, blob_id)),
                    }
                },
                _ => None,
            }
        } else {
            None
        }
    } else {
        None
    }
}

//----------------------------------------------------------------------
// cutter tools

/// The positions of the blocks `ids` in the store.
pub open spec fn positions_of(ids: Seq<Entity>, store: Seq<(Entity, Block)>) -> Seq<IVec2> {
    ids.map_values(|id: Entity| lookup_block(store, id).unwrap().position)
}

/// The blocks of `ids` whose position is one of `cells`, in order.
pub open spec fn blocks_on(ids: Seq<Entity>, store: Seq<(Entity, Block)>, cells: Seq<IVec2>) -> Seq<
    Entity,
>
    decreases ids.len(),
{
    if ids.len() == 0 {
        Seq::empty()
    } else {
        let rest = blocks_on(ids.drop_last(), store, cells);
        if cells.contains(lookup_block(store, ids.last()).unwrap().position) {
            rest.push(ids.last())
        } else {
            rest
        }
    }
}

/// The blocks that a cutter tool cuts out of a blob: the blob's blocks that lie under the
/// tool's blocks, if they cover every block of the tool; `None` for other tools or when
/// the blob does not fill the cutter.
pub open spec fn cutter_cut(
    tool: Tool,
    tool_body: GridBody,
    body: GridBody,
    store: Seq<(Entity, Block)>,
) -> Option<Seq<Entity>> {
    if tool is Cutter {
        let cells = positions_of(tool_body.blocks@, store);
        let cut = blocks_on(body.blocks@, store, cells);
        if cut.len() == cells.len() {
            Some(cut)
        } else {
            None
        }
    } else {
        None
    }
}

/// Decides the cutout that a tool performs on a blob: for a cutter tool, the blocks of the
/// blob that lie under the tool's blocks, provided their number equals the number of the
/// tool's blocks.
pub fn cutter_cutout_blocks(
    tool: Tool,
    tool_body: &GridBody,
    body: &GridBody,
    block_query: &Vec<(Entity, Block)>,
) -> (r: Option<Vec<Entity>>)
    requires
        tool is Cutter ==> forall|i: int|
            0 <= i < tool_body.blocks@.len() ==> lookup_block(
                block_query@,
                #[trigger] tool_body.blocks@[i],
            ) is Some,
        tool is Cutter ==> forall|i: int|
            0 <= i < body.blocks@.len() ==> lookup_block(
                block_query@,
                #[trigger] body.blocks@[i],
            ) is Some,
    ensures
        match cutter_cut(tool, *tool_body, *body, block_query@) {
            Some(cut) => r matches Some(v) && v@ == cut,
            None => r is None,
        },
{
    if !matches!(tool, Tool::Cutter(_)) {
        return None;
    }
    // 1. get all block positions of cutter on the field

    let mut tool_positions: Vec<IVec2> = Vec::new();
    let mut i: usize = 0;
    while i < tool_body.blocks.len()
        invariant
            i <= tool_body.blocks@.len(),
            forall|j: int|
                0 <= j < tool_body.blocks@.len() ==> lookup_block(
                    block_query@,
                    #[trigger] tool_body.blocks@[j],
                ) is Some,
            tool_positions@ == positions_of(tool_body.blocks@.take(i as int), block_query@),
        decreases tool_body.blocks@.len() - i,
    {
        let k = find_block(block_query, tool_body.blocks[i]).unwrap();
        tool_positions.push(block_query[k].1.position);
        proof {
            assert(tool_body.blocks@.take(i + 1) =~= tool_body.blocks@.take(i as int).push(
                tool_body.blocks@[i as int],
            ));
            assert(positions_of(tool_body.blocks@.take(i + 1), block_query@) =~= positions_of(
                tool_body.blocks@.take(i as int),
                block_query@,
            ).push(block_query@[k as int].1.position));
        }
        i = i + 1;
    }
    proof {
        assert(tool_body.blocks@.take(tool_body.blocks@.len() as int) =~= tool_body.blocks@);
    }

    // 2. get all tool position that are also occupied by a blob and store the block ids
    let mut blocks_of_blob: Vec<Entity> = Vec::new();
    let mut j: usize = 0;
    while j < body.blocks.len()
        invariant
            j <= body.blocks@.len(),
            forall|m: int|
                0 <= m < body.blocks@.len() ==> lookup_block(
                    block_query@,
                    #[trigger] body.blocks@[m],
                ) is Some,
            blocks_of_blob@ == blocks_on(body.blocks@.take(j as int), block_query@, tool_positions@),
        decreases body.blocks@.len() - j,
    {
        let id = body.blocks[j];
        let k = find_block(block_query, id).unwrap();
        proof {
            assert(body.blocks@.take(j + 1).drop_last() =~= body.blocks@.take(j as int));
            assert(body.blocks@.take(j + 1).last() == id);
        }
        if crate::field::field_element::vec_contains(&tool_positions, block_query[k].1.position) {
            blocks_of_blob.push(id);
        }
        j = j + 1;
    }
    proof {
        assert(body.blocks@.take(body.blocks@.len() as int) =~= body.blocks@);
    }

    // 3. if blob blocks and tool blocks have the same len perform cutout
    if blocks_of_blob.len() == tool_positions.len() {
        Some(blocks_of_blob)
    } else {
        None
    }
}

//----------------------------------------------------------------------
// placing tools

/// The blocks that a tool placed at `coordinate` consists of besides the tool entity
/// itself: the cells of a cutter's brick without its pivot cell; other tools have none.
pub open spec fn tool_extra_blocks(tool: Tool, coordinate: IVec2, id: Entity, field_id: Entity) -> Seq<
    (Block, bool),
> {
    match tool {
        Tool::Cutter(tb) => spawned_blocks(
            solid_offsets(tetris_body(tb), (9usize, 9usize), (4usize, 4usize), 81),
            coordinate,
            id,
            field_id,
            false,
        ),
        _ => Seq::empty(),
    }
}

/// The layout of a tool placed at `coordinate` on field `field_id` as entity `id`: the
/// extra blocks to create (for a cutter the cells of its brick except the pivot) and the
/// block of the tool entity itself, which sits at the coordinate.
pub fn tool_layout(tool: Tool, coordinate: IVec2, id: Entity, field_id: Entity) -> (r: (
    Vec<(Block, bool)>,
    Block,
))
    requires
        -0x7FFF_FFFB <= coordinate.x <= 0x7FFF_FFFB,
        -0x7FFF_FFFB <= coordinate.y <= 0x7FFF_FFFB,
    ensures
        r.0@ == tool_extra_blocks(tool, coordinate, id, field_id),
        r.1 == (Block {
            position: coordinate,
            group: Some(id),
            relative_position: Some(IVec2 { x: 0, y: 0 }),
            field: field_id,
        }),
{
    let extra = match tool {
        Tool::Cutter(tb) => {
            let body_def = BodyDefinition::as_blob(gen_tetris_body(tb));
            proof {
                lemma_blob_offsets_bounded(body_def.block_positions@, 81);
            }
            Block::spawn_blocks_of_blob(&body_def, coordinate, id, field_id, false)
        },
        _ => Vec::new(),
    };
    let own = Block {
        position: coordinate,
        group: Some(id),
        relative_position: Some(IVec2::zero()),
        field: field_id,
    };
    (extra, own)
}


//----------------------------------------------------------------------
// laws

/// Every tool survives the trip to its number and back.
pub proof fn lemma_tool_number_roundtrip(t: Tool)
    ensures
        tool_of_number(tool_number(t)) == Some(t),
{
}

/// A number that names a tool is that tool's number.
pub proof fn lemma_tool_of_number_inverse(v: i32)
    ensures
        tool_of_number(v) matches Some(t) ==> tool_number(t) == v,
{
}

/// Taking the default variant twice is the same as taking it once, and keeps the kind.
pub proof fn lemma_default_variant_idempotent(t: Tool)
    ensures
        default_variant(default_variant(t)) == default_variant(t),
        (t is Move) == (default_variant(t) is Move),
        (t is Rotate) == (default_variant(t) is Rotate),
        (t is Cutter) == (default_variant(t) is Cutter),
{
}

} // verus!

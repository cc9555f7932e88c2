//! What the player's input does: switching tool variants with the mouse wheel, placing and
//! erasing tools with a click, steering a blob with the keyboard.

use vstd::prelude::*;

use crate::data::bodies::{brick_number, brick_of_number, TetrisBricks};
use crate::field::field_element::{FieldElementKind, FieldState};
use crate::field::tool::{default_variant, Tool};
use crate::math::{lookup_entry, find_entry, Entity, IVec2};
use crate::movement::{move_number, move_of_number, rotate_number, rotate_of_number, MoveDirection, RotateDirection};
use crate::state::{change_fits, inventory_after, PlayerStateLevel};
use crate::view::Rotation;

verus! {

/// The number reached by a step of `y` from `cur` through the variants `1..=max`, wrapping
/// around at both ends.
pub open spec fn wrap_step(cur: int, y: int, max: int) -> int {
    let n = cur + y;
    if n < 1 {
        max
    } else if n > max {
        1
    } else {
        n
    }
}

/// The brick number reached by a step of `y`: the sum is clamped to `0..=7`, and `0` turns
/// into `7`.
pub open spec fn brick_step(cur: int, y: int) -> int {
    let n = cur + y;
    let c = if n < 0 {
        0
    } else if n > 7 {
        7
    } else {
        n
    };
    if c < 1 {
        7
    } else {
        c
    }
}

/// The tool after a mouse wheel step of `y`: move, rotate and cutter tools step through
/// their variants, the other tools stay.
pub open spec fn switched_tool(tool: Tool, y: int) -> Tool {
    match tool {
        Tool::Move(d) => Tool::Move(move_of_number(wrap_step(move_number(d) as int, y, 4) as i32).unwrap()),
        Tool::Rotate(d) => Tool::Rotate(
            rotate_of_number(wrap_step(rotate_number(d) as int, y, 2) as i32).unwrap(),
        ),
        Tool::Cutter(b) => Tool::Cutter(brick_of_number(brick_step(brick_number(b) as int, y) as i32).unwrap()),
        _ => tool,
    }
}

/// Steps the variant of the selected tool by the sign `y` of a mouse wheel movement.
pub fn switch_tool_variant(tool: Tool, y: i32) -> (r: Tool)
    requires
        -0x7FFF_FFF0 <= y <= 0x7FFF_FFF0,
    ensures
        r == switched_tool(tool, y as int),
{
    match tool {
        Tool::Move(d) => {
            let mut cur = d.number();
            cur = cur + y;
            if cur < 1 {
                cur = MoveDirection::max();
            } else if cur > MoveDirection::max() {
                cur = 1;
            }
            match MoveDirection::try_from(cur) {
                Ok(n) => Tool::Move(n),
                Err(_) => tool,
            }
        },
        Tool::Rotate(d) => {
            let mut cur = d.number();
            cur = cur + y;
            if cur < 1 {
                cur = RotateDirection::max();
            } else if cur > RotateDirection::max() {
                cur = 1;
            }
            match RotateDirection::try_from(cur) {
                Ok(n) => Tool::Rotate(n),
                Err(_) => tool,
            }
        },
        Tool::Cutter(b) => {
            let mut cur = b.number();
            cur = cur + y;
            cur = if cur < 0 {
                0
            } else if cur > TetrisBricks::max() {
                TetrisBricks::max()
            } else {
                cur
            };
            if cur < 1 {
                cur = TetrisBricks::max();
            } else if cur > TetrisBricks::max() {
                cur = 1;
            }
            match TetrisBricks::try_from(cur) {
                Ok(n) => Tool::Cutter(n),
                Err(_) => tool,
            }
        },
        _ => tool,
    }
}

/// The step and the rotation that the pressed keys ask a blob for: up and down, left and
/// right add up; a left rotation wins over a right one.
pub open spec fn player_move(
    up: bool,
    down: bool,
    left: bool,
    right: bool,
    l_rotate: bool,
    r_rotate: bool,
) -> (IVec2, Option<Rotation>) {
    (
        IVec2 {
            x: ((if left { -1int } else { 0int }) + (if right { 1int } else { 0int })) as i32,
            y: ((if up { -1int } else { 0int }) + (if down { 1int } else { 0int })) as i32,
        },
        if l_rotate {
            Some(Rotation::Left)
        } else if r_rotate {
            Some(Rotation::Right)
        } else {
            None
        },
    )
}

/// Maps the pressed actions of a player controlled blob to a step and a rotation.
pub fn move_blob_by_player(
    up: bool,
    down: bool,
    left: bool,
    right: bool,
    l_rotate: bool,
    r_rotate: bool,
) -> (r: (IVec2, Option<Rotation>))
    ensures
        r == player_move(up, down, left, right, l_rotate, r_rotate),
{
    let mut delta = IVec2::zero();
    if up {
        delta.y = delta.y - 1;
    }
    if down {
        delta.y = delta.y + 1;
    }
    if left {
        delta.x = delta.x - 1;
    }
    if right {
        delta.x = delta.x + 1;
    }
    let rotation = if l_rotate {
        Some(Rotation::Left)
    } else if r_rotate {
        Some(Rotation::Right)
    } else {
        None
    };
    (delta, rotation)
}

//----------------------------------------------------------------------
// placing and erasing tools

/// What a click on the field does.
#[derive(Debug, Clone, Copy, PartialEq, Eq, Structural)]
pub enum ClickAction {
    /// nothing happens
    Nothing,
    /// the tool is placed at the coordinate; a tool that stood there is removed first
    Place { tool: Tool, coordinate: IVec2, replaced: Option<Entity> },
    /// the tool entity is removed from the field
    Erase(Entity),
}

/// Whether every count of the inventory can be raised or lowered by one inside `i32`.
pub open spec fn counts_in_range(inv: Map<Tool, usize>) -> bool {
    forall|t: Tool| #[trigger] inv.dom().contains(t) ==> i32::MIN < (inv[t] as i32) < i32::MAX
}

/// The tool placed on the field cell `e`, if the cell names an entity that is a tool.
pub open spec fn tool_on(tools: Seq<(Entity, Tool)>, entity: Option<Entity>) -> Option<(Entity, Tool)> {
    match entity {
        Some(en) => match lookup_entry(tools, en) {
            Some(t) => Some((en, t)),
            None => None,
        },
        None => None,
    }
}

/// The inventory after a change that is refused when the count would drop below zero.
pub open spec fn apply_change(inv: Map<Tool, usize>, t: Tool, change: i32) -> Map<Tool, usize> {
    match inventory_after(inv, t, change) {
        Some(m) => m,
        None => inv,
    }
}

/// The inventory after a tool that stood on a cell went back into it.
pub open spec fn returned(inv: Map<Tool, usize>, back: Option<(Entity, Tool)>) -> Map<Tool, usize> {
    match back {
        Some((_, t)) => apply_change(inv, t, 1),
        None => inv,
    }
}

/// The outcome of a click: the action and the inventory afterwards.
pub open spec fn click_outcome(
    selected: Option<Tool>,
    placement: Option<IVec2>,
    state: FieldState,
    tools: Seq<(Entity, Tool)>,
    inv: Map<Tool, usize>,
) -> (ClickAction, Map<Tool, usize>) {
    match (selected, placement) {
        (Some(tool), Some(coord)) => match state.element_at(coord) {
            Some(element) => {
                let valid_place = element.kind is Empty || element.kind is Tool
                    || element.kind is Block;
                let placeable = tool is Move || tool is Rotate || tool is Cutter;
                let available = inv.dom().contains(default_variant(tool)) && inv[default_variant(
                    tool,
                )] > 0;
                let back = tool_on(tools, element.entity);
                if valid_place && placeable && available {
                    let taken = apply_change(inv, tool, -1i32);
                    (
                        ClickAction::Place {
                            tool,
                            coordinate: coord,
                            replaced: match back {
                                Some((en, _)) => Some(en),
                                None => None,
                            },
                        },
                        returned(taken, back),
                    )
                } else if tool == Tool::Eraser {
                    match back {
                        Some((en, _)) => (ClickAction::Erase(en), returned(inv, back)),
                        None => (ClickAction::Nothing, inv),
                    }
                } else {
                    (ClickAction::Nothing, inv)
                }
            },
            None => (ClickAction::Nothing, inv),
        },
        _ => (ClickAction::Nothing, inv),
    }
}

/// Handles a left click on the field: a placeable tool (mover, rotator, cutter) that the
/// inventory still holds is taken from the inventory and placed at the coordinate under the
/// mouse, replacing a tool that stood there (which goes back to the inventory); the eraser
/// removes the tool at the coordinate and puts it back into the inventory.
pub fn create_tool_if_valid_clicked(
    player_state: &mut PlayerStateLevel,
    field_state: &FieldState,
    tools: &Vec<(Entity, Tool)>,
) -> (r: ClickAction)
    requires
        field_state.wf(),
        counts_in_range(old(player_state).applicable_tools.counts()),
    ensures
        (r, final(player_state).applicable_tools.counts()) == click_outcome(
            old(player_state).selected_tool,
            old(player_state).tool_placement_coordinate,
            *field_state,
            tools@,
            old(player_state).applicable_tools.counts(),
        ),
        final(player_state).selected_tool == old(player_state).selected_tool,
        final(player_state).tool_placement_coordinate == old(player_state).tool_placement_coordinate,
        final(player_state).won == old(player_state).won,
{
    let ghost inv0 = player_state.applicable_tools.counts();
    match (player_state.selected_tool, player_state.tool_placement_coordinate) {
        (Some(tool), Some(coord)) => {
            let placeable_tool_selected = tool.is_placeable();
            match field_state.get_element(coord) {
                Some(element) => {
                    let valid_place = match element.kind {
                        FieldElementKind::Empty
                        | FieldElementKind::Tool(_)
                        | FieldElementKind::Block(_) => true,
                        _ => false,
                    };
                    let available = match player_state.num_in_inventory(tool) {
                        Some(n) => n > 0,
                        None => false,
                    };
                    if valid_place && placeable_tool_selected && available {
                        player_state.add_to_inventory(tool, -1);
                        let mut replaced: Option<Entity> = None;
                        if let Some(entity) = element.entity {
                            if let Some(placed) = find_entry(tools, entity) {
                                proof {
                                    let taken = player_state.applicable_tools.counts();
                                    let t = default_variant(placed);
                                    if taken.dom().contains(t) {
                                        if t != default_variant(tool) {
                                            assert(inv0.dom().contains(t));
                                            assert(taken[t] == inv0[t]);
                                        } else if taken != inv0 {
                                            let res = (inv0[t] as i32) - 1;
                                            assert(taken[t] == res as usize);
                                            assert(0 <= res < i32::MAX);
                                            assert((taken[t] as i32) == res);
                                        }
                                    }
                                    assert(change_fits(taken, placed, 1));
                                }
                                player_state.add_to_inventory(placed, 1);
                                replaced = Some(entity);
                            }
                        }
                        ClickAction::Place { tool, coordinate: coord, replaced }
                    } else if tool == Tool::Eraser {
                        if let Some(entity) = element.entity {
                            if let Some(placed) = find_entry(tools, entity) {
                                player_state.add_to_inventory(placed, 1);
                                return ClickAction::Erase(entity);
                            }
                        }
                        ClickAction::Nothing
                    } else {
                        ClickAction::Nothing
                    }
                },
                None => ClickAction::Nothing,
            }
        },
        _ => ClickAction::Nothing,
    }
}

/// Four steps up the mouse wheel bring a move tool back to its direction, two steps a
/// rotate tool; tools without variants never change.
pub proof fn lemma_wheel_cycles(d: MoveDirection, e: RotateDirection, t: Tool)
    ensures
        switched_tool(switched_tool(switched_tool(switched_tool(Tool::Move(d), 1), 1), 1), 1)
            == Tool::Move(d),
        switched_tool(switched_tool(Tool::Rotate(e), 1), 1) == Tool::Rotate(e),
        !(t is Move || t is Rotate || t is Cutter) ==> forall|y: int| #[trigger] switched_tool(t, y) == t,
{
}

/// One step up the mouse wheel and one step down bring a move or rotate tool back to its
/// variant.
pub proof fn lemma_wheel_up_then_down(d: MoveDirection, e: RotateDirection)
    ensures
        switched_tool(switched_tool(Tool::Move(d), 1), -1) == Tool::Move(d),
        switched_tool(switched_tool(Tool::Move(d), -1), 1) == Tool::Move(d),
        switched_tool(switched_tool(Tool::Rotate(e), 1), -1) == Tool::Rotate(e),
        switched_tool(switched_tool(Tool::Rotate(e), -1), 1) == Tool::Rotate(e),
{
}

/// Placing a tool from the inventory on an empty cell and then erasing it from that cell
/// (where the world now shows the placed tool) gives the tool back: the inventory is as
/// before.
pub proof fn lemma_place_then_erase(
    before: FieldState,
    after: FieldState,
    coord: IVec2,
    tool: Tool,
    placed: Entity,
    tools: Seq<(Entity, Tool)>,
    inv: Map<Tool, usize>,
)
    requires
        before.element_at(coord) matches Some(e) && e.kind is Empty && e.entity is None,
        after.element_at(coord) matches Some(e) && e.entity == Some(placed),
        lookup_entry(tools, placed) == Some(tool),
        tool is Move || tool is Rotate || tool is Cutter,
        inv.dom().contains(default_variant(tool)),
        0 < inv[default_variant(tool)] <= i32::MAX,
    ensures
        ({
            let (placing, inv1) = click_outcome(Some(tool), Some(coord), before, tools, inv);
            let (erasing, inv2) = click_outcome(Some(Tool::Eraser), Some(coord), after, tools, inv1);
            &&& placing == (ClickAction::Place { tool, coordinate: coord, replaced: None })
            &&& erasing == ClickAction::Erase(placed)
            &&& inv2 == inv
        }),
{
    let t = default_variant(tool);
    let (_, inv1) = click_outcome(Some(tool), Some(coord), before, tools, inv);
    assert(inv1 == inv.insert(t, ((inv[t] as i32) - 1) as usize));
    assert(default_variant(tool) == t);
    let (_, inv2) = click_outcome(Some(Tool::Eraser), Some(coord), after, tools, inv1);
    assert(inv2 =~= inv);
}

/// A click on a cell outside the movable or the valid region never places a tool; it
/// leaves the inventory as it is, unless the eraser takes a tool from there.
pub proof fn lemma_no_placing_outside(
    selected: Option<Tool>,
    coord: IVec2,
    state: FieldState,
    tools: Seq<(Entity, Tool)>,
    inv: Map<Tool, usize>,
)
    requires
        state.element_at(coord) matches Some(e) && (e.kind is OutOfMovableRegion
            || e.kind is OutOfValidRegion),
    ensures
        !(click_outcome(selected, Some(coord), state, tools, inv).0 is Place),
        click_outcome(selected, Some(coord), state, tools, inv).0 is Erase
            || click_outcome(selected, Some(coord), state, tools, inv).1 == inv,
{
}

/// One step of the mouse wheel moves a tool to the variant whose number is one more or one
/// less, as long as that number names a variant.
pub proof fn lemma_wheel_step_number(b: TetrisBricks, d: MoveDirection, e: RotateDirection, y: int)
    ensures
        1 <= brick_number(b) + y <= 7 ==> (switched_tool(Tool::Cutter(b), y) matches Tool::Cutter(c)
            && brick_number(c) == brick_number(b) + y),
        1 <= move_number(d) + y <= 4 ==> (switched_tool(Tool::Move(d), y) matches Tool::Move(n)
            && move_number(n) == move_number(d) + y),
        1 <= rotate_number(e) + y <= 2 ==> (switched_tool(Tool::Rotate(e), y) matches Tool::Rotate(n)
            && rotate_number(n) == rotate_number(e) + y),
{
}

} // verus!

//! The toolbar: which variant a button shows, how it is highlighted and what a click on it does.

use vstd::prelude::*;

use crate::field::tool::Tool;
use crate::inventory::Inventory;
use crate::state::PlayerStateLevel;
use crate::text::{decimal, push_decimal, string_of};

verus! {

/// The tool a toolbar button shows: the button of the selected tool's kind follows the
/// selected variant, the others keep theirs.
pub open spec fn synced_tool(selected: Option<Tool>, in_hud: Tool) -> Tool {
    match (selected, in_hud) {
        (Some(Tool::Move(new_sel)), Tool::Move(_)) => Tool::Move(new_sel),
        (Some(Tool::Rotate(new_sel)), Tool::Rotate(_)) => Tool::Rotate(new_sel),
        (Some(Tool::Cutter(new_sel)), Tool::Cutter(_)) => Tool::Cutter(new_sel),
        _ => in_hud,
    }
}

/// Ensures the tool variant of a toolbar button is the one selected by the player.
pub fn sync_tool_variant(selected: Option<Tool>, in_hud: Tool) -> (r: Tool)
    ensures
        r == synced_tool(selected, in_hud),
{
    match (selected, in_hud) {
        (Some(Tool::Move(new_sel)), Tool::Move(_)) => Tool::Move(new_sel),
        (Some(Tool::Rotate(new_sel)), Tool::Rotate(_)) => Tool::Rotate(new_sel),
        (Some(Tool::Cutter(new_sel)), Tool::Cutter(_)) => Tool::Cutter(new_sel),
        _ => in_hud,
    }
}

/// The highlight of a toolbar button.
#[derive(Debug, Clone, Copy, PartialEq, Eq, Structural)]
pub enum ButtonLook {
    SelectedButUnavailable,
    Selected,
    Unavailable,
    Hovered,
    Normal,
}

/// The highlight of the button of `tag` when `num_inv` tools of it are left.
pub open spec fn look_of(selected: Option<Tool>, tag: Tool, is_hovered: bool, num_inv: usize) -> ButtonLook {
    match selected {
        Some(sel) => if sel == tag {
            if num_inv == 0 {
                ButtonLook::SelectedButUnavailable
            } else {
                ButtonLook::Selected
            }
        } else if num_inv == 0 {
            ButtonLook::Unavailable
        } else if is_hovered {
            ButtonLook::Hovered
        } else {
            ButtonLook::Normal
        },
        None => if is_hovered && num_inv != 0 {
            ButtonLook::Hovered
        } else if num_inv == 0 {
            ButtonLook::Unavailable
        } else {
            ButtonLook::Normal
        },
    }
}

/// Selects the overlay of a toolbar button: the selected button shows whether tools of it
/// are left, other buttons show unavailability first, then hovering.
pub fn overlay_look(selected: Option<Tool>, tag: Tool, is_hovered: bool, num_inv: usize) -> (r:
    ButtonLook)
    ensures
        r == look_of(selected, tag, is_hovered, num_inv),
{
    if let Some(selected_tool) = selected {
        if selected_tool == tag {
            if num_inv == 0 {
                ButtonLook::SelectedButUnavailable
            } else {
                ButtonLook::Selected
            }
        } else if num_inv == 0 {
            ButtonLook::Unavailable
        } else if is_hovered {
            ButtonLook::Hovered
        } else {
            ButtonLook::Normal
        }
    } else if is_hovered && num_inv != 0 {
        ButtonLook::Hovered
    } else if num_inv == 0 {
        ButtonLook::Unavailable
    } else {
        ButtonLook::Normal
    }
}

/// What a click on a toolbar button asks of the game besides selecting the tool.
#[derive(Debug, Clone, Copy, PartialEq, Eq, Structural)]
pub enum ToolbarAction {
    /// the simulation runs
    StartSimulation,
    /// the level starts again
    ResetLevel,
    /// all tools leave the field and go back into the inventory
    EraseAll,
    /// nothing more
    SelectOnly,
}

/// A click on the button of `tool`: the tool becomes the selected one, and the play, reset
/// and erase-all buttons ask for their action.
pub fn toolbar_clicked(player_state: &mut PlayerStateLevel, tool: Tool) -> (r: ToolbarAction)
    ensures
        final(player_state).selected_tool == Some(tool),
        final(player_state).applicable_tools == old(player_state).applicable_tools,
        final(player_state).tool_placement_coordinate == old(player_state).tool_placement_coordinate,
        final(player_state).won == old(player_state).won,
        r == match tool {
            Tool::Simulate => ToolbarAction::StartSimulation,
            Tool::Reset => ToolbarAction::ResetLevel,
            Tool::EraseAll => ToolbarAction::EraseAll,
            _ => ToolbarAction::SelectOnly,
        },
{
    let action = match tool {
        Tool::Simulate => ToolbarAction::StartSimulation,
        Tool::Reset => ToolbarAction::ResetLevel,
        Tool::EraseAll => ToolbarAction::EraseAll,
        _ => ToolbarAction::SelectOnly,
    };
    player_state.selected_tool = Some(tool);
    action
}

/// The number a toolbar button shows for its tool, if the inventory has a count for it.
pub fn update_toolbar_inventory(inventory: &Inventory, tool: Tool) -> (r: Option<String>)
    ensures
        match inventory.count_of(tool) {
            Some(n) => r matches Some(s) && s@ == decimal(n as nat),
            None => r is None,
        },
{
    match inventory.get(tool) {
        Some(n) => {
            let mut s = string_of("");
            push_decimal(&mut s, n as u64);
            proof {
                reveal_strlit("");
                assert(s@ =~= decimal(n as nat));
            }
            Some(s)
        },
        None => None,
    }
}

} // verus!

//! The player state as the toolbar reads it: an unknown tool kind counts as unlimited.

use vstd::prelude::*;

use crate::field::tool::{default_variant, Tool};
use crate::inventory::Inventory;
use crate::math::IVec2;
use crate::state::{change_fits, inventory_after};

verus! {

/// The selected tool, the tool inventory, the placement coordinate and the win flag.
#[derive(Debug, Clone, Default, PartialEq, Eq)]
pub struct PlayerState {
    pub selected_tool: Option<Tool>,
    pub applicable_tools: Inventory,
    pub tool_placement_coordinate: Option<IVec2>,
    pub won: bool,
}

impl PlayerState {
    /// A player without a selection, an empty inventory and no win.
    pub fn new() -> (r: PlayerState)
        ensures
            r.selected_tool is None,
            r.applicable_tools.counts() == Map::<Tool, usize>::empty(),
            r.tool_placement_coordinate is None,
            !r.won,
    {
        PlayerState {
            selected_tool: None,
            applicable_tools: Inventory::new(),
            tool_placement_coordinate: None,
            won: false,
        }
    }

    /// The number of tools of `tool`'s kind; a kind without count is unlimited (`usize::MAX`).
    pub fn num_in_inventory(&self, tool: Tool) -> (r: usize)
        ensures
            r == match self.applicable_tools.count_of(default_variant(tool)) {
                Some(n) => n,
                None => usize::MAX,
            },
    {
        // ensure default variants are used
        let tool = tool.as_default_variant();
        match self.applicable_tools.get(tool) {
            Some(num) => num,
            None => usize::MAX,
        }
    }

    /// Changes the count of `tool`'s kind by `change`. Returns false, and changes nothing,
    /// if the count would drop below zero.
    pub fn add_to_inventory(&mut self, tool: Tool, change: i32) -> (r: bool)
        requires
            change_fits(old(self).applicable_tools.counts(), tool, change),
        ensures
            r == inventory_after(old(self).applicable_tools.counts(), tool, change) is Some,
            final(self).applicable_tools.counts() == match inventory_after(
                old(self).applicable_tools.counts(),
                tool,
                change,
            ) {
                Some(m) => m,
                None => old(self).applicable_tools.counts(),
            },
            final(self).selected_tool == old(self).selected_tool,
            final(self).tool_placement_coordinate == old(self).tool_placement_coordinate,
            final(self).won == old(self).won,
    {
        // ensure default variants are used
        let tool = tool.as_default_variant();
        if let Some(num) = self.applicable_tools.get(tool) {
            let res = num as i32 + change;
            if res < 0 {
                return false;
            }
            self.applicable_tools.insert(tool, res as usize);
        } else if change > 0 {
            self.applicable_tools.insert(tool, change as usize);
        }
        true
    }
}

} // verus!

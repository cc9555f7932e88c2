//! The state of the game: the current and upcoming level, the player and the transitions
//! between the states of the application.

use vstd::prelude::*;

use crate::data::bodies::TetrisBricks;
use crate::data::level::{level_tools, Level};
use crate::field::tool::{default_variant, Tool};
use crate::inventory::Inventory;
use crate::math::IVec2;
use crate::movement::{MoveDirection, RotateDirection};
use crate::text::{decimal, push_decimal, string_of};
use crate::DisastrisAppState;

verus! {

/// The levels of the game: the one being played and the one that comes next.
#[derive(Debug, Default)]
pub struct GameState {
    pub level: Option<Level>,
    pub upcoming_level: Option<Level>,
}

impl GameState {
    /// gets a reference to the current level. If there is no level it switches to the upcoming level
    pub fn get_lvl(&mut self) -> (r: &Level)
        requires
            old(self).level is Some || old(self).upcoming_level is Some,
        ensures
            old(self).level is Some ==> final(self).level == old(self).level
                && final(self).upcoming_level == old(self).upcoming_level,
            old(self).level is None ==> final(self).level == old(self).upcoming_level
                && final(self).upcoming_level is None,
            Some(*r) == final(self).level,
    {
        if self.level.is_none() {
            self.next_lvl();
        }
        self.level.as_ref().unwrap()
    }

    /// moves to the upcoming level
    pub fn next_lvl(&mut self)
        ensures
            final(self).level == old(self).upcoming_level,
            final(self).upcoming_level is None,
    {
        self.level = self.upcoming_level.take();
        self.upcoming_level = None;
    }
}

/// Contains the current state of the player during a level, e.g. its selected tool and a tool inventory
#[derive(Debug, Clone, Default, PartialEq, Eq)]
pub struct PlayerStateLevel {
    /// the currently selected tool
    pub selected_tool: Option<Tool>,
    /// the number of applicable tools, i.e. the inventory of tools
    pub applicable_tools: Inventory,
    /// A coordinate that stores where a tool shall be placed.
    pub tool_placement_coordinate: Option<IVec2>,
    /// A flag indicating of the player has won the level
    pub won: bool,
}

/// The inventory after `change` was applied to the count of `tool`'s kind, or `None` if the
/// count would drop below zero. A kind without count gets one only for a positive change.
pub open spec fn inventory_after(inv: Map<Tool, usize>, tool: Tool, change: i32) -> Option<
    Map<Tool, usize>,
> {
    let t = default_variant(tool);
    if inv.dom().contains(t) {
        let res = (inv[t] as i32) + change;
        if res < 0 {
            None
        } else {
            Some(inv.insert(t, res as usize))
        }
    } else if change > 0 {
        Some(inv.insert(t, change as usize))
    } else {
        Some(inv)
    }
}

/// Whether a change of the count of `tool`'s kind can be computed inside `i32`.
pub open spec fn change_fits(inv: Map<Tool, usize>, tool: Tool, change: i32) -> bool {
    let t = default_variant(tool);
    inv.dom().contains(t) ==> i32::MIN <= (inv[t] as i32) + change <= i32::MAX
}

impl PlayerStateLevel {
    /// A player without a selection, an empty inventory and no win.
    pub fn new() -> (r: PlayerStateLevel)
        ensures
            r.selected_tool is None,
            r.applicable_tools.counts() == Map::<Tool, usize>::empty(),
            r.tool_placement_coordinate is None,
            !r.won,
    {
        let applicable_tools = Inventory::new();
        PlayerStateLevel {
            selected_tool: None,
            applicable_tools,
            tool_placement_coordinate: None,
            won: false,
        }
    }

    /// Replaces the inventory.
    pub fn set_inventory(&mut self, new_inventory: Inventory)
        ensures
            final(self).applicable_tools == new_inventory,
            final(self).selected_tool == old(self).selected_tool,
            final(self).tool_placement_coordinate == old(self).tool_placement_coordinate,
            final(self).won == old(self).won,
    {
        self.applicable_tools = new_inventory;
    }

    /// The number of tools of `tool`'s kind, if the inventory has a count for it.
    pub fn num_in_inventory(&self, tool: Tool) -> (r: Option<usize>)
        ensures
            r == self.applicable_tools.count_of(default_variant(tool)),
    {
        // ensure default variants are used
        let tool = tool.as_default_variant();
        self.applicable_tools.get(tool)
    }

    /// Changes the count of `tool`'s kind by `change`. Returns false, and changes nothing,
    /// if the count would drop below zero.
    pub fn add_to_inventory(&mut self, tool: Tool, change: i32) -> (r: bool)
        requires
            change_fits(old(self).applicable_tools.counts(), tool, change),
        ensures
            r == inventory_after(old(self).applicable_tools.counts(), tool, change) is Some,
            final(self).applicable_tools.counts() == match inventory_after(
                old(self).applicable_tools.counts(),
                tool,
                change,
            ) {
                Some(m) => m,
                None => old(self).applicable_tools.counts(),
            },
            final(self).selected_tool == old(self).selected_tool,
            final(self).tool_placement_coordinate == old(self).tool_placement_coordinate,
            final(self).won == old(self).won,
    {
        // ensure default variants are used
        let tool = tool.as_default_variant();
        if let Some(num) = self.applicable_tools.get(tool) {
            let res = num as i32 + change;
            if res < 0 {
                return false;
            }
            self.applicable_tools.insert(tool, res as usize);
        } else if change > 0 {
            self.applicable_tools.insert(tool, change as usize);
        }
        true
    }
}

/// Adding a number of tools and taking the same number away again leaves the inventory
/// as it was, for a kind that already has a count.
pub proof fn lemma_add_then_remove(inv: Map<Tool, usize>, tool: Tool, n: i32)
    requires
        inv.dom().contains(default_variant(tool)),
        0 <= n,
        inv[default_variant(tool)] + n <= i32::MAX,
    ensures
        inventory_after(inv, tool, n) matches Some(m) && inventory_after(m, tool, -n as i32)
            == Some(inv),
{
    let t = default_variant(tool);
    let m = inventory_after(inv, tool, n).unwrap();
    assert(m.insert(t, inv[t]) =~= inv);
}

//----------------------------------------------------------------------
// state transitions

/// Handles the <RETURN> key. In a level that the player won, the next level (if there is
/// one up to level 3) becomes the upcoming level and the transition screen follows; on the
/// transition screen the upcoming level is entered, or the main menu if there is none.
/// Other states do not react. Returns the state to switch to, if any.
pub fn app_state_transition(
    cur_state: DisastrisAppState,
    gamestate: &mut GameState,
    playerstate: &mut PlayerStateLevel,
) -> (r: Option<DisastrisAppState>)
    requires
        cur_state == DisastrisAppState::PlayLevel && old(playerstate).won ==> (old(
            gamestate,
        ).level matches Some(l) && l.num < u32::MAX),
    ensures
        cur_state == DisastrisAppState::PlayLevel && old(playerstate).won ==> {
            let num = (old(gamestate).level.unwrap().num + 1) as u32;
            &&& r == Some(DisastrisAppState::TransitionLevel)
            &&& !final(playerstate).won
            &&& final(playerstate).selected_tool == old(playerstate).selected_tool
            &&& final(playerstate).applicable_tools == old(playerstate).applicable_tools
            &&& final(playerstate).tool_placement_coordinate == old(
                playerstate,
            ).tool_placement_coordinate
            &&& final(gamestate).level == old(gamestate).level
            &&& if num <= 3 {
                (final(gamestate).upcoming_level matches Some(l) && l.is_level(num)
                    && l.applicable_tools.counts() == level_tools(num))
            } else {
                final(gamestate).upcoming_level is None
            }
        },
        cur_state == DisastrisAppState::PlayLevel && !old(playerstate).won ==> r is None
            && *final(gamestate) == *old(gamestate) && *final(playerstate) == *old(playerstate),
        cur_state == DisastrisAppState::TransitionLevel ==> {
            &&& *final(playerstate) == *old(playerstate)
            &&& if old(gamestate).upcoming_level is None {
                r == Some(DisastrisAppState::Mainmenu) && *final(gamestate) == *old(gamestate)
            } else {
                r == Some(DisastrisAppState::PlayLevel) && final(gamestate).level == old(
                    gamestate,
                ).upcoming_level && final(gamestate).upcoming_level is None
            }
        },
        cur_state != DisastrisAppState::PlayLevel && cur_state != DisastrisAppState::TransitionLevel
            ==> r is None && *final(gamestate) == *old(gamestate) && *final(playerstate) == *old(
            playerstate,
        ),
{
    match cur_state {
        DisastrisAppState::PlayLevel => {
            if playerstate.won {
                let next_num = gamestate.level.as_ref().unwrap().num + 1;
                playerstate.won = false;
                if next_num <= 3 {
                    gamestate.upcoming_level = Some(Level::new(next_num));
                } else {
                    gamestate.upcoming_level = None;
                }
                Some(DisastrisAppState::TransitionLevel)
            } else {
                None
            }
        },
        DisastrisAppState::TransitionLevel => {
            if gamestate.upcoming_level.is_none() {
                Some(DisastrisAppState::Mainmenu)
            } else {
                gamestate.next_lvl();
                Some(DisastrisAppState::PlayLevel)
            }
        },
        _ => None,
    }
}

//----------------------------------------------------------------------
// the level transition screen

/// Where a text stands on the screen, in percent of the window: the distances of its
/// borders from the left, right, top and bottom.
#[derive(Debug, Clone, Copy, PartialEq, Eq, Structural)]
pub struct UiPercentRect {
    pub left: u32,
    pub right: u32,
    pub top: u32,
    pub bottom: u32,
}

/// A text of the transition screen: what it says, where it stands and, if limited, its width in pixels.
#[derive(Debug, Clone, PartialEq, Eq)]
pub struct TransitionText {
    pub text: String,
    pub rect: UiPercentRect,
    pub width_px: Option<u32>,
}

/// A text as the specification sees it.
pub type TextSpec = (Seq<char>, UiPercentRect, Option<u32>);

/// The rectangle given by left, right, top and bottom percents.
pub open spec fn rect(left: u32, right: u32, top: u32, bottom: u32) -> UiPercentRect {
    UiPercentRect { left, right, top, bottom }
}

/// The count of a tool kind for the inventory text; kinds without count show zero.
pub open spec fn shown_count(inv: Map<Tool, usize>, t: Tool) -> usize {
    if inv.dom().contains(t) {
        inv[t]
    } else {
        0
    }
}

/// The texts about the finished level, or the welcome text if no level was played.
pub open spec fn finished_texts(level: Option<u32>, quote: Seq<char>) -> Seq<TextSpec> {
    match level {
        Some(num) => seq![
            (
                "Congratulations for finishing level '"@ + decimal(num as nat) + "'!"@,
                rect(5, 45, 0, 10),
                None,
            ),
            (
                "Your reward quote:\n"@ + quote + "\n\nTo start the next level just press return!"@,
                rect(5, 45, 20, 50),
                Some(600u32),
            ),
            ("Some Stats:\nTodo: \nTodo: \nTodo:"@, rect(5, 45, 75, 100), Some(500u32)),
        ],
        None => seq![(WELCOME@, rect(5, 45, 0, 10), None)],
    }
}

/// The texts about the upcoming level, or the final text if there is none.
pub open spec fn upcoming_texts(upcoming: Option<(u32, Seq<char>, Map<Tool, usize>)>) -> Seq<
    TextSpec,
> {
    match upcoming {
        Some((num, hint, inv)) => seq![
            ("Next level will be "@ + decimal(num as nat) + "!"@, rect(60, 80, 0, 10), None),
            (
                "A Hint:\n"@ + hint + "\n\nTo start the next level just press return!"@,
                rect(55, 90, 20, 50),
                Some(600u32),
            ),
            (
                "Your Inventory:\nMovers: "@ + decimal(
                    shown_count(inv, Tool::Move(MoveDirection::Up)) as nat,
                ) + "\nRotators: "@ + decimal(
                    shown_count(inv, Tool::Rotate(RotateDirection::Left)) as nat,
                ) + "\nCutters: "@ + decimal(
                    shown_count(inv, Tool::Cutter(TetrisBricks::Square)) as nat,
                ),
                rect(55, 90, 75, 100),
                Some(500u32),
            ),
        ],
        None => seq![("There is no next level, you won hell yeah!"@, rect(55, 80, 0, 10), None)],
    }
}

/// The text shown when no level was played yet.
pub const WELCOME: &'static str = "Welcome to the level transition screen, the left side is reserved for things you finished. And as you can see it is quite empty. But there is a lot to come!";

/// The number of the finished level, if there is one.
pub open spec fn finished_num(level: Option<Level>) -> Option<u32> {
    match level {
        Some(l) => Some(l.num),
        None => None,
    }
}

/// Number, hint and tools of the upcoming level, if there is one.
pub open spec fn upcoming_info(level: Option<Level>) -> Option<(u32, Seq<char>, Map<Tool, usize>)> {
    match level {
        Some(l) => Some((l.num, l.spec_text(), l.applicable_tools.counts())),
        None => None,
    }
}

/// Whether the shown texts are the specified ones.
pub open spec fn texts_match(r: Seq<TransitionText>, spec: Seq<TextSpec>) -> bool {
    &&& r.len() == spec.len()
    &&& forall|i: int|
        0 <= i < r.len() ==> (#[trigger] r[i]).text@ == spec[i].0 && r[i].rect == spec[i].1
            && r[i].width_px == spec[i].2
}

/// The texts of the level transition screen: on the left what was finished (with the reward
/// `quote`), on the right what comes next (with the hint and the inventory of the next level).
pub fn spawn_transition_level(gs: &GameState, quote: &str) -> (r: Vec<TransitionText>)
    ensures
        texts_match(
            r@,
            finished_texts(
                finished_num(gs.level),
                quote@,
            ) + upcoming_texts(
                upcoming_info(gs.upcoming_level),
            ),
        ),
{
    let mut texts: Vec<TransitionText> = Vec::new();
    let ghost left = finished_texts(
        finished_num(gs.level),
        quote@,
    );
    let ghost right = upcoming_texts(
        upcoming_info(gs.upcoming_level),
    );
    if let Some(level) = &gs.level {
        // this is a finished level or the last level
        let mut t1 = string_of("Congratulations for finishing level '");
        push_decimal(&mut t1, level.num as u64);
        t1.append("'!");
        texts.push(
            TransitionText {
                text: t1,
                rect: UiPercentRect { left: 5, right: 45, top: 0, bottom: 10 },
                width_px: None,
            },
        );
        let mut t2 = string_of("Your reward quote:\n");
        t2.append(quote);
        t2.append("\n\nTo start the next level just press return!");
        texts.push(
            TransitionText {
                text: t2,
                rect: UiPercentRect { left: 5, right: 45, top: 20, bottom: 50 },
                width_px: Some(600),
            },
        );
        texts.push(
            TransitionText {
                text: string_of("Some Stats:\nTodo: \nTodo: \nTodo:"),
                rect: UiPercentRect { left: 5, right: 45, top: 75, bottom: 100 },
                width_px: Some(500),
            },
        );
    } else {
        texts.push(
            TransitionText {
                text: string_of(WELCOME),
                rect: UiPercentRect { left: 5, right: 45, top: 0, bottom: 10 },
                width_px: None,
            },
        );
    }
    assert(texts_match(texts@, left));
    let ghost n_left = texts@.len();
    if let Some(level) = &gs.upcoming_level {
        let mut t1 = string_of("Next level will be ");
        push_decimal(&mut t1, level.num as u64);
        t1.append("!");
        texts.push(
            TransitionText {
                text: t1,
                rect: UiPercentRect { left: 60, right: 80, top: 0, bottom: 10 },
                width_px: None,
            },
        );
        let mut t2 = string_of("A Hint:\n");
        t2.append(level.get_text());
        t2.append("\n\nTo start the next level just press return!");
        texts.push(
            TransitionText {
                text: t2,
                rect: UiPercentRect { left: 55, right: 90, top: 20, bottom: 50 },
                width_px: Some(600),
            },
        );
        let movers = match level.applicable_tools.get(Tool::Move(MoveDirection::Up)) {
            Some(n) => n,
            None => 0,
        };
        let rotators = match level.applicable_tools.get(Tool::Rotate(RotateDirection::Left)) {
            Some(n) => n,
            None => 0,
        };
        let cutters = match level.applicable_tools.get(Tool::Cutter(TetrisBricks::Square)) {
            Some(n) => n,
            None => 0,
        };
        let mut t3 = string_of("Your Inventory:\nMovers: ");
        push_decimal(&mut t3, movers as u64);
        t3.append("\nRotators: ");
        push_decimal(&mut t3, rotators as u64);
        t3.append("\nCutters: ");
        push_decimal(&mut t3, cutters as u64);
        texts.push(
            TransitionText {
                text: t3,
                rect: UiPercentRect { left: 55, right: 90, top: 75, bottom: 100 },
                width_px: Some(500),
            },
        );
    } else {
        texts.push(
            TransitionText {
                text: string_of("There is no next level, you won hell yeah!"),
                rect: UiPercentRect { left: 55, right: 80, top: 0, bottom: 10 },
                width_px: None,
            },
        );
    }
    assert(texts_match(texts@, left + right));
    texts
}

} // verus!

//! The rules of a running level: when it is won and when a new brick falls.

use vstd::prelude::*;

use crate::field::field_element::{FieldElement, FieldElementKind, FieldState};
use crate::field::blob::Blob;
use crate::field::target::Target;
use crate::math::IVec2;
use crate::state::PlayerStateLevel;

verus! {

/// Whether the cell `(column, row)` of the field holds a loose block: a block whose blob
/// has dissolved.
pub open spec fn holds_loose_block(state: FieldState, cell: (i32, i32)) -> bool {
    state.element_at(IVec2 { x: cell.0, y: cell.1 }) matches Some(e) && e.kind
        == FieldElementKind::Block(None)
}

/// Whether every cell of the placed target holds a loose block.
pub open spec fn target_filled(target: Target, state: FieldState) -> bool {
    forall|i: int|
        0 <= i < target.spec_occupied().len() ==> holds_loose_block(
            state,
            #[trigger] target.spec_occupied()[i],
        )
}

/// Whether the level is won: every cell of the target holds a loose block (a block whose
/// blob dissolved, linked directly to the field).
pub fn level_won(target: &Target, field_state: &FieldState) -> (r: bool)
    requires
        target.can_list(),
        field_state.wf(),
    ensures
        r == target_filled(*target, *field_state),
{
    let coords = target.occupied_coordinates();
    let mut transformed_coords: Vec<IVec2> = Vec::new();
    let mut i: usize = 0;
    while i < coords.len()
        invariant
            i <= coords@.len(),
            transformed_coords@.len() == i,
            forall|j: int|
                0 <= j < i ==> #[trigger] transformed_coords@[j] == (IVec2 {
                    x: coords@[j].0,
                    y: coords@[j].1,
                }),
        decreases coords@.len() - i,
    {
        transformed_coords.push(IVec2::new(coords[i].0, coords[i].1));
        i = i + 1;
    }
    let is_loose = |el: &FieldElement| -> (b: bool)
        ensures
            b == (el.kind == FieldElementKind::Block(None)),
        { el.kind == FieldElementKind::Block(None) };
    let cond = field_state.are_all_coordinates(&transformed_coords, None, &is_loose);
    proof {
        if cond {
            assert forall|j: int| 0 <= j < coords@.len() implies holds_loose_block(
                *field_state,
                #[trigger] coords@[j],
            ) by {
                assert(transformed_coords@[j] == (IVec2 { x: coords@[j].0, y: coords@[j].1 }));
            }
        } else {
            let j = choose|j: int|
                0 <= j < transformed_coords@.len() && !crate::field::field_element::is_exception(
                    None,
                    #[trigger] transformed_coords@[j],
                ) && is_loose.ensures((&field_state.probe(transformed_coords@[j]),), false);
            assert(!holds_loose_block(*field_state, coords@[j]));
        }
    }
    cond
}

/// Checks for a win once per frame: a player who has not won yet wins when the target is
/// filled. Returns whether the win has just happened (and the win message is to be shown).
pub fn level_won_system(
    target: &Target,
    field_state: &FieldState,
    player_state: &mut PlayerStateLevel,
) -> (r: bool)
    requires
        target.can_list(),
        field_state.wf(),
    ensures
        r == (!old(player_state).won && target_filled(*target, *field_state)),
        final(player_state).won == (old(player_state).won || r),
        final(player_state).selected_tool == old(player_state).selected_tool,
        final(player_state).applicable_tools == old(player_state).applicable_tools,
        final(player_state).tool_placement_coordinate == old(player_state).tool_placement_coordinate,
{
    if player_state.won {
        return false;
    }
    let cond = level_won(target, field_state);
    if cond {
        player_state.won = true;
    }
    cond
}

/// Whether a new tetris brick is due at the end of the field: at the start of a turn when no
/// blob is active any more.
pub fn brick_spawn_due(new_turn: bool, blobs: &Vec<Blob>) -> (r: bool)
    ensures
        r == (new_turn && forall|i: int| 0 <= i < blobs@.len() ==> !(#[trigger] blobs@[i]).active),
{
    if !new_turn {
        return false;
    }
    let mut i: usize = 0;
    while i < blobs.len()
        invariant
            i <= blobs@.len(),
            forall|j: int| 0 <= j < i ==> !(#[trigger] blobs@[j]).active,
        decreases blobs@.len() - i,
    {
        if blobs[i].active {
            return false;
        }
        i = i + 1;
    }
    true
}

/// The target counts as filled exactly when every one of its cells, the first included,
/// holds a loose block.
pub proof fn lemma_filled_means_every_cell(target: Target, state: FieldState)
    ensures
        target_filled(target, state) <==> forall|i: int|
            0 <= i < target.spec_occupied().len() ==> (state.element_at(
                IVec2 { x: (#[trigger] target.spec_occupied()[i]).0, y: target.spec_occupied()[i].1 },
            ) matches Some(e) && e.kind == FieldElementKind::Block(None)),
{
}

} // verus!

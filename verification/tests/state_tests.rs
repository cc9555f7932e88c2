use disastris::cli::{subcommand_or_default, CliCommands};
use disastris::field::blob::Blob;
use disastris::game::brick_spawn_due;
use disastris::data::bodies::{gen_blob_body, gen_target_body, TetrisBricks};
use disastris::data::level::Level;
use disastris::field::field_element::{FieldElement, FieldElementKind, FieldState};
use disastris::field::tool::Tool;
use disastris::hud::{overlay_look, sync_tool_variant, toolbar_clicked, update_toolbar_inventory, ButtonLook, ToolbarAction};
use disastris::input::{create_tool_if_valid_clicked, move_blob_by_player, switch_tool_variant, ClickAction};
use disastris::inventory::Inventory;
use disastris::math::{Entity, IVec2};
use disastris::movement::{MoveDirection, RotateDirection};
use disastris::player_state::PlayerState;
use disastris::state::{app_state_transition, spawn_transition_level, GameState, PlayerStateLevel, UiPercentRect, WELCOME};
use disastris::view::Rotation;
use disastris::{
    get_random_quote, placeholder_on_enter_into_next, start_state_of, DisastrisAppState, GameConfig,
    QUOTE1, QUOTE2, QUOTE3, TUT1,
};

fn e(id: u64) -> Entity {
    Entity::from_bits(id)
}

fn v(x: i32, y: i32) -> IVec2 {
    IVec2::new(x, y)
}

#[test]
fn inventory_counts() {
    let mut inv = Inventory::new();
    assert_eq!(inv.get(Tool::Eraser), None);
    inv.insert(Tool::Eraser, 3);
    inv.insert(Tool::Reset, 1);
    inv.insert(Tool::Eraser, 5);
    assert_eq!(inv.get(Tool::Eraser), Some(5));
    assert_eq!(inv.get(Tool::Reset), Some(1));
}

#[test]
fn player_inventory_uses_default_variants() {
    let mut p = PlayerStateLevel::new();
    assert_eq!(p.num_in_inventory(Tool::Move(MoveDirection::Left)), None);
    assert!(p.add_to_inventory(Tool::Move(MoveDirection::Left), 2));
    assert_eq!(p.num_in_inventory(Tool::Move(MoveDirection::Down)), Some(2));
    assert!(p.add_to_inventory(Tool::Move(MoveDirection::Up), -2));
    assert_eq!(p.num_in_inventory(Tool::Move(MoveDirection::Up)), Some(0));
    assert!(!p.add_to_inventory(Tool::Move(MoveDirection::Up), -1));
    assert_eq!(p.num_in_inventory(Tool::Move(MoveDirection::Up)), Some(0));
    assert!(p.add_to_inventory(Tool::Rotate(RotateDirection::Right), 0));
    assert_eq!(p.num_in_inventory(Tool::Rotate(RotateDirection::Left)), None);
    let mut inv = Inventory::new();
    inv.insert(Tool::Cutter(TetrisBricks::Square), 4);
    p.set_inventory(inv);
    assert_eq!(p.num_in_inventory(Tool::Cutter(TetrisBricks::L)), Some(4));
}

#[test]
fn old_player_state_counts_unknown_kinds_as_unlimited() {
    let mut p = PlayerState::new();
    assert_eq!(p.num_in_inventory(Tool::Eraser), usize::MAX);
    assert!(p.add_to_inventory(Tool::Cutter(TetrisBricks::Line), 1));
    assert_eq!(p.num_in_inventory(Tool::Cutter(TetrisBricks::Square)), 1);
    assert!(!p.add_to_inventory(Tool::Cutter(TetrisBricks::Line), -2));
    assert_eq!(p.num_in_inventory(Tool::Cutter(TetrisBricks::Square)), 1);
}

#[test]
fn mouse_wheel_steps_through_variants() {
    let up = Tool::Move(MoveDirection::Up);
    assert_eq!(switch_tool_variant(up, 1), Tool::Move(MoveDirection::Right));
    assert_eq!(switch_tool_variant(up, -1), Tool::Move(MoveDirection::Left));
    assert_eq!(switch_tool_variant(Tool::Move(MoveDirection::Left), 1), up);
    assert_eq!(switch_tool_variant(Tool::Rotate(RotateDirection::Right), 1), Tool::Rotate(RotateDirection::Left));
    assert_eq!(switch_tool_variant(Tool::Rotate(RotateDirection::Left), -1), Tool::Rotate(RotateDirection::Right));
    assert_eq!(switch_tool_variant(Tool::Cutter(TetrisBricks::Square), -1), Tool::Cutter(TetrisBricks::SmallT));
    assert_eq!(switch_tool_variant(Tool::Cutter(TetrisBricks::SmallT), 1), Tool::Cutter(TetrisBricks::SmallT));
    assert_eq!(switch_tool_variant(Tool::Cutter(TetrisBricks::Line), 1), Tool::Cutter(TetrisBricks::L));
    assert_eq!(switch_tool_variant(Tool::Eraser, 1), Tool::Eraser);
    let mut t = up;
    for _ in 0..4 {
        t = switch_tool_variant(t, 1);
    }
    assert_eq!(t, up);
}

#[test]
fn keys_steer_a_blob() {
    assert_eq!(move_blob_by_player(true, false, false, true, false, false), (v(1, -1), None));
    assert_eq!(move_blob_by_player(true, true, true, true, false, false), (v(0, 0), None));
    assert_eq!(move_blob_by_player(false, true, true, false, true, true), (v(-1, 1), Some(Rotation::Left)));
    assert_eq!(move_blob_by_player(false, false, false, false, false, true), (v(0, 0), Some(Rotation::Right)));
}

fn click_setup(kind: FieldElementKind, entity: Option<Entity>) -> FieldState {
    let mut s = FieldState::new((v(0, 0), v(5, 5)));
    s.set_element(v(2, 2), FieldElement { is_target: false, entity, kind, position: v(2, 2) });
    s
}

#[test]
fn click_places_a_tool_from_the_inventory() {
    let s = click_setup(FieldElementKind::Empty, None);
    let mut p = PlayerStateLevel::new();
    p.add_to_inventory(Tool::Move(MoveDirection::Up), 1);
    p.selected_tool = Some(Tool::Move(MoveDirection::Right));
    p.tool_placement_coordinate = Some(v(2, 2));
    let r = create_tool_if_valid_clicked(&mut p, &s, &vec![]);
    assert_eq!(r, ClickAction::Place { tool: Tool::Move(MoveDirection::Right), coordinate: v(2, 2), replaced: None });
    assert_eq!(p.num_in_inventory(Tool::Move(MoveDirection::Up)), Some(0));
    let r = create_tool_if_valid_clicked(&mut p, &s, &vec![]);
    assert_eq!(r, ClickAction::Nothing);
}

#[test]
fn click_replaces_a_placed_tool_and_erases() {
    let tool_entity = e(7);
    let s = click_setup(FieldElementKind::Tool(tool_entity), Some(tool_entity));
    let tools = vec![(tool_entity, Tool::Rotate(RotateDirection::Right))];
    let mut p = PlayerStateLevel::new();
    p.add_to_inventory(Tool::Move(MoveDirection::Up), 1);
    p.add_to_inventory(Tool::Rotate(RotateDirection::Left), 0);
    p.selected_tool = Some(Tool::Move(MoveDirection::Down));
    p.tool_placement_coordinate = Some(v(2, 2));
    let r = create_tool_if_valid_clicked(&mut p, &s, &tools);
    assert_eq!(r, ClickAction::Place { tool: Tool::Move(MoveDirection::Down), coordinate: v(2, 2), replaced: Some(tool_entity) });
    assert_eq!(p.num_in_inventory(Tool::Move(MoveDirection::Up)), Some(0));
    assert_eq!(p.num_in_inventory(Tool::Rotate(RotateDirection::Left)), Some(1));

    p.selected_tool = Some(Tool::Eraser);
    let r = create_tool_if_valid_clicked(&mut p, &s, &tools);
    assert_eq!(r, ClickAction::Erase(tool_entity));
    assert_eq!(p.num_in_inventory(Tool::Rotate(RotateDirection::Left)), Some(2));

    let outside = click_setup(FieldElementKind::OutOfValidRegion, None);
    p.selected_tool = Some(Tool::Rotate(RotateDirection::Left));
    assert_eq!(create_tool_if_valid_clicked(&mut p, &outside, &tools), ClickAction::Nothing);
    p.tool_placement_coordinate = None;
    assert_eq!(create_tool_if_valid_clicked(&mut p, &s, &tools), ClickAction::Nothing);
}

#[test]
fn toolbar_buttons() {
    let sel = Some(Tool::Move(MoveDirection::Left));
    assert_eq!(sync_tool_variant(sel, Tool::Move(MoveDirection::Up)), Tool::Move(MoveDirection::Left));
    assert_eq!(sync_tool_variant(sel, Tool::Eraser), Tool::Eraser);
    assert_eq!(overlay_look(sel, Tool::Move(MoveDirection::Left), false, 0), ButtonLook::SelectedButUnavailable);
    assert_eq!(overlay_look(sel, Tool::Move(MoveDirection::Left), false, 2), ButtonLook::Selected);
    assert_eq!(overlay_look(sel, Tool::Eraser, true, 0), ButtonLook::Unavailable);
    assert_eq!(overlay_look(sel, Tool::Eraser, true, 1), ButtonLook::Hovered);
    assert_eq!(overlay_look(None, Tool::Eraser, false, 1), ButtonLook::Normal);
    assert_eq!(overlay_look(None, Tool::Eraser, true, 0), ButtonLook::Unavailable);
    let mut p = PlayerStateLevel::new();
    assert_eq!(toolbar_clicked(&mut p, Tool::Simulate), ToolbarAction::StartSimulation);
    assert_eq!(p.selected_tool, Some(Tool::Simulate));
    assert_eq!(toolbar_clicked(&mut p, Tool::Reset), ToolbarAction::ResetLevel);
    assert_eq!(toolbar_clicked(&mut p, Tool::EraseAll), ToolbarAction::EraseAll);
    assert_eq!(toolbar_clicked(&mut p, Tool::Eraser), ToolbarAction::SelectOnly);
    let mut inv = Inventory::new();
    inv.insert(Tool::Eraser, 12);
    assert_eq!(update_toolbar_inventory(&inv, Tool::Eraser), Some("12".to_string()));
    assert_eq!(update_toolbar_inventory(&inv, Tool::Reset), None);
}

fn level_three_by_hand() -> Level {
    Level {
        num: 3,
        start_blob: (gen_blob_body(1).unwrap(), (3, -4)),
        target_figure: (gen_target_body(1).unwrap(), (0, 12)),
        applicable_tools: Inventory::new(),
        level_text: "three".to_string(),
    }
}

#[test]
fn return_key_moves_through_levels() {
    let mut gs = GameState { level: Some(level_three_by_hand()), upcoming_level: None };
    let mut p = PlayerStateLevel::new();
    assert_eq!(app_state_transition(DisastrisAppState::PlayLevel, &mut gs, &mut p), None);
    p.won = true;
    assert_eq!(
        app_state_transition(DisastrisAppState::PlayLevel, &mut gs, &mut p),
        Some(DisastrisAppState::TransitionLevel)
    );
    assert!(!p.won);
    assert!(gs.upcoming_level.is_none());
    assert_eq!(
        app_state_transition(DisastrisAppState::TransitionLevel, &mut gs, &mut p),
        Some(DisastrisAppState::Mainmenu)
    );
    assert_eq!(app_state_transition(DisastrisAppState::Mainmenu, &mut gs, &mut p), None);

    let mut gs = GameState { level: None, upcoming_level: Some(Level::new(1)) };
    assert_eq!(
        app_state_transition(DisastrisAppState::TransitionLevel, &mut gs, &mut p),
        Some(DisastrisAppState::PlayLevel)
    );
    assert_eq!(gs.level.as_ref().unwrap().num, 1);
    assert!(gs.upcoming_level.is_none());
    assert_eq!(gs.get_lvl().num, 1);
}

#[test]
fn get_lvl_switches_to_the_upcoming_level() {
    let mut gs = GameState { level: None, upcoming_level: Some(Level::new(1)) };
    assert_eq!(gs.get_lvl().num, 1);
    assert!(gs.upcoming_level.is_none());
    gs.next_lvl();
    assert!(gs.level.is_none());
}

#[test]
fn transition_screen_texts() {
    let gs = GameState { level: None, upcoming_level: None };
    let texts = spawn_transition_level(&gs, "q");
    assert_eq!(texts.len(), 2);
    assert_eq!(texts[0].text, WELCOME);
    assert_eq!(texts[0].rect, UiPercentRect { left: 5, right: 45, top: 0, bottom: 10 });
    assert_eq!(texts[1].text, "There is no next level, you won hell yeah!");
    assert_eq!(texts[1].rect, UiPercentRect { left: 55, right: 80, top: 0, bottom: 10 });

    let gs = GameState { level: Some(level_three_by_hand()), upcoming_level: Some(Level::new(1)) };
    let texts = spawn_transition_level(&gs, "Be brave");
    assert_eq!(texts.len(), 6);
    assert_eq!(texts[0].text, "Congratulations for finishing level '3'!");
    assert_eq!(texts[1].text, "Your reward quote:\nBe brave\n\nTo start the next level just press return!");
    assert_eq!(texts[1].width_px, Some(600));
    assert_eq!(texts[2].text, "Some Stats:\nTodo: \nTodo: \nTodo:");
    assert_eq!(texts[2].width_px, Some(500));
    assert_eq!(texts[3].text, "Next level will be 1!");
    assert_eq!(texts[4].text, format!("A Hint:\n{}\n\nTo start the next level just press return!", TUT1));
    assert_eq!(texts[5].text, "Your Inventory:\nMovers: 0\nRotators: 1\nCutters: 0");
    assert_eq!(texts[5].rect, UiPercentRect { left: 55, right: 90, top: 75, bottom: 100 });
}

#[test]
fn app_states_parse_from_text() {
    assert_eq!("  PlayLevel ".parse::<DisastrisAppState>(), Ok(DisastrisAppState::PlayLevel));
    assert_eq!(DisastrisAppState::parse("MAINMENU"), Ok(DisastrisAppState::Mainmenu));
    assert_eq!(DisastrisAppState::parse("transitionLevel"), Ok(DisastrisAppState::TransitionLevel));
    assert_eq!(DisastrisAppState::parse("animationtest"), Ok(DisastrisAppState::AnimationTest));
    assert_eq!(DisastrisAppState::parse("placeholder"), Err(()));
    assert_eq!(DisastrisAppState::parse("internalstartup"), Err(()));
    assert_eq!(DisastrisAppState::PlayLevel.name(), "PlayLevel");
    assert_eq!(DisastrisAppState::default(), DisastrisAppState::InternalStartup);
}

#[test]
fn start_state_comes_from_the_config() {
    let mut c = GameConfig {
        start_level: 1,
        start_state: "Mainmenu".to_string(),
        state_from_placeholder: DisastrisAppState::PlayLevel,
    };
    assert_eq!(start_state_of(&c), DisastrisAppState::Mainmenu);
    c.start_state = "nonsense".to_string();
    assert_eq!(start_state_of(&c), DisastrisAppState::PlayLevel);
    assert_eq!(placeholder_on_enter_into_next(&c), DisastrisAppState::PlayLevel);
}

#[test]
fn quotes_and_cli() {
    for _ in 0..10 {
        let q = get_random_quote();
        assert!(q == QUOTE1 || q == QUOTE2 || q == QUOTE3);
    }
    assert_eq!(subcommand_or_default(None), CliCommands::Game);
    assert_eq!(subcommand_or_default(Some(CliCommands::DumpLevelsFromCode)), CliCommands::DumpLevelsFromCode);
}

#[test]
fn quotes_by_index() {
    assert_eq!(disastris::quote_of(0), QUOTE1);
    assert_eq!(disastris::quote_of(1), QUOTE2);
    assert_eq!(disastris::quote_of(2), QUOTE3);
}

#[test]
fn new_brick_is_due_when_no_blob_is_active() {
    let mut paused = Blob::new_main();
    paused.active = false;
    assert!(brick_spawn_due(true, &vec![]));
    assert!(brick_spawn_due(true, &vec![paused, paused]));
    assert!(!brick_spawn_due(true, &vec![paused, Blob::new_main()]));
    assert!(!brick_spawn_due(false, &vec![paused]));
}

#[test]
fn placing_and_erasing_a_tool_restores_the_inventory() {
    let before = click_setup(FieldElementKind::Empty, None);
    let placed = e(9);
    let after = click_setup(FieldElementKind::Tool(placed), Some(placed));
    let tools = vec![(placed, Tool::Cutter(TetrisBricks::L))];
    let mut p = PlayerStateLevel::new();
    p.add_to_inventory(Tool::Cutter(TetrisBricks::Square), 2);
    p.selected_tool = Some(Tool::Cutter(TetrisBricks::L));
    p.tool_placement_coordinate = Some(v(2, 2));
    let r = create_tool_if_valid_clicked(&mut p, &before, &tools);
    assert_eq!(r, ClickAction::Place { tool: Tool::Cutter(TetrisBricks::L), coordinate: v(2, 2), replaced: None });
    assert_eq!(p.num_in_inventory(Tool::Cutter(TetrisBricks::Square)), Some(1));
    p.selected_tool = Some(Tool::Eraser);
    assert_eq!(create_tool_if_valid_clicked(&mut p, &after, &tools), ClickAction::Erase(placed));
    assert_eq!(p.num_in_inventory(Tool::Cutter(TetrisBricks::Square)), Some(2));
}

#[test]
fn winning_level_one_leads_to_level_two() {
    let mut gs = GameState { level: Some(Level::new(1)), upcoming_level: None };
    let mut p = PlayerStateLevel::new();
    p.won = true;
    assert_eq!(
        app_state_transition(DisastrisAppState::PlayLevel, &mut gs, &mut p),
        Some(DisastrisAppState::TransitionLevel)
    );
    assert!(!p.won);
    assert_eq!(gs.upcoming_level.as_ref().unwrap().num, 2);
    assert_eq!(
        app_state_transition(DisastrisAppState::TransitionLevel, &mut gs, &mut p),
        Some(DisastrisAppState::PlayLevel)
    );
    assert_eq!(gs.level.as_ref().unwrap().num, 2);
}

#[test]
fn state_names_parse_back() {
    for s in [
        DisastrisAppState::Mainmenu,
        DisastrisAppState::PlayLevel,
        DisastrisAppState::TransitionLevel,
        DisastrisAppState::AnimationTest,
    ] {
        assert_eq!(DisastrisAppState::parse(&s.name()), Ok(s));
    }
    assert_eq!(DisastrisAppState::parse(&DisastrisAppState::InternalStartup.name()), Err(()));
    assert_eq!(DisastrisAppState::parse(&DisastrisAppState::Placeholder.name()), Err(()));
}

//! Disastris is a game for bevy-jam-2: a factory meets tetris. This crate holds the rules of
//! the game: the field and its state, blobs and the tools that move, rotate and cut them,
//! the levels, the player's inventory and the transitions between the states of the game.

pub mod cli;
pub mod data;
pub mod field;
pub mod game;
pub mod hud;
pub mod input;
pub mod inventory;
pub mod math;
pub mod movement;
pub mod player_state;
pub mod random;
pub mod state;
pub mod text;
pub mod view;

use vstd::prelude::*;

use crate::random::random_in_range;
use crate::text::{
    ascii_lower, is_ascii_text, leading_white_space, lowercase_text, lowercased, str_equals, string_of, trailing_white_space, trim_text,
    trimmed,
};

verus! {

/// A reward quote.
pub const QUOTE1: &'static str = "You won and all you get is this damn quote: \"Back in my days they delivered the raw materials in clean 4-block packages!\" by Gereon Bartel - Senior Block Composer";

/// A reward quote.
pub const QUOTE2: &'static str = "You won and all you get is this damn quote: \"Rearranging ugly blobs into more elegant shapes is part of my daily routine!\" by Tim Janus - Fulltime Code Refactorer";

/// A reward quote.
pub const QUOTE3: &'static str = "You won and all you get is this damn quote: \"look Ma, no javascript!\" by psi - obnoxious Rust fanboy";

/// What the game is about.
pub const TUTORIAL: &'static str = "Disassemble the useless input blob that was delivered and combine the parts to something beautiful! Select tools and place them in the factory. Choose between several tool variants with the mouse wheel and hit the simulate button when you're ready.";

/// The hint of level 1.
pub const TUT1: &'static str = "Hello disastros engineer, your task is to move the gray BLOB such that it hits the light red target area. On the right toolbar you see multiple tools - You have one ROTATOR, place it wisely somewhere in the building area (dark read). Play starts the simlation.";

/// The hint of level 2.
pub const TUT2: &'static str = "Well done disastros engineer, your second tasks involves multiple tools. After you selected a tool on the right toolbar you can change its variant via the mouse wheel. Place all tools to the blue building area in a way that the gray BLOB moves into the red target area.";

/// The hint of level 3.
pub const TUT3: &'static str = "Yass, lets get disastros and let us apply the CUTTER tool! There are many variants, remember the mouse wheel to select them. Place the cutter and other tools on the blue building area. Do you have what it needs to fill up the red target area?";

/// The reward quote with index `idx`.
pub open spec fn quote_at(idx: int) -> Seq<char> {
    if idx == 0 {
        QUOTE1@
    } else if idx == 1 {
        QUOTE2@
    } else {
        QUOTE3@
    }
}

/// The reward quote with index `idx` of the three.
pub fn quote_of(idx: i32) -> (r: String)
    requires
        0 <= idx < 3,
    ensures
        r@ == quote_at(idx as int),
{
    if idx == 0 {
        string_of(QUOTE1)
    } else if idx == 1 {
        string_of(QUOTE2)
    } else {
        string_of(QUOTE3)
    }
}

/// Picks one of the three reward quotes at random.
pub fn get_random_quote() -> (r: String)
    ensures
        exists|idx: int| 0 <= idx < 3 && r@ == #[trigger] quote_at(idx),
        r@ == QUOTE1@ || r@ == QUOTE2@ || r@ == QUOTE3@,
{
    let idx = random_in_range(0, 3);
    quote_of(idx)
}

/// The states of the application.
#[derive(Debug, PartialEq, Eq, Structural, Clone, Copy, Hash, Default)]
pub enum DisastrisAppState {
    /// The state is always the first state
    #[default]
    InternalStartup,
    /// The main menu of the game
    Mainmenu,
    /// The ingame state where the actual action happens
    PlayLevel,
    /// The next level is loaded
    TransitionLevel,
    /// Animation test code
    AnimationTest,
    /// Just used to implement the reset command which was transition from PlayLevel in PlayLevel
    Placeholder,
}

/// The name under which a state is shown.
pub open spec fn state_name(s: DisastrisAppState) -> Seq<char> {
    match s {
        DisastrisAppState::InternalStartup => "InternalStartup"@,
        DisastrisAppState::Mainmenu => "Mainmenu"@,
        DisastrisAppState::PlayLevel => "PlayLevel"@,
        DisastrisAppState::TransitionLevel => "TransitionLevel"@,
        DisastrisAppState::AnimationTest => "AnimationTest"@,
        DisastrisAppState::Placeholder => "Placeholder"@,
    }
}

/// The state that a normalized (trimmed, lowercase) name stands for; the startup and
/// placeholder states have no name.
pub open spec fn state_of_normalized(s: Seq<char>) -> Result<DisastrisAppState, ()> {
    if s == "mainmenu"@ {
        Ok(DisastrisAppState::Mainmenu)
    } else if s == "playlevel"@ {
        Ok(DisastrisAppState::PlayLevel)
    } else if s == "transitionlevel"@ {
        Ok(DisastrisAppState::TransitionLevel)
    } else if s == "animationtest"@ {
        Ok(DisastrisAppState::AnimationTest)
    } else {
        Err(())
    }
}

/// The name of every state has no white space around it, and its lowercase form names the
/// state again, but for the startup and the placeholder state, which have no name to parse.
pub proof fn lemma_state_name_parses(s: DisastrisAppState)
    ensures
        trimmed(state_name(s)) == state_name(s),
        is_ascii_text(state_name(s)),
        state_of_normalized(ascii_lower(state_name(s))) == match s {
            DisastrisAppState::InternalStartup => Err(()),
            DisastrisAppState::Placeholder => Err(()),
            _ => Ok(s),
        },
{
    reveal_strlit("InternalStartup");
    reveal_strlit("Mainmenu");
    reveal_strlit("PlayLevel");
    reveal_strlit("TransitionLevel");
    reveal_strlit("AnimationTest");
    reveal_strlit("Placeholder");
    reveal_strlit("mainmenu");
    reveal_strlit("playlevel");
    reveal_strlit("transitionlevel");
    reveal_strlit("animationtest");
    let n = state_name(s);
    let t = n.skip(leading_white_space(n) as int);
    assert(leading_white_space(n) == 0);
    assert(t =~= n);
    assert(trailing_white_space(t) == 0);
    assert(t.take(t.len() - 0) =~= n);
    let l = ascii_lower(n);
    match s {
        DisastrisAppState::Mainmenu => {
            assert(l =~= "mainmenu"@);
        },
        DisastrisAppState::PlayLevel => {
            assert(l =~= "playlevel"@);
        },
        DisastrisAppState::TransitionLevel => {
            assert(l =~= "transitionlevel"@);
        },
        DisastrisAppState::AnimationTest => {
            assert(l =~= "animationtest"@);
        },
        DisastrisAppState::InternalStartup => {
            assert(l[0] != "mainmenu"@[0] && l[0] != "playlevel"@[0] && l[0] != "transitionlevel"@[0]
                && l[0] != "animationtest"@[0]);
        },
        DisastrisAppState::Placeholder => {
            assert(l[0] == "playlevel"@[0]);
            assert(l[3] != "playlevel"@[3]);
            assert(l[0] != "mainmenu"@[0] && l[0] != "transitionlevel"@[0] && l[0] != "animationtest"@[0]);
        },
    }
}

impl DisastrisAppState {
    /// The name under which the state is shown.
    pub fn name(&self) -> (r: String)
        ensures
            r@ == state_name(*self),
    {
        match self {
            DisastrisAppState::InternalStartup => string_of("InternalStartup"),
            DisastrisAppState::Mainmenu => string_of("Mainmenu"),
            DisastrisAppState::PlayLevel => string_of("PlayLevel"),
            DisastrisAppState::TransitionLevel => string_of("TransitionLevel"),
            DisastrisAppState::AnimationTest => string_of("AnimationTest"),
            DisastrisAppState::Placeholder => string_of("Placeholder"),
        }
    }

    /// The state named by a normalized (trimmed, lowercase) name.
    pub fn from_normalized(input: &str) -> (r: Result<DisastrisAppState, ()>)
        ensures
            r == state_of_normalized(input@),
    {
        // we do not want to convert a string to InternalStartup
        if str_equals(input, "mainmenu") {
            Ok(DisastrisAppState::Mainmenu)
        } else if str_equals(input, "playlevel") {
            Ok(DisastrisAppState::PlayLevel)
        } else if str_equals(input, "transitionlevel") {
            Ok(DisastrisAppState::TransitionLevel)
        } else if str_equals(input, "animationtest") {
            Ok(DisastrisAppState::AnimationTest)
        } else {
            Err(())
        }
    }

    /// The state named by `input`, ignoring surrounding white space and case.
    pub fn parse(input: &str) -> (r: Result<DisastrisAppState, ()>)
        ensures
            r == state_of_normalized(lowercased(trimmed(input@))),
            is_ascii_text(trimmed(input@)) ==> r == state_of_normalized(ascii_lower(trimmed(input@))),
    {
        let trimmed_input = trim_text(input);
        let lower = lowercase_text(trimmed_input);
        DisastrisAppState::from_normalized(lower.as_str())
    }
}

impl std::str::FromStr for DisastrisAppState {
    type Err = ();

    fn from_str(input: &str) -> Result<DisastrisAppState, Self::Err> {
        DisastrisAppState::parse(input)
    }
}

/// Represents the current startup configuration
#[derive(Debug, Clone, PartialEq, Eq)]
pub struct GameConfig {
    pub start_level: u32,
    pub start_state: String,
    pub state_from_placeholder: DisastrisAppState,
}

/// The state the game starts in: the one the configuration names, or the play state if it
/// names none.
pub fn start_state_of(config: &GameConfig) -> (r: DisastrisAppState)
    ensures
        r == match state_of_normalized(lowercased(trimmed(config.start_state@))) {
            Ok(s) => s,
            Err(_) => DisastrisAppState::PlayLevel,
        },
{
    match DisastrisAppState::parse(config.start_state.as_str()) {
        Ok(s) => s,
        Err(_) => DisastrisAppState::PlayLevel,
    }
}

/// The state that the placeholder state hands over to.
pub fn placeholder_on_enter_into_next(config: &GameConfig) -> (r: DisastrisAppState)
    ensures
        r == config.state_from_placeholder,
{
    config.state_from_placeholder
}

} // verus!

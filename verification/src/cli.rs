//! The command line of the game: its subcommands.

use vstd::prelude::*;

verus! {

/// The commands the game binary accepts.
#[derive(Debug, Clone, Copy, PartialEq, Eq, Structural, Default)]
pub enum CliCommands {
    /// Starts the game, DEFAULT
    #[default]
    Game,
    /// Runs the level creation code and stores the files as RON
    DumpLevelsFromCode,
}

/// The given subcommand, or starting the game when none was given.
pub fn subcommand_or_default(subcommand: Option<CliCommands>) -> (r: CliCommands)
    ensures
        r == match subcommand {
            Some(c) => c,
            None => CliCommands::Game,
        },
{
    match subcommand {
        Some(c) => c,
        None => CliCommands::Game,
    }
}

} // verus!

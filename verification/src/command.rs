//! `/transparent` (aliases `/transparent-bg`, `/transparency`) — toggle the
//! transparent TUI background, persisted as `[ui].transparent_background`.

use vstd::prelude::*;

verus! {

/// An action a slash command asks the application to perform.
#[derive(Debug, Clone, Copy, PartialEq, Eq, Structural)]
pub enum Action {
    /// Flip the transparent-background setting.
    ToggleTransparentBackground,
}

/// Result of running a slash command.
#[derive(Debug, Clone, Copy, PartialEq, Eq, Structural)]
pub enum CommandResult {
    /// Perform an action.
    Action(Action),
}

/// Toggle transparent terminal background via `/transparent`.
#[derive(Debug, Clone, Copy, PartialEq, Eq, Structural)]
pub struct TransparentCommand;

impl TransparentCommand {
    /// Primary command name.
    pub fn name(&self) -> (r: &'static str)
        ensures
            r@ == "transparent"@,
    {
        "transparent"
    }

    /// Alternative names.
    pub fn aliases(&self) -> (r: Vec<&'static str>)
        ensures
            r.len() == 2,
            r[0]@ == "transparent-bg"@,
            r[1]@ == "transparency"@,
    {
        vec!["transparent-bg", "transparency"]
    }

    /// One-line description.
    pub fn description(&self) -> (r: &'static str)
        ensures
            r@ == "Toggle transparent terminal background"@,
    {
        "Toggle transparent terminal background"
    }

    /// Minimal mode already draws on the host canvas; no separate toggle.
    pub fn available_in_minimal(&self) -> (r: bool)
        ensures
            !r,
    {
        false
    }

    /// Usage line.
    pub fn usage(&self) -> (r: &'static str)
        ensures
            r@ == "/transparent"@,
    {
        "/transparent"
    }

    /// Running the command asks for a toggle, whatever the arguments.
    pub fn run(&self, args: &str) -> (r: CommandResult)
        ensures
            r == CommandResult::Action(Action::ToggleTransparentBackground),
    {
        CommandResult::Action(Action::ToggleTransparentBackground)
    }
}

} // verus!

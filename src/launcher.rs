//! Choice of the menu program used by the profile launcher.
use vstd::prelude::*;

verus! {

/// States of the launcher's prompt.
#[derive(Debug, Clone, Copy, PartialEq, Eq, Structural)]
pub enum PromptState {
    Main,
    Commands,
    Settings,
}

impl PromptState {
    pub fn new() -> (r: Self)
        ensures
            r == PromptState::Main,
    {
        PromptState::Main
    }
}

/// The menu program to run.
#[derive(Debug, Clone, PartialEq, Eq)]
pub enum Launcher {
    Fuzzel,
    /// A custom command line.
    Custom(String),
}

/// The launcher kinds accepted on the command line.
#[derive(Debug, Clone, Copy, PartialEq, Eq, Structural)]
pub enum CliLauncher {
    Fuzzel,
    Custom,
}

impl CliLauncher {
    /// The launcher to run; a custom one takes its command from `custom`.
    pub fn to_launcher(&self, custom: Option<String>) -> (r: Launcher)
        requires
            *self == CliLauncher::Custom ==> custom is Some,
        ensures
            *self == CliLauncher::Fuzzel ==> r == Launcher::Fuzzel,
            *self == CliLauncher::Custom ==> (r matches Launcher::Custom(c) && c@ == custom->0@),
    {
        match self {
            CliLauncher::Fuzzel => Launcher::Fuzzel,
            CliLauncher::Custom => match custom {
                Some(c) => Launcher::Custom(c),
                None => Launcher::Fuzzel,
            },
        }
    }
}

} // verus!

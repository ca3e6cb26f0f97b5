//! The command surface: build, check and run, each with an optional target
//! reference, and show, the default when no command is given.

use vstd::prelude::*;

use crate::derivation::Derivation;

verus! {

/// One of the front-end's commands.
#[derive(Debug)]
pub enum Command {
    Build { derivation: Option<Derivation> },
    Check { derivation: Option<Derivation> },
    Run { derivation: Option<Derivation> },
    Show {},
}

impl Default for Command {
    /// The default command is `show`.
    fn default() -> (r: Self)
        ensures
            r is Show,
    {
        Command::Show {  }
    }
}

/// The parsed command line: the command, when one was given.
#[derive(Debug)]
pub struct Cli {
    pub command: Option<Command>,
}

impl Cli {
    /// The selected command, or the default when none was given.
    pub fn command(self) -> (r: Command)
        ensures
            match self.command {
                Some(c) => r == c,
                None => r is Show,
            },
    {
        match self.command {
            Some(c) => c,
            None => Command::default(),
        }
    }
}

} // verus!

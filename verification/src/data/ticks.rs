//! The units of the time-ordered event log.

use crate::data::commands::CommandData;
use vstd::prelude::*;

verus! {

/// One player's raw command inside a command tick.
#[derive(Clone, Debug, PartialEq, Eq)]
pub struct Bundle {
    pub command: CommandData,
}

/// A tick that carries commands.
#[derive(Clone, Debug, PartialEq, Eq)]
pub struct CommandTick {
    pub bundles: Vec<Bundle>,
}

/// One unit of the event log.
#[derive(Clone, Debug, PartialEq, Eq)]
pub enum Tick {
    /// A tick with zero or more command bundles.
    Command(CommandTick),
    /// A tick of any other kind; it carries no command.
    Skipped,
}

} // verus!

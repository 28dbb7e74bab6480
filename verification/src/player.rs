//! A player of a match together with the commands that the player issued.

use crate::commands::command::{
    command_views, commands_from_data, spec_commands, Command, CommandView,
};
use crate::data::player::Player as PlayerData;
use crate::data::ticks::Tick;
use vstd::prelude::*;

verus! {

/// A player and the player's commands, in the order of the tick log.
#[derive(Clone, Debug, PartialEq, Eq)]
pub struct Player {
    pub name: String,
    pub faction: String,
    pub team: u32,
    pub battlegroup: Option<u32>,
    pub commands: Vec<Command>,
}

/// What a [`Player`] is, as mathematics.
pub struct PlayerView {
    pub name: Seq<char>,
    pub faction: Seq<char>,
    pub team: u32,
    pub battlegroup: Option<u32>,
    pub commands: Seq<CommandView>,
}

impl View for Player {
    type V = PlayerView;

    open spec fn view(&self) -> PlayerView {
        PlayerView {
            name: self.name@,
            faction: self.faction@,
            team: self.team,
            battlegroup: self.battlegroup,
            commands: command_views(self.commands@),
        }
    }
}

impl Player {
    /// Joins a player record with the log: the player keeps what the record
    /// says of it and owns the commands that were issued under its id, in
    /// the order of the log.
    pub fn from_data(player: &PlayerData, ticks: &[&Tick]) -> (r: Player)
        ensures
            r@ == (PlayerView {
                name: player.name@,
                faction: player.faction@,
                team: player.team,
                battlegroup: player.battlegroup,
                commands: spec_commands(ticks@, player.id),
            }),
    {
        Player {
            name: player.name.clone(),
            faction: player.faction.clone(),
            team: player.team,
            battlegroup: player.battlegroup,
            commands: commands_from_data(ticks, player.id),
        }
    }
}

} // verus!

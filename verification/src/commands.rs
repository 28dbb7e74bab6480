//! Player commands as the library hands them out: one struct per kind, each
//! stamped with the tick at which the command occurred. A tick is named by
//! its one-based index in the log. The index is counted in 64 bits, which
//! no log that fits in memory can exhaust, so every tick of every log has
//! one.

pub mod command;

pub use crate::commands::command::Command;

use crate::data::commands as raw;
use vstd::prelude::*;

verus! {

/// An order for a global upgrade.
#[derive(Clone, Copy, Debug, PartialEq, Eq)]
pub struct BuildGlobalUpgrade {
    pub tick: u64,
    pub pgbid: u32,
}

impl BuildGlobalUpgrade {
    /// The command that `data` stands for, stamped with `tick`.
    pub fn from_data(data: &raw::BuildGlobalUpgrade, tick: u64) -> (command: Self)
        ensures
            command == (BuildGlobalUpgrade { tick, pgbid: data.pgbid }),
    {
        BuildGlobalUpgrade { tick, pgbid: data.pgbid }
    }
}

/// An order to build a squad.
#[derive(Clone, Copy, Debug, PartialEq, Eq)]
pub struct BuildSquad {
    pub tick: u64,
    pub pgbid: u32,
    pub source_identifier: u16,
}

impl BuildSquad {
    /// The command that `data` stands for, stamped with `tick`.
    pub fn from_data(data: &raw::build_squad::BuildSquad, tick: u64) -> (command: Self)
        ensures
            command == (BuildSquad {
                tick,
                pgbid: data.pgbid,
                source_identifier: data.source_identifier,
            }),
    {
        BuildSquad { tick, pgbid: data.pgbid, source_identifier: data.source_identifier }
    }
}

/// An order that cancels a construction.
#[derive(Clone, Copy, Debug, PartialEq, Eq)]
pub struct CancelConstruction {
    pub tick: u64,
}

impl CancelConstruction {
    /// The command that `data` stands for, stamped with `tick`.
    pub fn from_data(data: &raw::CancelConstruction, tick: u64) -> (command: Self)
        ensures
            command == (CancelConstruction { tick }),
    {
        CancelConstruction { tick }
    }
}

/// An order that cancels a production.
#[derive(Clone, Copy, Debug, PartialEq, Eq)]
pub struct CancelProduction {
    pub tick: u64,
}

impl CancelProduction {
    /// The command that `data` stands for, stamped with `tick`.
    pub fn from_data(data: &raw::CancelProduction, tick: u64) -> (command: Self)
        ensures
            command == (CancelProduction { tick }),
    {
        CancelProduction { tick }
    }
}

/// The selection of a battlegroup.
#[derive(Clone, Copy, Debug, PartialEq, Eq)]
pub struct SelectBattlegroup {
    pub tick: u64,
    pub pgbid: u32,
}

impl SelectBattlegroup {
    /// The command that `data` stands for, stamped with `tick`.
    pub fn from_data(data: &raw::SelectBattlegroup, tick: u64) -> (command: Self)
        ensures
            command == (SelectBattlegroup { tick, pgbid: data.pgbid }),
    {
        SelectBattlegroup { tick, pgbid: data.pgbid }
    }
}

/// The selection of a battlegroup ability.
#[derive(Clone, Copy, Debug, PartialEq, Eq)]
pub struct SelectBattlegroupAbility {
    pub tick: u64,
    pub pgbid: u32,
}

impl SelectBattlegroupAbility {
    /// The command that `data` stands for, stamped with `tick`.
    pub fn from_data(data: &raw::SelectBattlegroupAbility, tick: u64) -> (command: Self)
        ensures
            command == (SelectBattlegroupAbility { tick, pgbid: data.pgbid }),
    {
        SelectBattlegroupAbility { tick, pgbid: data.pgbid }
    }
}

/// The use of an ability.
#[derive(Clone, Copy, Debug, PartialEq, Eq)]
pub struct UseAbility {
    pub tick: u64,
    pub pgbid: u32,
}

impl UseAbility {
    /// The command that `data` stands for, stamped with `tick`.
    pub fn from_data(data: &raw::UseAbility, tick: u64) -> (command: Self)
        ensures
            command == (UseAbility { tick, pgbid: data.pgbid }),
    {
        UseAbility { tick, pgbid: data.pgbid }
    }
}

/// The use of a battlegroup ability.
#[derive(Clone, Copy, Debug, PartialEq, Eq)]
pub struct UseBattlegroupAbility {
    pub tick: u64,
    pub pgbid: u32,
}

impl UseBattlegroupAbility {
    /// The command that `data` stands for, stamped with `tick`.
    pub fn from_data(data: &raw::UseBattlegroupAbility, tick: u64) -> (command: Self)
        ensures
            command == (UseBattlegroupAbility { tick, pgbid: data.pgbid }),
    {
        UseBattlegroupAbility { tick, pgbid: data.pgbid }
    }
}

/// A command of a kind that has no decoder of its own.
#[derive(Clone, Debug, PartialEq, Eq)]
pub struct Unknown {
    pub tick: u64,
    /// The payload as it was found.
    pub raw: Vec<u8>,
}

/// What an [`Unknown`] command is, as mathematics.
pub struct UnknownView {
    pub tick: u64,
    pub raw: Seq<u8>,
}

impl View for Unknown {
    type V = UnknownView;

    open spec fn view(&self) -> UnknownView {
        UnknownView { tick: self.tick, raw: self.raw@ }
    }
}

impl Unknown {
    /// The command that `data` stands for, stamped with `tick`.
    pub fn from_data(data: &raw::Unknown, tick: u64) -> (command: Self)
        ensures
            command@ == (UnknownView { tick, raw: data.raw@ }),
    {
        Unknown { tick, raw: data.raw.clone() }
    }

    /// A copy of the command.
    pub fn duplicate(&self) -> (command: Self)
        ensures
            command@ == self@,
    {
        Unknown { tick: self.tick, raw: self.raw.clone() }
    }
}

} // verus!

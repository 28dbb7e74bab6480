//! The reconstruction of a player's commands from the tick log.

use vault::commands::command::{command_from_data, commands_from_data};
use vault::commands::{
    BuildGlobalUpgrade, BuildSquad, CancelConstruction, CancelProduction, SelectBattlegroup,
    SelectBattlegroupAbility, Unknown, UseAbility, UseBattlegroupAbility,
};
use vault::data::commands::build_squad::BuildSquad as BuildSquadData;
use vault::data::commands::{
    BuildGlobalUpgrade as BuildGlobalUpgradeData, CancelConstruction as CancelConstructionData,
    CancelProduction as CancelProductionData, CommandData,
    SelectBattlegroup as SelectBattlegroupData,
    SelectBattlegroupAbility as SelectBattlegroupAbilityData, Unknown as UnknownData,
    UseAbility as UseAbilityData, UseBattlegroupAbility as UseBattlegroupAbilityData,
};
use vault::data::ticks::{Bundle, CommandTick, Tick};
use vault::Command;

fn squad(player_id: u8, pgbid: u32) -> Bundle {
    Bundle {
        command: CommandData::BuildSquad(BuildSquadData { player_id, pgbid, source_identifier: 11 }),
    }
}

fn ability(player_id: u8, pgbid: u32) -> Bundle {
    Bundle { command: CommandData::UseAbility(UseAbilityData { player_id, pgbid }) }
}

fn command_tick(bundles: Vec<Bundle>) -> Tick {
    Tick::Command(CommandTick { bundles })
}

fn gather(ticks: &[Tick], player_id: u32) -> Vec<Command> {
    let references: Vec<&Tick> = ticks.iter().collect();
    commands_from_data(&references, player_id)
}

fn tick_of(command: &Command) -> u64 {
    match command {
        Command::BuildGlobalUpgrade(c) => c.tick,
        Command::BuildSquad(c) => c.tick,
        Command::CancelConstruction(c) => c.tick,
        Command::CancelProduction(c) => c.tick,
        Command::SelectBattlegroup(c) => c.tick,
        Command::SelectBattlegroupAbility(c) => c.tick,
        Command::UseAbility(c) => c.tick,
        Command::UseBattlegroupAbility(c) => c.tick,
        Command::Unknown(c) => c.tick,
    }
}

#[test]
fn command_from_data_of_every_kind() {
    assert_eq!(
        command_from_data(
            &CommandData::BuildGlobalUpgrade(BuildGlobalUpgradeData { player_id: 1, pgbid: 10 }),
            4
        ),
        (Some(1), Command::BuildGlobalUpgrade(BuildGlobalUpgrade { tick: 4, pgbid: 10 }))
    );
    assert_eq!(
        command_from_data(
            &CommandData::BuildSquad(BuildSquadData {
                player_id: 2,
                pgbid: 2072430,
                source_identifier: 77
            }),
            5
        ),
        (
            Some(2),
            Command::BuildSquad(BuildSquad { tick: 5, pgbid: 2072430, source_identifier: 77 })
        )
    );
    assert_eq!(
        command_from_data(
            &CommandData::CancelConstruction(CancelConstructionData { player_id: 3 }),
            6
        ),
        (Some(3), Command::CancelConstruction(CancelConstruction { tick: 6 }))
    );
    assert_eq!(
        command_from_data(
            &CommandData::CancelProduction(CancelProductionData { player_id: 4 }),
            7
        ),
        (Some(4), Command::CancelProduction(CancelProduction { tick: 7 }))
    );
    assert_eq!(
        command_from_data(
            &CommandData::SelectBattlegroup(SelectBattlegroupData { player_id: 5, pgbid: 196934 }),
            8
        ),
        (Some(5), Command::SelectBattlegroup(SelectBattlegroup { tick: 8, pgbid: 196934 }))
    );
    assert_eq!(
        command_from_data(
            &CommandData::SelectBattlegroupAbility(SelectBattlegroupAbilityData {
                player_id: 6,
                pgbid: 60
            }),
            9
        ),
        (
            Some(6),
            Command::SelectBattlegroupAbility(SelectBattlegroupAbility { tick: 9, pgbid: 60 })
        )
    );
    assert_eq!(
        command_from_data(&CommandData::UseAbility(UseAbilityData { player_id: 7, pgbid: 70 }), 10),
        (Some(7), Command::UseAbility(UseAbility { tick: 10, pgbid: 70 }))
    );
    assert_eq!(
        command_from_data(
            &CommandData::UseBattlegroupAbility(UseBattlegroupAbilityData {
                player_id: 8,
                pgbid: 80
            }),
            11
        ),
        (Some(8), Command::UseBattlegroupAbility(UseBattlegroupAbility { tick: 11, pgbid: 80 }))
    );
    assert_eq!(
        command_from_data(
            &CommandData::Unknown(UnknownData { player_id: Some(9), raw: vec![1, 2, 3, 9] }),
            12
        ),
        (Some(9), Command::Unknown(Unknown { tick: 12, raw: vec![1, 2, 3, 9] }))
    );
    assert_eq!(
        command_from_data(&CommandData::Unknown(UnknownData { player_id: None, raw: vec![1] }), 13),
        (None, Command::Unknown(Unknown { tick: 13, raw: vec![1] }))
    );
}

#[test]
fn every_tick_counts() {
    let ticks = vec![
        Tick::Skipped,
        command_tick(vec![]),
        Tick::Skipped,
        Tick::Skipped,
        command_tick(vec![squad(1, 500)]),
    ];
    assert_eq!(
        gather(&ticks, 1),
        vec![Command::BuildSquad(BuildSquad { tick: 5, pgbid: 500, source_identifier: 11 })]
    );
}

#[test]
fn the_tick_index_does_not_depend_on_the_kinds_in_front() {
    let with_commands = vec![
        command_tick(vec![squad(2, 1)]),
        command_tick(vec![squad(2, 2)]),
        command_tick(vec![squad(2, 3)]),
        command_tick(vec![squad(2, 4)]),
        command_tick(vec![squad(1, 500)]),
    ];
    let without = vec![
        Tick::Skipped,
        Tick::Skipped,
        Tick::Skipped,
        Tick::Skipped,
        command_tick(vec![squad(1, 500)]),
    ];
    assert_eq!(gather(&with_commands, 1), gather(&without, 1));
    assert_eq!(tick_of(&gather(&with_commands, 1)[0]), 5);
}

#[test]
fn order_and_duplicate_ticks_are_kept() {
    let ticks = vec![
        Tick::Skipped,
        command_tick(vec![squad(2, 9)]),
        command_tick(vec![squad(1, 100), ability(2, 8), ability(1, 101)]),
        Tick::Skipped,
        command_tick(vec![]),
        Tick::Skipped,
        command_tick(vec![ability(2, 7), squad(1, 102)]),
    ];
    let commands = gather(&ticks, 1);
    assert_eq!(
        commands,
        vec![
            Command::BuildSquad(BuildSquad { tick: 3, pgbid: 100, source_identifier: 11 }),
            Command::UseAbility(UseAbility { tick: 3, pgbid: 101 }),
            Command::BuildSquad(BuildSquad { tick: 7, pgbid: 102, source_identifier: 11 }),
        ]
    );
    let stamps: Vec<u64> = commands.iter().map(tick_of).collect();
    assert_eq!(stamps, vec![3, 3, 7]);
    assert_eq!(
        gather(&ticks, 2),
        vec![
            Command::BuildSquad(BuildSquad { tick: 2, pgbid: 9, source_identifier: 11 }),
            Command::UseAbility(UseAbility { tick: 3, pgbid: 8 }),
            Command::UseAbility(UseAbility { tick: 7, pgbid: 7 }),
        ]
    );
}

#[test]
fn an_absent_player_has_no_commands() {
    let ticks = vec![
        command_tick(vec![squad(1, 100), ability(2, 8)]),
        Tick::Skipped,
        command_tick(vec![ability(2, 7), squad(1, 102)]),
    ];
    assert_eq!(gather(&ticks, 0), vec![]);
    assert_eq!(gather(&ticks, 3), vec![]);
    assert_eq!(gather(&ticks, 256 + 1), vec![]);
    assert_eq!(gather(&ticks, u32::MAX), vec![]);
}

#[test]
fn an_empty_log_has_no_commands() {
    assert_eq!(gather(&[], 1), vec![]);
    assert_eq!(gather(&[Tick::Skipped, Tick::Skipped], 1), vec![]);
}

#[test]
fn a_command_without_a_player_belongs_to_nobody() {
    let ticks = vec![command_tick(vec![
        Bundle { command: CommandData::Unknown(UnknownData { player_id: None, raw: vec![0] }) },
        Bundle {
            command: CommandData::Unknown(UnknownData { player_id: Some(0), raw: vec![0, 0, 0, 0] }),
        },
    ])];
    assert_eq!(
        gather(&ticks, 0),
        vec![Command::Unknown(Unknown { tick: 1, raw: vec![0, 0, 0, 0] })]
    );
}

#[test]
fn gathering_twice_gives_the_same_commands() {
    let ticks = vec![
        command_tick(vec![squad(1, 100), ability(1, 8)]),
        Tick::Skipped,
        command_tick(vec![ability(1, 7)]),
    ];
    assert_eq!(gather(&ticks, 1), gather(&ticks, 1));
    assert_eq!(gather(&ticks, 1).len(), 3);
}

#[test]
fn extract_gives_the_command_of_the_variant() {
    let upgrade = BuildGlobalUpgrade { tick: 1, pgbid: 2 };
    assert_eq!(Command::BuildGlobalUpgrade(upgrade).extract_build_global_upgrade(), upgrade);
    let squad = BuildSquad { tick: 1, pgbid: 2, source_identifier: 3 };
    assert_eq!(Command::BuildSquad(squad).extract_build_squad(), squad);
    let construction = CancelConstruction { tick: 4 };
    assert_eq!(Command::CancelConstruction(construction).extract_cancel_construction(), construction);
    let production = CancelProduction { tick: 5 };
    assert_eq!(Command::CancelProduction(production).extract_cancel_production(), production);
    let battlegroup = SelectBattlegroup { tick: 6, pgbid: 7 };
    assert_eq!(Command::SelectBattlegroup(battlegroup).extract_select_battlegroup(), battlegroup);
    let selected = SelectBattlegroupAbility { tick: 8, pgbid: 9 };
    assert_eq!(
        Command::SelectBattlegroupAbility(selected).extract_select_battlegroup_ability(),
        selected
    );
    let used = UseAbility { tick: 10, pgbid: 11 };
    assert_eq!(Command::UseAbility(used).extract_use_ability(), used);
    let used_battlegroup = UseBattlegroupAbility { tick: 12, pgbid: 13 };
    assert_eq!(
        Command::UseBattlegroupAbility(used_battlegroup).extract_use_battlegroup_ability(),
        used_battlegroup
    );
    let unknown = Unknown { tick: 14, raw: vec![1, 2, 3] };
    assert_eq!(Command::Unknown(unknown.clone()).extract_unknown(), unknown);
}

#[test]
fn a_player_owns_the_commands_issued_under_its_id() {
    let ticks = vec![
        command_tick(vec![squad(1, 100), ability(232, 8)]),
        Tick::Skipped,
        command_tick(vec![ability(232, 7), squad(1, 102)]),
    ];
    let references: Vec<&Tick> = ticks.iter().collect();
    let record = vault::data::player::Player {
        id: 232,
        name: "Quixalotl".to_string(),
        faction: "afrika_korps".to_string(),
        team: 1,
        battlegroup: Some(196934),
    };
    let player = vault::Player::from_data(&record, &references);
    assert_eq!(
        player,
        vault::Player {
            name: "Quixalotl".to_string(),
            faction: "afrika_korps".to_string(),
            team: 1,
            battlegroup: Some(196934),
            commands: vec![
                Command::UseAbility(UseAbility { tick: 1, pgbid: 8 }),
                Command::UseAbility(UseAbility { tick: 3, pgbid: 7 }),
            ],
        }
    );
}

#[test]
fn a_tick_without_commands_moves_later_commands_one_tick_on() {
    let ticks = vec![
        command_tick(vec![squad(1, 100)]),
        command_tick(vec![ability(1, 8), squad(2, 5)]),
        command_tick(vec![ability(1, 7)]),
    ];
    assert_eq!(
        gather(&ticks, 1),
        vec![
            Command::BuildSquad(BuildSquad { tick: 1, pgbid: 100, source_identifier: 11 }),
            Command::UseAbility(UseAbility { tick: 2, pgbid: 8 }),
            Command::UseAbility(UseAbility { tick: 3, pgbid: 7 }),
        ]
    );
    let expected: [[u64; 3]; 4] = [[2, 3, 4], [1, 3, 4], [1, 2, 4], [1, 2, 3]];
    for position in 0..=3 {
        let mut longer = ticks.clone();
        longer.insert(position, Tick::Skipped);
        let commands = gather(&longer, 1);
        let stamps: Vec<u64> = commands.iter().map(tick_of).collect();
        assert_eq!(stamps, expected[position].to_vec());
        assert!(matches!(commands[0], Command::BuildSquad(BuildSquad { pgbid: 100, .. })));
        assert!(matches!(commands[1], Command::UseAbility(UseAbility { pgbid: 8, .. })));
        assert!(matches!(commands[2], Command::UseAbility(UseAbility { pgbid: 7, .. })));
    }
}

#[test]
fn an_unknown_command_keeps_its_place_in_the_log() {
    let ticks = vec![
        Tick::Skipped,
        command_tick(vec![
            squad(4, 1),
            Bundle {
                command: CommandData::Unknown(UnknownData {
                    player_id: Some(4),
                    raw: vec![9, 0, 77, 4, 1],
                }),
            },
            ability(4, 2),
        ]),
    ];
    assert_eq!(
        gather(&ticks, 4),
        vec![
            Command::BuildSquad(BuildSquad { tick: 2, pgbid: 1, source_identifier: 11 }),
            Command::Unknown(Unknown { tick: 2, raw: vec![9, 0, 77, 4, 1] }),
            Command::UseAbility(UseAbility { tick: 2, pgbid: 2 }),
        ]
    );
}

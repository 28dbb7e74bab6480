//! The command variants, and the reconstruction of one player's commands
//! from the tick log.

use crate::commands::{
    BuildGlobalUpgrade, BuildSquad, CancelConstruction, CancelProduction, SelectBattlegroup,
    SelectBattlegroupAbility, Unknown, UnknownView, UseAbility, UseBattlegroupAbility,
};
use crate::data::commands::{CommandData, CommandDataView};
use crate::data::ticks::{Bundle, Tick};
use vstd::prelude::*;

verus! {

/// One of the commands that a player issued. Commands are gathered from the
/// tick log and belong to the player that sent them.
#[derive(Clone, Debug, PartialEq, Eq)]
pub enum Command {
    BuildGlobalUpgrade(BuildGlobalUpgrade),
    BuildSquad(BuildSquad),
    CancelConstruction(CancelConstruction),
    CancelProduction(CancelProduction),
    SelectBattlegroup(SelectBattlegroup),
    SelectBattlegroupAbility(SelectBattlegroupAbility),
    UseAbility(UseAbility),
    UseBattlegroupAbility(UseBattlegroupAbility),
    Unknown(Unknown),
}

/// What a [`Command`] is, as mathematics.
pub enum CommandView {
    BuildGlobalUpgrade(BuildGlobalUpgrade),
    BuildSquad(BuildSquad),
    CancelConstruction(CancelConstruction),
    CancelProduction(CancelProduction),
    SelectBattlegroup(SelectBattlegroup),
    SelectBattlegroupAbility(SelectBattlegroupAbility),
    UseAbility(UseAbility),
    UseBattlegroupAbility(UseBattlegroupAbility),
    Unknown(UnknownView),
}

impl View for Command {
    type V = CommandView;

    open spec fn view(&self) -> CommandView {
        match *self {
            Command::BuildGlobalUpgrade(c) => CommandView::BuildGlobalUpgrade(c),
            Command::BuildSquad(c) => CommandView::BuildSquad(c),
            Command::CancelConstruction(c) => CommandView::CancelConstruction(c),
            Command::CancelProduction(c) => CommandView::CancelProduction(c),
            Command::SelectBattlegroup(c) => CommandView::SelectBattlegroup(c),
            Command::SelectBattlegroupAbility(c) => CommandView::SelectBattlegroupAbility(c),
            Command::UseAbility(c) => CommandView::UseAbility(c),
            Command::UseBattlegroupAbility(c) => CommandView::UseBattlegroupAbility(c),
            Command::Unknown(c) => CommandView::Unknown(c@),
        }
    }
}

impl CommandView {
    /// The tick at which the command occurred.
    pub open spec fn tick(self) -> u64 {
        match self {
            CommandView::BuildGlobalUpgrade(c) => c.tick,
            CommandView::BuildSquad(c) => c.tick,
            CommandView::CancelConstruction(c) => c.tick,
            CommandView::CancelProduction(c) => c.tick,
            CommandView::SelectBattlegroup(c) => c.tick,
            CommandView::SelectBattlegroupAbility(c) => c.tick,
            CommandView::UseAbility(c) => c.tick,
            CommandView::UseBattlegroupAbility(c) => c.tick,
            CommandView::Unknown(c) => c.tick,
        }
    }

    /// The same command at the tick `tick`.
    pub open spec fn at_tick(self, tick: u64) -> CommandView {
        match self {
            CommandView::BuildGlobalUpgrade(c) => CommandView::BuildGlobalUpgrade(
                BuildGlobalUpgrade { tick, pgbid: c.pgbid },
            ),
            CommandView::BuildSquad(c) => CommandView::BuildSquad(
                BuildSquad { tick, pgbid: c.pgbid, source_identifier: c.source_identifier },
            ),
            CommandView::CancelConstruction(c) => CommandView::CancelConstruction(
                CancelConstruction { tick },
            ),
            CommandView::CancelProduction(c) => CommandView::CancelProduction(
                CancelProduction { tick },
            ),
            CommandView::SelectBattlegroup(c) => CommandView::SelectBattlegroup(
                SelectBattlegroup { tick, pgbid: c.pgbid },
            ),
            CommandView::SelectBattlegroupAbility(c) => CommandView::SelectBattlegroupAbility(
                SelectBattlegroupAbility { tick, pgbid: c.pgbid },
            ),
            CommandView::UseAbility(c) => CommandView::UseAbility(
                UseAbility { tick, pgbid: c.pgbid },
            ),
            CommandView::UseBattlegroupAbility(c) => CommandView::UseBattlegroupAbility(
                UseBattlegroupAbility { tick, pgbid: c.pgbid },
            ),
            CommandView::Unknown(c) => CommandView::Unknown(UnknownView { tick, raw: c.raw }),
        }
    }

    /// The same command one tick later.
    pub open spec fn one_tick_later(self) -> CommandView {
        self.at_tick((self.tick() + 1) as u64)
    }
}

impl Command {
    /// The global-upgrade order that `self` holds. Only a command of that kind has one.
    pub fn extract_build_global_upgrade(&self) -> (command: BuildGlobalUpgrade)
        requires
            self is BuildGlobalUpgrade,
        ensures
            *self == Command::BuildGlobalUpgrade(command),
    {
        match self {
            Command::BuildGlobalUpgrade(command) => *command,
            _ => unreached(),
        }
    }

    /// The squad order that `self` holds. Only a command of that kind has one.
    pub fn extract_build_squad(&self) -> (command: BuildSquad)
        requires
            self is BuildSquad,
        ensures
            *self == Command::BuildSquad(command),
    {
        match self {
            Command::BuildSquad(command) => *command,
            _ => unreached(),
        }
    }

    /// The cancelled construction that `self` holds. Only a command of that kind has one.
    pub fn extract_cancel_construction(&self) -> (command: CancelConstruction)
        requires
            self is CancelConstruction,
        ensures
            *self == Command::CancelConstruction(command),
    {
        match self {
            Command::CancelConstruction(command) => *command,
            _ => unreached(),
        }
    }

    /// The cancelled production that `self` holds. Only a command of that kind has one.
    pub fn extract_cancel_production(&self) -> (command: CancelProduction)
        requires
            self is CancelProduction,
        ensures
            *self == Command::CancelProduction(command),
    {
        match self {
            Command::CancelProduction(command) => *command,
            _ => unreached(),
        }
    }

    /// The battlegroup selection that `self` holds. Only a command of that kind has one.
    pub fn extract_select_battlegroup(&self) -> (command: SelectBattlegroup)
        requires
            self is SelectBattlegroup,
        ensures
            *self == Command::SelectBattlegroup(command),
    {
        match self {
            Command::SelectBattlegroup(command) => *command,
            _ => unreached(),
        }
    }

    /// The battlegroup-ability selection that `self` holds. Only a command of that kind has one.
    pub fn extract_select_battlegroup_ability(&self) -> (command: SelectBattlegroupAbility)
        requires
            self is SelectBattlegroupAbility,
        ensures
            *self == Command::SelectBattlegroupAbility(command),
    {
        match self {
            Command::SelectBattlegroupAbility(command) => *command,
            _ => unreached(),
        }
    }

    /// The ability use that `self` holds. Only a command of that kind has one.
    pub fn extract_use_ability(&self) -> (command: UseAbility)
        requires
            self is UseAbility,
        ensures
            *self == Command::UseAbility(command),
    {
        match self {
            Command::UseAbility(command) => *command,
            _ => unreached(),
        }
    }

    /// The battlegroup-ability use that `self` holds. Only a command of that kind has one.
    pub fn extract_use_battlegroup_ability(&self) -> (command: UseBattlegroupAbility)
        requires
            self is UseBattlegroupAbility,
        ensures
            *self == Command::UseBattlegroupAbility(command),
    {
        match self {
            Command::UseBattlegroupAbility(command) => *command,
            _ => unreached(),
        }
    }

    /// The command of no known kind that `self` holds. Only a command of
    /// that kind has one.
    pub fn extract_unknown(&self) -> (command: Unknown)
        requires
            self is Unknown,
        ensures
            self@ == CommandView::Unknown(command@),
    {
        match self {
            Command::Unknown(command) => command.duplicate(),
            _ => unreached(),
        }
    }
}

/// The command that the raw command `data` stands for when it occurred at
/// `tick`: the same kind and fields, without the player id.
pub open spec fn spec_command_from_data(data: CommandDataView, tick: u64) -> CommandView {
    match data {
        CommandDataView::BuildGlobalUpgrade(d) => CommandView::BuildGlobalUpgrade(
            BuildGlobalUpgrade { tick, pgbid: d.pgbid },
        ),
        CommandDataView::BuildSquad(d) => CommandView::BuildSquad(
            BuildSquad { tick, pgbid: d.pgbid, source_identifier: d.source_identifier },
        ),
        CommandDataView::CancelConstruction(d) => CommandView::CancelConstruction(
            CancelConstruction { tick },
        ),
        CommandDataView::CancelProduction(d) => CommandView::CancelProduction(
            CancelProduction { tick },
        ),
        CommandDataView::SelectBattlegroup(d) => CommandView::SelectBattlegroup(
            SelectBattlegroup { tick, pgbid: d.pgbid },
        ),
        CommandDataView::SelectBattlegroupAbility(d) => CommandView::SelectBattlegroupAbility(
            SelectBattlegroupAbility { tick, pgbid: d.pgbid },
        ),
        CommandDataView::UseAbility(d) => CommandView::UseAbility(
            UseAbility { tick, pgbid: d.pgbid },
        ),
        CommandDataView::UseBattlegroupAbility(d) => CommandView::UseBattlegroupAbility(
            UseBattlegroupAbility { tick, pgbid: d.pgbid },
        ),
        CommandDataView::Unknown(d) => CommandView::Unknown(UnknownView { tick, raw: d.raw }),
    }
}

/// The commands of the player `player_id` among `bundles`, in the order of
/// the bundles, each stamped with `tick`.
pub open spec fn spec_bundle_commands(bundles: Seq<Bundle>, tick: u64, player_id: u32) -> Seq<
    CommandView,
>
    decreases bundles.len(),
{
    if bundles.len() == 0 {
        Seq::empty()
    } else {
        let front = spec_bundle_commands(bundles.drop_last(), tick, player_id);
        let data = bundles.last().command@;
        if data.issued_by(player_id) {
            front.push(spec_command_from_data(data, tick))
        } else {
            front
        }
    }
}

/// The bundles of a tick; a tick that is no command tick has none.
pub open spec fn tick_bundles(tick: Tick) -> Seq<Bundle> {
    match tick {
        Tick::Command(command_tick) => command_tick.bundles@,
        Tick::Skipped => Seq::empty(),
    }
}

/// The commands of the player `player_id` in one tick that is the
/// `index`-th of its log. A tick that is no command tick has none.
pub open spec fn spec_tick_commands(tick: Tick, index: u64, player_id: u32) -> Seq<CommandView> {
    spec_bundle_commands(tick_bundles(tick), index, player_id)
}

/// The commands of the player `player_id` in `ticks`, where `base` ticks of
/// the log lie in front of `ticks`: the tick at position `i` counts as the
/// tick `base + i + 1`, whatever its kind.
pub open spec fn spec_commands_from(ticks: Seq<&Tick>, base: int, player_id: u32) -> Seq<
    CommandView,
>
    decreases ticks.len(),
{
    if ticks.len() == 0 {
        Seq::empty()
    } else {
        spec_commands_from(ticks.drop_last(), base, player_id) + spec_tick_commands(
            *ticks.last(),
            (base + ticks.len()) as u64,
            player_id,
        )
    }
}

/// The commands of the player `player_id` in the whole log `ticks`, in the
/// order of the log, each stamped with the one-based index of its tick.
pub open spec fn spec_commands(ticks: Seq<&Tick>, player_id: u32) -> Seq<CommandView> {
    spec_commands_from(ticks, 0, player_id)
}

/// The views of `commands`, in the same order.
pub open spec fn command_views(commands: Seq<Command>) -> Seq<CommandView> {
    commands.map_values(|command: Command| command@)
}

/// Turns one raw command into the command handed out, stamped with `tick`,
/// and tells which player issued it.
pub fn command_from_data(data: &CommandData, tick: u64) -> (r: (Option<u8>, Command))
    ensures
        r.0 == data@.player_id(),
        r.1@ == spec_command_from_data(data@, tick),
{
    match data {
        CommandData::BuildGlobalUpgrade(build_global_upgrade) => (
            Some(build_global_upgrade.player_id),
            Command::BuildGlobalUpgrade(
                BuildGlobalUpgrade::from_data(build_global_upgrade, tick),
            ),
        ),
        CommandData::BuildSquad(build_squad) => (
            Some(build_squad.player_id),
            Command::BuildSquad(BuildSquad::from_data(build_squad, tick)),
        ),
        CommandData::CancelConstruction(cancel_construction) => (
            Some(cancel_construction.player_id),
            Command::CancelConstruction(CancelConstruction::from_data(cancel_construction, tick)),
        ),
        CommandData::CancelProduction(cancel_production) => (
            Some(cancel_production.player_id),
            Command::CancelProduction(CancelProduction::from_data(cancel_production, tick)),
        ),
        CommandData::SelectBattlegroup(select_battlegroup) => (
            Some(select_battlegroup.player_id),
            Command::SelectBattlegroup(SelectBattlegroup::from_data(select_battlegroup, tick)),
        ),
        CommandData::SelectBattlegroupAbility(select_battlegroup_ability) => (
            Some(select_battlegroup_ability.player_id),
            Command::SelectBattlegroupAbility(
                SelectBattlegroupAbility::from_data(select_battlegroup_ability, tick),
            ),
        ),
        CommandData::UseAbility(use_ability) => (
            Some(use_ability.player_id),
            Command::UseAbility(UseAbility::from_data(use_ability, tick)),
        ),
        CommandData::UseBattlegroupAbility(use_battlegroup_ability) => (
            Some(use_battlegroup_ability.player_id),
            Command::UseBattlegroupAbility(
                UseBattlegroupAbility::from_data(use_battlegroup_ability, tick),
            ),
        ),
        CommandData::Unknown(unknown) => (
            unknown.player_id,
            Command::Unknown(Unknown::from_data(unknown, tick)),
        ),
    }
}

/// Gathers the commands that the player `player_id` issued, in the order of
/// the log. Every tick counts, whatever its kind, and a command carries the
/// one-based index of the tick it occurred in.
pub fn commands_from_data(data: &[&Tick], player_id: u32) -> (commands: Vec<Command>)
    ensures
        command_views(commands@) == spec_commands(data@, player_id),
{
    let mut commands: Vec<Command> = Vec::new();
    let mut tick_count: u64 = 0;
    let mut i: usize = 0;
    let count: usize = data.len();
    while i < count
        invariant
            i <= count == data@.len(),
            tick_count == i,
            command_views(commands@) == spec_commands_from(data@.take(i as int), 0, player_id),
        decreases data@.len() - i,
    {
        tick_count += 1;
        let ghost before = command_views(commands@);
        proof {
            assert(data@.take(i + 1).drop_last() =~= data@.take(i as int));
        }
        match data[i] {
            Tick::Command(command_tick) => {
                let mut j: usize = 0;
                while j < command_tick.bundles.len()
                    invariant
                        j <= command_tick.bundles@.len(),
                        command_views(commands@) == before + spec_bundle_commands(
                            command_tick.bundles@.take(j as int),
                            tick_count,
                            player_id,
                        ),
                    decreases command_tick.bundles@.len() - j,
                {
                    let ghost gathered = spec_bundle_commands(
                        command_tick.bundles@.take(j as int),
                        tick_count,
                        player_id,
                    );
                    proof {
                        assert(command_tick.bundles@.take(j + 1).drop_last()
                            =~= command_tick.bundles@.take(j as int));
                    }
                    let (issuer, command) = command_from_data(
                        &command_tick.bundles[j].command,
                        tick_count,
                    );
                    let wanted = match issuer {
                        Some(id) => player_id == id as u32,
                        None => false,
                    };
                    if wanted {
                        commands.push(command);
                        proof {
                            assert(before + gathered.push(command@) =~= (before + gathered).push(
                                command@,
                            ));
                        }
                    }
                    j += 1;
                }
                proof {
                    assert(command_tick.bundles@.take(j as int) =~= command_tick.bundles@);
                }
            },
            Tick::Skipped => {},
        }
        i += 1;
    }
    proof {
        assert(data@.take(i as int) =~= data@);
    }
    commands
}

/// No bundle of `ticks` was issued by the player `player_id`.
pub open spec fn player_absent(ticks: Seq<&Tick>, player_id: u32) -> bool {
    forall|i: int, j: int|
        0 <= i < ticks.len() && 0 <= j < tick_bundles(*ticks[i]).len() ==> !(
        #[trigger] tick_bundles(*ticks[i])[j]).command@.issued_by(player_id)
}

/// The command of one bundle among those of its tick: the command itself
/// where the bundle belongs to the player, and nothing where it does not.
pub open spec fn spec_bundle_command(bundle: Bundle, tick: u64, player_id: u32) -> Seq<
    CommandView,
> {
    if bundle.command@.issued_by(player_id) {
        seq![spec_command_from_data(bundle.command@, tick)]
    } else {
        Seq::empty()
    }
}

/// Every command gathered from the bundles of one tick carries the index of
/// that tick, and there are at most as many as there are bundles.
pub proof fn lemma_bundle_commands_stamped(bundles: Seq<Bundle>, tick: u64, player_id: u32)
    ensures
        spec_bundle_commands(bundles, tick, player_id).len() <= bundles.len(),
        forall|k: int|
            0 <= k < spec_bundle_commands(bundles, tick, player_id).len()
                ==> #[trigger] spec_bundle_commands(bundles, tick, player_id)[k].tick() == tick,
    decreases bundles.len(),
{
    if bundles.len() > 0 {
        lemma_bundle_commands_stamped(bundles.drop_last(), tick, player_id);
    }
}

/// Where no bundle belongs to the player, no command is gathered from them.
pub proof fn lemma_bundle_commands_absent(bundles: Seq<Bundle>, tick: u64, player_id: u32)
    requires
        forall|j: int|
            0 <= j < bundles.len() ==> !(#[trigger] bundles[j]).command@.issued_by(player_id),
    ensures
        spec_bundle_commands(bundles, tick, player_id) == Seq::<CommandView>::empty(),
    decreases bundles.len(),
{
    if bundles.len() > 0 {
        let shorter = bundles.drop_last();
        assert forall|j: int| 0 <= j < shorter.len() implies !(
        #[trigger] shorter[j]).command@.issued_by(player_id) by {
            assert(shorter[j] == bundles[j]);
        }
        lemma_bundle_commands_absent(shorter, tick, player_id);
    }
}

/// Nothing is dropped or merged: where every bundle belongs to the player,
/// there is one command for each bundle, in the order of the bundles, also
/// where two of them are alike.
pub proof fn lemma_own_bundles_all_kept(bundles: Seq<Bundle>, tick: u64, player_id: u32)
    requires
        forall|j: int|
            0 <= j < bundles.len() ==> (#[trigger] bundles[j]).command@.issued_by(player_id),
    ensures
        spec_bundle_commands(bundles, tick, player_id) == bundles.map_values(
            |bundle: Bundle| spec_command_from_data(bundle.command@, tick),
        ),
    decreases bundles.len(),
{
    if bundles.len() > 0 {
        let shorter = bundles.drop_last();
        assert forall|j: int| 0 <= j < shorter.len() implies (
        #[trigger] shorter[j]).command@.issued_by(player_id) by {
            assert(shorter[j] == bundles[j]);
        }
        lemma_own_bundles_all_kept(shorter, tick, player_id);
    }
}

/// No reordering inside a tick: the commands of a tick are those of the
/// bundles in front of the bundle `j`, then the command of the bundle `j`,
/// then those of the bundles behind it.
pub proof fn lemma_bundle_commands_split(
    bundles: Seq<Bundle>,
    j: int,
    tick: u64,
    player_id: u32,
)
    requires
        0 <= j < bundles.len(),
    ensures
        spec_bundle_commands(bundles, tick, player_id) == spec_bundle_commands(
            bundles.take(j),
            tick,
            player_id,
        ) + spec_bundle_command(bundles[j], tick, player_id) + spec_bundle_commands(
            bundles.skip(j + 1),
            tick,
            player_id,
        ),
    decreases bundles.len(),
{
    let whole = spec_bundle_commands(bundles, tick, player_id);
    let front = spec_bundle_commands(bundles.take(j), tick, player_id);
    let own = spec_bundle_command(bundles[j], tick, player_id);
    let back = spec_bundle_commands(bundles.skip(j + 1), tick, player_id);
    let shorter = bundles.drop_last();
    if j == bundles.len() - 1 {
        assert(bundles.take(j) =~= shorter);
        assert(bundles.skip(j + 1) =~= Seq::<Bundle>::empty());
        assert(whole =~= front + own + back);
    } else {
        lemma_bundle_commands_split(shorter, j, tick, player_id);
        assert(shorter.take(j) =~= bundles.take(j));
        assert(shorter.skip(j + 1) =~= bundles.skip(j + 1).drop_last());
        assert(bundles.skip(j + 1).last() == bundles.last());
        let back_front = spec_bundle_commands(shorter.skip(j + 1), tick, player_id);
        let last = spec_bundle_command(bundles.last(), tick, player_id);
        assert(back =~= back_front + last);
        assert(whole =~= spec_bundle_commands(shorter, tick, player_id) + last);
        assert(whole =~= front + own + back);
    }
}

/// Tick counting does not depend on where a log is cut: the commands of a
/// log are those of its first `k` ticks followed by those of the rest, and
/// the rest is numbered on from `k`, whatever the kinds of the first `k`
/// ticks.
pub proof fn lemma_commands_split(ticks: Seq<&Tick>, k: int, base: int, player_id: u32)
    requires
        0 <= k <= ticks.len(),
    ensures
        spec_commands_from(ticks, base, player_id) == spec_commands_from(
            ticks.take(k),
            base,
            player_id,
        ) + spec_commands_from(ticks.skip(k), base + k, player_id),
    decreases ticks.len(),
{
    if k == ticks.len() {
        assert(ticks.take(k) =~= ticks);
    } else {
        let shorter = ticks.drop_last();
        lemma_commands_split(shorter, k, base, player_id);
        assert(shorter.take(k) =~= ticks.take(k));
        assert(shorter.skip(k) =~= ticks.skip(k).drop_last());
    }
}

/// The commands of ticks that are numbered from `base` on carry indices
/// above `base`, up to the number of the last tick, and no command carries
/// a smaller index than one in front of it.
proof fn lemma_ticks_in_range(ticks: Seq<&Tick>, base: int, player_id: u32)
    requires
        0 <= base,
        base + ticks.len() <= u64::MAX,
    ensures
        forall|a: int|
            0 <= a < spec_commands_from(ticks, base, player_id).len() ==> base < (
            #[trigger] spec_commands_from(ticks, base, player_id)[a]).tick() <= base + ticks.len(),
        forall|a: int, b: int|
            0 <= a <= b < spec_commands_from(ticks, base, player_id).len() ==> (
            #[trigger] spec_commands_from(ticks, base, player_id)[a]).tick() <= (
            #[trigger] spec_commands_from(ticks, base, player_id)[b]).tick(),
    decreases ticks.len(),
{
    if ticks.len() > 0 {
        let shorter = ticks.drop_last();
        lemma_ticks_in_range(shorter, base, player_id);
        let front = spec_commands_from(shorter, base, player_id);
        let index = (base + ticks.len()) as u64;
        let last = spec_tick_commands(*ticks.last(), index, player_id);
        lemma_bundle_commands_stamped(tick_bundles(*ticks.last()), index, player_id);
        let whole = spec_commands_from(ticks, base, player_id);
        assert(whole == front + last);
        assert forall|a: int| 0 <= a < whole.len() implies base < (#[trigger] whole[a]).tick()
            <= base + ticks.len() by {
            if a < front.len() {
                assert(whole[a] == front[a]);
            } else {
                assert(whole[a] == last[a - front.len()]);
            }
        }
        assert forall|a: int, b: int| 0 <= a <= b < whole.len() implies (#[trigger] whole[a]).tick()
            <= (#[trigger] whole[b]).tick() by {
            if a < front.len() {
                assert(whole[a] == front[a]);
            } else {
                assert(whole[a] == last[a - front.len()]);
            }
            if b < front.len() {
                assert(whole[b] == front[b]);
            } else {
                assert(whole[b] == last[b - front.len()]);
            }
        }
    }
}

/// The commands of one tick, numbered one higher, are the same commands one
/// tick later.
proof fn lemma_bundle_commands_later(bundles: Seq<Bundle>, tick: u64, player_id: u32)
    requires
        tick < u64::MAX,
    ensures
        spec_bundle_commands(bundles, (tick + 1) as u64, player_id) == spec_bundle_commands(
            bundles,
            tick,
            player_id,
        ).map_values(|command: CommandView| command.one_tick_later()),
    decreases bundles.len(),
{
    let later = spec_bundle_commands(bundles, (tick + 1) as u64, player_id);
    let shifted = spec_bundle_commands(bundles, tick, player_id).map_values(
        |command: CommandView| command.one_tick_later(),
    );
    if bundles.len() > 0 {
        lemma_bundle_commands_later(bundles.drop_last(), tick, player_id);
    }
    assert(later =~= shifted);
}

/// Ticks that are numbered one higher yield the same commands, each one
/// tick later.
proof fn lemma_commands_later(ticks: Seq<&Tick>, base: int, player_id: u32)
    requires
        0 <= base,
        base + ticks.len() < u64::MAX,
    ensures
        spec_commands_from(ticks, base + 1, player_id) == spec_commands_from(
            ticks,
            base,
            player_id,
        ).map_values(|command: CommandView| command.one_tick_later()),
    decreases ticks.len(),
{
    let later = spec_commands_from(ticks, base + 1, player_id);
    let shifted = spec_commands_from(ticks, base, player_id).map_values(
        |command: CommandView| command.one_tick_later(),
    );
    if ticks.len() > 0 {
        lemma_commands_later(ticks.drop_last(), base, player_id);
        lemma_bundle_commands_later(
            tick_bundles(*ticks.last()),
            (base + ticks.len()) as u64,
            player_id,
        );
    }
    assert(later =~= shifted);
}

/// Tick counting: the tick at position `k` of a log is the tick `k + 1`,
/// however many of the ticks in front of it are command ticks. The commands
/// of the log are those of the ticks in front of it, then its own, each
/// stamped `k + 1`, then those of the ticks behind it.
pub proof fn lemma_tick_index(data: &[&Tick], k: int, player_id: u32)
    requires
        0 <= k < data@.len(),
    ensures
        spec_commands(data@, player_id) == spec_commands(data@.take(k), player_id)
            + spec_tick_commands(*data@[k], (k + 1) as u64, player_id) + spec_commands_from(
            data@.skip(k + 1),
            k + 1,
            player_id,
        ),
        forall|j: int|
            0 <= j < spec_tick_commands(*data@[k], (k + 1) as u64, player_id).len()
                ==> #[trigger] spec_tick_commands(*data@[k], (k + 1) as u64, player_id)[j].tick()
                == k + 1,
{
    vstd::slice::axiom_spec_len(data);
    lemma_commands_split(data@, k + 1, 0, player_id);
    let front = data@.take(k + 1);
    assert(front.drop_last() =~= data@.take(k));
    lemma_bundle_commands_stamped(tick_bundles(*data@[k]), (k + 1) as u64, player_id);
}

/// Every bundle of the player is answered by its command, at its place: the
/// command of the bundle `j` of the tick at position `k` stands in the
/// result behind the commands of the ticks in front of that tick and of the
/// bundles in front of that bundle, and it carries the index `k + 1`. This
/// holds of a command of no known kind as of any other: it is handed out as
/// such a command, with its payload, and is neither dropped nor a failure.
pub proof fn lemma_command_at_its_place(data: &[&Tick], k: int, j: int, player_id: u32)
    requires
        0 <= k < data@.len(),
        0 <= j < tick_bundles(*data@[k]).len(),
        tick_bundles(*data@[k])[j].command@.issued_by(player_id),
    ensures
        ({
            let bundles = tick_bundles(*data@[k]);
            let place = (spec_commands(data@.take(k), player_id).len() + spec_bundle_commands(
                bundles.take(j),
                (k + 1) as u64,
                player_id,
            ).len()) as int;
            let command = spec_commands(data@, player_id)[place];
            &&& place < spec_commands(data@, player_id).len()
            &&& command == spec_command_from_data(bundles[j].command@, (k + 1) as u64)
            &&& command.tick() == k + 1
            &&& bundles[j].command@ matches CommandDataView::Unknown(unknown)
                ==> command == CommandView::Unknown(
                UnknownView { tick: (k + 1) as u64, raw: unknown.raw },
            )
        }),
{
    vstd::slice::axiom_spec_len(data);
    let index = (k + 1) as u64;
    let bundles = tick_bundles(*data@[k]);
    lemma_tick_index(data, k, player_id);
    lemma_bundle_commands_split(bundles, j, index, player_id);
    let before = spec_commands(data@.take(k), player_id);
    let front = spec_bundle_commands(bundles.take(j), index, player_id);
    let own = spec_bundle_command(bundles[j], index, player_id);
    let back = spec_bundle_commands(bundles.skip(j + 1), index, player_id);
    let behind = spec_commands_from(data@.skip(k + 1), k + 1, player_id);
    let whole = spec_commands(data@, player_id);
    assert(whole == before + (front + own + back) + behind);
    assert(own[0] == spec_command_from_data(bundles[j].command@, index));
    assert(whole[(before.len() + front.len()) as int] == own[0]);
}

/// The counter counts every tick: a tick without commands that is put into
/// a log at the position `k` changes nothing in the commands of the ticks in
/// front of it and moves each command of the ticks behind it one tick on.
/// No command is added, lost or moved to another place.
pub proof fn lemma_skipped_tick_counts(data: &[&Tick], longer: &[&Tick], k: int, player_id: u32)
    requires
        0 <= k <= data@.len(),
        k < longer@.len(),
        longer@ == data@.insert(k, longer@[k]),
        !(*longer@[k] is Command),
    ensures
        spec_commands(longer@, player_id).len() == spec_commands(data@, player_id).len(),
        forall|i: int|
            0 <= i < spec_commands(data@, player_id).len() ==> #[trigger] spec_commands(
                longer@,
                player_id,
            )[i] == if spec_commands(data@, player_id)[i].tick() <= k {
                spec_commands(data@, player_id)[i]
            } else {
                spec_commands(data@, player_id)[i].one_tick_later()
            },
{
    vstd::slice::axiom_spec_len(data);
    vstd::slice::axiom_spec_len(longer);
    let before = spec_commands(data@, player_id);
    let after = spec_commands(longer@, player_id);
    let front = spec_commands(data@.take(k), player_id);
    let back = spec_commands_from(data@.skip(k), k, player_id);
    let back_later = spec_commands_from(data@.skip(k), k + 1, player_id);
    assert(longer@.len() == data@.len() + 1);
    lemma_commands_split(data@, k, 0, player_id);
    lemma_commands_split(longer@, k + 1, 0, player_id);
    assert(longer@.take(k + 1).drop_last() =~= data@.take(k));
    assert(longer@.take(k + 1).last() == longer@[k]);
    assert(longer@.skip(k + 1) =~= data@.skip(k));
    assert(spec_tick_commands(*longer@[k], (k + 1) as u64, player_id) =~= Seq::<
        CommandView,
    >::empty());
    assert(spec_commands(longer@.take(k + 1), player_id) =~= front);
    assert(before == front + back);
    assert(after == front + back_later);
    lemma_commands_later(data@.skip(k), k, player_id);
    lemma_ticks_in_range(data@.take(k), 0, player_id);
    lemma_ticks_in_range(data@.skip(k), k, player_id);
    assert forall|i: int| 0 <= i < before.len() implies #[trigger] after[i] == if before[i].tick()
        <= k {
        before[i]
    } else {
        before[i].one_tick_later()
    } by {
        if i < front.len() {
            assert(before[i] == front[i]);
            assert(after[i] == front[i]);
        } else {
            assert(before[i] == back[i - front.len()]);
            assert(after[i] == back_later[i - front.len()]);
        }
    }
}

/// Player filtering: a player that issued none of the bundles of a log has
/// no commands in it.
pub proof fn lemma_absent_player_has_no_commands(ticks: Seq<&Tick>, base: int, player_id: u32)
    requires
        player_absent(ticks, player_id),
    ensures
        spec_commands_from(ticks, base, player_id) == Seq::<CommandView>::empty(),
    decreases ticks.len(),
{
    if ticks.len() > 0 {
        let shorter = ticks.drop_last();
        assert forall|i: int, j: int|
            0 <= i < shorter.len() && 0 <= j < tick_bundles(*shorter[i]).len() implies !(
        #[trigger] tick_bundles(*shorter[i])[j]).command@.issued_by(player_id) by {
            assert(shorter[i] == ticks[i]);
        }
        lemma_absent_player_has_no_commands(shorter, base, player_id);
        let bundles = tick_bundles(*ticks.last());
        assert forall|j: int| 0 <= j < bundles.len() implies !(
        #[trigger] bundles[j]).command@.issued_by(player_id) by {
            assert(bundles[j] == tick_bundles(*ticks[ticks.len() - 1])[j]);
        }
        lemma_bundle_commands_absent(bundles, (base + ticks.len()) as u64, player_id);
    }
}

/// Order: the commands of a log come out in the order of its ticks. Each
/// carries a tick index between one and the number of ticks, and no command
/// carries a smaller index than one in front of it; commands of one tick
/// stand side by side.
pub proof fn lemma_commands_in_tick_order(data: &[&Tick], player_id: u32)
    ensures
        forall|a: int|
            0 <= a < spec_commands(data@, player_id).len() ==> 1 <= (#[trigger] spec_commands(
                data@,
                player_id,
            )[a]).tick() <= data@.len(),
        forall|a: int, b: int|
            0 <= a <= b < spec_commands(data@, player_id).len() ==> (#[trigger] spec_commands(
                data@,
                player_id,
            )[a]).tick() <= (#[trigger] spec_commands(data@, player_id)[b]).tick(),
{
    vstd::slice::axiom_spec_len(data);
    lemma_ticks_in_range(data@, 0, player_id);
}

/// Idempotence: two gatherings from the same log for the same player hold
/// the same commands in the same order.
pub proof fn lemma_commands_are_repeatable(
    ticks: Seq<&Tick>,
    player_id: u32,
    commands1: Seq<Command>,
    commands2: Seq<Command>,
)
    requires
        command_views(commands1) == spec_commands(ticks, player_id),
        command_views(commands2) == spec_commands(ticks, player_id),
    ensures
        commands1.len() == commands2.len(),
        forall|k: int| 0 <= k < commands1.len() ==> (#[trigger] commands1[k])@ == commands2[k]@,
{
    assert(command_views(commands1).len() == commands1.len());
    assert(command_views(commands2).len() == commands2.len());
    assert forall|k: int| 0 <= k < commands1.len() implies (#[trigger] commands1[k])@
        == commands2[k]@ by {
        assert(command_views(commands1)[k] == commands1[k]@);
        assert(command_views(commands2)[k] == commands2[k]@);
    }
}

} // verus!

//! The raw payloads of player commands, one kind per variant, as they come
//! out of the tick log.

pub mod build_squad;

use crate::data::commands::build_squad::{
    spec_build_squad, BuildSquad, BUILD_SQUAD_ACTION_TYPE,
};
use crate::data::span::{decodes, Span};
use crate::errors::ParseError;
use vstd::prelude::*;
use vstd::slice::slice_to_vec;

verus! {

/// The raw payload of a global-upgrade order.
#[derive(Clone, Copy, Debug, PartialEq, Eq)]
pub struct BuildGlobalUpgrade {
    pub player_id: u8,
    pub pgbid: u32,
}

/// The raw payload of an order that cancels a construction.
#[derive(Clone, Copy, Debug, PartialEq, Eq)]
pub struct CancelConstruction {
    pub player_id: u8,
}

/// The raw payload of an order that cancels a production.
#[derive(Clone, Copy, Debug, PartialEq, Eq)]
pub struct CancelProduction {
    pub player_id: u8,
}

/// The raw payload of a battlegroup selection.
#[derive(Clone, Copy, Debug, PartialEq, Eq)]
pub struct SelectBattlegroup {
    pub player_id: u8,
    pub pgbid: u32,
}

/// The raw payload of a battlegroup-ability selection.
#[derive(Clone, Copy, Debug, PartialEq, Eq)]
pub struct SelectBattlegroupAbility {
    pub player_id: u8,
    pub pgbid: u32,
}

/// The raw payload of an ability use.
#[derive(Clone, Copy, Debug, PartialEq, Eq)]
pub struct UseAbility {
    pub player_id: u8,
    pub pgbid: u32,
}

/// The raw payload of a battlegroup-ability use.
#[derive(Clone, Copy, Debug, PartialEq, Eq)]
pub struct UseBattlegroupAbility {
    pub player_id: u8,
    pub pgbid: u32,
}

/// A payload of a kind that has no decoder of its own, kept as it was found.
#[derive(Clone, Debug, PartialEq, Eq)]
pub struct Unknown {
    /// The issuing player, where the payload is long enough to hold one.
    pub player_id: Option<u8>,
    /// The whole payload.
    pub raw: Vec<u8>,
}

/// What an [`Unknown`] payload is, as mathematics.
pub struct UnknownView {
    pub player_id: Option<u8>,
    pub raw: Seq<u8>,
}

impl View for Unknown {
    type V = UnknownView;

    open spec fn view(&self) -> UnknownView {
        UnknownView { player_id: self.player_id, raw: self.raw@ }
    }
}

/// One raw command, tagged by its kind.
#[derive(Clone, Debug, PartialEq, Eq)]
pub enum CommandData {
    BuildGlobalUpgrade(BuildGlobalUpgrade),
    BuildSquad(BuildSquad),
    CancelConstruction(CancelConstruction),
    CancelProduction(CancelProduction),
    SelectBattlegroup(SelectBattlegroup),
    SelectBattlegroupAbility(SelectBattlegroupAbility),
    UseAbility(UseAbility),
    UseBattlegroupAbility(UseBattlegroupAbility),
    Unknown(Unknown),
}

/// What a [`CommandData`] is, as mathematics.
pub enum CommandDataView {
    BuildGlobalUpgrade(BuildGlobalUpgrade),
    BuildSquad(BuildSquad),
    CancelConstruction(CancelConstruction),
    CancelProduction(CancelProduction),
    SelectBattlegroup(SelectBattlegroup),
    SelectBattlegroupAbility(SelectBattlegroupAbility),
    UseAbility(UseAbility),
    UseBattlegroupAbility(UseBattlegroupAbility),
    Unknown(UnknownView),
}

impl View for CommandData {
    type V = CommandDataView;

    open spec fn view(&self) -> CommandDataView {
        match *self {
            CommandData::BuildGlobalUpgrade(c) => CommandDataView::BuildGlobalUpgrade(c),
            CommandData::BuildSquad(c) => CommandDataView::BuildSquad(c),
            CommandData::CancelConstruction(c) => CommandDataView::CancelConstruction(c),
            CommandData::CancelProduction(c) => CommandDataView::CancelProduction(c),
            CommandData::SelectBattlegroup(c) => CommandDataView::SelectBattlegroup(c),
            CommandData::SelectBattlegroupAbility(c) => CommandDataView::SelectBattlegroupAbility(
                c,
            ),
            CommandData::UseAbility(c) => CommandDataView::UseAbility(c),
            CommandData::UseBattlegroupAbility(c) => CommandDataView::UseBattlegroupAbility(c),
            CommandData::Unknown(c) => CommandDataView::Unknown(c@),
        }
    }
}

impl CommandDataView {
    /// The player that issued the command, where one is known.
    pub open spec fn player_id(self) -> Option<u8> {
        match self {
            CommandDataView::BuildGlobalUpgrade(c) => Some(c.player_id),
            CommandDataView::BuildSquad(c) => Some(c.player_id),
            CommandDataView::CancelConstruction(c) => Some(c.player_id),
            CommandDataView::CancelProduction(c) => Some(c.player_id),
            CommandDataView::SelectBattlegroup(c) => Some(c.player_id),
            CommandDataView::SelectBattlegroupAbility(c) => Some(c.player_id),
            CommandDataView::UseAbility(c) => Some(c.player_id),
            CommandDataView::UseBattlegroupAbility(c) => Some(c.player_id),
            CommandDataView::Unknown(c) => c.player_id,
        }
    }

    /// Whether the command was issued by the player with the id `player_id`.
    pub open spec fn issued_by(self, player_id: u32) -> bool {
        self.player_id() matches Some(id) && id as u32 == player_id
    }
}


/// The kind under which a bundle hands over an order to build a squad. The
/// kind is the tag of the bundle, by which a decoder is picked; it is not
/// the action-type byte inside the payload, which the decoder that was
/// picked checks for itself. The format at hand does not give the value:
/// it is a choice of this library.
pub const BUILD_SQUAD_KIND: u8 = 3;

/// The place of the player id in a command payload: behind two leading bytes
/// and the action-type byte.
pub const PLAYER_ID_OFFSET: usize = 3;

/// What a payload of no known kind is kept as: all of it, with the byte in
/// the place of the player id where the payload reaches that far. Nothing is
/// left over and nothing can fail.
pub open spec fn spec_unknown(bytes: Seq<u8>) -> Result<(CommandDataView, Seq<u8>), ParseError> {
    Ok(
        (
            CommandDataView::Unknown(
                UnknownView {
                    player_id: if bytes.len() > PLAYER_ID_OFFSET {
                        Some(bytes[PLAYER_ID_OFFSET as int])
                    } else {
                        None
                    },
                    raw: bytes,
                },
            ),
            Seq::empty(),
        ),
    )
}

/// The decode of a payload that its bundle tags as `kind`: by the decoder of
/// that kind where there is one, else as a payload of no known kind. The
/// squad order is the one kind with a decoder.
pub open spec fn spec_command(kind: u8, bytes: Seq<u8>) -> Result<
    (CommandDataView, Seq<u8>),
    ParseError,
> {
    if kind == BUILD_SQUAD_KIND {
        spec_build_squad(bytes)
    } else {
        spec_unknown(bytes)
    }
}

impl Unknown {
    /// Keeps a payload of no known kind as it is. Never fails, and leaves
    /// nothing of the payload over.
    pub fn parse_command<'a>(input: Span<'a>) -> (r: Result<(Span<'a>, CommandData), ParseError>)
        ensures
            decodes(input, r, spec_unknown(input.remaining())),
            r is Ok,
    {
        let bytes = input.fragment();
        let player_id = if bytes.len() > PLAYER_ID_OFFSET {
            Some(bytes[PLAYER_ID_OFFSET])
        } else {
            None
        };
        match input.take(bytes.len()) {
            Ok((rest, _)) => {
                assert(rest.remaining() =~= Seq::<u8>::empty());
                Ok((rest, CommandData::Unknown(Unknown { player_id, raw: slice_to_vec(bytes) })))
            },
            Err(_) => unreached(),
        }
    }
}

impl CommandData {
    /// Decodes the payload of a bundle that is tagged as `kind`. A kind that
    /// has a decoder is decoded by it, and fails as that decoder fails; a
    /// payload of any other kind is kept raw, which never fails.
    pub fn parse_command<'a>(kind: u8, input: Span<'a>) -> (r: Result<
        (Span<'a>, CommandData),
        ParseError,
    >)
        ensures
            decodes(input, r, spec_command(kind, input.remaining())),
            kind != BUILD_SQUAD_KIND ==> r is Ok,
    {
        if kind == BUILD_SQUAD_KIND {
            BuildSquad::parse_command(input)
        } else {
            Unknown::parse_command(input)
        }
    }
}

/// Discriminant enforcement behind the dispatch: a payload that its bundle
/// tags as a squad order is held to the action-type byte of a squad order.
/// Where that byte can be read and is another one, the decode fails with
/// `UnexpectedDiscriminant`; it does not fall back to a raw capture.
pub proof fn lemma_tagged_squad_order_is_held_to_its_discriminant(bytes: Seq<u8>)
    requires
        bytes.len() >= 3,
        bytes[2] != BUILD_SQUAD_ACTION_TYPE,
    ensures
        spec_command(BUILD_SQUAD_KIND, bytes) == Err::<(CommandDataView, Seq<u8>), ParseError>(
            ParseError::UnexpectedDiscriminant,
        ),
{
}

/// Fallback safety: a payload that its bundle tags as a kind without a
/// decoder is kept as a command of no known kind, whole, and the decode
/// does not fail.
pub proof fn lemma_unrecognized_command_is_unknown(kind: u8, bytes: Seq<u8>)
    requires
        kind != BUILD_SQUAD_KIND,
    ensures
        ({
            &&& spec_command(kind, bytes) matches Ok((command, rest))
            &&& command matches CommandDataView::Unknown(unknown)
            &&& unknown.raw == bytes
            &&& rest.len() == 0
        }),
{
}

} // verus!

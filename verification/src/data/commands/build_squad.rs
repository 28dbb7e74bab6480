//! The order to build a squad and its layout in a command payload.

use crate::data::commands::{CommandData, CommandDataView};
use crate::data::parser::{spec_verify_u8, verify_le_u8};
use crate::data::span::{decodes, spec_le_u16, spec_le_u32, Span};
use crate::errors::ParseError;
use vstd::prelude::*;

verus! {

/// The action-type byte of an order to build a squad.
pub const BUILD_SQUAD_ACTION_TYPE: u8 = 3;

/// The number of bytes that the payload of an order to build a squad
/// occupies.
pub const BUILD_SQUAD_LENGTH: usize = 39;

/// The raw payload of an order to build a squad.
#[derive(Clone, Copy, Debug, PartialEq, Eq)]
pub struct BuildSquad {
    pub player_id: u8,
    pub pgbid: u32,
    pub source_identifier: u16,
}

/// The layout of an order to build a squad: two bytes that are passed over,
/// the action-type byte, the player id, twenty-six bytes that are passed
/// over, the 16-bit source identifier, three bytes that are passed over, and
/// the 32-bit `pgbid`. The action type is checked as soon as it can be read.
pub open spec fn spec_build_squad(bytes: Seq<u8>) -> Result<
    (CommandDataView, Seq<u8>),
    ParseError,
> {
    if bytes.len() < 3 {
        Err(ParseError::InsufficientBytes)
    } else if bytes[2] != BUILD_SQUAD_ACTION_TYPE {
        Err(ParseError::UnexpectedDiscriminant)
    } else if bytes.len() < BUILD_SQUAD_LENGTH {
        Err(ParseError::InsufficientBytes)
    } else {
        Ok(
            (
                CommandDataView::BuildSquad(
                    BuildSquad {
                        player_id: bytes[3],
                        pgbid: spec_le_u32(bytes.skip(35)),
                        source_identifier: spec_le_u16(bytes.skip(30)),
                    },
                ),
                bytes.skip(BUILD_SQUAD_LENGTH as int),
            ),
        )
    }
}

impl BuildSquad {
    /// Decodes an order to build a squad. Fails with `InsufficientBytes`
    /// when the payload ends too early, and with `UnexpectedDiscriminant`
    /// when its action-type byte is not that of a squad order.
    pub fn parse_command<'a>(input: Span<'a>) -> (r: Result<(Span<'a>, CommandData), ParseError>)
        ensures
            decodes(input, r, spec_build_squad(input.remaining())),
    {
        let ghost bytes = input.remaining();
        let (input1, _) = match input.skip(2) {
            Ok(pair) => pair,
            Err(e) => { return Err(e); },
        };
        let (input2, _) = match Self::verify_action_type(input1) {
            Ok(pair) => pair,
            Err(e) => { return Err(e); },
        };
        let (input3, player_id) = match input2.read_u8() {
            Ok(pair) => pair,
            Err(e) => { return Err(e); },
        };
        let (input4, _) = match input3.skip(26) {
            Ok(pair) => pair,
            Err(e) => { return Err(e); },
        };
        let (input5, source_identifier) = match input4.read_u16() {
            Ok(pair) => pair,
            Err(e) => { return Err(e); },
        };
        let (input6, _) = match input5.skip(3) {
            Ok(pair) => pair,
            Err(e) => { return Err(e); },
        };
        let (input7, pgbid) = match input6.read_u32() {
            Ok(pair) => pair,
            Err(e) => { return Err(e); },
        };
        assert(input7.remaining() =~= bytes.skip(39));
        Ok((input7, CommandData::BuildSquad(BuildSquad { player_id, pgbid, source_identifier })))
    }

    /// Reads the action-type byte and checks that it is that of a squad
    /// order.
    pub fn verify_action_type<'a>(input: Span<'a>) -> (r: Result<(Span<'a>, u8), ParseError>)
        ensures
            decodes(input, r, spec_verify_u8(input.remaining(), BUILD_SQUAD_ACTION_TYPE)),
    {
        verify_le_u8(input, BUILD_SQUAD_ACTION_TYPE)
    }
}

/// Discriminant enforcement: a payload whose action-type byte can be read
/// and is not that of a squad order fails with `UnexpectedDiscriminant`,
/// whatever else it holds.
pub proof fn lemma_discriminant_enforced(bytes: Seq<u8>)
    requires
        bytes.len() >= 3,
        bytes[2] != BUILD_SQUAD_ACTION_TYPE,
    ensures
        spec_build_squad(bytes) == Err::<(CommandDataView, Seq<u8>), ParseError>(
            ParseError::UnexpectedDiscriminant,
        ),
{
}

} // verus!

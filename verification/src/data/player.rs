//! The player records of a data chunk. Their layout differs from one replay
//! version to the next and is not fixed here: a caller passes the decoder of
//! one record, and the chunk decoder runs it on each record in turn.

use crate::data::span::{decodes, Span};
use crate::errors::ParseError;
use vstd::prelude::*;

verus! {

/// What a player record holds.
#[derive(Clone, Debug, PartialEq, Eq)]
pub struct Player {
    /// The id under which the player's commands stand in the tick log.
    pub id: u32,
    pub name: String,
    pub faction: String,
    pub team: u32,
    pub battlegroup: Option<u32>,
}

/// What a [`Player`] is, as mathematics.
pub struct PlayerView {
    pub id: u32,
    pub name: Seq<char>,
    pub faction: Seq<char>,
    pub team: u32,
    pub battlegroup: Option<u32>,
}

impl View for Player {
    type V = PlayerView;

    open spec fn view(&self) -> PlayerView {
        PlayerView {
            id: self.id,
            name: self.name@,
            faction: self.faction@,
            team: self.team,
            battlegroup: self.battlegroup,
        }
    }
}

/// What a record decoder said of a record: the player and the number of
/// bytes that the record occupies, or why there is none.
pub open spec fn record_view(outcome: Result<(Player, usize), ParseError>) -> Result<
    (PlayerView, nat),
    ParseError,
> {
    match outcome {
        Ok((player, length)) => Ok((player@, length as nat)),
        Err(e) => Err(e),
    }
}

/// What a record decoder has to be for the replay version `version`: it can
/// be run on any bytes, and what it says depends on the bytes alone.
pub open spec fn is_record_decoder<'a, F: Fn(&'a [u8], u16) -> Result<(Player, usize), ParseError>>(
    decoder: &F,
    version: u16,
) -> bool {
    &&& forall|bytes: &'a [u8]| decoder.requires((bytes, version))
    &&& forall|
        bytes1: &'a [u8],
        bytes2: &'a [u8],
        outcome1: Result<(Player, usize), ParseError>,
        outcome2: Result<(Player, usize), ParseError>,
    |
        #![trigger
            decoder.ensures((bytes1, version), outcome1),
            decoder.ensures((bytes2, version), outcome2)
        ]
        bytes1@ == bytes2@ && decoder.ensures((bytes1, version), outcome1) && decoder.ensures(
            (bytes2, version),
            outcome2,
        ) ==> record_view(outcome1) == record_view(outcome2)
}

/// Whether `decoder`, run on `bytes`, may say `said`.
pub open spec fn may_say<'a, F: Fn(&'a [u8], u16) -> Result<(Player, usize), ParseError>>(
    decoder: &F,
    bytes: Seq<u8>,
    version: u16,
    said: Result<(PlayerView, nat), ParseError>,
) -> bool {
    exists|input: &'a [u8], outcome: Result<(Player, usize), ParseError>|
        input@ == bytes && #[trigger] decoder.ensures((input, version), outcome) && said
            == record_view(outcome)
}

/// What `decoder` says of the record at the front of `bytes`.
pub open spec fn spec_record<'a, F: Fn(&'a [u8], u16) -> Result<(Player, usize), ParseError>>(
    decoder: &F,
    bytes: Seq<u8>,
    version: u16,
) -> Result<(PlayerView, nat), ParseError> {
    choose|said: Result<(PlayerView, nat), ParseError>| may_say(decoder, bytes, version, said)
}

/// One player record at the front of `bytes`: the player that `decoder`
/// finds there, and the bytes behind the record. A record that is said to
/// reach beyond the bytes is a failure with `InsufficientBytes`.
pub open spec fn spec_player<'a, F: Fn(&'a [u8], u16) -> Result<(Player, usize), ParseError>>(
    decoder: &F,
    bytes: Seq<u8>,
    version: u16,
) -> Result<(PlayerView, Seq<u8>), ParseError> {
    match spec_record(decoder, bytes, version) {
        Ok((player, length)) => if length <= bytes.len() {
            Ok((player, bytes.skip(length as int)))
        } else {
            Err(ParseError::InsufficientBytes)
        },
        Err(e) => Err(e),
    }
}

impl Player {
    /// Decodes one player record with `decoder` and passes over the bytes
    /// that the record occupies. Fails as `decoder` fails, and with
    /// `InsufficientBytes` when the record is said to be longer than what is
    /// left.
    pub fn parse_player<'a, F: Fn(&'a [u8], u16) -> Result<(Player, usize), ParseError>>(
        input: Span<'a>,
        version: u16,
        decoder: &F,
    ) -> (r: Result<(Span<'a>, Player), ParseError>)
        requires
            is_record_decoder(decoder, version),
        ensures
            decodes(input, r, spec_player(decoder, input.remaining(), version)),
    {
        let bytes = input.fragment();
        let outcome = decoder(bytes, version);
        proof {
            let said = record_view(outcome);
            assert(may_say(decoder, input.remaining(), version, said));
        }
        match outcome {
            Ok((player, length)) => match input.skip(length) {
                Ok((rest, _)) => Ok((rest, player)),
                Err(e) => Err(e),
            },
            Err(e) => Err(e),
        }
    }
}

} // verus!

//! The data record: the settings of a match and the players that took part
//! in it.

use crate::data::chunks::{spec_trash, Chunk, ChunkView, Header, TrashDataChunk};
use crate::data::parser::{
    length_data, lemma_repeat_step, parse_utf8_variable, spec_length_data, spec_prepend,
    spec_repeat, spec_utf8_variable,
};
use crate::data::player::{is_record_decoder, spec_player, Player, PlayerView};
use crate::data::span::{
    decodes, decodes_all, spec_le_u32, spec_read_u32, spec_read_u64, spec_skip, spec_take, views,
    Span,
};
use crate::errors::ParseError;
use vstd::prelude::*;

verus! {

/// A named numeric setting of a match.
#[derive(Clone, Debug, PartialEq, Eq)]
pub struct Option {
    pub name: String,
    pub value: u32,
}

/// What an [`Option`] is, as mathematics.
pub struct OptionView {
    pub name: Seq<char>,
    pub value: u32,
}

impl View for Option {
    type V = OptionView;

    open spec fn view(&self) -> OptionView {
        OptionView { name: self.name@, value: self.value }
    }
}

/// The layout of a setting: its name as a length-prefixed string, then its
/// 32-bit value.
pub open spec fn spec_option(bytes: Seq<u8>) -> Result<(OptionView, Seq<u8>), ParseError> {
    match spec_utf8_variable(bytes) {
        Ok((name, rest)) => match spec_read_u32(rest) {
            Ok((value, rest)) => Ok((OptionView { name, value }, rest)),
            Err(e) => Err(e),
        },
        Err(e) => Err(e),
    }
}

/// The number of settings in a list: the product of the two 32-bit fields in
/// front of the list.
pub open spec fn spec_options_length(bytes: Seq<u8>) -> Result<(u64, Seq<u8>), ParseError> {
    if bytes.len() < 8 {
        Err(ParseError::InsufficientBytes)
    } else {
        Ok(((spec_le_u32(bytes) * spec_le_u32(bytes.skip(4))) as u64, bytes.skip(8)))
    }
}

/// The decoder of one setting, as an element of a sequence.
pub open spec fn option_element() -> spec_fn(Seq<u8>) -> Result<(OptionView, Seq<u8>), ParseError> {
    |bytes: Seq<u8>| spec_option(bytes)
}

/// The list of settings: the two fields of its length, then that many
/// settings.
pub open spec fn spec_option_list(bytes: Seq<u8>) -> Result<
    (Seq<OptionView>, Seq<u8>),
    ParseError,
> {
    match spec_options_length(bytes) {
        Ok((count, rest)) => spec_repeat(option_element(), rest, count as nat),
        Err(e) => Err(e),
    }
}

/// The decoder of one player record, as an element of a sequence.
pub open spec fn player_element<'a, F: Fn(&'a [u8], u16) -> Result<(Player, usize), ParseError>>(
    decoder: &F,
    version: u16,
) -> spec_fn(Seq<u8>) -> Result<(PlayerView, Seq<u8>), ParseError> {
    |bytes: Seq<u8>| spec_player(decoder, bytes, version)
}

/// The list of players: a 32-bit count, then that many player records.
pub open spec fn spec_player_list<'a, F: Fn(&'a [u8], u16) -> Result<(Player, usize), ParseError>>(
    decoder: &F,
    bytes: Seq<u8>,
    version: u16,
) -> Result<(Seq<PlayerView>, Seq<u8>), ParseError> {
    match spec_read_u32(bytes) {
        Ok((count, rest)) => spec_repeat(player_element(decoder, version), rest, count as nat),
        Err(e) => Err(e),
    }
}

/// The record of a match.
#[derive(Clone, Debug, PartialEq, Eq)]
pub struct DataDataChunk {
    pub header: Header,
    pub opponent_type: u32,
    pub players: Vec<Player>,
    pub matchhistory_id: u64,
    pub options: Vec<Option>,
    pub unknown_string: String,
}

/// What a [`DataDataChunk`] is, as mathematics.
pub struct DataDataChunkView {
    pub header: Header,
    pub opponent_type: u32,
    pub players: Seq<PlayerView>,
    pub matchhistory_id: u64,
    pub options: Seq<OptionView>,
    pub unknown_string: Seq<char>,
}

impl View for DataDataChunk {
    type V = DataDataChunkView;

    open spec fn view(&self) -> DataDataChunkView {
        DataDataChunkView {
            header: self.header,
            opponent_type: self.opponent_type,
            players: views(self.players@),
            matchhistory_id: self.matchhistory_id,
            options: views(self.options@),
            unknown_string: self.unknown_string@,
        }
    }
}

/// The layout of the body of a data record, field behind field: the
/// opponent type, six bytes that are passed over, the list of players, two
/// length-prefixed blocks of bytes that are passed over, the 64-bit
/// match-history id, sixteen bytes that are passed over, the list of
/// settings, twelve bytes that are passed over, and a length-prefixed
/// string. What is left of `bytes` behind the string is handed back.
pub open spec fn spec_data_body<'a, F: Fn(&'a [u8], u16) -> Result<(Player, usize), ParseError>>(
    decoder: &F,
    bytes: Seq<u8>,
    header: Header,
    version: u16,
) -> Result<(DataDataChunkView, Seq<u8>), ParseError> {
    match spec_read_u32(bytes) {
        Err(e) => Err(e),
        Ok((opponent_type, rest)) => match spec_skip(rest, 6) {
            Err(e) => Err(e),
            Ok((_, rest)) => match spec_player_list(decoder, rest, version) {
                Err(e) => Err(e),
                Ok((players, rest)) => match spec_length_data(rest) {
                    Err(e) => Err(e),
                    Ok((_, rest)) => match spec_length_data(rest) {
                        Err(e) => Err(e),
                        Ok((_, rest)) => match spec_read_u64(rest) {
                            Err(e) => Err(e),
                            Ok((matchhistory_id, rest)) => match spec_skip(rest, 16) {
                                Err(e) => Err(e),
                                Ok((_, rest)) => match spec_option_list(rest) {
                                    Err(e) => Err(e),
                                    Ok((options, rest)) => match spec_skip(rest, 12) {
                                        Err(e) => Err(e),
                                        Ok((_, rest)) => match spec_utf8_variable(rest) {
                                            Err(e) => Err(e),
                                            Ok((unknown_string, rest)) => Ok(
                                                (
                                                    DataDataChunkView {
                                                        header,
                                                        opponent_type,
                                                        players,
                                                        matchhistory_id,
                                                        options,
                                                        unknown_string,
                                                    },
                                                    rest,
                                                ),
                                            ),
                                        },
                                    },
                                },
                            },
                        },
                    },
                },
            },
        },
    }
}

/// A data record behind its header. A record of layout version one is kept
/// raw. Any other is framed by the declared length: its body is the next
/// `header.length` bytes and the fields are decoded from those bytes alone.
/// A failure of a field is the failure of the record, unchanged; so a field
/// that asks for more than the body holds fails with `InsufficientBytes`.
/// Fields that end before the body does are a `FramingViolation`.
pub open spec fn spec_data_chunk<'a, F: Fn(&'a [u8], u16) -> Result<(Player, usize), ParseError>>(
    decoder: &F,
    bytes: Seq<u8>,
    header: Header,
    version: u16,
) -> Result<(ChunkView, Seq<u8>), ParseError> {
    if header.version == 1 {
        spec_trash(bytes, header)
    } else {
        match spec_take(bytes, header.length as nat) {
            Err(e) => Err(e),
            Ok((body, rest)) => match spec_data_body(decoder, body, header, version) {
                Ok((chunk, left)) => if left.len() == 0 {
                    Ok((ChunkView::DataData(chunk), rest))
                } else {
                    Err(ParseError::FramingViolation)
                },
                Err(e) => Err(e),
            },
        }
    }
}

impl Option {
    /// Decodes one setting. Fails with `InsufficientBytes` when the name or
    /// the value is not all there, and with `InvalidEncoding` when the name
    /// is not well-formed UTF-8.
    pub fn parse_option<'a>(input: Span<'a>) -> (r: Result<(Span<'a>, Option), ParseError>)
        ensures
            decodes(input, r, spec_option(input.remaining())),
    {
        let (input1, name) = match parse_utf8_variable(input) {
            Ok(pair) => pair,
            Err(e) => { return Err(e); },
        };
        match input1.read_u32() {
            Ok((rest, value)) => Ok((rest, Option { name, value })),
            Err(e) => Err(e),
        }
    }
}

impl DataDataChunk {
    /// Decodes a data record behind its header `header`, in a replay of the
    /// version `version`, whose player records `decoder` decodes.
    ///
    /// A record of layout version one is kept raw. Any other is committed
    /// to: its body is the next `header.length` bytes (`InsufficientBytes`
    /// when they are not there), and its fields are decoded one behind the
    /// other from the body alone. The first field that fails is the failure
    /// of the record, as it is: `InsufficientBytes` where a field asks for
    /// more bytes than the body holds, `InvalidEncoding` for a string that
    /// is not UTF-8, and whatever `decoder` fails with. Fields that end
    /// before the body does are a `FramingViolation`. So a record is
    /// yielded only where the fields fill the body exactly.
    pub fn parse<'a, F: Fn(&'a [u8], u16) -> Result<(Player, usize), ParseError>>(
        input: Span<'a>,
        header: Header,
        version: u16,
        decoder: &F,
    ) -> (r: Result<(Span<'a>, Chunk), ParseError>)
        requires
            is_record_decoder(decoder, version),
        ensures
            decodes(input, r, spec_data_chunk(decoder, input.remaining(), header, version)),
    {
        if header.version == 1 {
            return TrashDataChunk::parse(input, header);
        }
        let (rest, body) = match input.take(header.length as usize) {
            Ok(pair) => pair,
            Err(e) => { return Err(e); },
        };
        match Self::parse_body(body, header, version, decoder) {
            Ok((left, chunk)) => if left.len() == 0 {
                Ok((rest, Chunk::DataData(chunk)))
            } else {
                Err(ParseError::FramingViolation)
            },
            Err(e) => Err(e),
        }
    }

    /// Decodes the fields of a data record from the front of `input`, and
    /// hands back what is left behind them.
    pub fn parse_body<'a, F: Fn(&'a [u8], u16) -> Result<(Player, usize), ParseError>>(
        input: Span<'a>,
        header: Header,
        version: u16,
        decoder: &F,
    ) -> (r: Result<(Span<'a>, DataDataChunk), ParseError>)
        requires
            is_record_decoder(decoder, version),
        ensures
            decodes(input, r, spec_data_body(decoder, input.remaining(), header, version)),
    {
        let (input, opponent_type) = match Self::parse_opponent_type(input) {
            Ok(pair) => pair,
            Err(e) => { return Err(e); },
        };
        let (input, _) = match input.skip(6) {
            Ok(pair) => pair,
            Err(e) => { return Err(e); },
        };
        let (input, players) = match Self::parse_players(input, version, decoder) {
            Ok(pair) => pair,
            Err(e) => { return Err(e); },
        };
        let (input, _) = match length_data(input) {
            Ok(pair) => pair,
            Err(e) => { return Err(e); },
        };
        let (input, _) = match length_data(input) {
            Ok(pair) => pair,
            Err(e) => { return Err(e); },
        };
        let (input, matchhistory_id) = match input.read_u64() {
            Ok(pair) => pair,
            Err(e) => { return Err(e); },
        };
        let (input, _) = match input.skip(16) {
            Ok(pair) => pair,
            Err(e) => { return Err(e); },
        };
        let (input, options) = match Self::parse_options(input) {
            Ok(pair) => pair,
            Err(e) => { return Err(e); },
        };
        let (input, _) = match input.skip(12) {
            Ok(pair) => pair,
            Err(e) => { return Err(e); },
        };
        let (input, unknown_string) = match Self::parse_resource_string(input) {
            Ok(pair) => pair,
            Err(e) => { return Err(e); },
        };
        Ok(
            (
                input,
                DataDataChunk {
                    header,
                    opponent_type,
                    players,
                    matchhistory_id,
                    options,
                    unknown_string,
                },
            ),
        )
    }

    /// Reads the opponent type.
    pub fn parse_opponent_type<'a>(input: Span<'a>) -> (r: Result<(Span<'a>, u32), ParseError>)
        ensures
            decodes(input, r, spec_read_u32(input.remaining())),
    {
        input.read_u32()
    }

    /// Decodes the list of players: a count, then that many records, each
    /// decoded by `decoder`. The first record that fails is the failure of
    /// the list.
    pub fn parse_players<'a, F: Fn(&'a [u8], u16) -> Result<(Player, usize), ParseError>>(
        input: Span<'a>,
        version: u16,
        decoder: &F,
    ) -> (r: Result<(Span<'a>, Vec<Player>), ParseError>)
        requires
            is_record_decoder(decoder, version),
        ensures
            decodes_all(input, r, spec_player_list(decoder, input.remaining(), version)),
    {
        let (start, count) = match input.read_u32() {
            Ok(pair) => pair,
            Err(e) => { return Err(e); },
        };
        let ghost element = player_element(decoder, version);
        let mut players: Vec<Player> = Vec::new();
        let mut current = start;
        let mut i: u32 = 0;
        while i < count
            invariant
                i <= count,
                is_record_decoder(decoder, version),
                element == player_element(decoder, version),
                current.end() == input.end(),
                spec_read_u32(input.remaining()) == Ok::<(u32, Seq<u8>), ParseError>(
                    (count, start.remaining()),
                ),
                spec_repeat(element, start.remaining(), count as nat) == spec_prepend(
                    views(players@),
                    spec_repeat(element, current.remaining(), (count - i) as nat),
                ),
            decreases count - i,
        {
            proof {
                lemma_repeat_step(
                    element,
                    views(players@),
                    current.remaining(),
                    (count - i) as nat,
                );
            }
            let ghost before = players@;
            match Player::parse_player(current, version, decoder) {
                Ok((rest, player)) => {
                    players.push(player);
                    current = rest;
                    assert(views(players@) =~= views(before).push(player@));
                },
                Err(e) => { return Err(e); },
            }
            i += 1;
        }
        Ok((current, players))
    }

    /// Reads the string at the end of the record.
    pub fn parse_resource_string<'a>(input: Span<'a>) -> (r: Result<
        (Span<'a>, String),
        ParseError,
    >)
        ensures
            decodes(input, r, spec_utf8_variable(input.remaining())),
    {
        parse_utf8_variable(input)
    }

    /// Reads the number of settings: two 32-bit fields, multiplied.
    pub fn parse_options_length<'a>(input: Span<'a>) -> (r: Result<(Span<'a>, u64), ParseError>)
        ensures
            decodes(input, r, spec_options_length(input.remaining())),
    {
        let ghost bytes = input.remaining();
        let (input1, first) = match input.read_u32() {
            Ok(pair) => pair,
            Err(e) => { return Err(e); },
        };
        let (input2, second) = match input1.read_u32() {
            Ok(pair) => pair,
            Err(e) => { return Err(e); },
        };
        assert(input2.remaining() =~= bytes.skip(8));
        assert(first * second <= u64::MAX) by (nonlinear_arith)
            requires
                first <= u32::MAX,
                second <= u32::MAX,
        ;
        Ok((input2, first as u64 * second as u64))
    }

    /// Decodes the list of settings: its length, then that many settings.
    /// The first setting that fails is the failure of the list.
    pub fn parse_options<'a>(input: Span<'a>) -> (r: Result<(Span<'a>, Vec<Option>), ParseError>)
        ensures
            decodes_all(input, r, spec_option_list(input.remaining())),
    {
        let (start, count) = match Self::parse_options_length(input) {
            Ok(pair) => pair,
            Err(e) => { return Err(e); },
        };
        let ghost element = option_element();
        let mut options: Vec<Option> = Vec::new();
        let mut current = start;
        let mut i: u64 = 0;
        while i < count
            invariant
                i <= count,
                element == option_element(),
                current.end() == input.end(),
                spec_options_length(input.remaining()) == Ok::<(u64, Seq<u8>), ParseError>(
                    (count, start.remaining()),
                ),
                spec_repeat(element, start.remaining(), count as nat) == spec_prepend(
                    views(options@),
                    spec_repeat(element, current.remaining(), (count - i) as nat),
                ),
            decreases count - i,
        {
            proof {
                lemma_repeat_step(
                    element,
                    views(options@),
                    current.remaining(),
                    (count - i) as nat,
                );
            }
            let ghost before = options@;
            match Option::parse_option(current) {
                Ok((rest, option)) => {
                    options.push(option);
                    current = rest;
                    assert(views(options@) =~= views(before).push(option@));
                },
                Err(e) => { return Err(e); },
            }
            i += 1;
        }
        Ok((current, options))
    }
}

} // verus!

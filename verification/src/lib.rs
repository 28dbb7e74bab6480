//! A decoder for a versioned, chunked binary game-replay container.
//!
//! The container is made of length-framed records ("chunks") and of a
//! tick-ordered log whose command ticks carry the commands of the players.
//! The decoders work on a [`data::span::Span`] over a buffer that is wholly
//! in memory. Each of them has a mathematical model, a function from the
//! bytes to either a value and the bytes left over or an error, and is
//! proved to yield what its model prescribes. So a decode depends on the
//! bytes alone, never reads outside the buffer, and never panics.
//!
//! - [`data::span`]: the span, `take`, and the little-endian reads.
//! - [`data::parser`]: length-prefixed bytes and strings, counted sequences,
//!   the check of a discriminant byte.
//! - [`data::chunks`]: the chunk header, the dispatch on its type tag, the
//!   raw capture of chunks without a decoder, and the data record.
//! - [`data::commands`]: the raw command payloads and their decoders.
//! - [`data::ticks`]: ticks and bundles.
//! - [`commands`]: the commands handed out, and the reconstruction of one
//!   player's commands from the tick log.
//! - [`player`]: a player joined with the commands that it issued.
//!
//! Decoding commits: once a header or a command kind has been recognized, a
//! failure inside it is final and no other reading of the bytes is tried.
//! Only a tag that is not recognized at all falls back, to a raw capture.

pub mod commands;
pub mod data;
pub mod errors;
pub mod player;

pub use crate::commands::Command;
pub use crate::errors::ParseError;
pub use crate::player::Player;

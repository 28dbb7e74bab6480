//! The byte-level layer: the span, the primitive decoders and the records
//! decoded with them.

pub mod chunks;
pub mod commands;
pub mod parser;
pub mod player;
pub mod span;
pub mod ticks;

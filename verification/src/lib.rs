//! Verified protocol core for a line-oriented media-player remote control.
//!
//! The player talks over a plain byte stream: commands are newline-terminated
//! text lines, and responses end either at a line terminator or at the next
//! occurrence of a single prompt byte. This crate holds the verified heart of
//! such a client — artifact trimming of response lines, the grammars that
//! turn console listings into typed [`Track`](client::Track) and
//! [`Subtitle`](client::Subtitle) records, the interpretation of single-value
//! responses (volume, elapsed time, title, playing state), the exact wire
//! text of every command, and the decision taken in each round of the
//! convergence loops used for `play`, `stop` and volume setting. The byte
//! stream itself is left to the caller, which feeds observations back in as
//! plain values.

mod error;

pub mod client;
pub mod text;

pub use error::Error;

//! Slash commands, typed names and typed mentions of a chat client, resolved
//! against what a remote chat service is known to hold.
//!
//! The library decides and computes; it neither prints nor sends. Its
//! functions take what was typed and a [`model::CacheView`], the copy of the
//! service's guilds, channels and users at one moment, and give back what is
//! to be done: a token for a persisted list, the text to send, the lines to
//! print. Every function is verified against its contract; the few places
//! where another crate is called are marked as taken on trust.

pub mod cache;
pub mod codec;
pub mod command;
pub mod flat;
pub mod flatten;
pub mod hook;
pub mod line_edit;
pub mod list;
pub mod markup;
pub mod mentions;
pub mod model;
pub mod options;
pub mod presence;
pub mod resolver;
pub mod seqs;
pub mod text;
pub mod upload;
pub mod utils;

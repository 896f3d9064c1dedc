//! The commands that dress a message up before it is sent.

use crate::command::Format;
use crate::text::{push_str, string_of};
use vstd::prelude::*;

verus! {

/// A message as one of the formats dresses it.
pub open spec fn formatted(format: Format, msg: Seq<char>) -> Seq<char> {
    match format {
        Format::Me => "_"@ + msg + "_"@,
        Format::Tableflip => msg + " (╯°□°）╯︵ ┻━┻"@,
        Format::Unflip => msg + " ┬─┬ ノ( ゜-゜ノ)"@,
        Format::Shrug => msg + " ¯\\_(ツ)_/¯"@,
        Format::Spoiler => "||"@ + msg + "||"@,
    }
}

/// Dresses a message up for sending.
pub fn discord_fmt(format: Format, msg: &str) -> (text: String)
    ensures
        text@ == formatted(format, msg@),
{
    let mut out: Vec<char> = Vec::new();
    match format {
        Format::Me => {
            push_str(&mut out, "_");
            push_str(&mut out, msg);
            push_str(&mut out, "_");
        },
        Format::Tableflip => {
            push_str(&mut out, msg);
            push_str(&mut out, " (╯°□°）╯︵ ┻━┻");
        },
        Format::Unflip => {
            push_str(&mut out, msg);
            push_str(&mut out, " ┬─┬ ノ( ゜-゜ノ)");
        },
        Format::Shrug => {
            push_str(&mut out, msg);
            push_str(&mut out, " ¯\\_(ツ)_/¯");
        },
        Format::Spoiler => {
            push_str(&mut out, "||");
            push_str(&mut out, msg);
            push_str(&mut out, "||");
        },
    }
    assert(out@ =~= formatted(format, msg@));
    string_of(&out)
}

} // verus!

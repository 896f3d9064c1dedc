//! The tokens that stand for a guild, or for a channel with its guild, in the
//! persisted lists: `G<guild>`, `G<guild>C<channel>` and `C<channel>`, each id
//! in decimal digits.

use crate::model::{ChannelId, GuildId, GuildOrChannel};
use crate::text::{
    all_digits, chars_of, decimal, decimal_value, find_char, first_index, is_digit,
    lemma_decimal_digits, lemma_first_index, lemma_parse_decimal, parse_decimal,
    parse_decimal_range, push_decimal, string_of,
};
use vstd::prelude::*;

verus! {

/// The token of a channel: `G<guild>C<channel>`, or `C<channel>` for a
/// channel without a guild.
pub open spec fn channel_token(guild: Option<GuildId>, channel: ChannelId) -> Seq<char> {
    match guild {
        Some(g) => seq!['G'] + decimal(g.0 as nat) + seq!['C'] + decimal(channel.0 as nat),
        None => seq!['C'] + decimal(channel.0 as nat),
    }
}

/// The token of a whole guild: `G<guild>`.
pub open spec fn guild_token(guild: GuildId) -> Seq<char> {
    seq!['G'] + decimal(guild.0 as nat)
}

/// The token of an entry.
pub open spec fn token_of(entry: GuildOrChannel) -> Seq<char> {
    match entry {
        GuildOrChannel::Guild(g) => guild_token(g),
        GuildOrChannel::Channel(g, c) => channel_token(g, c),
    }
}

/// What a token denotes, where it denotes anything.
///
/// A token that starts with `C` is a channel without a guild, and the rest is
/// its id. Any other token starts with `G`: up to the first `C` stands the
/// guild's id and after it the channel's; without a `C` the token is the
/// guild alone. An id is one or more decimal digits that fit in 64 bits.
pub open spec fn decode(token: Seq<char>) -> Option<GuildOrChannel> {
    if token.len() == 0 {
        None
    } else if token[0] == 'C' {
        match parse_decimal(token.skip(1)) {
            Some(c) => Some(GuildOrChannel::Channel(None, ChannelId(c))),
            None => None,
        }
    } else if token[0] == 'G' {
        match first_index(token, 'C') {
            Some(i) => match (parse_decimal(token.subrange(1, i)), parse_decimal(token.skip(i + 1))) {
                (Some(g), Some(c)) => Some(GuildOrChannel::Channel(Some(GuildId(g)), ChannelId(c))),
                _ => None,
            },
            None => match parse_decimal(token.skip(1)) {
                Some(g) => Some(GuildOrChannel::Guild(GuildId(g))),
                None => None,
            },
        }
    } else {
        None
    }
}

/// One or more decimal digits that denote a number of 64 bits.
pub open spec fn is_id_text(s: Seq<char>) -> bool {
    s.len() > 0 && all_digits(s) && decimal_value(s) <= u64::MAX
}

/// The grammar of tokens: `"G" id ["C" id]` or `"C" id`.
pub open spec fn is_token(token: Seq<char>) -> bool {
    ||| exists|c: Seq<char>| is_id_text(c) && token == seq!['C'] + c
    ||| exists|g: Seq<char>| is_id_text(g) && token == seq!['G'] + g
    ||| exists|g: Seq<char>, c: Seq<char>|
        is_id_text(g) && is_id_text(c) && token == seq!['G'] + g + seq!['C'] + c
}

/// Encodes a channel, with its guild if it has one.
pub fn unique_id(guild: Option<GuildId>, channel: ChannelId) -> (token: String)
    ensures
        token@ == channel_token(guild, channel),
{
    let mut out: Vec<char> = Vec::new();
    if let Some(g) = guild {
        out.push('G');
        push_decimal(&mut out, g.0);
    }
    out.push('C');
    push_decimal(&mut out, channel.0);
    assert(out@ == channel_token(guild, channel));
    string_of(&out)
}

/// Encodes a whole guild.
pub fn unique_guild_id(guild: GuildId) -> (token: String)
    ensures
        token@ == guild_token(guild),
{
    let mut out: Vec<char> = Vec::new();
    out.push('G');
    push_decimal(&mut out, guild.0);
    assert(out@ == guild_token(guild));
    string_of(&out)
}

/// Decodes a token: `None` where `id` is not a token.
pub fn parse_id(id: &str) -> (entry: Option<GuildOrChannel>)
    ensures
        entry == decode(id@),
{
    let token = chars_of(id);
    let n = token.len();
    if n == 0 {
        return None;
    }
    assert(token@.skip(1) == token@.subrange(1, n as int));
    if token[0] == 'C' {
        match parse_decimal_range(&token, 1, n) {
            Some(c) => Some(GuildOrChannel::Channel(None, ChannelId(c))),
            None => None,
        }
    } else if token[0] == 'G' {
        proof {
            lemma_first_index(token@, 'C');
        }
        match find_char(&token, 'C') {
            Some(i) => {
                assert(token@.skip(i + 1) == token@.subrange(i + 1, n as int));
                let guild = parse_decimal_range(&token, 1, i);
                let channel = parse_decimal_range(&token, i + 1, n);
                match (guild, channel) {
                    (Some(g), Some(c)) => Some(
                        GuildOrChannel::Channel(Some(GuildId(g)), ChannelId(c)),
                    ),
                    _ => None,
                }
            },
            None => match parse_decimal_range(&token, 1, n) {
                Some(g) => Some(GuildOrChannel::Guild(GuildId(g))),
                None => None,
            },
        }
    } else {
        None
    }
}

/// A sequence of digits holds no `C`.
proof fn lemma_digits_hold_no_c(s: Seq<char>)
    requires
        all_digits(s),
    ensures
        first_index(s, 'C') is None,
{
    lemma_first_index(s, 'C');
    if first_index(s, 'C') is Some {
        let i = first_index(s, 'C')->0;
        assert(is_digit(s[i]));
    }
}

/// In `G` + digits + `C` + rest, the first `C` stands right after the digits.
proof fn lemma_first_c(g: Seq<char>, rest: Seq<char>)
    requires
        all_digits(g),
    ensures
        first_index(seq!['G'] + g + seq!['C'] + rest, 'C') == Some(1 + g.len() as int),
{
    let t = seq!['G'] + g + seq!['C'] + rest;
    lemma_first_index(t, 'C');
    let k: int = 1 + g.len() as int;
    assert(t[k] == 'C');
    assert forall|j: int| 0 <= j < k implies t[j] != 'C' by {
        if j > 0 {
            assert(t[j] == g[j - 1]);
            assert(is_digit(g[j - 1]));
        }
    }
    match first_index(t, 'C') {
        Some(i) => {
            if i < k {
                assert(t[i] != 'C');
            }
            if i > k {
                assert(t[k] != 'C');
            }
        },
        None => {
            assert(t[k] != 'C');
        },
    }
}

/// Decoding the token of a channel gives the channel back, with its guild or
/// without one.
pub proof fn lemma_decode_channel_token(guild: Option<GuildId>, channel: ChannelId)
    ensures
        decode(channel_token(guild, channel)) == Some(GuildOrChannel::Channel(guild, channel)),
{
    let c = decimal(channel.0 as nat);
    lemma_parse_decimal(channel.0);
    match guild {
        Some(g) => {
            let gd = decimal(g.0 as nat);
            lemma_parse_decimal(g.0);
            lemma_decimal_digits(g.0 as nat);
            let t = seq!['G'] + gd + seq!['C'] + c;
            lemma_first_c(gd, c);
            let i: int = 1 + gd.len() as int;
            assert(t.subrange(1, i) =~= gd);
            assert(t.skip(i + 1) =~= c);
        },
        None => {
            let t = seq!['C'] + c;
            assert(t.skip(1) =~= c);
        },
    }
}

/// Decoding the token of a guild gives the guild back.
pub proof fn lemma_decode_guild_token(guild: GuildId)
    ensures
        decode(guild_token(guild)) == Some(GuildOrChannel::Guild(guild)),
{
    let gd = decimal(guild.0 as nat);
    lemma_parse_decimal(guild.0);
    lemma_decimal_digits(guild.0 as nat);
    let t = seq!['G'] + gd;
    assert(t.skip(1) =~= gd);
    lemma_first_index(t, 'C');
    if first_index(t, 'C') is Some {
        let i = first_index(t, 'C')->0;
        assert(t[i] == gd[i - 1]);
        assert(is_digit(gd[i - 1]));
    }
}

/// Decoding after encoding is the identity on entries.
pub proof fn lemma_decode_token_of(entry: GuildOrChannel)
    ensures
        decode(token_of(entry)) == Some(entry),
{
    match entry {
        GuildOrChannel::Guild(g) => lemma_decode_guild_token(g),
        GuildOrChannel::Channel(g, c) => lemma_decode_channel_token(g, c),
    }
}

/// Decoding succeeds on the tokens of the grammar and on nothing else.
pub proof fn lemma_decode_is_some_iff_token(token: Seq<char>)
    ensures
        decode(token) is Some <==> is_token(token),
{
    lemma_first_index(token, 'C');
    if decode(token) is Some {
        if token[0] == 'C' {
            let c = token.skip(1);
            assert(token =~= seq!['C'] + c);
            assert(is_id_text(c));
        } else {
            match first_index(token, 'C') {
                Some(i) => {
                    let g = token.subrange(1, i);
                    let c = token.skip(i + 1);
                    assert(token =~= seq!['G'] + g + seq!['C'] + c);
                    assert(is_id_text(g) && is_id_text(c));
                },
                None => {
                    let g = token.skip(1);
                    assert(token =~= seq!['G'] + g);
                    assert(is_id_text(g));
                },
            }
        }
    }
    if is_token(token) {
        if exists|c: Seq<char>| is_id_text(c) && token == seq!['C'] + c {
            let c = choose|c: Seq<char>| is_id_text(c) && token == seq!['C'] + c;
            assert(token.skip(1) =~= c);
        } else if exists|g: Seq<char>| is_id_text(g) && token == seq!['G'] + g {
            let g = choose|g: Seq<char>| is_id_text(g) && token == seq!['G'] + g;
            assert(token.skip(1) =~= g);
            if first_index(token, 'C') is Some {
                let i = first_index(token, 'C')->0;
                assert(token[i] == g[i - 1]);
                assert(is_digit(g[i - 1]));
            }
        } else {
            let (g, c) = choose|g: Seq<char>, c: Seq<char>|
                is_id_text(g) && is_id_text(c) && token == seq!['G'] + g + seq!['C'] + c;
            lemma_first_c(g, c);
            let i: int = 1 + g.len() as int;
            assert(token.subrange(1, i) =~= g);
            assert(token.skip(i + 1) =~= c);
        }
    }
}

} // verus!

//! Finding guilds and channels by the names and ids that a user types.
//!
//! A name matches a query where the two are equal once the name has lost its
//! spaces and both are in lower case; an id matches where its decimal text is
//! the query. Of several matches the first in the cache's order is taken.

use crate::model::{CacheView, Guild, GuildChannel};
use crate::seqs::{
    first_where, lemma_first_where, lemma_first_where_agree, lemma_first_where_alike,
    lemma_first_where_is, lemma_first_where_none,
};
use crate::text::{
    chars_of, decimal, lemma_decimal_value, lowercase, lowercase_chars, push_decimal, same_chars,
    string_of, without_spaces, without_spaces_chars,
};
use vstd::prelude::*;

verus! {

/// A name as it can stand as one argument of a command: without its spaces.
pub fn weechat_arg_strip(name: &str) -> (stripped: String)
    ensures
        stripped@ == without_spaces(name@),
{
    let chars = chars_of(name);
    let stripped = without_spaces_chars(&chars);
    string_of(&stripped)
}

/// The form in which an entity's name is compared: without spaces, in lower
/// case.
pub open spec fn normalized_name(name: Seq<char>) -> Seq<char> {
    lowercase(without_spaces(name))
}

/// Whether a query names the entity called `name`.
pub open spec fn name_matches(name: Seq<char>, query: Seq<char>) -> bool {
    normalized_name(name) == lowercase(query)
}

/// Whether a query is the decimal text of `id`.
pub open spec fn id_matches(id: u64, query: Seq<char>) -> bool {
    decimal(id as nat) == query
}

/// Whether a query names the guild or is its id.
pub open spec fn guild_matches(guild: Guild, query: Seq<char>) -> bool {
    name_matches(guild.name@, query) || id_matches(guild.id.0, query)
}

/// Whether a query names the channel or is its id, and the channel is of a
/// kind that holds messages.
pub open spec fn channel_matches(channel: GuildChannel, query: Seq<char>) -> bool {
    (name_matches(channel.name@, query) || id_matches(channel.id.0, query))
        && channel.kind.has_history()
}

/// The index of the guild that a query resolves to: the first that matches.
pub open spec fn find_guild(guilds: Seq<Guild>, query: Seq<char>) -> Option<int> {
    first_where(guilds, |g: Guild| guild_matches(g, query))
}

/// The index, among a guild's channels, of the channel that a query resolves
/// to: the first that matches.
pub open spec fn find_channel(channels: Seq<GuildChannel>, query: Seq<char>) -> Option<int> {
    first_where(channels, |c: GuildChannel| channel_matches(c, query))
}

/// An entity as it is looked for: its name in the form in which names are
/// compared, its id where it can be found by that, and whether it can be
/// found at all.
pub struct Named {
    pub name: Vec<char>,
    pub id: Option<u64>,
    pub eligible: bool,
}

/// Whether a candidate is what a query looks for: its name is the query in
/// lower case, or its id the query itself.
pub open spec fn named_matches(
    candidate: Named,
    query: Seq<char>,
    lower_query: Seq<char>,
) -> bool {
    candidate.eligible && (candidate.name@ == lower_query || (candidate.id matches Some(id)
        && decimal(id as nat) == query))
}

/// The place of the first candidate that a query looks for. The query comes
/// as it was typed and in lower case.
pub fn first_match(
    candidates: &Vec<Named>,
    query: &Vec<char>,
    lower_query: &Vec<char>,
) -> (found: Option<usize>)
    ensures
        match found {
            Some(i) => first_where(
                candidates@,
                |c: Named| named_matches(c, query@, lower_query@),
            ) == Some(i as int),
            None => first_where(
                candidates@,
                |c: Named| named_matches(c, query@, lower_query@),
            ) is None,
        },
{
    let ghost p = |c: Named| named_matches(c, query@, lower_query@);
    let mut i: usize = 0;
    while i < candidates.len()
        invariant
            i <= candidates.len(),
            p == (|c: Named| named_matches(c, query@, lower_query@)),
            forall|j: int| 0 <= j < i ==> !p(#[trigger] candidates@[j]),
        decreases candidates.len() - i,
    {
        let candidate = &candidates[i];
        let mut matches = false;
        if candidate.eligible {
            if same_chars(&candidate.name, lower_query) {
                matches = true;
            } else if let Some(id) = candidate.id {
                let mut digits: Vec<char> = Vec::new();
                push_decimal(&mut digits, id);
                assert(digits@ =~= decimal(id as nat));
                matches = same_chars(&digits, query);
            }
        }
        if matches {
            proof {
                assert(p(candidates@[i as int]));
                lemma_first_where_is(candidates@, p, i as int);
            }
            return Some(i);
        }
        assert(!p(candidates@[i as int]));
        i = i + 1;
    }
    proof {
        lemma_first_where_none(candidates@, p);
    }
    None
}

/// A name in the form in which names are compared.
fn normalize(name: &str) -> (form: Vec<char>)
    ensures
        form@ == normalized_name(name@),
{
    let chars = chars_of(name);
    let stripped = without_spaces_chars(&chars);
    lowercase_chars(&stripped)
}

/// Resolves a guild by its name or id.
pub fn search_guild<'a>(cache: &'a CacheView, guild_name: &str) -> (found: Option<&'a Guild>)
    ensures
        match find_guild(cache.guilds@, guild_name@) {
            Some(i) => 0 <= i < cache.guilds@.len() && found == Some(&cache.guilds@[i]),
            None => found is None,
        },
{
    let query = chars_of(guild_name);
    let lower_query = lowercase_chars(&query);
    let mut candidates: Vec<Named> = Vec::new();
    let mut i: usize = 0;
    while i < cache.guilds.len()
        invariant
            i <= cache.guilds.len(),
            candidates@.len() == i,
            forall|j: int|
                0 <= j < i ==> (#[trigger] candidates@[j]).eligible && candidates@[j].name@
                    == normalized_name(cache.guilds@[j].name@) && candidates@[j].id == Some(
                    cache.guilds@[j].id.0,
                ),
        decreases cache.guilds.len() - i,
    {
        let guild = &cache.guilds[i];
        candidates.push(
            Named { name: normalize(guild.name.as_str()), id: Some(guild.id.0), eligible: true },
        );
        i = i + 1;
    }
    proof {
        let p = |c: Named| named_matches(c, query@, lower_query@);
        let q = |g: Guild| guild_matches(g, guild_name@);
        assert forall|j: int| 0 <= j < candidates@.len() implies p(#[trigger] candidates@[j]) == q(
            cache.guilds@[j],
        ) by {}
        lemma_first_where_alike(candidates@, p, cache.guilds@, q);
        lemma_first_where(cache.guilds@, q);
    }
    match first_match(&candidates, &query, &lower_query) {
        Some(k) => Some(&cache.guilds[k]),
        None => None,
    }
}

/// Resolves a channel by the name or id of its guild and its own name or id.
/// Channels of a kind that holds no messages are passed over.
pub fn search_channel<'a>(cache: &'a CacheView, guild_name: &str, channel_name: &str) -> (found:
    Option<(&'a Guild, &'a GuildChannel)>)
    ensures
        match find_guild(cache.guilds@, guild_name@) {
            Some(i) => match find_channel(cache.guilds@[i].channels@, channel_name@) {
                Some(j) => found == Some((&cache.guilds@[i], &cache.guilds@[i].channels@[j])),
                None => found is None,
            },
            None => found is None,
        },
{
    let guild = match search_guild(cache, guild_name) {
        Some(guild) => guild,
        None => {
            return None;
        },
    };
    let query = chars_of(channel_name);
    let lower_query = lowercase_chars(&query);
    let mut candidates: Vec<Named> = Vec::new();
    let mut j: usize = 0;
    while j < guild.channels.len()
        invariant
            j <= guild.channels.len(),
            candidates@.len() == j,
            forall|k: int|
                0 <= k < j ==> (#[trigger] candidates@[k]).eligible
                    == guild.channels@[k].kind.has_history() && candidates@[k].name@
                    == normalized_name(guild.channels@[k].name@) && candidates@[k].id == Some(
                    guild.channels@[k].id.0,
                ),
        decreases guild.channels.len() - j,
    {
        let channel = &guild.channels[j];
        candidates.push(
            Named {
                name: normalize(channel.name.as_str()),
                id: Some(channel.id.0),
                eligible: channel.kind.has_history(),
            },
        );
        j = j + 1;
    }
    proof {
        let p = |c: Named| named_matches(c, query@, lower_query@);
        let q = |c: GuildChannel| channel_matches(c, channel_name@);
        assert forall|k: int| 0 <= k < candidates@.len() implies p(#[trigger] candidates@[k]) == q(
            guild.channels@[k],
        ) by {}
        lemma_first_where_alike(candidates@, p, guild.channels@, q);
        lemma_first_where(guild.channels@, q);
    }
    match first_match(&candidates, &query, &lower_query) {
        Some(k) => Some((guild, &guild.channels[k])),
        None => None,
    }
}

/// Resolves a guild by its name alone.
pub fn search_guild_by_name<'a>(cache: &'a CacheView, guild_name: &Vec<char>) -> (found: Option<
    &'a Guild,
>)
    ensures
        match first_where(cache.guilds@, |g: Guild| name_matches(g.name@, guild_name@)) {
            Some(i) => 0 <= i < cache.guilds@.len() && found == Some(&cache.guilds@[i]),
            None => found is None,
        },
{
    let lower_query = lowercase_chars(guild_name);
    let mut candidates: Vec<Named> = Vec::new();
    let mut i: usize = 0;
    while i < cache.guilds.len()
        invariant
            i <= cache.guilds.len(),
            candidates@.len() == i,
            forall|j: int|
                0 <= j < i ==> (#[trigger] candidates@[j]).eligible && candidates@[j].name@
                    == normalized_name(cache.guilds@[j].name@) && candidates@[j].id is None,
        decreases cache.guilds.len() - i,
    {
        candidates.push(
            Named { name: normalize(cache.guilds[i].name.as_str()), id: None, eligible: true },
        );
        i = i + 1;
    }
    proof {
        let p = |c: Named| named_matches(c, guild_name@, lower_query@);
        let q = |g: Guild| name_matches(g.name@, guild_name@);
        assert forall|j: int| 0 <= j < candidates@.len() implies p(#[trigger] candidates@[j]) == q(
            cache.guilds@[j],
        ) by {}
        lemma_first_where_alike(candidates@, p, cache.guilds@, q);
        lemma_first_where(cache.guilds@, q);
    }
    match first_match(&candidates, guild_name, &lower_query) {
        Some(k) => Some(&cache.guilds[k]),
        None => None,
    }
}

/// Two numbers with the same decimal text are the same number.
pub proof fn lemma_decimal_injective(a: nat, b: nat)
    requires
        decimal(a) == decimal(b),
    ensures
        a == b,
{
    lemma_decimal_value(a);
    lemma_decimal_value(b);
}

/// Two queries that differ only in case resolve to the same guild, unless one
/// of them is the decimal text of a guild's id.
pub proof fn lemma_search_guild_ignores_case(guilds: Seq<Guild>, a: Seq<char>, b: Seq<char>)
    requires
        lowercase(a) == lowercase(b),
        forall|i: int|
            0 <= i < guilds.len() ==> !id_matches(#[trigger] guilds[i].id.0, a) && !id_matches(
                guilds[i].id.0,
                b,
            ),
    ensures
        find_guild(guilds, a) == find_guild(guilds, b),
{
    let p = |g: Guild| guild_matches(g, a);
    let q = |g: Guild| guild_matches(g, b);
    assert forall|j: int| 0 <= j < guilds.len() implies p(#[trigger] guilds[j]) == q(guilds[j]) by {
        assert(!id_matches(guilds[j].id.0, a));
    }
    lemma_first_where_agree(guilds, p, q);
}

/// The decimal text of a guild's id resolves to a guild: to that guild, or to
/// one that stands before it and bears the text as its name or has the same
/// id.
pub proof fn lemma_search_guild_by_id(guilds: Seq<Guild>, i: int)
    requires
        0 <= i < guilds.len(),
    ensures
        match find_guild(guilds, decimal(guilds[i].id.0 as nat)) {
            Some(j) => j <= i && (guilds[j].id == guilds[i].id || name_matches(
                guilds[j].name@,
                decimal(guilds[i].id.0 as nat),
            )),
            None => false,
        },
{
    let query = decimal(guilds[i].id.0 as nat);
    let p = |g: Guild| guild_matches(g, query);
    lemma_first_where(guilds, p);
    assert(p(guilds[i]));
    match first_where(guilds, p) {
        Some(j) => {
            if i < j {
                assert(!p(guilds[i]));
            }
            if !name_matches(guilds[j].name@, query) {
                lemma_decimal_injective(guilds[j].id.0 as nat, guilds[i].id.0 as nat);
            }
        },
        None => {
            assert(!p(guilds[i]));
        },
    }
}

/// The channel that a query resolves to is of a kind that holds messages,
/// and bears the query as its name or id; no channel before it does both.
pub proof fn lemma_found_channel(channels: Seq<GuildChannel>, query: Seq<char>)
    ensures
        match find_channel(channels, query) {
            Some(j) => 0 <= j < channels.len() && channels[j].kind.has_history() && (name_matches(
                channels[j].name@,
                query,
            ) || id_matches(channels[j].id.0, query)) && forall|k: int|
                0 <= k < j ==> !channel_matches(#[trigger] channels[k], query),
            None => forall|k: int|
                0 <= k < channels.len() ==> !channel_matches(#[trigger] channels[k], query),
        },
{
    let p = |c: GuildChannel| channel_matches(c, query);
    lemma_first_where(channels, p);
    match first_where(channels, p) {
        Some(j) => {
            assert forall|k: int| 0 <= k < j implies !channel_matches(
                #[trigger] channels[k],
                query,
            ) by {
                assert(!p(channels[k]));
            }
        },
        None => {
            assert forall|k: int| 0 <= k < channels.len() implies !channel_matches(
                #[trigger] channels[k],
                query,
            ) by {
                assert(!p(channels[k]));
            }
        },
    }
}

} // verus!

//! Turning the mentions that a user types into the form in which the
//! service takes them.
//!
//! A channel is mentioned as `#` and a name of lower-case letters, `_` and
//! `-`; a user as `@`, a name of up to 32 characters, `#` and two to four
//! digits. Only the ten ASCII digits count as digits, and only the letters
//! `a` to `z` as lower-case letters. A mention that names something known is
//! replaced wherever it stands in the text; any other is left as it was
//! typed. Roles cannot be mentioned.

use crate::flatten::{guild_by_id, guild_index};
use crate::model::{CacheView, ChannelId, GuildChannel, GuildId, Member, User, UserId};
use crate::seqs::{first_where, lemma_first_where_is, lemma_first_where_none};
use crate::text::{
    chars_of, decimal, free_of, is_digit, is_digit_char, occurs_at, replace_all,
    replace_all_chars, same_chars, slice_chars, string_of, without_spaces, without_spaces_chars,
};
use serenity::model::misc::Mentionable;
use vstd::prelude::*;

verus! {

/// A mention as it was found in a text: all of it, and the name in it.
pub type Candidate = (Seq<char>, Seq<char>);

/// The views of the candidates that a scan has found.
pub open spec fn candidates_of(found: Seq<(Vec<char>, Vec<char>)>) -> Seq<Candidate> {
    found.map_values(|c: (Vec<char>, Vec<char>)| (c.0@, c.1@))
}

// ---------------------------------------------------------------------------
// Channels
// ---------------------------------------------------------------------------

/// Whether `c` can stand in the name of a mentioned channel.
pub open spec fn is_name_char(c: char) -> bool {
    ('a' <= c <= 'z') || c == '_' || c == '-'
}

/// Where the name characters that start at `i` end.
pub open spec fn name_end(s: Seq<char>, i: int) -> int
    decreases s.len() - i,
{
    if 0 <= i < s.len() && is_name_char(s[i]) {
        name_end(s, i + 1)
    } else {
        i
    }
}

/// The run of name characters from `i` ends within the text.
pub proof fn lemma_name_end(s: Seq<char>, i: int)
    requires
        0 <= i <= s.len(),
    ensures
        i <= name_end(s, i) <= s.len(),
        forall|k: int| i <= k < name_end(s, i) ==> is_name_char(s[k]),
        name_end(s, i) < s.len() ==> !is_name_char(s[name_end(s, i)]),
    decreases s.len() - i,
{
    if i < s.len() && is_name_char(s[i]) {
        lemma_name_end(s, i + 1);
    }
}

/// The channel mentions in `s` from `i` on, from left to right. A mention
/// starts at a `#` that a name character follows, and takes in every name
/// character after it; the search goes on behind the mention.
pub open spec fn channel_candidates_from(s: Seq<char>, i: int) -> Seq<Candidate>
    decreases s.len() - i,
{
    if i < 0 || i >= s.len() {
        Seq::empty()
    } else if s[i] == '#' && name_end(s, i + 1) > i + 1 {
        proof {
            lemma_name_end(s, i + 1);
        }
        seq![(s.subrange(i, name_end(s, i + 1)), s.subrange(i + 1, name_end(s, i + 1)))]
            + channel_candidates_from(s, name_end(s, i + 1))
    } else {
        channel_candidates_from(s, i + 1)
    }
}

/// The channel mentions in `s`.
pub open spec fn channel_candidates(s: Seq<char>) -> Seq<Candidate> {
    channel_candidates_from(s, 0)
}

/// The channels among which a mentioned channel is looked for: those of the
/// guild in whose context the text was typed, where the cache holds that
/// guild; else every channel that the cache holds.
pub open spec fn channels_in_reach(cache: CacheView, guild: Option<GuildId>) -> Seq<GuildChannel> {
    match guild {
        Some(id) => match guild_index(cache.guilds@, id) {
            Some(i) => cache.guilds@[i].channels@,
            None => cache.channels@,
        },
        None => cache.channels@,
    }
}

/// The channel that a mentioned name resolves to: the first in reach whose
/// name, without its spaces, is the mentioned name.
pub open spec fn resolve_channel(
    cache: CacheView,
    guild: Option<GuildId>,
    name: Seq<char>,
) -> Option<ChannelId> {
    let channels = channels_in_reach(cache, guild);
    match first_where(channels, |c: GuildChannel| without_spaces(c.name@) == name) {
        Some(i) => Some(channels[i].id),
        None => None,
    }
}

/// How the service takes the mention of a channel.
pub open spec fn channel_mention_text(id: ChannelId) -> Seq<char> {
    "<#"@ + decimal(id.0 as nat) + ">"@
}

/// How the service takes the mention of a user.
pub open spec fn user_mention_text(id: UserId) -> Seq<char> {
    "<@"@ + decimal(id.0 as nat) + ">"@
}

/// `Mentionable::mention` of serenity's `ChannelId` formats the id as `<#`,
/// its decimal digits, and `>`.
#[verifier::external_body]
fn channel_mention(id: ChannelId) -> (text: String)
    ensures
        text@ == channel_mention_text(id),
{
    serenity::model::id::ChannelId(id.0).mention()
}

/// `Mentionable::mention` of serenity's `UserId` formats the id as `<@`, its
/// decimal digits, and `>`.
#[verifier::external_body]
fn user_mention(id: UserId) -> (text: String)
    ensures
        text@ == user_mention_text(id),
{
    serenity::model::id::UserId(id.0).mention()
}

/// The text after the channel mentions of `candidates` were dealt with, one
/// after the other: each that resolves is replaced, wherever it stands, by
/// the service's mention of the channel.
pub open spec fn with_channel_mentions(
    cache: CacheView,
    guild: Option<GuildId>,
    candidates: Seq<Candidate>,
    text: Seq<char>,
) -> Seq<char>
    decreases candidates.len(),
{
    if candidates.len() == 0 {
        text
    } else {
        let before = with_channel_mentions(cache, guild, candidates.drop_last(), text);
        match resolve_channel(cache, guild, candidates.last().1) {
            Some(id) => replace_all(before, candidates.last().0, channel_mention_text(id)),
            None => before,
        }
    }
}

// ---------------------------------------------------------------------------
// Users
// ---------------------------------------------------------------------------

/// Whether a user's number starts at `j`: a `#` and at least two digits.
/// Only the ASCII digits `0` to `9` count; a digit of another script does
/// not make a number.
pub open spec fn tag_at(s: Seq<char>, j: int) -> bool {
    0 <= j && j + 2 < s.len() && s[j] == '#' && is_digit(s[j + 1]) && is_digit(s[j + 2])
}

/// Whether a user's number stands behind the `k` characters that follow the
/// `@` at `i`.
pub open spec fn number_after(s: Seq<char>, i: int, k: int) -> bool {
    tag_at(s, i + 1 + k)
}

/// The length of the name in the user mention that starts with the `@` at
/// `i`: the least length from `k` on, and no more than 32, behind which a
/// user's number stands.
pub open spec fn name_len_from(s: Seq<char>, i: int, k: int) -> Option<int>
    decreases 33 - k,
{
    if k < 0 || k > 32 {
        None
    } else if number_after(s, i, k) {
        Some(k)
    } else {
        name_len_from(s, i, k + 1)
    }
}

/// Where the ASCII digits that start at `i` end, no more than `max` of them
/// counted.
pub open spec fn digits_end(s: Seq<char>, i: int, max: int) -> int
    decreases max,
{
    if max > 0 && 0 <= i < s.len() && is_digit(s[i]) {
        digits_end(s, i + 1, max - 1)
    } else {
        i
    }
}

/// The run of digits from `i` ends within the text.
pub proof fn lemma_digits_end(s: Seq<char>, i: int, max: int)
    requires
        0 <= i <= s.len(),
    ensures
        i <= digits_end(s, i, max) <= s.len(),
    decreases max,
{
    if max > 0 && i < s.len() && is_digit(s[i]) {
        lemma_digits_end(s, i + 1, max - 1);
    }
}

/// What `name_len_from` finds lies within its bounds.
pub proof fn lemma_name_len(s: Seq<char>, i: int, k: int)
    requires
        0 <= k,
    ensures
        match name_len_from(s, i, k) {
            Some(found) => k <= found <= 32 && number_after(s, i, found) && forall|m: int|
                k <= m < found ==> !number_after(s, i, m),
            None => forall|m: int| k <= m <= 32 ==> !number_after(s, i, m),
        },
    decreases 33 - k,
{
    if k <= 32 && !number_after(s, i, k) {
        lemma_name_len(s, i, k + 1);
    }
}

/// The user mentions in `s` from `i` on, from left to right. A mention
/// starts at an `@`; its name is as short as can be, of any characters and
/// no more than 32; behind it stand `#` and two to four digits, as many as
/// there are. The search goes on behind the mention.
pub open spec fn user_candidates_from(s: Seq<char>, i: int) -> Seq<Candidate>
    decreases s.len() - i,
{
    if i < 0 || i >= s.len() {
        Seq::empty()
    } else if s[i] == '@' && name_len_from(s, i, 0) is Some {
        let hash = i + 1 + name_len_from(s, i, 0)->0;
        let end = digits_end(s, hash + 1, 4);
        proof {
            lemma_name_len(s, i, 0);
            lemma_digits_end(s, hash + 1, 4);
        }
        seq![(s.subrange(i, end), s.subrange(i + 1, hash))] + user_candidates_from(s, end)
    } else {
        user_candidates_from(s, i + 1)
    }
}

/// The user mentions in `s`.
pub open spec fn user_candidates(s: Seq<char>) -> Seq<Candidate> {
    user_candidates_from(s, 0)
}

/// The members among whom a mentioned user is looked for: those of the guild
/// in whose context the text was typed, where the cache holds that guild.
pub open spec fn members_in_reach(cache: CacheView, guild: Option<GuildId>) -> Seq<Member> {
    match guild {
        Some(id) => match guild_index(cache.guilds@, id) {
            Some(i) => cache.guilds@[i].members@,
            None => Seq::empty(),
        },
        None => Seq::empty(),
    }
}

/// Whether a member bears the nickname `name`.
pub open spec fn has_nick(member: Member, name: Seq<char>) -> bool {
    member.nick matches Some(nick) && nick@ == name
}

/// The user that a mentioned name resolves to: the first member in reach
/// with that nickname; else the first member in reach with that name; else
/// the first user of that name that the cache holds.
pub open spec fn resolve_user(
    cache: CacheView,
    guild: Option<GuildId>,
    name: Seq<char>,
) -> Option<UserId> {
    let members = members_in_reach(cache, guild);
    match first_where(members, |m: Member| has_nick(m, name)) {
        Some(i) => Some(members[i].user.id),
        None => match first_where(members, |m: Member| m.user.name@ == name) {
            Some(i) => Some(members[i].user.id),
            None => match first_where(cache.users@, |u: User| u.name@ == name) {
                Some(i) => Some(cache.users@[i].id),
                None => None,
            },
        },
    }
}

/// The text after the user mentions of `candidates` were dealt with, one
/// after the other: each that resolves is replaced, wherever it stands, by
/// the service's mention of the user.
pub open spec fn with_user_mentions(
    cache: CacheView,
    guild: Option<GuildId>,
    candidates: Seq<Candidate>,
    text: Seq<char>,
) -> Seq<char>
    decreases candidates.len(),
{
    if candidates.len() == 0 {
        text
    } else {
        let before = with_user_mentions(cache, guild, candidates.drop_last(), text);
        match resolve_user(cache, guild, candidates.last().1) {
            Some(id) => replace_all(before, candidates.last().0, user_mention_text(id)),
            None => before,
        }
    }
}

/// A text with its mentions in the service's form: first the channels that
/// are mentioned in the text as it was typed, then the users.
pub open spec fn mentions_created(
    cache: CacheView,
    guild: Option<GuildId>,
    input: Seq<char>,
) -> Seq<char> {
    with_user_mentions(
        cache,
        guild,
        user_candidates(input),
        with_channel_mentions(cache, guild, channel_candidates(input), input),
    )
}

// ---------------------------------------------------------------------------
// Scanning and replacing
// ---------------------------------------------------------------------------

/// Whether `c` can stand in the name of a mentioned channel.
fn is_name(c: char) -> (r: bool)
    ensures
        r == is_name_char(c),
{
    ('a' <= c && c <= 'z') || c == '_' || c == '-'
}

/// The channel mentions in a text.
pub fn scan_channel_mentions(s: &Vec<char>) -> (found: Vec<(Vec<char>, Vec<char>)>)
    ensures
        candidates_of(found@) == channel_candidates(s@),
{
    let n = s.len();
    let mut found: Vec<(Vec<char>, Vec<char>)> = Vec::new();
    let mut i: usize = 0;
    assert(candidates_of(found@) + channel_candidates_from(s@, 0) =~= channel_candidates(s@));
    while i < n
        invariant
            i <= n == s.len(),
            candidates_of(found@) + channel_candidates_from(s@, i as int) == channel_candidates(s@),
        decreases n - i,
    {
        let ghost before = candidates_of(found@);
        if s[i] == '#' {
            let mut e: usize = i + 1;
            while e < n && is_name(s[e])
                invariant
                    i + 1 <= e <= n == s.len(),
                    name_end(s@, i + 1) == name_end(s@, e as int),
                decreases n - e,
            {
                e = e + 1;
            }
            assert(name_end(s@, i + 1) == e);
            if e > i + 1 {
                let whole = slice_chars(s, i, e);
                let name = slice_chars(s, i + 1, e);
                found.push((whole, name));
                assert(candidates_of(found@) =~= before.push(
                    (s@.subrange(i as int, e as int), s@.subrange(i + 1, e as int)),
                ));
                assert(candidates_of(found@) + channel_candidates_from(s@, e as int) =~= before
                    + channel_candidates_from(s@, i as int));
                i = e;
            } else {
                i = i + 1;
            }
        } else {
            i = i + 1;
        }
    }
    assert(candidates_of(found@) + Seq::<Candidate>::empty() =~= candidates_of(found@));
    found
}

/// The user mentions in a text.
pub fn scan_user_mentions(s: &Vec<char>) -> (found: Vec<(Vec<char>, Vec<char>)>)
    ensures
        candidates_of(found@) == user_candidates(s@),
{
    let n = s.len();
    let mut found: Vec<(Vec<char>, Vec<char>)> = Vec::new();
    let mut i: usize = 0;
    assert(candidates_of(found@) + user_candidates_from(s@, 0) =~= user_candidates(s@));
    while i < n
        invariant
            i <= n == s.len(),
            candidates_of(found@) + user_candidates_from(s@, i as int) == user_candidates(s@),
        decreases n - i,
    {
        let ghost before = candidates_of(found@);
        let mut hash: Option<usize> = None;
        if s[i] == '@' {
            let mut k: usize = 0;
            while k <= 32 && hash.is_none()
                invariant
                    i < n == s.len(),
                    k <= 33,
                    match hash {
                        Some(h) => i < h < n && name_len_from(s@, i as int, 0) == Some(h - i - 1),
                        None => name_len_from(s@, i as int, 0) == name_len_from(
                            s@,
                            i as int,
                            k as int,
                        ),
                    },
                decreases 33 - k + (if hash is None { 1int } else { 0int }),
            {
                if n - i > k + 3 && s[i + 1 + k] == '#' && is_digit_char(s[i + 2 + k])
                    && is_digit_char(s[i + 3 + k]) {
                    assert(number_after(s@, i as int, k as int));
                    hash = Some(i + 1 + k);
                } else {
                    assert(!number_after(s@, i as int, k as int));
                    k = k + 1;
                }
            }
        }
        assert(hash is Some <==> s@[i as int] == '@' && name_len_from(s@, i as int, 0) is Some);
        assert(hash matches Some(h) ==> i < h < n);
        match hash {
            Some(h) => {
                assert(h == i + 1 + name_len_from(s@, i as int, 0)->0);
                let mut e: usize = h + 1;
                let mut left: usize = 4;
                while left > 0 && e < n && is_digit_char(s[e])
                    invariant
                        h + 1 <= e <= n == s.len(),
                        left <= 4,
                        digits_end(s@, h + 1, 4) == digits_end(s@, e as int, left as int),
                    decreases left,
                {
                    e = e + 1;
                    left = left - 1;
                }
                assert(digits_end(s@, h + 1, 4) == e);
                let whole = slice_chars(s, i, e);
                let name = slice_chars(s, i + 1, h);
                found.push((whole, name));
                assert(candidates_of(found@) =~= before.push(
                    (s@.subrange(i as int, e as int), s@.subrange(i + 1, h as int)),
                ));
                assert(candidates_of(found@) + user_candidates_from(s@, e as int) =~= before
                    + user_candidates_from(s@, i as int));
                i = e;
            },
            None => {
                i = i + 1;
            },
        }
    }
    assert(candidates_of(found@) + Seq::<Candidate>::empty() =~= candidates_of(found@));
    found
}

/// The channel that a mentioned name resolves to.
pub fn find_mentioned_channel(cache: &CacheView, guild: Option<GuildId>, name: &Vec<char>) -> (id:
    Option<ChannelId>)
    ensures
        id == resolve_channel(*cache, guild, name@),
{
    let channels = match guild {
        Some(id) => match guild_by_id(cache, id) {
            Some(found) => &found.channels,
            None => &cache.channels,
        },
        None => &cache.channels,
    };
    assert(channels@ == channels_in_reach(*cache, guild));
    let ghost p = |c: GuildChannel| without_spaces(c.name@) == name@;
    let mut i: usize = 0;
    while i < channels.len()
        invariant
            i <= channels.len(),
            channels@ == channels_in_reach(*cache, guild),
            p == (|c: GuildChannel| without_spaces(c.name@) == name@),
            forall|j: int| 0 <= j < i ==> !p(#[trigger] channels@[j]),
        decreases channels.len() - i,
    {
        let chars = chars_of(channels[i].name.as_str());
        let stripped = without_spaces_chars(&chars);
        if same_chars(&stripped, name) {
            proof {
                assert(p(channels@[i as int]));
                lemma_first_where_is(channels@, p, i as int);
            }
            return Some(channels[i].id);
        }
        assert(!p(channels@[i as int]));
        i = i + 1;
    }
    proof {
        lemma_first_where_none(channels@, p);
    }
    None
}

/// The first member with the nickname `name`.
fn member_by_nick(members: &Vec<Member>, name: &Vec<char>) -> (id: Option<UserId>)
    ensures
        id == match first_where(members@, |m: Member| has_nick(m, name@)) {
            Some(i) => Some(members@[i].user.id),
            None => None,
        },
{
    let ghost p = |m: Member| has_nick(m, name@);
    let mut i: usize = 0;
    while i < members.len()
        invariant
            i <= members.len(),
            p == (|m: Member| has_nick(m, name@)),
            forall|j: int| 0 <= j < i ==> !p(#[trigger] members@[j]),
        decreases members.len() - i,
    {
        let matches = match &members[i].nick {
            Some(nick) => {
                let chars = chars_of(nick.as_str());
                same_chars(&chars, name)
            },
            None => false,
        };
        if matches {
            proof {
                assert(p(members@[i as int]));
                lemma_first_where_is(members@, p, i as int);
            }
            return Some(members[i].user.id);
        }
        assert(!p(members@[i as int]));
        i = i + 1;
    }
    proof {
        lemma_first_where_none(members@, p);
    }
    None
}

/// The first member with the name `name`.
fn member_by_name(members: &Vec<Member>, name: &Vec<char>) -> (id: Option<UserId>)
    ensures
        id == match first_where(members@, |m: Member| m.user.name@ == name@) {
            Some(i) => Some(members@[i].user.id),
            None => None,
        },
{
    let ghost p = |m: Member| m.user.name@ == name@;
    let mut i: usize = 0;
    while i < members.len()
        invariant
            i <= members.len(),
            p == (|m: Member| m.user.name@ == name@),
            forall|j: int| 0 <= j < i ==> !p(#[trigger] members@[j]),
        decreases members.len() - i,
    {
        let chars = chars_of(members[i].user.name.as_str());
        if same_chars(&chars, name) {
            proof {
                assert(p(members@[i as int]));
                lemma_first_where_is(members@, p, i as int);
            }
            return Some(members[i].user.id);
        }
        assert(!p(members@[i as int]));
        i = i + 1;
    }
    proof {
        lemma_first_where_none(members@, p);
    }
    None
}

/// The first user with the name `name`.
fn user_by_name(users: &Vec<User>, name: &Vec<char>) -> (id: Option<UserId>)
    ensures
        id == match first_where(users@, |u: User| u.name@ == name@) {
            Some(i) => Some(users@[i].id),
            None => None,
        },
{
    let ghost p = |u: User| u.name@ == name@;
    let mut i: usize = 0;
    while i < users.len()
        invariant
            i <= users.len(),
            p == (|u: User| u.name@ == name@),
            forall|j: int| 0 <= j < i ==> !p(#[trigger] users@[j]),
        decreases users.len() - i,
    {
        let chars = chars_of(users[i].name.as_str());
        if same_chars(&chars, name) {
            proof {
                assert(p(users@[i as int]));
                lemma_first_where_is(users@, p, i as int);
            }
            return Some(users[i].id);
        }
        assert(!p(users@[i as int]));
        i = i + 1;
    }
    proof {
        lemma_first_where_none(users@, p);
    }
    None
}

/// The user that a mentioned name resolves to.
pub fn find_mentioned_user(cache: &CacheView, guild: Option<GuildId>, name: &Vec<char>) -> (id:
    Option<UserId>)
    ensures
        id == resolve_user(*cache, guild, name@),
{
    let found = match guild {
        Some(id) => guild_by_id(cache, id),
        None => None,
    };
    match found {
        Some(home) => {
            assert(home.members@ == members_in_reach(*cache, guild));
            match member_by_nick(&home.members, name) {
                Some(id) => {
                    return Some(id);
                },
                None => {},
            }
            match member_by_name(&home.members, name) {
                Some(id) => {
                    return Some(id);
                },
                None => {},
            }
        },
        None => {
            let ghost none = Seq::<Member>::empty();
            assert(members_in_reach(*cache, guild) == none);
            assert(first_where(none, |m: Member| has_nick(m, name@)) is None);
            assert(first_where(none, |m: Member| m.user.name@ == name@) is None);
        },
    }
    user_by_name(&cache.users, name)
}

/// Replaces the mentions in a text that a user typed by the service's own.
///
/// The text is searched for mentions once, as it was typed. Then each
/// mention that names a channel or a user within reach is replaced wherever
/// it stands; the others stay.
pub fn create_mentions(cache: &CacheView, guild_id: Option<GuildId>, input: &str) -> (out: String)
    ensures
        out@ == mentions_created(*cache, guild_id, input@),
{
    let text = chars_of(input);
    let channels = scan_channel_mentions(&text);
    let users = scan_user_mentions(&text);
    let mut out = text;
    let mut i: usize = 0;
    assert(candidates_of(channels@).take(0) =~= Seq::<Candidate>::empty());
    while i < channels.len()
        invariant
            i <= channels.len(),
            out@ == with_channel_mentions(
                *cache,
                guild_id,
                candidates_of(channels@).take(i as int),
                input@,
            ),
        decreases channels.len() - i,
    {
        let ghost next = candidates_of(channels@).take(i + 1);
        assert(next.drop_last() =~= candidates_of(channels@).take(i as int));
        assert(next.last() == (channels@[i as int].0@, channels@[i as int].1@));
        match find_mentioned_channel(cache, guild_id, &channels[i].1) {
            Some(id) => {
                let mention = channel_mention(id);
                let to = chars_of(mention.as_str());
                out = replace_all_chars(&out, &channels[i].0, &to);
            },
            None => {},
        }
        i = i + 1;
    }
    assert(candidates_of(channels@).take(channels.len() as int) =~= candidates_of(channels@));
    let ghost middle = out@;
    let mut j: usize = 0;
    assert(candidates_of(users@).take(0) =~= Seq::<Candidate>::empty());
    while j < users.len()
        invariant
            j <= users.len(),
            out@ == with_user_mentions(
                *cache,
                guild_id,
                candidates_of(users@).take(j as int),
                middle,
            ),
        decreases users.len() - j,
    {
        let ghost next = candidates_of(users@).take(j + 1);
        assert(next.drop_last() =~= candidates_of(users@).take(j as int));
        assert(next.last() == (users@[j as int].0@, users@[j as int].1@));
        match find_mentioned_user(cache, guild_id, &users[j].1) {
            Some(id) => {
                let mention = user_mention(id);
                let to = chars_of(mention.as_str());
                out = replace_all_chars(&out, &users[j].0, &to);
            },
            None => {},
        }
        j = j + 1;
    }
    assert(candidates_of(users@).take(users.len() as int) =~= candidates_of(users@));
    string_of(&out)
}

// ---------------------------------------------------------------------------
// Laws
// ---------------------------------------------------------------------------

/// Where no mentioned channel resolves, the text stays as it is.
pub proof fn lemma_unresolved_channels(
    cache: CacheView,
    guild: Option<GuildId>,
    candidates: Seq<Candidate>,
    text: Seq<char>,
)
    requires
        forall|i: int|
            0 <= i < candidates.len() ==> resolve_channel(cache, guild, (#[trigger] candidates[i]).1)
                is None,
    ensures
        with_channel_mentions(cache, guild, candidates, text) == text,
    decreases candidates.len(),
{
    if candidates.len() > 0 {
        let head = candidates.drop_last();
        assert forall|i: int| 0 <= i < head.len() implies resolve_channel(
            cache,
            guild,
            (#[trigger] head[i]).1,
        ) is None by {
            assert(head[i] == candidates[i]);
        }
        lemma_unresolved_channels(cache, guild, head, text);
        assert(candidates.last() == candidates[candidates.len() - 1]);
    }
}

/// Where no mentioned user resolves, the text stays as it is.
pub proof fn lemma_unresolved_users(
    cache: CacheView,
    guild: Option<GuildId>,
    candidates: Seq<Candidate>,
    text: Seq<char>,
)
    requires
        forall|i: int|
            0 <= i < candidates.len() ==> resolve_user(cache, guild, (#[trigger] candidates[i]).1)
                is None,
    ensures
        with_user_mentions(cache, guild, candidates, text) == text,
    decreases candidates.len(),
{
    if candidates.len() > 0 {
        let head = candidates.drop_last();
        assert forall|i: int| 0 <= i < head.len() implies resolve_user(
            cache,
            guild,
            (#[trigger] head[i]).1,
        ) is None by {
            assert(head[i] == candidates[i]);
        }
        lemma_unresolved_users(cache, guild, head, text);
        assert(candidates.last() == candidates[candidates.len() - 1]);
    }
}

/// A text in which no mention names a channel or a user within reach comes
/// out as it went in.
pub proof fn lemma_unresolved_left_verbatim(
    cache: CacheView,
    guild: Option<GuildId>,
    input: Seq<char>,
)
    requires
        forall|i: int|
            0 <= i < channel_candidates(input).len() ==> resolve_channel(
                cache,
                guild,
                (#[trigger] channel_candidates(input)[i]).1,
            ) is None,
        forall|i: int|
            0 <= i < user_candidates(input).len() ==> resolve_user(
                cache,
                guild,
                (#[trigger] user_candidates(input)[i]).1,
            ) is None,
    ensures
        mentions_created(cache, guild, input) == input,
{
    lemma_unresolved_channels(cache, guild, channel_candidates(input), input);
    lemma_unresolved_users(cache, guild, user_candidates(input), input);
}

/// Replacing leaves a text alone in which the first character of what is
/// looked for does not occur.
pub proof fn lemma_replace_all_absent(s: Seq<char>, from: Seq<char>, to: Seq<char>)
    requires
        from.len() > 0,
        free_of(s, from[0]),
    ensures
        replace_all(s, from, to) == s,
    decreases s.len(),
{
    if s.len() >= from.len() {
        assert(!occurs_at(s, from, 0)) by {
            if occurs_at(s, from, 0) {
                assert(s.subrange(0, from.len() as int)[0] == from[0]);
            }
        }
        let rest = s.skip(1);
        assert(free_of(rest, from[0])) by {
            assert forall|i: int| 0 <= i < rest.len() implies rest[i] != from[0] by {
                assert(rest[i] == s[i + 1]);
            }
        }
        lemma_replace_all_absent(rest, from, to);
        assert(seq![s[0]] + rest =~= s);
    }
}

/// A text that holds what is looked for behind a stretch without its first
/// character has that occurrence replaced, and the search goes on behind it.
pub proof fn lemma_replace_all_next(
    before: Seq<char>,
    rest: Seq<char>,
    from: Seq<char>,
    to: Seq<char>,
)
    requires
        from.len() > 0,
        free_of(before, from[0]),
    ensures
        replace_all(before + from + rest, from, to) == before + to + replace_all(rest, from, to),
    decreases before.len(),
{
    let s = before + from + rest;
    if before.len() == 0 {
        assert(s =~= from + rest);
        assert(s.subrange(0, from.len() as int) =~= from);
        assert(s.skip(from.len() as int) =~= rest);
        assert(before + to + replace_all(rest, from, to) =~= to + replace_all(rest, from, to));
    } else {
        assert(!occurs_at(s, from, 0)) by {
            if occurs_at(s, from, 0) {
                assert(s.subrange(0, from.len() as int)[0] == from[0]);
                assert(s[0] == before[0]);
            }
        }
        let tail = before.skip(1);
        assert(free_of(tail, from[0])) by {
            assert forall|i: int| 0 <= i < tail.len() implies tail[i] != from[0] by {
                assert(tail[i] == before[i + 1]);
            }
        }
        lemma_replace_all_next(tail, rest, from, to);
        assert(s.skip(1) =~= tail + from + rest);
        assert(s[0] == before[0]);
        assert(seq![before[0]] + (tail + to + replace_all(rest, from, to)) =~= before + to
            + replace_all(rest, from, to));
    }
}

/// Both of two occurrences are replaced, and by the same text: where the
/// stretches around them hold the first character of what is looked for
/// nowhere else.
pub proof fn lemma_replace_all_twice(
    a: Seq<char>,
    b: Seq<char>,
    c: Seq<char>,
    from: Seq<char>,
    to: Seq<char>,
)
    requires
        from.len() > 0,
        free_of(a, from[0]),
        free_of(b, from[0]),
        free_of(c, from[0]),
    ensures
        replace_all(a + from + b + from + c, from, to) == a + to + b + to + c,
{
    lemma_replace_all_absent(c, from, to);
    lemma_replace_all_next(b, c, from, to);
    lemma_replace_all_next(a, b + from + c, from, to);
    assert(a + from + (b + from + c) =~= a + from + b + from + c);
    assert(a + to + (b + to + c) =~= a + to + b + to + c);
}

} // verus!

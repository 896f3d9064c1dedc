//! The command line of the plugin: its tokens, the subcommand it names, and
//! what each subcommand decides before anything is sent or printed.

use crate::cache::{channel_name, channel_name_by_id, channel_of};
use crate::codec::{channel_token, guild_token, unique_guild_id, unique_id};
use crate::flat::{flat_entries, FlatEntry};
use crate::flatten::{flatten_guilds, flattened, guild_by_id, guild_index};
use crate::list::{decoded, lemma_add_twice, list_items, list_with, non_empty};
use crate::model::{CacheView, ChannelId, Guild, GuildId, GuildOrChannel};
use crate::resolver::{find_channel, find_guild, search_channel, search_guild};
use crate::text::{
    chars_of, decimal, free_of, is_text, lemma_decimal_digits, lemma_first_two_parts,
    push_decimal, push_str, slice_chars, split, split_chars, string_of, strings,
    texts, to_strings, trim, trim_chars,
};
use indexmap::IndexMap;
use vstd::prelude::*;

verus! {

/// A command line in its parts.
#[derive(Clone, Debug, PartialEq, Eq)]
pub struct Args {
    /// The subcommand: the token behind the command's name.
    pub base: String,
    /// The tokens behind the subcommand.
    pub args: Vec<String>,
    /// The text behind the subcommand as it was typed, without the whitespace
    /// at its two ends.
    pub rest: String,
}

/// The tokens of a command line: what stands between its spaces.
pub open spec fn tokens_of(cmd: Seq<char>) -> Seq<Seq<char>> {
    split(cmd, ' ')
}

/// The subcommand of a command line; empty where the line holds no space.
pub open spec fn base_of(cmd: Seq<char>) -> Seq<char> {
    if tokens_of(cmd).len() < 2 {
        Seq::empty()
    } else {
        tokens_of(cmd)[1]
    }
}

/// The arguments of a command line: the tokens from the third on.
pub open spec fn args_of(cmd: Seq<char>) -> Seq<Seq<char>> {
    if tokens_of(cmd).len() < 2 {
        Seq::empty()
    } else {
        tokens_of(cmd).skip(2)
    }
}

/// The text behind the subcommand, without the whitespace at its two ends.
pub open spec fn rest_of(cmd: Seq<char>) -> Seq<char> {
    if tokens_of(cmd).len() < 2 {
        Seq::empty()
    } else {
        trim(cmd.skip(tokens_of(cmd)[0].len() + 1 + tokens_of(cmd)[1].len() as int))
    }
}

impl Args {
    /// Takes a command line apart. The line is split at every single space:
    /// the first token is the command's name, the second the subcommand, the
    /// others are the arguments.
    pub fn from_cmd(cmd: &str) -> (parsed: Args)
        ensures
            parsed.base@ == base_of(cmd@),
            strings(parsed.args@) == args_of(cmd@),
            parsed.rest@ == rest_of(cmd@),
    {
        let line = chars_of(cmd);
        let tokens = split_chars(&line, ' ');
        if tokens.len() < 2 {
            let args: Vec<String> = Vec::new();
            assert(strings(args@) =~= Seq::<Seq<char>>::empty());
            return Args { base: String::new(), args, rest: String::new() };
        }
        proof {
            lemma_first_two_parts(cmd@, ' ');
            assert(texts(tokens@)[0] == tokens@[0]@);
            assert(texts(tokens@)[1] == tokens@[1]@);
        }
        let n = line.len();
        let skip = tokens[0].len() + 1 + tokens[1].len();
        let tail = slice_chars(&line, skip, n);
        assert(tail@ =~= cmd@.skip(skip as int));
        let rest = trim_chars(&tail);
        Args { base: string_of(&tokens[1]), args: to_strings(&tokens, 2), rest: string_of(&rest) }
    }
}

// ---------------------------------------------------------------------------
// The subcommands
// ---------------------------------------------------------------------------

/// The ways a message can be dressed up before it is sent.
#[derive(Clone, Copy, Debug, PartialEq, Eq, Structural)]
pub enum Format {
    Me,
    Tableflip,
    Unflip,
    Shrug,
    Spoiler,
}

/// What a command line asks for.
#[derive(Clone, Copy, Debug, PartialEq, Eq, Structural)]
pub enum Command {
    /// The line names no subcommand.
    NoAction,
    Connect,
    Disconnect,
    IrcMode,
    DiscordMode,
    Token,
    Autostart,
    NoAutostart,
    Query,
    Join,
    Watch,
    Watched,
    Autojoin,
    Autojoined,
    Status,
    Game,
    Upload,
    Format(Format),
    /// The subcommand is none of those above.
    Unknown,
}

/// The subcommand that a name stands for.
pub open spec fn command_named(base: Seq<char>) -> Command {
    if base.len() == 0 {
        Command::NoAction
    } else if base == "connect"@ {
        Command::Connect
    } else if base == "disconnect"@ {
        Command::Disconnect
    } else if base == "irc-mode"@ {
        Command::IrcMode
    } else if base == "discord-mode"@ {
        Command::DiscordMode
    } else if base == "token"@ {
        Command::Token
    } else if base == "autostart"@ {
        Command::Autostart
    } else if base == "noautostart"@ {
        Command::NoAutostart
    } else if base == "query"@ {
        Command::Query
    } else if base == "join"@ {
        Command::Join
    } else if base == "watch"@ {
        Command::Watch
    } else if base == "watched"@ {
        Command::Watched
    } else if base == "autojoin"@ {
        Command::Autojoin
    } else if base == "autojoined"@ {
        Command::Autojoined
    } else if base == "status"@ {
        Command::Status
    } else if base == "game"@ {
        Command::Game
    } else if base == "upload"@ {
        Command::Upload
    } else if base == "me"@ {
        Command::Format(Format::Me)
    } else if base == "tableflip"@ {
        Command::Format(Format::Tableflip)
    } else if base == "unflip"@ {
        Command::Format(Format::Unflip)
    } else if base == "shrug"@ {
        Command::Format(Format::Shrug)
    } else if base == "spoiler"@ {
        Command::Format(Format::Spoiler)
    } else {
        Command::Unknown
    }
}

/// Takes a command line apart and finds the subcommand it names.
pub fn run_command(cmd: &str) -> (routed: (Args, Command))
    ensures
        routed.0.base@ == base_of(cmd@),
        strings(routed.0.args@) == args_of(cmd@),
        routed.0.rest@ == rest_of(cmd@),
        routed.1 == command_named(base_of(cmd@)),
{
    let args = Args::from_cmd(cmd);
    let base = chars_of(args.base.as_str());
    let command = if base.len() == 0 {
        Command::NoAction
    } else if is_text(&base, "connect") {
        Command::Connect
    } else if is_text(&base, "disconnect") {
        Command::Disconnect
    } else if is_text(&base, "irc-mode") {
        Command::IrcMode
    } else if is_text(&base, "discord-mode") {
        Command::DiscordMode
    } else if is_text(&base, "token") {
        Command::Token
    } else if is_text(&base, "autostart") {
        Command::Autostart
    } else if is_text(&base, "noautostart") {
        Command::NoAutostart
    } else if is_text(&base, "query") {
        Command::Query
    } else if is_text(&base, "join") {
        Command::Join
    } else if is_text(&base, "watch") {
        Command::Watch
    } else if is_text(&base, "watched") {
        Command::Watched
    } else if is_text(&base, "autojoin") {
        Command::Autojoin
    } else if is_text(&base, "autojoined") {
        Command::Autojoined
    } else if is_text(&base, "status") {
        Command::Status
    } else if is_text(&base, "game") {
        Command::Game
    } else if is_text(&base, "upload") {
        Command::Upload
    } else if is_text(&base, "me") {
        Command::Format(Format::Me)
    } else if is_text(&base, "tableflip") {
        Command::Format(Format::Tableflip)
    } else if is_text(&base, "unflip") {
        Command::Format(Format::Unflip)
    } else if is_text(&base, "shrug") {
        Command::Format(Format::Shrug)
    } else if is_text(&base, "spoiler") {
        Command::Format(Format::Spoiler)
    } else {
        Command::Unknown
    };
    (args, command)
}

/// The lines that tell the user that a command line asked for nothing that
/// can be done; none for a line that can be acted on.
pub fn command_diagnostic(command: Command) -> (lines: Vec<String>)
    ensures
        strings(lines@) == match command {
            Command::NoAction => seq![
                "no action provided."@,
                "see /help discord for more information"@,
            ],
            Command::Unknown => seq!["Unknown command"@],
            _ => Seq::empty(),
        },
{
    let mut lines: Vec<String> = Vec::new();
    assert(strings(lines@) =~= Seq::<Seq<char>>::empty());
    match command {
        Command::NoAction => {
            lines.push(literal("no action provided."));
            lines.push(literal("see /help discord for more information"));
            assert(strings(lines@) =~= seq![
                "no action provided."@,
                "see /help discord for more information"@,
            ]);
        },
        Command::Unknown => {
            lines.push(literal("Unknown command"));
            assert(strings(lines@) =~= seq!["Unknown command"@]);
        },
        _ => {},
    }
    lines
}

/// A fixed text as a string.
pub fn literal(text: &str) -> (s: String)
    ensures
        s@ == text@,
{
    let chars = chars_of(text);
    string_of(&chars)
}

// ---------------------------------------------------------------------------
// watch and autojoin
// ---------------------------------------------------------------------------

/// The two persisted lists.
#[derive(Clone, Copy, Debug, PartialEq, Eq, Structural)]
pub enum ListKind {
    Watch,
    Autojoin,
}

/// What became of a request to add a guild or a channel to a list.
#[derive(Clone, Debug, PartialEq, Eq)]
pub enum ListUpdate {
    /// The command had no argument.
    MissingArguments,
    /// Every argument was empty.
    NoName,
    /// There is no cache to look the names up in.
    NotConnected,
    /// A guild and a channel were named and the two were not found.
    ChannelNotFound,
    /// A guild was named and not found.
    GuildNotFound,
    /// The names were found.
    Updated {
        /// The list as it is to be persisted.
        list: String,
        /// The line that tells the user what is on the list now.
        message: String,
        /// The command line to run next, if there is one.
        then: Option<String>,
    },
}

/// The mathematical value of a [`ListUpdate`].
pub enum ListUpdateView {
    MissingArguments,
    NoName,
    NotConnected,
    ChannelNotFound,
    GuildNotFound,
    Updated { list: Seq<char>, message: Seq<char>, then: Option<Seq<char>> },
}

impl View for ListUpdate {
    type V = ListUpdateView;

    open spec fn view(&self) -> ListUpdateView {
        match *self {
            ListUpdate::MissingArguments => ListUpdateView::MissingArguments,
            ListUpdate::NoName => ListUpdateView::NoName,
            ListUpdate::NotConnected => ListUpdateView::NotConnected,
            ListUpdate::ChannelNotFound => ListUpdateView::ChannelNotFound,
            ListUpdate::GuildNotFound => ListUpdateView::GuildNotFound,
            ListUpdate::Updated { list, message, then } => ListUpdateView::Updated {
                list: list@,
                message: message@,
                then: match then {
                    Some(line) => Some(line@),
                    None => None,
                },
            },
        }
    }
}

/// The token of the guild, or of the channel in the guild, that the names
/// resolve to.
pub open spec fn target_token(
    guilds: Seq<Guild>,
    guild_name: Seq<char>,
    channel_name: Option<Seq<char>>,
) -> Option<Seq<char>> {
    match find_guild(guilds, guild_name) {
        Some(i) => match channel_name {
            Some(name) => match find_channel(guilds[i].channels@, name) {
                Some(j) => Some(channel_token(Some(guilds[i].id), guilds[i].channels@[j].id)),
                None => None,
            },
            None => Some(guild_token(guilds[i].id)),
        },
        None => None,
    }
}

/// The line that tells the user what was put on a list.
pub open spec fn update_message(
    kind: ListKind,
    guild_name: Seq<char>,
    channel_name: Option<Seq<char>>,
) -> Seq<char> {
    match (kind, channel_name) {
        (ListKind::Watch, Some(name)) => "Now watching "@ + guild_name + " in "@ + name,
        (ListKind::Watch, None) => "Now watching all of "@ + guild_name,
        (ListKind::Autojoin, Some(name)) => "Now autojoining "@ + guild_name + " in "@ + name,
        (ListKind::Autojoin, None) => "Now autojoining all channels in "@ + guild_name,
    }
}

/// What a request to add to a list comes to.
///
/// The names are the arguments that are not empty: the first names the
/// guild, the second, if there is one, a channel in it. The token of what
/// they resolve to is added to the list. Autojoining a channel also joins
/// it, by the command line given in `then`.
pub open spec fn list_update(
    kind: ListKind,
    args: Seq<Seq<char>>,
    rest: Seq<char>,
    guilds: Option<Seq<Guild>>,
    list: Seq<char>,
) -> ListUpdateView {
    let names = non_empty(args);
    let channel_name = if names.len() >= 2 {
        Some(names[1])
    } else {
        None
    };
    if args.len() == 0 {
        ListUpdateView::MissingArguments
    } else if names.len() == 0 {
        ListUpdateView::NoName
    } else {
        match guilds {
            None => ListUpdateView::NotConnected,
            Some(guilds) => match target_token(guilds, names[0], channel_name) {
                Some(token) => ListUpdateView::Updated {
                    list: list_with(list, token),
                    message: update_message(kind, names[0], channel_name),
                    then: if kind is Autojoin && channel_name is Some {
                        Some("/discord join "@ + rest)
                    } else {
                        None
                    },
                },
                None => if channel_name is Some {
                    ListUpdateView::ChannelNotFound
                } else {
                    ListUpdateView::GuildNotFound
                },
            },
        }
    }
}

/// The guilds of a cache, where there is a cache.
pub open spec fn guilds_of(cache: Option<&CacheView>) -> Option<Seq<Guild>> {
    match cache {
        Some(cache) => Some(cache.guilds@),
        None => None,
    }
}

/// The first two arguments that are not empty.
fn first_names(args: &Vec<String>) -> (names: (Option<String>, Option<String>))
    ensures
        match names.0 {
            Some(first) => non_empty(strings(args@)).len() >= 1 && first@ == non_empty(
                strings(args@),
            )[0],
            None => non_empty(strings(args@)).len() == 0,
        },
        match names.1 {
            Some(second) => non_empty(strings(args@)).len() >= 2 && second@ == non_empty(
                strings(args@),
            )[1],
            None => non_empty(strings(args@)).len() < 2,
        },
{
    let mut first: Option<String> = None;
    let mut second: Option<String> = None;
    let mut i: usize = 0;
    let ghost all = strings(args@);
    assert(all.take(0) =~= Seq::<Seq<char>>::empty());
    while i < args.len()
        invariant
            i <= args.len(),
            all == strings(args@),
            match first {
                Some(f) => non_empty(all.take(i as int)).len() >= 1 && f@ == non_empty(
                    all.take(i as int),
                )[0],
                None => non_empty(all.take(i as int)).len() == 0,
            },
            match second {
                Some(s) => non_empty(all.take(i as int)).len() >= 2 && s@ == non_empty(
                    all.take(i as int),
                )[1],
                None => non_empty(all.take(i as int)).len() < 2,
            },
        decreases args.len() - i,
    {
        assert(all.take(i + 1).drop_last() =~= all.take(i as int));
        assert(all.take(i + 1).last() == args@[i as int]@);
        let chars = chars_of(args[i].as_str());
        if chars.len() > 0 {
            if first.is_none() {
                first = Some(string_of(&chars));
            } else if second.is_none() {
                second = Some(string_of(&chars));
            }
        }
        i = i + 1;
    }
    assert(all.take(args.len() as int) =~= all);
    (first, second)
}

/// Joins fixed and given texts into one string.
fn concat(parts: &Vec<&str>) -> (s: String)
    ensures
        s@ == concat_of(parts@),
{
    let mut out: Vec<char> = Vec::new();
    let mut i: usize = 0;
    assert(parts@.take(0) =~= Seq::<&str>::empty());
    while i < parts.len()
        invariant
            i <= parts.len(),
            out@ == concat_of(parts@.take(i as int)),
        decreases parts.len() - i,
    {
        assert(parts@.take(i + 1).drop_last() =~= parts@.take(i as int));
        assert(parts@.take(i + 1).last() == parts@[i as int]);
        push_str(&mut out, parts[i]);
        i = i + 1;
    }
    assert(parts@.take(parts.len() as int) =~= parts@);
    string_of(&out)
}

/// The texts one after the other.
pub open spec fn concat_of(parts: Seq<&str>) -> Seq<char>
    decreases parts.len(),
{
    if parts.len() == 0 {
        Seq::empty()
    } else {
        concat_of(parts.drop_last()) + parts.last()@
    }
}

/// Adds what the arguments name to a persisted list.
fn update_list(kind: ListKind, args: &Args, cache: Option<&CacheView>, list: &str) -> (update:
    ListUpdate)
    ensures
        update@ == list_update(kind, strings(args.args@), args.rest@, guilds_of(cache), list@),
{
    if args.args.len() == 0 {
        return ListUpdate::MissingArguments;
    }
    let (first, second) = first_names(&args.args);
    let guild_name = match first {
        Some(name) => name,
        None => {
            return ListUpdate::NoName;
        },
    };
    let cache = match cache {
        Some(cache) => cache,
        None => {
            return ListUpdate::NotConnected;
        },
    };
    let token = match &second {
        Some(channel_name) => {
            match search_channel(cache, guild_name.as_str(), channel_name.as_str()) {
                Some((guild, channel)) => unique_id(Some(guild.id), channel.id),
                None => {
                    return ListUpdate::ChannelNotFound;
                },
            }
        },
        None => {
            match search_guild(cache, guild_name.as_str()) {
                Some(guild) => unique_guild_id(guild.id),
                None => {
                    return ListUpdate::GuildNotFound;
                },
            }
        },
    };
    let updated = crate::list::add(list, token.as_str());
    let message = match (kind, &second) {
        (ListKind::Watch, Some(name)) => {
            let mut parts: Vec<&str> = Vec::new();
            parts.push("Now watching ");
            parts.push(guild_name.as_str());
            parts.push(" in ");
            parts.push(name.as_str());
            proof {
                lemma_concat_4(parts@);
            }
            concat(&parts)
        },
        (ListKind::Watch, None) => {
            let mut parts: Vec<&str> = Vec::new();
            parts.push("Now watching all of ");
            parts.push(guild_name.as_str());
            proof {
                lemma_concat_2(parts@);
            }
            concat(&parts)
        },
        (ListKind::Autojoin, Some(name)) => {
            let mut parts: Vec<&str> = Vec::new();
            parts.push("Now autojoining ");
            parts.push(guild_name.as_str());
            parts.push(" in ");
            parts.push(name.as_str());
            proof {
                lemma_concat_4(parts@);
            }
            concat(&parts)
        },
        (ListKind::Autojoin, None) => {
            let mut parts: Vec<&str> = Vec::new();
            parts.push("Now autojoining all channels in ");
            parts.push(guild_name.as_str());
            proof {
                lemma_concat_2(parts@);
            }
            concat(&parts)
        },
    };
    let then = match (kind, &second) {
        (ListKind::Autojoin, Some(_)) => {
            let mut parts: Vec<&str> = Vec::new();
            parts.push("/discord join ");
            parts.push(args.rest.as_str());
            proof {
                lemma_concat_2(parts@);
            }
            Some(concat(&parts))
        },
        _ => None,
    };
    ListUpdate::Updated { list: updated, message, then }
}

/// Two texts one after the other.
pub proof fn lemma_concat_2(parts: Seq<&str>)
    requires
        parts.len() == 2,
    ensures
        concat_of(parts) == parts[0]@ + parts[1]@,
{
    reveal_with_fuel(concat_of, 3);
    assert(parts.drop_last().drop_last() =~= Seq::<&str>::empty());
    assert(concat_of(parts) =~= parts[0]@ + parts[1]@);
}

/// Three texts one after the other.
pub proof fn lemma_concat_3(parts: Seq<&str>)
    requires
        parts.len() == 3,
    ensures
        concat_of(parts) == parts[0]@ + parts[1]@ + parts[2]@,
{
    lemma_concat_2(parts.drop_last());
}

/// Four texts one after the other.
pub proof fn lemma_concat_4(parts: Seq<&str>)
    requires
        parts.len() == 4,
    ensures
        concat_of(parts) == parts[0]@ + parts[1]@ + parts[2]@ + parts[3]@,
{
    lemma_concat_3(parts.drop_last());
}

/// Puts a guild, or a channel of a guild, on the watch list.
pub fn watch(args: &Args, cache: Option<&CacheView>, watched: &str) -> (update: ListUpdate)
    ensures
        update@ == list_update(
            ListKind::Watch,
            strings(args.args@),
            args.rest@,
            guilds_of(cache),
            watched@,
        ),
{
    update_list(ListKind::Watch, args, cache, watched)
}

/// Puts a guild, or a channel of a guild, on the autojoin list. A channel is
/// joined at once as well.
pub fn autojoin(args: &Args, cache: Option<&CacheView>, autojoined: &str) -> (update: ListUpdate)
    ensures
        update@ == list_update(
            ListKind::Autojoin,
            strings(args.args@),
            args.rest@,
            guilds_of(cache),
            autojoined@,
        ),
{
    update_list(ListKind::Autojoin, args, cache, autojoined)
}

impl ListUpdate {
    /// The line to print for this outcome, if there is one.
    pub fn report(&self, kind: ListKind) -> (line: Option<String>)
        ensures
            match line {
                Some(text) => update_report(self@, kind) == Some(text@),
                None => update_report(self@, kind) is None,
            },
    {
        match self {
            ListUpdate::MissingArguments => match kind {
                ListKind::Watch => Some(literal("watch requires a guild name and channel name")),
                ListKind::Autojoin => Some(
                    literal("autojoin requires a guild name and channel name"),
                ),
            },
            ListUpdate::NoName => match kind {
                ListKind::Watch => Some(literal("watch requires a guild name and channel name")),
                ListKind::Autojoin => Some(
                    literal("autojoin requires a guild name and channel name"),
                ),
            },
            ListUpdate::NotConnected => None,
            ListUpdate::ChannelNotFound => Some(literal("Unable to find server and channel")),
            ListUpdate::GuildNotFound => Some(literal("Unable to find server")),
            ListUpdate::Updated { message, .. } => Some(literal(message.as_str())),
        }
    }
}

/// The line to print for an outcome, if there is one. A command without a
/// name, be it without arguments or with empty ones alone, gets the line that
/// says what the command requires.
pub open spec fn update_report(update: ListUpdateView, kind: ListKind) -> Option<Seq<char>> {
    match update {
        ListUpdateView::MissingArguments => match kind {
            ListKind::Watch => Some("watch requires a guild name and channel name"@),
            ListKind::Autojoin => Some("autojoin requires a guild name and channel name"@),
        },
        ListUpdateView::NoName => match kind {
            ListKind::Watch => Some("watch requires a guild name and channel name"@),
            ListKind::Autojoin => Some("autojoin requires a guild name and channel name"@),
        },
        ListUpdateView::NotConnected => None,
        ListUpdateView::ChannelNotFound => Some("Unable to find server and channel"@),
        ListUpdateView::GuildNotFound => Some("Unable to find server"@),
        ListUpdateView::Updated { message, .. } => Some(message),
    }
}

/// No token holds a comma.
pub proof fn lemma_tokens_hold_no_comma(guild: Option<GuildId>, channel: ChannelId)
    ensures
        free_of(channel_token(guild, channel), ','),
        guild matches Some(g) ==> free_of(guild_token(g), ','),
{
    lemma_decimal_digits(channel.0 as nat);
    if let Some(g) = guild {
        lemma_decimal_digits(g.0 as nat);
    }
}

/// Running the same request a second time, on the list that the first run
/// gave, gives that list again.
pub proof fn lemma_update_twice(
    kind: ListKind,
    args: Seq<Seq<char>>,
    rest: Seq<char>,
    guilds: Seq<Guild>,
    list: Seq<char>,
)
    requires
        list_update(kind, args, rest, Some(guilds), list) is Updated,
    ensures
        list_update(
            kind,
            args,
            rest,
            Some(guilds),
            list_update(kind, args, rest, Some(guilds), list)->list,
        ) == list_update(kind, args, rest, Some(guilds), list),
{
    let names = non_empty(args);
    let channel_name = if names.len() >= 2 {
        Some(names[1])
    } else {
        None
    };
    let token = target_token(guilds, names[0], channel_name)->0;
    let i = find_guild(guilds, names[0])->0;
    match channel_name {
        Some(name) => {
            let j = find_channel(guilds[i].channels@, name)->0;
            lemma_tokens_hold_no_comma(Some(guilds[i].id), guilds[i].channels@[j].id);
        },
        None => {
            lemma_tokens_hold_no_comma(Some(guilds[i].id), ChannelId(0));
        },
    }
    lemma_add_twice(list, token);
}

// ---------------------------------------------------------------------------
// join
// ---------------------------------------------------------------------------

/// What a handler tells the host about a command.
#[derive(Clone, Copy, Debug, PartialEq, Eq, Structural)]
pub enum ReturnCode {
    /// The command may go on to other handlers.
    Pass,
    /// The command was dealt with here, and goes no further.
    Eat,
    /// The command could not be dealt with.
    Failed,
}

/// What a request to join comes to.
#[derive(Debug, PartialEq, Eq)]
pub enum JoinAction {
    /// The command had no argument, and the user is to be told.
    MissingArguments,
    /// The command had no argument, and came from where the user is not to
    /// be told: the host's own command in a buffer that is not the plugin's.
    NoName,
    /// There is no cache to look the names up in.
    NotConnected,
    /// One channel is to be opened.
    OpenChannel { guild: GuildId, channel: ChannelId },
    /// Every channel of a guild is to be opened, in the order of `channels`.
    OpenGuild { guild: GuildId, channels: IndexMap<Option<u64>, Vec<u64>> },
    /// The names were not found.
    NotFound,
}

/// The mathematical value of a [`JoinAction`].
pub enum JoinView {
    MissingArguments,
    NoName,
    NotConnected,
    OpenChannel { guild: GuildId, channel: ChannelId },
    OpenGuild { guild: GuildId, channels: Seq<FlatEntry> },
    NotFound,
}

impl View for JoinAction {
    type V = JoinView;

    open spec fn view(&self) -> JoinView {
        match *self {
            JoinAction::MissingArguments => JoinView::MissingArguments,
            JoinAction::NoName => JoinView::NoName,
            JoinAction::NotConnected => JoinView::NotConnected,
            JoinAction::OpenChannel { guild, channel } => JoinView::OpenChannel { guild, channel },
            JoinAction::OpenGuild { guild, channels } => JoinView::OpenGuild {
                guild,
                channels: flat_entries(channels),
            },
            JoinAction::NotFound => JoinView::NotFound,
        }
    }
}

/// What a request to join comes to.
///
/// The first argument names the guild. With a second argument, that names a
/// channel of the guild, and the channel is opened; without one, every
/// channel of the guild is.
pub open spec fn join_action(
    args: Seq<Seq<char>>,
    verbose: bool,
    guilds: Option<Seq<Guild>>,
) -> JoinView {
    if args.len() == 0 {
        if verbose {
            JoinView::MissingArguments
        } else {
            JoinView::NoName
        }
    } else {
        match guilds {
            None => JoinView::NotConnected,
            Some(guilds) => match find_guild(guilds, args[0]) {
                Some(i) => if args.len() >= 2 {
                    match find_channel(guilds[i].channels@, args[1]) {
                        Some(j) => JoinView::OpenChannel {
                            guild: guilds[i].id,
                            channel: guilds[i].channels@[j].id,
                        },
                        None => JoinView::NotFound,
                    }
                } else {
                    JoinView::OpenGuild {
                        guild: guilds[i].id,
                        channels: flattened(guilds, seq![GuildOrChannel::Guild(guilds[i].id)]),
                    }
                },
                None => JoinView::NotFound,
            },
        }
    }
}

/// The code that a request to join hands back: the command is dealt with
/// where something is opened, and where the user is told that nothing was
/// found.
pub open spec fn join_code(action: JoinView, verbose: bool) -> ReturnCode {
    match action {
        JoinView::OpenChannel { .. } => ReturnCode::Eat,
        JoinView::OpenGuild { .. } => ReturnCode::Eat,
        JoinView::NotFound => if verbose {
            ReturnCode::Eat
        } else {
            ReturnCode::Failed
        },
        _ => ReturnCode::Failed,
    }
}

/// The line that a request to join prints, if it prints one.
pub open spec fn join_report(action: JoinView, verbose: bool) -> Option<Seq<char>> {
    match action {
        JoinView::MissingArguments => Some("join requires an guild name and channel name"@),
        JoinView::NotFound => if verbose {
            Some("Couldn't find channel"@)
        } else {
            None
        },
        _ => None,
    }
}

/// Resolves what is to be joined.
pub fn join(args: &Args, verbose: bool, cache: Option<&CacheView>) -> (action: JoinAction)
    ensures
        action@ == join_action(strings(args.args@), verbose, guilds_of(cache)),
{
    if args.args.len() == 0 {
        if verbose {
            return JoinAction::MissingArguments;
        }
        return JoinAction::NoName;
    }
    let cache = match cache {
        Some(cache) => cache,
        None => {
            return JoinAction::NotConnected;
        },
    };
    let guild_name = args.args[0].as_str();
    assert(strings(args.args@)[0] == args.args@[0]@);
    if args.args.len() >= 2 {
        assert(strings(args.args@)[1] == args.args@[1]@);
        match search_channel(cache, guild_name, args.args[1].as_str()) {
            Some((guild, channel)) => JoinAction::OpenChannel {
                guild: guild.id,
                channel: channel.id,
            },
            None => JoinAction::NotFound,
        }
    } else {
        match search_guild(cache, guild_name) {
            Some(guild) => {
                let mut items: Vec<GuildOrChannel> = Vec::new();
                items.push(GuildOrChannel::Guild(guild.id));
                assert(items@ =~= seq![GuildOrChannel::Guild(guild.id)]);
                let channels = flatten_guilds(cache, items.as_slice());
                JoinAction::OpenGuild { guild: guild.id, channels }
            },
            None => JoinAction::NotFound,
        }
    }
}

impl JoinAction {
    /// The code to hand back to the host.
    pub fn return_code(&self, verbose: bool) -> (code: ReturnCode)
        ensures
            code == join_code(self@, verbose),
    {
        match self {
            JoinAction::OpenChannel { .. } => ReturnCode::Eat,
            JoinAction::OpenGuild { .. } => ReturnCode::Eat,
            JoinAction::NotFound => if verbose {
                ReturnCode::Eat
            } else {
                ReturnCode::Failed
            },
            _ => ReturnCode::Failed,
        }
    }

    /// The line to print, if there is one.
    pub fn report(&self, verbose: bool) -> (line: Option<String>)
        ensures
            match line {
                Some(text) => join_report(self@, verbose) == Some(text@),
                None => join_report(self@, verbose) is None,
            },
    {
        match self {
            JoinAction::MissingArguments => Some(
                literal("join requires an guild name and channel name"),
            ),
            JoinAction::NotFound => if verbose {
                Some(literal("Couldn't find channel"))
            } else {
                None
            },
            _ => None,
        }
    }
}

// ---------------------------------------------------------------------------
// watched and autojoined
// ---------------------------------------------------------------------------

/// The guilds among the entries, in their order.
pub open spec fn guild_ids(entries: Seq<GuildOrChannel>) -> Seq<GuildId>
    decreases entries.len(),
{
    if entries.len() == 0 {
        Seq::empty()
    } else {
        match entries.last() {
            GuildOrChannel::Guild(id) => guild_ids(entries.drop_last()).push(id),
            GuildOrChannel::Channel(_, _) => guild_ids(entries.drop_last()),
        }
    }
}

/// The channels among the entries, each with its guild, in their order.
pub open spec fn channel_pairs(entries: Seq<GuildOrChannel>) -> Seq<(Option<GuildId>, ChannelId)>
    decreases entries.len(),
{
    if entries.len() == 0 {
        Seq::empty()
    } else {
        match entries.last() {
            GuildOrChannel::Guild(_) => channel_pairs(entries.drop_last()),
            GuildOrChannel::Channel(guild, channel) => channel_pairs(entries.drop_last()).push(
                (guild, channel),
            ),
        }
    }
}

/// A heading with the number of entries under it: `label`, the number in
/// decimal, and a closing bracket.
pub open spec fn count_line(label: Seq<char>, n: nat) -> Seq<char> {
    label + decimal(n) + ")"@
}

/// One line for each listed guild that the cache holds: two spaces and the
/// guild's name.
pub open spec fn guild_lines(guilds: Seq<Guild>, ids: Seq<GuildId>) -> Seq<Seq<char>>
    decreases ids.len(),
{
    if ids.len() == 0 {
        Seq::empty()
    } else {
        match guild_index(guilds, ids.last()) {
            Some(i) => guild_lines(guilds, ids.drop_last()).push("  "@ + guilds[i].name@),
            None => guild_lines(guilds, ids.drop_last()),
        }
    }
}

/// How a guild's id, or its absence, is written out where nothing better is
/// known.
pub open spec fn debug_guild(guild: Option<GuildId>) -> Seq<char> {
    match guild {
        Some(id) => "Some(GuildId("@ + decimal(id.0 as nat) + "))"@,
        None => "None"@,
    }
}

/// How a channel's id is written out where nothing better is known.
pub open spec fn debug_channel(channel: ChannelId) -> Seq<char> {
    "ChannelId("@ + decimal(channel.0 as nat) + ")"@
}

/// The name under which a listed guild shows: its name where the cache holds
/// it, else its id.
pub open spec fn guild_label(guilds: Seq<Guild>, id: GuildId) -> Seq<char> {
    match guild_index(guilds, id) {
        Some(i) => guilds[i].name@,
        None => decimal(id.0 as nat),
    }
}

/// The line of one listed channel: its guild and its name, or its name
/// alone, or the two ids where the cache does not hold the channel.
pub open spec fn channel_line(cache: CacheView, guild: Option<GuildId>, channel: ChannelId) -> Seq<
    char,
> {
    match channel_of(cache, channel) {
        Some(found) => match guild {
            Some(id) => "  "@ + guild_label(cache.guilds@, id) + ": "@ + channel_name(found),
            None => "  "@ + channel_name(found),
        },
        None => "  "@ + debug_guild(guild) + " "@ + debug_channel(channel),
    }
}

/// The lines of the listed channels.
pub open spec fn channel_lines(cache: CacheView, pairs: Seq<(Option<GuildId>, ChannelId)>) -> Seq<
    Seq<char>,
>
    decreases pairs.len(),
{
    if pairs.len() == 0 {
        Seq::empty()
    } else {
        channel_lines(cache, pairs.drop_last()).push(
            channel_line(cache, pairs.last().0, pairs.last().1),
        )
    }
}

/// The heading over the guilds of a list, up to the number.
pub open spec fn servers_label(kind: ListKind) -> Seq<char> {
    match kind {
        ListKind::Watch => "Watched Servers: ("@,
        ListKind::Autojoin => "Autojoin Servers: ("@,
    }
}

/// The heading over the channels of a list, up to the number.
pub open spec fn channels_label(kind: ListKind) -> Seq<char> {
    match kind {
        ListKind::Watch => "Watched Channels: ("@,
        ListKind::Autojoin => "Autojoin Channels: ("@,
    }
}

/// The lines that show a persisted list: an empty line; then, where there is
/// a cache, the guilds of the list under their heading and its channels
/// under theirs.
pub open spec fn listing(kind: ListKind, list: Seq<char>, cache: Option<&CacheView>) -> Seq<
    Seq<char>,
> {
    match cache {
        None => seq![Seq::empty()],
        Some(cache) => {
            let entries = decoded(list_items(list));
            seq![Seq::empty(), count_line(servers_label(kind), guild_ids(entries).len())]
                + guild_lines(cache.guilds@, guild_ids(entries)) + seq![
                count_line(channels_label(kind), channel_pairs(entries).len()),
            ] + channel_lines(*cache, channel_pairs(entries))
        },
    }
}

/// The guilds and the channels among the entries.
fn sort_entries(entries: &Vec<GuildOrChannel>) -> (sorted: (
    Vec<GuildId>,
    Vec<(Option<GuildId>, ChannelId)>,
))
    ensures
        sorted.0@ == guild_ids(entries@),
        sorted.1@ == channel_pairs(entries@),
{
    let mut guilds: Vec<GuildId> = Vec::new();
    let mut channels: Vec<(Option<GuildId>, ChannelId)> = Vec::new();
    let mut i: usize = 0;
    assert(entries@.take(0) =~= Seq::<GuildOrChannel>::empty());
    while i < entries.len()
        invariant
            i <= entries.len(),
            guilds@ == guild_ids(entries@.take(i as int)),
            channels@ == channel_pairs(entries@.take(i as int)),
        decreases entries.len() - i,
    {
        assert(entries@.take(i + 1).drop_last() =~= entries@.take(i as int));
        assert(entries@.take(i + 1).last() == entries@[i as int]);
        match entries[i] {
            GuildOrChannel::Guild(id) => {
                guilds.push(id);
            },
            GuildOrChannel::Channel(guild, channel) => {
                channels.push((guild, channel));
            },
        }
        i = i + 1;
    }
    assert(entries@.take(entries.len() as int) =~= entries@);
    (guilds, channels)
}

/// A heading with the number of entries under it.
fn heading(label: &str, n: usize) -> (line: String)
    ensures
        line@ == count_line(label@, n as nat),
{
    let mut out: Vec<char> = Vec::new();
    push_str(&mut out, label);
    push_decimal(&mut out, n as u64);
    push_str(&mut out, ")");
    assert(out@ =~= count_line(label@, n as nat));
    string_of(&out)
}

/// The line of one listed channel.
fn line_of_channel(cache: &CacheView, guild: Option<GuildId>, channel: ChannelId) -> (line: String)
    ensures
        line@ == channel_line(*cache, guild, channel),
{
    let mut out: Vec<char> = Vec::new();
    push_str(&mut out, "  ");
    match channel_name_by_id(cache, channel) {
        Some(name) => {
            match guild {
                Some(id) => {
                    match guild_by_id(cache, id) {
                        Some(found) => {
                            push_str(&mut out, found.name.as_str());
                        },
                        None => {
                            push_decimal(&mut out, id.0);
                        },
                    }
                    push_str(&mut out, ": ");
                },
                None => {},
            }
            push_str(&mut out, name);
        },
        None => {
            match guild {
                Some(id) => {
                    push_str(&mut out, "Some(GuildId(");
                    push_decimal(&mut out, id.0);
                    push_str(&mut out, "))");
                },
                None => {
                    push_str(&mut out, "None");
                },
            }
            push_str(&mut out, " ");
            push_str(&mut out, "ChannelId(");
            push_decimal(&mut out, channel.0);
            push_str(&mut out, ")");
        },
    }
    assert(out@ =~= channel_line(*cache, guild, channel));
    string_of(&out)
}

/// The lines that show a persisted list.
fn list_lines(kind: ListKind, list: &str, cache: Option<&CacheView>) -> (lines: Vec<String>)
    ensures
        strings(lines@) == listing(kind, list@, cache),
{
    let mut lines: Vec<String> = Vec::new();
    lines.push(String::new());
    assert(strings(lines@) =~= seq![Seq::<char>::empty()]);
    let cache = match cache {
        Some(cache) => cache,
        None => {
            return lines;
        },
    };
    let entries = crate::list::iterate(list);
    let (guilds, channels) = sort_entries(&entries);
    let top = match kind {
        ListKind::Watch => heading("Watched Servers: (", guilds.len()),
        ListKind::Autojoin => heading("Autojoin Servers: (", guilds.len()),
    };
    lines.push(top);
    let ghost start = seq![
        Seq::<char>::empty(),
        count_line(servers_label(kind), guild_ids(entries@).len()),
    ];
    assert(strings(lines@) =~= start);
    let mut i: usize = 0;
    assert(guilds@.take(0) =~= Seq::<GuildId>::empty());
    assert(start + Seq::<Seq<char>>::empty() =~= start);
    while i < guilds.len()
        invariant
            i <= guilds.len(),
            strings(lines@) == start + guild_lines(cache.guilds@, guilds@.take(i as int)),
        decreases guilds.len() - i,
    {
        let ghost before = strings(lines@);
        let ghost done = guild_lines(cache.guilds@, guilds@.take(i as int));
        assert(guilds@.take(i + 1).drop_last() =~= guilds@.take(i as int));
        assert(guilds@.take(i + 1).last() == guilds@[i as int]);
        match guild_by_id(cache, guilds[i]) {
            Some(found) => {
                let mut out: Vec<char> = Vec::new();
                push_str(&mut out, "  ");
                push_str(&mut out, found.name.as_str());
                assert(out@ =~= "  "@ + found.name@);
                lines.push(string_of(&out));
                assert(strings(lines@) =~= before.push(out@));
                assert(start + done.push(out@) =~= (start + done).push(out@));
            },
            None => {},
        }
        i = i + 1;
    }
    assert(guilds@.take(guilds.len() as int) =~= guilds@);
    let middle = match kind {
        ListKind::Watch => heading("Watched Channels: (", channels.len()),
        ListKind::Autojoin => heading("Autojoin Channels: (", channels.len()),
    };
    let ghost upper = strings(lines@);
    lines.push(middle);
    let ghost base = start + guild_lines(cache.guilds@, guild_ids(entries@)) + seq![
        count_line(channels_label(kind), channel_pairs(entries@).len()),
    ];
    assert(strings(lines@) =~= base);
    let mut j: usize = 0;
    assert(channels@.take(0) =~= Seq::<(Option<GuildId>, ChannelId)>::empty());
    assert(base + Seq::<Seq<char>>::empty() =~= base);
    while j < channels.len()
        invariant
            j <= channels.len(),
            strings(lines@) == base + channel_lines(*cache, channels@.take(j as int)),
        decreases channels.len() - j,
    {
        let ghost before = strings(lines@);
        let ghost done = channel_lines(*cache, channels@.take(j as int));
        assert(channels@.take(j + 1).drop_last() =~= channels@.take(j as int));
        assert(channels@.take(j + 1).last() == channels@[j as int]);
        let line = line_of_channel(cache, channels[j].0, channels[j].1);
        lines.push(line);
        assert(strings(lines@) =~= before.push(line@));
        assert(base + done.push(line@) =~= (base + done).push(line@));
        j = j + 1;
    }
    assert(channels@.take(channels.len() as int) =~= channels@);
    lines
}

/// The lines that show the watch list.
pub fn watched(list: &str, cache: Option<&CacheView>) -> (lines: Vec<String>)
    ensures
        strings(lines@) == listing(ListKind::Watch, list@, cache),
{
    list_lines(ListKind::Watch, list, cache)
}

/// The lines that show the autojoin list.
pub fn autojoined(list: &str, cache: Option<&CacheView>) -> (lines: Vec<String>)
    ensures
        strings(lines@) == listing(ListKind::Autojoin, list@, cache),
{
    list_lines(ListKind::Autojoin, list, cache)
}

} // verus!

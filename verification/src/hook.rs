//! What the hooks decide: the handlers of buffer input, of typing, of
//! completion and of the commands that the host shares with the plugin.

use crate::command::{guilds_of, join, join_action, Args, JoinAction};
use crate::flatten::{guild_by_id, guild_index};
use crate::line_edit::{
    get_users_nth_message, line_edit, nth_own_message, parse_line_edit, substitute, substituted,
    FetchError, LineEdit, LineEditView, HISTORY_LIMIT,
};
use crate::mentions::{create_mentions, mentions_created};
use crate::model::{
    CacheView, ChannelId, Guild, GuildChannel, GuildId, Member, Message, MessageId, PrivateChannel,
    Role, User, UserId,
};
use crate::resolver::{name_matches, search_guild_by_name};
use crate::seqs::first_where;
use crate::text::{
    chars_of, contains, contains_chars, decimal, is_text, lowercase, lowercase_chars,
    parse_decimal, parse_decimal_range, push_decimal, push_str, slice_chars, split,
    split_chars, string_of, strings, texts, trim, trim_chars, without_spaces,
    without_spaces_chars,
};
use vstd::prelude::*;

verus! {

/// The id that a variable of a buffer holds: the number that its text is the
/// decimal digits of.
pub open spec fn id_of_var(var: Option<&str>) -> Option<u64> {
    match var {
        Some(text) => parse_decimal(text@),
        None => None,
    }
}

/// Reads an id from a variable of a buffer.
fn read_id(var: Option<&str>) -> (id: Option<u64>)
    ensures
        id == id_of_var(var),
{
    match var {
        Some(text) => {
            let chars = chars_of(text);
            assert(chars@.subrange(0, chars@.len() as int) =~= chars@);
            parse_decimal_range(&chars, 0, chars.len())
        },
        None => None,
    }
}

/// The channel that a buffer shows, by its variable `channelid`.
pub fn buffer_channel(var: Option<&str>) -> (channel: Option<ChannelId>)
    ensures
        channel == match id_of_var(var) {
            Some(id) => Some(ChannelId(id)),
            None => None,
        },
{
    match read_id(var) {
        Some(id) => Some(ChannelId(id)),
        None => None,
    }
}

/// The guild that a buffer belongs to, by its variable `guildid`.
pub fn buffer_guild(var: Option<&str>) -> (guild: Option<GuildId>)
    ensures
        guild == match id_of_var(var) {
            Some(id) => Some(GuildId(id)),
            None => None,
        },
{
    match read_id(var) {
        Some(id) => Some(GuildId(id)),
        None => None,
    }
}

// ---------------------------------------------------------------------------
// Input
// ---------------------------------------------------------------------------

/// What a line typed into a buffer leads to.
#[derive(Clone, Debug, PartialEq, Eq)]
pub enum InputAction {
    /// The buffer shows no channel, or there is no session.
    Nothing,
    /// One of the sender's messages in the channel is to be edited or
    /// deleted.
    Edit { channel: ChannelId, edit: LineEdit },
    /// The text is to be sent to the channel.
    Say { channel: ChannelId, text: String },
}

/// The mathematical value of an [`InputAction`].
pub enum InputView {
    Nothing,
    Edit { channel: ChannelId, edit: LineEditView },
    Say { channel: ChannelId, text: Seq<char> },
}

impl View for InputAction {
    type V = InputView;

    open spec fn view(&self) -> InputView {
        match *self {
            InputAction::Nothing => InputView::Nothing,
            InputAction::Edit { channel, edit } => InputView::Edit { channel, edit: edit@ },
            InputAction::Say { channel, text } => InputView::Say { channel, text: text@ },
        }
    }
}

/// What a line typed into a buffer leads to: an edit where the line is one,
/// else the line is sent, with its mentions in the service's form.
pub open spec fn input_action(
    channel_var: Option<&str>,
    guild_var: Option<&str>,
    cache: Option<&CacheView>,
    text: Seq<char>,
) -> InputView {
    match (id_of_var(channel_var), cache) {
        (Some(channel), Some(cache)) => match line_edit(text) {
            Some(edit) => InputView::Edit { channel: ChannelId(channel), edit },
            None => InputView::Say {
                channel: ChannelId(channel),
                text: mentions_created(
                    *cache,
                    match id_of_var(guild_var) {
                        Some(id) => Some(GuildId(id)),
                        None => None,
                    },
                    text,
                ),
            },
        },
        _ => InputView::Nothing,
    }
}

/// Decides what to do with a line typed into a buffer.
pub fn buffer_input(
    channel_var: Option<&str>,
    guild_var: Option<&str>,
    cache: Option<&CacheView>,
    text: &str,
) -> (action: InputAction)
    ensures
        action@ == input_action(channel_var, guild_var, cache, text@),
{
    let channel = match buffer_channel(channel_var) {
        Some(channel) => channel,
        None => {
            return InputAction::Nothing;
        },
    };
    let guild = buffer_guild(guild_var);
    let cache = match cache {
        Some(cache) => cache,
        None => {
            return InputAction::Nothing;
        },
    };
    match parse_line_edit(text) {
        Some(edit) => InputAction::Edit { channel, edit },
        None => InputAction::Say { channel, text: create_mentions(cache, guild, text) },
    }
}

/// What is asked of the service to carry an edit out.
#[derive(Clone, Debug, PartialEq, Eq)]
pub enum EditRequest {
    /// The message is to be deleted.
    Delete { message: MessageId },
    /// The message is to get the content `content`.
    Edit { message: MessageId, content: String },
}

/// The mathematical value of an [`EditRequest`].
pub enum EditRequestView {
    Delete { message: MessageId },
    Edit { message: MessageId, content: Seq<char> },
}

impl View for EditRequest {
    type V = EditRequestView;

    open spec fn view(&self) -> EditRequestView {
        match *self {
            EditRequest::Delete { message } => EditRequestView::Delete { message },
            EditRequest::Edit { message, content } => EditRequestView::Edit {
                message,
                content: content@,
            },
        }
    }
}

/// The message that an edit is about, by its number.
pub open spec fn edit_line(edit: LineEditView) -> nat {
    match edit {
        LineEditView::Delete { line } => line,
        LineEditView::Sub { line, .. } => line,
    }
}

/// What is asked of the service to carry an edit out, given the messages of
/// the channel, newest first: the edit is about the sender's Nth most recent
/// message, and a substitution works on the content that this message has
/// now.
pub open spec fn edit_request(edit: LineEditView, messages: Seq<Message>, user: UserId) -> Result<
    EditRequestView,
    FetchError,
> {
    match nth_own_message(messages, user, edit_line(edit)) {
        Ok(message) => Ok(
            match edit {
                LineEditView::Delete { .. } => EditRequestView::Delete { message: message.id },
                LineEditView::Sub { old, new, options, .. } => EditRequestView::Edit {
                    message: message.id,
                    content: substituted(message.content@, old, new, options),
                },
            },
        ),
        Err(error) => Err(error),
    }
}

/// Turns an edit into what is asked of the service, once the messages of the
/// channel are at hand.
pub fn request_edit(edit: &LineEdit, messages: &Vec<Message>, user: UserId) -> (request: Result<
    EditRequest,
    FetchError,
>)
    ensures
        match edit_request(edit@, messages@, user) {
            Ok(wanted) => request matches Ok(made) && made@ == wanted,
            Err(error) => request == Err::<EditRequest, FetchError>(error),
        },
{
    match edit {
        LineEdit::Delete { line } => match get_users_nth_message(messages, user, *line) {
            Ok(message) => Ok(EditRequest::Delete { message: message.id }),
            Err(error) => Err(error),
        },
        LineEdit::Sub { line, old, new, options } => match get_users_nth_message(
            messages,
            user,
            *line,
        ) {
            Ok(message) => {
                let flags = match options {
                    Some(flags) => Some(flags.as_str()),
                    None => None,
                };
                let content = substitute(
                    message.content.as_str(),
                    old.as_str(),
                    new.as_str(),
                    flags,
                );
                Ok(EditRequest::Edit { message: message.id, content })
            },
            Err(error) => Err(error),
        },
    }
}

/// The line that reports how an edit went: what was done, behind the host's
/// prefix and a tab, or what went wrong.
pub open spec fn edit_report(
    edit: LineEditView,
    prefix: Seq<char>,
    error: Option<Seq<char>>,
) -> Seq<char> {
    match (edit, error) {
        (LineEditView::Delete { .. }, Some(why)) => "[discord] An error occurred deleting a message: "@
            + why,
        (LineEditView::Delete { line }, None) => prefix + "\tMessage ("@ + decimal(line)
            + ") deleted"@,
        (LineEditView::Sub { .. }, Some(why)) => "[discord] An error occurred editing a message: "@
            + why,
        (LineEditView::Sub { line, old, new, options }, None) => prefix + "\t"@ + decimal(line)
            + "s/"@ + old + "/"@ + new + "/"@ + (match options {
            Some(flags) => flags,
            None => Seq::empty(),
        }),
    }
}

/// Reports how an edit went.
pub fn report_edit(edit: &LineEdit, prefix: &str, error: Option<&str>) -> (line: String)
    ensures
        line@ == edit_report(
            edit@,
            prefix@,
            match error {
                Some(why) => Some(why@),
                None => None,
            },
        ),
{
    let mut out: Vec<char> = Vec::new();
    match (edit, error) {
        (LineEdit::Delete { .. }, Some(why)) => {
            push_str(&mut out, "[discord] An error occurred deleting a message: ");
            push_str(&mut out, why);
        },
        (LineEdit::Delete { line }, None) => {
            push_str(&mut out, prefix);
            push_str(&mut out, "\tMessage (");
            push_decimal(&mut out, *line as u64);
            push_str(&mut out, ") deleted");
        },
        (LineEdit::Sub { .. }, Some(why)) => {
            push_str(&mut out, "[discord] An error occurred editing a message: ");
            push_str(&mut out, why);
        },
        (LineEdit::Sub { line, old, new, options }, None) => {
            push_str(&mut out, prefix);
            push_str(&mut out, "\t");
            push_decimal(&mut out, *line as u64);
            push_str(&mut out, "s/");
            push_str(&mut out, old.as_str());
            push_str(&mut out, "/");
            push_str(&mut out, new.as_str());
            push_str(&mut out, "/");
            match options {
                Some(flags) => push_str(&mut out, flags.as_str()),
                None => {},
            }
        },
    }
    assert(out@ =~= edit_report(
        edit@,
        prefix@,
        match error {
            Some(why) => Some(why@),
            None => None,
        },
    ));
    string_of(&out)
}

/// What is written of a message that could not be had: that a limit was
/// exceeded, or that the message is missing.
pub open spec fn fetch_error_words(error: FetchError) -> Seq<char> {
    match error {
        FetchError::ExceededLimit { .. } => "Input exceeded a limit"@,
        FetchError::ItemMissing => "The required item is missing from the cache."@,
    }
}

/// `Display` of serenity's `Error` writes, for `ExceededLimit`, one fixed
/// text, whatever message and number the variant holds; for
/// `Model(ItemMissing)` it writes what `Display` of `ModelError` writes, the
/// text that the item is missing from the cache.
#[verifier::external_body]
fn remote_error_text(error: FetchError, message: &str, count: u32) -> (text: String)
    ensures
        text@ == fetch_error_words(error),
{
    let remote = match error {
        FetchError::ExceededLimit { .. } => serenity::Error::ExceededLimit(
            message.to_owned(),
            count,
        ),
        FetchError::ItemMissing => serenity::Error::Model(serenity::model::ModelError::ItemMissing),
    };
    remote.to_string()
}

/// What is said of a message that could not be had, in the words of the
/// service's client library.
pub fn fetch_error_text(error: FetchError) -> (text: String)
    ensures
        text@ == fetch_error_words(error),
{
    let count: u32 = match error {
        FetchError::ExceededLimit { requested } => (requested as u64 % 0x1_0000_0000u64) as u32,
        FetchError::ItemMissing => 0,
    };
    remote_error_text(error, "Cannot fetch more than 50 items", count)
}

/// Whether an edit is about a message that is ever looked for: no message
/// beyond the 50th is. An edit that fails here fails in the same way
/// whatever the channel holds, so that nothing need be fetched for it.
pub fn edit_in_range(edit: &LineEdit) -> (checked: Result<(), FetchError>)
    ensures
        checked == if edit_line(edit@) > 50 {
            Err::<(), FetchError>(FetchError::ExceededLimit { requested: edit_line(edit@) as usize })
        } else {
            Ok::<(), FetchError>(())
        },
        checked matches Err(error) ==> forall|messages: Seq<Message>, user: UserId|
            #[trigger] edit_request(edit@, messages, user) == Err::<EditRequestView, FetchError>(
                error,
            ),
{
    let line = match edit {
        LineEdit::Delete { line } => *line,
        LineEdit::Sub { line, .. } => *line,
    };
    if line > HISTORY_LIMIT {
        Err(FetchError::ExceededLimit { requested: line })
    } else {
        Ok(())
    }
}

// ---------------------------------------------------------------------------
// Switching buffers and typing
// ---------------------------------------------------------------------------

/// The message to acknowledge when a buffer comes to the front: the last of
/// the channel, where the channel is known to have been read up to another.
pub fn handle_buffer_switch(read_up_to: Option<MessageId>, last_message: Option<MessageId>) -> (
    acknowledge: Option<MessageId>)
    ensures
        acknowledge == match (read_up_to, last_message) {
            (Some(read), Some(last)) => if read != last {
                Some(last)
            } else {
                None
            },
            _ => None,
        },
{
    match (read_up_to, last_message) {
        (Some(read), Some(last)) => if read.0 != last.0 {
            Some(last)
        } else {
            None
        },
        _ => None,
    }
}

/// When the service was last told that the user is typing.
#[derive(Clone, Copy, Debug, PartialEq, Eq, Structural)]
pub struct TypingGate {
    /// The time of the last notice, in seconds.
    pub last: u64,
}

/// Whether a notice of typing is due: typing notices are wanted, the buffer
/// shows a channel, what is typed is no command, and more than nine seconds
/// have gone by since the last notice.
pub open spec fn typing_due(
    enabled: bool,
    channel_var: Option<&str>,
    input: Seq<char>,
    last: u64,
    now: u64,
) -> Option<ChannelId> {
    match id_of_var(channel_var) {
        Some(channel) => if enabled && !(input.len() > 0 && input[0] == '/') && last + 9 < now {
            Some(ChannelId(channel))
        } else {
            None
        },
        None => None,
    }
}

impl TypingGate {
    /// A gate that has let nothing through yet.
    pub fn new() -> (gate: TypingGate)
        ensures
            gate.last == 0,
    {
        TypingGate { last: 0 }
    }

    /// Decides whether the service is to be told that the user is typing in
    /// a channel, and notes the time where it is.
    pub fn handle_buffer_typing(
        &mut self,
        enabled: bool,
        channel_var: Option<&str>,
        input: &str,
        now: u64,
    ) -> (notify: Option<ChannelId>)
        ensures
            notify == typing_due(enabled, channel_var, input@, old(self).last, now),
            final(self).last == if notify is Some {
                now
            } else {
                old(self).last
            },
    {
        let channel = match buffer_channel(channel_var) {
            Some(channel) => channel,
            None => {
                return None;
            },
        };
        if !enabled {
            return None;
        }
        let typed = chars_of(input);
        if typed.len() > 0 && typed[0] == '/' {
            return None;
        }
        if now > 9 && self.last < now - 9 {
            self.last = now;
            Some(channel)
        } else {
            None
        }
    }
}

// ---------------------------------------------------------------------------
// nick and join
// ---------------------------------------------------------------------------

/// What a `/nick` command asks for.
#[derive(Clone, Debug, PartialEq, Eq)]
pub enum NickAction {
    /// The buffer belongs to no guild: the command is the host's.
    NotOurs,
    /// The buffer's guild could not be read.
    InvalidGuild,
    /// The nickname is to be set in every guild of the user; `None` takes
    /// the nickname away.
    SetEverywhere { nick: Option<String> },
    /// The nickname is to be set in one guild.
    SetIn { guild: GuildId, nick: Option<String> },
}

/// The mathematical value of a [`NickAction`].
pub enum NickView {
    NotOurs,
    InvalidGuild,
    SetEverywhere { nick: Option<Seq<char>> },
    SetIn { guild: GuildId, nick: Option<Seq<char>> },
}

impl View for NickAction {
    type V = NickView;

    open spec fn view(&self) -> NickView {
        match *self {
            NickAction::NotOurs => NickView::NotOurs,
            NickAction::InvalidGuild => NickView::InvalidGuild,
            NickAction::SetEverywhere { nick } => NickView::SetEverywhere {
                nick: match nick {
                    Some(text) => Some(text@),
                    None => None,
                },
            },
            NickAction::SetIn { guild, nick } => NickView::SetIn {
                guild,
                nick: match nick {
                    Some(text) => Some(text@),
                    None => None,
                },
            },
        }
    }
}

/// The text behind the first `n` characters of a text, or nothing where the
/// text is shorter.
pub open spec fn after(s: Seq<char>, n: int) -> Seq<char> {
    if 0 <= n <= s.len() {
        s.skip(n)
    } else {
        Seq::empty()
    }
}

/// The nickname that a text names: none where the text is empty.
pub open spec fn nick_named(text: Seq<char>) -> Option<Seq<char>> {
    if text.len() == 0 {
        None
    } else {
        Some(text)
    }
}

/// What a `/nick` command asks for. Behind the command's name stands the
/// nickname, and before it, if the nickname is to be set in every guild,
/// `-all`. Whitespace around either counts for nothing.
pub open spec fn nick_action(guild_var: Option<&str>, command: Seq<char>) -> NickView {
    let words = trim(after(command, 5));
    let all = split(words, ' ')[0] == "-all"@;
    match guild_var {
        None => NickView::NotOurs,
        Some(var) => if all {
            NickView::SetEverywhere { nick: nick_named(trim(after(words, 4))) }
        } else {
            match parse_decimal(var@) {
                Some(id) => NickView::SetIn { guild: GuildId(id), nick: nick_named(words) },
                None => NickView::InvalidGuild,
            }
        },
    }
}

/// The text behind the first `n` characters.
fn text_after(s: &Vec<char>, n: usize) -> (rest: Vec<char>)
    ensures
        rest@ == after(s@, n as int),
{
    if n <= s.len() {
        let rest = slice_chars(s, n, s.len());
        assert(rest@ =~= s@.skip(n as int));
        rest
    } else {
        Vec::new()
    }
}

/// Decides what a `/nick` command does.
pub fn handle_nick(guild_var: Option<&str>, command: &str) -> (action: NickAction)
    ensures
        action@ == nick_action(guild_var, command@),
{
    let var = match guild_var {
        Some(var) => var,
        None => {
            return NickAction::NotOurs;
        },
    };
    let line = chars_of(command);
    let tail = text_after(&line, 5);
    let words = trim_chars(&tail);
    let tokens = split_chars(&words, ' ');
    proof {
        crate::text::lemma_split_parts(words@, ' ');
        assert(texts(tokens@)[0] == tokens@[0]@);
    }
    if is_text(&tokens[0], "-all") {
        let behind = text_after(&words, 4);
        let name = trim_chars(&behind);
        let nick = if name.len() == 0 {
            None
        } else {
            Some(string_of(&name))
        };
        NickAction::SetEverywhere { nick }
    } else {
        match buffer_guild(Some(var)) {
            Some(guild) => {
                let nick = if words.len() == 0 {
                    None
                } else {
                    Some(string_of(&words))
                };
                NickAction::SetIn { guild, nick }
            },
            None => NickAction::InvalidGuild,
        }
    }
}

/// The command line of the plugin that a `/join` command of the host stands
/// for: `/discord ` and the command without its first character.
pub open spec fn join_line(command: Seq<char>) -> Seq<char> {
    "/discord "@ + after(command, 1)
}

/// Handles a `/join` command of the host as the plugin's own `join`. The
/// user is told of what goes wrong where the buffer belongs to a guild.
pub fn handle_join(guild_var: Option<&str>, command: &str, cache: Option<&CacheView>) -> (action:
    JoinAction)
    ensures
        action@ == join_action(
            crate::command::args_of(join_line(command@)),
            guild_var is Some,
            guilds_of(cache),
        ),
{
    let line = chars_of(command);
    let tail = text_after(&line, 1);
    let mut out: Vec<char> = Vec::new();
    push_str(&mut out, "/discord ");
    crate::text::push_all(&mut out, &tail);
    let full = string_of(&out);
    let args = Args::from_cmd(full.as_str());
    join(&args, guild_var.is_some(), cache)
}

// ---------------------------------------------------------------------------
// Completion
// ---------------------------------------------------------------------------

/// The names of the guilds as they can be typed: without their spaces.
pub open spec fn guild_completions(guilds: Seq<Guild>) -> Seq<Seq<char>> {
    guilds.map_values(|g: Guild| without_spaces(g.name@))
}

/// The guilds that a command can name.
pub fn handle_guild_completion(cache: &CacheView) -> (names: Vec<String>)
    ensures
        strings(names@) == guild_completions(cache.guilds@),
{
    let mut names: Vec<String> = Vec::new();
    let mut i: usize = 0;
    while i < cache.guilds.len()
        invariant
            i <= cache.guilds.len(),
            strings(names@) == guild_completions(cache.guilds@.take(i as int)),
        decreases cache.guilds.len() - i,
    {
        let ghost before = strings(names@);
        let chars = chars_of(cache.guilds[i].name.as_str());
        let stripped = without_spaces_chars(&chars);
        names.push(string_of(&stripped));
        assert(strings(names@) =~= before.push(stripped@));
        assert(guild_completions(cache.guilds@.take(i + 1)) =~= guild_completions(
            cache.guilds@.take(i as int),
        ).push(stripped@));
        i = i + 1;
    }
    assert(cache.guilds@.take(cache.guilds.len() as int) =~= cache.guilds@);
    names
}

/// The names, without their spaces, of the channels that hold messages and
/// that the user may read, in their order.
pub open spec fn open_channels(channels: Seq<GuildChannel>) -> Seq<Seq<char>>
    decreases channels.len(),
{
    if channels.len() == 0 {
        Seq::empty()
    } else if channels.last().kind.has_history() && channels.last().readable {
        open_channels(channels.drop_last()).push(without_spaces(channels.last().name@))
    } else {
        open_channels(channels.drop_last())
    }
}

/// The channels that can follow in a command line: those of the guild that
/// the word before the last names. No guild is named by its id here.
pub open spec fn channel_completions(guilds: Seq<Guild>, input: Seq<char>) -> Seq<Seq<char>> {
    let words = split(input, ' ');
    if words.len() < 2 {
        Seq::empty()
    } else {
        match first_where(guilds, |g: Guild| name_matches(g.name@, words[words.len() - 2])) {
            Some(i) => open_channels(guilds[i].channels@),
            None => Seq::empty(),
        }
    }
}

/// The channels that the word being typed can name.
pub fn handle_channel_completion(input: &str, cache: &CacheView) -> (names: Vec<String>)
    ensures
        strings(names@) == channel_completions(cache.guilds@, input@),
{
    let mut names: Vec<String> = Vec::new();
    assert(strings(names@) =~= Seq::<Seq<char>>::empty());
    let typed = chars_of(input);
    let words = split_chars(&typed, ' ');
    if words.len() < 2 {
        return names;
    }
    let word = &words[words.len() - 2];
    assert(texts(words@)[words.len() - 2] == word@);
    let guild = match search_guild_by_name(cache, word) {
        Some(guild) => guild,
        None => {
            return names;
        },
    };
    let mut j: usize = 0;
    assert(guild.channels@.take(0) =~= Seq::<GuildChannel>::empty());
    while j < guild.channels.len()
        invariant
            j <= guild.channels.len(),
            strings(names@) == open_channels(guild.channels@.take(j as int)),
        decreases guild.channels.len() - j,
    {
        let ghost before = strings(names@);
        let channel = &guild.channels[j];
        assert(guild.channels@.take(j + 1).drop_last() =~= guild.channels@.take(j as int));
        assert(guild.channels@.take(j + 1).last() == *channel);
        if channel.kind.has_history() && channel.readable {
            let chars = chars_of(channel.name.as_str());
            let stripped = without_spaces_chars(&chars);
            names.push(string_of(&stripped));
            assert(strings(names@) =~= before.push(stripped@));
        }
        j = j + 1;
    }
    assert(guild.channels@.take(guild.channels.len() as int) =~= guild.channels@);
    names
}

/// The users with whom a conversation is open.
pub fn handle_dm_completion(cache: &CacheView) -> (names: Vec<String>)
    ensures
        strings(names@) == cache.private_channels@.map_values(
            |c: PrivateChannel| c.recipient.name@,
        ),
{
    let ghost all = cache.private_channels@.map_values(|c: PrivateChannel| c.recipient.name@);
    let mut names: Vec<String> = Vec::new();
    let mut i: usize = 0;
    while i < cache.private_channels.len()
        invariant
            i <= cache.private_channels.len(),
            all == cache.private_channels@.map_values(|c: PrivateChannel| c.recipient.name@),
            strings(names@) == all.take(i as int),
        decreases cache.private_channels.len() - i,
    {
        let ghost before = strings(names@);
        let name = cache.private_channels[i].recipient.name.clone();
        names.push(name);
        assert(strings(names@) =~= before.push(all[i as int]));
        assert(all.take(i + 1) =~= all.take(i as int).push(all[i as int]));
        i = i + 1;
    }
    assert(all.take(cache.private_channels.len() as int) =~= all);
    names
}

/// A number below ten thousand in four digits.
pub open spec fn four_digits(n: nat) -> Seq<char> {
    if n < 10 {
        "000"@ + decimal(n)
    } else if n < 100 {
        "00"@ + decimal(n)
    } else if n < 1000 {
        "0"@ + decimal(n)
    } else {
        decimal(n)
    }
}

/// The name under which a member shows, with the number that tells the
/// member from others of that name: the nickname, or else the name, `#`, and
/// the number in at least four digits.
pub open spec fn distinct(member: Member) -> Seq<char> {
    (match member.nick {
        Some(nick) => nick@,
        None => member.user.name@,
    }) + "#"@ + four_digits(member.user.discriminator as nat)
}

/// The members that can be mentioned: `@` and how each shows.
pub open spec fn nick_completions(members: Seq<Member>) -> Seq<Seq<char>> {
    members.map_values(|m: Member| "@"@ + distinct(m))
}

/// The members of a channel as they can be mentioned.
pub fn handle_nick_completion(members: &Vec<Member>) -> (names: Vec<String>)
    ensures
        strings(names@) == nick_completions(members@),
{
    let ghost all = nick_completions(members@);
    let mut names: Vec<String> = Vec::new();
    let mut i: usize = 0;
    while i < members.len()
        invariant
            i <= members.len(),
            all == nick_completions(members@),
            strings(names@) == all.take(i as int),
        decreases members.len() - i,
    {
        let ghost before = strings(names@);
        let member = &members[i];
        let mut out: Vec<char> = Vec::new();
        push_str(&mut out, "@");
        match &member.nick {
            Some(nick) => push_str(&mut out, nick.as_str()),
            None => push_str(&mut out, member.user.name.as_str()),
        }
        push_str(&mut out, "#");
        let number = member.user.discriminator;
        if number < 10 {
            push_str(&mut out, "000");
        } else if number < 100 {
            push_str(&mut out, "00");
        } else if number < 1000 {
            push_str(&mut out, "0");
        }
        push_decimal(&mut out, number as u64);
        assert(out@ =~= "@"@ + distinct(*member));
        names.push(string_of(&out));
        assert(strings(names@) =~= before.push(all[i as int]));
        assert(all.take(i + 1) =~= all.take(i as int).push(all[i as int]));
        i = i + 1;
    }
    assert(all.take(members.len() as int) =~= all);
    names
}

/// The roles that can be typed: `@` and the name of each.
pub open spec fn role_names(roles: Seq<Role>) -> Seq<Seq<char>> {
    roles.map_values(|r: Role| "@"@ + r.name@)
}

/// The roles of the guild that a buffer belongs to.
pub open spec fn role_completions(guilds: Seq<Guild>, guild_var: Option<&str>) -> Seq<Seq<char>> {
    match id_of_var(guild_var) {
        Some(id) => match guild_index(guilds, GuildId(id)) {
            Some(i) => role_names(guilds[i].roles@),
            None => Seq::empty(),
        },
        None => Seq::empty(),
    }
}

/// The roles of the buffer's guild as they can be typed.
pub fn handle_role_completion(cache: &CacheView, guild_var: Option<&str>) -> (names: Vec<String>)
    ensures
        strings(names@) == role_completions(cache.guilds@, guild_var),
{
    let mut names: Vec<String> = Vec::new();
    assert(strings(names@) =~= Seq::<Seq<char>>::empty());
    let guild = match buffer_guild(guild_var) {
        Some(id) => match guild_by_id(cache, id) {
            Some(guild) => guild,
            None => {
                return names;
            },
        },
        None => {
            return names;
        },
    };
    let ghost all = role_names(guild.roles@);
    let mut i: usize = 0;
    while i < guild.roles.len()
        invariant
            i <= guild.roles.len(),
            all == role_names(guild.roles@),
            strings(names@) == all.take(i as int),
        decreases guild.roles.len() - i,
    {
        let ghost before = strings(names@);
        let mut out: Vec<char> = Vec::new();
        push_str(&mut out, "@");
        push_str(&mut out, guild.roles[i].name.as_str());
        names.push(string_of(&out));
        assert(strings(names@) =~= before.push(all[i as int]));
        assert(all.take(i + 1) =~= all.take(i as int).push(all[i as int]));
        i = i + 1;
    }
    assert(all.take(guild.roles.len() as int) =~= all);
    names
}

// ---------------------------------------------------------------------------
// query
// ---------------------------------------------------------------------------

/// The name that a `/query` command asks for: what stands behind `/query `,
/// without the whitespace around it. None where nothing stands there.
pub open spec fn queried_name(command: Seq<char>) -> Option<Seq<char>> {
    if command.len() <= 7 {
        None
    } else {
        Some(trim(command.skip(7)))
    }
}

/// Reads the name that a `/query` command asks for. Where there is none, the
/// user is to be told that a name is needed.
pub fn handle_query(command: &str) -> (name: Option<String>)
    ensures
        match name {
            Some(text) => queried_name(command@) == Some(text@),
            None => queried_name(command@) is None,
        },
{
    let line = chars_of(command);
    if line.len() <= 7 {
        return None;
    }
    let tail = slice_chars(&line, 7, line.len());
    assert(tail@ =~= command@.skip(7));
    let name = trim_chars(&tail);
    Some(string_of(&name))
}

/// The line that says that a `/query` command named nobody.
pub fn query_usage() -> (line: String)
    ensures
        line@ == "query requires a username"@,
{
    crate::command::literal("query requires a username")
}

/// Whether a name holds what was asked for, whatever the case of either.
pub open spec fn name_holds(name: Seq<char>, asked: Seq<char>) -> bool {
    contains(lowercase(name), lowercase(asked))
}

/// The users with whom a conversation is open and whose name holds what was
/// asked for, in the order of the conversations.
pub open spec fn known_partners(channels: Seq<PrivateChannel>, asked: Seq<char>) -> Seq<User>
    decreases channels.len(),
{
    if channels.len() == 0 {
        Seq::empty()
    } else if name_holds(channels.last().recipient.name@, asked) {
        known_partners(channels.drop_last(), asked).push(channels.last().recipient)
    } else {
        known_partners(channels.drop_last(), asked)
    }
}

/// The users with whom a conversation is open and whose name holds what was
/// asked for.
pub fn find_partners<'a>(cache: &'a CacheView, asked: &str) -> (found: Vec<&'a User>)
    ensures
        found@.map_values(|u: &User| *u) == known_partners(cache.private_channels@, asked@),
{
    let wanted = chars_of(asked);
    let lower = lowercase_chars(&wanted);
    let mut found: Vec<&'a User> = Vec::new();
    let mut i: usize = 0;
    assert(cache.private_channels@.take(0) =~= Seq::<PrivateChannel>::empty());
    assert(found@.map_values(|u: &User| *u) =~= Seq::<User>::empty());
    while i < cache.private_channels.len()
        invariant
            i <= cache.private_channels.len(),
            lower@ == lowercase(asked@),
            found@.map_values(|u: &User| *u) == known_partners(
                cache.private_channels@.take(i as int),
                asked@,
            ),
        decreases cache.private_channels.len() - i,
    {
        let ghost before = found@.map_values(|u: &User| *u);
        let channel = &cache.private_channels[i];
        assert(cache.private_channels@.take(i + 1).drop_last() =~= cache.private_channels@.take(
            i as int,
        ));
        assert(cache.private_channels@.take(i + 1).last() == *channel);
        let chars = chars_of(channel.recipient.name.as_str());
        let name = lowercase_chars(&chars);
        if contains_chars(&name, &lower) {
            found.push(&channel.recipient);
            assert(found@.map_values(|u: &User| *u) =~= before.push(channel.recipient));
        }
        i = i + 1;
    }
    assert(cache.private_channels@.take(cache.private_channels.len() as int)
        =~= cache.private_channels@);
    found
}

/// The user to open a conversation with: the first of the partners that
/// were found, or, where there is none, the first of the members that the
/// guilds gave.
pub fn query_target<'a>(partners: &Vec<&'a User>, members: &Vec<&'a User>) -> (target: Option<
    &'a User,
>)
    ensures
        target == if partners@.len() > 0 {
            Some(partners@[0])
        } else if members@.len() > 0 {
            Some(members@[0])
        } else {
            None
        },
{
    if partners.len() > 0 {
        Some(partners[0])
    } else if members.len() > 0 {
        Some(members[0])
    } else {
        None
    }
}

/// A text as `{:?}` writes it: between double quotes, with what cannot stand
/// there as it is written as an escape.
pub uninterp spec fn quoted(text: Seq<char>) -> Seq<char>;

/// Formatting a `str` with `{:?}` gives the text as a string literal would
/// hold it; the contract gives that form the name [`quoted`].
#[verifier::external_body]
fn quote(text: &str) -> (out: String)
    ensures
        out@ == quoted(text@),
{
    format!("{:?}", text)
}

/// The line that says that nobody of a name was found, given the name as it
/// is to be shown.
pub fn not_found_line(shown: &str) -> (line: String)
    ensures
        line@ == "Could not find user "@ + shown@,
{
    let mut out: Vec<char> = Vec::new();
    push_str(&mut out, "Could not find user ");
    push_str(&mut out, shown);
    string_of(&out)
}

/// The line that says that nobody of the name was found: the name is shown
/// between quotes.
pub fn query_failure(name: &str) -> (line: String)
    ensures
        line@ == "Could not find user "@ + quoted(name@),
{
    let shown = quote(name);
    not_found_line(shown.as_str())
}

} // verus!

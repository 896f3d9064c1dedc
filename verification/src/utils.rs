//! Small things that the handlers share: colours, statuses, the names of
//! buffers, and which of a member's roles count.

pub use crate::codec::{parse_id, unique_guild_id, unique_id};
pub use crate::flatten::flatten_guilds;
pub use crate::line_edit::get_users_nth_message;
pub use crate::mentions::create_mentions;
pub use crate::model::GuildOrChannel;
pub use crate::resolver::{search_channel, search_guild};

use crate::cache::{presence_status, status_of};
use crate::model::{
    CacheView, Channel, ChannelId, Colour, GuildId, MessageId, OnlineStatus, Role, UserId,
};
use crate::text::{decimal, push_decimal, push_str, same_text, string_of};
use vstd::prelude::*;

verus! {

/// The step of the six-step scale that a part of a colour falls on.
pub open spec fn ansi_step(part: u8) -> int {
    part as int * 5 / 255
}

/// The colour of the 256-colour palette that is nearest to a colour: each
/// part falls on one of six steps, and the three steps are one number in the
/// palette's cube of 216 colours, which starts at 16.
pub open spec fn ansi_colour(colour: Colour) -> int {
    16 + 36 * ansi_step(colour.r) + 6 * ansi_step(colour.g) + ansi_step(colour.b)
}

/// Finds the colour of the 256-colour palette that is nearest to a colour.
pub fn rgb_to_ansi(color: Colour) -> (code: u8)
    ensures
        code == ansi_colour(color),
        16 <= code <= 231,
{
    let r: u16 = color.r as u16 * 5 / 255;
    let g: u16 = color.g as u16 * 5 / 255;
    let b: u16 = color.b as u16 * 5 / 255;
    let code: u16 = 16 + 36 * r + 6 * g + b;
    code as u8
}

/// Whether a user of this status shows as present.
pub fn status_is_online(status: OnlineStatus) -> (online: bool)
    ensures
        online == (status is Online || status is Idle || status is DoNotDisturb),
{
    match status {
        OnlineStatus::Online | OnlineStatus::Idle | OnlineStatus::DoNotDisturb => true,
        OnlineStatus::Offline | OnlineStatus::Invisible => false,
    }
}

/// The name of the colour in which a status shows; empty for a user whose
/// status is not known.
pub open spec fn status_colour(status: Option<OnlineStatus>) -> Seq<char> {
    match status {
        Some(OnlineStatus::DoNotDisturb) => "red"@,
        Some(OnlineStatus::Idle) => "178"@,
        Some(OnlineStatus::Invisible) => "weechat.color.nicklist_away"@,
        Some(OnlineStatus::Offline) => "weechat.color.nicklist_away"@,
        Some(OnlineStatus::Online) => "green"@,
        None => Seq::empty(),
    }
}

/// The name of the colour in which a status shows.
pub fn status_colour_name(status: Option<OnlineStatus>) -> (name: String)
    ensures
        name@ == status_colour(status),
{
    let mut out: Vec<char> = Vec::new();
    match status {
        Some(OnlineStatus::DoNotDisturb) => push_str(&mut out, "red"),
        Some(OnlineStatus::Idle) => push_str(&mut out, "178"),
        Some(OnlineStatus::Invisible) => push_str(&mut out, "weechat.color.nicklist_away"),
        Some(OnlineStatus::Offline) => push_str(&mut out, "weechat.color.nicklist_away"),
        Some(OnlineStatus::Online) => push_str(&mut out, "green"),
        None => {},
    }
    assert(out@ =~= status_colour(status));
    string_of(&out)
}

/// The codes that the host gives for the colours of the statuses, and the
/// code that ends a colour.
#[derive(Clone, Debug, PartialEq, Eq)]
pub struct Palette {
    /// The code of `red`.
    pub do_not_disturb: String,
    /// The code of `178`.
    pub idle: String,
    /// The code of `weechat.color.nicklist_away`.
    pub away: String,
    /// The code of `green`.
    pub online: String,
    /// The code of the colour without a name.
    pub unknown: String,
    /// The code of `Reset`.
    pub reset: String,
}

/// The code of the colour in which a status shows.
pub open spec fn status_code(palette: Palette, status: Option<OnlineStatus>) -> Seq<char> {
    match status {
        Some(OnlineStatus::DoNotDisturb) => palette.do_not_disturb@,
        Some(OnlineStatus::Idle) => palette.idle@,
        Some(OnlineStatus::Invisible) => palette.away@,
        Some(OnlineStatus::Offline) => palette.away@,
        Some(OnlineStatus::Online) => palette.online@,
        None => palette.unknown@,
    }
}

/// The mark that stands before a user's name: a dot in the colour of the
/// user's status, and a space.
pub open spec fn status_prefix(palette: Palette, status: Option<OnlineStatus>) -> Seq<char> {
    status_code(palette, status) + "•"@ + palette.reset@ + " "@
}

/// Makes the mark that stands before a user's name.
pub fn format_user_status_prefix(palette: &Palette, status: Option<OnlineStatus>) -> (prefix:
    String)
    ensures
        prefix@ == status_prefix(*palette, status),
{
    let mut out: Vec<char> = Vec::new();
    match status {
        Some(OnlineStatus::DoNotDisturb) => push_str(&mut out, palette.do_not_disturb.as_str()),
        Some(OnlineStatus::Idle) => push_str(&mut out, palette.idle.as_str()),
        Some(OnlineStatus::Invisible) => push_str(&mut out, palette.away.as_str()),
        Some(OnlineStatus::Offline) => push_str(&mut out, palette.away.as_str()),
        Some(OnlineStatus::Online) => push_str(&mut out, palette.online.as_str()),
        None => push_str(&mut out, palette.unknown.as_str()),
    }
    push_str(&mut out, "•");
    push_str(&mut out, palette.reset.as_str());
    push_str(&mut out, " ");
    assert(out@ =~= status_prefix(*palette, status));
    string_of(&out)
}

/// Makes the mark that stands before the name of a user, by the status under
/// which the cache has last seen them.
pub fn get_user_status_prefix(palette: &Palette, cache: &CacheView, user: UserId) -> (prefix:
    String)
    ensures
        prefix@ == status_prefix(*palette, status_of(cache.presences@, user)),
{
    format_user_status_prefix(palette, presence_status(cache, user))
}

/// What every kind of channel has: a name to show, and perhaps a last
/// message.
pub trait ChannelExt {
    /// The name under which the channel shows.
    spec fn shown_name(&self) -> Seq<char>;

    /// The last message of the channel, where its kind holds messages and
    /// there is one.
    spec fn last_message_id(&self) -> Option<MessageId>;

    /// The name under which the channel shows.
    fn name(&self) -> (name: String)
        ensures
            name@ == self.shown_name(),
    ;

    /// The last message of the channel.
    fn last_message(&self) -> (id: Option<MessageId>)
        ensures
            id == self.last_message_id(),
    ;
}

impl ChannelExt for Channel {
    open spec fn shown_name(&self) -> Seq<char> {
        crate::cache::channel_name(*self)
    }

    open spec fn last_message_id(&self) -> Option<MessageId> {
        match *self {
            Channel::Guild(channel) => channel.last_message_id,
            Channel::Group(channel) => channel.last_message_id,
            Channel::Category(_) => None,
            Channel::Private(channel) => channel.last_message_id,
        }
    }

    fn name(&self) -> (name: String) {
        match self {
            Channel::Guild(channel) => channel.name.clone(),
            Channel::Group(channel) => channel.name.clone(),
            Channel::Category(category) => category.name.clone(),
            Channel::Private(channel) => channel.recipient.name.clone(),
        }
    }

    fn last_message(&self) -> (id: Option<MessageId>) {
        match self {
            Channel::Guild(channel) => channel.last_message_id,
            Channel::Group(channel) => channel.last_message_id,
            Channel::Category(_) => None,
            Channel::Private(channel) => channel.last_message_id,
        }
    }
}

/// Whether role `a` stands no higher than role `b`: by position, and by id
/// where the positions are the same.
pub open spec fn role_le(a: Role, b: Role) -> bool {
    a.position < b.position || (a.position == b.position && a.id.0 <= b.id.0)
}

/// Whether a role counts: every role does, or only those that are shown
/// apart from the others.
pub open spec fn role_counts(role: Role, hoisted_only: bool) -> bool {
    !hoisted_only || role.hoist
}

/// The index of the highest of the roles that count; of several that stand
/// equally high, the last.
pub open spec fn highest_role(roles: Seq<Role>, hoisted_only: bool) -> Option<int>
    decreases roles.len(),
{
    if roles.len() == 0 {
        None
    } else if !role_counts(roles.last(), hoisted_only) {
        highest_role(roles.drop_last(), hoisted_only)
    } else {
        match highest_role(roles.drop_last(), hoisted_only) {
            Some(i) => if role_le(roles[i], roles.last()) {
                Some(roles.len() - 1)
            } else {
                Some(i)
            },
            None => Some(roles.len() - 1),
        }
    }
}

/// The highest role is one that counts, and none that counts stands higher.
pub proof fn lemma_highest_role(roles: Seq<Role>, hoisted_only: bool)
    ensures
        match highest_role(roles, hoisted_only) {
            Some(i) => 0 <= i < roles.len() && role_counts(roles[i], hoisted_only) && forall|
                j: int,
            |
                0 <= j < roles.len() && role_counts(#[trigger] roles[j], hoisted_only) ==> role_le(
                    roles[j],
                    roles[i],
                ),
            None => forall|j: int|
                0 <= j < roles.len() ==> !role_counts(#[trigger] roles[j], hoisted_only),
        },
    decreases roles.len(),
{
    if roles.len() > 0 {
        let head = roles.drop_last();
        lemma_highest_role(head, hoisted_only);
        assert forall|j: int| 0 <= j < head.len() implies head[j] == roles[j] by {}
        match highest_role(roles, hoisted_only) {
            Some(i) => {
                assert forall|j: int|
                    0 <= j < roles.len() && role_counts(
                        #[trigger] roles[j],
                        hoisted_only,
                    ) implies role_le(roles[j], roles[i]) by {
                    if j < head.len() {
                        assert(head[j] == roles[j]);
                        let k = highest_role(head, hoisted_only)->0;
                        assert(role_le(head[j], head[k]));
                    }
                }
            },
            None => {
                assert forall|j: int| 0 <= j < roles.len() implies !role_counts(
                    #[trigger] roles[j],
                    hoisted_only,
                ) by {
                    if j < head.len() {
                        assert(head[j] == roles[j]);
                    }
                }
            },
        }
    }
}

/// The highest of the roles that count.
fn highest<'a>(roles: &'a Vec<Role>, hoisted_only: bool) -> (found: Option<&'a Role>)
    ensures
        match highest_role(roles@, hoisted_only) {
            Some(i) => found == Some(&roles@[i]),
            None => found is None,
        },
{
    let mut best: Option<usize> = None;
    let mut i: usize = 0;
    assert(roles@.take(0) =~= Seq::<Role>::empty());
    while i < roles.len()
        invariant
            i <= roles.len(),
            match best {
                Some(k) => k < i && highest_role(roles@.take(i as int), hoisted_only) == Some(
                    k as int,
                ),
                None => highest_role(roles@.take(i as int), hoisted_only) is None,
            },
        decreases roles.len() - i,
    {
        assert(roles@.take(i + 1).drop_last() =~= roles@.take(i as int));
        assert(roles@.take(i + 1).last() == roles@[i as int]);
        let role = &roles[i];
        if !hoisted_only || role.hoist {
            match best {
                Some(k) => {
                    assert(roles@.take(i + 1)[k as int] == roles@[k as int]);
                    let held = &roles[k];
                    if held.position < role.position || (held.position == role.position
                        && held.id.0 <= role.id.0) {
                        best = Some(i);
                    }
                },
                None => {
                    best = Some(i);
                },
            }
        }
        i = i + 1;
    }
    assert(roles@.take(roles.len() as int) =~= roles@);
    match best {
        Some(k) => Some(&roles[k]),
        None => None,
    }
}

/// Finds, among a member's roles, the highest that is shown apart from the
/// others, by which the member is grouped, and the highest of all, by which
/// the member is coloured. There is no answer without a role that is shown
/// apart.
pub fn find_highest_roles<'a>(roles: &'a Vec<Role>) -> (found: Option<(&'a Role, &'a Role)>)
    ensures
        match (highest_role(roles@, true), highest_role(roles@, false)) {
            (Some(i), Some(j)) => found == Some((&roles@[i], &roles@[j])),
            _ => found is None,
        },
{
    match (highest(roles, true), highest(roles, false)) {
        (Some(hoisted), Some(top)) => Some((hoisted, top)),
        _ => None,
    }
}

/// The name of a guild's buffer: the guild's id.
pub fn buffer_id_for_guild(id: GuildId) -> (name: String)
    ensures
        name@ == decimal(id.0 as nat),
{
    let mut out: Vec<char> = Vec::new();
    push_decimal(&mut out, id.0);
    assert(out@ =~= decimal(id.0 as nat));
    string_of(&out)
}

/// The name of a channel's buffer: the ids of guild and channel with a dot
/// between them, or `Private.` and the channel's id.
pub fn buffer_id_for_channel(guild_id: Option<GuildId>, channel_id: ChannelId) -> (name: String)
    ensures
        name@ == match guild_id {
            Some(guild) => decimal(guild.0 as nat) + "."@ + decimal(channel_id.0 as nat),
            None => "Private."@ + decimal(channel_id.0 as nat),
        },
{
    let mut out: Vec<char> = Vec::new();
    match guild_id {
        Some(guild) => {
            push_decimal(&mut out, guild.0);
            push_str(&mut out, ".");
        },
        None => {
            push_str(&mut out, "Private.");
        },
    }
    push_decimal(&mut out, channel_id.0);
    assert(out@ =~= match guild_id {
        Some(guild) => decimal(guild.0 as nat) + "."@ + decimal(channel_id.0 as nat),
        None => "Private."@ + decimal(channel_id.0 as nat),
    });
    string_of(&out)
}

/// Whether a buffer is muted: whether its variable `muted` holds `1`.
pub fn buffer_is_muted(muted_var: Option<&str>) -> (muted: bool)
    ensures
        muted == (muted_var matches Some(text) && text@ == "1"@),
{
    match muted_var {
        Some(text) => same_text(text, "1"),
        None => false,
    }
}

} // verus!

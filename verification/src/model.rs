//! The plain values that stand for the remote service's entities.

use vstd::prelude::*;

verus! {

/// The id of a guild.
#[derive(Clone, Copy, Debug, PartialEq, Eq, Hash, Structural)]
pub struct GuildId(pub u64);

/// The id of a channel.
#[derive(Clone, Copy, Debug, PartialEq, Eq, Hash, Structural)]
pub struct ChannelId(pub u64);

/// The id of a user.
#[derive(Clone, Copy, Debug, PartialEq, Eq, Hash, Structural)]
pub struct UserId(pub u64);

/// The id of a message.
#[derive(Clone, Copy, Debug, PartialEq, Eq, Hash, Structural)]
pub struct MessageId(pub u64);

/// The id of a role.
#[derive(Clone, Copy, Debug, PartialEq, Eq, Hash, Structural)]
pub struct RoleId(pub u64);

/// One entry of a watch or autojoin list, or one resolved target: a whole
/// guild, or one channel with the guild it belongs to, if it has one.
#[derive(Clone, Copy, Debug)]
pub enum GuildOrChannel {
    Guild(GuildId),
    Channel(Option<GuildId>, ChannelId),
}

impl PartialEq for GuildOrChannel {
    fn eq(&self, other: &GuildOrChannel) -> (r: bool) {
        match (self, other) {
            (GuildOrChannel::Guild(a), GuildOrChannel::Guild(b)) => a.0 == b.0,
            (GuildOrChannel::Channel(ga, ca), GuildOrChannel::Channel(gb, cb)) => {
                ca.0 == cb.0 && match (ga, gb) {
                    (Some(x), Some(y)) => x.0 == y.0,
                    (None, None) => true,
                    _ => false,
                }
            },
            _ => false,
        }
    }
}

impl vstd::std_specs::cmp::PartialEqSpecImpl for GuildOrChannel {
    open spec fn obeys_eq_spec() -> bool {
        true
    }

    open spec fn eq_spec(&self, other: &GuildOrChannel) -> bool {
        *self == *other
    }
}

/// An entry equals a guild id where it is that guild; a channel entry never
/// equals a guild id.
impl PartialEq<GuildId> for GuildOrChannel {
    fn eq(&self, other: &GuildId) -> (r: bool) {
        match self {
            GuildOrChannel::Guild(this_id) => this_id.0 == other.0,
            GuildOrChannel::Channel(_, _) => false,
        }
    }
}

impl vstd::std_specs::cmp::PartialEqSpecImpl<GuildId> for GuildOrChannel {
    open spec fn obeys_eq_spec() -> bool {
        true
    }

    open spec fn eq_spec(&self, other: &GuildId) -> bool {
        *self == GuildOrChannel::Guild(*other)
    }
}

/// An entry equals a channel id where it is that channel, whatever its guild;
/// a guild entry never equals a channel id.
impl PartialEq<ChannelId> for GuildOrChannel {
    fn eq(&self, other: &ChannelId) -> (r: bool) {
        match self {
            GuildOrChannel::Guild(_) => false,
            GuildOrChannel::Channel(_, this_id) => this_id.0 == other.0,
        }
    }
}

impl vstd::std_specs::cmp::PartialEqSpecImpl<ChannelId> for GuildOrChannel {
    open spec fn obeys_eq_spec() -> bool {
        true
    }

    open spec fn eq_spec(&self, other: &ChannelId) -> bool {
        match *self {
            GuildOrChannel::Guild(_) => false,
            GuildOrChannel::Channel(_, this_id) => this_id == *other,
        }
    }
}

/// How a user shows to others.
#[derive(Clone, Copy, Debug, PartialEq, Eq, Hash, Structural)]
pub enum OnlineStatus {
    DoNotDisturb,
    Idle,
    Invisible,
    Offline,
    Online,
}

/// The kind of a channel.
#[derive(Clone, Copy, Debug, PartialEq, Eq, Hash, Structural)]
pub enum ChannelType {
    Text,
    Private,
    Voice,
    Group,
    Category,
    News,
    Store,
}

impl ChannelType {
    /// Whether channels of this kind hold messages that can be read back:
    /// text, private, group and news channels do.
    pub open spec fn spec_has_history(self) -> bool {
        self is Text || self is Private || self is Group || self is News
    }

    /// Whether channels of this kind hold messages that can be read back.
    #[verifier::when_used_as_spec(spec_has_history)]
    pub fn has_history(self) -> (r: bool)
        ensures
            r == self.spec_has_history(),
    {
        match self {
            ChannelType::Text | ChannelType::Private | ChannelType::Group | ChannelType::News => true,
            _ => false,
        }
    }
}

/// A colour by its red, green and blue parts.
#[derive(Clone, Copy, Debug, PartialEq, Eq, Hash, Structural)]
pub struct Colour {
    pub r: u8,
    pub g: u8,
    pub b: u8,
}

/// A role of a guild. Roles are ordered by their position and, where two
/// stand at one position, by their id.
#[derive(Clone, Debug, PartialEq, Eq)]
pub struct Role {
    pub id: RoleId,
    pub name: String,
    pub position: i64,
    pub hoist: bool,
    pub colour: Colour,
}

/// A user of the service.
#[derive(Clone, Debug, PartialEq, Eq)]
pub struct User {
    pub id: UserId,
    pub name: String,
    /// The four-digit number that tells users of one name apart.
    pub discriminator: u16,
}

/// A user as member of one guild, with the nickname borne there.
#[derive(Clone, Debug, PartialEq, Eq)]
pub struct Member {
    pub user: User,
    pub nick: Option<String>,
}

/// A channel of a guild.
#[derive(Clone, Debug, PartialEq, Eq)]
pub struct GuildChannel {
    pub id: ChannelId,
    pub name: String,
    pub kind: ChannelType,
    /// The place the guild gives the channel among its channels.
    pub position: i64,
    pub last_message_id: Option<MessageId>,
    /// Whether the current user may read the channel and its history.
    pub readable: bool,
}

/// A guild with its channels, members and roles, each in the order in which
/// the cache holds them.
#[derive(Clone, Debug, PartialEq, Eq)]
pub struct Guild {
    pub id: GuildId,
    pub name: String,
    pub channels: Vec<GuildChannel>,
    pub members: Vec<Member>,
    pub roles: Vec<Role>,
}

/// A conversation with one other user.
#[derive(Clone, Debug, PartialEq, Eq)]
pub struct PrivateChannel {
    pub id: ChannelId,
    pub recipient: User,
    pub last_message_id: Option<MessageId>,
}

/// A conversation among several users.
#[derive(Clone, Debug, PartialEq, Eq)]
pub struct Group {
    pub id: ChannelId,
    /// The name under which the group shows.
    pub name: String,
    pub last_message_id: Option<MessageId>,
}

/// A heading under which a guild gathers channels.
#[derive(Clone, Debug, PartialEq, Eq)]
pub struct ChannelCategory {
    pub id: ChannelId,
    pub name: String,
}

/// A channel of any kind.
#[derive(Clone, Debug, PartialEq, Eq)]
pub enum Channel {
    Guild(GuildChannel),
    Group(Group),
    Category(ChannelCategory),
    Private(PrivateChannel),
}

/// The status under which one user was last seen.
#[derive(Clone, Copy, Debug, PartialEq, Eq, Structural)]
pub struct Presence {
    pub user_id: UserId,
    pub status: OnlineStatus,
}

/// A message of a channel.
#[derive(Clone, Debug, PartialEq, Eq)]
pub struct Message {
    pub id: MessageId,
    pub author: UserId,
    pub content: String,
}

/// What the cache of remote entities holds at one moment, copied out of it.
/// Every list is in the order in which the cache hands its entries out.
#[derive(Clone, Debug, PartialEq, Eq)]
pub struct CacheView {
    /// The user whose session this is.
    pub user: User,
    pub guilds: Vec<Guild>,
    /// Every guild channel that the cache holds, whatever its guild.
    pub channels: Vec<GuildChannel>,
    pub private_channels: Vec<PrivateChannel>,
    pub groups: Vec<Group>,
    pub users: Vec<User>,
    pub presences: Vec<Presence>,
}

} // verus!

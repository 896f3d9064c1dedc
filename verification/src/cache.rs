//! Looking things up in what the cache held.

use crate::model::{
    CacheView, Channel, ChannelId, Group, GuildChannel, OnlineStatus, Presence, PrivateChannel,
    UserId,
};
use crate::seqs::{first_where, lemma_first_where_is, lemma_first_where_none};
use vstd::prelude::*;

verus! {

/// The channel with the id `id`: a guild's channel if there is one, else a
/// conversation with one user, else a group.
pub open spec fn channel_of(cache: CacheView, id: ChannelId) -> Option<Channel> {
    match first_where(cache.channels@, |c: GuildChannel| c.id == id) {
        Some(i) => Some(Channel::Guild(cache.channels@[i])),
        None => match first_where(cache.private_channels@, |c: PrivateChannel| c.id == id) {
            Some(i) => Some(Channel::Private(cache.private_channels@[i])),
            None => match first_where(cache.groups@, |c: Group| c.id == id) {
                Some(i) => Some(Channel::Group(cache.groups@[i])),
                None => None,
            },
        },
    }
}

/// The name under which a channel shows: its own, or for a conversation with
/// one user that user's.
pub open spec fn channel_name(channel: Channel) -> Seq<char> {
    match channel {
        Channel::Guild(c) => c.name@,
        Channel::Group(c) => c.name@,
        Channel::Category(c) => c.name@,
        Channel::Private(c) => c.recipient.name@,
    }
}

/// The name of the channel with the id `id`.
pub fn channel_name_by_id<'a>(cache: &'a CacheView, id: ChannelId) -> (name: Option<&'a str>)
    ensures
        match channel_of(*cache, id) {
            Some(channel) => name matches Some(text) && text@ == channel_name(channel),
            None => name is None,
        },
{
    let ghost p = |c: GuildChannel| c.id == id;
    let mut i: usize = 0;
    while i < cache.channels.len()
        invariant
            i <= cache.channels.len(),
            p == (|c: GuildChannel| c.id == id),
            forall|j: int| 0 <= j < i ==> !p(#[trigger] cache.channels@[j]),
        decreases cache.channels.len() - i,
    {
        if cache.channels[i].id.0 == id.0 {
            proof {
                assert(p(cache.channels@[i as int]));
                lemma_first_where_is(cache.channels@, p, i as int);
            }
            return Some(cache.channels[i].name.as_str());
        }
        assert(!p(cache.channels@[i as int]));
        i = i + 1;
    }
    proof {
        lemma_first_where_none(cache.channels@, p);
    }
    let ghost q = |c: PrivateChannel| c.id == id;
    let mut i: usize = 0;
    while i < cache.private_channels.len()
        invariant
            i <= cache.private_channels.len(),
            q == (|c: PrivateChannel| c.id == id),
            first_where(cache.channels@, |c: GuildChannel| c.id == id) is None,
            forall|j: int| 0 <= j < i ==> !q(#[trigger] cache.private_channels@[j]),
        decreases cache.private_channels.len() - i,
    {
        if cache.private_channels[i].id.0 == id.0 {
            proof {
                assert(q(cache.private_channels@[i as int]));
                lemma_first_where_is(cache.private_channels@, q, i as int);
            }
            return Some(cache.private_channels[i].recipient.name.as_str());
        }
        assert(!q(cache.private_channels@[i as int]));
        i = i + 1;
    }
    proof {
        lemma_first_where_none(cache.private_channels@, q);
    }
    let ghost r = |c: Group| c.id == id;
    let mut i: usize = 0;
    while i < cache.groups.len()
        invariant
            i <= cache.groups.len(),
            r == (|c: Group| c.id == id),
            first_where(cache.channels@, |c: GuildChannel| c.id == id) is None,
            first_where(cache.private_channels@, |c: PrivateChannel| c.id == id) is None,
            forall|j: int| 0 <= j < i ==> !r(#[trigger] cache.groups@[j]),
        decreases cache.groups.len() - i,
    {
        if cache.groups[i].id.0 == id.0 {
            proof {
                assert(r(cache.groups@[i as int]));
                lemma_first_where_is(cache.groups@, r, i as int);
            }
            return Some(cache.groups[i].name.as_str());
        }
        assert(!r(cache.groups@[i as int]));
        i = i + 1;
    }
    proof {
        lemma_first_where_none(cache.groups@, r);
    }
    None
}

/// The status under which a user was last seen, if the cache has seen them.
pub open spec fn status_of(presences: Seq<Presence>, user: UserId) -> Option<OnlineStatus> {
    match first_where(presences, |p: Presence| p.user_id == user) {
        Some(i) => Some(presences[i].status),
        None => None,
    }
}

/// The status under which a user was last seen.
pub fn presence_status(cache: &CacheView, user: UserId) -> (status: Option<OnlineStatus>)
    ensures
        status == status_of(cache.presences@, user),
{
    let ghost p = |p: Presence| p.user_id == user;
    let mut i: usize = 0;
    while i < cache.presences.len()
        invariant
            i <= cache.presences.len(),
            p == (|p: Presence| p.user_id == user),
            forall|j: int| 0 <= j < i ==> !p(#[trigger] cache.presences@[j]),
        decreases cache.presences.len() - i,
    {
        if cache.presences[i].user_id.0 == user.0 {
            proof {
                assert(p(cache.presences@[i as int]));
                lemma_first_where_is(cache.presences@, p, i as int);
            }
            return Some(cache.presences[i].status);
        }
        assert(!p(cache.presences@[i as int]));
        i = i + 1;
    }
    proof {
        lemma_first_where_none(cache.presences@, p);
    }
    None
}

} // verus!

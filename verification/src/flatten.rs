//! Turning a list of guilds and channels into the channels to open, guild by
//! guild.

use crate::flat::{
    distinct_keys, flat_entries, key_index, lemma_pushed_under, lemma_with_key, new_flat,
    push_under, pushed_under, put_key, with_key, FlatEntry,
};
use crate::model::{CacheView, Guild, GuildChannel, GuildId, GuildOrChannel};
use crate::seqs::{first_where, lemma_first_where_is, lemma_first_where_none};
use indexmap::IndexMap;
use vstd::prelude::*;

verus! {

/// A channel as it is ordered and named here: its position and its id.
pub type ChannelKey = (i64, u64);

/// The positions and ids of a guild's channels, in the cache's order.
pub open spec fn channel_keys(channels: Seq<GuildChannel>) -> Seq<ChannelKey> {
    channels.map_values(|c: GuildChannel| (c.position, c.id.0))
}

/// `sorted` with `key` put in behind every channel whose position is not
/// greater than its own.
pub open spec fn inserted(sorted: Seq<ChannelKey>, key: ChannelKey) -> Seq<ChannelKey>
    decreases sorted.len(),
{
    if sorted.len() == 0 {
        seq![key]
    } else if sorted.last().0 <= key.0 {
        sorted.push(key)
    } else {
        inserted(sorted.drop_last(), key).push(sorted.last())
    }
}

/// The channels by ascending position; channels at one position keep the
/// order in which they came.
pub open spec fn by_position(keys: Seq<ChannelKey>) -> Seq<ChannelKey>
    decreases keys.len(),
{
    if keys.len() == 0 {
        keys
    } else {
        inserted(by_position(keys.drop_last()), keys.last())
    }
}

/// Whether the positions never fall from one channel to the next.
pub open spec fn ascending(keys: Seq<ChannelKey>) -> bool {
    forall|i: int, j: int| 0 <= i <= j < keys.len() ==> keys[i].0 <= keys[j].0
}

/// Where `inserted` puts the key: behind the first `at` channels, where the
/// channels from `at` on all have a greater position and the one before `at`
/// has not.
pub proof fn lemma_inserted_at(sorted: Seq<ChannelKey>, key: ChannelKey, at: int)
    requires
        0 <= at <= sorted.len(),
        at > 0 ==> sorted[at - 1].0 <= key.0,
        forall|k: int| at <= k < sorted.len() ==> sorted[k].0 > key.0,
    ensures
        inserted(sorted, key) == sorted.take(at).push(key) + sorted.skip(at),
    decreases sorted.len() - at,
{
    if at == sorted.len() {
        assert(sorted.take(at) =~= sorted);
        assert(sorted.take(at).push(key) + sorted.skip(at) =~= sorted.push(key));
    } else {
        let rest = sorted.drop_last();
        assert(sorted.last().0 > key.0);
        lemma_inserted_at(rest, key, at);
        assert(rest.take(at) =~= sorted.take(at));
        assert((rest.take(at).push(key) + rest.skip(at)).push(sorted.last()) =~= sorted.take(
            at,
        ).push(key) + sorted.skip(at));
    }
}

/// Putting a key into an ascending list keeps it ascending, and adds the key
/// to what the list holds and nothing else.
pub proof fn lemma_inserted(sorted: Seq<ChannelKey>, key: ChannelKey)
    requires
        ascending(sorted),
    ensures
        ascending(inserted(sorted, key)),
        inserted(sorted, key).to_multiset() == sorted.to_multiset().insert(key),
    decreases sorted.len(),
{
    broadcast use vstd::seq_lib::group_to_multiset_ensures;

    if sorted.len() == 0 {
        assert(sorted =~= Seq::<ChannelKey>::empty());
        assert(seq![key] =~= Seq::<ChannelKey>::empty().push(key));
    } else if sorted.last().0 <= key.0 {
    } else {
        let rest = sorted.drop_last();
        assert(ascending(rest));
        lemma_inserted(rest, key);
        let ins = inserted(rest, key);
        assert(sorted =~= rest.push(sorted.last()));
        assert(ins.push(sorted.last()).to_multiset() == sorted.to_multiset().insert(key));
        assert forall|i: int, j: int| 0 <= i <= j < ins.len() + 1 implies ins.push(
            sorted.last(),
        )[i].0 <= ins.push(sorted.last())[j].0 by {
            if j == ins.len() && i < ins.len() {
                assert(ins.to_multiset().count(ins[i]) > 0);
                if ins[i] != key {
                    assert(rest.to_multiset().count(ins[i]) > 0);
                    let k = choose|k: int| 0 <= k < rest.len() && rest[k] == ins[i];
                    assert(sorted[k] == rest[k]);
                }
            }
        }
    }
}

/// Ordering by position gives an ascending list of the same channels.
pub proof fn lemma_by_position(keys: Seq<ChannelKey>)
    ensures
        ascending(by_position(keys)),
        by_position(keys).to_multiset() == keys.to_multiset(),
        by_position(keys).len() == keys.len(),
    decreases keys.len(),
{
    broadcast use vstd::seq_lib::group_to_multiset_ensures;

    if keys.len() > 0 {
        lemma_by_position(keys.drop_last());
        lemma_inserted(by_position(keys.drop_last()), keys.last());
        assert(keys =~= keys.drop_last().push(keys.last()));
        by_position(keys).to_multiset_ensures();
        keys.to_multiset_ensures();
    }
}

/// The ids of a guild's channels by ascending position.
pub fn channels_by_position(channels: &Vec<GuildChannel>) -> (ids: Vec<u64>)
    ensures
        ids@ == by_position(channel_keys(channels@)).map_values(|k: ChannelKey| k.1),
{
    let ghost keys = channel_keys(channels@);
    let mut sorted: Vec<(i64, u64)> = Vec::new();
    let mut i: usize = 0;
    assert(keys.take(0) =~= Seq::<ChannelKey>::empty());
    while i < channels.len()
        invariant
            i <= channels.len(),
            keys == channel_keys(channels@),
            sorted@ == by_position(keys.take(i as int)),
        decreases channels.len() - i,
    {
        let key = (channels[i].position, channels[i].id.0);
        assert(keys.take(i + 1).drop_last() =~= keys.take(i as int));
        assert(keys.take(i + 1).last() == key);
        let mut at: usize = sorted.len();
        while at > 0 && sorted[at - 1].0 > key.0
            invariant
                at <= sorted.len(),
                forall|k: int| at <= k < sorted.len() ==> sorted@[k].0 > key.0,
            decreases at,
        {
            at = at - 1;
        }
        proof {
            lemma_inserted_at(sorted@, key, at as int);
        }
        let ghost before = sorted@;
        sorted.insert(at, key);
        assert(sorted@ =~= before.take(at as int).push(key) + before.skip(at as int));
        i = i + 1;
    }
    assert(keys.take(channels.len() as int) =~= keys);
    let mut ids: Vec<u64> = Vec::new();
    let mut j: usize = 0;
    while j < sorted.len()
        invariant
            j <= sorted.len(),
            ids@ == sorted@.take(j as int).map_values(|k: ChannelKey| k.1),
        decreases sorted.len() - j,
    {
        ids.push(sorted[j].1);
        assert(sorted@.take(j + 1).map_values(|k: ChannelKey| k.1) =~= sorted@.take(
            j as int,
        ).map_values(|k: ChannelKey| k.1).push(sorted@[j as int].1));
        j = j + 1;
    }
    assert(sorted@.take(sorted.len() as int) =~= sorted@);
    ids
}

/// The index of the guild with the id `id`: the first with it.
pub open spec fn guild_index(guilds: Seq<Guild>, id: GuildId) -> Option<int> {
    first_where(guilds, |g: Guild| g.id == id)
}

/// The guild with the id `id`.
pub fn guild_by_id<'a>(cache: &'a CacheView, id: GuildId) -> (found: Option<&'a Guild>)
    ensures
        match guild_index(cache.guilds@, id) {
            Some(i) => 0 <= i < cache.guilds@.len() && found == Some(&cache.guilds@[i]),
            None => found is None,
        },
{
    let ghost p = |g: Guild| g.id == id;
    let mut i: usize = 0;
    while i < cache.guilds.len()
        invariant
            i <= cache.guilds.len(),
            p == (|g: Guild| g.id == id),
            forall|j: int| 0 <= j < i ==> !p(#[trigger] cache.guilds@[j]),
        decreases cache.guilds.len() - i,
    {
        if cache.guilds[i].id.0 == id.0 {
            proof {
                assert(p(cache.guilds@[i as int]));
                lemma_first_where_is(cache.guilds@, p, i as int);
            }
            return Some(&cache.guilds[i]);
        }
        assert(!p(cache.guilds@[i as int]));
        i = i + 1;
    }
    proof {
        lemma_first_where_none(cache.guilds@, p);
    }
    None
}

/// The channels that one item stands for, each as the key it goes under and
/// its id. A guild stands for its channels by ascending position, and for
/// none where the cache does not hold it; a channel stands for itself.
/// Whether a guild also gets a key of its own is said in [`with_item`].
pub open spec fn expansion(guilds: Seq<Guild>, item: GuildOrChannel) -> Seq<(Option<u64>, u64)> {
    match item {
        GuildOrChannel::Guild(id) => match guild_index(guilds, id) {
            Some(i) => by_position(channel_keys(guilds[i].channels@)).map_values(
                |k: ChannelKey| (Some(id.0), k.1),
            ),
            None => Seq::empty(),
        },
        GuildOrChannel::Channel(guild, channel) => seq![
            (
                match guild {
                    Some(id) => Some(id.0),
                    None => None,
                },
                channel.0,
            ),
        ],
    }
}

/// The entries after each channel of `channels` was put under its key, one
/// after the other.
pub open spec fn pushed_all(entries: Seq<FlatEntry>, channels: Seq<(Option<u64>, u64)>) -> Seq<
    FlatEntry,
>
    decreases channels.len(),
{
    if channels.len() == 0 {
        entries
    } else {
        pushed_under(
            pushed_all(entries, channels.drop_last()),
            channels.last().0,
            channels.last().1,
        )
    }
}

/// The entries after one more item was taken in. A guild that the cache
/// holds gets its key, if it has none yet, and then its channels by
/// ascending position; a guild that the cache does not hold adds nothing. A
/// channel goes under the key of its guild.
pub open spec fn with_item(guilds: Seq<Guild>, entries: Seq<FlatEntry>, item: GuildOrChannel) -> Seq<
    FlatEntry,
> {
    match item {
        GuildOrChannel::Guild(id) => match guild_index(guilds, id) {
            Some(_) => pushed_all(with_key(entries, Some(id.0)), expansion(guilds, item)),
            None => entries,
        },
        GuildOrChannel::Channel(_, _) => pushed_all(entries, expansion(guilds, item)),
    }
}

/// The map that a list of items flattens to: the items taken in one after
/// the other. The guilds come in the order in which they first came, and so
/// do the channels under each. A guild that the cache holds without
/// channels has its key, with no channel under it.
pub open spec fn flattened(guilds: Seq<Guild>, items: Seq<GuildOrChannel>) -> Seq<FlatEntry>
    decreases items.len(),
{
    if items.len() == 0 {
        Seq::empty()
    } else {
        with_item(guilds, flattened(guilds, items.drop_last()), items.last())
    }
}

/// Flattens a list of guilds and channels into a map from guild to channels.
pub fn flatten_guilds(cache: &CacheView, items: &[GuildOrChannel]) -> (map: IndexMap<
    Option<u64>,
    Vec<u64>,
>)
    ensures
        flat_entries(map) == flattened(cache.guilds@, items@),
{
    let mut map = new_flat();
    let mut i: usize = 0;
    assert(items@.take(0) =~= Seq::<GuildOrChannel>::empty());
    while i < items.len()
        invariant
            i <= items.len(),
            flat_entries(map) == flattened(cache.guilds@, items@.take(i as int)),
        decreases items.len() - i,
    {
        let ghost start = flat_entries(map);
        let ghost added = expansion(cache.guilds@, items@[i as int]);
        assert(items@.take(i + 1).drop_last() =~= items@.take(i as int));
        assert(items@.take(i + 1).last() == items@[i as int]);
        match items[i] {
            GuildOrChannel::Guild(id) => {
                match guild_by_id(cache, id) {
                    Some(guild) => {
                        put_key(&mut map, Some(id.0));
                        let ghost before = flat_entries(map);
                        let ids = channels_by_position(&guild.channels);
                        let mut j: usize = 0;
                        assert(added.take(0) =~= Seq::<(Option<u64>, u64)>::empty());
                        assert(added.len() == ids@.len());
                        while j < ids.len()
                            invariant
                                j <= ids.len(),
                                added.len() == ids@.len(),
                                forall|k: int|
                                    0 <= k < ids@.len() ==> added[k] == (Some(id.0), ids@[k]),
                                flat_entries(map) == pushed_all(before, added.take(j as int)),
                            decreases ids.len() - j,
                        {
                            assert(added.take(j + 1).drop_last() =~= added.take(j as int));
                            assert(added.take(j + 1).last() == added[j as int]);
                            push_under(&mut map, Some(id.0), ids[j]);
                            j = j + 1;
                        }
                        assert(added.take(ids.len() as int) =~= added);
                    },
                    None => {},
                }
            },
            GuildOrChannel::Channel(guild, channel) => {
                let key = match guild {
                    Some(id) => Some(id.0),
                    None => None,
                };
                assert(added.drop_last() =~= Seq::<(Option<u64>, u64)>::empty());
                assert(pushed_all(start, added.drop_last()) == start);
                assert(added.last() == (key, channel.0));
                push_under(&mut map, key, channel.0);
            },
        }
        i = i + 1;
    }
    assert(items@.take(items.len() as int) =~= items@);
    map
}

/// Putting channels under their keys, one after the other, keeps the keys
/// apart.
pub proof fn lemma_pushed_all(entries: Seq<FlatEntry>, channels: Seq<(Option<u64>, u64)>)
    requires
        distinct_keys(entries),
    ensures
        distinct_keys(pushed_all(entries, channels)),
    decreases channels.len(),
{
    if channels.len() > 0 {
        lemma_pushed_all(entries, channels.drop_last());
        lemma_pushed_under(
            pushed_all(entries, channels.drop_last()),
            channels.last().0,
            channels.last().1,
        );
    }
}

/// In the map that a list of items flattens to, no guild has two entries.
pub proof fn lemma_flattened_keys(guilds: Seq<Guild>, items: Seq<GuildOrChannel>)
    ensures
        distinct_keys(flattened(guilds, items)),
    decreases items.len(),
{
    if items.len() > 0 {
        let before = flattened(guilds, items.drop_last());
        lemma_flattened_keys(guilds, items.drop_last());
        match items.last() {
            GuildOrChannel::Guild(id) => {
                lemma_with_key(before, Some(id.0));
                lemma_pushed_all(with_key(before, Some(id.0)), expansion(guilds, items.last()));
            },
            GuildOrChannel::Channel(_, _) => {
                lemma_pushed_all(before, expansion(guilds, items.last()));
            },
        }
    }
}

/// Channels that all go under the key of the one entry of a map go to the
/// end of its list, in their order.
pub proof fn lemma_pushed_all_one_key(key: Option<u64>, list: Seq<u64>, ids: Seq<u64>)
    ensures
        pushed_all(seq![(key, list)], ids.map_values(|id: u64| (key, id))) == seq![
            (key, list + ids),
        ],
    decreases ids.len(),
{
    let pairs = ids.map_values(|id: u64| (key, id));
    if ids.len() == 0 {
        assert(list + ids =~= list);
    } else {
        lemma_pushed_all_one_key(key, list, ids.drop_last());
        assert(pairs.drop_last() =~= ids.drop_last().map_values(|id: u64| (key, id)));
        let before = seq![(key, list + ids.drop_last())];
        assert(before.skip(1) =~= Seq::<FlatEntry>::empty());
        assert(key_index(before, key) == Some(0int));
        assert(pairs.last() == (key, ids.last()));
        assert((list + ids.drop_last()).push(ids.last()) =~= list + ids);
        assert(before.update(0, (key, list + ids)) =~= seq![(key, list + ids)]);
    }
}

/// One guild that the cache holds flattens to a map with the one key of the
/// guild, and under it the ids of the guild's channels by ascending
/// position: each channel once, and no other.
pub proof fn lemma_flatten_one_guild(guilds: Seq<Guild>, id: GuildId)
    requires
        guild_index(guilds, id) is Some,
    ensures
        flattened(guilds, seq![GuildOrChannel::Guild(id)]) == seq![
            (
                Some(id.0),
                by_position(channel_keys(guilds[guild_index(guilds, id)->0].channels@)).map_values(
                    |k: ChannelKey| k.1,
                ),
            ),
        ],
        ascending(by_position(channel_keys(guilds[guild_index(guilds, id)->0].channels@))),
        by_position(channel_keys(guilds[guild_index(guilds, id)->0].channels@)).to_multiset()
            == channel_keys(guilds[guild_index(guilds, id)->0].channels@).to_multiset(),
{
    let item = GuildOrChannel::Guild(id);
    let items = seq![item];
    let i = guild_index(guilds, id)->0;
    let sorted = by_position(channel_keys(guilds[i].channels@));
    let ids = sorted.map_values(|k: ChannelKey| k.1);
    let key = Some(id.0);
    lemma_by_position(channel_keys(guilds[i].channels@));
    assert(items.drop_last() =~= Seq::<GuildOrChannel>::empty());
    assert(flattened(guilds, items.drop_last()) =~= Seq::<FlatEntry>::empty());
    let empty = Seq::<FlatEntry>::empty();
    assert(key_index(empty, key) is None);
    assert(with_key(empty, key) =~= seq![(key, Seq::<u64>::empty())]);
    assert(expansion(guilds, item) =~= ids.map_values(|n: u64| (key, n)));
    lemma_pushed_all_one_key(key, Seq::<u64>::empty(), ids);
    assert(Seq::<u64>::empty() + ids =~= ids);
}

} // verus!

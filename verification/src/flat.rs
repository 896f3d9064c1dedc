//! The ordered map from a guild, or from no guild, to a list of channels.
//!
//! The map is an `indexmap::IndexMap`, which keeps its keys in the order in
//! which they were first put in. What is stated here of its methods is taken
//! on trust from that crate.

use indexmap::IndexMap;
use vstd::prelude::*;

verus! {

/// `indexmap::IndexMap`, declared so that it can stand in signatures. Nothing
/// inside it is seen here: what a map holds is spoken of through
/// [`flat_entries`].
#[verifier::external_type_specification]
#[verifier::external_body]
#[verifier::reject_recursive_types(K)]
#[verifier::reject_recursive_types(V)]
#[verifier::reject_recursive_types(S)]
pub struct ExIndexMap<K, V, S>(IndexMap<K, V, S>);

/// One entry of the map: the guild's id, if there is a guild, and the ids of
/// the channels under it.
pub type FlatEntry = (Option<u64>, Seq<u64>);

/// The entries that a map holds, in the map's order: the order in which
/// their keys were first put in.
pub uninterp spec fn flat_entries(map: IndexMap<Option<u64>, Vec<u64>>) -> Seq<(Option<u64>, Seq<u64>)>;

/// The index of the entry with the key `key`.
pub open spec fn key_index(entries: Seq<FlatEntry>, key: Option<u64>) -> Option<int>
    decreases entries.len(),
{
    if entries.len() == 0 {
        None
    } else if entries[0].0 == key {
        Some(0)
    } else {
        match key_index(entries.skip(1), key) {
            Some(i) => Some(i + 1),
            None => None,
        }
    }
}

/// The entries after `channel` was put under `key`: at the end of the list
/// of that key where the key is there, else in a new entry behind all others.
pub open spec fn pushed_under(entries: Seq<FlatEntry>, key: Option<u64>, channel: u64) -> Seq<
    FlatEntry,
> {
    match key_index(entries, key) {
        Some(i) => entries.update(i, (key, entries[i].1.push(channel))),
        None => entries.push((key, seq![channel])),
    }
}

/// The entries after `key` was made sure of: as they were where the key is
/// there, else with a new entry for the key, without channels, behind all
/// others.
pub open spec fn with_key(entries: Seq<FlatEntry>, key: Option<u64>) -> Seq<FlatEntry> {
    match key_index(entries, key) {
        Some(_) => entries,
        None => entries.push((key, Seq::<u64>::empty())),
    }
}

/// `IndexMap::new` makes a map without entries.
#[verifier::external_body]
pub(crate) fn new_flat() -> (map: IndexMap<Option<u64>, Vec<u64>>)
    ensures
        flat_entries(map) == Seq::<FlatEntry>::empty(),
{
    IndexMap::new()
}

/// `IndexMap::entry` finds the entry of a key; `Entry::or_default` hands out
/// its value, after putting an empty one behind all other entries where the
/// key was not there. The channel goes to the end of that value.
#[verifier::external_body]
pub(crate) fn push_under(map: &mut IndexMap<Option<u64>, Vec<u64>>, key: Option<u64>, channel: u64)
    ensures
        flat_entries(*final(map)) == pushed_under(flat_entries(*old(map)), key, channel),
{
    map.entry(key).or_default().push(channel);
}

/// `IndexMap::entry` finds the entry of a key; `Entry::or_default` leaves an
/// entry that is there as it is, and puts an empty value behind all other
/// entries where the key was not there.
#[verifier::external_body]
pub(crate) fn put_key(map: &mut IndexMap<Option<u64>, Vec<u64>>, key: Option<u64>)
    ensures
        flat_entries(*final(map)) == with_key(flat_entries(*old(map)), key),
{
    map.entry(key).or_default();
}

/// Whether no key stands in two entries.
pub open spec fn distinct_keys(entries: Seq<FlatEntry>) -> bool {
    forall|i: int, j: int|
        0 <= i < entries.len() && 0 <= j < entries.len() && i != j ==> (#[trigger] entries[i]).0 != (
        #[trigger] entries[j]).0
}

/// What `key_index` finds is an entry with the key, and the first; it finds
/// none only where no entry has the key.
pub proof fn lemma_key_index(entries: Seq<FlatEntry>, key: Option<u64>)
    ensures
        match key_index(entries, key) {
            Some(i) => 0 <= i < entries.len() && entries[i].0 == key && forall|j: int|
                0 <= j < i ==> (#[trigger] entries[j]).0 != key,
            None => forall|j: int| 0 <= j < entries.len() ==> (#[trigger] entries[j]).0 != key,
        },
    decreases entries.len(),
{
    if entries.len() > 0 && entries[0].0 != key {
        let rest = entries.skip(1);
        lemma_key_index(rest, key);
        match key_index(rest, key) {
            Some(i) => {
                assert(rest[i] == entries[i + 1]);
                assert forall|j: int| 0 <= j < i + 1 implies (#[trigger] entries[j]).0 != key by {
                    if j > 0 {
                        assert(rest[j - 1] == entries[j]);
                    }
                }
            },
            None => {
                assert forall|j: int| 0 <= j < entries.len() implies (#[trigger] entries[j]).0
                    != key by {
                    if j > 0 {
                        assert(rest[j - 1] == entries[j]);
                    }
                }
            },
        }
    }
}

/// Putting a channel under a key keeps the keys apart, adds no entry where
/// the key was there, and leaves the order of the keys as it was.
pub proof fn lemma_pushed_under(entries: Seq<FlatEntry>, key: Option<u64>, channel: u64)
    requires
        distinct_keys(entries),
    ensures
        distinct_keys(pushed_under(entries, key, channel)),
        forall|i: int|
            0 <= i < entries.len() ==> (#[trigger] pushed_under(entries, key, channel)[i]).0
                == entries[i].0,
{
    lemma_key_index(entries, key);
    let after = pushed_under(entries, key, channel);
    match key_index(entries, key) {
        Some(k) => {
            assert forall|i: int, j: int|
                0 <= i < after.len() && 0 <= j < after.len() && i != j implies (
            #[trigger] after[i]).0 != (#[trigger] after[j]).0 by {
                assert(after[i].0 == entries[i].0);
                assert(after[j].0 == entries[j].0);
            }
        },
        None => {
            assert forall|i: int, j: int|
                0 <= i < after.len() && 0 <= j < after.len() && i != j implies (
            #[trigger] after[i]).0 != (#[trigger] after[j]).0 by {
                if i < entries.len() {
                    assert(after[i] == entries[i]);
                }
                if j < entries.len() {
                    assert(after[j] == entries[j]);
                }
            }
        },
    }
}

/// Making sure of a key keeps the keys apart and leaves the entries that
/// were there as they were.
pub proof fn lemma_with_key(entries: Seq<FlatEntry>, key: Option<u64>)
    requires
        distinct_keys(entries),
    ensures
        distinct_keys(with_key(entries, key)),
        key_index(with_key(entries, key), key) is Some,
        forall|i: int| 0 <= i < entries.len() ==> #[trigger] with_key(entries, key)[i] == entries[i],
{
    lemma_key_index(entries, key);
    let after = with_key(entries, key);
    lemma_key_index(after, key);
    if key_index(entries, key) is None {
        assert(after[entries.len() as int].0 == key);
        assert forall|i: int, j: int|
            0 <= i < after.len() && 0 <= j < after.len() && i != j implies (#[trigger] after[i]).0
            != (#[trigger] after[j]).0 by {
            if i < entries.len() {
                assert(after[i] == entries[i]);
            }
            if j < entries.len() {
                assert(after[j] == entries[j]);
            }
        }
    }
}

} // verus!

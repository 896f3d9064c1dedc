use weechat_discord::codec::{unique_guild_id, unique_id};
use weechat_discord::list;
use weechat_discord::model::{ChannelId, GuildId, GuildOrChannel};

#[test]
fn add_to_an_empty_list() {
    assert_eq!(list::add("", "G10C20"), "G10C20");
}

#[test]
fn add_appends_behind_the_others() {
    assert_eq!(list::add("G1,C2", "G3"), "G1,C2,G3");
}

#[test]
fn add_is_idempotent_on_the_same_token() {
    let once = list::add("", "G10C20");
    let twice = list::add(&once, "G10C20");
    assert_eq!(once, "G10C20");
    assert_eq!(twice, "G10C20");
    let once = list::add("G1,G2", "G1");
    assert_eq!(once, "G1,G2");
    assert_eq!(list::add(&once, "G1"), "G1,G2");
}

#[test]
fn add_keeps_two_encodings_of_one_channel() {
    let with_guild = unique_id(Some(GuildId(10)), ChannelId(20));
    let bare = unique_id(None, ChannelId(20));
    let list = list::add(&list::add("", &with_guild), &bare);
    assert_eq!(list, "G10C20,C20");
    let zeros = list::add(&list, "G010C20");
    assert_eq!(zeros, "G10C20,C20,G010C20");
}

#[test]
fn add_drops_empty_entries_and_earlier_repeats() {
    assert_eq!(list::add(",G1,,G2,G1,", "G3"), "G1,G2,G3");
    assert_eq!(list::add("G1,G2,G1", "G2"), "G1,G2");
}

#[test]
fn iterate_decodes_in_order_and_skips_what_is_no_token() {
    let entries = list::iterate("G1,,Gabc,C2,G3C4,x,G5C");
    assert_eq!(
        entries,
        vec![
            GuildOrChannel::Guild(GuildId(1)),
            GuildOrChannel::Channel(None, ChannelId(2)),
            GuildOrChannel::Channel(Some(GuildId(3)), ChannelId(4)),
        ]
    );
}

#[test]
fn iterate_starts_over_each_time() {
    let persisted = list::add(&unique_guild_id(GuildId(7)), "C9");
    assert_eq!(list::iterate(&persisted), list::iterate(&persisted));
    assert_eq!(list::iterate(&persisted).len(), 2);
    assert!(list::iterate("").is_empty());
}

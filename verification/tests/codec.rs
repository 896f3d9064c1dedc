use weechat_discord::codec::{parse_id, unique_guild_id, unique_id};
use weechat_discord::model::{ChannelId, GuildId, GuildOrChannel};

#[test]
fn channel_token_with_guild() {
    assert_eq!(unique_id(Some(GuildId(10)), ChannelId(20)), "G10C20");
}

#[test]
fn channel_token_without_guild() {
    assert_eq!(unique_id(None, ChannelId(20)), "C20");
}

#[test]
fn guild_token() {
    assert_eq!(unique_guild_id(GuildId(0)), "G0");
    assert_eq!(unique_guild_id(GuildId(u64::MAX)), "G18446744073709551615");
}

#[test]
fn decode_gives_back_what_was_encoded() {
    let token = unique_id(Some(GuildId(123456789)), ChannelId(987654321));
    assert_eq!(
        parse_id(&token),
        Some(GuildOrChannel::Channel(Some(GuildId(123456789)), ChannelId(987654321)))
    );
    let token = unique_id(None, ChannelId(u64::MAX));
    assert_eq!(parse_id(&token), Some(GuildOrChannel::Channel(None, ChannelId(u64::MAX))));
    let token = unique_guild_id(GuildId(7));
    assert_eq!(parse_id(&token), Some(GuildOrChannel::Guild(GuildId(7))));
}

#[test]
fn decode_fails_on_what_is_no_token() {
    assert_eq!(parse_id("Gabc"), None);
    assert_eq!(parse_id("Gx"), None);
    assert_eq!(parse_id(""), None);
    assert_eq!(parse_id("G"), None);
    assert_eq!(parse_id("C"), None);
    assert_eq!(parse_id("GC5"), None);
    assert_eq!(parse_id("G5C"), None);
    assert_eq!(parse_id("G1C2C3"), None);
    assert_eq!(parse_id("X12"), None);
    assert_eq!(parse_id("12"), None);
    assert_eq!(parse_id("G+12"), None);
    assert_eq!(parse_id("G18446744073709551616"), None);
}

#[test]
fn decode_reads_leading_zeros() {
    assert_eq!(parse_id("G007"), Some(GuildOrChannel::Guild(GuildId(7))));
}

#[test]
fn entry_equals_ids_by_variant() {
    assert!(GuildOrChannel::Guild(GuildId(1)) == GuildId(1));
    assert!(GuildOrChannel::Guild(GuildId(1)) != GuildId(2));
    assert!(GuildOrChannel::Guild(GuildId(1)) != ChannelId(1));
    assert!(GuildOrChannel::Channel(Some(GuildId(1)), ChannelId(2)) == ChannelId(2));
    assert!(GuildOrChannel::Channel(None, ChannelId(2)) == ChannelId(2));
    assert!(GuildOrChannel::Channel(Some(GuildId(1)), ChannelId(2)) != GuildId(1));
}

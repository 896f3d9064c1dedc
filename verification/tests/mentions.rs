use weechat_discord::mentions::{
    create_mentions, find_mentioned_channel, find_mentioned_user, scan_channel_mentions,
    scan_user_mentions,
};
use weechat_discord::model::{
    CacheView, ChannelId, ChannelType, Guild, GuildChannel, GuildId, Member, User, UserId,
};

fn mention_chars(s: &str) -> Vec<char> {
    s.chars().collect()
}

fn mention_pairs(found: Vec<(Vec<char>, Vec<char>)>) -> Vec<(String, String)> {
    found.into_iter().map(|(a, b)| (a.into_iter().collect(), b.into_iter().collect())).collect()
}

fn mention_pair(whole: &str, name: &str) -> (String, String) {
    (whole.to_string(), name.to_string())
}

fn mention_channel(id: u64, name: &str) -> GuildChannel {
    GuildChannel {
        id: ChannelId(id),
        name: name.to_string(),
        kind: ChannelType::Text,
        position: 0,
        last_message_id: None,
        readable: true,
    }
}

fn mention_user(id: u64, name: &str) -> User {
    User { id: UserId(id), name: name.to_string(), discriminator: 1234 }
}

fn mention_cache() -> CacheView {
    let home = Guild {
        id: GuildId(10),
        name: "Home".to_string(),
        channels: vec![mention_channel(20, "general"), mention_channel(21, "off topic")],
        members: vec![
            Member { user: mention_user(100, "carol"), nick: None },
            Member { user: mention_user(101, "alice"), nick: Some("Al".to_string()) },
            Member { user: mention_user(102, "bob"), nick: Some("carol".to_string()) },
        ],
        roles: Vec::new(),
    };
    let away = Guild {
        id: GuildId(11),
        name: "Away".to_string(),
        channels: vec![mention_channel(30, "general"), mention_channel(31, "elsewhere")],
        members: Vec::new(),
        roles: Vec::new(),
    };
    CacheView {
        user: mention_user(1, "me"),
        channels: vec![
            mention_channel(31, "elsewhere"),
            mention_channel(30, "general"),
            mention_channel(20, "general"),
            mention_channel(21, "off topic"),
        ],
        guilds: vec![home, away],
        private_channels: Vec::new(),
        groups: Vec::new(),
        users: vec![mention_user(200, "dave"), mention_user(201, "alice")],
        presences: Vec::new(),
    }
}

#[test]
fn channel_mentions_are_found() {
    let found = scan_channel_mentions(&mention_chars("see #general and #off-topic_2, #x"));
    assert_eq!(
        mention_pairs(found),
        vec![
            mention_pair("#general", "general"),
            mention_pair("#off-topic_", "off-topic_"),
            mention_pair("#x", "x"),
        ]
    );
}

#[test]
fn channel_mentions_need_a_name() {
    assert!(scan_channel_mentions(&mention_chars("# #1 #A ##")).is_empty());
    assert!(scan_channel_mentions(&mention_chars("")).is_empty());
    assert!(scan_channel_mentions(&mention_chars("#")).is_empty());
    let found = scan_channel_mentions(&mention_chars("##a#b"));
    assert_eq!(mention_pairs(found), vec![mention_pair("#a", "a"), mention_pair("#b", "b")]);
}

#[test]
fn user_mentions_are_found() {
    let found = scan_user_mentions(&mention_chars("hi @carol#1234 and @Some One#00567!"));
    assert_eq!(
        mention_pairs(found),
        vec![mention_pair("@carol#1234", "carol"), mention_pair("@Some One#0056", "Some One")]
    );
}

#[test]
fn user_mentions_take_the_shortest_name() {
    let found = scan_user_mentions(&mention_chars("@a#b#12 @#99"));
    assert_eq!(
        mention_pairs(found),
        vec![mention_pair("@a#b#12", "a#b"), mention_pair("@#99", "")]
    );
    let found = scan_user_mentions(&mention_chars("@x#12#3456"));
    assert_eq!(mention_pairs(found), vec![mention_pair("@x#12", "x")]);
}

#[test]
fn user_mentions_need_two_digits_and_a_short_name() {
    assert!(scan_user_mentions(&mention_chars("@carol#1")).is_empty());
    assert!(scan_user_mentions(&mention_chars("@carol 1234")).is_empty());
    assert!(scan_user_mentions(&mention_chars("carol#1234")).is_empty());
    let long = format!("@{}#1234", "n".repeat(33));
    assert!(scan_user_mentions(&mention_chars(&long)).is_empty());
    let fits = format!("@{}#1234", "n".repeat(32));
    assert_eq!(scan_user_mentions(&mention_chars(&fits)).len(), 1);
}

#[test]
fn user_mention_starts_at_the_first_at_sign_that_fits() {
    let near = format!("@{}@bob#12", "n".repeat(28));
    let found = scan_user_mentions(&mention_chars(&near));
    let name = format!("{}@bob", "n".repeat(28));
    assert_eq!(mention_pairs(found), vec![mention_pair(&near, &name)]);
    let far = format!("@{}@bob#12", "n".repeat(40));
    let found = scan_user_mentions(&mention_chars(&far));
    assert_eq!(mention_pairs(found), vec![mention_pair("@bob#12", "bob")]);
}

#[test]
fn mentioned_channel_is_looked_for_in_the_guild() {
    let cache = mention_cache();
    let general = mention_chars("general");
    assert_eq!(find_mentioned_channel(&cache, Some(GuildId(10)), &general), Some(ChannelId(20)));
    assert_eq!(find_mentioned_channel(&cache, Some(GuildId(11)), &general), Some(ChannelId(30)));
    assert_eq!(find_mentioned_channel(&cache, None, &general), Some(ChannelId(30)));
    assert_eq!(find_mentioned_channel(&cache, Some(GuildId(99)), &general), Some(ChannelId(30)));
    let elsewhere = mention_chars("elsewhere");
    assert_eq!(find_mentioned_channel(&cache, Some(GuildId(10)), &elsewhere), None);
    assert_eq!(find_mentioned_channel(&cache, None, &elsewhere), Some(ChannelId(31)));
}

#[test]
fn mentioned_channel_is_named_without_spaces() {
    let cache = mention_cache();
    let name = mention_chars("offtopic");
    assert_eq!(find_mentioned_channel(&cache, Some(GuildId(10)), &name), Some(ChannelId(21)));
    let name = mention_chars("General");
    assert_eq!(find_mentioned_channel(&cache, Some(GuildId(10)), &name), None);
}

#[test]
fn mentioned_user_is_a_nickname_first() {
    let cache = mention_cache();
    let carol = mention_chars("carol");
    assert_eq!(find_mentioned_user(&cache, Some(GuildId(10)), &carol), Some(UserId(102)));
    let alice = mention_chars("alice");
    assert_eq!(find_mentioned_user(&cache, Some(GuildId(10)), &alice), Some(UserId(101)));
    assert_eq!(find_mentioned_user(&cache, None, &alice), Some(UserId(201)));
    assert_eq!(find_mentioned_user(&cache, Some(GuildId(11)), &alice), Some(UserId(201)));
    let dave = mention_chars("dave");
    assert_eq!(find_mentioned_user(&cache, Some(GuildId(10)), &dave), Some(UserId(200)));
    assert_eq!(find_mentioned_user(&cache, None, &carol), None);
    let nobody = mention_chars("nobody");
    assert_eq!(find_mentioned_user(&cache, Some(GuildId(10)), &nobody), None);
}

#[test]
fn every_occurrence_of_a_mention_is_replaced() {
    let cache = mention_cache();
    assert_eq!(
        create_mentions(&cache, Some(GuildId(10)), "#general ping #general"),
        "<#20> ping <#20>"
    );
}

#[test]
fn unresolved_mentions_stay_as_typed() {
    let cache = mention_cache();
    assert_eq!(create_mentions(&cache, Some(GuildId(10)), "@nobody#0000 hi"), "@nobody#0000 hi");
    assert_eq!(create_mentions(&cache, Some(GuildId(10)), "go to #nowhere"), "go to #nowhere");
    assert_eq!(create_mentions(&cache, None, "plain text"), "plain text");
    assert_eq!(create_mentions(&cache, None, ""), "");
}

#[test]
fn channels_and_users_are_mentioned_together() {
    let cache = mention_cache();
    assert_eq!(
        create_mentions(&cache, Some(GuildId(10)), "@Al#0001: see #offtopic, says @dave#99"),
        "<@101>: see <#21>, says <@200>"
    );
}

#[test]
fn mentions_resolve_by_the_guild_of_the_buffer() {
    let cache = mention_cache();
    assert_eq!(create_mentions(&cache, Some(GuildId(11)), "#general"), "<#30>");
    assert_eq!(create_mentions(&cache, None, "#general #elsewhere"), "<#30> <#31>");
    assert_eq!(create_mentions(&cache, Some(GuildId(10)), "#elsewhere"), "#elsewhere");
}

#[test]
fn a_longer_name_is_another_mention() {
    let cache = mention_cache();
    assert_eq!(
        create_mentions(&cache, Some(GuildId(10)), "#generals #general"),
        "<#20>s <#20>"
    );
}

#[test]
fn roles_are_not_mentioned() {
    let cache = mention_cache();
    assert_eq!(create_mentions(&cache, Some(GuildId(10)), "@admins hello"), "@admins hello");
}

fn mention_samples() -> Vec<String> {
    let mut samples: Vec<String> = vec![
        "",
        "#",
        "@",
        "#general",
        "see #general and #off-topic_2, #x",
        "##a#b #- #_ #A #9 #é",
        "#general#general ##general",
        "hi @carol#1234 and @Some One#00567!",
        "@a#b#12 @#99 @x#12#3456 @@y#77",
        "@carol#1 @carol#12 @carol#123 @carol#1234 @carol#12345",
        "mail me at bob@example.com#42 or #42",
        "@näme with ünicode#0042 → done",
        "@#@#@#12#34",
        "@one#11@two#22#33",
    ]
    .into_iter()
    .map(String::from)
    .collect();
    samples.push(format!("@{}#1234", "n".repeat(31)));
    samples.push(format!("@{}#1234", "n".repeat(32)));
    samples.push(format!("@{}#1234", "n".repeat(33)));
    samples.push(format!("@{}@bob#12", "n".repeat(28)));
    samples.push(format!("@{}@bob#12", "n".repeat(40)));
    samples.push(format!("@{}#12", "é".repeat(32)));
    samples
}

#[test]
fn channel_scan_agrees_with_the_pattern() {
    let pattern = regex::Regex::new(r"#([a-z_-]+)").unwrap();
    for sample in mention_samples() {
        let expected: Vec<(String, String)> = pattern
            .captures_iter(&sample)
            .map(|c| (c.get(0).unwrap().as_str().to_string(), c.get(1).unwrap().as_str().to_string()))
            .collect();
        let found = mention_pairs(scan_channel_mentions(&mention_chars(&sample)));
        assert_eq!(found, expected, "{:?}", sample);
    }
}

#[test]
fn user_scan_agrees_with_the_pattern() {
    let pattern = regex::Regex::new(r"@(.{0,32}?)#(\d{2,4})").unwrap();
    for sample in mention_samples() {
        let expected: Vec<(String, String)> = pattern
            .captures_iter(&sample)
            .map(|c| (c.get(0).unwrap().as_str().to_string(), c.get(1).unwrap().as_str().to_string()))
            .collect();
        let found = mention_pairs(scan_user_mentions(&mention_chars(&sample)));
        assert_eq!(found, expected, "{:?}", sample);
    }
}

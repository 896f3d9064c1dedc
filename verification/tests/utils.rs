use weechat_discord::cache::{channel_name_by_id, presence_status};
use weechat_discord::model::{
    CacheView, Channel, ChannelCategory, ChannelId, ChannelType, Colour, Group, GuildChannel,
    GuildId, MessageId, OnlineStatus, Presence, PrivateChannel, Role, RoleId, User, UserId,
};
use weechat_discord::utils::{
    buffer_id_for_channel, buffer_id_for_guild, buffer_is_muted, find_highest_roles,
    format_user_status_prefix, get_user_status_prefix, rgb_to_ansi, status_colour_name,
    status_is_online, ChannelExt, Palette,
};

fn utils_palette() -> Palette {
    Palette {
        do_not_disturb: "<red>".to_string(),
        idle: "<178>".to_string(),
        away: "<away>".to_string(),
        online: "<green>".to_string(),
        unknown: "<>".to_string(),
        reset: "<reset>".to_string(),
    }
}

fn utils_role(id: u64, position: i64, hoist: bool) -> Role {
    Role {
        id: RoleId(id),
        name: format!("role{}", id),
        position,
        hoist,
        colour: Colour { r: 1, g: 2, b: 3 },
    }
}

fn utils_user(id: u64, name: &str) -> User {
    User { id: UserId(id), name: name.to_string(), discriminator: 1 }
}

fn utils_cache() -> CacheView {
    CacheView {
        user: utils_user(1, "me"),
        guilds: Vec::new(),
        channels: vec![GuildChannel {
            id: ChannelId(20),
            name: "general".to_string(),
            kind: ChannelType::Text,
            position: 0,
            last_message_id: Some(MessageId(5)),
            readable: true,
        }],
        private_channels: vec![PrivateChannel {
            id: ChannelId(30),
            recipient: utils_user(2, "friend"),
            last_message_id: None,
        }],
        groups: vec![Group { id: ChannelId(40), name: "gang".to_string(), last_message_id: None }],
        users: Vec::new(),
        presences: vec![
            Presence { user_id: UserId(2), status: OnlineStatus::Idle },
            Presence { user_id: UserId(3), status: OnlineStatus::Offline },
            Presence { user_id: UserId(2), status: OnlineStatus::Online },
        ],
    }
}

#[test]
fn colours_fall_on_the_palette() {
    assert_eq!(rgb_to_ansi(Colour { r: 0, g: 0, b: 0 }), 16);
    assert_eq!(rgb_to_ansi(Colour { r: 255, g: 255, b: 255 }), 231);
    assert_eq!(rgb_to_ansi(Colour { r: 255, g: 0, b: 0 }), 196);
    assert_eq!(rgb_to_ansi(Colour { r: 0, g: 255, b: 0 }), 46);
    assert_eq!(rgb_to_ansi(Colour { r: 0, g: 0, b: 255 }), 21);
    assert_eq!(rgb_to_ansi(Colour { r: 254, g: 51, b: 50 }), 16 + 36 * 4 + 6 + 0);
    assert_eq!(rgb_to_ansi(Colour { r: 128, g: 128, b: 128 }), 16 + 36 * 2 + 6 * 2 + 2);
}

#[test]
fn present_statuses() {
    assert!(status_is_online(OnlineStatus::Online));
    assert!(status_is_online(OnlineStatus::Idle));
    assert!(status_is_online(OnlineStatus::DoNotDisturb));
    assert!(!status_is_online(OnlineStatus::Offline));
    assert!(!status_is_online(OnlineStatus::Invisible));
}

#[test]
fn statuses_have_their_colours() {
    assert_eq!(status_colour_name(Some(OnlineStatus::DoNotDisturb)), "red");
    assert_eq!(status_colour_name(Some(OnlineStatus::Idle)), "178");
    assert_eq!(status_colour_name(Some(OnlineStatus::Invisible)), "weechat.color.nicklist_away");
    assert_eq!(status_colour_name(Some(OnlineStatus::Offline)), "weechat.color.nicklist_away");
    assert_eq!(status_colour_name(Some(OnlineStatus::Online)), "green");
    assert_eq!(status_colour_name(None), "");
}

#[test]
fn status_prefix_is_a_coloured_dot() {
    let palette = utils_palette();
    assert_eq!(
        format_user_status_prefix(&palette, Some(OnlineStatus::Online)),
        "<green>•<reset> "
    );
    assert_eq!(
        format_user_status_prefix(&palette, Some(OnlineStatus::DoNotDisturb)),
        "<red>•<reset> "
    );
    assert_eq!(format_user_status_prefix(&palette, Some(OnlineStatus::Idle)), "<178>•<reset> ");
    assert_eq!(
        format_user_status_prefix(&palette, Some(OnlineStatus::Offline)),
        "<away>•<reset> "
    );
    assert_eq!(
        format_user_status_prefix(&palette, Some(OnlineStatus::Invisible)),
        "<away>•<reset> "
    );
    assert_eq!(format_user_status_prefix(&palette, None), "<>•<reset> ");
}

#[test]
fn status_prefix_of_a_user_goes_by_the_cache() {
    let palette = utils_palette();
    let cache = utils_cache();
    assert_eq!(get_user_status_prefix(&palette, &cache, UserId(2)), "<178>•<reset> ");
    assert_eq!(get_user_status_prefix(&palette, &cache, UserId(3)), "<away>•<reset> ");
    assert_eq!(get_user_status_prefix(&palette, &cache, UserId(4)), "<>•<reset> ");
    assert_eq!(presence_status(&cache, UserId(2)), Some(OnlineStatus::Idle));
    assert_eq!(presence_status(&cache, UserId(9)), None);
}

#[test]
fn channels_have_names_and_last_messages() {
    let cache = utils_cache();
    let guild = Channel::Guild(cache.channels[0].clone());
    assert_eq!(guild.name(), "general");
    assert_eq!(guild.last_message(), Some(MessageId(5)));
    let private = Channel::Private(cache.private_channels[0].clone());
    assert_eq!(private.name(), "friend");
    assert_eq!(private.last_message(), None);
    let group = Channel::Group(Group {
        id: ChannelId(1),
        name: "gang".to_string(),
        last_message_id: Some(MessageId(9)),
    });
    assert_eq!(group.name(), "gang");
    assert_eq!(group.last_message(), Some(MessageId(9)));
    let category =
        Channel::Category(ChannelCategory { id: ChannelId(2), name: "heading".to_string() });
    assert_eq!(category.name(), "heading");
    assert_eq!(category.last_message(), None);
}

#[test]
fn channel_names_are_looked_up() {
    let cache = utils_cache();
    assert_eq!(channel_name_by_id(&cache, ChannelId(20)), Some("general"));
    assert_eq!(channel_name_by_id(&cache, ChannelId(30)), Some("friend"));
    assert_eq!(channel_name_by_id(&cache, ChannelId(40)), Some("gang"));
    assert_eq!(channel_name_by_id(&cache, ChannelId(50)), None);
}

#[test]
fn highest_roles_are_found() {
    let roles = vec![
        utils_role(1, 3, false),
        utils_role(2, 5, true),
        utils_role(3, 9, false),
        utils_role(4, 1, true),
    ];
    let found = find_highest_roles(&roles).map(|(h, t)| (h.id, t.id));
    assert_eq!(found, Some((RoleId(2), RoleId(3))));
}

#[test]
fn highest_roles_go_by_id_at_one_position() {
    let roles = vec![utils_role(7, 4, true), utils_role(9, 4, true), utils_role(8, 4, false)];
    let found = find_highest_roles(&roles).map(|(h, t)| (h.id, t.id));
    assert_eq!(found, Some((RoleId(9), RoleId(9))));
    let roles = vec![utils_role(5, -2, true), utils_role(6, -3, false)];
    let found = find_highest_roles(&roles).map(|(h, t)| (h.id, t.id));
    assert_eq!(found, Some((RoleId(5), RoleId(5))));
}

#[test]
fn highest_roles_need_one_that_is_shown_apart() {
    let roles = vec![utils_role(1, 3, false), utils_role(2, 5, false)];
    assert!(find_highest_roles(&roles).is_none());
    assert!(find_highest_roles(&Vec::new()).is_none());
}

#[test]
fn buffers_are_named_by_ids() {
    assert_eq!(buffer_id_for_guild(GuildId(42)), "42");
    assert_eq!(buffer_id_for_channel(Some(GuildId(42)), ChannelId(7)), "42.7");
    assert_eq!(buffer_id_for_channel(None, ChannelId(7)), "Private.7");
}

#[test]
fn muted_buffers() {
    assert!(buffer_is_muted(Some("1")));
    assert!(!buffer_is_muted(Some("0")));
    assert!(!buffer_is_muted(Some("")));
    assert!(!buffer_is_muted(Some("11")));
    assert!(!buffer_is_muted(None));
}

use weechat_discord::command::{
    autojoin, autojoined, command_diagnostic, join, run_command, watch, watched, Args, Command,
    Format, JoinAction, ListKind, ListUpdate, ReturnCode,
};
use weechat_discord::model::{
    CacheView, ChannelId, ChannelType, Group, Guild, GuildChannel, GuildId, PrivateChannel, User,
    UserId,
};

fn command_channel(id: u64, name: &str, kind: ChannelType, position: i64) -> GuildChannel {
    GuildChannel {
        id: ChannelId(id),
        name: name.to_string(),
        kind,
        position,
        last_message_id: None,
        readable: true,
    }
}

fn command_cache() -> CacheView {
    let server_a = Guild {
        id: GuildId(10),
        name: "Server A".to_string(),
        channels: vec![
            command_channel(21, "Chatter", ChannelType::Text, 2),
            command_channel(20, "ChannelB", ChannelType::Text, 1),
            command_channel(22, "Lounge", ChannelType::Voice, 0),
        ],
        members: Vec::new(),
        roles: Vec::new(),
    };
    let empty = Guild {
        id: GuildId(11),
        name: "Empty".to_string(),
        channels: Vec::new(),
        members: Vec::new(),
        roles: Vec::new(),
    };
    CacheView {
        user: User { id: UserId(1), name: "me".to_string(), discriminator: 1 },
        channels: server_a.channels.clone(),
        guilds: vec![server_a, empty],
        private_channels: vec![PrivateChannel {
            id: ChannelId(30),
            recipient: User { id: UserId(2), name: "friend".to_string(), discriminator: 42 },
            last_message_id: None,
        }],
        groups: vec![Group { id: ChannelId(40), name: "the gang".to_string(), last_message_id: None }],
        users: Vec::new(),
        presences: Vec::new(),
    }
}

#[test]
fn command_line_is_taken_apart() {
    let args = Args::from_cmd("/discord watch ServerA ChannelB");
    assert_eq!(args.base, "watch");
    assert_eq!(args.args, vec!["ServerA", "ChannelB"]);
    assert_eq!(args.rest, "ServerA ChannelB");
}

#[test]
fn command_line_without_subcommand_is_empty() {
    let args = Args::from_cmd("/discord");
    assert_eq!(args.base, "");
    assert!(args.args.is_empty());
    assert_eq!(args.rest, "");
    let args = Args::from_cmd("");
    assert_eq!(args.base, "");
    assert!(args.args.is_empty());
}

#[test]
fn command_line_with_subcommand_alone() {
    let args = Args::from_cmd("/discord connect");
    assert_eq!(args.base, "connect");
    assert!(args.args.is_empty());
    assert_eq!(args.rest, "");
    let args = Args::from_cmd("/discord ");
    assert_eq!(args.base, "");
    assert!(args.args.is_empty());
    assert_eq!(args.rest, "");
}

#[test]
fn command_line_keeps_the_rest_as_typed() {
    let args = Args::from_cmd("/discord game playing  some   game ");
    assert_eq!(args.base, "game");
    assert_eq!(args.args, vec!["playing", "", "some", "", "", "game", ""]);
    assert_eq!(args.rest, "playing  some   game");
}

#[test]
fn command_line_splits_at_single_spaces() {
    let args = Args::from_cmd("/discord  token  abc");
    assert_eq!(args.base, "");
    assert_eq!(args.args, vec!["token", "", "abc"]);
    assert_eq!(args.rest, "token  abc");
}

#[test]
fn subcommands_are_routed() {
    let cases = [
        ("/discord connect", Command::Connect),
        ("/discord disconnect", Command::Disconnect),
        ("/discord irc-mode", Command::IrcMode),
        ("/discord discord-mode", Command::DiscordMode),
        ("/discord token abc", Command::Token),
        ("/discord autostart", Command::Autostart),
        ("/discord noautostart", Command::NoAutostart),
        ("/discord query someone", Command::Query),
        ("/discord join a b", Command::Join),
        ("/discord watch a b", Command::Watch),
        ("/discord watched", Command::Watched),
        ("/discord autojoin a", Command::Autojoin),
        ("/discord autojoined", Command::Autojoined),
        ("/discord status idle", Command::Status),
        ("/discord game x", Command::Game),
        ("/discord upload f", Command::Upload),
        ("/discord me waves", Command::Format(Format::Me)),
        ("/discord tableflip", Command::Format(Format::Tableflip)),
        ("/discord unflip", Command::Format(Format::Unflip)),
        ("/discord shrug", Command::Format(Format::Shrug)),
        ("/discord spoiler x", Command::Format(Format::Spoiler)),
        ("/discord", Command::NoAction),
        ("/discord ", Command::NoAction),
        ("/discord dance", Command::Unknown),
        ("/discord Connect", Command::Unknown),
    ];
    for (line, expected) in cases {
        let (args, command) = run_command(line);
        assert_eq!(command, expected, "{}", line);
        assert_eq!(args, Args::from_cmd(line));
    }
}

#[test]
fn unknown_subcommand_gets_a_diagnostic() {
    assert_eq!(command_diagnostic(Command::Unknown), vec!["Unknown command"]);
    assert_eq!(
        command_diagnostic(Command::NoAction),
        vec!["no action provided.", "see /help discord for more information"]
    );
    assert!(command_diagnostic(Command::Connect).is_empty());
}

#[test]
fn watch_end_to_end() {
    let cache = command_cache();
    let args = Args::from_cmd("/discord watch ServerA ChannelB");
    let first = watch(&args, Some(&cache), "");
    assert_eq!(
        first,
        ListUpdate::Updated {
            list: "G10C20".to_string(),
            message: "Now watching ServerA in ChannelB".to_string(),
            then: None,
        }
    );
    let second = watch(&args, Some(&cache), "G10C20");
    assert_eq!(
        second,
        ListUpdate::Updated {
            list: "G10C20".to_string(),
            message: "Now watching ServerA in ChannelB".to_string(),
            then: None,
        }
    );
}

#[test]
fn watch_a_whole_guild() {
    let cache = command_cache();
    let args = Args::from_cmd("/discord watch servera");
    let update = watch(&args, Some(&cache), "C5");
    assert_eq!(
        update,
        ListUpdate::Updated {
            list: "C5,G10".to_string(),
            message: "Now watching all of servera".to_string(),
            then: None,
        }
    );
    assert_eq!(update.report(ListKind::Watch), Some("Now watching all of servera".to_string()));
}

#[test]
fn watch_passes_over_empty_arguments() {
    let cache = command_cache();
    let args = Args::from_cmd("/discord watch  ServerA  20");
    assert_eq!(args.args, vec!["", "ServerA", "", "20"]);
    match watch(&args, Some(&cache), "") {
        ListUpdate::Updated { list, .. } => assert_eq!(list, "G10C20"),
        other => panic!("{:?}", other),
    }
}

#[test]
fn watch_says_what_is_missing() {
    let cache = command_cache();
    let none = watch(&Args::from_cmd("/discord watch"), Some(&cache), "");
    assert_eq!(none, ListUpdate::MissingArguments);
    assert_eq!(
        none.report(ListKind::Watch),
        Some("watch requires a guild name and channel name".to_string())
    );
    let blank = watch(&Args::from_cmd("/discord watch "), Some(&cache), "");
    assert_eq!(blank, ListUpdate::NoName);
    assert_eq!(
        blank.report(ListKind::Watch),
        Some("watch requires a guild name and channel name".to_string())
    );
    assert_eq!(
        blank.report(ListKind::Autojoin),
        Some("autojoin requires a guild name and channel name".to_string())
    );
    let offline = watch(&Args::from_cmd("/discord watch ServerA"), None, "");
    assert_eq!(offline, ListUpdate::NotConnected);
    assert_eq!(offline.report(ListKind::Watch), None);
}

#[test]
fn watch_says_what_was_not_found() {
    let cache = command_cache();
    let no_guild = watch(&Args::from_cmd("/discord watch Nowhere"), Some(&cache), "");
    assert_eq!(no_guild, ListUpdate::GuildNotFound);
    assert_eq!(no_guild.report(ListKind::Watch), Some("Unable to find server".to_string()));
    let no_channel = watch(&Args::from_cmd("/discord watch ServerA nothing"), Some(&cache), "");
    assert_eq!(no_channel, ListUpdate::ChannelNotFound);
    assert_eq!(
        no_channel.report(ListKind::Watch),
        Some("Unable to find server and channel".to_string())
    );
    let voice = watch(&Args::from_cmd("/discord watch ServerA Lounge"), Some(&cache), "");
    assert_eq!(voice, ListUpdate::ChannelNotFound);
    let both = watch(&Args::from_cmd("/discord watch Nowhere ChannelB"), Some(&cache), "");
    assert_eq!(both, ListUpdate::ChannelNotFound);
}

#[test]
fn autojoin_a_channel_joins_it_too() {
    let cache = command_cache();
    let args = Args::from_cmd("/discord autojoin ServerA ChannelB");
    let update = autojoin(&args, Some(&cache), "G11");
    assert_eq!(
        update,
        ListUpdate::Updated {
            list: "G11,G10C20".to_string(),
            message: "Now autojoining ServerA in ChannelB".to_string(),
            then: Some("/discord join ServerA ChannelB".to_string()),
        }
    );
}

#[test]
fn autojoin_a_whole_guild() {
    let cache = command_cache();
    let args = Args::from_cmd("/discord autojoin 11");
    let update = autojoin(&args, Some(&cache), "");
    assert_eq!(
        update,
        ListUpdate::Updated {
            list: "G11".to_string(),
            message: "Now autojoining all channels in 11".to_string(),
            then: None,
        }
    );
    let missing = autojoin(&Args::from_cmd("/discord autojoin"), Some(&cache), "");
    assert_eq!(
        missing.report(ListKind::Autojoin),
        Some("autojoin requires a guild name and channel name".to_string())
    );
}

#[test]
fn join_opens_a_channel() {
    let cache = command_cache();
    let action = join(&Args::from_cmd("/discord join ServerA chatter"), true, Some(&cache));
    assert_eq!(action, JoinAction::OpenChannel { guild: GuildId(10), channel: ChannelId(21) });
    assert_eq!(action.return_code(true), ReturnCode::Eat);
    assert_eq!(action.report(true), None);
}

#[test]
fn join_opens_a_guild_by_position() {
    let cache = command_cache();
    let action = join(&Args::from_cmd("/discord join ServerA"), false, Some(&cache));
    match &action {
        JoinAction::OpenGuild { guild, channels } => {
            assert_eq!(*guild, GuildId(10));
            assert_eq!(channels.len(), 1);
            assert_eq!(channels.get(&Some(10)), Some(&vec![22, 20, 21]));
        }
        other => panic!("{:?}", other),
    }
    assert_eq!(action.return_code(false), ReturnCode::Eat);
}

#[test]
fn join_opens_a_guild_without_channels() {
    let cache = command_cache();
    let action = join(&Args::from_cmd("/discord join Empty"), true, Some(&cache));
    match &action {
        JoinAction::OpenGuild { guild, channels } => {
            assert_eq!(*guild, GuildId(11));
            assert_eq!(channels.len(), 1);
            assert_eq!(channels.get(&Some(11)), Some(&Vec::new()));
        }
        other => panic!("{:?}", other),
    }
}

#[test]
fn join_without_arguments() {
    let cache = command_cache();
    let loud = join(&Args::from_cmd("/discord join"), true, Some(&cache));
    assert_eq!(loud, JoinAction::MissingArguments);
    assert_eq!(loud.return_code(true), ReturnCode::Failed);
    assert_eq!(
        loud.report(true),
        Some("join requires an guild name and channel name".to_string())
    );
    let quiet = join(&Args::from_cmd("/discord join"), false, Some(&cache));
    assert_eq!(quiet, JoinAction::NoName);
    assert_eq!(quiet.return_code(false), ReturnCode::Failed);
    assert_eq!(quiet.report(false), None);
}

#[test]
fn join_what_is_not_there() {
    let cache = command_cache();
    let action = join(&Args::from_cmd("/discord join ServerA nothing"), true, Some(&cache));
    assert_eq!(action, JoinAction::NotFound);
    assert_eq!(action.return_code(true), ReturnCode::Eat);
    assert_eq!(action.report(true), Some("Couldn't find channel".to_string()));
    assert_eq!(action.return_code(false), ReturnCode::Failed);
    assert_eq!(action.report(false), None);
    let action = join(&Args::from_cmd("/discord join Nowhere"), false, Some(&cache));
    assert_eq!(action, JoinAction::NotFound);
    let action = join(&Args::from_cmd("/discord join ServerA"), true, None);
    assert_eq!(action, JoinAction::NotConnected);
    assert_eq!(action.return_code(true), ReturnCode::Failed);
}

#[test]
fn watched_lists_guilds_and_channels() {
    let cache = command_cache();
    let lines = watched("G10,G99,G10C20,C30,C40,G98C21,G10C99,C77,junk", Some(&cache));
    assert_eq!(
        lines,
        vec![
            "",
            "Watched Servers: (2)",
            "  Server A",
            "Watched Channels: (6)",
            "  Server A: ChannelB",
            "  friend",
            "  the gang",
            "  98: Chatter",
            "  Some(GuildId(10)) ChannelId(99)",
            "  None ChannelId(77)",
        ]
    );
}

#[test]
fn watched_of_an_empty_list() {
    let cache = command_cache();
    assert_eq!(
        watched("", Some(&cache)),
        vec!["", "Watched Servers: (0)", "Watched Channels: (0)"]
    );
    assert_eq!(watched("G10", None), vec![""]);
}

#[test]
fn autojoined_lists_under_its_own_headings() {
    let cache = command_cache();
    assert_eq!(
        autojoined("G11,C30", Some(&cache)),
        vec!["", "Autojoin Servers: (1)", "  Empty", "Autojoin Channels: (1)", "  friend"]
    );
    assert_eq!(autojoined("G11,C30", None), vec![""]);
}

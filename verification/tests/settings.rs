use weechat_discord::command::{Args, Format};
use weechat_discord::markup::discord_fmt;
use weechat_discord::model::OnlineStatus;
use weechat_discord::options::{
    autostart_report, connect, discord_mode, disconnect, format_option_change, irc_mode,
    mode_report, token, token_report, ConnectAction, Mode, OptionChanged,
};
use weechat_discord::presence::{
    status_for_keyword, Activity, ActivityKind, GameOutcome, PresenceState,
};
use weechat_discord::upload::{
    expand_home, unresolved_path_report, upload, upload_report, upload_usage, UploadResult,
};

#[test]
fn option_changes_are_reported() {
    assert_eq!(
        format_option_change("token", "new", Some("old"), OptionChanged::Changed),
        "option token successfully changed from old to new"
    );
    assert_eq!(
        format_option_change("token", "new", None, OptionChanged::Changed),
        "option token successfully set to new"
    );
    assert_eq!(
        format_option_change("token", "new", None, OptionChanged::Unchanged),
        "option token successfully set to new"
    );
    assert_eq!(
        format_option_change("token", "new", Some("old"), OptionChanged::Unchanged),
        "option token already contained old"
    );
    assert_eq!(
        format_option_change("token", "new", Some("old"), OptionChanged::NotFound),
        "option token not found"
    );
    assert_eq!(
        format_option_change("token", "new", None, OptionChanged::NotFound),
        "option token not found"
    );
    assert_eq!(
        format_option_change("token", "new", Some("old"), OptionChanged::Error),
        "error when setting option token to new (was old)"
    );
    assert_eq!(
        format_option_change("token", "new", None, OptionChanged::Error),
        "error when setting option token to new"
    );
}

#[test]
fn connect_needs_a_token_and_no_session() {
    assert_eq!(connect("abc", false), ConnectAction::Start);
    assert_eq!(connect("abc", true), ConnectAction::AlreadyConnected);
    assert_eq!(connect("", false), ConnectAction::TokenUnset);
    assert_eq!(connect("", true), ConnectAction::TokenUnset);
    assert!(ConnectAction::Start.report().is_empty());
    assert_eq!(ConnectAction::AlreadyConnected.report(), vec!["Already connected"]);
    assert_eq!(
        ConnectAction::TokenUnset.report(),
        vec!["Error: weecord.main.token unset. Run:", "/discord token 123456789ABCDEF"]
    );
}

#[test]
fn disconnect_shuts_a_session_down() {
    assert_eq!(disconnect(true), (true, "Disconnected".to_string()));
    assert_eq!(disconnect(false), (false, "Already disconnected".to_string()));
}

#[test]
fn modes_are_switched() {
    assert_eq!(irc_mode(false), Some(true));
    assert_eq!(irc_mode(true), None);
    assert_eq!(discord_mode(true), Some(false));
    assert_eq!(discord_mode(false), None);
}

#[test]
fn mode_switches_are_reported() {
    assert_eq!(mode_report(Mode::Irc, true, None), vec!["irc-mode already enabled"]);
    assert_eq!(mode_report(Mode::Discord, false, None), vec!["discord-mode already enabled"]);
    assert_eq!(
        mode_report(Mode::Irc, false, Some(OptionChanged::Changed)),
        vec!["option irc_mode successfully changed from false to true", "irc-mode enabled"]
    );
    assert_eq!(
        mode_report(Mode::Discord, true, Some(OptionChanged::Error)),
        vec!["error when setting option irc_mode to false (was true)", "discord-mode enabled"]
    );
}

#[test]
fn token_is_taken_without_its_quotes() {
    assert_eq!(token(&Args::from_cmd("/discord token \"abc def\"")), Some("abc def".to_string()));
    assert_eq!(token(&Args::from_cmd("/discord token abc")), Some("abc".to_string()));
    assert_eq!(token(&Args::from_cmd("/discord token \"\"a\"b\"")), Some("a\"b".to_string()));
    assert_eq!(token(&Args::from_cmd("/discord token ")), Some("".to_string()));
    assert_eq!(token(&Args::from_cmd("/discord token")), None);
}

#[test]
fn token_changes_are_reported() {
    assert_eq!(
        token_report(None, "old", OptionChanged::Changed),
        vec!["token requires an argument"]
    );
    assert_eq!(
        token_report(Some("new"), "old", OptionChanged::Changed),
        vec!["option token successfully changed from old to new", "Set Discord token"]
    );
}

#[test]
fn autostart_is_reported() {
    assert_eq!(
        autostart_report(true, Some(false), OptionChanged::Changed),
        vec!["option autostart successfully changed from false to true", "Discord will now load on startup"]
    );
    assert_eq!(
        autostart_report(false, None, OptionChanged::Unchanged),
        vec!["option autostart successfully set to false", "Discord will not load on startup"]
    );
}

#[test]
fn status_keywords_whatever_their_case() {
    let cases = [
        ("online", OnlineStatus::Online, "Online"),
        ("OFFLINE", OnlineStatus::Invisible, "Invisible"),
        ("Invisible", OnlineStatus::Invisible, "Invisible"),
        ("iDLe", OnlineStatus::Idle, "Idle"),
        ("dnd", OnlineStatus::DoNotDisturb, "DoNotDisturb"),
    ];
    for (word, status, name) in cases {
        let mut state = PresenceState::new();
        let line = format!("/discord status {}", word);
        let (set, report) = state.status(&Args::from_cmd(&line));
        assert_eq!(set, Some(status));
        assert_eq!(report, format!("Status set to {} {}", word, name));
        assert_eq!(state.last_status, status);
    }
}

#[test]
fn status_defaults_to_online() {
    let mut state = PresenceState { last_status: OnlineStatus::Idle };
    let (set, report) = state.status(&Args::from_cmd("/discord status"));
    assert_eq!(set, Some(OnlineStatus::Online));
    assert_eq!(report, "Status set to online Online");
    assert_eq!(state.last_status, OnlineStatus::Online);
}

#[test]
fn unknown_status_changes_nothing() {
    let mut state = PresenceState { last_status: OnlineStatus::Idle };
    let (set, report) = state.status(&Args::from_cmd("/discord status sleeping"));
    assert_eq!(set, None);
    assert_eq!(report, "Unknown status \"sleeping\"");
    assert_eq!(state.last_status, OnlineStatus::Idle);
    let (set, _) = state.status(&Args::from_cmd("/discord status "));
    assert_eq!(set, None);
}

#[test]
fn a_new_session_is_online() {
    assert_eq!(PresenceState::new().last_status, OnlineStatus::Online);
}

fn settings_shown(kind: ActivityKind, name: &str, status: OnlineStatus) -> GameOutcome {
    GameOutcome::Send { activity: Some(Activity { kind, name: name.to_string() }), status }
}

#[test]
fn game_without_arguments_clears_the_activity() {
    let state = PresenceState { last_status: OnlineStatus::Idle };
    assert_eq!(
        state.game(&Args::from_cmd("/discord game")),
        GameOutcome::Send { activity: None, status: OnlineStatus::Idle }
    );
}

#[test]
fn game_with_one_argument_plays_it() {
    let state = PresenceState::new();
    assert_eq!(
        state.game(&Args::from_cmd("/discord game chess")),
        settings_shown(ActivityKind::Playing, "chess", OnlineStatus::Online)
    );
    assert_eq!(
        state.game(&Args::from_cmd("/discord game watching")),
        settings_shown(ActivityKind::Playing, "watching", OnlineStatus::Online)
    );
}

#[test]
fn game_with_a_type_keeps_the_text_as_typed() {
    let state = PresenceState { last_status: OnlineStatus::DoNotDisturb };
    let dnd = OnlineStatus::DoNotDisturb;
    assert_eq!(
        state.game(&Args::from_cmd("/discord game playing  some   game")),
        settings_shown(ActivityKind::Playing, " some   game", dnd)
    );
    assert_eq!(
        state.game(&Args::from_cmd("/discord game play chess")),
        settings_shown(ActivityKind::Playing, "chess", dnd)
    );
    assert_eq!(
        state.game(&Args::from_cmd("/discord game listening to music")),
        settings_shown(ActivityKind::Listening, "to music", dnd)
    );
    assert_eq!(
        state.game(&Args::from_cmd("/discord game watching paint dry")),
        settings_shown(ActivityKind::Watching, "paint dry", dnd)
    );
    assert_eq!(
        state.game(&Args::from_cmd("/discord game watch tv")),
        settings_shown(ActivityKind::Watching, "tv", dnd)
    );
    assert_eq!(
        state.game(&Args::from_cmd("/discord game playing ")),
        settings_shown(ActivityKind::Playing, "", dnd)
    );
}

#[test]
fn game_with_an_unknown_type() {
    let state = PresenceState::new();
    assert_eq!(
        state.game(&Args::from_cmd("/discord game dancing all night")),
        GameOutcome::UnknownType { message: "Unknown activity type \"dancing\"".to_string() }
    );
    assert_eq!(
        state.game(&Args::from_cmd("/discord game Playing chess")),
        GameOutcome::UnknownType { message: "Unknown activity type \"Playing\"".to_string() }
    );
}

#[test]
fn home_is_expanded() {
    assert_eq!(expand_home("~/pics/cat.png", Some("/home/alice")), "/home/alice/pics/cat.png");
    assert_eq!(expand_home("~/pics/cat.png", None), "./pics/cat.png");
    assert_eq!(expand_home("~/", Some("/home/alice")), "/home/alice/");
    assert_eq!(expand_home("/tmp/x", Some("/home/alice")), "/tmp/x");
    assert_eq!(expand_home("~alice/x", Some("/home/alice")), "~alice/x");
    assert_eq!(expand_home("~", Some("/home/alice")), "~");
    assert_eq!(expand_home("", None), "");
}

#[test]
fn upload_names_a_file() {
    assert_eq!(upload(&Args::from_cmd("/discord upload")), None);
    assert_eq!(upload(&Args::from_cmd("/discord upload /tmp/a b.txt")), Some("/tmp/a b.txt".to_string()));
    let path = upload(&Args::from_cmd("/discord upload ~/file.txt")).unwrap();
    assert!(path.ends_with("/file.txt"));
    assert!(!path.starts_with('~'));
    let home = dirs::home_dir().map(|d| d.to_string_lossy().into_owned());
    assert_eq!(path, expand_home("~/file.txt", home.as_deref()));
}

#[test]
fn uploads_are_reported() {
    assert_eq!(upload_report(UploadResult::Sent, ""), "File uploaded successfully");
    assert_eq!(upload_report(UploadResult::TooLarge, "Message too large."), "File too large to upload");
    assert_eq!(
        upload_report(UploadResult::Failed, "connection reset"),
        "An error occurred uploading a file: connection reset"
    );
    assert_eq!(upload_usage(), "upload requires an argument");
    assert_eq!(unresolved_path_report("no such file"), "Unable to resolve file path: no such file");
}

#[test]
fn messages_are_dressed_up() {
    assert_eq!(discord_fmt(Format::Me, "waves"), "_waves_");
    assert_eq!(discord_fmt(Format::Tableflip, "argh"), "argh (╯°□°）╯︵ ┻━┻");
    assert_eq!(discord_fmt(Format::Unflip, "sorry"), "sorry ┬─┬ ノ( ゜-゜ノ)");
    assert_eq!(discord_fmt(Format::Shrug, "well"), "well ¯\\_(ツ)_/¯");
    assert_eq!(discord_fmt(Format::Spoiler, "he dies"), "||he dies||");
    assert_eq!(discord_fmt(Format::Me, ""), "__");
}

#[test]
fn status_keywords_in_lower_case() {
    let keyword = |word: &str| status_for_keyword(&word.chars().collect());
    assert_eq!(keyword("online"), Some(OnlineStatus::Online));
    assert_eq!(keyword("offline"), Some(OnlineStatus::Invisible));
    assert_eq!(keyword("invisible"), Some(OnlineStatus::Invisible));
    assert_eq!(keyword("idle"), Some(OnlineStatus::Idle));
    assert_eq!(keyword("dnd"), Some(OnlineStatus::DoNotDisturb));
    assert_eq!(keyword("Online"), None);
    assert_eq!(keyword(""), None);
    assert_eq!(keyword("away"), None);
}

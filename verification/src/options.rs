//! Connecting, and the settings that commands change: what each command
//! decides, and the lines in which a change is reported.

use crate::command::{literal, Args};
use crate::text::{chars_of, push_str, string_of, strings, strip_both, strip_both_chars};
use vstd::prelude::*;

verus! {

/// How an attempt to set an option ended.
#[derive(Clone, Copy, Debug, PartialEq, Eq, Structural)]
pub enum OptionChanged {
    /// The option has a new value.
    Changed,
    /// The option had the value already.
    Unchanged,
    /// There is no such option.
    NotFound,
    /// The value could not be set.
    Error,
}

/// The line that reports an attempt to set the option `name` to `value`,
/// where `before` is the value it had, if that is known.
pub open spec fn option_change_text(
    name: Seq<char>,
    value: Seq<char>,
    before: Option<Seq<char>>,
    change: OptionChanged,
) -> Seq<char> {
    match (change, before) {
        (OptionChanged::Changed, Some(old)) => "option "@ + name + " successfully changed from "@
            + old + " to "@ + value,
        (OptionChanged::Changed, None) => "option "@ + name + " successfully set to "@ + value,
        (OptionChanged::Unchanged, None) => "option "@ + name + " successfully set to "@ + value,
        (OptionChanged::Unchanged, Some(old)) => "option "@ + name + " already contained "@ + old,
        (OptionChanged::NotFound, _) => "option "@ + name + " not found"@,
        (OptionChanged::Error, Some(old)) => "error when setting option "@ + name + " to "@ + value
            + " (was "@ + old + ")"@,
        (OptionChanged::Error, None) => "error when setting option "@ + name + " to "@ + value,
    }
}

/// The view of a text that may be missing.
pub open spec fn text_of(text: Option<&str>) -> Option<Seq<char>> {
    match text {
        Some(t) => Some(t@),
        None => None,
    }
}

/// Reports an attempt to set an option: one line for each outcome, the same
/// for every option.
pub fn format_option_change(
    name: &str,
    value: &str,
    before: Option<&str>,
    change: OptionChanged,
) -> (line: String)
    ensures
        line@ == option_change_text(name@, value@, text_of(before), change),
{
    let mut out: Vec<char> = Vec::new();
    match (change, before) {
        (OptionChanged::Changed, Some(old)) => {
            push_str(&mut out, "option ");
            push_str(&mut out, name);
            push_str(&mut out, " successfully changed from ");
            push_str(&mut out, old);
            push_str(&mut out, " to ");
            push_str(&mut out, value);
        },
        (OptionChanged::Changed, None) | (OptionChanged::Unchanged, None) => {
            push_str(&mut out, "option ");
            push_str(&mut out, name);
            push_str(&mut out, " successfully set to ");
            push_str(&mut out, value);
        },
        (OptionChanged::Unchanged, Some(old)) => {
            push_str(&mut out, "option ");
            push_str(&mut out, name);
            push_str(&mut out, " already contained ");
            push_str(&mut out, old);
        },
        (OptionChanged::NotFound, _) => {
            push_str(&mut out, "option ");
            push_str(&mut out, name);
            push_str(&mut out, " not found");
        },
        (OptionChanged::Error, Some(old)) => {
            push_str(&mut out, "error when setting option ");
            push_str(&mut out, name);
            push_str(&mut out, " to ");
            push_str(&mut out, value);
            push_str(&mut out, " (was ");
            push_str(&mut out, old);
            push_str(&mut out, ")");
        },
        (OptionChanged::Error, None) => {
            push_str(&mut out, "error when setting option ");
            push_str(&mut out, name);
            push_str(&mut out, " to ");
            push_str(&mut out, value);
        },
    }
    assert(out@ =~= option_change_text(name@, value@, text_of(before), change));
    string_of(&out)
}

/// What `connect` comes to.
#[derive(Clone, Copy, Debug, PartialEq, Eq, Structural)]
pub enum ConnectAction {
    /// A session is to be started with the token.
    Start,
    /// There is a session already.
    AlreadyConnected,
    /// No token is set.
    TokenUnset,
}

/// Decides what `connect` does: without a token nothing can start, and a
/// second session is not started beside a first.
pub fn connect(token: &str, connected: bool) -> (action: ConnectAction)
    ensures
        action == if token@.len() == 0 {
            ConnectAction::TokenUnset
        } else if connected {
            ConnectAction::AlreadyConnected
        } else {
            ConnectAction::Start
        },
{
    let chars = chars_of(token);
    if chars.len() == 0 {
        ConnectAction::TokenUnset
    } else if connected {
        ConnectAction::AlreadyConnected
    } else {
        ConnectAction::Start
    }
}

impl ConnectAction {
    /// The lines to print.
    pub fn report(self) -> (lines: Vec<String>)
        ensures
            strings(lines@) == match self {
                ConnectAction::Start => Seq::empty(),
                ConnectAction::AlreadyConnected => seq!["Already connected"@],
                ConnectAction::TokenUnset => seq![
                    "Error: weecord.main.token unset. Run:"@,
                    "/discord token 123456789ABCDEF"@,
                ],
            },
    {
        let mut lines: Vec<String> = Vec::new();
        assert(strings(lines@) =~= Seq::<Seq<char>>::empty());
        match self {
            ConnectAction::Start => {},
            ConnectAction::AlreadyConnected => {
                lines.push(literal("Already connected"));
                assert(strings(lines@) =~= seq!["Already connected"@]);
            },
            ConnectAction::TokenUnset => {
                lines.push(literal("Error: weecord.main.token unset. Run:"));
                lines.push(literal("/discord token 123456789ABCDEF"));
                assert(strings(lines@) =~= seq![
                    "Error: weecord.main.token unset. Run:"@,
                    "/discord token 123456789ABCDEF"@,
                ]);
            },
        }
        lines
    }
}

/// Decides what `disconnect` does: whether there is a session to shut down.
/// The line to print comes along.
pub fn disconnect(connected: bool) -> (outcome: (bool, String))
    ensures
        outcome.0 == connected,
        outcome.1@ == if connected {
            "Disconnected"@
        } else {
            "Already disconnected"@
        },
{
    if connected {
        (true, literal("Disconnected"))
    } else {
        (false, literal("Already disconnected"))
    }
}

/// The two ways in which channels come to be shown.
#[derive(Clone, Copy, Debug, PartialEq, Eq, Structural)]
pub enum Mode {
    /// Channels are shown once they are joined.
    Irc,
    /// Every channel at hand is shown.
    Discord,
}

/// The value to give the option `irc_mode` to get into `mode`; none where
/// the option has that value already.
pub open spec fn mode_change(mode: Mode, irc_mode_now: bool) -> Option<bool> {
    if (mode is Irc) == irc_mode_now {
        None
    } else {
        Some(mode is Irc)
    }
}

/// Decides what `irc-mode` sets.
pub fn irc_mode(irc_mode_now: bool) -> (set: Option<bool>)
    ensures
        set == mode_change(Mode::Irc, irc_mode_now),
{
    if irc_mode_now {
        None
    } else {
        Some(true)
    }
}

/// Decides what `discord-mode` sets.
pub fn discord_mode(irc_mode_now: bool) -> (set: Option<bool>)
    ensures
        set == mode_change(Mode::Discord, irc_mode_now),
{
    if !irc_mode_now {
        None
    } else {
        Some(false)
    }
}

/// How a truth value is written out.
pub open spec fn bool_text(b: bool) -> Seq<char> {
    if b {
        "true"@
    } else {
        "false"@
    }
}

/// The name of a mode as the user types it.
pub open spec fn mode_name(mode: Mode) -> Seq<char> {
    match mode {
        Mode::Irc => "irc-mode"@,
        Mode::Discord => "discord-mode"@,
    }
}

/// The lines that report a change of mode. Where nothing was to be set
/// (`change` is `None`), the one line says that the mode was on already;
/// else the change of the option is reported, and that the mode is on.
pub fn mode_report(mode: Mode, irc_mode_before: bool, change: Option<OptionChanged>) -> (lines:
    Vec<String>)
    ensures
        strings(lines@) == match change {
            None => seq![mode_name(mode) + " already enabled"@],
            Some(outcome) => seq![
                option_change_text(
                    "irc_mode"@,
                    bool_text(mode is Irc),
                    Some(bool_text(irc_mode_before)),
                    outcome,
                ),
                mode_name(mode) + " enabled"@,
            ],
        },
{
    let name = match mode {
        Mode::Irc => "irc-mode",
        Mode::Discord => "discord-mode",
    };
    let mut lines: Vec<String> = Vec::new();
    match change {
        None => {
            let mut out: Vec<char> = Vec::new();
            push_str(&mut out, name);
            push_str(&mut out, " already enabled");
            assert(out@ =~= mode_name(mode) + " already enabled"@);
            lines.push(string_of(&out));
            assert(strings(lines@) =~= seq![mode_name(mode) + " already enabled"@]);
        },
        Some(outcome) => {
            let value = match mode {
                Mode::Irc => "true",
                Mode::Discord => "false",
            };
            let before = if irc_mode_before {
                "true"
            } else {
                "false"
            };
            let first = format_option_change("irc_mode", value, Some(before), outcome);
            let mut out: Vec<char> = Vec::new();
            push_str(&mut out, name);
            push_str(&mut out, " enabled");
            assert(out@ =~= mode_name(mode) + " enabled"@);
            lines.push(first);
            lines.push(string_of(&out));
            assert(strings(lines@) =~= seq![
                option_change_text(
                    "irc_mode"@,
                    bool_text(mode is Irc),
                    Some(bool_text(irc_mode_before)),
                    outcome,
                ),
                mode_name(mode) + " enabled"@,
            ]);
        },
    }
    lines
}

/// The token that `token` is to set: the text behind the subcommand without
/// the double quotes at its two ends. None where the command has no
/// argument.
pub fn token(args: &Args) -> (value: Option<String>)
    ensures
        match value {
            Some(text) => args.args@.len() > 0 && text@ == strip_both(args.rest@, '"'),
            None => args.args@.len() == 0,
        },
{
    if args.args.len() == 0 {
        return None;
    }
    let rest = chars_of(args.rest.as_str());
    let stripped = strip_both_chars(&rest, '"');
    Some(string_of(&stripped))
}

/// The lines that report what `token` did: that an argument is missing, or
/// how the option changed and that the token is set.
pub fn token_report(value: Option<&str>, before: &str, change: OptionChanged) -> (lines: Vec<
    String,
>)
    ensures
        strings(lines@) == match value {
            None => seq!["token requires an argument"@],
            Some(text) => seq![
                option_change_text("token"@, text@, Some(before@), change),
                "Set Discord token"@,
            ],
        },
{
    let mut lines: Vec<String> = Vec::new();
    match value {
        None => {
            lines.push(literal("token requires an argument"));
            assert(strings(lines@) =~= seq!["token requires an argument"@]);
        },
        Some(text) => {
            lines.push(format_option_change("token", text, Some(before), change));
            lines.push(literal("Set Discord token"));
            assert(strings(lines@) =~= seq![
                option_change_text("token"@, text@, Some(before@), change),
                "Set Discord token"@,
            ]);
        },
    }
    lines
}

/// The lines that report what `autostart` or `noautostart` did: how the
/// option changed, and whether the plugin connects when the host starts.
pub fn autostart_report(enabled: bool, before: Option<bool>, change: OptionChanged) -> (lines:
    Vec<String>)
    ensures
        strings(lines@) == seq![
            option_change_text(
                "autostart"@,
                bool_text(enabled),
                match before {
                    Some(b) => Some(bool_text(b)),
                    None => None,
                },
                change,
            ),
            if enabled {
                "Discord will now load on startup"@
            } else {
                "Discord will not load on startup"@
            },
        ],
{
    let value = if enabled {
        "true"
    } else {
        "false"
    };
    let old = match before {
        Some(true) => Some("true"),
        Some(false) => Some("false"),
        None => None,
    };
    let mut lines: Vec<String> = Vec::new();
    lines.push(format_option_change("autostart", value, old, change));
    if enabled {
        lines.push(literal("Discord will now load on startup"));
    } else {
        lines.push(literal("Discord will not load on startup"));
    }
    assert(strings(lines@) =~= seq![
        option_change_text(
            "autostart"@,
            bool_text(enabled),
            match before {
                Some(b) => Some(bool_text(b)),
                None => None,
            },
            change,
        ),
        if enabled {
            "Discord will now load on startup"@
        } else {
            "Discord will not load on startup"@
        },
    ]);
    lines
}

} // verus!

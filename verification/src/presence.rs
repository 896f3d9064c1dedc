//! The user's own status and activity.
//!
//! The status that was set last is kept in a [`PresenceState`], which the
//! owner of the session holds and hands to each operation, so that an
//! activity can be set without naming the status again.

use crate::command::Args;
use crate::model::OnlineStatus;
use crate::text::{
    chars_of, is_text, lowercase, lowercase_chars, push_all, push_str, slice_chars, string_of,
    strings,
};
use vstd::prelude::*;

verus! {

/// The kinds of activity that a user can show.
#[derive(Clone, Copy, Debug, PartialEq, Eq, Structural)]
pub enum ActivityKind {
    Playing,
    Listening,
    Watching,
}

/// What a user shows to be doing.
#[derive(Clone, Debug, PartialEq, Eq)]
pub struct Activity {
    pub kind: ActivityKind,
    pub name: String,
}

/// The status that a keyword in lower case stands for.
pub open spec fn status_keyword(lower: Seq<char>) -> Option<OnlineStatus> {
    if lower == "online"@ {
        Some(OnlineStatus::Online)
    } else if lower == "offline"@ || lower == "invisible"@ {
        Some(OnlineStatus::Invisible)
    } else if lower == "idle"@ {
        Some(OnlineStatus::Idle)
    } else if lower == "dnd"@ {
        Some(OnlineStatus::DoNotDisturb)
    } else {
        None
    }
}

/// The status that a keyword stands for, whatever the case of its letters.
pub open spec fn status_named(word: Seq<char>) -> Option<OnlineStatus> {
    status_keyword(lowercase(word))
}

/// The status that a keyword in lower case stands for.
pub fn status_for_keyword(lower: &Vec<char>) -> (status: Option<OnlineStatus>)
    ensures
        status == status_keyword(lower@),
{
    if is_text(lower, "online") {
        Some(OnlineStatus::Online)
    } else if is_text(lower, "offline") || is_text(lower, "invisible") {
        Some(OnlineStatus::Invisible)
    } else if is_text(lower, "idle") {
        Some(OnlineStatus::Idle)
    } else if is_text(lower, "dnd") {
        Some(OnlineStatus::DoNotDisturb)
    } else {
        None
    }
}

/// The keyword of a `status` command: its first argument, or `online` where
/// it has none.
pub open spec fn status_word(args: Seq<Seq<char>>) -> Seq<char> {
    if args.len() == 0 {
        "online"@
    } else {
        args[0]
    }
}

/// The name of a status as it is shown in reports.
pub open spec fn status_name(status: OnlineStatus) -> Seq<char> {
    match status {
        OnlineStatus::DoNotDisturb => "DoNotDisturb"@,
        OnlineStatus::Idle => "Idle"@,
        OnlineStatus::Invisible => "Invisible"@,
        OnlineStatus::Offline => "Offline"@,
        OnlineStatus::Online => "Online"@,
    }
}

/// The line that reports a `status` command.
pub open spec fn status_report(word: Seq<char>) -> Seq<char> {
    match status_named(word) {
        Some(status) => "Status set to "@ + word + " "@ + status_name(status),
        None => "Unknown status \""@ + word + "\""@,
    }
}

/// The activity type that a keyword stands for.
pub open spec fn activity_named(word: Seq<char>) -> Option<ActivityKind> {
    if word == "playing"@ || word == "play"@ {
        Some(ActivityKind::Playing)
    } else if word == "listening"@ {
        Some(ActivityKind::Listening)
    } else if word == "watching"@ || word == "watch"@ {
        Some(ActivityKind::Watching)
    } else {
        None
    }
}

/// The text of an activity that is given with its type: all that stands
/// behind the type and one more character in the command's text, as it was
/// typed.
pub open spec fn activity_text(rest: Seq<char>, kind_word: Seq<char>) -> Seq<char> {
    if kind_word.len() + 1 <= rest.len() {
        rest.skip(kind_word.len() as int + 1)
    } else {
        Seq::empty()
    }
}

/// What a `game` command asks for.
pub enum GameRequest {
    /// No activity is to be shown.
    Clear,
    /// This activity is to be shown.
    Show { kind: ActivityKind, name: Seq<char> },
    /// The type of activity is not known.
    UnknownType { word: Seq<char> },
}

/// What a `game` command asks for: without arguments no activity; with one,
/// playing what it names; with more, the first is the type of activity and
/// what follows it is the text.
pub open spec fn game_request(args: Seq<Seq<char>>, rest: Seq<char>) -> GameRequest {
    if args.len() == 0 {
        GameRequest::Clear
    } else if args.len() == 1 {
        GameRequest::Show { kind: ActivityKind::Playing, name: args[0] }
    } else {
        match activity_named(args[0]) {
            Some(kind) => GameRequest::Show { kind, name: activity_text(rest, args[0]) },
            None => GameRequest::UnknownType { word: args[0] },
        }
    }
}

/// What is to be sent after a `game` command, or the line that says why
/// nothing is.
#[derive(Clone, Debug, PartialEq, Eq)]
pub enum GameOutcome {
    /// The activity, or none, goes out with the status that was set last.
    Send { activity: Option<Activity>, status: OnlineStatus },
    /// The type of activity is not known.
    UnknownType { message: String },
}

/// The status that was set last in a session.
#[derive(Clone, Copy, Debug, PartialEq, Eq, Structural)]
pub struct PresenceState {
    pub last_status: OnlineStatus,
}

impl PresenceState {
    /// The state of a new session: online.
    pub fn new() -> (state: PresenceState)
        ensures
            state.last_status == OnlineStatus::Online,
    {
        PresenceState { last_status: OnlineStatus::Online }
    }

    /// Handles a `status` command. A known keyword gives the status to send,
    /// which is remembered; an unknown one changes nothing. The line to print
    /// comes along.
    pub fn status(&mut self, args: &Args) -> (outcome: (Option<OnlineStatus>, String))
        ensures
            outcome.0 == status_named(status_word(strings(args.args@))),
            outcome.1@ == status_report(status_word(strings(args.args@))),
            final(self).last_status == match outcome.0 {
                Some(status) => status,
                None => old(self).last_status,
            },
    {
        let word = if args.args.len() == 0 {
            chars_of("online")
        } else {
            assert(strings(args.args@)[0] == args.args@[0]@);
            chars_of(args.args[0].as_str())
        };
        let lower = lowercase_chars(&word);
        let status = status_for_keyword(&lower);
        let mut out: Vec<char> = Vec::new();
        match status {
            Some(found) => {
                push_str(&mut out, "Status set to ");
                push_all(&mut out, &word);
                push_str(&mut out, " ");
                match found {
                    OnlineStatus::DoNotDisturb => push_str(&mut out, "DoNotDisturb"),
                    OnlineStatus::Idle => push_str(&mut out, "Idle"),
                    OnlineStatus::Invisible => push_str(&mut out, "Invisible"),
                    OnlineStatus::Offline => push_str(&mut out, "Offline"),
                    OnlineStatus::Online => push_str(&mut out, "Online"),
                }
                self.last_status = found;
            },
            None => {
                push_str(&mut out, "Unknown status \"");
                push_all(&mut out, &word);
                push_str(&mut out, "\"");
            },
        }
        assert(out@ =~= status_report(status_word(strings(args.args@))));
        (status, string_of(&out))
    }

    /// Handles a `game` command: what to send, with the status that was set
    /// last, or the line that says that the type of activity is not known.
    pub fn game(&self, args: &Args) -> (outcome: GameOutcome)
        ensures
            match game_request(strings(args.args@), args.rest@) {
                GameRequest::Clear => outcome == (GameOutcome::Send {
                    activity: None,
                    status: self.last_status,
                }),
                GameRequest::Show { kind, name } => outcome matches GameOutcome::Send {
                    activity: Some(shown),
                    status,
                } && shown.kind == kind && shown.name@ == name && status == self.last_status,
                GameRequest::UnknownType { word } => outcome matches GameOutcome::UnknownType {
                    message,
                } && message@ == "Unknown activity type \""@ + word + "\""@,
            },
    {
        if args.args.len() == 0 {
            return GameOutcome::Send { activity: None, status: self.last_status };
        }
        assert(strings(args.args@)[0] == args.args@[0]@);
        let word = chars_of(args.args[0].as_str());
        if args.args.len() == 1 {
            return GameOutcome::Send {
                activity: Some(Activity { kind: ActivityKind::Playing, name: string_of(&word) }),
                status: self.last_status,
            };
        }
        let kind = if is_text(&word, "playing") || is_text(&word, "play") {
            ActivityKind::Playing
        } else if is_text(&word, "listening") {
            ActivityKind::Listening
        } else if is_text(&word, "watching") || is_text(&word, "watch") {
            ActivityKind::Watching
        } else {
            let mut out: Vec<char> = Vec::new();
            push_str(&mut out, "Unknown activity type \"");
            push_all(&mut out, &word);
            push_str(&mut out, "\"");
            assert(out@ =~= "Unknown activity type \""@ + word@ + "\""@);
            return GameOutcome::UnknownType { message: string_of(&out) };
        };
        let rest = chars_of(args.rest.as_str());
        let name = if word.len() < rest.len() {
            let text = slice_chars(&rest, word.len() + 1, rest.len());
            assert(text@ =~= rest@.skip(word.len() + 1));
            text
        } else {
            Vec::new()
        };
        GameOutcome::Send {
            activity: Some(Activity { kind, name: string_of(&name) }),
            status: self.last_status,
        }
    }
}

} // verus!

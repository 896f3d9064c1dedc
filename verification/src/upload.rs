//! Uploading a file: which file is meant, and what is said of the outcome.

use crate::command::{literal, Args};
use crate::text::{chars_of, push_all, push_str, slice_chars, string_of};
use vstd::prelude::*;

verus! {

/// Whether a path starts in the user's home directory: with `~/`.
pub open spec fn starts_at_home(path: Seq<char>) -> bool {
    path.len() >= 2 && path[0] == '~' && path[1] == '/'
}

/// A path with a leading `~` replaced by the home directory, or by `.` where
/// no home directory is known. Any other path stays as it is.
pub open spec fn expanded_path(path: Seq<char>, home: Option<Seq<char>>) -> Seq<char> {
    if starts_at_home(path) {
        (match home {
            Some(dir) => dir,
            None => "."@,
        }) + "/"@ + path.skip(2)
    } else {
        path
    }
}

/// `dirs::home_dir` gives the current user's home directory, if the system
/// knows one. Nothing is claimed of it: it depends on the user and the
/// system.
#[verifier::external_body]
fn home_dir() -> (home: Option<String>) {
    dirs::home_dir().map(|dir| dir.to_string_lossy().into_owned())
}

/// Replaces a leading `~` in a path by the home directory.
pub fn expand_home(path: &str, home: Option<&str>) -> (full: String)
    ensures
        full@ == expanded_path(
            path@,
            match home {
                Some(dir) => Some(dir@),
                None => None,
            },
        ),
{
    let chars = chars_of(path);
    if chars.len() >= 2 && chars[0] == '~' && chars[1] == '/' {
        let mut out: Vec<char> = Vec::new();
        match home {
            Some(dir) => push_str(&mut out, dir),
            None => push_str(&mut out, "."),
        }
        push_str(&mut out, "/");
        let tail = slice_chars(&chars, 2, chars.len());
        assert(tail@ =~= path@.skip(2));
        push_all(&mut out, &tail);
        string_of(&out)
    } else {
        string_of(&chars)
    }
}

/// The file that an `upload` command names: the text behind the subcommand,
/// with a leading `~` replaced by the home directory that the system gives
/// at this moment. None where the command has no argument.
pub fn upload(args: &Args) -> (file: Option<String>)
    ensures
        match file {
            Some(path) => args.args@.len() > 0 && exists|home: Option<Seq<char>>|
                path@ == #[trigger] expanded_path(args.rest@, home),
            None => args.args@.len() == 0,
        },
        !starts_at_home(args.rest@) ==> (file matches Some(path) ==> path@ == args.rest@),
{
    if args.args.len() == 0 {
        return None;
    }
    let rest = chars_of(args.rest.as_str());
    if rest.len() >= 2 && rest[0] == '~' && rest[1] == '/' {
        let home = home_dir();
        let path = match &home {
            Some(dir) => expand_home(args.rest.as_str(), Some(dir.as_str())),
            None => expand_home(args.rest.as_str(), None),
        };
        proof {
            let witness = match home {
                Some(dir) => Some(dir@),
                None => None,
            };
            assert(path@ == expanded_path(args.rest@, witness));
        }
        Some(path)
    } else {
        let path = string_of(&rest);
        assert(path@ == expanded_path(args.rest@, None));
        Some(path)
    }
}

/// How an upload ended.
#[derive(Clone, Copy, Debug, PartialEq, Eq, Structural)]
pub enum UploadResult {
    /// The file was sent.
    Sent,
    /// The service refused the file for its size.
    TooLarge,
    /// The upload failed for another reason.
    Failed,
}

/// The line that reports an upload. Of a failure for another reason than
/// the file's size, the line gives the reason in the words in which it came.
pub open spec fn upload_words(result: UploadResult, reason: Seq<char>) -> Seq<char> {
    match result {
        UploadResult::Sent => "File uploaded successfully"@,
        UploadResult::TooLarge => "File too large to upload"@,
        UploadResult::Failed => "An error occurred uploading a file: "@ + reason,
    }
}

/// Reports an upload: every outcome has its line. `reason` is what the
/// failure said of itself, and counts only for `Failed`.
pub fn upload_report(result: UploadResult, reason: &str) -> (line: String)
    ensures
        line@ == upload_words(result, reason@),
{
    match result {
        UploadResult::Sent => literal("File uploaded successfully"),
        UploadResult::TooLarge => literal("File too large to upload"),
        UploadResult::Failed => {
            let mut out: Vec<char> = Vec::new();
            push_str(&mut out, "An error occurred uploading a file: ");
            push_str(&mut out, reason);
            string_of(&out)
        },
    }
}

/// The line that says that an `upload` command named no file.
pub fn upload_usage() -> (line: String)
    ensures
        line@ == "upload requires an argument"@,
{
    literal("upload requires an argument")
}

/// The line that says that the file's path could not be resolved, with the
/// system's words for why.
pub fn unresolved_path_report(error: &str) -> (line: String)
    ensures
        line@ == "Unable to resolve file path: "@ + error@,
{
    let mut out: Vec<char> = Vec::new();
    push_str(&mut out, "Unable to resolve file path: ");
    push_str(&mut out, error);
    string_of(&out)
}

} // verus!

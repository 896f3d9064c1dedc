//! Editing and deleting one's own messages by a line typed into the buffer.
//!
//! `<N>` asks to delete the sender's Nth most recent message in the channel;
//! `<N> s/<old>/<new>` asks to replace `old` by `new` in it, once, and
//! `<N> s/<old>/<new>/<flags>` does so everywhere where the flags hold `g`.

use crate::model::{Message, UserId};
use crate::text::{
    chars_of, find_char, first_index, join, join_chars, lemma_first_index, parse_decimal,
    parse_decimal_range, replace_all, replace_all_chars, replace_first, replace_first_chars,
    slice_chars, split, split_chars, string_of, texts,
};
use vstd::prelude::*;

verus! {

/// The number of recent messages of a channel that are looked through.
pub const HISTORY_LIMIT: usize = 50;

/// What a line asks to do to one of the sender's messages.
#[derive(Clone, Debug, PartialEq, Eq)]
pub enum LineEdit {
    /// Delete the message.
    Delete { line: usize },
    /// Replace `old` by `new` in the message.
    Sub { line: usize, old: String, new: String, options: Option<String> },
}

/// The mathematical value of a [`LineEdit`].
pub enum LineEditView {
    Delete { line: nat },
    Sub { line: nat, old: Seq<char>, new: Seq<char>, options: Option<Seq<char>> },
}

impl View for LineEdit {
    type V = LineEditView;

    open spec fn view(&self) -> LineEditView {
        match *self {
            LineEdit::Delete { line } => LineEditView::Delete { line: line as nat },
            LineEdit::Sub { line, old, new, options } => LineEditView::Sub {
                line: line as nat,
                old: old@,
                new: new@,
                options: match options {
                    Some(flags) => Some(flags@),
                    None => None,
                },
            },
        }
    }
}

/// The number of a message, counted back from the newest: decimal digits
/// that denote a number from one on that the machine can count to.
pub open spec fn line_number(s: Seq<char>) -> Option<nat> {
    match parse_decimal(s) {
        Some(n) => if 1 <= n <= usize::MAX {
            Some(n as nat)
        } else {
            None
        },
        None => None,
    }
}

/// The substitution that `cmd` writes out for message `line`: `s/`, the old
/// text, `/`, the new text and, behind one more `/`, the flags. Neither text
/// can hold a `/`.
pub open spec fn substitution(line: nat, cmd: Seq<char>) -> Option<LineEditView> {
    if cmd.len() >= 2 && cmd[0] == 's' && cmd[1] == '/' {
        let parts = split(cmd.skip(2), '/');
        if parts.len() < 2 {
            None
        } else {
            Some(
                LineEditView::Sub {
                    line,
                    old: parts[0],
                    new: parts[1],
                    options: if parts.len() == 2 {
                        None
                    } else {
                        Some(join(parts.skip(2), '/'))
                    },
                },
            )
        }
    } else {
        None
    }
}

/// What a line asks for, where it is an edit: a number alone deletes; a
/// number, one space and a substitution substitutes.
pub open spec fn line_edit(input: Seq<char>) -> Option<LineEditView> {
    match first_index(input, ' ') {
        None => match line_number(input) {
            Some(line) => Some(LineEditView::Delete { line }),
            None => None,
        },
        Some(i) => match line_number(input.take(i)) {
            Some(line) => substitution(line, input.skip(i + 1)),
            None => None,
        },
    }
}

/// Reads `s[from..to]` as the number of a message.
fn parse_line_number(s: &Vec<char>, from: usize, to: usize) -> (line: Option<usize>)
    requires
        from <= to <= s.len(),
    ensures
        match line {
            Some(n) => line_number(s@.subrange(from as int, to as int)) == Some(n as nat),
            None => line_number(s@.subrange(from as int, to as int)) is None,
        },
{
    match parse_decimal_range(s, from, to) {
        Some(n) => {
            if n >= 1 && n <= usize::MAX as u64 {
                Some(n as usize)
            } else {
                None
            }
        },
        None => None,
    }
}

/// Reads a line as an edit: `None` where it is none, and so is to be sent as
/// it stands.
pub fn parse_line_edit(input: &str) -> (edit: Option<LineEdit>)
    ensures
        match edit {
            Some(found) => line_edit(input@) == Some(found@),
            None => line_edit(input@) is None,
        },
{
    let text = chars_of(input);
    let n = text.len();
    proof {
        lemma_first_index(text@, ' ');
    }
    let space = match find_char(&text, ' ') {
        Some(i) => i,
        None => {
            assert(text@.subrange(0, n as int) =~= text@);
            return match parse_line_number(&text, 0, n) {
                Some(line) => Some(LineEdit::Delete { line }),
                None => None,
            };
        },
    };
    assert(text@.subrange(0, space as int) =~= text@.take(space as int));
    let line = match parse_line_number(&text, 0, space) {
        Some(line) => line,
        None => {
            return None;
        },
    };
    let cmd = slice_chars(&text, space + 1, n);
    assert(cmd@ =~= text@.skip(space + 1));
    if !(cmd.len() >= 2 && cmd[0] == 's' && cmd[1] == '/') {
        return None;
    }
    let body = slice_chars(&cmd, 2, cmd.len());
    assert(body@ =~= cmd@.skip(2));
    let parts = split_chars(&body, '/');
    if parts.len() < 2 {
        return None;
    }
    assert(texts(parts@)[0] == parts@[0]@);
    assert(texts(parts@)[1] == parts@[1]@);
    let options = if parts.len() == 2 {
        None
    } else {
        let mut flags: Vec<Vec<char>> = Vec::new();
        let mut k: usize = 2;
        assert(texts(flags@) =~= texts(parts@).subrange(2, 2));
        while k < parts.len()
            invariant
                2 <= k <= parts.len(),
                texts(flags@) == texts(parts@).subrange(2, k as int),
            decreases parts.len() - k,
        {
            let ghost before = texts(flags@);
            flags.push(parts[k].clone());
            assert(texts(flags@) =~= before.push(parts@[k as int]@));
            assert(texts(parts@).subrange(2, k + 1) =~= texts(parts@).subrange(2, k as int).push(
                parts@[k as int]@,
            ));
            k = k + 1;
        }
        assert(texts(parts@).subrange(2, parts.len() as int) =~= texts(parts@).skip(2));
        let joined = join_chars(&flags, '/');
        Some(string_of(&joined))
    };
    Some(LineEdit::Sub { line, old: string_of(&parts[0]), new: string_of(&parts[1]), options })
}

/// Whether the flags of a substitution ask for every occurrence.
pub open spec fn is_global(options: Option<Seq<char>>) -> bool {
    match options {
        Some(flags) => first_index(flags, 'g') is Some,
        None => false,
    }
}

/// The content of a message after a substitution: every occurrence of `old`
/// replaced where the flags hold `g`, else the first alone.
pub open spec fn substituted(
    content: Seq<char>,
    old: Seq<char>,
    new: Seq<char>,
    options: Option<Seq<char>>,
) -> Seq<char> {
    if is_global(options) {
        replace_all(content, old, new)
    } else {
        replace_first(content, old, new)
    }
}

/// The content that a message gets by a substitution.
pub fn substitute(content: &str, old: &str, new: &str, options: Option<&str>) -> (edited: String)
    ensures
        edited@ == substituted(
            content@,
            old@,
            new@,
            match options {
                Some(flags) => Some(flags@),
                None => None,
            },
        ),
{
    let text = chars_of(content);
    let from = chars_of(old);
    let to = chars_of(new);
    let global = match options {
        Some(flags) => {
            let chars = chars_of(flags);
            find_char(&chars, 'g').is_some()
        },
        None => false,
    };
    let edited = if global {
        replace_all_chars(&text, &from, &to)
    } else {
        replace_first_chars(&text, &from, &to)
    };
    string_of(&edited)
}

/// Why one of the sender's messages could not be had.
#[derive(Clone, Copy, Debug, PartialEq, Eq, Structural)]
pub enum FetchError {
    /// The message lies further back than is ever looked: `requested` is
    /// more than the 50 messages that are fetched.
    ExceededLimit { requested: usize },
    /// The sender has not that many messages among those fetched.
    ItemMissing,
}

/// The messages of `user` among `messages`, in their order.
pub open spec fn own_messages(messages: Seq<Message>, user: UserId) -> Seq<Message>
    decreases messages.len(),
{
    if messages.len() == 0 {
        Seq::empty()
    } else if messages.last().author == user {
        own_messages(messages.drop_last(), user).push(messages.last())
    } else {
        own_messages(messages.drop_last(), user)
    }
}

/// The messages that are looked through: the first 50, the newest first.
pub open spec fn recent(messages: Seq<Message>) -> Seq<Message> {
    if messages.len() <= 50 {
        messages
    } else {
        messages.take(50)
    }
}

/// The sender's Nth most recent message, or why there is none.
pub open spec fn nth_own_message(messages: Seq<Message>, user: UserId, n: nat) -> Result<
    Message,
    FetchError,
> {
    if n > 50 {
        Err(FetchError::ExceededLimit { requested: n as usize })
    } else if 1 <= n <= own_messages(recent(messages), user).len() {
        Ok(own_messages(recent(messages), user)[n - 1])
    } else {
        Err(FetchError::ItemMissing)
    }
}

/// Finds the sender's Nth most recent message among the messages of a
/// channel, which come newest first. No more than 50 messages are looked
/// through, and to ask for a message beyond the 50th fails, whatever the
/// messages are. There is no message before the first.
pub fn get_users_nth_message<'a>(messages: &'a Vec<Message>, user: UserId, n: usize) -> (found:
    Result<&'a Message, FetchError>)
    ensures
        match nth_own_message(messages@, user, n as nat) {
            Ok(message) => found == Ok::<&Message, FetchError>(&message),
            Err(error) => found == Err::<&Message, FetchError>(error),
        },
        n > 50 <==> found == Err::<&Message, FetchError>(
            FetchError::ExceededLimit { requested: n },
        ),
{
    if n > HISTORY_LIMIT {
        return Err(FetchError::ExceededLimit { requested: n });
    }
    let end = if messages.len() <= HISTORY_LIMIT {
        messages.len()
    } else {
        HISTORY_LIMIT
    };
    let ghost looked = recent(messages@);
    assert(looked =~= messages@.take(end as int));
    let mut seen: usize = 0;
    let mut i: usize = 0;
    assert(looked.take(0) =~= Seq::<Message>::empty());
    while i < end
        invariant
            i <= end <= messages.len(),
            end <= 50,
            looked == messages@.take(end as int),
            looked == recent(messages@),
            seen == own_messages(looked.take(i as int), user).len(),
            seen <= i,
            seen < n || n == 0,
            n <= 50,
        decreases end - i,
    {
        assert(looked.take(i + 1).drop_last() =~= looked.take(i as int));
        assert(looked.take(i + 1).last() == messages@[i as int]);
        if messages[i].author.0 == user.0 {
            seen = seen + 1;
            if seen == n {
                proof {
                    lemma_own_prefix(looked, user, i + 1);
                    let own = own_messages(looked.take(i + 1), user);
                    assert(own.len() == n);
                    assert(own[n - 1] == messages@[i as int]);
                    assert(own_messages(looked, user).take(n as int)[n - 1] == own[n - 1]);
                }
                return Ok(&messages[i]);
            }
        }
        i = i + 1;
    }
    assert(looked.take(end as int) =~= looked);
    Err(FetchError::ItemMissing)
}

/// The sender's messages among the first of a list are the first of the
/// sender's messages in the list.
pub proof fn lemma_own_prefix(messages: Seq<Message>, user: UserId, k: int)
    requires
        0 <= k <= messages.len(),
    ensures
        own_messages(messages.take(k), user).len() <= own_messages(messages, user).len(),
        own_messages(messages.take(k), user) == own_messages(messages, user).take(
            own_messages(messages.take(k), user).len() as int,
        ),
    decreases messages.len() - k,
{
    if k == messages.len() {
        assert(messages.take(k) =~= messages);
        assert(own_messages(messages, user).take(own_messages(messages, user).len() as int)
            =~= own_messages(messages, user));
    } else {
        let head = messages.drop_last();
        lemma_own_prefix(head, user, k);
        assert(head.take(k) =~= messages.take(k));
        let some = own_messages(messages.take(k), user);
        if messages.last().author == user {
            assert(own_messages(head, user).push(messages.last()).take(some.len() as int)
                =~= own_messages(head, user).take(some.len() as int));
        }
    }
}

} // verus!

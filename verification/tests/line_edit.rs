use weechat_discord::line_edit::{
    get_users_nth_message, parse_line_edit, substitute, FetchError, LineEdit,
};
use weechat_discord::model::{Message, MessageId, UserId};

fn edit_message(id: u64, author: u64, content: &str) -> Message {
    Message { id: MessageId(id), author: UserId(author), content: content.to_string() }
}

fn edit_history(n: u64) -> Vec<Message> {
    (0..n).map(|i| edit_message(1000 - i, if i % 2 == 0 { 7 } else { 8 }, "text")).collect()
}

fn edit_sub(line: usize, old: &str, new: &str, options: Option<&str>) -> Option<LineEdit> {
    Some(LineEdit::Sub {
        line,
        old: old.to_string(),
        new: new.to_string(),
        options: options.map(|o| o.to_string()),
    })
}

#[test]
fn a_number_alone_deletes() {
    assert_eq!(parse_line_edit("1"), Some(LineEdit::Delete { line: 1 }));
    assert_eq!(parse_line_edit("17"), Some(LineEdit::Delete { line: 17 }));
    assert_eq!(parse_line_edit("007"), Some(LineEdit::Delete { line: 7 }));
}

#[test]
fn a_number_and_a_substitution_substitute() {
    assert_eq!(parse_line_edit("1 s/foo/bar/"), edit_sub(1, "foo", "bar", Some("")));
    assert_eq!(parse_line_edit("1 s/foo/bar"), edit_sub(1, "foo", "bar", None));
    assert_eq!(parse_line_edit("3 s/foo/bar/g"), edit_sub(3, "foo", "bar", Some("g")));
    assert_eq!(parse_line_edit("2 s/a b/c d/gi"), edit_sub(2, "a b", "c d", Some("gi")));
    assert_eq!(parse_line_edit("2 s//x/"), edit_sub(2, "", "x", Some("")));
    assert_eq!(parse_line_edit("2 s/x//"), edit_sub(2, "x", "", Some("")));
    assert_eq!(parse_line_edit("2 s/a/b/c/d"), edit_sub(2, "a", "b", Some("c/d")));
}

#[test]
fn other_lines_are_no_edits() {
    for line in [
        "", "hello", "0", "0 s/a/b/", "-1", "+1", "1 ", " 1", "1  s/a/b/", "1s/a/b/", "1 s/a",
        "1 s", "1 x/a/b/", "1 S/a/b/", "s/a/b/", "12 monkeys", "1.5",
        "99999999999999999999999",
    ] {
        assert_eq!(parse_line_edit(line), None, "{:?}", line);
    }
}

#[test]
fn substitute_replaces_the_first_occurrence() {
    assert_eq!(substitute("foo foo", "foo", "bar", None), "bar foo");
    assert_eq!(substitute("foo foo", "foo", "bar", Some("")), "bar foo");
    assert_eq!(substitute("foo foo", "foo", "bar", Some("i")), "bar foo");
}

#[test]
fn substitute_with_g_replaces_every_occurrence() {
    assert_eq!(substitute("foo foo", "foo", "bar", Some("g")), "bar bar");
    assert_eq!(substitute("foo foo", "foo", "bar", Some("ig")), "bar bar");
}

#[test]
fn line_edit_end_to_end() {
    let messages = vec![edit_message(5, 8, "other"), edit_message(4, 7, "foo foo")];
    let once = match parse_line_edit("1 s/foo/bar/") {
        Some(LineEdit::Sub { line, old, new, options }) => {
            let message = get_users_nth_message(&messages, UserId(7), line).unwrap();
            substitute(&message.content, &old, &new, options.as_deref())
        }
        other => panic!("{:?}", other),
    };
    assert_eq!(once, "bar foo");
    let all = match parse_line_edit("1 s/foo/bar/g") {
        Some(LineEdit::Sub { line, old, new, options }) => {
            let message = get_users_nth_message(&messages, UserId(7), line).unwrap();
            substitute(&message.content, &old, &new, options.as_deref())
        }
        other => panic!("{:?}", other),
    };
    assert_eq!(all, "bar bar");
}

#[test]
fn nth_message_counts_the_senders_own() {
    let messages = edit_history(10);
    assert_eq!(get_users_nth_message(&messages, UserId(7), 1).map(|m| m.id), Ok(MessageId(1000)));
    assert_eq!(get_users_nth_message(&messages, UserId(7), 2).map(|m| m.id), Ok(MessageId(998)));
    assert_eq!(get_users_nth_message(&messages, UserId(8), 1).map(|m| m.id), Ok(MessageId(999)));
    assert_eq!(get_users_nth_message(&messages, UserId(8), 5).map(|m| m.id), Ok(MessageId(991)));
}

#[test]
fn nth_message_is_missing() {
    let messages = edit_history(10);
    assert_eq!(get_users_nth_message(&messages, UserId(8), 6), Err(FetchError::ItemMissing));
    assert_eq!(get_users_nth_message(&messages, UserId(9), 1), Err(FetchError::ItemMissing));
    assert_eq!(get_users_nth_message(&messages, UserId(7), 0), Err(FetchError::ItemMissing));
    assert_eq!(get_users_nth_message(&Vec::new(), UserId(7), 1), Err(FetchError::ItemMissing));
}

#[test]
fn the_fifty_first_message_exceeds_the_range() {
    let own: Vec<Message> = (0..60).map(|i| edit_message(1000 - i, 7, "mine")).collect();
    assert_eq!(get_users_nth_message(&own, UserId(7), 50).map(|m| m.id), Ok(MessageId(951)));
    assert_eq!(
        get_users_nth_message(&own, UserId(7), 51),
        Err(FetchError::ExceededLimit { requested: 51 })
    );
    assert_eq!(
        get_users_nth_message(&Vec::new(), UserId(7), 51),
        Err(FetchError::ExceededLimit { requested: 51 })
    );
    assert_eq!(
        get_users_nth_message(&own, UserId(7), usize::MAX),
        Err(FetchError::ExceededLimit { requested: usize::MAX })
    );
}

#[test]
fn only_fifty_messages_are_looked_through() {
    let messages = edit_history(120);
    assert_eq!(get_users_nth_message(&messages, UserId(7), 25).map(|m| m.id), Ok(MessageId(952)));
    assert_eq!(get_users_nth_message(&messages, UserId(7), 26), Err(FetchError::ItemMissing));
    assert_eq!(get_users_nth_message(&messages, UserId(8), 25).map(|m| m.id), Ok(MessageId(951)));
    assert_eq!(get_users_nth_message(&messages, UserId(8), 50), Err(FetchError::ItemMissing));
}

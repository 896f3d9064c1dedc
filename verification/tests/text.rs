use weechat_discord::text::{
    chars_of, contains_chars, find_char, join_chars, lowercase_chars, parse_decimal_range,
    push_decimal, replace_all_chars, replace_first_chars, split_chars, string_of,
    strip_both_chars, trim_chars, trim_flagged, without_spaces_chars,
};

fn text_chars(s: &str) -> Vec<char> {
    s.chars().collect()
}

fn text_string(v: &Vec<char>) -> String {
    v.iter().collect()
}

#[test]
fn chars_and_strings_convert_both_ways() {
    assert_eq!(chars_of("héllo"), vec!['h', 'é', 'l', 'l', 'o']);
    assert_eq!(string_of(&vec!['a', 'ß', 'c']), "aßc");
    assert_eq!(string_of(&chars_of("")), "");
}

#[test]
fn decimal_text_of_numbers() {
    let mut out = Vec::new();
    push_decimal(&mut out, 0);
    assert_eq!(text_string(&out), "0");
    let mut out = text_chars("x");
    push_decimal(&mut out, 1203);
    assert_eq!(text_string(&out), "x1203");
    let mut out = Vec::new();
    push_decimal(&mut out, u64::MAX);
    assert_eq!(text_string(&out), "18446744073709551615");
}

#[test]
fn decimal_text_is_read_back() {
    let s = text_chars("ab0123cd");
    assert_eq!(parse_decimal_range(&s, 2, 6), Some(123));
    assert_eq!(parse_decimal_range(&s, 2, 2), None);
    assert_eq!(parse_decimal_range(&s, 1, 6), None);
    let s = text_chars("18446744073709551615");
    assert_eq!(parse_decimal_range(&s, 0, s.len()), Some(u64::MAX));
    let s = text_chars("18446744073709551616");
    assert_eq!(parse_decimal_range(&s, 0, s.len()), None);
    let s = text_chars("99999999999999999999999");
    assert_eq!(parse_decimal_range(&s, 0, s.len()), None);
    let s = text_chars("+5");
    assert_eq!(parse_decimal_range(&s, 0, s.len()), None);
    let s = text_chars("٣٤");
    assert_eq!(parse_decimal_range(&s, 0, s.len()), None);
}

#[test]
fn first_place_of_a_character() {
    assert_eq!(find_char(&text_chars("abcabc"), 'c'), Some(2));
    assert_eq!(find_char(&text_chars("abcabc"), 'x'), None);
    assert_eq!(find_char(&text_chars(""), 'a'), None);
}

#[test]
fn split_gives_one_part_more_than_separators() {
    let parts = split_chars(&text_chars("a,b,,c,"), ',');
    let parts: Vec<String> = parts.iter().map(text_string).collect();
    assert_eq!(parts, vec!["a", "b", "", "c", ""]);
    let parts = split_chars(&text_chars(""), ',');
    assert_eq!(parts, vec![Vec::<char>::new()]);
    let parts = split_chars(&text_chars("abc"), ',');
    assert_eq!(parts, vec![text_chars("abc")]);
}

#[test]
fn join_puts_separators_between_parts() {
    let parts = vec![text_chars("a"), text_chars(""), text_chars("bc")];
    assert_eq!(text_string(&join_chars(&parts, ',')), "a,,bc");
    assert_eq!(text_string(&join_chars(&Vec::new(), ',')), "");
    assert_eq!(text_string(&join_chars(&vec![text_chars("x")], ',')), "x");
}

#[test]
fn join_undoes_split() {
    for s in ["", ",", "a,b", ",a,,b,", "no separator"] {
        let parts = split_chars(&text_chars(s), ',');
        assert_eq!(text_string(&join_chars(&parts, ',')), s);
    }
}

#[test]
fn trim_takes_whitespace_from_both_ends() {
    assert_eq!(text_string(&trim_chars(&text_chars("  a b \t\n"))), "a b");
    assert_eq!(text_string(&trim_chars(&text_chars("\u{3000}x\u{a0}"))), "x");
    assert_eq!(text_string(&trim_chars(&text_chars("   "))), "");
    assert_eq!(text_string(&trim_chars(&text_chars(""))), "");
    assert_eq!(text_string(&trim_chars(&text_chars("abc"))), "abc");
}

#[test]
fn strip_takes_one_character_from_both_ends() {
    assert_eq!(text_string(&strip_both_chars(&text_chars("\"\"a\"b\""), '"')), "a\"b");
    assert_eq!(text_string(&strip_both_chars(&text_chars("\"\"\""), '"')), "");
    assert_eq!(text_string(&strip_both_chars(&text_chars("abc"), '"')), "abc");
}

#[test]
fn spaces_are_taken_out() {
    assert_eq!(text_string(&without_spaces_chars(&text_chars(" my  guild "))), "myguild");
    assert_eq!(text_string(&without_spaces_chars(&text_chars("a\tb"))), "a\tb");
}

#[test]
fn lower_case_follows_unicode() {
    assert_eq!(text_string(&lowercase_chars(&text_chars("MyGuild ÄÖ"))), "myguild äö");
    assert_eq!(text_string(&lowercase_chars(&text_chars("İ"))), "i\u{307}");
}

#[test]
fn contains_finds_a_text_within_another() {
    assert!(contains_chars(&text_chars("hello world"), &text_chars("o w")));
    assert!(contains_chars(&text_chars("hello"), &text_chars("")));
    assert!(contains_chars(&text_chars(""), &text_chars("")));
    assert!(contains_chars(&text_chars("hello"), &text_chars("hello")));
    assert!(!contains_chars(&text_chars("hello"), &text_chars("hello!")));
    assert!(!contains_chars(&text_chars("hello"), &text_chars("lo ")));
}

#[test]
fn replace_all_replaces_every_occurrence() {
    let r = replace_all_chars(&text_chars("foo foo"), &text_chars("foo"), &text_chars("bar"));
    assert_eq!(text_string(&r), "bar bar");
    let r = replace_all_chars(&text_chars("aaaa"), &text_chars("aa"), &text_chars("b"));
    assert_eq!(text_string(&r), "bb");
    let r = replace_all_chars(&text_chars("aaa"), &text_chars("aa"), &text_chars("b"));
    assert_eq!(text_string(&r), "ba");
    let r = replace_all_chars(&text_chars("abc"), &text_chars(""), &text_chars("-"));
    assert_eq!(text_string(&r), "-a-b-c-");
    let r = replace_all_chars(&text_chars(""), &text_chars(""), &text_chars("-"));
    assert_eq!(text_string(&r), "-");
    let r = replace_all_chars(&text_chars("abc"), &text_chars("x"), &text_chars("y"));
    assert_eq!(text_string(&r), "abc");
    let r = replace_all_chars(&text_chars("abc"), &text_chars("abcd"), &text_chars("y"));
    assert_eq!(text_string(&r), "abc");
}

#[test]
fn replace_all_agrees_with_std() {
    let cases = [
        ("foo foo", "foo", "bar"),
        ("aaaa", "aa", "a"),
        ("abcabc", "bc", ""),
        ("abc", "", "xy"),
        ("", "", ""),
        ("", "a", "b"),
        ("#general ping #general", "#general", "<#20>"),
    ];
    for (s, from, to) in cases {
        let r = replace_all_chars(&text_chars(s), &text_chars(from), &text_chars(to));
        assert_eq!(text_string(&r), s.replace(from, to));
    }
}

#[test]
fn replace_first_replaces_one_occurrence() {
    let r = replace_first_chars(&text_chars("foo foo"), &text_chars("foo"), &text_chars("bar"));
    assert_eq!(text_string(&r), "bar foo");
    let r = replace_first_chars(&text_chars("xfoo"), &text_chars("foo"), &text_chars(""));
    assert_eq!(text_string(&r), "x");
    let r = replace_first_chars(&text_chars("abc"), &text_chars(""), &text_chars("-"));
    assert_eq!(text_string(&r), "-abc");
    let r = replace_first_chars(&text_chars(""), &text_chars(""), &text_chars("-"));
    assert_eq!(text_string(&r), "-");
    let r = replace_first_chars(&text_chars("abc"), &text_chars("x"), &text_chars("y"));
    assert_eq!(text_string(&r), "abc");
}

#[test]
fn replace_first_agrees_with_std() {
    let cases = [("foo foo", "foo", "bar"), ("abc", "", "x"), ("", "", "x"), ("aXbX", "X", "--")];
    for (s, from, to) in cases {
        let r = replace_first_chars(&text_chars(s), &text_chars(from), &text_chars(to));
        assert_eq!(text_string(&r), s.replacen(from, to, 1));
    }
}

#[test]
fn trim_by_flags_takes_the_flagged_ends() {
    let s = text_chars("abcdef");
    let flags = vec![true, true, false, true, false, true];
    assert_eq!(text_string(&trim_flagged(&s, &flags)), "cde");
    assert_eq!(text_string(&trim_flagged(&s, &vec![false; 6])), "abcdef");
    assert_eq!(text_string(&trim_flagged(&s, &vec![true; 6])), "");
    assert_eq!(text_string(&trim_flagged(&Vec::new(), &Vec::new())), "");
    let flags = vec![false, true, true, true, true, true];
    assert_eq!(text_string(&trim_flagged(&s, &flags)), "a");
}

fn text_samples() -> Vec<String> {
    let alphabet = ['a', 'b', ',', ' ', '\t', 'é', '"', 'A'];
    let mut state: u64 = 0x2545_f491_4f6c_dd1d;
    let mut samples = Vec::new();
    for round in 0..400 {
        let mut s = String::new();
        let len = round % 9;
        for _ in 0..len {
            state = state.wrapping_mul(6364136223846793005).wrapping_add(1442695040888963407);
            s.push(alphabet[((state >> 33) % alphabet.len() as u64) as usize]);
        }
        samples.push(s);
    }
    samples
}

#[test]
fn split_agrees_with_std_on_many_texts() {
    for s in text_samples() {
        let expected: Vec<String> = s.split(',').map(String::from).collect();
        let found: Vec<String> = split_chars(&text_chars(&s), ',').iter().map(text_string).collect();
        assert_eq!(found, expected, "{:?}", s);
    }
}

#[test]
fn trim_agrees_with_std_on_many_texts() {
    for s in text_samples() {
        assert_eq!(text_string(&trim_chars(&text_chars(&s))), s.trim(), "{:?}", s);
        assert_eq!(
            text_string(&strip_both_chars(&text_chars(&s), '"')),
            s.trim_matches('"'),
            "{:?}",
            s
        );
    }
}

#[test]
fn replace_agrees_with_std_on_many_texts() {
    let samples = text_samples();
    for (i, s) in samples.iter().enumerate() {
        let from = &samples[(i * 7 + 3) % samples.len()];
        let from: String = from.chars().take(2).collect();
        let to = &samples[(i * 5 + 1) % samples.len()];
        let all = replace_all_chars(&text_chars(s), &text_chars(&from), &text_chars(to));
        assert_eq!(text_string(&all), s.replace(from.as_str(), to), "{:?} {:?}", s, from);
        let first = replace_first_chars(&text_chars(s), &text_chars(&from), &text_chars(to));
        assert_eq!(text_string(&first), s.replacen(from.as_str(), to, 1), "{:?} {:?}", s, from);
        assert_eq!(
            contains_chars(&text_chars(s), &text_chars(&from)),
            s.contains(from.as_str()),
            "{:?} {:?}",
            s,
            from
        );
    }
}

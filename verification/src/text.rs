//! Character sequences: strings as `Seq<char>`, their decimal numbers, and the
//! few operations on them that the rest of the library is stated in.

use vstd::prelude::*;

verus! {

/// `String::push` appends one character to the end of the string.
pub assume_specification[ String::push ](s: &mut String, c: char)
    ensures
        final(s)@ == old(s)@.push(c),
;

/// The characters of `s`, in order.
pub fn chars_of(s: &str) -> (v: Vec<char>)
    ensures
        v@ == s@,
{
    broadcast use vstd::string::group_string_axioms;

    let mut v: Vec<char> = Vec::new();
    for c in it: s.chars()
        invariant
            it.seq() == s@,
            v@ == s@.take(it.index()),
    {
        v.push(c);
    }
    v
}

/// The string made of the characters of `v`, in order.
pub fn string_of(v: &Vec<char>) -> (s: String)
    ensures
        s@ == v@,
{
    let mut s = String::new();
    let mut i: usize = 0;
    while i < v.len()
        invariant
            i <= v.len(),
            s@ == v@.take(i as int),
        decreases v.len() - i,
    {
        s.push(v[i]);
        i = i + 1;
    }
    s
}

/// Appends the characters of `tail` to `out`.
pub fn push_all(out: &mut Vec<char>, tail: &Vec<char>)
    ensures
        final(out)@ == old(out)@ + tail@,
{
    let mut i: usize = 0;
    while i < tail.len()
        invariant
            i <= tail.len(),
            out@ == old(out)@ + tail@.take(i as int),
        decreases tail.len() - i,
    {
        out.push(tail[i]);
        i = i + 1;
    }
}

/// Whether two character vectors hold the same characters.
pub fn same_chars(a: &Vec<char>, b: &Vec<char>) -> (r: bool)
    ensures
        r == (a@ == b@),
{
    if a.len() != b.len() {
        return false;
    }
    let mut i: usize = 0;
    while i < a.len()
        invariant
            i <= a.len(),
            a.len() == b.len(),
            a@.take(i as int) == b@.take(i as int),
        decreases a.len() - i,
    {
        if a[i] != b[i] {
            return false;
        }
        assert(a@.take(i + 1) == a@.take(i as int).push(a@[i as int]));
        assert(b@.take(i + 1) == b@.take(i as int).push(b@[i as int]));
        i = i + 1;
    }
    assert(a@ == a@.take(a.len() as int));
    assert(b@ == b@.take(b.len() as int));
    true
}

// ---------------------------------------------------------------------------
// Searching
// ---------------------------------------------------------------------------

/// The place of the first `c` in `s`.
pub open spec fn first_index(s: Seq<char>, c: char) -> Option<int>
    decreases s.len(),
{
    if s.len() == 0 {
        None
    } else if s[0] == c {
        Some(0)
    } else {
        match first_index(s.skip(1), c) {
            Some(i) => Some(i + 1),
            None => None,
        }
    }
}

/// `first_index` is the least index that holds `c`, and `None` exactly when
/// `c` does not occur.
pub proof fn lemma_first_index(s: Seq<char>, c: char)
    ensures
        match first_index(s, c) {
            Some(i) => 0 <= i < s.len() && s[i] == c && forall|j: int| 0 <= j < i ==> s[j] != c,
            None => forall|j: int| 0 <= j < s.len() ==> s[j] != c,
        },
    decreases s.len(),
{
    if s.len() > 0 && s[0] != c {
        lemma_first_index(s.skip(1), c);
        match first_index(s.skip(1), c) {
            Some(i) => {
                assert forall|j: int| 0 <= j < i + 1 implies s[j] != c by {
                    if j > 0 {
                        assert(s.skip(1)[j - 1] == s[j]);
                    }
                }
            },
            None => {
                assert forall|j: int| 0 <= j < s.len() implies s[j] != c by {
                    if j > 0 {
                        assert(s.skip(1)[j - 1] == s[j]);
                    }
                }
            },
        }
    }
}

/// The place of the first `c` in `s`.
pub fn find_char(s: &Vec<char>, c: char) -> (r: Option<usize>)
    ensures
        match r {
            Some(i) => first_index(s@, c) == Some(i as int),
            None => first_index(s@, c) is None,
        },
{
    proof {
        lemma_first_index(s@, c);
    }
    let mut i: usize = 0;
    while i < s.len()
        invariant
            i <= s.len(),
            forall|j: int| 0 <= j < i ==> s@[j] != c,
        decreases s.len() - i,
    {
        if s[i] == c {
            proof {
                lemma_first_index(s@, c);
            }
            return Some(i);
        }
        i = i + 1;
    }
    None
}

// ---------------------------------------------------------------------------
// Decimal numbers
// ---------------------------------------------------------------------------

/// Whether `c` is one of the ten ASCII digits.
pub open spec fn is_digit(c: char) -> bool {
    '0' <= c <= '9'
}

/// The digit that stands for `d`, for `d` below ten.
pub open spec fn digit_char(d: nat) -> char {
    ('0' as nat + d) as char
}

/// The number that the ASCII digit `c` stands for.
pub open spec fn digit_value(c: char) -> nat {
    (c as nat - '0' as nat) as nat
}

/// Whether every character of `s` is an ASCII digit.
pub open spec fn all_digits(s: Seq<char>) -> bool {
    forall|i: int| 0 <= i < s.len() ==> is_digit(#[trigger] s[i])
}

/// The decimal text of `n`: no sign, no leading zero, `"0"` for zero.
pub open spec fn decimal(n: nat) -> Seq<char>
    decreases n,
{
    if n < 10 {
        seq![digit_char(n)]
    } else {
        decimal(n / 10).push(digit_char(n % 10))
    }
}

/// The number that a sequence of ASCII digits denotes; leading zeros count for
/// nothing and the empty sequence denotes zero.
pub open spec fn decimal_value(s: Seq<char>) -> nat
    decreases s.len(),
{
    if s.len() == 0 {
        0
    } else {
        decimal_value(s.drop_last()) * 10 + digit_value(s.last())
    }
}

/// What a sequence of characters reads as an id: the number it denotes, where
/// it is one or more ASCII digits and the number fits in 64 bits.
pub open spec fn parse_decimal(s: Seq<char>) -> Option<u64> {
    if s.len() > 0 && all_digits(s) && decimal_value(s) <= u64::MAX {
        Some(decimal_value(s) as u64)
    } else {
        None
    }
}

/// The decimal text of a number is made of digits, and is never empty.
pub proof fn lemma_decimal_digits(n: nat)
    ensures
        decimal(n).len() > 0,
        all_digits(decimal(n)),
    decreases n,
{
    if n >= 10 {
        lemma_decimal_digits(n / 10);
    }
}

/// Reading the decimal text of a number gives the number back.
pub proof fn lemma_decimal_value(n: nat)
    ensures
        decimal_value(decimal(n)) == n,
    decreases n,
{
    if n < 10 {
        assert(decimal(n).drop_last() =~= Seq::<char>::empty());
        assert(decimal_value(decimal(n).drop_last()) == 0);
    } else {
        lemma_decimal_value(n / 10);
        assert(decimal(n).drop_last() =~= decimal(n / 10));
    }
}

/// Every id reads back from its decimal text.
pub proof fn lemma_parse_decimal(n: u64)
    ensures
        parse_decimal(decimal(n as nat)) == Some(n),
{
    lemma_decimal_digits(n as nat);
    lemma_decimal_value(n as nat);
}

/// A prefix of a digit sequence denotes no more than the whole.
pub proof fn lemma_decimal_value_prefix(s: Seq<char>, k: int)
    requires
        0 <= k <= s.len(),
    ensures
        decimal_value(s.take(k)) <= decimal_value(s),
    decreases s.len() - k,
{
    if k < s.len() {
        lemma_decimal_value_prefix(s, k + 1);
        assert(s.take(k + 1).drop_last() =~= s.take(k));
    } else {
        assert(s.take(k) =~= s);
    }
}

fn digit_of(d: u64) -> (c: char)
    requires
        d < 10,
    ensures
        c == digit_char(d as nat),
{
    if d == 0 {
        '0'
    } else if d == 1 {
        '1'
    } else if d == 2 {
        '2'
    } else if d == 3 {
        '3'
    } else if d == 4 {
        '4'
    } else if d == 5 {
        '5'
    } else if d == 6 {
        '6'
    } else if d == 7 {
        '7'
    } else if d == 8 {
        '8'
    } else {
        '9'
    }
}

fn value_of(c: char) -> (d: u64)
    requires
        is_digit(c),
    ensures
        d == digit_value(c),
        d < 10,
{
    if c == '0' {
        0
    } else if c == '1' {
        1
    } else if c == '2' {
        2
    } else if c == '3' {
        3
    } else if c == '4' {
        4
    } else if c == '5' {
        5
    } else if c == '6' {
        6
    } else if c == '7' {
        7
    } else if c == '8' {
        8
    } else {
        9
    }
}

/// Appends the decimal text of `n` to `out`.
pub fn push_decimal(out: &mut Vec<char>, n: u64)
    ensures
        final(out)@ == old(out)@ + decimal(n as nat),
    decreases n,
{
    if n >= 10 {
        push_decimal(out, n / 10);
    }
    out.push(digit_of(n % 10));
    assert(out@ == old(out)@ + decimal(n as nat));
}

/// Whether `c` is an ASCII digit.
pub fn is_digit_char(c: char) -> (r: bool)
    ensures
        r == is_digit(c),
{
    '0' <= c && c <= '9'
}

/// Reads `s[from..to]` as an id.
pub fn parse_decimal_range(s: &Vec<char>, from: usize, to: usize) -> (r: Option<u64>)
    requires
        from <= to <= s.len(),
    ensures
        r == parse_decimal(s@.subrange(from as int, to as int)),
{
    let ghost t = s@.subrange(from as int, to as int);
    if from == to {
        return None;
    }
    let mut acc: u64 = 0;
    let mut i: usize = from;
    while i < to
        invariant
            from <= i <= to <= s.len(),
            t == s@.subrange(from as int, to as int),
            all_digits(t.take(i - from)),
            acc == decimal_value(t.take(i - from)),
        decreases to - i,
    {
        let c = s[i];
        assert(c == t[i - from]);
        let ghost next = t.take(i - from + 1);
        assert(next.drop_last() =~= t.take(i - from));
        assert(next.last() == c);
        if !is_digit_char(c) {
            return None;
        }
        let d = value_of(c);
        proof {
            lemma_decimal_value_prefix(t, i - from + 1);
        }
        if acc > (u64::MAX - d) / 10 {
            assert(decimal_value(next) > u64::MAX);
            return None;
        }
        acc = acc * 10 + d;
        assert forall|j: int| 0 <= j < next.len() implies is_digit(#[trigger] next[j]) by {
            if j < next.len() - 1 {
                assert(next[j] == t.take(i - from)[j]);
            }
        }
        i = i + 1;
    }
    assert(t.take(to - from) =~= t);
    Some(acc)
}

// ---------------------------------------------------------------------------
// Splitting and joining
// ---------------------------------------------------------------------------

/// The views of a vector of character vectors.
pub open spec fn texts(parts: Seq<Vec<char>>) -> Seq<Seq<char>> {
    parts.map_values(|p: Vec<char>| p@)
}

/// The views of a vector of strings.
pub open spec fn strings(parts: Seq<String>) -> Seq<Seq<char>> {
    parts.map_values(|p: String| p@)
}

/// Whether `c` occurs nowhere in `s`.
pub open spec fn free_of(s: Seq<char>, c: char) -> bool {
    forall|i: int| 0 <= i < s.len() ==> s[i] != c
}

/// The parts of `s` between its separators: one more than there are
/// separators in `s`, so the empty text has the one empty part.
pub open spec fn split(s: Seq<char>, sep: char) -> Seq<Seq<char>>
    decreases s.len(),
{
    if s.len() == 0 {
        seq![Seq::empty()]
    } else {
        let head = split(s.drop_last(), sep);
        if s.last() == sep {
            head.push(Seq::empty())
        } else {
            head.drop_last().push(head.last().push(s.last()))
        }
    }
}

/// The parts with one separator between each two neighbours.
pub open spec fn join(parts: Seq<Seq<char>>, sep: char) -> Seq<char>
    decreases parts.len(),
{
    if parts.len() == 0 {
        Seq::empty()
    } else if parts.len() == 1 {
        parts[0]
    } else {
        join(parts.drop_last(), sep).push(sep) + parts.last()
    }
}

/// Splitting gives at least one part, and no part holds the separator.
pub proof fn lemma_split_parts(s: Seq<char>, sep: char)
    ensures
        split(s, sep).len() >= 1,
        forall|i: int| 0 <= i < split(s, sep).len() ==> free_of(#[trigger] split(s, sep)[i], sep),
    decreases s.len(),
{
    if s.len() > 0 {
        lemma_split_parts(s.drop_last(), sep);
        let head = split(s.drop_last(), sep);
        assert forall|i: int| 0 <= i < split(s, sep).len() implies free_of(
            #[trigger] split(s, sep)[i],
            sep,
        ) by {
            if i < head.len() - 1 {
                assert(split(s, sep)[i] == head[i]);
            } else if s.last() != sep {
                assert(free_of(head[head.len() - 1], sep));
            } else if i < head.len() {
                assert(split(s, sep)[i] == head[i]);
            }
        }
    }
}

/// Joining the parts of a text gives the text back.
pub proof fn lemma_join_split(s: Seq<char>, sep: char)
    ensures
        join(split(s, sep), sep) == s,
    decreases s.len(),
{
    if s.len() == 0 {
        assert(join(split(s, sep), sep) =~= s);
    } else {
        lemma_join_split(s.drop_last(), sep);
        lemma_split_parts(s.drop_last(), sep);
        let head = split(s.drop_last(), sep);
        if s.last() == sep {
            let parts = head.push(Seq::empty());
            assert(parts.drop_last() =~= head);
            assert(join(parts, sep) =~= s);
        } else {
            let parts = head.drop_last().push(head.last().push(s.last()));
            if head.len() == 1 {
                assert(join(parts, sep) =~= s);
            } else {
                assert(parts.drop_last() =~= head.drop_last());
                assert(parts.last() == head.last().push(s.last()));
                assert(join(head, sep) == join(head.drop_last(), sep).push(sep) + head.last());
                assert(join(parts, sep) == join(head.drop_last(), sep).push(sep) + parts.last());
                assert(join(parts, sep) =~= join(head, sep).push(s.last()));
                assert(join(parts, sep) =~= s);
            }
        }
    }
}

/// Text that is free of the separator, put behind `a`, lengthens the last
/// part of `a` and adds none.
pub proof fn lemma_split_append(a: Seq<char>, b: Seq<char>, sep: char)
    requires
        free_of(b, sep),
    ensures
        split(a + b, sep) == split(a, sep).drop_last().push(split(a, sep).last() + b),
    decreases b.len(),
{
    lemma_split_parts(a, sep);
    let pa = split(a, sep);
    if b.len() == 0 {
        assert(a + b =~= a);
        assert(pa.last() + b =~= pa.last());
        assert(pa.drop_last().push(pa.last()) =~= pa);
    } else {
        let b0 = b.drop_last();
        assert(free_of(b0, sep)) by {
            assert forall|i: int| 0 <= i < b0.len() implies b0[i] != sep by {
                assert(b0[i] == b[i]);
            }
        }
        lemma_split_append(a, b0, sep);
        assert((a + b).drop_last() =~= a + b0);
        assert((a + b).last() == b.last());
        assert(b[b.len() - 1] != sep);
        let h = split(a + b0, sep);
        assert(h.drop_last() =~= pa.drop_last());
        assert(h.last().push(b.last()) =~= pa.last() + b);
    }
}

/// Splitting the join of parts that are free of the separator gives the
/// parts back, where there is at least one part.
pub proof fn lemma_split_join(parts: Seq<Seq<char>>, sep: char)
    requires
        parts.len() >= 1,
        forall|i: int| 0 <= i < parts.len() ==> free_of(#[trigger] parts[i], sep),
    ensures
        split(join(parts, sep), sep) == parts,
    decreases parts.len(),
{
    if parts.len() == 1 {
        lemma_split_append(Seq::empty(), parts[0], sep);
        assert(Seq::<char>::empty() + parts[0] =~= parts[0]);
        assert(split(Seq::<char>::empty(), sep) =~= seq![Seq::<char>::empty()]);
        assert(split(join(parts, sep), sep) =~= parts);
    } else {
        let head = parts.drop_last();
        assert forall|i: int| 0 <= i < head.len() implies free_of(#[trigger] head[i], sep) by {
            assert(head[i] == parts[i]);
        }
        lemma_split_join(head, sep);
        let j = join(head, sep);
        let js = j.push(sep);
        assert(js.drop_last() =~= j);
        assert(split(js, sep) == head.push(Seq::empty()));
        lemma_split_append(js, parts.last(), sep);
        assert(head.push(Seq::<char>::empty()).drop_last() =~= head);
        assert(Seq::<char>::empty() + parts.last() =~= parts.last());
        assert(split(join(parts, sep), sep) =~= parts);
    }
}

/// The parts of `s` between its separators.
pub fn split_chars(s: &Vec<char>, sep: char) -> (parts: Vec<Vec<char>>)
    ensures
        texts(parts@) == split(s@, sep),
{
    let mut done: Vec<Vec<char>> = Vec::new();
    let mut cur: Vec<char> = Vec::new();
    let mut i: usize = 0;
    assert(s@.take(0) =~= Seq::<char>::empty());
    assert(texts(done@).push(cur@) =~= split(s@.take(0), sep));
    while i < s.len()
        invariant
            i <= s.len(),
            texts(done@).push(cur@) == split(s@.take(i as int), sep),
        decreases s.len() - i,
    {
        let c = s[i];
        let ghost before = texts(done@).push(cur@);
        assert(s@.take(i + 1).drop_last() =~= s@.take(i as int));
        assert(s@.take(i + 1).last() == c);
        if c == sep {
            done.push(cur);
            cur = Vec::new();
            assert(texts(done@) =~= before);
        } else {
            cur.push(c);
            assert(texts(done@).push(cur@) =~= before.drop_last().push(before.last().push(c)));
        }
        i = i + 1;
    }
    assert(s@.take(s.len() as int) =~= s@);
    done.push(cur);
    assert(texts(done@) =~= split(s@, sep));
    done
}

/// The parts with one separator between each two neighbours.
pub fn join_chars(parts: &Vec<Vec<char>>, sep: char) -> (s: Vec<char>)
    ensures
        s@ == join(texts(parts@), sep),
{
    let mut out: Vec<char> = Vec::new();
    let mut i: usize = 0;
    assert(texts(parts@).take(0) =~= Seq::<Seq<char>>::empty());
    while i < parts.len()
        invariant
            i <= parts.len(),
            out@ == join(texts(parts@).take(i as int), sep),
        decreases parts.len() - i,
    {
        let ghost next = texts(parts@).take(i + 1);
        assert(next.drop_last() =~= texts(parts@).take(i as int));
        assert(next.last() == parts@[i as int]@);
        if i > 0 {
            out.push(sep);
        }
        push_all(&mut out, &parts[i]);
        assert(out@ =~= join(next, sep));
        i = i + 1;
    }
    assert(texts(parts@).take(parts.len() as int) =~= texts(parts@));
    out
}

// ---------------------------------------------------------------------------
// Trimming
// ---------------------------------------------------------------------------

/// Whether `char::is_whitespace` holds of `c`: whether `c` has Unicode's
/// property `White_Space`.
pub uninterp spec fn is_whitespace(c: char) -> bool;

/// `char::is_whitespace` tells whether a character has Unicode's property
/// `White_Space`; the contract gives that answer the name [`is_whitespace`].
pub assume_specification[ char::is_whitespace ](c: char) -> (r: bool)
    ensures
        r == is_whitespace(c),
;

/// `s` without the whitespace it starts with.
pub open spec fn trim_start(s: Seq<char>) -> Seq<char>
    decreases s.len(),
{
    if s.len() > 0 && is_whitespace(s[0]) {
        trim_start(s.skip(1))
    } else {
        s
    }
}

/// `s` without the whitespace it ends with.
pub open spec fn trim_end(s: Seq<char>) -> Seq<char>
    decreases s.len(),
{
    if s.len() > 0 && is_whitespace(s.last()) {
        trim_end(s.drop_last())
    } else {
        s
    }
}

/// `s` without the whitespace at its two ends.
pub open spec fn trim(s: Seq<char>) -> Seq<char> {
    trim_end(trim_start(s))
}

/// For each character of `s`, whether it is whitespace.
pub open spec fn whitespace_flags(s: Seq<char>) -> Seq<bool> {
    s.map_values(|c: char| is_whitespace(c))
}

/// `s` without the flagged characters that it starts with, where `flags`
/// holds one flag for each character.
pub open spec fn unflagged_start(s: Seq<char>, flags: Seq<bool>) -> Seq<char>
    decreases s.len(),
{
    if s.len() > 0 && flags.len() > 0 && flags[0] {
        unflagged_start(s.skip(1), flags.skip(1))
    } else {
        s
    }
}

/// Where the part begins that is left when the flagged characters at the
/// start of `flags` are taken away.
pub open spec fn flagged_prefix(flags: Seq<bool>) -> int
    decreases flags.len(),
{
    if flags.len() > 0 && flags[0] {
        1 + flagged_prefix(flags.skip(1))
    } else {
        0
    }
}

/// Where the part ends that is left when the flagged characters at the end
/// of `flags` are taken away, none of them before `from`.
pub open spec fn unflagged_end(flags: Seq<bool>, from: int) -> int
    decreases flags.len(),
{
    if flags.len() > from && flags.len() > 0 && flags.last() {
        unflagged_end(flags.drop_last(), from)
    } else {
        flags.len() as int
    }
}

/// The part of `s` that is left when the flagged characters at its two ends
/// are taken away.
pub open spec fn trimmed_by(s: Seq<char>, flags: Seq<bool>) -> Seq<char> {
    s.subrange(flagged_prefix(flags), unflagged_end(flags, flagged_prefix(flags)))
}

/// The part of `s` between the flagged characters at its two ends, where
/// `flags` holds one flag for each character of `s`.
pub fn trim_flagged(s: &Vec<char>, flags: &Vec<bool>) -> (t: Vec<char>)
    requires
        flags.len() == s.len(),
    ensures
        t@ == trimmed_by(s@, flags@),
{
    let n = s.len();
    let mut a: usize = 0;
    assert(flags@.skip(0) =~= flags@);
    while a < n && flags[a]
        invariant
            a <= n == flags.len(),
            flagged_prefix(flags@) == a + flagged_prefix(flags@.skip(a as int)),
        decreases n - a,
    {
        assert(flags@.skip(a as int).skip(1) =~= flags@.skip(a + 1));
        a = a + 1;
    }
    assert(flagged_prefix(flags@) == a);
    let mut b: usize = n;
    assert(flags@.take(n as int) =~= flags@);
    while b > a && flags[b - 1]
        invariant
            a <= b <= n == flags.len(),
            n == s.len(),
            unflagged_end(flags@, a as int) == unflagged_end(flags@.take(b as int), a as int),
        decreases b,
    {
        assert(flags@.take(b as int).drop_last() =~= flags@.take(b - 1));
        b = b - 1;
    }
    assert(unflagged_end(flags@, a as int) == b);
    slice_chars(s, a, b)
}

/// Trimming by the flags of whitespace is trimming.
pub proof fn lemma_trimmed_by_whitespace(s: Seq<char>)
    ensures
        trimmed_by(s, whitespace_flags(s)) == trim(s),
{
    let flags = whitespace_flags(s);
    let a = flagged_prefix(flags);
    lemma_flagged_prefix(s);
    lemma_unflagged_end(s, a);
}

/// What is left without the whitespace at the start begins behind the
/// flagged characters at the start.
proof fn lemma_flagged_prefix(s: Seq<char>)
    ensures
        0 <= flagged_prefix(whitespace_flags(s)) <= s.len(),
        trim_start(s) == s.skip(flagged_prefix(whitespace_flags(s))),
    decreases s.len(),
{
    let flags = whitespace_flags(s);
    if s.len() > 0 && is_whitespace(s[0]) {
        lemma_flagged_prefix(s.skip(1));
        assert(whitespace_flags(s.skip(1)) =~= flags.skip(1));
        assert(s.skip(1).skip(flagged_prefix(flags.skip(1))) =~= s.skip(
            1 + flagged_prefix(flags.skip(1)),
        ));
    } else {
        assert(s.skip(0) =~= s);
    }
}

/// What is left without the whitespace at the end of the part from `from` on
/// ends before the flagged characters at the end.
proof fn lemma_unflagged_end(s: Seq<char>, from: int)
    requires
        0 <= from <= s.len(),
    ensures
        from <= unflagged_end(whitespace_flags(s), from) <= s.len(),
        trim_end(s.skip(from)) == s.subrange(from, unflagged_end(whitespace_flags(s), from)),
    decreases s.len(),
{
    let flags = whitespace_flags(s);
    let tail = s.skip(from);
    if s.len() > from && is_whitespace(s.last()) {
        lemma_unflagged_end(s.drop_last(), from);
        assert(whitespace_flags(s.drop_last()) =~= flags.drop_last());
        assert(tail.last() == s.last());
        assert(tail.drop_last() =~= s.drop_last().skip(from));
        assert(s.drop_last().subrange(from, unflagged_end(flags.drop_last(), from)) =~= s.subrange(
            from,
            unflagged_end(flags.drop_last(), from),
        ));
    } else {
        assert(tail =~= s.subrange(from, s.len() as int));
        if s.len() > from {
            assert(tail.last() == s.last());
        }
    }
}

/// `s` without the whitespace at its two ends.
pub fn trim_chars(s: &Vec<char>) -> (t: Vec<char>)
    ensures
        t@ == trim(s@),
{
    let mut flags: Vec<bool> = Vec::new();
    let mut i: usize = 0;
    while i < s.len()
        invariant
            i <= s.len(),
            flags@ == whitespace_flags(s@).take(i as int),
        decreases s.len() - i,
    {
        flags.push(s[i].is_whitespace());
        assert(whitespace_flags(s@).take(i + 1) =~= whitespace_flags(s@).take(i as int).push(
            is_whitespace(s@[i as int]),
        ));
        i = i + 1;
    }
    assert(whitespace_flags(s@).take(s.len() as int) =~= whitespace_flags(s@));
    proof {
        lemma_trimmed_by_whitespace(s@);
    }
    trim_flagged(s, &flags)
}

/// `s` without every `c` it starts with.
pub open spec fn strip_start(s: Seq<char>, c: char) -> Seq<char>
    decreases s.len(),
{
    if s.len() > 0 && s[0] == c {
        strip_start(s.skip(1), c)
    } else {
        s
    }
}

/// `s` without every `c` it ends with.
pub open spec fn strip_end(s: Seq<char>, c: char) -> Seq<char>
    decreases s.len(),
{
    if s.len() > 0 && s.last() == c {
        strip_end(s.drop_last(), c)
    } else {
        s
    }
}

/// `s` without every `c` at its two ends.
pub open spec fn strip_both(s: Seq<char>, c: char) -> Seq<char> {
    strip_end(strip_start(s, c), c)
}

/// `s` without every `c` at its two ends.
pub fn strip_both_chars(s: &Vec<char>, c: char) -> (t: Vec<char>)
    ensures
        t@ == strip_both(s@, c),
{
    let n = s.len();
    let mut a: usize = 0;
    assert(s@.skip(0) =~= s@);
    while a < n && s[a] == c
        invariant
            a <= n == s.len(),
            strip_start(s@, c) == strip_start(s@.skip(a as int), c),
        decreases n - a,
    {
        assert(s@.skip(a as int).skip(1) =~= s@.skip(a + 1));
        a = a + 1;
    }
    assert(strip_start(s@, c) == s@.skip(a as int));
    let mut b: usize = n;
    assert(s@.skip(a as int) =~= s@.subrange(a as int, n as int));
    while b > a && s[b - 1] == c
        invariant
            a <= b <= n == s.len(),
            strip_both(s@, c) == strip_end(s@.subrange(a as int, b as int), c),
        decreases b,
    {
        assert(s@.subrange(a as int, b as int).drop_last() =~= s@.subrange(a as int, b - 1));
        b = b - 1;
    }
    slice_chars(s, a, b)
}

/// The characters `s[from..to]`.
pub fn slice_chars(s: &Vec<char>, from: usize, to: usize) -> (t: Vec<char>)
    requires
        from <= to <= s.len(),
    ensures
        t@ == s@.subrange(from as int, to as int),
{
    let mut out: Vec<char> = Vec::new();
    let mut i: usize = from;
    while i < to
        invariant
            from <= i <= to <= s.len(),
            out@ == s@.subrange(from as int, i as int),
        decreases to - i,
    {
        out.push(s[i]);
        assert(s@.subrange(from as int, i + 1) =~= s@.subrange(from as int, i as int).push(
            s@[i as int],
        ));
        i = i + 1;
    }
    out
}

/// `s` without its spaces.
pub open spec fn without_spaces(s: Seq<char>) -> Seq<char>
    decreases s.len(),
{
    if s.len() == 0 {
        s
    } else if s.last() == ' ' {
        without_spaces(s.drop_last())
    } else {
        without_spaces(s.drop_last()).push(s.last())
    }
}

/// `s` without its spaces.
pub fn without_spaces_chars(s: &Vec<char>) -> (t: Vec<char>)
    ensures
        t@ == without_spaces(s@),
{
    let mut out: Vec<char> = Vec::new();
    let mut i: usize = 0;
    assert(s@.take(0) =~= Seq::<char>::empty());
    while i < s.len()
        invariant
            i <= s.len(),
            out@ == without_spaces(s@.take(i as int)),
        decreases s.len() - i,
    {
        assert(s@.take(i + 1).drop_last() =~= s@.take(i as int));
        if s[i] != ' ' {
            out.push(s[i]);
        }
        i = i + 1;
    }
    assert(s@.take(s.len() as int) =~= s@);
    out
}

// ---------------------------------------------------------------------------
// Lower case
// ---------------------------------------------------------------------------

/// What `str::to_lowercase` returns for the text `s`: its lower case after
/// Unicode's rules.
pub uninterp spec fn lowercase(s: Seq<char>) -> Seq<char>;

/// `str::to_lowercase` gives the lower case of a text after Unicode's rules,
/// as a function of the text alone; the contract gives it the name
/// [`lowercase`].
pub assume_specification[ str::to_lowercase ](s: &str) -> (r: String)
    ensures
        r@ == lowercase(s@),
;

/// The lower case of `s`.
pub fn lowercase_chars(s: &Vec<char>) -> (t: Vec<char>)
    ensures
        t@ == lowercase(s@),
{
    let text = string_of(s);
    let lower = text.as_str().to_lowercase();
    chars_of(lower.as_str())
}

// ---------------------------------------------------------------------------
// Occurrences and replacement
// ---------------------------------------------------------------------------

/// Whether `pat` stands in `s` at index `i`.
pub open spec fn occurs_at(s: Seq<char>, pat: Seq<char>, i: int) -> bool {
    0 <= i && i + pat.len() <= s.len() && s.subrange(i, i + pat.len()) == pat
}

/// Whether `pat` stands somewhere in `s`.
pub open spec fn contains(s: Seq<char>, pat: Seq<char>) -> bool {
    exists|i: int| occurs_at(s, pat, i)
}

/// `s` with every occurrence of `from` replaced by `to`, the occurrences
/// taken from the left and not overlapping. An empty `from` occurs before
/// every character and at the end.
pub open spec fn replace_all(s: Seq<char>, from: Seq<char>, to: Seq<char>) -> Seq<char>
    decreases s.len(),
{
    if from.len() == 0 {
        if s.len() == 0 {
            to
        } else {
            (to + seq![s[0]]) + replace_all(s.skip(1), from, to)
        }
    } else if s.len() < from.len() {
        s
    } else if occurs_at(s, from, 0) {
        to + replace_all(s.skip(from.len() as int), from, to)
    } else {
        seq![s[0]] + replace_all(s.skip(1), from, to)
    }
}

/// `s` with its first occurrence of `from` replaced by `to`. An empty `from`
/// occurs at the start.
pub open spec fn replace_first(s: Seq<char>, from: Seq<char>, to: Seq<char>) -> Seq<char>
    decreases s.len(),
{
    if from.len() == 0 {
        to + s
    } else if s.len() < from.len() {
        s
    } else if occurs_at(s, from, 0) {
        to + s.skip(from.len() as int)
    } else {
        seq![s[0]] + replace_first(s.skip(1), from, to)
    }
}

/// Whether `pat` stands in `s` at index `i`.
pub fn occurs_at_chars(s: &Vec<char>, pat: &Vec<char>, i: usize) -> (r: bool)
    requires
        i <= s.len(),
    ensures
        r == occurs_at(s@, pat@, i as int),
{
    let m = pat.len();
    if s.len() - i < m {
        return false;
    }
    let mut k: usize = 0;
    while k < m
        invariant
            k <= m == pat.len(),
            i + m <= s.len(),
            s@.subrange(i as int, i + k) == pat@.take(k as int),
        decreases m - k,
    {
        if s[i + k] != pat[k] {
            assert(s@.subrange(i as int, i + m)[k as int] != pat@[k as int]);
            return false;
        }
        assert(s@.subrange(i as int, i + k + 1) =~= s@.subrange(i as int, i + k).push(
            s@[i + k],
        ));
        assert(pat@.take(k + 1) =~= pat@.take(k as int).push(pat@[k as int]));
        k = k + 1;
    }
    assert(pat@.take(m as int) =~= pat@);
    true
}

/// Whether `pat` stands somewhere in `s`.
pub fn contains_chars(s: &Vec<char>, pat: &Vec<char>) -> (r: bool)
    ensures
        r == contains(s@, pat@),
{
    let mut i: usize = 0;
    while i < s.len()
        invariant
            i <= s.len(),
            forall|j: int| 0 <= j < i ==> !occurs_at(s@, pat@, j),
        decreases s.len() - i,
    {
        if occurs_at_chars(s, pat, i) {
            return true;
        }
        i = i + 1;
    }
    occurs_at_chars(s, pat, i)
}

/// `s` with every occurrence of `from` replaced by `to`.
pub fn replace_all_chars(s: &Vec<char>, from: &Vec<char>, to: &Vec<char>) -> (r: Vec<char>)
    ensures
        r@ == replace_all(s@, from@, to@),
{
    let n = s.len();
    let m = from.len();
    let mut out: Vec<char> = Vec::new();
    let mut i: usize = 0;
    assert(s@.skip(0) =~= s@);
    assert(out@ + replace_all(s@.skip(0), from@, to@) =~= replace_all(s@, from@, to@));
    if m == 0 {
        while i < n
            invariant
                i <= n == s.len(),
                from@.len() == 0,
                out@ + replace_all(s@.skip(i as int), from@, to@) == replace_all(s@, from@, to@),
            decreases n - i,
        {
            let ghost rest = s@.skip(i as int);
            let ghost before = out@;
            assert(rest.skip(1) =~= s@.skip(i + 1));
            assert(rest[0] == s@[i as int]);
            push_all(&mut out, to);
            out.push(s[i]);
            assert(out@ + replace_all(s@.skip(i + 1), from@, to@) =~= before + replace_all(
                rest,
                from@,
                to@,
            ));
            i = i + 1;
        }
        assert(s@.skip(n as int).len() == 0);
        let ghost before = out@;
        push_all(&mut out, to);
        assert(out@ =~= before + replace_all(s@.skip(n as int), from@, to@));
        return out;
    }
    while i < n
        invariant
            i <= n == s.len(),
            m == from.len(),
            m > 0,
            out@ + replace_all(s@.skip(i as int), from@, to@) == replace_all(s@, from@, to@),
        decreases n - i,
    {
        let ghost rest = s@.skip(i as int);
        let ghost before = out@;
        proof {
            if i + m <= n {
                assert(rest.subrange(0, m as int) =~= s@.subrange(i as int, i + m));
            }
        }
        if occurs_at_chars(s, from, i) {
            assert(occurs_at(rest, from@, 0));
            assert(rest.skip(m as int) =~= s@.skip(i + m));
            push_all(&mut out, to);
            assert(out@ + replace_all(s@.skip(i + m), from@, to@) =~= before + replace_all(
                rest,
                from@,
                to@,
            ));
            i = i + m;
        } else {
            assert(!occurs_at(rest, from@, 0));
            assert(rest.skip(1) =~= s@.skip(i + 1));
            assert(rest[0] == s@[i as int]);
            out.push(s[i]);
            assert(out@ + replace_all(s@.skip(i + 1), from@, to@) =~= before + replace_all(
                rest,
                from@,
                to@,
            ));
            i = i + 1;
        }
    }
    assert(s@.skip(n as int).len() == 0);
    assert(replace_all(s@.skip(n as int), from@, to@) =~= Seq::<char>::empty());
    assert(out@ + Seq::<char>::empty() =~= out@);
    out
}

/// `s` with its first occurrence of `from` replaced by `to`.
pub fn replace_first_chars(s: &Vec<char>, from: &Vec<char>, to: &Vec<char>) -> (r: Vec<char>)
    ensures
        r@ == replace_first(s@, from@, to@),
{
    let n = s.len();
    let m = from.len();
    let mut out: Vec<char> = Vec::new();
    if m == 0 {
        push_all(&mut out, to);
        push_all(&mut out, s);
        return out;
    }
    let mut i: usize = 0;
    assert(s@.skip(0) =~= s@);
    assert(out@ + replace_first(s@.skip(0), from@, to@) =~= replace_first(s@, from@, to@));
    while i < n
        invariant
            i <= n == s.len(),
            m == from.len(),
            m > 0,
            out@ + replace_first(s@.skip(i as int), from@, to@) == replace_first(s@, from@, to@),
        decreases n - i,
    {
        let ghost rest = s@.skip(i as int);
        let ghost before = out@;
        proof {
            if i + m <= n {
                assert(rest.subrange(0, m as int) =~= s@.subrange(i as int, i + m));
            }
        }
        if occurs_at_chars(s, from, i) {
            assert(occurs_at(rest, from@, 0));
            assert(rest.skip(m as int) =~= s@.skip(i + m));
            push_all(&mut out, to);
            let tail = slice_chars(s, i + m, n);
            assert(tail@ =~= s@.skip(i + m));
            push_all(&mut out, &tail);
            assert(out@ =~= before + replace_first(rest, from@, to@));
            return out;
        }
        assert(!occurs_at(rest, from@, 0));
        assert(rest.skip(1) =~= s@.skip(i + 1));
        assert(rest[0] == s@[i as int]);
        proof {
            if rest.len() < m {
                assert(replace_first(rest, from@, to@) == rest);
                assert(replace_first(s@.skip(i + 1), from@, to@) == s@.skip(i + 1));
                assert(seq![rest[0]] + rest.skip(1) =~= rest);
            }
        }
        out.push(s[i]);
        assert(out@ + replace_first(s@.skip(i + 1), from@, to@) =~= before + replace_first(
            rest,
            from@,
            to@,
        ));
        i = i + 1;
    }
    assert(s@.skip(n as int).len() == 0);
    assert(replace_first(s@.skip(n as int), from@, to@) =~= Seq::<char>::empty());
    assert(out@ + Seq::<char>::empty() =~= out@);
    out
}

// ---------------------------------------------------------------------------
// Literals and lists of strings
// ---------------------------------------------------------------------------

/// Whether `v` holds the characters of `text`.
pub fn is_text(v: &Vec<char>, text: &str) -> (r: bool)
    ensures
        r == (v@ == text@),
{
    let chars = chars_of(text);
    same_chars(v, &chars)
}

/// Whether two texts hold the same characters.
pub fn same_text(a: &str, b: &str) -> (r: bool)
    ensures
        r == (a@ == b@),
{
    let x = chars_of(a);
    let y = chars_of(b);
    same_chars(&x, &y)
}

/// Appends the characters of `text` to `out`.
pub fn push_str(out: &mut Vec<char>, text: &str)
    ensures
        final(out)@ == old(out)@ + text@,
{
    let chars = chars_of(text);
    push_all(out, &chars);
}

/// The parts from `from` on, each as a string.
pub fn to_strings(parts: &Vec<Vec<char>>, from: usize) -> (out: Vec<String>)
    requires
        from <= parts.len(),
    ensures
        strings(out@) == texts(parts@).skip(from as int),
{
    let mut out: Vec<String> = Vec::new();
    let mut i: usize = from;
    assert(strings(out@) =~= texts(parts@).subrange(from as int, from as int));
    while i < parts.len()
        invariant
            from <= i <= parts.len(),
            strings(out@) == texts(parts@).subrange(from as int, i as int),
        decreases parts.len() - i,
    {
        let ghost before = strings(out@);
        out.push(string_of(&parts[i]));
        assert(strings(out@) =~= before.push(parts@[i as int]@));
        assert(texts(parts@).subrange(from as int, i + 1) =~= texts(parts@).subrange(
            from as int,
            i as int,
        ).push(parts@[i as int]@));
        i = i + 1;
    }
    assert(texts(parts@).subrange(from as int, parts.len() as int) =~= texts(parts@).skip(
        from as int,
    ));
    out
}

/// The join of the first parts is no longer than the join of all.
pub proof fn lemma_join_prefix_len(parts: Seq<Seq<char>>, k: int, sep: char)
    requires
        0 <= k <= parts.len(),
    ensures
        join(parts.take(k), sep).len() <= join(parts, sep).len(),
    decreases parts.len() - k,
{
    if k == parts.len() {
        assert(parts.take(k) =~= parts);
    } else {
        let head = parts.drop_last();
        lemma_join_prefix_len(head, k, sep);
        assert(head.take(k) =~= parts.take(k));
        if parts.len() == 1 {
            assert(join(head, sep).len() == 0);
        }
    }
}

/// The first two parts of a text and the separator between them fit into the
/// text.
pub proof fn lemma_first_two_parts(s: Seq<char>, sep: char)
    requires
        split(s, sep).len() >= 2,
    ensures
        split(s, sep)[0].len() + 1 + split(s, sep)[1].len() <= s.len(),
{
    let parts = split(s, sep);
    lemma_join_split(s, sep);
    lemma_join_prefix_len(parts, 2, sep);
    assert(parts.take(2).drop_last() =~= seq![parts[0]]);
    assert(join(seq![parts[0]], sep) == parts[0]);
    assert(join(parts.take(2), sep) == join(seq![parts[0]], sep).push(sep) + parts[1]);
}

} // verus!

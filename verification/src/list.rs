//! The watch list and the autojoin list: tokens in a fixed order, none of
//! them twice, persisted as one text with commas between the tokens.
//!
//! Nothing is kept between calls: each operation is a function of the
//! persisted text.

use crate::codec::{decode, parse_id};
use crate::model::GuildOrChannel;
use crate::text::{
    chars_of, free_of, join, join_chars, lemma_split_join, lemma_split_parts, same_chars, split,
    split_chars, string_of, texts,
};
use vstd::prelude::*;

verus! {

/// The parts that are not empty, in their order.
pub open spec fn non_empty(parts: Seq<Seq<char>>) -> Seq<Seq<char>>
    decreases parts.len(),
{
    if parts.len() == 0 {
        parts
    } else if parts.last().len() == 0 {
        non_empty(parts.drop_last())
    } else {
        non_empty(parts.drop_last()).push(parts.last())
    }
}

/// The parts without those that came before: of equal parts the first stays.
pub open spec fn dedup(parts: Seq<Seq<char>>) -> Seq<Seq<char>>
    decreases parts.len(),
{
    if parts.len() == 0 {
        parts
    } else if dedup(parts.drop_last()).contains(parts.last()) {
        dedup(parts.drop_last())
    } else {
        dedup(parts.drop_last()).push(parts.last())
    }
}

/// The tokens of a persisted list: what stands between its commas, but for
/// what is empty.
pub open spec fn list_items(persisted: Seq<char>) -> Seq<Seq<char>> {
    non_empty(split(persisted, ','))
}

/// The persisted list after `new` was added: `new` goes behind the tokens of
/// the list, then every token that repeats an earlier one leaves.
pub open spec fn list_with(persisted: Seq<char>, new: Seq<char>) -> Seq<char> {
    join(dedup(list_items(persisted).push(new)), ',')
}

/// What the tokens denote, in their order; a token that denotes nothing is
/// passed over.
pub open spec fn decoded(tokens: Seq<Seq<char>>) -> Seq<GuildOrChannel>
    decreases tokens.len(),
{
    if tokens.len() == 0 {
        Seq::empty()
    } else {
        match decode(tokens.last()) {
            Some(entry) => decoded(tokens.drop_last()).push(entry),
            None => decoded(tokens.drop_last()),
        }
    }
}

/// The tokens of a persisted list.
pub fn items(persisted: &Vec<char>) -> (tokens: Vec<Vec<char>>)
    ensures
        texts(tokens@) == list_items(persisted@),
{
    let parts = split_chars(persisted, ',');
    let mut tokens: Vec<Vec<char>> = Vec::new();
    let mut i: usize = 0;
    assert(texts(parts@).take(0) =~= Seq::<Seq<char>>::empty());
    assert(texts(tokens@) =~= Seq::<Seq<char>>::empty());
    while i < parts.len()
        invariant
            i <= parts.len(),
            texts(tokens@) == non_empty(texts(parts@).take(i as int)),
        decreases parts.len() - i,
    {
        let ghost before = texts(tokens@);
        assert(texts(parts@).take(i + 1).drop_last() =~= texts(parts@).take(i as int));
        assert(texts(parts@).take(i + 1).last() == parts@[i as int]@);
        if parts[i].len() > 0 {
            tokens.push(parts[i].clone());
            assert(texts(tokens@) =~= before.push(parts@[i as int]@));
        }
        i = i + 1;
    }
    assert(texts(parts@).take(parts.len() as int) =~= texts(parts@));
    tokens
}

/// Whether `token` is one of `tokens`.
fn holds(tokens: &Vec<Vec<char>>, token: &Vec<char>) -> (r: bool)
    ensures
        r == texts(tokens@).contains(token@),
{
    let mut i: usize = 0;
    while i < tokens.len()
        invariant
            i <= tokens.len(),
            forall|j: int| 0 <= j < i ==> texts(tokens@)[j] != token@,
        decreases tokens.len() - i,
    {
        if same_chars(&tokens[i], token) {
            assert(texts(tokens@)[i as int] == token@);
            return true;
        }
        i = i + 1;
    }
    false
}

/// The tokens without those that came before.
fn dedup_tokens(tokens: &Vec<Vec<char>>) -> (kept: Vec<Vec<char>>)
    ensures
        texts(kept@) == dedup(texts(tokens@)),
{
    let mut kept: Vec<Vec<char>> = Vec::new();
    let mut i: usize = 0;
    assert(texts(tokens@).take(0) =~= Seq::<Seq<char>>::empty());
    assert(texts(kept@) =~= Seq::<Seq<char>>::empty());
    while i < tokens.len()
        invariant
            i <= tokens.len(),
            texts(kept@) == dedup(texts(tokens@).take(i as int)),
        decreases tokens.len() - i,
    {
        let ghost before = texts(kept@);
        assert(texts(tokens@).take(i + 1).drop_last() =~= texts(tokens@).take(i as int));
        assert(texts(tokens@).take(i + 1).last() == tokens@[i as int]@);
        if !holds(&kept, &tokens[i]) {
            kept.push(tokens[i].clone());
            assert(texts(kept@) =~= before.push(tokens@[i as int]@));
        }
        i = i + 1;
    }
    assert(texts(tokens@).take(tokens.len() as int) =~= texts(tokens@));
    kept
}

/// Adds a token to a persisted list and gives the list as it is to be
/// persisted. A token that the list holds already, letter for letter, is not
/// added again; two different tokens stay both, whatever they denote.
pub fn add(list: &str, new: &str) -> (updated: String)
    ensures
        updated@ == list_with(list@, new@),
{
    let persisted = chars_of(list);
    let mut tokens = items(&persisted);
    let ghost before = texts(tokens@);
    tokens.push(chars_of(new));
    assert(texts(tokens@) =~= before.push(new@));
    let kept = dedup_tokens(&tokens);
    let joined = join_chars(&kept, ',');
    string_of(&joined)
}

/// The entries of a persisted list, in its order. What stands between two
/// commas and is no token is passed over.
pub fn iterate(persisted: &str) -> (entries: Vec<GuildOrChannel>)
    ensures
        entries@ == decoded(list_items(persisted@)),
{
    let chars = chars_of(persisted);
    let tokens = items(&chars);
    let mut entries: Vec<GuildOrChannel> = Vec::new();
    let mut i: usize = 0;
    assert(texts(tokens@).take(0) =~= Seq::<Seq<char>>::empty());
    while i < tokens.len()
        invariant
            i <= tokens.len(),
            entries@ == decoded(texts(tokens@).take(i as int)),
        decreases tokens.len() - i,
    {
        assert(texts(tokens@).take(i + 1).drop_last() =~= texts(tokens@).take(i as int));
        assert(texts(tokens@).take(i + 1).last() == tokens@[i as int]@);
        let token = string_of(&tokens[i]);
        match parse_id(token.as_str()) {
            Some(entry) => {
                entries.push(entry);
            },
            None => {},
        }
        i = i + 1;
    }
    assert(texts(tokens@).take(tokens.len() as int) =~= texts(tokens@));
    entries
}

/// What `non_empty` keeps: the parts that are not empty, and no other.
pub proof fn lemma_non_empty(parts: Seq<Seq<char>>, x: Seq<char>)
    ensures
        non_empty(parts).contains(x) <==> parts.contains(x) && x.len() > 0,
    decreases parts.len(),
{
    if parts.len() > 0 {
        let head = parts.drop_last();
        lemma_non_empty(head, x);
        if non_empty(parts).contains(x) {
            let i = choose|i: int| 0 <= i < non_empty(parts).len() && non_empty(parts)[i] == x;
            if i < non_empty(head).len() {
                assert(non_empty(head)[i] == x);
                assert(non_empty(head).contains(x));
                let k = choose|k: int| 0 <= k < head.len() && head[k] == x;
                assert(parts[k] == x);
            } else {
                assert(parts[parts.len() - 1] == x);
            }
        }
        if parts.contains(x) && x.len() > 0 {
            let k = choose|k: int| 0 <= k < parts.len() && parts[k] == x;
            if k < head.len() {
                assert(head[k] == x);
                assert(head.contains(x));
                let i = choose|i: int| 0 <= i < non_empty(head).len() && non_empty(head)[i] == x;
                assert(non_empty(parts)[i] == x);
            } else {
                assert(non_empty(parts)[non_empty(parts).len() - 1] == x);
            }
        }
    }
}

/// A list without empty parts is what `non_empty` makes of it.
pub proof fn lemma_non_empty_fixed(parts: Seq<Seq<char>>)
    requires
        forall|i: int| 0 <= i < parts.len() ==> (#[trigger] parts[i]).len() > 0,
    ensures
        non_empty(parts) == parts,
    decreases parts.len(),
{
    if parts.len() > 0 {
        let head = parts.drop_last();
        assert forall|i: int| 0 <= i < head.len() implies (#[trigger] head[i]).len() > 0 by {
            assert(head[i] == parts[i]);
        }
        lemma_non_empty_fixed(head);
        assert(parts[parts.len() - 1].len() > 0);
        assert(head.push(parts.last()) =~= parts);
    }
}

/// `dedup` keeps every part: what the list holds, it holds after.
pub proof fn lemma_dedup_contains(parts: Seq<Seq<char>>, x: Seq<char>)
    ensures
        dedup(parts).contains(x) <==> parts.contains(x),
    decreases parts.len(),
{
    if parts.len() > 0 {
        let head = parts.drop_last();
        let last = parts.last();
        lemma_dedup_contains(head, x);
        let d = dedup(head);
        if dedup(parts).contains(x) {
            let i = choose|i: int| 0 <= i < dedup(parts).len() && dedup(parts)[i] == x;
            if i < d.len() {
                assert(d[i] == x);
                assert(d.contains(x));
                let k = choose|k: int| 0 <= k < head.len() && head[k] == x;
                assert(parts[k] == x);
            } else {
                assert(parts[parts.len() - 1] == x);
            }
        }
        if parts.contains(x) {
            let k = choose|k: int| 0 <= k < parts.len() && parts[k] == x;
            if k < head.len() {
                assert(head[k] == x);
                assert(head.contains(x));
                let i = choose|i: int| 0 <= i < d.len() && d[i] == x;
                assert(dedup(parts)[i] == x);
            } else if d.contains(last) {
            } else {
                assert(dedup(parts)[dedup(parts).len() - 1] == x);
            }
        }
    }
}

/// `dedup` keeps nothing twice.
pub proof fn lemma_dedup_distinct(parts: Seq<Seq<char>>)
    ensures
        dedup(parts).no_duplicates(),
    decreases parts.len(),
{
    if parts.len() > 0 {
        let head = parts.drop_last();
        let last = parts.last();
        lemma_dedup_distinct(head);
        let d = dedup(head);
        if !d.contains(last) {
            assert forall|i: int, j: int|
                0 <= i < d.push(last).len() && 0 <= j < d.push(last).len() && i != j implies d.push(
                last,
            )[i] != d.push(last)[j] by {
                if i == d.len() {
                    assert(d[j] != last);
                } else if j == d.len() {
                    assert(d[i] != last);
                }
            }
        }
    }
}

/// A list that holds nothing twice is what `dedup` makes of it.
pub proof fn lemma_dedup_fixed(parts: Seq<Seq<char>>)
    requires
        parts.no_duplicates(),
    ensures
        dedup(parts) == parts,
    decreases parts.len(),
{
    if parts.len() > 0 {
        let head = parts.drop_last();
        lemma_dedup_fixed(head);
        if head.contains(parts.last()) {
            let k = choose|k: int| 0 <= k < head.len() && head[k] == parts.last();
            assert(parts[k] == parts[parts.len() - 1]);
        }
        assert(head.push(parts.last()) =~= parts);
    }
}

/// No token of a persisted list is empty or holds a comma.
pub proof fn lemma_list_items(persisted: Seq<char>)
    ensures
        forall|i: int|
            0 <= i < list_items(persisted).len() ==> (#[trigger] list_items(persisted)[i]).len() > 0
                && free_of(list_items(persisted)[i], ','),
{
    let parts = split(persisted, ',');
    lemma_split_parts(persisted, ',');
    assert forall|i: int| 0 <= i < list_items(persisted).len() implies (#[trigger] list_items(
        persisted,
    )[i]).len() > 0 && free_of(list_items(persisted)[i], ',') by {
        let x = list_items(persisted)[i];
        assert(non_empty(parts).contains(x));
        lemma_non_empty(parts, x);
        let k = choose|k: int| 0 <= k < parts.len() && parts[k] == x;
        assert(free_of(parts[k], ','));
    }
}

/// Adding a token a second time changes nothing: the list holds it once.
/// This holds of every token without a comma, and so of every encoded one.
pub proof fn lemma_add_twice(list: Seq<char>, token: Seq<char>)
    requires
        free_of(token, ','),
    ensures
        list_with(list_with(list, token), token) == list_with(list, token),
{
    let its = list_items(list);
    let all = its.push(token);
    let kept = dedup(all);
    lemma_list_items(list);
    lemma_dedup_distinct(all);
    assert(all[all.len() - 1] == token);
    assert(all.contains(token));
    lemma_dedup_contains(all, token);
    assert(kept.contains(token));
    assert forall|i: int| 0 <= i < kept.len() implies free_of(#[trigger] kept[i], ',') && (
    token.len() > 0 ==> kept[i].len() > 0) by {
        assert(kept.contains(kept[i]));
        lemma_dedup_contains(all, kept[i]);
        let k = choose|k: int| 0 <= k < all.len() && all[k] == kept[i];
        if k < its.len() {
            assert(all[k] == its[k]);
        }
    }
    lemma_split_join(kept, ',');
    assert(split(list_with(list, token), ',') == kept);
    if token.len() > 0 {
        lemma_non_empty_fixed(kept);
        lemma_dedup_fixed(kept);
        assert(kept.push(token).drop_last() =~= kept);
        assert(dedup(kept.push(token)) == kept);
    } else {
        let head = dedup(its);
        lemma_dedup_distinct(its);
        assert(all.drop_last() =~= its);
        lemma_dedup_contains(its, token);
        if its.contains(token) {
            let k = choose|k: int| 0 <= k < its.len() && its[k] == token;
            assert(its[k].len() > 0);
        }
        assert(kept == head.push(token));
        assert(kept.drop_last() =~= head);
        assert forall|i: int| 0 <= i < head.len() implies (#[trigger] head[i]).len() > 0 by {
            assert(head.contains(head[i]));
            lemma_dedup_contains(its, head[i]);
            let k = choose|k: int| 0 <= k < its.len() && its[k] == head[i];
            assert(its[k].len() > 0);
        }
        lemma_non_empty_fixed(head);
        assert(non_empty(kept) == head);
        lemma_dedup_fixed(head);
        assert(head.push(token).drop_last() =~= head);
        assert(dedup(head.push(token)) == kept);
    }
}

/// What a list holds after a token was added: the tokens it held and the
/// new one, each once. This holds of every token that is not empty and holds
/// no comma.
pub proof fn lemma_items_after_add(list: Seq<char>, token: Seq<char>)
    requires
        token.len() > 0,
        free_of(token, ','),
    ensures
        list_items(list_with(list, token)) == dedup(list_items(list).push(token)),
        list_items(list_with(list, token)).no_duplicates(),
        list_items(list_with(list, token)).contains(token),
{
    let its = list_items(list);
    let all = its.push(token);
    let kept = dedup(all);
    lemma_list_items(list);
    lemma_dedup_distinct(all);
    assert(all[all.len() - 1] == token);
    assert(all.contains(token));
    lemma_dedup_contains(all, token);
    assert forall|i: int| 0 <= i < kept.len() implies free_of(#[trigger] kept[i], ',') && kept[i].len()
        > 0 by {
        assert(kept.contains(kept[i]));
        lemma_dedup_contains(all, kept[i]);
        let k = choose|k: int| 0 <= k < all.len() && all[k] == kept[i];
        if k < its.len() {
            assert(all[k] == its[k]);
        }
    }
    lemma_split_join(kept, ',');
    lemma_non_empty_fixed(kept);
}

/// Two different tokens stay both on the list, whatever they denote: after
/// the one and then the other were added, the list holds each of them once.
pub proof fn lemma_add_keeps_both(list: Seq<char>, first: Seq<char>, second: Seq<char>)
    requires
        first != second,
        first.len() > 0,
        second.len() > 0,
        free_of(first, ','),
        free_of(second, ','),
    ensures
        list_items(list_with(list_with(list, first), second)).contains(first),
        list_items(list_with(list_with(list, first), second)).contains(second),
        list_items(list_with(list_with(list, first), second)).no_duplicates(),
{
    let once = list_with(list, first);
    lemma_items_after_add(list, first);
    lemma_items_after_add(once, second);
    let all = list_items(once).push(second);
    let k = choose|k: int| 0 <= k < list_items(once).len() && list_items(once)[k] == first;
    assert(all[k] == first);
    assert(all.contains(first));
    lemma_dedup_contains(all, first);
}

} // verus!

//! Laws of cutting texts into pieces and joining pieces into texts.

use vstd::prelude::*;
use crate::text::{
    find_from, join_with, lemma_find_from, matches_at, split_from, split_on,
};

verus! {

/// The character `c` does not occur in `s`.
pub open spec fn free_of(s: Seq<char>, c: char) -> bool {
    forall|i: int| 0 <= i < s.len() ==> #[trigger] s[i] != c
}

/// Joining a list with one more piece in front puts that piece and the
/// separator before the rest.
pub proof fn lemma_join_front(head: Seq<char>, rest: Seq<Seq<char>>, sep: Seq<char>)
    requires
        rest.len() >= 1,
    ensures
        join_with(seq![head] + rest, sep) == head + sep + join_with(rest, sep),
    decreases rest.len(),
{
    let all = seq![head] + rest;
    if rest.len() == 1 {
        assert(all.drop_last() == seq![head]);
        assert(all.last() == rest[0]);
        assert(join_with(seq![head], sep) == head);
    } else {
        lemma_join_front(head, rest.drop_last(), sep);
        assert(all.drop_last() == seq![head] + rest.drop_last());
        assert(all.last() == rest.last());
        assert(join_with(all, sep) == join_with(all.drop_last(), sep) + sep + all.last());
        assert(join_with(rest, sep) == join_with(rest.drop_last(), sep) + sep + rest.last());
        assert((head + sep + join_with(rest.drop_last(), sep)) + sep + rest.last() == head + sep
            + (join_with(rest.drop_last(), sep) + sep + rest.last()));
    }
}

/// A text is free of a character if its two parts are.
pub proof fn lemma_free_of_concat(a: Seq<char>, b: Seq<char>, c: char)
    requires
        free_of(a, c),
        free_of(b, c),
    ensures
        free_of(a + b, c),
{
    assert forall|i: int| 0 <= i < (a + b).len() implies #[trigger] (a + b)[i] != c by {
        if i < a.len() {
            assert((a + b)[i] == a[i]);
        } else {
            assert((a + b)[i] == b[i - a.len()]);
        }
    }
}

/// Searching a text that follows a prefix finds what searching the text
/// alone finds, moved by the length of the prefix.
pub proof fn lemma_find_shift(pre: Seq<char>, s: Seq<char>, pat: Seq<char>, k: int)
    requires
        0 <= k,
    ensures
        find_from(pre + s, pat, pre.len() + k) == match find_from(s, pat, k) {
            Some(i) => Some(i + pre.len()),
            None => None,
        },
    decreases s.len() - k + 1,
{
    let whole = pre + s;
    if k + pat.len() <= s.len() {
        assert(whole.subrange(pre.len() + k, pre.len() + k + pat.len()) == s.subrange(
            k,
            k + pat.len(),
        ));
        if !matches_at(s, pat, k) {
            lemma_find_shift(pre, s, pat, k + 1);
        }
    }
}

/// Cutting a text that follows a prefix gives the pieces of the text
/// alone.
pub proof fn lemma_split_shift(pre: Seq<char>, s: Seq<char>, pat: Seq<char>, k: int)
    requires
        0 <= k <= s.len(),
        pat.len() > 0,
    ensures
        split_from(pre + s, pat, pre.len() + k) == split_from(s, pat, k),
    decreases s.len() - k,
{
    let whole = pre + s;
    lemma_find_shift(pre, s, pat, k);
    lemma_find_from(s, pat, k);
    match find_from(s, pat, k) {
        Some(i) => {
            assert(whole.subrange(pre.len() + k, pre.len() + i) == s.subrange(k, i));
            lemma_split_shift(pre, s, pat, i + pat.len());
        },
        None => {
            assert(whole.subrange(pre.len() + k, whole.len() as int) == s.subrange(
                k,
                s.len() as int,
            ));
        },
    }
}

/// The first occurrence of a character that follows a text free of it is
/// where that text ends.
pub proof fn lemma_find_first(head: Seq<char>, rest: Seq<char>, c: char)
    requires
        free_of(head, c),
    ensures
        find_from(head + seq![c] + rest, seq![c], 0) == Some(head.len() as int),
{
    let pat = seq![c];
    let whole = head + pat + rest;
    let n = head.len() as int;
    lemma_find_from(whole, pat, 0);
    assert(whole.subrange(n, n + 1) == pat);
    assert(matches_at(whole, pat, n));
    assert forall|j: int| 0 <= j < n implies !matches_at(whole, pat, j) by {
        if matches_at(whole, pat, j) {
            assert(whole.subrange(j, j + 1)[0] == c);
            assert(whole[j] == head[j]);
        }
    }
}

/// A text that starts with a piece free of the separator, followed by the
/// separator, is cut into that piece and the pieces of the rest.
pub proof fn lemma_split_first(head: Seq<char>, rest: Seq<char>, c: char)
    requires
        free_of(head, c),
    ensures
        split_on(head + seq![c] + rest, seq![c]) == seq![head] + split_on(rest, seq![c]),
{
    let pat = seq![c];
    let whole = head + pat + rest;
    let n = head.len() as int;
    lemma_find_first(head, rest, c);
    assert(whole.subrange(0, n) == head);
    lemma_split_shift(head + pat, rest, pat, 0);
    assert((head + pat).len() == head.len() + 1);
}

/// A separator that stands between two texts occurs where the first text
/// ends.
pub proof fn lemma_match_between(head: Seq<char>, mark: Seq<char>, tail: Seq<char>)
    ensures
        matches_at(head + mark + tail, mark, head.len() as int),
{
    let whole = head + mark + tail;
    let n = head.len() as int;
    assert(whole.subrange(n, n + mark.len()) == mark);
}

/// Where a separator occurs in a text, the text holds the second
/// character of the separator just behind the place.
pub proof fn lemma_match_second(text: Seq<char>, mark: Seq<char>, j: int)
    requires
        mark.len() >= 2,
        matches_at(text, mark, j),
    ensures
        j + 1 < text.len(),
        text[j + 1] == mark[1],
{
    assert(text.subrange(j, j + mark.len())[1] == mark[1]);
}

/// No separator stands in a text before the end of its first part, where
/// the second character of the separator does not occur in that part and
/// is not the first character of the separator.
pub proof fn lemma_no_match_before(
    head: Seq<char>,
    mark: Seq<char>,
    tail: Seq<char>,
    c: char,
    j: int,
)
    requires
        mark.len() >= 2,
        mark[1] == c,
        mark[0] != c,
        free_of(head, c),
        0 <= j < head.len(),
    ensures
        !matches_at(head + mark + tail, mark, j),
{
    let whole = head + mark + tail;
    if matches_at(whole, mark, j) {
        lemma_match_second(whole, mark, j);
        if j + 1 < head.len() {
            assert(whole[j + 1] == head[j + 1]);
        } else {
            assert(whole[j + 1] == mark[0]);
        }
    }
}

/// The first separator in a text made of two parts with a separator
/// between them stands where the first part ends, where the second
/// character of the separator does not occur in the first part and is not
/// the first character of the separator.
pub proof fn lemma_find_mark(head: Seq<char>, mark: Seq<char>, tail: Seq<char>, c: char)
    requires
        mark.len() >= 2,
        mark[1] == c,
        mark[0] != c,
        free_of(head, c),
    ensures
        find_from(head + mark + tail, mark, 0) == Some(head.len() as int),
{
    let whole = head + mark + tail;
    let n = head.len() as int;
    lemma_match_between(head, mark, tail);
    assert forall|j: int| 0 <= j < n implies !matches_at(whole, mark, j) by {
        lemma_no_match_before(head, mark, tail, c, j);
    }
    lemma_first_match(whole, mark, n);
}

/// Where a pattern occurs at an index and nowhere before it, that index
/// is where it is found first.
pub proof fn lemma_first_match(s: Seq<char>, pat: Seq<char>, n: int)
    requires
        matches_at(s, pat, n),
        forall|j: int| 0 <= j < n ==> !matches_at(s, pat, j),
    ensures
        find_from(s, pat, 0) == Some(n),
{
    lemma_first_match_from(s, pat, n, 0);
}

/// Where a pattern occurs at an index and nowhere between `from` and it,
/// that index is where it is found first from `from` on.
pub proof fn lemma_first_match_from(s: Seq<char>, pat: Seq<char>, n: int, from: int)
    requires
        0 <= from <= n,
        matches_at(s, pat, n),
        forall|j: int| from <= j < n ==> !matches_at(s, pat, j),
    ensures
        find_from(s, pat, from) == Some(n),
    decreases n - from,
{
    if from < n {
        lemma_first_match_from(s, pat, n, from + 1);
    }
}

/// Pieces free of the separator, joined and followed by the separator and
/// a tail, are found again when the text is cut: first the pieces, then
/// the pieces of the tail.
pub proof fn lemma_split_joined(lines: Seq<Seq<char>>, tail: Seq<char>, c: char)
    requires
        lines.len() >= 1,
        forall|i: int| 0 <= i < lines.len() ==> free_of(#[trigger] lines[i], c),
    ensures
        split_on(join_with(lines, seq![c]) + seq![c] + tail, seq![c]) == lines + split_on(
            tail,
            seq![c],
        ),
    decreases lines.len(),
{
    let sep = seq![c];
    if lines.len() == 1 {
        assert(join_with(lines, sep) == lines[0]);
        lemma_split_first(lines[0], tail, c);
        assert(lines == seq![lines[0]]);
    } else {
        let head = lines[0];
        let rest = lines.drop_first();
        assert(lines == seq![head] + rest);
        lemma_join_front(head, rest, sep);
        assert forall|i: int| 0 <= i < rest.len() implies free_of(#[trigger] rest[i], c) by {
            assert(rest[i] == lines[i + 1]);
        }
        lemma_split_joined(rest, tail, c);
        let inner = join_with(rest, sep) + sep + tail;
        lemma_split_first(head, inner, c);
        assert(join_with(lines, sep) + sep + tail == head + sep + inner);
        assert(seq![head] + (rest + split_on(tail, sep)) == lines + split_on(tail, sep));
    }
}

} // verus!

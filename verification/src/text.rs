//! Text as sequences of characters: searching, splitting and joining.
//!
//! Every function here is stated over `Seq<char>`, the view of `str`, `String`
//! and `Vec<char>`. Executable code works on `Vec<char>` and converts at the
//! edges with [`to_chars`] and [`from_chars`].

use vstd::prelude::*;
use vstd::slice::{slice_subrange, slice_to_vec};

verus! {

/// `String::push` appends one character to the end of the string.
pub assume_specification[ String::push ](s: &mut String, c: char)
    ensures
        final(s)@ == old(s)@.push(c),
;

/// The lowercase form of a text, as `str::to_lowercase` computes it.
pub uninterp spec fn lowercase_of(s: Seq<char>) -> Seq<char>;

/// `str::to_lowercase` returns the lowercase equivalent of the slice as a new
/// string. The result depends on the characters alone.
pub assume_specification[ str::to_lowercase ](s: &str) -> (r: String)
    ensures
        r@ == lowercase_of(s@),
;

/// The views of a list of character vectors.
pub open spec fn views(parts: Seq<Vec<char>>) -> Seq<Seq<char>> {
    parts.map_values(|p: Vec<char>| p@)
}

/// The views of a list of strings.
pub open spec fn texts(parts: Seq<String>) -> Seq<Seq<char>> {
    parts.map_values(|p: String| p@)
}

/// `pat` occurs in `s` at index `i`.
pub open spec fn matches_at(s: Seq<char>, pat: Seq<char>, i: int) -> bool {
    &&& 0 <= i
    &&& i + pat.len() <= s.len()
    &&& s.subrange(i, i + pat.len()) == pat
}

/// The index of the first occurrence of `pat` in `s` at or after `from`.
pub open spec fn find_from(s: Seq<char>, pat: Seq<char>, from: int) -> Option<int>
    decreases s.len() - from + 1,
{
    if from < 0 || from + pat.len() > s.len() {
        None
    } else if matches_at(s, pat, from) {
        Some(from)
    } else {
        find_from(s, pat, from + 1)
    }
}

/// `pat` occurs somewhere in `s`.
pub open spec fn contains_text(s: Seq<char>, pat: Seq<char>) -> bool {
    exists|i: int| matches_at(s, pat, i)
}

/// The pieces of `s` from `start` on, cut at each occurrence of `pat`, taken
/// from the left and without overlap.
pub open spec fn split_from(s: Seq<char>, pat: Seq<char>, start: int) -> Seq<Seq<char>>
    decreases s.len() - start + 1,
    via split_from_decreases
{
    match find_from(s, pat, start) {
        Some(i) if pat.len() > 0 => seq![s.subrange(start, i)] + split_from(
            s,
            pat,
            i + pat.len(),
        ),
        _ => seq![s.subrange(start, s.len() as int)],
    }
}

#[via_fn]
proof fn split_from_decreases(s: Seq<char>, pat: Seq<char>, start: int) {
    if 0 <= start {
        lemma_find_from(s, pat, start);
    }
}

/// The pieces of `s` between the occurrences of `pat`. A text with `n`
/// occurrences has `n + 1` pieces, some of which may be empty. An empty
/// pattern cuts nothing.
pub open spec fn split_on(s: Seq<char>, pat: Seq<char>) -> Seq<Seq<char>> {
    split_from(s, pat, 0)
}

/// The pieces joined again, with `sep` between each two neighbours.
pub open spec fn join_with(parts: Seq<Seq<char>>, sep: Seq<char>) -> Seq<char>
    decreases parts.len(),
{
    if parts.len() == 0 {
        Seq::empty()
    } else if parts.len() == 1 {
        parts[0]
    } else {
        join_with(parts.drop_last(), sep) + sep + parts.last()
    }
}

/// `s` with every occurrence of `from` replaced by `to`.
pub open spec fn replace_all(s: Seq<char>, from: Seq<char>, to: Seq<char>) -> Seq<char> {
    join_with(split_on(s, from), to)
}

/// The first match found by [`find_from`] is a match at or after `from`, and
/// nothing between `from` and it matches; no result means no match from
/// `from` on.
pub proof fn lemma_find_from(s: Seq<char>, pat: Seq<char>, from: int)
    requires
        0 <= from,
    ensures
        match find_from(s, pat, from) {
            Some(i) => from <= i && matches_at(s, pat, i) && forall|j: int|
                from <= j < i ==> !matches_at(s, pat, j),
            None => forall|j: int| from <= j ==> !matches_at(s, pat, j),
        },
    decreases s.len() - from + 1,
{
    if from + pat.len() > s.len() {
    } else if matches_at(s, pat, from) {
    } else {
        lemma_find_from(s, pat, from + 1);
    }
}

/// Cutting a text gives at least one piece.
pub proof fn lemma_split_has_piece(s: Seq<char>, pat: Seq<char>, start: int)
    ensures
        split_from(s, pat, start).len() >= 1,
{
}

/// The characters of a string, in order.
pub fn to_chars(s: &str) -> (v: Vec<char>)
    ensures
        v@ == s@,
{
    let mut v: Vec<char> = Vec::new();
    for c in it: s.chars()
        invariant
            v@ == it.seq().take(it.index() as int),
            it.seq() == s@,
    {
        v.push(c);
    }
    v
}

/// The string made of the given characters.
pub fn from_chars(v: &[char]) -> (s: String)
    ensures
        s@ == v@,
{
    let mut s = String::new();
    let mut i: usize = 0;
    while i < v.len()
        invariant
            i <= v.len(),
            s@ == v@.take(i as int),
        decreases v.len() - i,
    {
        s.push(v[i]);
        i += 1;
    }
    s
}

/// Whether two texts hold the same characters.
pub fn same_text(a: &[char], b: &[char]) -> (r: bool)
    ensures
        r == (a@ == b@),
{
    if a.len() != b.len() {
        return false;
    }
    let mut i: usize = 0;
    while i < a.len()
        invariant
            i <= a.len(),
            a.len() == b.len(),
            a@.take(i as int) == b@.take(i as int),
        decreases a.len() - i,
    {
        if a[i] != b[i] {
            return false;
        }
        assert(a@.take(i + 1) == a@.take(i as int).push(a@[i as int]));
        assert(b@.take(i + 1) == b@.take(i as int).push(b@[i as int]));
        i += 1;
    }
    assert(a@ == a@.take(a.len() as int));
    assert(b@ == b@.take(b.len() as int));
    true
}

/// Whether `pat` occurs in `s` at index `i`.
pub fn is_match_at(s: &[char], pat: &[char], i: usize) -> (r: bool)
    ensures
        r == matches_at(s@, pat@, i as int),
{
    if pat.len() > s.len() || i > s.len() - pat.len() {
        return false;
    }
    let mut j: usize = 0;
    while j < pat.len()
        invariant
            j <= pat.len(),
            i + pat.len() <= s.len(),
            s@.subrange(i as int, i + j) == pat@.take(j as int),
        decreases pat.len() - j,
    {
        if s[i + j] != pat[j] {
            assert(s@.subrange(i as int, i + pat.len())[j as int] != pat@[j as int]);
            return false;
        }
        assert(s@.subrange(i as int, i + j + 1) == s@.subrange(i as int, i + j).push(
            s@[i + j],
        ));
        assert(pat@.take(j + 1) == pat@.take(j as int).push(pat@[j as int]));
        j += 1;
    }
    assert(pat@ == pat@.take(pat.len() as int));
    true
}

/// The index of the first occurrence of `pat` in `s` at or after `from`.
pub fn find(s: &[char], pat: &[char], from: usize) -> (r: Option<usize>)
    ensures
        match r {
            Some(i) => find_from(s@, pat@, from as int) == Some(i as int),
            None => find_from(s@, pat@, from as int) is None,
        },
{
    if pat.len() > s.len() {
        return None;
    }
    let last: usize = s.len() - pat.len();
    let mut i: usize = from;
    while i <= last
        invariant
            from <= i,
            last == s.len() - pat.len(),
            find_from(s@, pat@, from as int) == find_from(s@, pat@, i as int),
        decreases last + 1 - i,
    {
        if is_match_at(s, pat, i) {
            return Some(i);
        }
        if i == last {
            assert(find_from(s@, pat@, i + 1) is None);
            return None;
        }
        i += 1;
    }
    None
}

/// Whether `pat` occurs somewhere in `s`.
pub fn contains(s: &[char], pat: &[char]) -> (r: bool)
    ensures
        r == contains_text(s@, pat@),
{
    proof {
        lemma_find_from(s@, pat@, 0);
    }
    find(s, pat, 0).is_some()
}

/// Cuts `s` at each occurrence of `pat`. A text is not cut at an empty
/// pattern: it is its own single piece.
pub fn split(s: &[char], pat: &[char]) -> (parts: Vec<Vec<char>>)
    ensures
        views(parts@) == split_on(s@, pat@),
{
    let mut parts: Vec<Vec<char>> = Vec::new();
    if pat.len() == 0 {
        parts.push(slice_to_vec(s));
        assert(s@.subrange(0, s@.len() as int) == s@);
        assert(views(parts@) == seq![s@]);
        return parts;
    }
    let mut start: usize = 0;
    assert(views(parts@) + split_from(s@, pat@, 0) == split_on(s@, pat@));
    loop
        invariant_except_break
            start <= s.len(),
            pat@.len() > 0,
            split_on(s@, pat@) == views(parts@) + split_from(s@, pat@, start as int),
        ensures
            views(parts@) == split_on(s@, pat@),
        decreases s.len() - start,
    {
        proof {
            lemma_find_from(s@, pat@, start as int);
        }
        let ghost before = parts@;
        match find(s, pat, start) {
            Some(i) => {
                parts.push(slice_to_vec(slice_subrange(s, start, i)));
                assert(views(parts@) == views(before) + seq![s@.subrange(start as int, i as int)]);
                start = i + pat.len();
            },
            None => {
                parts.push(slice_to_vec(slice_subrange(s, start, s.len())));
                assert(views(parts@) == views(before) + seq![
                    s@.subrange(start as int, s@.len() as int),
                ]);
                break ;
            },
        }
    }
    parts
}

/// Joins the pieces with `sep` between each two neighbours.
pub fn join(parts: &Vec<Vec<char>>, sep: &[char]) -> (r: Vec<char>)
    ensures
        r@ == join_with(views(parts@), sep@),
{
    let mut r: Vec<char> = Vec::new();
    let mut i: usize = 0;
    while i < parts.len()
        invariant
            i <= parts.len(),
            r@ == join_with(views(parts@).take(i as int), sep@),
        decreases parts.len() - i,
    {
        let ghost upto = views(parts@).take(i + 1);
        assert(upto.drop_last() == views(parts@).take(i as int));
        assert(upto.last() == parts@[i as int]@);
        if i > 0 {
            append(&mut r, sep);
        }
        append(&mut r, parts[i].as_slice());
        i += 1;
    }
    assert(views(parts@).take(parts.len() as int) == views(parts@));
    r
}

/// Appends the characters of `tail` to `v`.
pub fn append(v: &mut Vec<char>, tail: &[char])
    ensures
        final(v)@ == old(v)@ + tail@,
{
    let mut i: usize = 0;
    while i < tail.len()
        invariant
            i <= tail.len(),
            v@ == old(v)@ + tail@.take(i as int),
        decreases tail.len() - i,
    {
        v.push(tail[i]);
        assert(tail@.take(i + 1) == tail@.take(i as int).push(tail@[i as int]));
        i += 1;
    }
    assert(tail@.take(tail.len() as int) == tail@);
}

/// Replaces every occurrence of `from` in `s` by `to`. An empty `from`
/// is replaced nowhere.
pub fn replace(s: &[char], from: &[char], to: &[char]) -> (r: Vec<char>)
    ensures
        r@ == replace_all(s@, from@, to@),
{
    let parts = split(s, from);
    join(&parts, to)
}

} // verus!

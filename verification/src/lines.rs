//! Lines, words and surrounding white space of a text.

use vstd::prelude::*;
use vstd::slice::{slice_subrange, slice_to_vec};
use crate::text::{find, find_from, lemma_find_from, views};

verus! {

/// White space: the characters with the Unicode property `White_Space`.
pub open spec fn is_space(c: char) -> bool {
    let u = c as u32;
    ||| 0x09 <= u <= 0x0D
    ||| u == 0x20
    ||| u == 0x85
    ||| u == 0xA0
    ||| u == 0x1680
    ||| 0x2000 <= u <= 0x200A
    ||| u == 0x2028
    ||| u == 0x2029
    ||| u == 0x202F
    ||| u == 0x205F
    ||| u == 0x3000
}

/// A line without the carriage return that may end it.
pub open spec fn strip_cr(line: Seq<char>) -> Seq<char> {
    if line.len() > 0 && line.last() == '\r' {
        line.drop_last()
    } else {
        line
    }
}

/// The lines of `s` from `start` on. A line ends at a line feed; a carriage
/// return just before that line feed is not part of the line. What follows
/// the last line feed is a line only if it is not empty.
pub open spec fn lines_from(s: Seq<char>, start: int) -> Seq<Seq<char>>
    decreases s.len() - start + 1,
    via lines_from_decreases
{
    if start < 0 || start >= s.len() {
        Seq::empty()
    } else {
        match find_from(s, seq!['\n'], start) {
            Some(i) => seq![strip_cr(s.subrange(start, i))] + lines_from(s, i + 1),
            None => seq![s.subrange(start, s.len() as int)],
        }
    }
}

#[via_fn]
proof fn lines_from_decreases(s: Seq<char>, start: int) {
    if 0 <= start {
        lemma_find_from(s, seq!['\n'], start);
    }
}

/// The lines of `s`.
pub open spec fn lines_of(s: Seq<char>) -> Seq<Seq<char>> {
    lines_from(s, 0)
}

/// The first index at or after `from` that holds no white space, or the
/// length of `s` if there is none.
pub open spec fn skip_spaces(s: Seq<char>, from: int) -> int
    decreases s.len() - from,
{
    if 0 <= from < s.len() && is_space(s[from]) {
        skip_spaces(s, from + 1)
    } else {
        from
    }
}

/// The first index at or after `from` that holds white space, or the length
/// of `s` if there is none.
pub open spec fn skip_word(s: Seq<char>, from: int) -> int
    decreases s.len() - from,
{
    if 0 <= from < s.len() && !is_space(s[from]) {
        skip_word(s, from + 1)
    } else {
        from
    }
}

/// The end of `s[..to]` once the white space at its end is cut off.
pub open spec fn skip_spaces_back(s: Seq<char>, to: int) -> int
    decreases to,
{
    if 0 < to <= s.len() && is_space(s[to - 1]) {
        skip_spaces_back(s, to - 1)
    } else {
        to
    }
}

/// The words of `s` from `start` on: the longest runs of characters that
/// are not white space.
pub open spec fn words_from(s: Seq<char>, start: int) -> Seq<Seq<char>>
    decreases s.len() - start + 1,
    via words_from_decreases
{
    let begin = skip_spaces(s, start);
    if start < 0 || begin >= s.len() {
        Seq::empty()
    } else {
        let end = skip_word(s, begin);
        seq![s.subrange(begin, end)] + words_from(s, end)
    }
}

#[via_fn]
proof fn words_from_decreases(s: Seq<char>, start: int) {
    if 0 <= start <= s.len() {
        lemma_skip_spaces(s, start);
        lemma_skip_word(s, skip_spaces(s, start));
    }
}

/// The words of `s`.
pub open spec fn words_of(s: Seq<char>) -> Seq<Seq<char>> {
    words_from(s, 0)
}

/// `s` without the white space at its start and at its end.
pub open spec fn trim_of(s: Seq<char>) -> Seq<char> {
    let begin = skip_spaces(s, 0);
    if begin >= s.len() {
        Seq::empty()
    } else {
        s.subrange(begin, skip_spaces_back(s, s.len() as int))
    }
}

/// [`skip_spaces`] stops within the text, at the first character that is not
/// white space.
pub proof fn lemma_skip_spaces(s: Seq<char>, from: int)
    requires
        0 <= from <= s.len(),
    ensures
        from <= skip_spaces(s, from) <= s.len(),
        forall|j: int| from <= j < skip_spaces(s, from) ==> is_space(s[j]),
        skip_spaces(s, from) < s.len() ==> !is_space(s[skip_spaces(s, from)]),
    decreases s.len() - from,
{
    if from < s.len() && is_space(s[from]) {
        lemma_skip_spaces(s, from + 1);
    }
}

/// [`skip_word`] stops within the text, at the first white space.
pub proof fn lemma_skip_word(s: Seq<char>, from: int)
    requires
        0 <= from <= s.len(),
    ensures
        from <= skip_word(s, from) <= s.len(),
        forall|j: int| from <= j < skip_word(s, from) ==> !is_space(s[j]),
        skip_word(s, from) < s.len() ==> is_space(s[skip_word(s, from)]),
        from < s.len() && !is_space(s[from]) ==> from < skip_word(s, from),
    decreases s.len() - from,
{
    if from < s.len() && !is_space(s[from]) {
        lemma_skip_word(s, from + 1);
    }
}

/// [`skip_spaces_back`] stops within the text, just after the last character
/// before `to` that is not white space.
pub proof fn lemma_skip_spaces_back(s: Seq<char>, to: int)
    requires
        0 <= to <= s.len(),
    ensures
        0 <= skip_spaces_back(s, to) <= to,
        forall|j: int| skip_spaces_back(s, to) <= j < to ==> is_space(s[j]),
        skip_spaces_back(s, to) > 0 ==> !is_space(s[skip_spaces_back(s, to) - 1]),
    decreases to,
{
    if 0 < to && is_space(s[to - 1]) {
        lemma_skip_spaces_back(s, to - 1);
    }
}

/// Whether `c` is white space.
pub fn is_whitespace(c: char) -> (r: bool)
    ensures
        r == is_space(c),
{
    let u: u32 = c as u32;
    (0x09 <= u && u <= 0x0D) || u == 0x20 || u == 0x85 || u == 0xA0 || u == 0x1680 || (0x2000 <= u
        && u <= 0x200A) || u == 0x2028 || u == 0x2029 || u == 0x202F || u == 0x205F || u == 0x3000
}

/// Cuts `s` into its lines.
pub fn lines(s: &[char]) -> (r: Vec<Vec<char>>)
    ensures
        views(r@) == lines_of(s@),
{
    let mut r: Vec<Vec<char>> = Vec::new();
    let feed: Vec<char> = vec!['\n'];
    assert(feed@ == seq!['\n']);
    let mut start: usize = 0;
    while start < s.len()
        invariant
            start <= s.len(),
            feed@ == seq!['\n'],
            lines_of(s@) == views(r@) + lines_from(s@, start as int),
        decreases s.len() - start,
    {
        proof {
            lemma_find_from(s@, feed@, start as int);
        }
        let ghost before = r@;
        match find(s, feed.as_slice(), start) {
            Some(i) => {
                let mut end: usize = i;
                if end > start && s[end - 1] == '\r' {
                    end = end - 1;
                }
                r.push(slice_to_vec(slice_subrange(s, start, end)));
                assert(s@.subrange(start as int, end as int) == strip_cr(
                    s@.subrange(start as int, i as int),
                ));
                assert(views(r@) == views(before) + seq![
                    strip_cr(s@.subrange(start as int, i as int)),
                ]);
                start = i + 1;
            },
            None => {
                r.push(slice_to_vec(slice_subrange(s, start, s.len())));
                assert(views(r@) == views(before) + seq![
                    s@.subrange(start as int, s@.len() as int),
                ]);
                start = s.len();
            },
        }
    }
    r
}

/// Cuts `s` into its words.
pub fn split_whitespace(s: &[char]) -> (r: Vec<Vec<char>>)
    ensures
        views(r@) == words_of(s@),
{
    let mut r: Vec<Vec<char>> = Vec::new();
    let mut start: usize = 0;
    loop
        invariant_except_break
            start <= s.len(),
            words_of(s@) == views(r@) + words_from(s@, start as int),
        ensures
            views(r@) == words_of(s@),
        decreases s.len() - start,
    {
        let begin = past_spaces(s, start);
        if begin >= s.len() {
            break ;
        }
        let end = past_word(s, begin);
        proof {
            lemma_skip_spaces(s@, start as int);
            lemma_skip_word(s@, begin as int);
        }
        let ghost before = r@;
        r.push(slice_to_vec(slice_subrange(s, begin, end)));
        assert(views(r@) == views(before) + seq![s@.subrange(begin as int, end as int)]);
        start = end;
    }
    r
}

/// The first index at or after `from` that holds no white space.
fn past_spaces(s: &[char], from: usize) -> (r: usize)
    requires
        from <= s.len(),
    ensures
        r == skip_spaces(s@, from as int),
        from <= r <= s.len(),
{
    let mut i: usize = from;
    while i < s.len() && is_whitespace(s[i])
        invariant
            from <= i <= s.len(),
            skip_spaces(s@, from as int) == skip_spaces(s@, i as int),
        decreases s.len() - i,
    {
        i += 1;
    }
    i
}

/// The first index at or after `from` that holds white space.
fn past_word(s: &[char], from: usize) -> (r: usize)
    requires
        from <= s.len(),
    ensures
        r == skip_word(s@, from as int),
        from <= r <= s.len(),
{
    let mut i: usize = from;
    while i < s.len() && !is_whitespace(s[i])
        invariant
            from <= i <= s.len(),
            skip_word(s@, from as int) == skip_word(s@, i as int),
        decreases s.len() - i,
    {
        i += 1;
    }
    i
}

/// `s` without the white space at its start and at its end.
pub fn trim(s: &[char]) -> (r: Vec<char>)
    ensures
        r@ == trim_of(s@),
{
    let begin = past_spaces(s, 0);
    if begin >= s.len() {
        return Vec::new();
    }
    let mut end: usize = s.len();
    while end > 0 && is_whitespace(s[end - 1])
        invariant
            end <= s.len(),
            skip_spaces_back(s@, s@.len() as int) == skip_spaces_back(s@, end as int),
        decreases end,
    {
        end -= 1;
    }
    proof {
        lemma_skip_spaces(s@, 0);
        lemma_skip_spaces_back(s@, s@.len() as int);
    }
    slice_to_vec(slice_subrange(s, begin, end))
}

} // verus!

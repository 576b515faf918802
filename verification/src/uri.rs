//! Paths as the routing table keeps them.

use vstd::prelude::*;
use vstd::slice::slice_subrange;
use crate::text::{
    contains, contains_text, from_chars, join, join_with, lemma_split_has_piece, replace,
    replace_all, split, split_on, to_chars, views,
};

verus! {

/// A path as the routing table keys it: without the slash that may lead
/// it and without the slash that may end it. The root `/` stays as it is.
pub open spec fn bare_path(path: Seq<char>) -> Seq<char> {
    if path.len() == 1 && path[0] == '/' {
        path
    } else {
        let rest = if path.len() > 0 && path[0] == '/' {
            path.drop_first()
        } else {
            path
        };
        if rest.len() > 0 && rest.last() == '/' {
            rest.drop_last()
        } else {
            rest
        }
    }
}

/// The path that a request is routed by: the path without its outer
/// slashes, as the routing table keys paths. Where the last segment of a
/// path of several segments holds a dot, and so looks like a file name, the
/// path loses that segment.
pub open spec fn route_path(uri: Seq<char>) -> Seq<char> {
    let bare = bare_path(uri);
    let segments = split_on(bare, seq!['/']);
    if segments.len() > 1 && contains_text(segments.last(), seq!['.']) {
        join_with(segments.drop_last(), seq!['/'])
    } else {
        bare
    }
}

/// A name for a path: `prefix`, then the path with `-` for each `/`.
pub open spec fn server_name(prefix: Seq<char>, path: Seq<char>) -> Seq<char> {
    prefix + replace_all(path, seq!['/'], seq!['-'])
}

/// The path as the routing table keys it.
pub fn strip_slashes(path: &str) -> (r: String)
    ensures
        r@ == bare_path(path@),
{
    let chars = to_chars(path);
    let n = chars.len();
    if n == 1 && chars[0] == '/' {
        return from_chars(chars.as_slice());
    }
    let begin: usize = if n > 0 && chars[0] == '/' {
        1
    } else {
        0
    };
    let end: usize = if n > begin && chars[n - 1] == '/' {
        n - 1
    } else {
        n
    };
    let kept = slice_subrange(chars.as_slice(), begin, end);
    assert(kept@ == bare_path(path@));
    from_chars(kept)
}

/// The path that a request for `uri` is routed by.
pub fn normalize_uri(uri: &str) -> (r: String)
    ensures
        r@ == route_path(uri@),
{
    let bare = strip_slashes(uri);
    let chars = to_chars(bare.as_str());
    let slash: Vec<char> = vec!['/'];
    let dot: Vec<char> = vec!['.'];
    assert(slash@ == seq!['/']);
    assert(dot@ == seq!['.']);
    let mut segments = split(chars.as_slice(), slash.as_slice());
    proof {
        lemma_split_has_piece(chars@, slash@, 0);
    }
    let n = segments.len();
    if n > 1 && contains(segments[n - 1].as_slice(), dot.as_slice()) {
        let ghost before = segments@;
        segments.pop();
        assert(views(segments@) == views(before).drop_last());
        let joined = join(&segments, slash.as_slice());
        from_chars(joined.as_slice())
    } else {
        from_chars(chars.as_slice())
    }
}

/// A name for a path: `prefix`, then the path with `-` for each `/`.
pub fn compose_server_name(prefix: &str, path: &str) -> (r: String)
    ensures
        r@ == server_name(prefix@, path@),
{
    let chars = to_chars(path);
    let slash: Vec<char> = vec!['/'];
    let dash: Vec<char> = vec!['-'];
    assert(slash@ == seq!['/']);
    assert(dash@ == seq!['-']);
    let replaced = replace(chars.as_slice(), slash.as_slice(), dash.as_slice());
    let mut name = to_chars(prefix);
    crate::text::append(&mut name, replaced.as_slice());
    from_chars(name.as_slice())
}

} // verus!

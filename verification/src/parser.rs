//! Reading a request from its text.
//!
//! The first line holds the method and the target, the lines after it up to
//! the first empty line hold the headers, and what follows that empty line is
//! the body. Each part of a [`Request`] is read from the text or from the
//! target on its own.

use vstd::prelude::*;
use vstd::slice::slice_subrange;
use crate::common::{
    copy_text, header_views, is_json, method_of, mime_of, param_views, Credentials, Header,
    KeyValue, Method, MimeType, Params, RequestBody, RequestError, UserInfo,
};
use crate::lines::{lines, lines_of, split_whitespace, words_of};
use crate::number::{parse_u32, parse_u32_of};
use crate::request::{find_last_value, last_value, Request, RequestView};
use crate::text::{
    find, find_from, from_chars, join, join_with, lemma_find_from, lemma_split_has_piece,
    lowercase_of, split, split_on, texts, to_chars, views,
};

verus! {

/// The empty line that ends the headers: two line ends in a row.
pub open spec fn head_end() -> Seq<char> {
    seq!['\r', '\n', '\r', '\n']
}

/// What separates the key of a header from its value.
pub open spec fn key_end() -> Seq<char> {
    seq![':', ' ']
}

/// What ends the scheme of a target.
pub open spec fn scheme_end() -> Seq<char> {
    seq![':', '/', '/']
}

/// What starts the query of a target.
pub open spec fn query_start() -> Seq<char> {
    seq!['?', 'q', '=']
}

/// The words of the first line of a request.
pub open spec fn request_words(req: Seq<char>) -> Seq<Seq<char>> {
    if lines_of(req).len() > 0 {
        words_of(lines_of(req)[0])
    } else {
        Seq::empty()
    }
}

/// The method of a request: its first word, whatever its case.
pub open spec fn method_in(req: Seq<char>) -> Option<Method> {
    if request_words(req).len() > 0 {
        Some(method_of(lowercase_of(request_words(req)[0])))
    } else {
        None
    }
}

/// The target of a request: its second word.
pub open spec fn location_in(req: Seq<char>) -> Option<Seq<char>> {
    if request_words(req).len() > 1 {
        Some(request_words(req)[1])
    } else {
        None
    }
}

/// The key and the value that a header line holds as it is written: the
/// line has to fall into exactly two pieces at `": "`.
pub open spec fn header_parts(line: Seq<char>) -> Option<KeyValue> {
    let parts = split_on(line, key_end());
    if parts.len() == 2 {
        Some(KeyValue { key: parts[0], value: parts[1] })
    } else {
        None
    }
}

/// The headers that the given lines hold, with their keys in lowercase. A
/// line that is no header is passed over.
pub open spec fn headers_of_lines(lines: Seq<Seq<char>>) -> Seq<KeyValue>
    decreases lines.len(),
{
    if lines.len() == 0 {
        Seq::empty()
    } else {
        let before = headers_of_lines(lines.drop_last());
        match header_parts(lines.last()) {
            Some(h) => before.push(KeyValue { key: lowercase_of(h.key), value: h.value }),
            None => before,
        }
    }
}

/// The part of a request before the empty line that ends the headers.
pub open spec fn head_in(req: Seq<char>) -> Seq<char> {
    split_on(req, head_end())[0]
}

/// The headers of a request: those of the lines of the head after its
/// first line.
pub open spec fn headers_in(req: Seq<char>) -> Seq<KeyValue> {
    let all = lines_of(head_in(req));
    if all.len() > 0 {
        headers_of_lines(all.drop_first())
    } else {
        Seq::empty()
    }
}

/// The value of the last header with the given key, or the empty text.
pub open spec fn value_or_empty(headers: Seq<KeyValue>, key: Seq<char>) -> Seq<char> {
    match last_value(headers, key) {
        Some(v) => v,
        None => Seq::empty(),
    }
}

/// The scheme of a target: what stands before `://` where the target holds
/// it exactly once, `http` otherwise.
pub open spec fn scheme_in(location: Seq<char>) -> Seq<char> {
    let parts = split_on(location, scheme_end());
    if parts.len() == 2 {
        parts[0]
    } else {
        "http"@
    }
}

/// The part of a target that names the user, where the target holds an
/// `@`: what stands before the first `@`, without the scheme.
pub open spec fn user_part_in(location: Seq<char>) -> Option<Seq<char>> {
    let parts = split_on(location, seq!['@']);
    if parts.len() >= 2 {
        let inner = split_on(parts[0], scheme_end());
        if inner.len() == 2 {
            Some(inner[1])
        } else {
            Some(parts[0])
        }
    } else {
        None
    }
}

/// The user name and password of a target. A target without `@` names
/// nobody; one with `@` has to give a name, a colon and a password.
pub open spec fn userinfo_in(location: Seq<char>) -> Option<Credentials> {
    match user_part_in(location) {
        None => Some(Credentials { username: Seq::empty(), password: Seq::empty() }),
        Some(part) => {
            let pieces = split_on(part, seq![':']);
            if pieces.len() >= 2 {
                Some(Credentials { username: pieces[0], password: pieces[1] })
            } else {
                None
            }
        },
    }
}

/// The port of a target: the number after its last colon, or 80.
pub open spec fn port_in(location: Seq<char>) -> u32 {
    match parse_u32_of(split_on(location, seq![':']).last()) {
        Some(port) => port,
        None => 80,
    }
}

/// The parameter that one piece of a query holds: its key before the first
/// `=`, its value after it and up to the next.
pub open spec fn param_in(piece: Seq<char>) -> Option<KeyValue> {
    let parts = split_on(piece, seq!['=']);
    if parts.len() >= 2 {
        Some(KeyValue { key: parts[0], value: parts[1] })
    } else {
        None
    }
}

/// The parameters that the pieces of a query hold, if each piece holds one.
pub open spec fn params_of_pieces(pieces: Seq<Seq<char>>) -> Option<Seq<KeyValue>>
    decreases pieces.len(),
{
    if pieces.len() == 0 {
        Some(Seq::empty())
    } else {
        match (params_of_pieces(pieces.drop_last()), param_in(pieces.last())) {
            (Some(before), Some(p)) => Some(before.push(p)),
            _ => None,
        }
    }
}

/// The parameters of a target. The query starts at `?q=` and its pieces are
/// separated by `&`; a target that does not hold `?q=` exactly once has no
/// parameters.
pub open spec fn params_in(location: Seq<char>) -> Option<Seq<KeyValue>> {
    let parts = split_on(location, query_start());
    if parts.len() == 2 {
        params_of_pieces(split_on(parts[1], seq!['&']))
    } else {
        Some(Seq::empty())
    }
}

/// The target without its query.
pub open spec fn bare_url_in(location: Seq<char>) -> Seq<char> {
    split_on(location, query_start())[0]
}

/// The segments of a target after its first two.
pub open spec fn uri_paths_in(location: Seq<char>) -> Seq<Seq<char>> {
    let parts = split_on(location, seq!['/']);
    if parts.len() > 1 {
        parts.skip(2)
    } else {
        Seq::empty()
    }
}

/// The path of a target as it is written: the target from its first slash
/// on, without that slash and without the query.
pub open spec fn path_in(location: Seq<char>) -> Seq<char> {
    let parts = split_on(location, seq!['/']);
    split_on(join_with(parts.drop_first(), seq!['/']), query_start())[0]
}

/// The path that a request is known by: the path of its target in
/// lowercase, or `/` where that path is empty.
pub open spec fn uri_in(location: Seq<char>) -> Seq<char> {
    if path_in(location).len() == 0 {
        seq!['/']
    } else {
        lowercase_of(path_in(location))
    }
}

/// The text of the body: all that follows the first empty line.
pub open spec fn body_text_in(req: Seq<char>) -> Seq<char> {
    match find_from(req, head_end(), 0) {
        Some(i) => req.subrange(i + 4, req.len() as int),
        None => Seq::empty(),
    }
}

/// The content type that the headers announce.
pub open spec fn ctype_in(headers: Seq<KeyValue>) -> MimeType {
    mime_of(value_or_empty(headers, "content-type"@))
}

/// Why a request text cannot be read, if it cannot. The first of the
/// reasons that applies is given.
pub open spec fn request_error(req: Seq<char>) -> Option<RequestError> {
    if request_words(req).len() == 0 {
        Some(RequestError::MissingMethod)
    } else if request_words(req).len() == 1 {
        Some(RequestError::MissingTarget)
    } else if params_in(request_words(req)[1]) is None {
        Some(RequestError::MalformedQuery)
    } else if userinfo_in(request_words(req)[1]) is None {
        Some(RequestError::MalformedUserInfo)
    } else if ctype_in(headers_in(req)) == MimeType::ApplicationJson && !is_json(
        body_text_in(req),
    ) {
        Some(RequestError::InvalidJson)
    } else {
        None
    }
}

/// What the request read from `req` holds, given its body.
pub open spec fn request_in(req: Seq<char>, ip: Seq<char>, body: RequestBody) -> RequestView {
    let location = request_words(req)[1];
    let headers = headers_in(req);
    RequestView {
        headers,
        body,
        uri: uri_in(location),
        uri_params: params_in(location).unwrap(),
        uri_paths: uri_paths_in(location),
        bare_uri: bare_url_in(location),
        method: method_of(lowercase_of(request_words(req)[0])),
        port: port_in(location),
        userinfo: userinfo_in(location).unwrap(),
        host: value_or_empty(headers, "host"@),
        scheme: scheme_in(location),
        referer: value_or_empty(headers, "referer"@),
        content_type: ctype_in(headers),
        ip,
        location,
    }
}

/// Once a piece of a query holds no parameter, the query holds none.
pub proof fn lemma_params_stay_none(pieces: Seq<Seq<char>>, n: int)
    requires
        0 <= n <= pieces.len(),
        params_of_pieces(pieces.take(n)) is None,
    ensures
        params_of_pieces(pieces) is None,
    decreases pieces.len() - n,
{
    if n == pieces.len() {
        assert(pieces.take(n) == pieces);
    } else {
        assert(pieces.take(n + 1).drop_last() == pieces.take(n));
        lemma_params_stay_none(pieces, n + 1);
    }
}

/// The words of the first line of a request.
fn first_words(req: &String) -> (words: Vec<Vec<char>>)
    ensures
        views(words@) == request_words(req@),
{
    let chars = to_chars(req.as_str());
    let all = lines(chars.as_slice());
    if all.len() > 0 {
        split_whitespace(all[0].as_slice())
    } else {
        Vec::new()
    }
}

/// The value of the last header with the given key, or the empty text.
fn header_value(headers: &Vec<Header>, key: &str) -> (r: String)
    ensures
        r@ == value_or_empty(header_views(headers@), key@),
{
    match find_last_value(headers, key) {
        Some(v) => v,
        None => String::new(),
    }
}

pub struct RequestParser;

impl RequestParser {
    /// Reads a request from its text; `ip` is the address it came from.
    ///
    /// The text is read if its first line has a method and a target, the
    /// query and the user information of the target are well formed, and a
    /// body announced as JSON is JSON. Otherwise the first of these that
    /// fails is reported.
    pub fn parse_and_create(req: &String, ip: String) -> (r: Result<Request, RequestError>)
        ensures
            match r {
                Ok(request) => {
                    &&& request_error(req@) is None
                    &&& request@ == request_in(req@, ip@, request@.body)
                    &&& request@.body.holds(body_text_in(req@), ctype_in(headers_in(req@)))
                },
                Err(e) => request_error(req@) == Some(e),
            },
    {
        let method = match Self::get_method(req) {
            Some(m) => m,
            None => {
                return Err(RequestError::MissingMethod);
            },
        };
        let location = match Self::get_location(req) {
            Some(l) => l,
            None => {
                return Err(RequestError::MissingTarget);
            },
        };
        let uri = Self::get_uri(&location);
        let headers = Self::get_headers(req);
        let host = Self::get_host(&headers);
        let referer = Self::get_referer(&headers);
        let content_type = Self::get_ctype(&headers);
        let scheme = Self::get_scheme(&location);
        let uri_params = match Self::get_url_params(&location) {
            Some(p) => p,
            None => {
                return Err(RequestError::MalformedQuery);
            },
        };
        let userinfo = match Self::get_userpass(&location) {
            Some(u) => u,
            None => {
                return Err(RequestError::MalformedUserInfo);
            },
        };
        let bare_uri = Self::get_bare_url(&location);
        let port = Self::get_port(&location);
        let uri_paths = Self::get_uri_paths(&location);
        let body = match Self::get_body(req, content_type) {
            Ok(b) => b,
            Err(e) => {
                return Err(e);
            },
        };
        Ok(
            Request::new(
                headers,
                body,
                uri,
                uri_params,
                uri_paths,
                bare_uri,
                method,
                port,
                userinfo,
                host,
                scheme,
                referer,
                content_type,
                ip,
                location,
            ),
        )
    }

    /// The method of a request, or `None` where the request has no first
    /// word.
    pub fn get_method(req: &String) -> (r: Option<Method>)
        ensures
            r == method_in(req@),
    {
        let words = first_words(req);
        if words.len() > 0 {
            let first_word = from_chars(words[0].as_slice());
            Some(Method::from(first_word))
        } else {
            None
        }
    }

    /// The target of a request, or `None` where the first line has no
    /// second word.
    pub fn get_location(req: &String) -> (r: Option<String>)
        ensures
            match r {
                Some(l) => location_in(req@) == Some(l@),
                None => location_in(req@) is None,
            },
    {
        let words = first_words(req);
        if words.len() > 1 {
            Some(from_chars(words[1].as_slice()))
        } else {
            None
        }
    }

    /// The key and the value of a header line as they are written, or
    /// `None` where the line is no header.
    pub fn get_header_parts(line: &[char]) -> (r: Option<(String, String)>)
        ensures
            match r {
                Some((key, value)) => header_parts(line@) == Some(
                    KeyValue { key: key@, value: value@ },
                ),
                None => header_parts(line@) is None,
            },
    {
        let pat: Vec<char> = vec![':', ' '];
        assert(pat@ == key_end());
        let parts = split(line, pat.as_slice());
        if parts.len() == 2 {
            Some((from_chars(parts[0].as_slice()), from_chars(parts[1].as_slice())))
        } else {
            None
        }
    }

    /// The headers of a request, in the order of their lines, with their
    /// keys in lowercase.
    pub fn get_headers(req: &String) -> (ret: Vec<Header>)
        ensures
            header_views(ret@) == headers_in(req@),
    {
        let chars = to_chars(req.as_str());
        let cchar: Vec<char> = vec!['\r', '\n', '\r', '\n'];
        assert(cchar@ == head_end());
        let blocks = split(chars.as_slice(), cchar.as_slice());
        proof {
            lemma_split_has_piece(chars@, cchar@, 0);
        }
        let all = lines(blocks[0].as_slice());
        let mut ret: Vec<Header> = Vec::new();
        if all.len() == 0 {
            assert(header_views(ret@) == Seq::<KeyValue>::empty());
            return ret;
        }
        let ghost rest = views(all@).drop_first();
        let mut i: usize = 1;
        assert(rest.take(0) == Seq::<Seq<char>>::empty());
        assert(header_views(ret@) == Seq::<KeyValue>::empty());
        while i < all.len()
            invariant
                1 <= i <= all.len(),
                rest == views(all@).drop_first(),
                header_views(ret@) == headers_of_lines(rest.take(i - 1)),
            decreases all.len() - i,
        {
            let ghost upto = rest.take(i as int);
            assert(upto.drop_last() == rest.take(i - 1));
            assert(upto.last() == all@[i as int]@);
            let ghost before = ret@;
            match Self::get_header_parts(all[i].as_slice()) {
                Some((raw_key, value)) => {
                    let key = raw_key.as_str().to_lowercase();
                    ret.push(Header { key, value });
                    assert(header_views(ret@) == header_views(before).push(
                        KeyValue { key: lowercase_of(raw_key@), value: value@ },
                    ));
                },
                None => {},
            }
            i += 1;
        }
        assert(rest.take(all.len() - 1) == rest);
        ret
    }

    /// The value of the last `host` header, or the empty text.
    pub fn get_host(headers: &Vec<Header>) -> (ret: String)
        ensures
            ret@ == value_or_empty(header_views(headers@), "host"@),
    {
        header_value(headers, "host")
    }

    /// The value of the last `referer` header, or the empty text.
    pub fn get_referer(headers: &Vec<Header>) -> (ret: String)
        ensures
            ret@ == value_or_empty(header_views(headers@), "referer"@),
    {
        header_value(headers, "referer")
    }

    /// The content type that the last `content-type` header names; plain
    /// text where there is none or where it names no known type.
    pub fn get_ctype(headers: &Vec<Header>) -> (ret: MimeType)
        ensures
            ret == ctype_in(header_views(headers@)),
    {
        let value = header_value(headers, "content-type");
        MimeType::from_header_value(value.as_str())
    }

    /// The scheme of a target.
    pub fn get_scheme(location: &String) -> (scheme: String)
        ensures
            scheme@ == scheme_in(location@),
    {
        let chars = to_chars(location.as_str());
        let pat: Vec<char> = vec![':', '/', '/'];
        assert(pat@ == scheme_end());
        let uri_split = split(chars.as_slice(), pat.as_slice());
        if uri_split.len() == 2 {
            from_chars(uri_split[0].as_slice())
        } else {
            copy_text("http")
        }
    }

    /// The user name and password of a target, or `None` where the target
    /// holds an `@` and what stands before it has no colon.
    pub fn get_userpass(location: &String) -> (r: Option<UserInfo>)
        ensures
            match r {
                Some(info) => userinfo_in(location@) == Some(info@),
                None => userinfo_in(location@) is None,
            },
    {
        let chars = to_chars(location.as_str());
        let at: Vec<char> = vec!['@'];
        let pat: Vec<char> = vec![':', '/', '/'];
        let colon: Vec<char> = vec![':'];
        assert(at@ == seq!['@']);
        assert(pat@ == scheme_end());
        assert(colon@ == seq![':']);
        let uri_split = split(chars.as_slice(), at.as_slice());
        if uri_split.len() >= 2 {
            let inner = split(uri_split[0].as_slice(), pat.as_slice());
            let split_on_colon = if inner.len() == 2 {
                split(inner[1].as_slice(), colon.as_slice())
            } else {
                split(uri_split[0].as_slice(), colon.as_slice())
            };
            if split_on_colon.len() >= 2 {
                Some(
                    UserInfo {
                        username: from_chars(split_on_colon[0].as_slice()),
                        password: from_chars(split_on_colon[1].as_slice()),
                    },
                )
            } else {
                None
            }
        } else {
            Some(UserInfo { username: String::new(), password: String::new() })
        }
    }

    /// The port of a target.
    pub fn get_port(location: &String) -> (port: u32)
        ensures
            port == port_in(location@),
    {
        let chars = to_chars(location.as_str());
        let colon: Vec<char> = vec![':'];
        assert(colon@ == seq![':']);
        let parts = split(chars.as_slice(), colon.as_slice());
        proof {
            lemma_split_has_piece(chars@, colon@, 0);
        }
        match parse_u32(parts[parts.len() - 1].as_slice()) {
            Some(res) => res,
            None => 80u32,
        }
    }

    /// The parameters of a target, or `None` where a piece of its query has
    /// no `=`.
    pub fn get_url_params(location: &String) -> (r: Option<Vec<Params>>)
        ensures
            match r {
                Some(params) => params_in(location@) == Some(param_views(params@)),
                None => params_in(location@) is None,
            },
    {
        let chars = to_chars(location.as_str());
        let start: Vec<char> = vec!['?', 'q', '='];
        let amp: Vec<char> = vec!['&'];
        let eq: Vec<char> = vec!['='];
        assert(start@ == query_start());
        assert(amp@ == seq!['&']);
        assert(eq@ == seq!['=']);
        let uri_split = split(chars.as_slice(), start.as_slice());
        let mut ret: Vec<Params> = Vec::new();
        assert(param_views(ret@) == Seq::<KeyValue>::empty());
        if uri_split.len() != 2 {
            return Some(ret);
        }
        let pieces = split(uri_split[1].as_slice(), amp.as_slice());
        let mut i: usize = 0;
        assert(views(pieces@).take(0) == Seq::<Seq<char>>::empty());
        while i < pieces.len()
            invariant
                i <= pieces.len(),
                eq@ == seq!['='],
                params_in(location@) == params_of_pieces(views(pieces@)),
                params_of_pieces(views(pieces@).take(i as int)) == Some(param_views(ret@)),
            decreases pieces.len() - i,
        {
            let ghost upto = views(pieces@).take(i + 1);
            assert(upto.drop_last() == views(pieces@).take(i as int));
            assert(upto.last() == pieces@[i as int]@);
            let x_split = split(pieces[i].as_slice(), eq.as_slice());
            if x_split.len() < 2 {
                proof {
                    assert(param_in(upto.last()) is None);
                    assert(params_of_pieces(upto) is None);
                    lemma_params_stay_none(views(pieces@), i + 1);
                }
                return None;
            }
            let ghost before = ret@;
            let param = Params {
                key: from_chars(x_split[0].as_slice()),
                value: from_chars(x_split[1].as_slice()),
            };
            ret.push(param);
            assert(param_views(ret@) == param_views(before).push(param@));
            i += 1;
        }
        assert(views(pieces@).take(pieces.len() as int) == views(pieces@));
        Some(ret)
    }

    /// The target without its query.
    pub fn get_bare_url(location: &String) -> (r: String)
        ensures
            r@ == bare_url_in(location@),
    {
        let chars = to_chars(location.as_str());
        let start: Vec<char> = vec!['?', 'q', '='];
        assert(start@ == query_start());
        let uri_split = split(chars.as_slice(), start.as_slice());
        proof {
            lemma_split_has_piece(chars@, start@, 0);
        }
        from_chars(uri_split[0].as_slice())
    }

    /// The segments of a target after its first two.
    pub fn get_uri_paths(uri: &String) -> (ret: Vec<String>)
        ensures
            texts(ret@) == uri_paths_in(uri@),
    {
        let chars = to_chars(uri.as_str());
        let slash: Vec<char> = vec!['/'];
        assert(slash@ == seq!['/']);
        let uri_split = split(chars.as_slice(), slash.as_slice());
        let mut ret: Vec<String> = Vec::new();
        assert(texts(ret@) == Seq::<Seq<char>>::empty());
        if uri_split.len() <= 1 {
            return ret;
        }
        let ghost wanted = views(uri_split@).skip(2);
        let mut i: usize = 2;
        assert(wanted.take(0) == texts(ret@));
        while i < uri_split.len()
            invariant
                2 <= i <= uri_split.len(),
                wanted == views(uri_split@).skip(2),
                texts(ret@) == wanted.take(i - 2),
            decreases uri_split.len() - i,
        {
            let ghost before = ret@;
            let piece = from_chars(uri_split[i].as_slice());
            ret.push(piece);
            assert(texts(ret@) == texts(before).push(piece@));
            assert(wanted.take(i - 1) == wanted.take(i - 2).push(wanted[i - 2]));
            i += 1;
        }
        assert(wanted.take(uri_split.len() - 2) == wanted);
        ret
    }

    /// The path of a target as it is written.
    pub fn get_path(location: &String) -> (r: String)
        ensures
            r@ == path_in(location@),
    {
        let chars = to_chars(location.as_str());
        let slash: Vec<char> = vec!['/'];
        let start: Vec<char> = vec!['?', 'q', '='];
        assert(slash@ == seq!['/']);
        assert(start@ == query_start());
        let mut uri_split = split(chars.as_slice(), slash.as_slice());
        proof {
            lemma_split_has_piece(chars@, slash@, 0);
        }
        let ghost all = uri_split@;
        uri_split.remove(0);
        assert(views(uri_split@) == views(all).drop_first());
        let uri = join(&uri_split, slash.as_slice());
        let pieces = split(uri.as_slice(), start.as_slice());
        proof {
            lemma_split_has_piece(uri@, start@, 0);
        }
        from_chars(pieces[0].as_slice())
    }

    /// The path that a request for the target is known by.
    pub fn get_uri(location: &String) -> (r: String)
        ensures
            r@ == uri_in(location@),
    {
        let uri_no_params = Self::get_path(location);
        if uri_no_params.as_str().is_empty() {
            let root: Vec<char> = vec!['/'];
            return from_chars(root.as_slice());
        }
        uri_no_params.as_str().to_lowercase()
    }

    /// The text of the body of a request.
    pub fn get_body_text(req: &String) -> (r: String)
        ensures
            r@ == body_text_in(req@),
    {
        let chars = to_chars(req.as_str());
        let cchar: Vec<char> = vec!['\r', '\n', '\r', '\n'];
        assert(cchar@ == head_end());
        proof {
            lemma_find_from(chars@, cchar@, 0);
        }
        match find(chars.as_slice(), cchar.as_slice(), 0) {
            Some(i) => {
                let n = chars.len();
                assert(crate::text::matches_at(chars@, cchar@, i as int));
                from_chars(slice_subrange(chars.as_slice(), i + 4, n))
            },
            None => String::new(),
        }
    }

    /// The body of a request under the content type `ctype`. A body under
    /// the JSON content type has to be JSON.
    pub fn get_body(req: &String, ctype: MimeType) -> (r: Result<RequestBody, RequestError>)
        ensures
            r is Ok <==> (ctype == MimeType::ApplicationJson ==> is_json(body_text_in(req@))),
            r matches Ok(body) ==> body.holds(body_text_in(req@), ctype),
            r matches Err(e) ==> e == RequestError::InvalidJson,
    {
        let ret = Self::get_body_text(req);
        RequestBody::from_str(ret, ctype)
    }
}

} // verus!

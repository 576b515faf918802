//! Composing a response.
//!
//! A response is sent as a status line, a line that names the server, the
//! headers sorted by key, an empty line and the body. Each key is sent once:
//! a header that is set again takes the place of the one before it, and the
//! three standard headers (the date, the content type and the length of the
//! body in bytes) take the place of any header with their keys.

use vstd::prelude::*;
use vstd::utf8::encode_utf8;
use crate::common::{
    copy_text, header_views, text_is, DummyResponseType, Header, KeyValue, MimeType, ResponseBody,
    ResponseCommon, ResponseTextWrapper,
};
use crate::number::{decimal, decimal_of};
use crate::order::{
    distinct_header_keys, has_key, lemma_has_key_step, lemma_sort_keeps_distinct,
    lemma_sort_of_sorted, lemma_sort_order_free, lemma_sort_same_elements, lemma_sort_sorted,
    same_headers, sort_by_key, sort_headers, sorted_by_key,
};
use crate::pieces::free_of;
use crate::status::HttpStatus;
use crate::text::{append, from_chars, join, join_with, to_chars, views};

verus! {

/// The format in which the date of a response is written.
pub open spec fn date_format() -> Seq<char> {
    "%a, %d %B %Y %T %Z"@
}

/// The name by which the server announces itself.
pub open spec fn server_name() -> Seq<char> {
    "ChubyHttp/0.0.1b"@
}

/// The number of bytes that a text takes when it is sent.
pub open spec fn byte_len(text: Seq<char>) -> nat {
    encode_utf8(text).len()
}

/// `chrono::Utc::now` reads the clock and `DateTime::format` writes that
/// moment in the given format. The text depends on the time of the call.
/// In this format it is made of the names of the day and the month, of
/// numbers, of `UTC` and of the commas, spaces and colons between them: it
/// is not empty and holds no line feed.
#[verifier::external_body]
fn utc_now_text(format: &str) -> (r: String)
    requires
        format@ == date_format(),
    ensures
        r@.len() > 0,
        free_of(r@, '\n'),
{
    chrono::Utc::now().format(format).to_string()
}

/// The number of bytes that a text takes when it is sent.
pub fn text_byte_len(text: &str) -> (n: usize)
    ensures
        n == byte_len(text@),
{
    text.as_bytes().len()
}

/// A response before it is sent.
pub struct Response<T> {
    headers: Vec<Header>,
    server: String,
    status: HttpStatus,
    content_type: MimeType,
    body: ResponseBody<T>,
    content_length: usize,
    date: String,
}

/// What a response holds.
pub struct ResponseView {
    /// The headers set so far, in the order in which they were set.
    pub headers: Seq<KeyValue>,
    pub server: Seq<char>,
    pub status: HttpStatus,
    pub content_type: MimeType,
    /// The body as it is sent.
    pub body: Seq<char>,
    /// The length that the response was built with.
    pub content_length: usize,
    /// The moment at which the response was built, as the `Date` header
    /// gives it.
    pub date: Seq<char>,
}

/// The header `h` once `key` is set to `value`.
pub open spec fn header_with(h: KeyValue, key: Seq<char>, value: Seq<char>) -> KeyValue {
    if h.key == key {
        KeyValue { key: h.key, value }
    } else {
        h
    }
}

/// The headers once `key` is set to `value`: every header with that key
/// takes the value; where there is none, a new header comes last.
pub open spec fn with_header(headers: Seq<KeyValue>, key: Seq<char>, value: Seq<char>) -> Seq<
    KeyValue,
> {
    if has_key(headers, key) {
        headers.map_values(|h: KeyValue| header_with(h, key, value))
    } else {
        headers.push(KeyValue { key, value })
    }
}

/// The headers that every response is sent with.
pub open spec fn standard_headers(v: ResponseView) -> Seq<KeyValue> {
    seq![
        KeyValue { key: "Date"@, value: v.date },
        KeyValue { key: "Content-Type"@, value: v.content_type.text() },
        KeyValue { key: "Content-Length"@, value: decimal_of(byte_len(v.body)) },
    ]
}

/// The headers once each of the items is set in turn.
pub open spec fn set_all(base: Seq<KeyValue>, items: Seq<KeyValue>) -> Seq<KeyValue>
    decreases items.len(),
{
    if items.len() == 0 {
        base
    } else {
        with_header(set_all(base, items.drop_last()), items.last().key, items.last().value)
    }
}

/// The headers of a response with one header for each key: the headers
/// that the caller has set, a later one in place of an earlier one with its
/// key, and the standard headers in place of any with their keys.
pub open spec fn merged_headers(v: ResponseView) -> Seq<KeyValue> {
    set_all(set_all(Seq::empty(), v.headers), standard_headers(v))
}

/// The headers that a response is sent with, in the order in which they
/// are sent.
pub open spec fn sent_headers(v: ResponseView) -> Seq<KeyValue> {
    sort_by_key(merged_headers(v))
}

/// One header as a line.
pub open spec fn header_line(h: KeyValue) -> Seq<char> {
    h.key + seq![':', ' '] + h.value
}

/// The headers as lines.
pub open spec fn header_lines(headers: Seq<KeyValue>) -> Seq<Seq<char>> {
    headers.map_values(|h: KeyValue| header_line(h))
}

/// The first two lines of a response: the status line and the line that
/// names the server.
pub open spec fn metadata(v: ResponseView) -> Seq<char> {
    "HTTP/1.1 "@ + v.status.text() + "\nServer: "@ + v.server
}

/// The text that a response with the given headers is sent as.
pub open spec fn text_with(v: ResponseView, headers: Seq<KeyValue>) -> Seq<char> {
    metadata(v) + seq!['\n'] + join_with(header_lines(headers), seq!['\n']) + seq!['\n', '\n']
        + v.body
}

/// The text that a response is sent as.
pub open spec fn response_text(v: ResponseView) -> Seq<char> {
    text_with(v, sent_headers(v))
}

/// Setting a key puts its header among the headers, leaves the headers of
/// other keys, and adds nothing else. Distinct keys stay distinct.
pub proof fn lemma_with_header(headers: Seq<KeyValue>, key: Seq<char>, value: Seq<char>)
    ensures
        with_header(headers, key, value).contains(KeyValue { key, value }),
        forall|x: KeyValue| #[trigger]
            with_header(headers, key, value).contains(x) ==> x == (KeyValue { key, value }) || (
            headers.contains(x) && x.key != key),
        forall|x: KeyValue|
            headers.contains(x) && x.key != key ==> #[trigger] with_header(
                headers,
                key,
                value,
            ).contains(x),
        distinct_header_keys(headers) ==> distinct_header_keys(with_header(headers, key, value)),
{
    let out = with_header(headers, key, value);
    let set = KeyValue { key, value };
    if has_key(headers, key) {
        let at = choose|i: int| 0 <= i < headers.len() && (#[trigger] headers[i]).key == key;
        assert(out[at] == set);
        assert forall|x: KeyValue| #[trigger] out.contains(x) implies x == set || (
        headers.contains(x) && x.key != key) by {
            let i = choose|i: int| 0 <= i < out.len() && out[i] == x;
            assert(out[i] == header_with(headers[i], key, value));
        }
        assert forall|x: KeyValue| headers.contains(x) && x.key != key implies #[trigger]
            out.contains(x) by {
            let i = choose|i: int| 0 <= i < headers.len() && headers[i] == x;
            assert(out[i] == x);
        }
        if distinct_header_keys(headers) {
            assert forall|i: int, j: int| 0 <= i < j < out.len() implies (#[trigger] out[i]).key
                != (#[trigger] out[j]).key by {
                assert(out[i].key == headers[i].key);
                assert(out[j].key == headers[j].key);
            }
        }
    } else {
        assert(out[headers.len() as int] == set);
        assert forall|x: KeyValue| #[trigger] out.contains(x) implies x == set || (
        headers.contains(x) && x.key != key) by {
            let i = choose|i: int| 0 <= i < out.len() && out[i] == x;
            if i < headers.len() {
                assert(headers[i] == x);
            }
        }
        assert forall|x: KeyValue| headers.contains(x) && x.key != key implies #[trigger]
            out.contains(x) by {
            let i = choose|i: int| 0 <= i < headers.len() && headers[i] == x;
            assert(out[i] == x);
        }
        if distinct_header_keys(headers) {
            assert forall|i: int, j: int| 0 <= i < j < out.len() implies (#[trigger] out[i]).key
                != (#[trigger] out[j]).key by {
                if j < headers.len() {
                    assert(out[i] == headers[i] && out[j] == headers[j]);
                } else {
                    assert(out[i] == headers[i]);
                }
            }
        }
    }
}

/// Setting headers one after the other leaves distinct keys, and every
/// header that stands there in the end was there before or was set.
pub proof fn lemma_set_all(base: Seq<KeyValue>, items: Seq<KeyValue>)
    requires
        distinct_header_keys(base),
    ensures
        distinct_header_keys(set_all(base, items)),
        forall|x: KeyValue| #[trigger]
            set_all(base, items).contains(x) ==> base.contains(x) || items.contains(x),
    decreases items.len(),
{
    if items.len() > 0 {
        let front = items.drop_last();
        let last = items.last();
        lemma_set_all(base, front);
        lemma_with_header(set_all(base, front), last.key, last.value);
        assert forall|x: KeyValue| #[trigger] set_all(base, items).contains(x) implies base.contains(
            x,
        ) || items.contains(x) by {
            if x == (KeyValue { key: last.key, value: last.value }) {
                assert(items[items.len() - 1] == x);
            } else {
                assert(set_all(base, front).contains(x));
                if front.contains(x) {
                    let i = choose|i: int| 0 <= i < front.len() && front[i] == x;
                    assert(items[i] == x);
                }
            }
        }
    }
}

/// Setting headers with distinct keys one after the other, with none set
/// before, gives these headers.
pub proof fn lemma_set_all_distinct(items: Seq<KeyValue>)
    requires
        distinct_header_keys(items),
    ensures
        set_all(Seq::empty(), items) == items,
    decreases items.len(),
{
    if items.len() > 0 {
        let front = items.drop_last();
        let last = items.last();
        assert forall|i: int, j: int| 0 <= i < j < front.len() implies (#[trigger] front[i]).key != (
        #[trigger] front[j]).key by {
            assert(front[i] == items[i] && front[j] == items[j]);
        }
        lemma_set_all_distinct(front);
        if has_key(front, last.key) {
            let i = choose|i: int| 0 <= i < front.len() && (#[trigger] front[i]).key == last.key;
            assert(items[i].key == items[items.len() - 1].key);
        }
        assert(front.push(KeyValue { key: last.key, value: last.value }) =~= items);
    } else {
        assert(set_all(Seq::empty(), items) =~= items);
    }
}

/// Setting a key to the value that its only header has changes nothing.
pub proof fn lemma_with_same(headers: Seq<KeyValue>, key: Seq<char>, value: Seq<char>)
    requires
        headers.contains(KeyValue { key, value }),
        forall|x: KeyValue| headers.contains(x) && x.key == key ==> x.value == value,
    ensures
        with_header(headers, key, value) == headers,
{
    let at = choose|i: int| 0 <= i < headers.len() && headers[i] == (KeyValue { key, value });
    assert(headers[at].key == key);
    assert forall|i: int| 0 <= i < headers.len() implies header_with(headers[i], key, value)
        == headers[i] by {
        assert(headers.contains(headers[i]));
    }
    assert(with_header(headers, key, value) =~= headers);
}

/// The keys of the three standard headers differ from each other.
pub proof fn lemma_standard_keys_differ()
    ensures
        "Date"@ != "Content-Type"@,
        "Date"@ != "Content-Length"@,
        "Content-Type"@ != "Content-Length"@,
{
    reveal_strlit("Date");
    reveal_strlit("Content-Type");
    reveal_strlit("Content-Length");
    assert("Date"@.len() == 4);
    assert("Content-Type"@.len() == 12);
    assert("Content-Length"@.len() == 14);
}

/// The three stages in which the standard headers are set.
pub open spec fn with_date(v: ResponseView) -> Seq<KeyValue> {
    with_header(set_all(Seq::empty(), v.headers), "Date"@, v.date)
}

/// The headers once the date and the content type are set.
pub open spec fn with_type(v: ResponseView) -> Seq<KeyValue> {
    with_header(with_date(v), "Content-Type"@, v.content_type.text())
}

/// The merged headers are the caller's headers with the date, the content
/// type and the length set in turn.
pub proof fn lemma_merged_stages(v: ResponseView)
    ensures
        merged_headers(v) == with_header(
            with_type(v),
            "Content-Length"@,
            decimal_of(byte_len(v.body)),
        ),
{
    let base = set_all(Seq::empty(), v.headers);
    let std = standard_headers(v);
    let two = std.drop_last();
    let one = two.drop_last();
    assert(one.drop_last() == Seq::<KeyValue>::empty());
    assert(set_all(base, one.drop_last()) == base);
    assert(one.last() == std[0]);
    assert(set_all(base, one) == with_date(v));
    assert(two.last() == std[1]);
    assert(set_all(base, two) == with_type(v));
    assert(std.last() == std[2]);
}

/// What is sent holds one header for each key. Each standard header is
/// among them, and no other header with its key. Every other header that is
/// sent was set by the caller.
pub proof fn lemma_merged_headers(v: ResponseView)
    ensures
        distinct_header_keys(merged_headers(v)),
        forall|n: int| 0 <= n < 3 ==> merged_headers(v).contains(#[trigger] standard_headers(v)[n]),
        forall|x: KeyValue, n: int|
            0 <= n < 3 && #[trigger] merged_headers(v).contains(x) && x.key
                == (#[trigger] standard_headers(v)[n]).key ==> x == standard_headers(v)[n],
        forall|x: KeyValue| #[trigger]
            merged_headers(v).contains(x) ==> v.headers.contains(x) || standard_headers(
                v,
            ).contains(x),
{
    let base = set_all(Seq::empty(), v.headers);
    let std = standard_headers(v);
    let m = merged_headers(v);
    lemma_standard_keys_differ();
    lemma_merged_stages(v);
    lemma_set_all(Seq::empty(), v.headers);
    lemma_with_header(base, "Date"@, v.date);
    lemma_with_header(with_date(v), "Content-Type"@, v.content_type.text());
    lemma_with_header(with_type(v), "Content-Length"@, decimal_of(byte_len(v.body)));
    assert(with_date(v).contains(std[0]));
    assert(with_type(v).contains(std[1]));
    assert(with_type(v).contains(std[0]));
    assert(m.contains(std[2]));
    assert(m.contains(std[1]));
    assert(m.contains(std[0]));
    assert forall|x: KeyValue, n: int|
        0 <= n < 3 && #[trigger] m.contains(x) && x.key == (#[trigger] std[n]).key implies x
        == std[n] by {
        if x != std[2] {
            assert(with_type(v).contains(x));
            if x != std[1] {
                assert(with_date(v).contains(x));
            }
        }
    }
    assert forall|x: KeyValue| #[trigger] m.contains(x) implies v.headers.contains(x)
        || std.contains(x) by {
        if x == std[2] || x == std[1] || x == std[0] {
            assert(std.contains(x)) by {
                if x == std[2] {
                    assert(std[2] == x);
                } else if x == std[1] {
                    assert(std[1] == x);
                } else {
                    assert(std[0] == x);
                }
            }
        } else {
            assert(with_type(v).contains(x));
            assert(with_date(v).contains(x));
            assert(base.contains(x));
        }
    }
}

/// What is sent holds one header for each key, in the order of the keys.
pub proof fn lemma_one_header_per_key(v: ResponseView)
    ensures
        distinct_header_keys(sent_headers(v)),
        sorted_by_key(sent_headers(v)),
{
    lemma_merged_headers(v);
    lemma_sort_keeps_distinct(merged_headers(v));
    lemma_sort_sorted(merged_headers(v));
}

/// The standard header at index `n` of the three is sent, and no other
/// header with its key.
pub proof fn lemma_standard_sent(v: ResponseView, n: int)
    requires
        0 <= n < 3,
    ensures
        sent_headers(v).contains(standard_headers(v)[n]),
        forall|x: KeyValue|
            sent_headers(v).contains(x) && x.key == standard_headers(v)[n].key ==> x
                == standard_headers(v)[n],
{
    lemma_merged_headers(v);
    lemma_sort_same_elements(merged_headers(v), standard_headers(v)[n]);
    assert forall|x: KeyValue|
        sent_headers(v).contains(x) && x.key == standard_headers(v)[n].key implies x
        == standard_headers(v)[n] by {
        lemma_sort_same_elements(merged_headers(v), x);
    }
}

/// The length that a response gives for its body is the number of bytes of
/// the body, and it gives no other length, whatever the caller has set.
pub proof fn lemma_content_length_sent(v: ResponseView)
    ensures
        sent_headers(v).contains(
            KeyValue { key: "Content-Length"@, value: decimal_of(byte_len(v.body)) },
        ),
        forall|x: KeyValue|
            sent_headers(v).contains(x) && x.key == "Content-Length"@ ==> x.value == decimal_of(
                byte_len(v.body),
            ),
{
    lemma_standard_sent(v, 2);
}

/// Composing a response a second time gives the text of the first time:
/// the headers that were sent stay as they are when they are merged and
/// sorted again.
pub proof fn lemma_compose_twice(v: ResponseView)
    ensures
        sent_headers(ResponseView { headers: sent_headers(v), ..v }) == sent_headers(v),
        response_text(ResponseView { headers: sent_headers(v), ..v }) == response_text(v),
{
    let sent = sent_headers(v);
    let w = ResponseView { headers: sent, ..v };
    lemma_one_header_per_key(v);
    lemma_set_all_distinct(sent);
    lemma_standard_sent(v, 0);
    lemma_standard_sent(v, 1);
    lemma_standard_sent(v, 2);
    assert(standard_headers(w) == standard_headers(v));
    lemma_with_same(sent, "Date"@, v.date);
    lemma_with_same(sent, "Content-Type"@, v.content_type.text());
    lemma_with_same(sent, "Content-Length"@, decimal_of(byte_len(v.body)));
    lemma_merged_stages(w);
    assert(merged_headers(w) == sent);
    lemma_sort_of_sorted(sent);
}

/// Two responses that differ only in the order in which their headers
/// were set are sent as the same text, where no key was set twice.
pub proof fn lemma_header_order_free(v: ResponseView, w: ResponseView)
    requires
        w == (ResponseView { headers: w.headers, ..v }),
        same_headers(v.headers, w.headers),
        distinct_header_keys(v.headers),
        distinct_header_keys(w.headers),
    ensures
        sent_headers(v) == sent_headers(w),
        response_text(v) == response_text(w),
{
    lemma_set_all_distinct(v.headers);
    lemma_set_all_distinct(w.headers);
    lemma_merged_headers(v);
    lemma_merged_headers(w);
    lemma_merged_stages(v);
    lemma_merged_stages(w);
    lemma_with_header(v.headers, "Date"@, v.date);
    lemma_with_header(w.headers, "Date"@, v.date);
    lemma_with_header(with_date(v), "Content-Type"@, v.content_type.text());
    lemma_with_header(with_date(w), "Content-Type"@, v.content_type.text());
    lemma_with_header(with_type(v), "Content-Length"@, decimal_of(byte_len(v.body)));
    lemma_with_header(with_type(w), "Content-Length"@, decimal_of(byte_len(v.body)));
    assert(same_headers(with_date(v), with_date(w)));
    assert(same_headers(with_type(v), with_type(w)));
    assert(same_headers(merged_headers(v), merged_headers(w)));
    lemma_sort_order_free(merged_headers(v), merged_headers(w));
}

/// What a response holds that was built from a text at the moment `date`.
pub open spec fn string_response(
    body: Seq<char>,
    content_type: MimeType,
    status: HttpStatus,
    date: Seq<char>,
) -> ResponseView {
    ResponseView {
        headers: Seq::empty(),
        server: server_name(),
        status,
        content_type,
        body,
        content_length: byte_len(body) as usize,
        date,
    }
}

/// `text` is what a response built from the text `body` is sent as, at
/// whatever moment it was built.
pub open spec fn is_string_response(
    text: Seq<char>,
    body: Seq<char>,
    content_type: MimeType,
    status: HttpStatus,
) -> bool {
    exists|date: Seq<char>|
        free_of(date, '\n') && text == response_text(
            #[trigger] string_response(body, content_type, status, date),
        )
}

/// Sets the header `key` to `value` among the headers. A key that is set
/// already keeps its place and takes the new value; a new key comes last.
pub fn set_in(headers: &mut Vec<Header>, key: String, value: String)
    ensures
        header_views(final(headers)@) == with_header(header_views(old(headers)@), key@, value@),
{
    let ghost before = header_views(headers@);
    let ghost replaced = before.map_values(|h: KeyValue| header_with(h, key@, value@));
    let mut found = false;
    let mut i: usize = 0;
    assert(before.take(0).len() == 0);
    assert(header_views(headers@) == replaced.take(0) + before.skip(0));
    while i < headers.len()
        invariant
            i <= headers.len(),
            headers@.len() == before.len(),
            replaced.len() == before.len(),
            forall|j: int|
                0 <= j < before.len() ==> #[trigger] replaced[j] == header_with(
                    before[j],
                    key@,
                    value@,
                ),
            found == has_key(before.take(i as int), key@),
            header_views(headers@) == replaced.take(i as int) + before.skip(i as int),
        decreases headers.len() - i,
    {
        let ghost current = header_views(headers@);
        proof {
            lemma_has_key_step(before, key@, i as int);
            assert(current[i as int] == before.skip(i as int)[0]);
        }
        if text_is(headers[i].key.as_str(), key.as_str()) {
            let h = Header { key: headers[i].key.clone(), value: value.clone() };
            headers.set(i, h);
            found = true;
            assert(h@ == replaced[i as int]);
        } else {
            assert(current[i as int] == replaced[i as int]);
        }
        assert forall|j: int| 0 <= j < before.len() implies header_views(headers@)[j] == (
        replaced.take(i + 1) + before.skip(i + 1))[j] by {
            if j != i {
                assert(header_views(headers@)[j] == current[j]);
                assert(current[j] == (replaced.take(i as int) + before.skip(i as int))[j]);
            }
        }
        assert(header_views(headers@) == replaced.take(i + 1) + before.skip(i + 1));
        i += 1;
    }
    assert(before.take(before.len() as int) == before);
    assert(replaced.take(before.len() as int) == replaced);
    assert(header_views(headers@) == replaced);
    if !found {
        let new_header = Header { key, value };
        headers.push(new_header);
        assert(replaced == before) by {
            assert forall|j: int| 0 <= j < before.len() implies replaced[j] == before[j] by {
                assert(before[j].key != key@);
            }
        }
        assert(header_views(headers@) == before.push(new_header@));
    }
}

/// Builds a response from the text `t` and writes it as it is sent.
pub fn respond_with_string(t: String, content_type: MimeType, status: HttpStatus) -> (r:
    ResponseTextWrapper)
    ensures
        is_string_response(r@, t@, content_type, status),
{
    let mut response = Response::<DummyResponseType>::new_string(t, content_type, status);
    let ghost built = response@;
    let r = response.compose();
    assert(built == string_response(t@, content_type, status, built.date));
    r
}

impl<T: ResponseCommon> View for Response<T> {
    type V = ResponseView;

    closed spec fn view(&self) -> ResponseView {
        ResponseView {
            headers: header_views(self.headers@),
            server: self.server@,
            status: self.status,
            content_type: self.content_type,
            body: self.body.text(),
            content_length: self.content_length,
            date: self.date@,
        }
    }
}

impl<T: ResponseCommon> Response<T> {
    /// A response with the given parts, built now.
    pub fn new(
        headers: Vec<Header>,
        server: String,
        status: HttpStatus,
        content_type: MimeType,
        body: ResponseBody<T>,
        content_length: usize,
    ) -> (r: Self)
        ensures
            r@ == (ResponseView {
                headers: header_views(headers@),
                server: server@,
                status,
                content_type,
                body: body.text(),
                content_length,
                date: r@.date,
            }),
            r@.date.len() > 0,
            free_of(r@.date, '\n'),
    {
        Response { headers, server, status, content_type, body, content_length, date: Self::now() }
    }

    /// A response that renders `object` as JSON, built now.
    pub fn new_json(object: T, status: HttpStatus) -> (r: Self)
        ensures
            r@ == (ResponseView {
                headers: Seq::empty(),
                server: server_name(),
                status,
                content_type: MimeType::ApplicationJson,
                body: object.rendering(),
                content_length: r@.content_length,
                date: r@.date,
            }),
            r@.content_length == byte_len(object.rendering()),
            r@.date.len() > 0,
            free_of(r@.date, '\n'),
    {
        let rendered = object.parse_to_string();
        let content_length = text_byte_len(rendered.as_str());
        let body = ResponseBody::new_json(object);
        let r = Response {
            headers: Vec::new(),
            server: copy_text("ChubyHttp/0.0.1b"),
            status,
            content_type: MimeType::ApplicationJson,
            body,
            content_length,
            date: Self::now(),
        };
        assert(header_views(r.headers@) == Seq::<KeyValue>::empty());
        r
    }

    /// A response with the text `t` as its body, built now.
    pub fn new_string(t: String, content_type: MimeType, status: HttpStatus) -> (r: Self)
        ensures
            r@ == (ResponseView {
                headers: Seq::empty(),
                server: server_name(),
                status,
                content_type,
                body: t@,
                content_length: r@.content_length,
                date: r@.date,
            }),
            r@.content_length == byte_len(t@),
            r@.date.len() > 0,
            free_of(r@.date, '\n'),
    {
        let content_length = text_byte_len(t.as_str());
        let body = ResponseBody::new_string(content_type, t);
        let r = Response {
            headers: Vec::new(),
            server: copy_text("ChubyHttp/0.0.1b"),
            status,
            content_type,
            body,
            content_length,
            date: Self::now(),
        };
        assert(header_views(r.headers@) == Seq::<KeyValue>::empty());
        r
    }

    /// The present moment as the `Date` header gives it.
    fn now() -> (r: String)
        ensures
            r@.len() > 0,
            free_of(r@, '\n'),
    {
        utc_now_text("%a, %d %B %Y %T %Z")
    }

    /// The headers with the date set.
    fn format_date_add_header(&self, merged: &mut Vec<Header>)
        ensures
            header_views(final(merged)@) == with_header(
                header_views(old(merged)@),
                "Date"@,
                self@.date,
            ),
    {
        set_in(merged, copy_text("Date"), self.date.clone());
    }

    /// The headers with the content type and the length of the body set.
    fn format_content_add_header(&self, merged: &mut Vec<Header>)
        ensures
            header_views(final(merged)@) == with_header(
                with_header(
                    header_views(old(merged)@),
                    "Content-Type"@,
                    self@.content_type.text(),
                ),
                "Content-Length"@,
                decimal_of(byte_len(self@.body)),
            ),
    {
        let body = self.make_body();
        let length = decimal(text_byte_len(body.as_str()));
        set_in(merged, copy_text("Content-Type"), self.content_type.into());
        set_in(merged, copy_text("Content-Length"), from_chars(length.as_slice()));
    }

    /// The status line and the line that names the server.
    fn format_response_metadata(&self) -> (ret: String)
        ensures
            ret@ == metadata(self@),
    {
        let status_string: String = self.status.into();
        let mut ret = to_chars("HTTP/1.1 ");
        let status_chars = to_chars(status_string.as_str());
        append(&mut ret, status_chars.as_slice());
        let label = to_chars("\nServer: ");
        append(&mut ret, label.as_slice());
        let server = to_chars(self.server.as_str());
        append(&mut ret, server.as_slice());
        from_chars(ret.as_slice())
    }

    /// The headers that the caller has set, one for each key.
    fn merge_headers(&self) -> (merged: Vec<Header>)
        ensures
            header_views(merged@) == set_all(Seq::empty(), self@.headers),
    {
        let mut merged: Vec<Header> = Vec::new();
        let mut i: usize = 0;
        assert(header_views(merged@) == Seq::<KeyValue>::empty());
        assert(header_views(self.headers@).take(0) == Seq::<KeyValue>::empty());
        while i < self.headers.len()
            invariant
                i <= self.headers.len(),
                header_views(merged@) == set_all(
                    Seq::empty(),
                    header_views(self.headers@).take(i as int),
                ),
            decreases self.headers.len() - i,
        {
            let ghost upto = header_views(self.headers@).take(i + 1);
            assert(upto.drop_last() == header_views(self.headers@).take(i as int));
            assert(upto.last() == self.headers@[i as int]@);
            set_in(&mut merged, self.headers[i].key.clone(), self.headers[i].value.clone());
            i += 1;
        }
        assert(header_views(self.headers@).take(self.headers.len() as int) == header_views(
            self.headers@,
        ));
        merged
    }

    /// Sets the header `key` to `value`. A key that is set already keeps
    /// its place and takes the new value; a new key comes last.
    pub fn set_header(&mut self, key: String, value: String)
        ensures
            final(self)@ == (ResponseView {
                headers: with_header(old(self)@.headers, key@, value@),
                ..old(self)@
            }),
    {
        set_in(&mut self.headers, key, value);
    }

    /// The body as it is sent.
    fn make_body(&self) -> (r: String)
        ensures
            r@ == self@.body,
    {
        self.body.render()
    }

    /// One header as a line.
    fn make_header_single(h: &Header) -> (ret: Vec<char>)
        ensures
            ret@ == header_line(h@),
    {
        let mut ret = to_chars(h.key.as_str());
        ret.push(':');
        ret.push(' ');
        let value = to_chars(h.value.as_str());
        append(&mut ret, value.as_slice());
        assert(ret@ == h@.key + seq![':', ' '] + h@.value);
        ret
    }

    /// Merges the headers with the standard headers, sorts them by key and
    /// writes them as lines.
    fn make_header(&mut self) -> (h_joined: Vec<char>)
        ensures
            final(self)@ == (ResponseView { headers: sent_headers(old(self)@), ..old(self)@ }),
            h_joined@ == join_with(header_lines(sent_headers(old(self)@)), seq!['\n']),
    {
        let mut merged = self.merge_headers();
        self.format_date_add_header(&mut merged);
        self.format_content_add_header(&mut merged);
        proof {
            lemma_merged_stages(self@);
        }
        self.headers = sort_headers(&merged);
        let mut lines: Vec<Vec<char>> = Vec::new();
        let mut i: usize = 0;
        assert(views(lines@) == header_lines(header_views(self.headers@)).take(0));
        while i < self.headers.len()
            invariant
                i <= self.headers.len(),
                views(lines@) == header_lines(header_views(self.headers@)).take(i as int),
            decreases self.headers.len() - i,
        {
            let ghost before = views(lines@);
            let line = Self::make_header_single(&self.headers[i]);
            lines.push(line);
            assert(views(lines@) == before.push(line@));
            assert(header_lines(header_views(self.headers@)).take(i + 1) == before.push(line@));
            i += 1;
        }
        assert(header_lines(header_views(self.headers@)).take(self.headers.len() as int)
            == header_lines(header_views(self.headers@)));
        let feed: Vec<char> = vec!['\n'];
        assert(feed@ == seq!['\n']);
        join(&lines, feed.as_slice())
    }

    /// Writes the response as it is sent. The headers of the response are
    /// from then on those that were sent: one for each key, sorted by key.
    /// Composing again gives the same text.
    pub fn compose(&mut self) -> (r: ResponseTextWrapper)
        ensures
            r@ == response_text(old(self)@),
            final(self)@ == (ResponseView { headers: sent_headers(old(self)@), ..old(self)@ }),
            sorted_by_key(final(self)@.headers),
            distinct_header_keys(final(self)@.headers),
            response_text(final(self)@) == response_text(old(self)@),
    {
        let metadata = self.format_response_metadata();
        let headers_joined = self.make_header();
        let body = self.make_body();
        let mut ret = to_chars(metadata.as_str());
        ret.push('\n');
        append(&mut ret, headers_joined.as_slice());
        ret.push('\n');
        ret.push('\n');
        let body_chars = to_chars(body.as_str());
        append(&mut ret, body_chars.as_slice());
        proof {
            lemma_one_header_per_key(old(self)@);
            lemma_compose_twice(old(self)@);
            assert(ret@ == response_text(old(self)@));
        }
        ResponseTextWrapper::new(from_chars(ret.as_slice()))
    }
}

} // verus!

//! Reading the head of a response back from its text.
//!
//! What a response is composed from can be read from the text it is sent
//! as: the status from the first line, the content type and the length of
//! the body from their header lines.

use vstd::prelude::*;
use crate::common::{lemma_mime_round_trip, mime_of, KeyValue, MimeType};
use crate::number::{
    all_digits, decimal_of, digits_value, is_digit, lemma_decimal_round_trip,
    lemma_parse_decimal, parse_u32_of,
};
use crate::order::lemma_sort_same_elements;
use crate::pieces::{
    free_of, lemma_find_first, lemma_first_match, lemma_free_of_concat, lemma_join_front,
    lemma_match_between, lemma_split_first, lemma_split_joined,
};
use crate::response::{
    byte_len, header_line, header_lines, lemma_merged_headers, lemma_standard_sent,
    merged_headers, metadata, response_text, sent_headers, server_name, standard_headers,
    ResponseView,
};
use crate::status::{lemma_status_round_trip, status_of, HttpStatus};
use crate::text::{find_from, join_with, matches_at, split_on};

verus! {

/// The lines of a response.
pub open spec fn response_lines(text: Seq<char>) -> Seq<Seq<char>> {
    split_on(text, seq!['\n'])
}

/// The status that the first line of a response names: the second word of
/// the line is its code.
pub open spec fn status_in(text: Seq<char>) -> Option<HttpStatus> {
    let words = split_on(response_lines(text)[0], seq![' ']);
    if words.len() >= 2 {
        match parse_u32_of(words[1]) {
            Some(code) => status_of(code),
            None => None,
        }
    } else {
        None
    }
}

/// The key of a header line: what stands before its first colon.
pub open spec fn line_key(line: Seq<char>) -> Seq<char> {
    match find_from(line, seq![':'], 0) {
        Some(i) => line.take(i),
        None => line,
    }
}

/// The value of a header line: what follows its first colon and the space
/// after it.
pub open spec fn line_value(line: Seq<char>) -> Seq<char> {
    match find_from(line, seq![':'], 0) {
        Some(i) if i + 2 <= line.len() => line.skip(i + 2),
        _ => Seq::empty(),
    }
}

/// The value of the first header line with the given key, among the lines
/// from `from` on and before the first empty line.
pub open spec fn header_from(lines: Seq<Seq<char>>, from: int, key: Seq<char>) -> Option<
    Seq<char>,
>
    decreases lines.len() - from,
{
    if from < 0 || from >= lines.len() || lines[from].len() == 0 {
        None
    } else if line_key(lines[from]) == key {
        Some(line_value(lines[from]))
    } else {
        header_from(lines, from + 1, key)
    }
}

/// The value of the first header of a response with the given key. The
/// headers follow the status line and the line that names the server.
pub open spec fn header_in(text: Seq<char>, key: Seq<char>) -> Option<Seq<char>> {
    header_from(response_lines(text), 2, key)
}

/// The content type that a response gives for its body.
pub open spec fn content_type_in(text: Seq<char>) -> Option<Seq<char>> {
    header_in(text, "Content-Type"@)
}

/// The length that a response gives for its body.
pub open spec fn content_length_in(text: Seq<char>) -> Option<nat> {
    match header_in(text, "Content-Length"@) {
        Some(v) if v.len() > 0 && all_digits(v) => Some(digits_value(v)),
        _ => None,
    }
}

/// A header can be read back from its line: neither its key nor its value
/// holds a line feed, and its key holds no colon.
pub open spec fn readable(h: KeyValue) -> bool {
    free_of(h.key, '\n') && free_of(h.key, ':') && free_of(h.value, '\n')
}

/// The value of the first header with the given key, from index `k` on.
pub open spec fn first_value_from(headers: Seq<KeyValue>, k: int, key: Seq<char>) -> Option<
    Seq<char>,
>
    decreases headers.len() - k,
{
    if k < 0 || k >= headers.len() {
        None
    } else if headers[k].key == key {
        Some(headers[k].value)
    } else {
        first_value_from(headers, k + 1, key)
    }
}

/// No reason phrase holds a line feed.
pub proof fn lemma_reason_plain(status: HttpStatus)
    ensures
        free_of(status.reason(), '\n'),
{
    match status {
        HttpStatus::Http100Continue => reveal_strlit("Continue"),
        HttpStatus::Http101SwitchingProtocols => reveal_strlit("Switching Protocols"),
        HttpStatus::Http102Processing => reveal_strlit("Processing"),
        HttpStatus::Http103EarlyHints => reveal_strlit("Early Hints"),
        HttpStatus::Http200Ok => reveal_strlit("OK"),
        HttpStatus::Http201Created => reveal_strlit("Created"),
        HttpStatus::Http202Accepted => reveal_strlit("Accepted"),
        HttpStatus::Http203NonAuthorative => reveal_strlit("Non-Authoritative Information"),
        HttpStatus::Http204NoContent => reveal_strlit("No Content"),
        HttpStatus::Http205ResetContent => reveal_strlit("Reset Content"),
        HttpStatus::Http206PartialContent => reveal_strlit("Partial Content"),
        HttpStatus::Http207Multi => reveal_strlit("Multi-Status"),
        HttpStatus::Http208AlreadyReported => reveal_strlit("Already Reported"),
        HttpStatus::Http226IMUsed => reveal_strlit("IM Used"),
        HttpStatus::Http300MultipleChoices => reveal_strlit("Multiple Choices"),
        HttpStatus::Http301MoovedPermenantly => reveal_strlit("Moved Permanently"),
        HttpStatus::Http302Found => reveal_strlit("Found"),
        HttpStatus::Http303SeeOther => reveal_strlit("See Other"),
        HttpStatus::Http304NotModified => reveal_strlit("Not Modified"),
        HttpStatus::Http305UseProxy => reveal_strlit("Use Proxy"),
        HttpStatus::Http306SwitchProxy => reveal_strlit("Switch Proxy"),
        HttpStatus::Http307TemporaryRedirect => reveal_strlit("Temporary Redirect"),
        HttpStatus::Http308PermanentRedirect => reveal_strlit("Permanent Redirect"),
        HttpStatus::Http400BadRequest => reveal_strlit("Bad Request"),
        HttpStatus::Http401Unauthorized => reveal_strlit("Unauthorized"),
        HttpStatus::Http402PaymentRequired => reveal_strlit("Payment Required"),
        HttpStatus::Http403Forbidden => reveal_strlit("Forbidden"),
        HttpStatus::Http404NotFound => reveal_strlit("Not Found"),
        HttpStatus::Http405MethodNotAllwed => reveal_strlit("Method Not Allowed"),
        HttpStatus::Http406NotAcceptable => reveal_strlit("Not Acceptable"),
        HttpStatus::Http407ProxyAuthRequired => reveal_strlit("Proxy Authentication Required"),
        HttpStatus::Http408RequestTimeout => reveal_strlit("Request Timeout"),
        HttpStatus::Http409Conflict => reveal_strlit("Conflict"),
        HttpStatus::Http410Gone => reveal_strlit("Gone"),
        HttpStatus::Http411LengthRequired => reveal_strlit("Length Required"),
        HttpStatus::Http412PreconditionFailed => reveal_strlit("Precondition Failed"),
        HttpStatus::Http413PayloadTooLarge => reveal_strlit("Payload Too Large"),
        HttpStatus::Http414URITooLong => reveal_strlit("URI Too Long"),
        HttpStatus::Http415UnsupportedMediaType => reveal_strlit("Unsupported Media Type"),
        HttpStatus::Http416RangeNotSatisfiable => reveal_strlit("Range Not Satisfiable"),
        HttpStatus::Http417ExcpectationFailed => reveal_strlit("Expectation Failed"),
        HttpStatus::Http418ImATeapot => reveal_strlit("I'm a teapot"),
        HttpStatus::Http421MisdirectedRequest => reveal_strlit("Misdirected Request"),
        HttpStatus::Http422UnprocessableEntity => reveal_strlit("Unprocessable Entity"),
        HttpStatus::Http423Locked => reveal_strlit("Locked"),
        HttpStatus::Http424FailedDependency => reveal_strlit("Failed Dependency"),
        HttpStatus::Http425TooEarly => reveal_strlit("Too Early"),
        HttpStatus::Http426UpgradeRequired => reveal_strlit("Upgrade Required"),
        HttpStatus::Http428PreconditionRequired => reveal_strlit("Precondition Required"),
        HttpStatus::Http429TooManyRequests => reveal_strlit("Too Many Requests"),
        HttpStatus::Http431RequestHeaderFieldsTooLarge => reveal_strlit(
            "Request Header Fields Too Large",
        ),
        HttpStatus::Http451UnavailableForLegalReasons => reveal_strlit(
            "Unavailable For Legal Reasons",
        ),
        HttpStatus::Http500InternalServerError => reveal_strlit("Internal Server Error"),
        HttpStatus::Http501NotImplemented => reveal_strlit("Not Implemented"),
        HttpStatus::Http502BadGateway => reveal_strlit("Bad Gateway"),
        HttpStatus::Http503ServiceUnavailable => reveal_strlit("Service Unavailable"),
        HttpStatus::Http504GatewayTimeout => reveal_strlit("Gateway Timeout"),
        HttpStatus::Http505HTTPVersionNotSupported => reveal_strlit("HTTP Version Not Supported"),
        HttpStatus::Http506VariantAlsoNegotiates => reveal_strlit("Variant Also Negotiates"),
        HttpStatus::Http507InsufficientStorage => reveal_strlit("Insufficient Storage"),
        HttpStatus::Http508LoopDetected => reveal_strlit("Loop Detected"),
        HttpStatus::Http510NotExtended => reveal_strlit("Not Extended"),
        HttpStatus::Http511NetworkAuthenticationRequried => reveal_strlit(
            "Network Authentication Required",
        ),
    }
}

/// No content type holds a line feed.
pub proof fn lemma_mime_plain(mime: MimeType)
    ensures
        free_of(mime.text(), '\n'),
{
    reveal_strlit("application/json");
    reveal_strlit("text/plain");
    reveal_strlit("text/html");
    reveal_strlit("application/octet-stream");
    reveal_strlit("text/javascript");
    reveal_strlit("text/css");
}

/// A run of digits holds nothing but digits.
pub proof fn lemma_digits_free(s: Seq<char>, c: char)
    requires
        all_digits(s),
        !is_digit(c),
    ensures
        free_of(s, c),
{
}

/// The line of a readable header holds no line feed and gives the key and
/// the value of the header back.
pub proof fn lemma_header_line(h: KeyValue)
    requires
        readable(h),
    ensures
        free_of(header_line(h), '\n'),
        header_line(h).len() > 0,
        line_key(header_line(h)) == h.key,
        line_value(header_line(h)) == h.value,
{
    let line = header_line(h);
    let n = h.key.len() as int;
    assert(line == h.key + seq![':'] + (seq![' '] + h.value));
    lemma_find_first(h.key, seq![' '] + h.value, ':');
    assert(line.take(n) == h.key);
    assert(line.skip(n + 2) == h.value);
    lemma_free_of_concat(h.key, seq![':', ' '], '\n');
    lemma_free_of_concat(h.key + seq![':', ' '], h.value, '\n');
}

/// Looking through the lines of readable headers finds what looking
/// through the headers finds.
pub proof fn lemma_header_from(
    lines: Seq<Seq<char>>,
    from: int,
    headers: Seq<KeyValue>,
    k: int,
    key: Seq<char>,
)
    requires
        0 <= from,
        0 <= k <= headers.len(),
        lines.len() > from + headers.len() - k,
        forall|j: int|
            k <= j < headers.len() ==> readable(#[trigger] headers[j]) && lines[from + j - k]
                == header_line(headers[j]),
        lines[from + headers.len() - k].len() == 0,
    ensures
        header_from(lines, from, key) == first_value_from(headers, k, key),
    decreases headers.len() - k,
{
    if k < headers.len() {
        assert(lines[from + k - k] == header_line(headers[k]));
        lemma_header_line(headers[k]);
        if headers[k].key != key {
            assert forall|j: int| k + 1 <= j < headers.len() implies readable(
                #[trigger] headers[j],
            ) && lines[from + 1 + j - (k + 1)] == header_line(headers[j]) by {
                assert(lines[from + j - k] == header_line(headers[j]));
            }
            lemma_header_from(lines, from + 1, headers, k + 1, key);
        }
    }
}

/// Where a key stands among the headers from `k` on, and every header
/// with that key has the same value, that value is the first that is
/// found.
pub proof fn lemma_first_value(
    headers: Seq<KeyValue>,
    k: int,
    key: Seq<char>,
    value: Seq<char>,
    at: int,
)
    requires
        0 <= k <= at < headers.len(),
        headers[at].key == key,
        forall|j: int|
            0 <= j < headers.len() && (#[trigger] headers[j]).key == key ==> headers[j].value
                == value,
    ensures
        first_value_from(headers, k, key) == Some(value),
    decreases at - k,
{
    if headers[k].key != key {
        lemma_first_value(headers, k + 1, key, value, at);
    }
}

/// The value of a standard header is what is found first under its key
/// among the headers that are sent.
pub proof fn lemma_standard_header_sent(v: ResponseView, n: int)
    requires
        0 <= n < 3,
    ensures
        first_value_from(sent_headers(v), 0, standard_headers(v)[n].key) == Some(
            standard_headers(v)[n].value,
        ),
{
    let wanted = standard_headers(v)[n];
    let sent = sent_headers(v);
    lemma_standard_sent(v, n);
    let at = choose|i: int| 0 <= i < sent.len() && sent[i] == wanted;
    assert forall|j: int| 0 <= j < sent.len() && (#[trigger] sent[j]).key
        == wanted.key implies sent[j].value == wanted.value by {
        assert(sent.contains(sent[j]));
    }
    lemma_first_value(sent, 0, wanted.key, wanted.value, at);
}

/// Every header that is sent is readable, where those that the caller has
/// set are and the date holds no line feed. At least one header is sent.
pub proof fn lemma_sent_readable(v: ResponseView)
    requires
        free_of(v.date, '\n'),
        forall|i: int| 0 <= i < v.headers.len() ==> readable(#[trigger] v.headers[i]),
    ensures
        forall|i: int| 0 <= i < sent_headers(v).len() ==> readable(#[trigger] sent_headers(v)[i]),
        sent_headers(v).len() >= 1,
{
    let sent = sent_headers(v);
    let std = standard_headers(v);
    lemma_merged_headers(v);
    lemma_standard_sent(v, 2);
    reveal_strlit("Date");
    reveal_strlit("Content-Type");
    reveal_strlit("Content-Length");
    lemma_mime_plain(v.content_type);
    lemma_decimal_round_trip(byte_len(v.body));
    lemma_digits_free(decimal_of(byte_len(v.body)), '\n');
    assert(readable(std[0]));
    assert(readable(std[1]));
    assert(readable(std[2]));
    assert forall|i: int| 0 <= i < sent.len() implies readable(#[trigger] sent[i]) by {
        assert(sent.contains(sent[i]));
        lemma_sort_same_elements(merged_headers(v), sent[i]);
        if v.headers.contains(sent[i]) {
            let m = choose|m: int| 0 <= m < v.headers.len() && v.headers[m] == sent[i];
            assert(readable(v.headers[m]));
        } else {
            let m = choose|m: int| 0 <= m < std.len() && std[m] == sent[i];
            assert(readable(std[m]));
        }
    }
}

/// The status line of a response holds no line feed, and its second word
/// is the code of the status.
pub proof fn lemma_status_line(status: HttpStatus)
    ensures
        free_of("HTTP/1.1 "@ + status.text(), '\n'),
        ("HTTP/1.1 "@ + status.text()).len() > 0,
        split_on("HTTP/1.1 "@ + status.text(), seq![' ']).len() >= 2,
        split_on("HTTP/1.1 "@ + status.text(), seq![' '])[1] == decimal_of(status.code() as nat),
{
    reveal_strlit("HTTP/1.1 ");
    let line = "HTTP/1.1 "@ + status.text();
    let name = "HTTP/1.1 "@.take(8);
    let code = decimal_of(status.code() as nat);
    let reason = status.reason();
    lemma_reason_plain(status);
    lemma_decimal_round_trip(status.code() as nat);
    lemma_digits_free(code, '\n');
    lemma_digits_free(code, ' ');
    let after_name = code + seq![' '] + reason;
    assert(line == name + seq![' '] + after_name);
    assert(free_of(name, ' '));
    assert(free_of(name, '\n'));
    lemma_split_first(name, after_name, ' ');
    lemma_split_first(code, reason, ' ');
    crate::text::lemma_split_has_piece(reason, seq![' '], 0);
    lemma_free_of_concat(code, seq![' '], '\n');
    lemma_free_of_concat(code + seq![' '], reason, '\n');
    lemma_free_of_concat(name, seq![' '], '\n');
    lemma_free_of_concat(name + seq![' '], after_name, '\n');
}

/// The lines of the head of a response: its status line, the line that
/// names the server and the lines of its headers.
pub open spec fn head_lines(v: ResponseView) -> Seq<Seq<char>> {
    seq!["HTTP/1.1 "@ + v.status.text(), "\nServer: "@.skip(1) + v.server] + header_lines(
        sent_headers(v),
    )
}

/// The body of a response: what follows its first empty line.
pub open spec fn body_in(text: Seq<char>) -> Option<Seq<char>> {
    match find_from(text, seq!['\n', '\n'], 0) {
        Some(i) => Some(text.skip(i + 2)),
        None => None,
    }
}

/// A response is the lines of its head, joined, an empty line and the
/// body. No line of the head is empty or holds a line feed.
pub proof fn lemma_response_head(v: ResponseView)
    requires
        free_of(v.server, '\n'),
        free_of(v.date, '\n'),
        forall|i: int| 0 <= i < v.headers.len() ==> readable(#[trigger] v.headers[i]),
    ensures
        response_text(v) == join_with(head_lines(v), seq!['\n']) + seq!['\n', '\n'] + v.body,
        forall|i: int|
            0 <= i < head_lines(v).len() ==> free_of(#[trigger] head_lines(v)[i], '\n')
                && head_lines(v)[i].len() > 0,
{
    let feed = seq!['\n'];
    let sent = sent_headers(v);
    let status_line = "HTTP/1.1 "@ + v.status.text();
    reveal_strlit("\nServer: ");
    let label = "\nServer: "@.skip(1);
    let server_line = label + v.server;
    let lines_of_headers = header_lines(sent);
    let head = head_lines(v);
    lemma_sent_readable(v);
    lemma_status_line(v.status);
    assert(free_of(label, '\n'));
    assert(label.len() == 8);
    lemma_free_of_concat(label, v.server, '\n');
    assert forall|i: int| 0 <= i < head.len() implies free_of(#[trigger] head[i], '\n')
        && head[i].len() > 0 by {
        if 2 <= i {
            assert(head[i] == header_line(sent[i - 2]));
            lemma_header_line(sent[i - 2]);
        }
    }
    let rest = seq![server_line] + lines_of_headers;
    assert(head == seq![status_line] + rest);
    lemma_join_front(status_line, rest, feed);
    lemma_join_front(server_line, lines_of_headers, feed);
    assert("\nServer: "@ == feed + label);
    assert(metadata(v) == status_line + feed + server_line);
    assert(response_text(v) == join_with(head, feed) + seq!['\n', '\n'] + v.body);
}

/// Lines that are not empty and hold no line feed, joined by line feeds,
/// give a text that does not end in a line feed and in which no two line
/// feeds stand side by side.
pub proof fn lemma_joined_lines(lines: Seq<Seq<char>>)
    requires
        lines.len() >= 1,
        forall|i: int|
            0 <= i < lines.len() ==> free_of(#[trigger] lines[i], '\n') && lines[i].len() > 0,
    ensures
        join_with(lines, seq!['\n']).len() > 0,
        join_with(lines, seq!['\n']).last() != '\n',
        forall|j: int|
            0 <= j && j + 1 < join_with(lines, seq!['\n']).len() ==> !(#[trigger] join_with(
                lines,
                seq!['\n'],
            )[j] == '\n' && join_with(lines, seq!['\n'])[j + 1] == '\n'),
    decreases lines.len(),
{
    let joined = join_with(lines, seq!['\n']);
    let last = lines.last();
    assert(free_of(lines[lines.len() - 1], '\n'));
    if lines.len() == 1 {
        assert(joined == lines[0]);
        assert(joined[joined.len() - 1] != '\n');
    } else {
        let front = lines.drop_last();
        assert forall|i: int| 0 <= i < front.len() implies free_of(#[trigger] front[i], '\n')
            && front[i].len() > 0 by {
            assert(front[i] == lines[i]);
        }
        lemma_joined_lines(front);
        let before = join_with(front, seq!['\n']);
        let n = before.len() as int;
        assert(joined == before + seq!['\n'] + last);
        assert(joined[joined.len() - 1] == last[last.len() - 1]);
        assert forall|j: int| 0 <= j && j + 1 < joined.len() implies !(#[trigger] joined[j] == '\n'
            && joined[j + 1] == '\n') by {
            if j + 1 < n {
                assert(joined[j] == before[j] && joined[j + 1] == before[j + 1]);
            } else if j + 1 == n {
                assert(joined[j] == before[n - 1]);
            } else if j == n {
                assert(joined[j + 1] == last[0]);
            } else {
                assert(joined[j] == last[j - n - 1]);
            }
        }
    }
}

/// The body of a response is read back from its text: it is what follows
/// the first empty line.
pub proof fn lemma_response_body(v: ResponseView)
    requires
        free_of(v.server, '\n'),
        free_of(v.date, '\n'),
        forall|i: int| 0 <= i < v.headers.len() ==> readable(#[trigger] v.headers[i]),
    ensures
        body_in(response_text(v)) == Some(v.body),
{
    let mark = seq!['\n', '\n'];
    let head = join_with(head_lines(v), seq!['\n']);
    let text = response_text(v);
    let n = head.len() as int;
    lemma_response_head(v);
    lemma_joined_lines(head_lines(v));
    lemma_match_between(head, mark, v.body);
    assert forall|j: int| 0 <= j < n implies !matches_at(text, mark, j) by {
        if matches_at(text, mark, j) {
            assert(text.subrange(j, j + 2)[0] == '\n');
            assert(text.subrange(j, j + 2)[1] == '\n');
            assert(text[j] == head[j]);
            if j + 1 < n {
                assert(text[j + 1] == head[j + 1]);
            } else {
                assert(head[n - 1] == head.last());
            }
        }
    }
    lemma_first_match(text, mark, n);
    assert(text.skip(n + 2) == v.body);
}

/// The lines of a response are its status line, the line that names the
/// server, the lines of its headers and an empty line; the lines of the
/// body follow.
pub proof fn lemma_response_lines(v: ResponseView)
    requires
        free_of(v.server, '\n'),
        free_of(v.date, '\n'),
        forall|i: int| 0 <= i < v.headers.len() ==> readable(#[trigger] v.headers[i]),
    ensures
        ({
            let lines = response_lines(response_text(v));
            let sent = sent_headers(v);
            &&& lines.len() > sent.len() + 2
            &&& lines[0] == "HTTP/1.1 "@ + v.status.text()
            &&& forall|j: int| 0 <= j < sent.len() ==> #[trigger] lines[2 + j] == header_line(sent[j])
            &&& lines[2 + sent.len() as int].len() == 0
        }),
{
    let feed = seq!['\n'];
    let sent = sent_headers(v);
    let head = head_lines(v);
    let all = head.push(Seq::<char>::empty());
    lemma_response_head(v);
    assert forall|i: int| 0 <= i < all.len() implies free_of(#[trigger] all[i], '\n') by {
        if i < head.len() {
            assert(all[i] == head[i]);
        }
    }
    assert(all.drop_last() == head);
    assert(join_with(all, feed) == join_with(head, feed) + feed + Seq::<char>::empty());
    assert(response_text(v) == join_with(all, feed) + feed + v.body);
    lemma_split_joined(all, v.body, '\n');
    crate::text::lemma_split_has_piece(v.body, feed, 0);
    let lines = response_lines(response_text(v));
    assert(lines == all + split_on(v.body, feed));
    assert forall|j: int| 0 <= j < sent.len() implies #[trigger] lines[2 + j] == header_line(
        sent[j],
    ) by {
        assert(lines[2 + j] == all[2 + j]);
        assert(all[2 + j] == header_lines(sent)[j]);
    }
    assert(lines[2 + sent.len() as int] == all[2 + sent.len() as int]);
}

/// What a response was composed from is read back from its text: the
/// status, the content type, the length of the body and the body itself,
/// whatever headers the caller has set under the keys of the standard
/// ones. The length that is read is the number of bytes of the body that
/// is read.
///
/// This holds where the name of the server, the date and the headers that
/// the caller has set hold no line feed, and where the keys of those
/// headers hold no colon.
pub proof fn lemma_response_round_trip(v: ResponseView)
    requires
        free_of(v.server, '\n'),
        free_of(v.date, '\n'),
        forall|i: int| 0 <= i < v.headers.len() ==> readable(#[trigger] v.headers[i]),
    ensures
        status_in(response_text(v)) == Some(v.status),
        content_type_in(response_text(v)) == Some(v.content_type.text()),
        mime_of(content_type_in(response_text(v))->0) == v.content_type,
        content_length_in(response_text(v)) == Some(byte_len(v.body)),
        body_in(response_text(v)) == Some(v.body),
        content_length_in(response_text(v)) == Some(byte_len(body_in(response_text(v))->0)),
{
    lemma_mime_round_trip(v.content_type);
    lemma_response_body(v);
    let text = response_text(v);
    let lines = response_lines(text);
    let sent = sent_headers(v);
    lemma_response_lines(v);
    lemma_sent_readable(v);
    lemma_status_line(v.status);
    lemma_parse_decimal(v.status.code());
    lemma_status_round_trip(v.status);
    lemma_header_from(lines, 2, sent, 0, "Content-Type"@);
    lemma_header_from(lines, 2, sent, 0, "Content-Length"@);
    lemma_standard_header_sent(v, 1);
    lemma_standard_header_sent(v, 2);
    lemma_decimal_round_trip(byte_len(v.body));
}

/// A response as `new_string` and `new_json` build it, with whatever
/// headers of readable form set since, is read back from its text: the
/// server names itself without line feed, and the date holds none.
pub proof fn lemma_built_response_round_trip(v: ResponseView)
    requires
        v.server == server_name(),
        free_of(v.date, '\n'),
        forall|i: int| 0 <= i < v.headers.len() ==> readable(#[trigger] v.headers[i]),
    ensures
        status_in(response_text(v)) == Some(v.status),
        mime_of(content_type_in(response_text(v))->0) == v.content_type,
        content_type_in(response_text(v)) == Some(v.content_type.text()),
        content_length_in(response_text(v)) == Some(byte_len(v.body)),
        body_in(response_text(v)) == Some(v.body),
{
    reveal_strlit("ChubyHttp/0.0.1b");
    lemma_response_round_trip(v);
}

} // verus!

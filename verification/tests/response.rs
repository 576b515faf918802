use samovar::common::{
    DummyResponseType, Header, HttpStatus, MimeType, Rendered, ResponseBody, ResponseCommon,
};
use samovar::response::{respond_with_string, text_byte_len, Response};

fn greeting(name: &str) -> Rendered {
    Rendered(format!("{{\"hello\":\"{}\"}}", name))
}

struct Parts {
    status_line: String,
    server_line: String,
    headers: Vec<(String, String)>,
    body: String,
}

fn take_apart(text: &str) -> Parts {
    let (head, body) = text.split_once("\n\n").unwrap();
    let mut lines = head.split('\n');
    let status_line = lines.next().unwrap().to_string();
    let server_line = lines.next().unwrap().to_string();
    let headers = lines
        .map(|l| {
            let (k, v) = l.split_once(": ").unwrap();
            (k.to_string(), v.to_string())
        })
        .collect();
    Parts { status_line, server_line, headers, body: body.to_string() }
}

fn value_of<'a>(parts: &'a Parts, key: &str) -> &'a str {
    let found: Vec<&(String, String)> = parts.headers.iter().filter(|h| h.0 == key).collect();
    assert_eq!(found.len(), 1, "header {}", key);
    &found[0].1
}

fn keys_of(parts: &Parts) -> Vec<&str> {
    parts.headers.iter().map(|h| h.0.as_str()).collect()
}

fn looks_like_a_date(value: &str) {
    // Such as "Wed, 28 October 2026 21:34:05 UTC".
    let words: Vec<&str> = value.split(' ').collect();
    assert_eq!(words.len(), 6, "{:?}", value);
    assert!(["Mon,", "Tue,", "Wed,", "Thu,", "Fri,", "Sat,", "Sun,"].contains(&words[0]));
    assert_eq!(words[1].len(), 2);
    assert!(words[1].parse::<u32>().unwrap() >= 1);
    assert!(words[3].parse::<u32>().unwrap() >= 2024);
    assert_eq!(words[4].len(), 8);
    assert_eq!(words[5], "UTC");
}

#[test]
fn string_response_is_composed() {
    let mut resp = Response::<DummyResponseType>::new_string(
        "Ok!".to_string(),
        MimeType::TextHtml,
        HttpStatus::Http200Ok,
    );
    let text = resp.compose();
    let parts = take_apart(text.as_str());
    assert_eq!(parts.status_line, "HTTP/1.1 200 OK");
    assert_eq!(parts.server_line, "Server: ChubyHttp/0.0.1b");
    assert_eq!(keys_of(&parts), vec!["Content-Length", "Content-Type", "Date"]);
    assert_eq!(value_of(&parts, "Content-Length"), "3");
    assert_eq!(value_of(&parts, "Content-Type"), "text/html");
    looks_like_a_date(value_of(&parts, "Date"));
    assert_eq!(parts.body, "Ok!");
}

#[test]
fn text_is_metadata_headers_and_body() {
    let mut resp = Response::<DummyResponseType>::new_string(
        "b".to_string(),
        MimeType::TextPlain,
        HttpStatus::Http404NotFound,
    );
    let wrapper = resp.compose();
    let text = wrapper.as_str();
    let date = {
        let parts = take_apart(text);
        value_of(&parts, "Date").to_string()
    };
    let expected = format!(
        "HTTP/1.1 404 Not Found\nServer: ChubyHttp/0.0.1b\nContent-Length: 1\nContent-Type: text/plain\nDate: {}\n\nb",
        date
    );
    assert_eq!(text, expected);
}

#[test]
fn content_length_counts_bytes() {
    for body in ["", "a", "h\u{e9}llo", "\u{20ac}\u{10348}", "line\nline\n\nline"] {
        let mut resp = Response::<DummyResponseType>::new_string(
            body.to_string(),
            MimeType::TextPlain,
            HttpStatus::Http200Ok,
        );
        let text = resp.compose();
        let (head, sent) = text.as_str().split_once("\n\n").unwrap();
        assert_eq!(sent, body);
        let line = head.split('\n').find(|l| l.starts_with("Content-Length: ")).unwrap();
        assert_eq!(line, format!("Content-Length: {}", body.len()));
    }
    assert_eq!(text_byte_len("h\u{e9}llo"), 6);
}

#[test]
fn object_response_is_rendered() {
    assert_eq!(greeting("w\u{f6}rld").get_length(), 18);
    let mut resp = Response::new_json(greeting("w\u{f6}rld"), HttpStatus::Http201Created);
    let text = resp.compose();
    let parts = take_apart(text.as_str());
    assert_eq!(parts.status_line, "HTTP/1.1 201 Created");
    assert_eq!(value_of(&parts, "Content-Type"), "application/json");
    assert_eq!(parts.body, "{\"hello\":\"w\u{f6}rld\"}");
    assert_eq!(value_of(&parts, "Content-Length"), parts.body.len().to_string());
}

#[test]
fn empty_body_is_empty() {
    let body = ResponseBody::<DummyResponseType>::new_empty(MimeType::TextPlain);
    let mut resp = Response::new(
        vec![],
        "srv".to_string(),
        HttpStatus::Http204NoContent,
        MimeType::TextPlain,
        body,
        99,
    );
    let text = resp.compose();
    let parts = take_apart(text.as_str());
    assert_eq!(parts.status_line, "HTTP/1.1 204 No Content");
    assert_eq!(parts.server_line, "Server: srv");
    assert_eq!(value_of(&parts, "Content-Length"), "0");
    assert_eq!(parts.body, "");
}

#[test]
fn dummy_object_renders_nothing() {
    let mut resp = Response::new_json(DummyResponseType, HttpStatus::Http200Ok);
    let text = resp.compose();
    let parts = take_apart(text.as_str());
    assert_eq!(parts.body, "");
    assert_eq!(value_of(&parts, "Content-Length"), "0");
    assert_eq!(DummyResponseType.get_length(), 0);
    assert_eq!(DummyResponseType.parse_to_string(), "");
}

#[test]
fn headers_are_sorted_by_key() {
    let mut resp = Response::<DummyResponseType>::new_string(
        "x".to_string(),
        MimeType::TextPlain,
        HttpStatus::Http200Ok,
    );
    resp.set_header("X-Custom".to_string(), "1".to_string());
    resp.set_header("Accept".to_string(), "2".to_string());
    resp.set_header("date".to_string(), "3".to_string());
    resp.set_header("Content".to_string(), "4".to_string());
    let text = resp.compose();
    let parts = take_apart(text.as_str());
    assert_eq!(
        keys_of(&parts),
        vec!["Accept", "Content", "Content-Length", "Content-Type", "Date", "X-Custom", "date"]
    );
}

#[test]
fn order_of_setting_does_not_show() {
    let build = |keys: &[&str]| {
        let mut resp = Response::<DummyResponseType>::new_string(
            "x".to_string(),
            MimeType::TextPlain,
            HttpStatus::Http200Ok,
        );
        for k in keys {
            resp.set_header(k.to_string(), format!("value of {}", k));
        }
        let text = resp.compose();
        let parts = take_apart(text.as_str());
        parts.headers.into_iter().filter(|h| h.0 != "Date").collect::<Vec<(String, String)>>()
    };
    let one = build(&["B", "A", "Z", "M"]);
    let other = build(&["M", "Z", "A", "B"]);
    assert_eq!(one, other);
    assert_eq!(one[0], ("A".to_string(), "value of A".to_string()));
}

#[test]
fn setting_a_key_again_replaces_its_value() {
    let mut resp = Response::<DummyResponseType>::new_string(
        "x".to_string(),
        MimeType::TextPlain,
        HttpStatus::Http200Ok,
    );
    resp.set_header("A".to_string(), "1".to_string());
    resp.set_header("B".to_string(), "2".to_string());
    resp.set_header("A".to_string(), "3".to_string());
    let text = resp.compose();
    let parts = take_apart(text.as_str());
    assert_eq!(value_of(&parts, "A"), "3");
    assert_eq!(value_of(&parts, "B"), "2");
    assert_eq!(parts.headers.len(), 5);
}

#[test]
fn object_in_a_body_is_rendered() {
    let body = ResponseBody::new_json(greeting("you"));
    assert_eq!(body.render(), "{\"hello\":\"you\"}");
    let mut resp = Response::new(
        vec![],
        "s".to_string(),
        HttpStatus::Http200Ok,
        MimeType::ApplicationJson,
        body,
        0,
    );
    let text = resp.compose();
    let parts = take_apart(text.as_str());
    assert_eq!(parts.body, "{\"hello\":\"you\"}");
    assert_eq!(value_of(&parts, "Content-Length"), "15");
}

#[test]
fn standard_headers_take_the_place_of_set_ones() {
    let mut resp = Response::<DummyResponseType>::new_string(
        "abc".to_string(),
        MimeType::TextPlain,
        HttpStatus::Http200Ok,
    );
    resp.set_header("Content-Type".to_string(), "text/html".to_string());
    resp.set_header("Content-Length".to_string(), "999".to_string());
    resp.set_header("Date".to_string(), "never".to_string());
    resp.set_header("X".to_string(), "kept".to_string());
    let text = resp.compose();
    let parts = take_apart(text.as_str());
    assert_eq!(keys_of(&parts), vec!["Content-Length", "Content-Type", "Date", "X"]);
    assert_eq!(value_of(&parts, "Content-Type"), "text/plain");
    assert_eq!(value_of(&parts, "Content-Length"), "3");
    looks_like_a_date(value_of(&parts, "Date"));
    assert_eq!(value_of(&parts, "X"), "kept");
}

#[test]
fn later_header_takes_the_place_of_an_earlier_one() {
    let headers = vec![
        Header { key: "K".to_string(), value: "first".to_string() },
        Header { key: "A".to_string(), value: "a".to_string() },
        Header { key: "K".to_string(), value: "second".to_string() },
    ];
    let body = ResponseBody::<DummyResponseType>::new_string(MimeType::TextPlain, "x".to_string());
    let mut resp =
        Response::new(headers, "s".to_string(), HttpStatus::Http200Ok, MimeType::TextPlain, body, 1);
    let text = resp.compose();
    let parts = take_apart(text.as_str());
    assert_eq!(value_of(&parts, "K"), "second");
    assert_eq!(keys_of(&parts), vec!["A", "Content-Length", "Content-Type", "Date", "K"]);
}

#[test]
fn composing_again_gives_the_same_text() {
    let mut resp = Response::<DummyResponseType>::new_string(
        "x".to_string(),
        MimeType::TextPlain,
        HttpStatus::Http200Ok,
    );
    resp.set_header("B".to_string(), "2".to_string());
    resp.set_header("A".to_string(), "1".to_string());
    let first = resp.compose().as_str().to_string();
    let second = resp.compose().as_str().to_string();
    assert_eq!(first, second);
    let parts = take_apart(&second);
    assert_eq!(keys_of(&parts), vec!["A", "B", "Content-Length", "Content-Type", "Date"]);
}

#[test]
fn respond_with_string_composes_at_once() {
    let text = respond_with_string("hi".to_string(), MimeType::TextCSS, HttpStatus::Http500InternalServerError);
    let parts = take_apart(text.as_str());
    assert_eq!(parts.status_line, "HTTP/1.1 500 Internal Server Error");
    assert_eq!(value_of(&parts, "Content-Type"), "text/css");
    assert_eq!(value_of(&parts, "Content-Length"), "2");
    assert_eq!(parts.body, "hi");
}

#[test]
fn status_and_headers_are_read_back() {
    let mut resp = Response::<DummyResponseType>::new_string(
        "some body".to_string(),
        MimeType::ApplicationOctetStream,
        HttpStatus::Http503ServiceUnavailable,
    );
    let text = resp.compose();
    let parts = take_apart(text.as_str());
    let code: u32 = parts.status_line.split(' ').nth(1).unwrap().parse().unwrap();
    assert_eq!(HttpStatus::from(code), Some(HttpStatus::Http503ServiceUnavailable));
    assert_eq!(
        MimeType::from_header_value(value_of(&parts, "Content-Type")),
        MimeType::ApplicationOctetStream
    );
    for m in [MimeType::TextCSS, MimeType::TextJavaScript] {
        let text = respond_with_string("x".to_string(), m, HttpStatus::Http200Ok);
        let parts = take_apart(text.as_str());
        assert_eq!(MimeType::from_header_value(value_of(&parts, "Content-Type")), m);
    }
    assert_eq!(value_of(&parts, "Content-Length").parse::<usize>().unwrap(), 9);
}

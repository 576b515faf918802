use samovar::common::{Method, MimeType, RequestBodyType, RequestError};
use samovar::parser::RequestParser;
use samovar::request::Request;

fn parse(raw: &str) -> Result<Request, RequestError> {
    RequestParser::parse_and_create(&raw.to_string(), "127.0.0.1:4000".to_string())
}

fn error_of(raw: &str) -> RequestError {
    match parse(raw) {
        Ok(_) => panic!("the request was read: {:?}", raw),
        Err(e) => e,
    }
}

fn pairs_of_headers(request: &Request) -> Vec<(String, String)> {
    request.get_all_headers().into_iter().map(|h| (h.key, h.value)).collect()
}

fn pairs_of_params(request: &Request) -> Vec<(String, String)> {
    request.get_params().into_iter().map(|p| (p.key, p.value)).collect()
}

fn pair(a: &str, b: &str) -> (String, String) {
    (a.to_string(), b.to_string())
}

const PLAIN: &str = "GET /get-ip HTTP/1.1\r\nHost: localhost:1500\r\nUser-Agent: curl/7.0\r\nReferer: http://x/y\r\nContent-Type: text/html\r\n\r\nbody here";

#[test]
fn plain_request_is_read() {
    let r = parse(PLAIN).unwrap();
    assert_eq!(r.get_method(), Method::GET);
    assert_eq!(r.get_location(), "/get-ip");
    assert_eq!(r.get_raw_uri(), "get-ip");
    assert_eq!(r.get_bare_url(), "/get-ip");
    assert_eq!(r.get_host(), "localhost:1500");
    assert_eq!(r.get_referer(), "http://x/y");
    assert_eq!(r.get_content_type(), MimeType::TextHtml);
    assert_eq!(r.get_scheme(), "http");
    assert_eq!(r.get_port(), 80);
    assert_eq!(r.get_ip(), "127.0.0.1:4000");
    assert_eq!(r.get_paths(), Vec::<String>::new());
    assert!(pairs_of_params(&r).is_empty());
    let user = r.get_user_info();
    assert_eq!(user.username, "");
    assert_eq!(user.password, "");
    assert_eq!(
        pairs_of_headers(&r),
        vec![
            pair("host", "localhost:1500"),
            pair("user-agent", "curl/7.0"),
            pair("referer", "http://x/y"),
            pair("content-type", "text/html"),
        ]
    );
    let body = r.get_body();
    assert_eq!(body.content_type, MimeType::TextHtml);
    match body.content {
        RequestBodyType::Str(s) => assert_eq!(s, "body here"),
        RequestBodyType::Json(_) => panic!("the body is no JSON"),
    }
}

#[test]
fn full_target_is_taken_apart() {
    let r = parse("post http://user:pw@host:8080/A/b?q=x=1&y=2 HTTP/1.1\r\n\r\n").unwrap();
    assert_eq!(r.get_method(), Method::POST);
    assert_eq!(r.get_location(), "http://user:pw@host:8080/A/b?q=x=1&y=2");
    assert_eq!(r.get_scheme(), "http");
    let user = r.get_user_info();
    assert_eq!(user.username, "user");
    assert_eq!(user.password, "pw");
    assert_eq!(r.get_port(), 80);
    assert_eq!(pairs_of_params(&r), vec![pair("x", "1"), pair("y", "2")]);
    assert_eq!(r.get_bare_url(), "http://user:pw@host:8080/A/b");
    assert_eq!(r.get_paths(), vec!["user:pw@host:8080", "A", "b?q=x=1&y=2"]);
    assert_eq!(r.get_raw_uri(), "/user:pw@host:8080/a/b");
}

#[test]
fn parts_of_a_target() {
    let l = |s: &str| s.to_string();
    assert_eq!(RequestParser::get_scheme(&l("https://h/x")), "https");
    assert_eq!(RequestParser::get_scheme(&l("/x")), "http");
    assert_eq!(RequestParser::get_scheme(&l("a://b://c")), "http");
    assert_eq!(RequestParser::get_port(&l("localhost:8080")), 8080);
    assert_eq!(RequestParser::get_port(&l("localhost:+81")), 81);
    assert_eq!(RequestParser::get_port(&l("localhost")), 80);
    assert_eq!(RequestParser::get_port(&l("localhost:99999999999")), 80);
    assert_eq!(RequestParser::get_port(&l("8081")), 8081);
    assert_eq!(RequestParser::get_uri(&l("/")), "/");
    assert_eq!(RequestParser::get_uri(&l("abc")), "/");
    assert_eq!(RequestParser::get_uri(&l("/Static/A.TXT")), "static/a.txt");
    assert_eq!(RequestParser::get_uri(&l("/a/b/?q=k=v")), "a/b/");
    assert_eq!(RequestParser::get_path(&l("/Static/A.TXT")), "Static/A.TXT");
    assert_eq!(RequestParser::get_bare_url(&l("/a?q=k=v")), "/a");
    assert_eq!(RequestParser::get_uri_paths(&l("/a/b/c")), vec!["b", "c"]);
    assert_eq!(RequestParser::get_uri_paths(&l("/a")), Vec::<String>::new());
    assert_eq!(RequestParser::get_uri_paths(&l("a")), Vec::<String>::new());
}

#[test]
fn query_needs_its_marker_exactly_once() {
    let l = |s: &str| s.to_string();
    let none = RequestParser::get_url_params(&l("/a?k=v")).unwrap();
    assert!(none.is_empty());
    let twice = RequestParser::get_url_params(&l("/a?q=k=v?q=x=y")).unwrap();
    assert!(twice.is_empty());
    let one = RequestParser::get_url_params(&l("/a?q=k=v=w")).unwrap();
    assert_eq!(one.len(), 1);
    assert_eq!(one[0].key, "k");
    assert_eq!(one[0].value, "v");
    assert!(RequestParser::get_url_params(&l("/a?q=k")).is_none());
    assert!(RequestParser::get_url_params(&l("/a?q=")).is_none());
    assert!(RequestParser::get_url_params(&l("/a?q=k=v&")).is_none());
}

#[test]
fn parameters_keep_their_order_and_their_doubles() {
    let r = parse("GET /find?q=a=1&b=2&a=3&=&a= HTTP/1.1\r\n\r\n").unwrap();
    assert_eq!(
        pairs_of_params(&r),
        vec![pair("a", "1"), pair("b", "2"), pair("a", "3"), pair("", ""), pair("a", "")]
    );
    assert_eq!(r.get_raw_uri(), "find");
    assert_eq!(r.get_bare_url(), "/find");
}

#[test]
fn user_information() {
    let l = |s: &str| s.to_string();
    let plain = RequestParser::get_userpass(&l("name:secret@host/x")).unwrap();
    assert_eq!(plain.username, "name");
    assert_eq!(plain.password, "secret");
    let empty = RequestParser::get_userpass(&l(":@host")).unwrap();
    assert_eq!(empty.username, "");
    assert_eq!(empty.password, "");
    assert!(RequestParser::get_userpass(&l("name@host")).is_none());
    assert!(RequestParser::get_userpass(&l("http://name@host")).is_none());
}

#[test]
fn headers_are_lowercased_and_filtered() {
    let raw = "GET / HTTP/1.1\r\nHOST: a\r\nBroken\r\nX: a: b\r\nAccept:*/*\r\nhost: b\r\n\r\nHost: c";
    let r = parse(raw).unwrap();
    assert_eq!(pairs_of_headers(&r), vec![pair("host", "a"), pair("host", "b")]);
    assert_eq!(r.get_host(), "b");
    assert_eq!(r.get_header("Host"), Some("b".to_string()));
    assert_eq!(r.get_header("HOST"), Some("b".to_string()));
    assert_eq!(r.get_header_lowercase("Host"), None);
    assert_eq!(r.get_header("accept"), None);
    assert_eq!(r.get_referer(), "");
    assert_eq!(r.get_content_type(), MimeType::TextPlain);
}

#[test]
fn first_line_is_no_header() {
    let r = parse("GET: x HTTP/1.1\r\nA: b\r\n\r\n").unwrap();
    assert_eq!(pairs_of_headers(&r), vec![pair("a", "b")]);
    assert_eq!(r.get_method(), Method::UNKNOWN);
}

#[test]
fn content_types() {
    let with = |v: &str| format!("GET / HTTP/1.1\r\nContent-Type: {}\r\n\r\n1", v);
    assert_eq!(parse(&with("text/plain")).unwrap().get_content_type(), MimeType::TextPlain);
    assert_eq!(parse(&with("text/html")).unwrap().get_content_type(), MimeType::TextHtml);
    assert_eq!(
        parse(&with("application/octet-stream")).unwrap().get_content_type(),
        MimeType::ApplicationOctetStream
    );
    assert_eq!(
        parse(&with("application/json")).unwrap().get_content_type(),
        MimeType::ApplicationJson
    );
    assert_eq!(parse(&with("text/css")).unwrap().get_content_type(), MimeType::TextCSS);
    assert_eq!(
        parse(&with("text/javascript")).unwrap().get_content_type(),
        MimeType::TextJavaScript
    );
    assert_eq!(parse(&with("image/png")).unwrap().get_content_type(), MimeType::TextPlain);
    assert_eq!(parse(&with("Text/Html")).unwrap().get_content_type(), MimeType::TextPlain);
}

#[test]
fn json_body_is_parsed() {
    let raw = "POST /test HTTP/1.1\r\nContent-Type: application/json\r\n\r\n{\"aa\": [1, \"two\"]}";
    let r = parse(raw).unwrap();
    let body = r.get_body();
    assert_eq!(body.content_type, MimeType::ApplicationJson);
    match body.content {
        RequestBodyType::Json(value) => {
            assert_eq!(value["aa"][0].as_i64(), Some(1));
            assert_eq!(value["aa"][1].as_str(), Some("two"));
        }
        RequestBodyType::Str(_) => panic!("the body is JSON"),
    }
}

#[test]
fn json_body_is_the_value_of_its_text() {
    let text = "{\"n\": 1.5, \"list\": [true, null, \"x\"], \"in\": {\"k\": -2}}";
    let raw = format!("POST /j HTTP/1.1\r\nContent-Type: application/json\r\n\r\n{}", text);
    let expected: serde_json::Value = serde_json::from_str(text).unwrap();
    let read = |raw: &str| match parse(raw).unwrap().get_body().content {
        RequestBodyType::Json(value) => value,
        RequestBodyType::Str(_) => panic!("the body is JSON"),
    };
    assert_eq!(read(&raw), expected);
    assert_eq!(read(&raw), read(&raw));
    let body = samovar::common::RequestBody::from_str(text.to_string(), MimeType::ApplicationJson)
        .unwrap();
    match body.content {
        RequestBodyType::Json(value) => assert_eq!(value, expected),
        RequestBodyType::Str(_) => panic!("the body is JSON"),
    }
    let kept = samovar::common::RequestBody::from_str(text.to_string(), MimeType::TextPlain)
        .unwrap();
    match kept.content {
        RequestBodyType::Str(s) => assert_eq!(s, text),
        RequestBodyType::Json(_) => panic!("the body is kept as text"),
    }
}

#[test]
fn body_is_all_after_the_first_empty_line() {
    let r = parse("POST /x HTTP/1.1\r\nA: b\r\n\r\nfirst\r\n\r\nsecond").unwrap();
    match r.get_body().content {
        RequestBodyType::Str(s) => assert_eq!(s, "first\r\n\r\nsecond"),
        RequestBodyType::Json(_) => panic!("the body is no JSON"),
    }
    assert_eq!(RequestParser::get_body_text(&"GET / HTTP/1.1\r\nA: b".to_string()), "");
    assert_eq!(RequestParser::get_body_text(&"GET / HTTP/1.1\r\n\r\n".to_string()), "");
}

#[test]
fn each_error_has_its_input() {
    assert_eq!(error_of(""), RequestError::MissingMethod);
    assert_eq!(error_of("\r\nGET / HTTP/1.1"), RequestError::MissingMethod);
    assert_eq!(error_of("   \r\n"), RequestError::MissingMethod);
    assert_eq!(error_of("GET"), RequestError::MissingTarget);
    assert_eq!(error_of("GET\r\n/ HTTP/1.1"), RequestError::MissingTarget);
    assert_eq!(error_of("GET /?q=novalue HTTP/1.1\r\n\r\n"), RequestError::MalformedQuery);
    assert_eq!(error_of("GET http://user@host/ HTTP/1.1\r\n\r\n"), RequestError::MalformedUserInfo);
    assert_eq!(
        error_of("POST / HTTP/1.1\r\nContent-Type: application/json\r\n\r\n{bad"),
        RequestError::InvalidJson
    );
    assert_eq!(
        error_of("POST / HTTP/1.1\r\nContent-Type: application/json\r\n\r\n"),
        RequestError::InvalidJson
    );
}

#[test]
fn first_error_is_reported() {
    assert_eq!(
        error_of("GET user@host?q=bad HTTP/1.1\r\nContent-Type: application/json\r\n\r\n{bad"),
        RequestError::MalformedQuery
    );
    assert_eq!(
        error_of("GET user@host HTTP/1.1\r\nContent-Type: application/json\r\n\r\n{bad"),
        RequestError::MalformedUserInfo
    );
}

#[test]
fn method_and_target_alone() {
    let raw = "put\t/x\n".to_string();
    assert_eq!(RequestParser::get_method(&raw), Some(Method::PUT));
    assert_eq!(RequestParser::get_location(&raw), Some("/x".to_string()));
    assert_eq!(RequestParser::get_method(&"".to_string()), None);
    assert_eq!(RequestParser::get_location(&"GET".to_string()), None);
}

#[test]
fn header_line_parts() {
    let chars = |s: &str| s.chars().collect::<Vec<char>>();
    assert_eq!(
        RequestParser::get_header_parts(&chars("Key: value")),
        Some(("Key".to_string(), "value".to_string()))
    );
    assert_eq!(
        RequestParser::get_header_parts(&chars(": ")),
        Some(("".to_string(), "".to_string()))
    );
    assert_eq!(RequestParser::get_header_parts(&chars("Key:value")), None);
    assert_eq!(RequestParser::get_header_parts(&chars("a: b: c")), None);
}

#[test]
fn names_for_paths() {
    let r = parse("GET /Static/Sub/ HTTP/1.1\r\n\r\n").unwrap();
    assert_eq!(r.get_raw_uri(), "static/sub/");
    assert_eq!(r.compose_name_for_fs(), "dir_server_static-sub-");
    assert_eq!(r.compose_name_for_ep(), "static/sub");
    let short = parse("GET /a/ HTTP/1.1\r\n\r\n").unwrap();
    assert_eq!(short.get_raw_uri(), "a/");
    assert_eq!(short.compose_name_for_ep(), "a");
    let root = parse("GET / HTTP/1.1\r\n\r\n").unwrap();
    assert_eq!(root.compose_name_for_ep(), "/");
    assert_eq!(root.compose_name_for_fs(), "dir_server_-");
}

#[test]
fn request_from_is_the_parser() {
    let r = Request::from(&PLAIN.to_string(), "10.0.0.1:1".to_string()).unwrap();
    assert_eq!(r.get_raw_uri(), "get-ip");
    assert_eq!(r.get_ip(), "10.0.0.1:1");
}

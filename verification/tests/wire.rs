use samovar::common::{HttpStatus, Method, MimeType};

#[test]
fn method_names_are_read_in_any_case() {
    assert_eq!(Method::from("get".to_string()), Method::GET);
    assert_eq!(Method::from("GeT".to_string()), Method::GET);
    assert_eq!(Method::from("POST".to_string()), Method::POST);
    assert_eq!(Method::from("Option".to_string()), Method::OPTION);
    assert_eq!(Method::from("put".to_string()), Method::PUT);
    assert_eq!(Method::from("DELETE".to_string()), Method::DELETE);
    assert_eq!(Method::from("patch".to_string()), Method::UNKNOWN);
    assert_eq!(Method::from("".to_string()), Method::UNKNOWN);
}

#[test]
fn status_text_is_code_and_reason() {
    assert_eq!(HttpStatus::Http200Ok.into(), "200 OK");
    assert_eq!(HttpStatus::Http404NotFound.into(), "404 Not Found");
    assert_eq!(HttpStatus::Http418ImATeapot.into(), "418 I'm a teapot");
}

#[test]
fn mime_text() {
    assert_eq!(MimeType::TextCSS.into(), "text/css");
}

#[test]
fn every_status_is_found_under_its_code() {
    let mut found = 0;
    for code in 0u32..700 {
        if let Some(status) = HttpStatus::from(code) {
            found += 1;
            assert_eq!(status.get_code(), code);
            let text = status.into();
            assert!(text.starts_with(&format!("{} ", code)));
            assert_eq!(text, format!("{} {}", code, status.get_reason()));
        }
    }
    assert_eq!(found, 63);
}

#[test]
fn unknown_codes_have_no_status() {
    for code in [0u32, 99, 104, 209, 227, 309, 419, 420, 427, 430, 452, 509, 512, 600, u32::MAX] {
        assert_eq!(HttpStatus::from(code), None);
    }
}

#[test]
fn status_reasons() {
    assert_eq!(HttpStatus::from(100).unwrap().into(), "100 Continue");
    assert_eq!(HttpStatus::from(203).unwrap().into(), "203 Non-Authoritative Information");
    assert_eq!(HttpStatus::from(405).unwrap().into(), "405 Method Not Allowed");
    assert_eq!(HttpStatus::from(511).unwrap().into(), "511 Network Authentication Required");
}

#[test]
fn mime_types_and_their_texts() {
    assert_eq!(MimeType::ApplicationJson.into(), "application/json");
    assert_eq!(MimeType::TextPlain.into(), "text/plain");
    assert_eq!(MimeType::TextHtml.into(), "text/html");
    assert_eq!(MimeType::ApplicationOctetStream.into(), "application/octet-stream");
    assert_eq!(MimeType::TextJavaScript.into(), "text/javascript");
    assert_eq!(MimeType::TextCSS.into(), "text/css");
    for m in [
        MimeType::ApplicationJson,
        MimeType::TextPlain,
        MimeType::TextHtml,
        MimeType::ApplicationOctetStream,
        MimeType::TextJavaScript,
        MimeType::TextCSS,
    ] {
        assert_eq!(MimeType::from_header_value(m.as_str()), m);
        assert_eq!(MimeType::from_header_value(&m.into()), m);
    }
    assert_eq!(MimeType::from_header_value("image/png"), MimeType::TextPlain);
    assert_eq!(MimeType::from_header_value("Text/Css"), MimeType::TextPlain);
    assert_eq!(MimeType::from_header_value(""), MimeType::TextPlain);
}

#[test]
fn methods_and_their_texts() {
    assert_eq!(Method::GET.into(), "GET");
    assert_eq!(Method::POST.into(), "POST");
    assert_eq!(Method::OPTION.into(), "OPTION");
    assert_eq!(Method::PUT.into(), "PUT");
    assert_eq!(Method::DELETE.into(), "DELETE");
    assert_eq!(Method::UNKNOWN.into(), "UNKNOW");
    assert_eq!(Method::from_lowercase("get"), Method::GET);
    assert_eq!(Method::from_lowercase("GET"), Method::UNKNOWN);
    assert_eq!(Method::from("options".to_string()), Method::UNKNOWN);
}

use samovar::common::{MimeType, Templates};
use samovar::context::ContextOp;
use samovar::parser::RequestParser;
use samovar::staticserver::{
    is_text_content, DirServer, FileSource, SingleFileServer, StaticError, StaticServerType,
    HTML_DIVIDER, HTML_FILE, HTML_SERVER,
};

fn file(name: &str, content: &str) -> FileSource {
    FileSource {
        path: format!("./static/{}", name),
        file_name: name.to_string(),
        content: content.to_string(),
    }
}

struct Parts {
    status_line: String,
    content_type: String,
    content_length: String,
    body: String,
}

fn take_apart(text: &str) -> Parts {
    let (head, body) = text.split_once("\n\n").unwrap();
    let value = |key: &str| {
        let start = format!("{}: ", key);
        head.split('\n').find(|l| l.starts_with(&start)).unwrap()[start.len()..].to_string()
    };
    Parts {
        status_line: head.split('\n').next().unwrap().to_string(),
        content_type: value("Content-Type"),
        content_length: value("Content-Length"),
        body: body.to_string(),
    }
}

fn site(index_file: Option<&str>) -> DirServer {
    DirServer::new(
        "/static".to_string(),
        vec![file("a.txt", "plain text"), file("index.html", "<h1>home</h1>")],
        index_file.map(|n| n.to_string()),
    )
}

#[test]
fn mount_path_loses_its_outer_slashes() {
    assert_eq!(site(None).get_path(), "static");
    assert_eq!(DirServer::new("/static/".to_string(), vec![], None).get_path(), "static");
    assert_eq!(DirServer::new("static".to_string(), vec![], None).get_path(), "static");
    assert_eq!(DirServer::new("/s".to_string(), vec![], None).get_path(), "s");
    assert_eq!(DirServer::new("/".to_string(), vec![], None).get_path(), "/");
    assert_eq!(DirServer::new("/a/b/".to_string(), vec![], None).get_path(), "a/b");
}

#[test]
fn index_file_is_served_for_the_mount_path() {
    let dir = site(Some("index.html"));
    assert_eq!(
        take_apart(dir.compose("static".to_string()).unwrap().as_str()).body,
        "<h1>home</h1>"
    );
    assert_eq!(
        take_apart(dir.compose("/static/".to_string()).unwrap().as_str()).body,
        "<h1>home</h1>"
    );
    let text = dir.compose("/static".to_string()).unwrap();
    let parts = take_apart(text.as_str());
    assert_eq!(parts.status_line, "HTTP/1.1 200 OK");
    assert_eq!(parts.content_type, "text/html");
    assert_eq!(parts.body, "<h1>home</h1>");
    assert_eq!(parts.content_length, "13");
}

#[test]
fn file_is_served_by_its_path() {
    let dir = site(Some("index.html"));
    assert_eq!(
        take_apart(dir.compose("static/a.txt".to_string()).unwrap().as_str()).body,
        "plain text"
    );
    let text = dir.compose("/static/a.txt".to_string()).unwrap();
    let parts = take_apart(text.as_str());
    assert_eq!(parts.status_line, "HTTP/1.1 200 OK");
    assert_eq!(parts.content_type, "text/plain");
    assert_eq!(parts.body, "plain text");
    assert_eq!(parts.content_length, "10");
}

#[test]
fn missing_file_has_no_answer() {
    let dir = site(Some("index.html"));
    assert!(matches!(dir.compose("/static/missing.txt".to_string()), Err(StaticError::NotFound)));
    assert!(matches!(dir.compose("static/missing.txt".to_string()), Err(StaticError::NotFound)));
    assert!(matches!(dir.compose("/stat".to_string()), Err(StaticError::NotFound)));
    assert!(matches!(dir.compose("".to_string()), Err(StaticError::NotFound)));
}

#[test]
fn directory_answers_for_the_paths_it_keeps() {
    let dir = DirServer::new("//a".to_string(), vec![file("a.txt", "text of a")], None);
    assert_eq!(dir.get_path(), "/a");
    let listing = dir.compose(dir.get_path()).unwrap();
    let parts = take_apart(listing.as_str());
    assert_eq!(parts.status_line, "HTTP/1.1 200 OK");
    assert_eq!(parts.content_type, "text/html");
    assert_eq!(parts.body, dir.create_file_list());
    assert_eq!(take_apart(dir.compose("//a".to_string()).unwrap().as_str()).body, parts.body);
    let kept = dir.find_file("/a/a.txt").unwrap().get_uri();
    assert_eq!(kept, "/a/a.txt");
    assert_eq!(take_apart(dir.compose(kept).unwrap().as_str()).body, "text of a");
    assert_eq!(take_apart(dir.compose("//a/a.txt".to_string()).unwrap().as_str()).body, "text of a");
    assert!(matches!(dir.compose("a/a.txt".to_string()), Err(StaticError::NotFound)));
    let root = DirServer::new("/".to_string(), vec![file("a.txt", "at the root")], None);
    assert_eq!(root.get_path(), "/");
    assert_eq!(take_apart(root.compose("/".to_string()).unwrap().as_str()).body, root.create_file_list());
    assert_eq!(take_apart(root.compose("//a.txt".to_string()).unwrap().as_str()).body, "at the root");
}

#[test]
fn missing_file_is_served_as_the_404_page() {
    let dir = site(Some("index.html"));
    let mut templates = Templates::new();
    samovar::common::modify_404_template(&mut templates, "no such file".to_string());
    let missing = dir.serve("/static/missing.txt".to_string(), &templates);
    let parts = take_apart(missing.as_str());
    assert_eq!(parts.status_line, "HTTP/1.1 404 Not Found");
    assert_eq!(parts.content_type, "text/plain");
    assert_eq!(parts.body, "no such file");
    let found = dir.serve("/static/a.txt".to_string(), &templates);
    assert_eq!(take_apart(found.as_str()).body, "plain text");
}

#[test]
fn requests_reach_the_files() {
    let dir = site(Some("index.html"));
    let ask = |target: &str| {
        let raw = format!("GET {} HTTP/1.1\r\nHost: h\r\n\r\n", target);
        let request = RequestParser::parse_and_create(&raw, "ip".to_string()).unwrap();
        dir.compose(request.get_raw_uri())
    };
    assert_eq!(take_apart(ask("/static").unwrap().as_str()).body, "<h1>home</h1>");
    assert_eq!(take_apart(ask("/static/a.txt").unwrap().as_str()).body, "plain text");
    assert_eq!(take_apart(ask("/Static/A.txt").unwrap().as_str()).body, "plain text");
    assert!(matches!(ask("/static/missing.txt"), Err(StaticError::NotFound)));
}

#[test]
fn directory_without_files_says_so() {
    let dir = DirServer::new("/static".to_string(), vec![], Some("index.html".to_string()));
    for uri in ["static", "static/a.txt", "anything"] {
        let text = dir.compose(uri.to_string()).unwrap();
        let parts = take_apart(text.as_str());
        assert_eq!(parts.status_line, "HTTP/1.1 404 Not Found");
        assert_eq!(parts.content_type, "text/plain");
        assert_eq!(parts.body, "No files in this glob");
    }
    assert_eq!(take_apart(dir.respond_empty().as_str()).body, "No files in this glob");
}

#[test]
fn unknown_index_name_gives_the_first_file() {
    let dir = site(Some("none"));
    let text = dir.compose("static".to_string()).unwrap();
    assert_eq!(take_apart(text.as_str()).body, "plain text");
}

#[test]
fn last_file_with_the_index_name_wins() {
    let dir = DirServer::new(
        "/d".to_string(),
        vec![file("i", "one"), file("x", "two"), file("i", "three")],
        Some("i".to_string()),
    );
    assert_eq!(dir.get_path(), "d");
    assert_eq!(take_apart(dir.compose("/d".to_string()).unwrap().as_str()).body, "three");
    assert_eq!(take_apart(dir.compose("/d/i".to_string()).unwrap().as_str()).body, "one");
}

fn item(uri: &str, badge: &str, name: &str, mime: &str) -> String {
    HTML_FILE
        .replace("REPLACE_HREF", uri)
        .replace("REPLACE_BADGE", badge)
        .replace("REPLACE_NAME", name)
        .replace("REPLACE_TYPE", mime)
}

#[test]
fn files_are_listed_without_an_index_file() {
    let dir = site(None);
    let text = dir.compose("static".to_string()).unwrap();
    let parts = take_apart(text.as_str());
    assert_eq!(parts.status_line, "HTTP/1.1 200 OK");
    assert_eq!(parts.content_type, "text/html");
    let items = vec![
        item("static/a.txt", "badge-warning", "a.txt", "text/plain"),
        item("static/index.html", "badge-info", "index.html", "text/html"),
    ];
    let expected = HTML_SERVER.replace("REPLACE_ALL", &items.join(HTML_DIVIDER));
    assert_eq!(parts.body, expected);
    assert_eq!(parts.content_length, expected.len().to_string());
    assert_eq!(dir.create_file_list(), expected);
    assert!(parts.body.contains("<a class=\"link\" href=\"static/a.txt\">a.txt</a>"));
    assert!(parts.body.contains("<span class=\"indicator-item badge badge-info\">text/html</span>"));
}

#[test]
fn badges() {
    assert_eq!(DirServer::badge(MimeType::ApplicationJson), "badge-primary");
    assert_eq!(DirServer::badge(MimeType::TextJavaScript), "badge-secondary");
    assert_eq!(DirServer::badge(MimeType::TextPlain), "badge-warning");
    assert_eq!(DirServer::badge(MimeType::TextCSS), "bade-error");
    assert_eq!(DirServer::badge(MimeType::ApplicationOctetStream), "badge-accent");
    assert_eq!(DirServer::badge(MimeType::TextHtml), "badge-info");
}

#[test]
fn content_type_goes_by_the_extension() {
    assert_eq!(DirServer::guess_mime("a.js", false), MimeType::TextJavaScript);
    assert_eq!(DirServer::guess_mime("a.css", true), MimeType::TextCSS);
    assert_eq!(DirServer::guess_mime("a.json", true), MimeType::ApplicationJson);
    assert_eq!(DirServer::guess_mime("a.html", false), MimeType::TextHtml);
    assert_eq!(DirServer::guess_mime("a.b.html", true), MimeType::TextHtml);
    assert_eq!(DirServer::guess_mime("a.txt", true), MimeType::TextPlain);
    assert_eq!(DirServer::guess_mime("a.txt", false), MimeType::ApplicationOctetStream);
    assert_eq!(DirServer::guess_mime("A.JS", true), MimeType::TextPlain);
    assert_eq!(DirServer::guess_mime("js", true), MimeType::TextPlain);
    assert_eq!(DirServer::guess_mime(".js", false), MimeType::ApplicationOctetStream);
    assert_eq!(DirServer::guess_mime("a.", true), MimeType::TextPlain);
    assert_eq!(DirServer::guess_mime("html.tar", false), MimeType::ApplicationOctetStream);
}

fn mime_by_std(name: &str, is_text: bool) -> MimeType {
    match std::path::Path::new(name).extension().map(|e| e.to_str().unwrap()) {
        Some("js") => MimeType::TextJavaScript,
        Some("css") => MimeType::TextCSS,
        Some("json") => MimeType::ApplicationJson,
        Some("html") => MimeType::TextHtml,
        _ => {
            if is_text {
                MimeType::TextPlain
            } else {
                MimeType::ApplicationOctetStream
            }
        }
    }
}

const NAMES: [&str; 22] = [
    "a.js", "a.css", "a.json", "a.html", "index", "index.html", "index.", ".index", "..", ".",
    "", "a..js", "..js", ".a.js", "a.b.c", "js", ".js", "html.", "index.tar.gz", "index.index",
    "\u{e9}.html", "a.htm",
];

#[test]
fn extension_agrees_with_std() {
    for name in NAMES {
        for is_text in [true, false] {
            assert_eq!(DirServer::guess_mime(name, is_text), mime_by_std(name, is_text), "{:?}", name);
        }
    }
}

#[test]
fn stem_agrees_with_std() {
    for name in NAMES {
        let stem = std::path::Path::new(name).file_stem().map(|e| e.to_str().unwrap());
        if name.is_empty() || name == "." || name == ".." {
            continue;
        }
        assert_eq!(DirServer::is_index(name, true), stem == Some("index"), "{:?}", name);
        assert!(!DirServer::is_index(name, false));
    }
    assert!(DirServer::is_index("index.html", true));
    assert!(DirServer::is_index("index", true));
    assert!(!DirServer::is_index(".index", true));
    assert!(!DirServer::is_index("index.tar.gz", true));
}

#[test]
fn content_is_inspected() {
    assert!(is_text_content(""));
    assert!(is_text_content("Hello"));
    assert!(is_text_content("Simple UTF-8 string \u{2614}"));
    assert!(!is_text_content("a\0b"));
    assert!(!is_text_content("%PDF-1.4 and so on"));
    assert!(is_text_content(" %PDF"));
    assert!(is_text_content("\u{feff}with a mark"));
    assert!(is_text_content("\u{feff}mark and\0zero"));
    let late = format!("{}\0", "x".repeat(1024));
    assert!(is_text_content(&late));
    let early = format!("{}\0", "x".repeat(1023));
    assert!(!is_text_content(&early));
}

#[test]
fn content_decides_where_the_name_does_not() {
    let dir = DirServer::new(
        "/bin".to_string(),
        vec![file("blob", "a\0b"), file("note", "text"), file("doc.pdf", "%PDF-1.7"), file("s.js", "a\0b")],
        None,
    );
    let mime = |uri: &str| take_apart(dir.compose(uri.to_string()).unwrap().as_str()).content_type;
    assert_eq!(mime("bin/blob"), "application/octet-stream");
    assert_eq!(mime("bin/note"), "text/plain");
    assert_eq!(mime("bin/doc.pdf"), "application/octet-stream");
    assert_eq!(mime("bin/s.js"), "text/javascript");
}

#[test]
fn file_path_under_the_mount_path() {
    assert_eq!(DirServer::get_uri("static", "a.txt"), "static/a.txt");
    assert_eq!(DirServer::get_uri("", "a"), "/a");
}

#[test]
fn first_file_with_a_path_is_served() {
    let dir = DirServer::new("/d".to_string(), vec![file("a", "one"), file("a", "two")], None);
    assert_eq!(take_apart(dir.compose("/d/a".to_string()).unwrap().as_str()).body, "one");
    assert_eq!(dir.find_file("d/a").unwrap().get_content(), "one");
    assert_eq!(dir.find_file("d/a").unwrap().get_uri(), "d/a");
    assert_eq!(dir.find_file("d/a").unwrap().get_mimetype(), MimeType::TextPlain);
    assert!(dir.find_file("d/b").is_none());
}

#[test]
fn server_names_and_ownership_of_paths() {
    let dir = DirServer::new("/static/img".to_string(), vec![], None);
    assert_eq!(dir.compose_name(), "dir_server_static-img");
    assert!(dir.is_uri_server(&"static/img/a.png".to_string()));
    assert!(dir.is_uri_server(&"x/static/img".to_string()));
    assert!(!dir.is_uri_server(&"static/a.png".to_string()));
}

#[test]
fn single_file_is_served() {
    let server = SingleFileServer::new(file("app.js", "let x = 1;"), "/assets".to_string());
    let parts = take_apart(server.compose().as_str());
    assert_eq!(parts.status_line, "HTTP/1.1 200 OK");
    assert_eq!(parts.content_type, "text/javascript");
    assert_eq!(parts.body, "let x = 1;");
    assert_eq!(parts.content_length, "10");
}

#[test]
fn directory_server_as_a_context_operation() {
    let dir = site(Some("index.html"));
    let answer = dir.op(vec!["static/a.txt".to_string(), "ignored".to_string()]).unwrap();
    assert_eq!(take_apart(answer.as_str()).body, "plain text");
    assert!(matches!(dir.op(vec![]), Err(StaticError::NoPath)));
    assert!(matches!(dir.op(vec!["nothing".to_string()]), Err(StaticError::NotFound)));
}

#[test]
fn kinds_of_static_servers_are_cloned() {
    let kind = StaticServerType::ServeWithIndex("./static/*".to_string());
    match kind.clone() {
        StaticServerType::ServeWithIndex(p) => assert_eq!(p, "./static/*"),
        StaticServerType::ServeWithoutIndex(_) => panic!("the kind has changed"),
    }
}

#[test]
fn index_file_needs_files_and_a_name() {
    assert!(site(None).get_index_file().is_none());
    assert!(site(None).create_response_with_index_file().is_none());
    let empty = DirServer::new("/static".to_string(), vec![], Some("index.html".to_string()));
    assert!(empty.get_index_file().is_none());
    assert!(empty.create_response_with_index_file().is_none());
    let dir = site(Some("index.html"));
    assert_eq!(dir.get_index_file().unwrap().get_uri(), "static/index.html");
    let text = dir.create_response_with_index_file().unwrap();
    assert_eq!(take_apart(text.as_str()).body, "<h1>home</h1>");
    let listing = site(None).create_response_with_index();
    assert_eq!(take_apart(listing.as_str()).content_type, "text/html");
}

#[test]
fn placeholders_in_file_names_are_replaced_in_turn() {
    let dir = DirServer::new("/d".to_string(), vec![file("REPLACE_TYPE", "x")], None);
    let listed = dir.create_file_list();
    assert!(listed.contains("href=\"d/text/plain\">text/plain</a>"));
}

use samovar::common::{
    modify_404_template, modify_405_template, DummyResponseType, HttpStatus, Method, MimeType,
    ResponseTextWrapper, TemplateHolder, Templates,
};
use samovar::endpoint::{Endpoint, Handler};
use samovar::request::Request;
use samovar::response::Response;
use samovar::samovar::{
    compose_endpoint_key, fallback_page, has_path, response_404, response_405, Samovar,
};
use samovar::uri::{normalize_uri, strip_slashes};

type Action = fn(&Request) -> ResponseTextWrapper;

fn ok(_: &Request) -> ResponseTextWrapper {
    let mut resp = Response::<DummyResponseType>::new_string(
        "Ok!".to_string(),
        MimeType::TextHtml,
        HttpStatus::Http200Ok,
    );
    resp.compose()
}

fn other(_: &Request) -> ResponseTextWrapper {
    ResponseTextWrapper::new("other".to_string())
}

fn request(raw: &str) -> Request {
    Request::from(&raw.to_string(), "127.0.0.1:9".to_string()).unwrap()
}

fn answer(server: &Samovar<Action>, templates: &Templates, raw: &str) -> String {
    let req = request(raw);
    let endpoint = server.route(&req);
    let text = match endpoint.get_callable() {
        Handler::User(action) => action(&req),
        fallback => fallback_page(fallback, templates).unwrap(),
    };
    text.as_str().to_string()
}

fn body_of(text: &str) -> &str {
    text.split_once("\n\n").unwrap().1
}

fn server_with_root() -> Samovar<Action> {
    let mut server: Samovar<Action> = Samovar::new("0.0.0.0", 1500);
    server.insert_endpoint(Endpoint::new("/".to_string(), ok, Method::GET));
    server
}

#[test]
fn get_root_end_to_end() {
    let mut server = server_with_root();
    assert_eq!(server.run(), "0.0.0.0:1500");
    let templates = Templates::new();
    let text = answer(&server, &templates, "GET / HTTP/1.1\r\nHost: localhost\r\n\r\n");
    let (head, body) = text.split_once("\n\n").unwrap();
    let lines: Vec<&str> = head.split('\n').collect();
    assert_eq!(lines[0], "HTTP/1.1 200 OK");
    assert!(lines.contains(&"Content-Type: text/html"));
    assert!(lines.contains(&"Content-Length: 3"));
    assert_eq!(body, "Ok!");
}

#[test]
fn unknown_path_gets_the_404_template() {
    let mut server = server_with_root();
    server.run();
    let mut templates = Templates::new();
    let text = answer(&server, &templates, "GET /nothing HTTP/1.1\r\n\r\n");
    assert!(text.starts_with("HTTP/1.1 404 Not Found\n"));
    assert_eq!(body_of(&text), "404 Not Found");
    modify_404_template(&mut templates, "gone fishing".to_string());
    let text = answer(&server, &templates, "POST /nothing/at/all HTTP/1.1\r\n\r\n");
    assert!(text.starts_with("HTTP/1.1 404 Not Found\n"));
    assert!(text.contains("\nContent-Type: text/plain\n"));
    assert_eq!(body_of(&text), "gone fishing");
}

#[test]
fn known_path_with_another_method_gets_the_405_template() {
    let mut server = server_with_root();
    server.run();
    let mut templates = Templates::new();
    let text = answer(&server, &templates, "POST / HTTP/1.1\r\n\r\n");
    assert_eq!(body_of(&text), "405 Not Found");
    modify_405_template(&mut templates, "This method aint it yo!".to_string());
    let text = answer(&server, &templates, "DELETE / HTTP/1.1\r\n\r\n");
    assert!(text.starts_with("HTTP/1.1 404 Not Found\n"));
    assert_eq!(body_of(&text), "This method aint it yo!");
    let text = answer(&server, &templates, "GET /nothing HTTP/1.1\r\n\r\n");
    assert_eq!(body_of(&text), "404 Not Found");
}

#[test]
fn registering_twice_leaves_one_entry() {
    let mut server: Samovar<Action> = Samovar::new("localhost", 80);
    server.insert_endpoint(Endpoint::new("/page".to_string(), ok, Method::GET));
    server.insert_endpoint(Endpoint::new("/other".to_string(), ok, Method::GET));
    server.insert_endpoint(Endpoint::new("/page/".to_string(), other, Method::GET));
    let uris = server.print_endpoint_uris();
    assert_eq!(
        uris,
        vec![
            ("page_GET".to_string(), "/page/".to_string()),
            ("other_GET".to_string(), "/other".to_string()),
        ]
    );
    server.run();
    let templates = Templates::new();
    assert_eq!(answer(&server, &templates, "GET /page HTTP/1.1\r\n\r\n"), "other");
    assert_eq!(server.print_endpoint_uris().len(), 4);
}

#[test]
fn same_path_under_two_methods() {
    let mut server: Samovar<Action> = Samovar::new("localhost", 80);
    server.insert_endpoint(Endpoint::new("/test".to_string(), ok, Method::GET));
    server.insert_endpoint(Endpoint::new_string_method(
        "/test".to_string(),
        other,
        "post".to_string(),
    ));
    server.run();
    let templates = Templates::new();
    assert_eq!(body_of(&answer(&server, &templates, "GET /test HTTP/1.1\r\n\r\n")), "Ok!");
    assert_eq!(answer(&server, &templates, "POST /test HTTP/1.1\r\n\r\n"), "other");
    assert_eq!(
        body_of(&answer(&server, &templates, "PUT /test HTTP/1.1\r\n\r\n")),
        "405 Not Found"
    );
}

#[test]
fn file_names_are_routed_to_their_directory() {
    let mut server: Samovar<Action> = Samovar::new("localhost", 80);
    server.insert_endpoint(Endpoint::new("/static".to_string(), other, Method::GET));
    server.run();
    let templates = Templates::new();
    assert_eq!(answer(&server, &templates, "GET /static HTTP/1.1\r\n\r\n"), "other");
    assert_eq!(answer(&server, &templates, "GET /static/a.txt HTTP/1.1\r\n\r\n"), "other");
    assert_eq!(
        body_of(&answer(&server, &templates, "GET /static/sub HTTP/1.1\r\n\r\n")),
        "404 Not Found"
    );
    assert_eq!(
        body_of(&answer(&server, &templates, "GET /a.txt HTTP/1.1\r\n\r\n")),
        "404 Not Found"
    );
}

#[test]
fn short_paths_lose_their_slash_too() {
    let mut server: Samovar<Action> = Samovar::new("localhost", 80);
    server.insert_endpoint(Endpoint::new("/a".to_string(), other, Method::GET));
    server.insert_endpoint(Endpoint::new("b/".to_string(), other, Method::GET));
    server.run();
    let templates = Templates::new();
    assert_eq!(server.print_endpoint_uris()[0].0, "a_GET");
    assert_eq!(server.print_endpoint_uris()[1].0, "b_GET");
    assert_eq!(answer(&server, &templates, "GET /a HTTP/1.1\r\n\r\n"), "other");
    assert_eq!(answer(&server, &templates, "GET /a/ HTTP/1.1\r\n\r\n"), "other");
    assert_eq!(answer(&server, &templates, "GET /b HTTP/1.1\r\n\r\n"), "other");
}

#[test]
fn fallback_pages_by_handler() {
    let mut templates = Templates::new();
    modify_404_template(&mut templates, "nothing here".to_string());
    let not_found: Handler<Action> = Handler::NotFound;
    let not_allowed: Handler<Action> = Handler::MethodNotAllowed;
    let user: Handler<Action> = Handler::User(ok);
    assert_eq!(body_of(fallback_page(&not_found, &templates).unwrap().as_str()), "nothing here");
    assert_eq!(body_of(fallback_page(&not_allowed, &templates).unwrap().as_str()), "405 Not Found");
    assert!(fallback_page(&user, &templates).is_none());
    assert_eq!(body_of(response_404(&templates).as_str()), "nothing here");
    assert_eq!(body_of(response_405(&templates).as_str()), "405 Not Found");
}

#[test]
fn fallback_pages_are_endpoints() {
    let mut server: Samovar<Action> = Samovar::new("localhost", 80);
    assert!(!server.running());
    server.run();
    assert!(server.running());
    assert_eq!(
        server.print_endpoint_uris(),
        vec![("404_GET".to_string(), "404".to_string()), ("405_GET".to_string(), "405".to_string())]
    );
    let endpoint = server.route_uri("404", Method::GET);
    assert!(matches!(endpoint.get_callable(), Handler::NotFound));
    assert_eq!(endpoint.get_uri(), "404");
    assert_eq!(endpoint.get_method(), Method::GET);
    let endpoint = server.route_uri("405", Method::GET);
    assert!(matches!(endpoint.get_callable(), Handler::MethodNotAllowed));
    let endpoint = server.route_uri("405", Method::POST);
    assert!(matches!(endpoint.get_callable(), Handler::MethodNotAllowed));
}

#[test]
fn endpoints_keep_what_they_are_given() {
    let e: Endpoint<Action> = Endpoint::new_string_method("/x".to_string(), ok, "DeLeTe".to_string());
    assert_eq!(e.get_uri(), "/x");
    assert_eq!(e.get_method(), Method::DELETE);
    assert!(matches!(e.get_callable(), Handler::User(_)));
    let e: Endpoint<Action> = Endpoint::new_string_method("/x".to_string(), ok, "fetch".to_string());
    assert_eq!(e.get_method(), Method::UNKNOWN);
}

#[test]
fn keys_and_paths() {
    assert_eq!(compose_endpoint_key("page", Method::GET), "page_GET");
    assert_eq!(compose_endpoint_key("", Method::UNKNOWN), "_UNKNOW");
    assert_eq!(strip_slashes("/a/b/"), "a/b");
    assert_eq!(strip_slashes("a/b"), "a/b");
    assert_eq!(strip_slashes("/a"), "a");
    assert_eq!(strip_slashes("a/"), "a");
    assert_eq!(strip_slashes("/"), "/");
    assert_eq!(strip_slashes("//"), "");
    assert_eq!(strip_slashes("///"), "/");
    assert_eq!(strip_slashes("a"), "a");
    assert_eq!(strip_slashes("/ab"), "ab");
    assert_eq!(strip_slashes("ab/"), "ab");
    assert_eq!(strip_slashes(""), "");
    assert_eq!(normalize_uri("static/a.txt"), "static");
    assert_eq!(normalize_uri("static/sub/a.b.c"), "static/sub");
    assert_eq!(normalize_uri("static/sub"), "static/sub");
    assert_eq!(normalize_uri("a.txt"), "a.txt");
    assert_eq!(normalize_uri("/"), "/");
    assert_eq!(normalize_uri("/."), ".");
    assert_eq!(normalize_uri("/a/"), "a");
    assert_eq!(normalize_uri("/static/a.txt"), "static");
    assert_eq!(normalize_uri("v1.0/users"), "v1.0/users");
    assert!(has_path(&vec!["a".to_string(), "b".to_string()], "b"));
    assert!(!has_path(&vec!["a".to_string()], "A"));
}

#[test]
fn templates_are_replaced() {
    let mut holder = TemplateHolder::new("one".to_string());
    assert_eq!(holder.get_temp(), "one");
    holder.mutate("two".to_string());
    assert_eq!(holder.get_temp(), "two");
    let templates = Templates::new();
    assert_eq!(templates.temp_404.get_temp(), "404 Not Found");
    assert_eq!(templates.temp_405.get_temp(), "405 Not Found");
}

//! The routing table of the server, and the choice of the endpoint that
//! answers a request.
//!
//! Endpoints are kept under a key made of their path and their method. A
//! request is answered by the endpoint under its own path and method; where
//! its path is registered under other methods only, by the page for methods
//! that are not allowed; and where its path is not registered at all, by the
//! page for unknown paths.

use vstd::prelude::*;
use crate::common::{
    copy_text, text_is, HttpStatus, Method, MimeType, ResponseTextWrapper, Templates,
};
use crate::endpoint::{Endpoint, EndpointView, Handler};
use crate::number::{decimal, decimal_of};
use crate::registry::{
    count_key, distinct_keys, index_of, lemma_count_key, lemma_lookup_put_other,
    lemma_lookup_put_same, lemma_put_distinct, lemma_put_twice, lookup, put, Registry,
};
use crate::request::Request;
use crate::response::{is_string_response, respond_with_string};
use crate::text::{append, from_chars, texts, to_chars};
use crate::uri::{bare_path, normalize_uri, route_path, strip_slashes};

verus! {

/// The key under which an endpoint for `path` and `method` is kept.
pub open spec fn endpoint_key(path: Seq<char>, method: Method) -> Seq<char> {
    path + seq!['_'] + method.text()
}

/// The key of the page for unknown paths.
pub open spec fn key_404() -> Seq<char> {
    endpoint_key("404"@, Method::GET)
}

/// The key of the page for methods that a path does not take.
pub open spec fn key_405() -> Seq<char> {
    endpoint_key("405"@, Method::GET)
}

/// The key of the endpoint that answers a request for `uri` by `method`.
pub open spec fn route_key<V>(
    bare_paths: Seq<Seq<char>>,
    endpoints: Seq<(Seq<char>, V)>,
    uri: Seq<char>,
    method: Method,
) -> Seq<char> {
    let path = route_path(uri);
    if bare_paths.contains(path) {
        if index_of(endpoints, endpoint_key(path, method)) is Some {
            endpoint_key(path, method)
        } else {
            key_405()
        }
    } else {
        key_404()
    }
}

/// The address to listen on: the host, a colon and the port.
pub open spec fn bind_address(address: Seq<char>, port: u32) -> Seq<char> {
    address + seq![':'] + decimal_of(port as nat)
}

/// A request for a path that nothing is registered under goes to the page
/// for unknown paths.
pub proof fn lemma_unknown_path_falls_back<V>(
    bare_paths: Seq<Seq<char>>,
    endpoints: Seq<(Seq<char>, V)>,
    uri: Seq<char>,
    method: Method,
)
    requires
        !bare_paths.contains(route_path(uri)),
    ensures
        route_key(bare_paths, endpoints, uri, method) == key_404(),
{
}

/// A request for a registered path by a method that the path is not
/// registered under goes to the page for methods that are not allowed.
pub proof fn lemma_unknown_method_falls_back<V>(
    bare_paths: Seq<Seq<char>>,
    endpoints: Seq<(Seq<char>, V)>,
    uri: Seq<char>,
    method: Method,
)
    requires
        bare_paths.contains(route_path(uri)),
        index_of(endpoints, endpoint_key(route_path(uri), method)) is None,
    ensures
        route_key(bare_paths, endpoints, uri, method) == key_405(),
{
}

/// Registering two endpoints for one path and one method, one after the
/// other, leaves what registering the second alone would leave: the key
/// stands once in the table, and the second endpoint stands under it.
pub proof fn lemma_register_twice<H>(
    endpoints: Seq<(Seq<char>, EndpointView<H>)>,
    first: EndpointView<H>,
    second: EndpointView<H>,
)
    requires
        distinct_keys(endpoints),
        bare_path(first.uri) == bare_path(second.uri),
        first.method == second.method,
    ensures
        ({
            let key = endpoint_key(bare_path(second.uri), second.method);
            let after = put(put(endpoints, key, first), key, second);
            &&& after == put(endpoints, key, second)
            &&& count_key(after, key) == 1
            &&& lookup(after, key) == Some(second)
        }),
{
    let key = endpoint_key(bare_path(second.uri), second.method);
    lemma_put_twice(endpoints, key, first, second);
    lemma_put_distinct(endpoints, key, second);
    lemma_lookup_put_same(endpoints, key, second);
    lemma_count_key(put(endpoints, key, second), key);
}

/// Once the two fallback pages are registered, each is found under its
/// key.
pub proof fn lemma_fallbacks_registered<H>(endpoints: Seq<(Seq<char>, EndpointView<H>)>)
    ensures
        ({
            let after = put(
                put(endpoints, key_404(), Endpoint::<H>::not_found_view()),
                key_405(),
                Endpoint::<H>::not_allowed_view(),
            );
            &&& lookup(after, key_404()) == Some(Endpoint::<H>::not_found_view())
            &&& lookup(after, key_405()) == Some(Endpoint::<H>::not_allowed_view())
        }),
{
    let first = put(endpoints, key_404(), Endpoint::<H>::not_found_view());
    lemma_fallback_keys_differ();
    lemma_lookup_put_same(endpoints, key_404(), Endpoint::<H>::not_found_view());
    lemma_lookup_put_same(first, key_405(), Endpoint::<H>::not_allowed_view());
    lemma_lookup_put_other(first, key_405(), Endpoint::<H>::not_allowed_view(), key_404());
}

/// The key under which an endpoint for `path` and `method` is kept.
pub fn compose_endpoint_key(path: &str, method: Method) -> (key: String)
    ensures
        key@ == endpoint_key(path@, method),
{
    let mut chars = to_chars(path);
    chars.push('_');
    let name = to_chars(method.as_str());
    append(&mut chars, name.as_slice());
    from_chars(chars.as_slice())
}

/// Whether `path` stands in the list.
pub fn has_path(paths: &Vec<String>, path: &str) -> (r: bool)
    ensures
        r == texts(paths@).contains(path@),
{
    let mut i: usize = 0;
    while i < paths.len()
        invariant
            i <= paths.len(),
            forall|j: int| 0 <= j < i ==> texts(paths@)[j] != path@,
        decreases paths.len() - i,
    {
        if text_is(paths[i].as_str(), path) {
            assert(texts(paths@)[i as int] == path@);
            return true;
        }
        i += 1;
    }
    false
}

/// The page for unknown paths: the template, sent as plain text with the
/// status 404.
pub fn response_404(templates: &Templates) -> (r: ResponseTextWrapper)
    ensures
        is_string_response(
            r@,
            templates.temp_404@,
            MimeType::TextPlain,
            HttpStatus::Http404NotFound,
        ),
{
    respond_with_string(
        templates.temp_404.get_temp(),
        MimeType::TextPlain,
        HttpStatus::Http404NotFound,
    )
}

/// The page for methods that a path does not take: the template, sent as
/// plain text with the status 404.
pub fn response_405(templates: &Templates) -> (r: ResponseTextWrapper)
    ensures
        is_string_response(
            r@,
            templates.temp_405@,
            MimeType::TextPlain,
            HttpStatus::Http404NotFound,
        ),
{
    respond_with_string(
        templates.temp_405.get_temp(),
        MimeType::TextPlain,
        HttpStatus::Http404NotFound,
    )
}

/// The page that a fallback endpoint answers with: the page for unknown
/// paths, the page for methods that are not allowed, and none for a
/// handler of the application, which answers for itself.
pub fn fallback_page<H>(handler: &Handler<H>, templates: &Templates) -> (r: Option<
    ResponseTextWrapper,
>)
    ensures
        match *handler {
            Handler::NotFound => r matches Some(text) && is_string_response(
                text@,
                templates.temp_404@,
                MimeType::TextPlain,
                HttpStatus::Http404NotFound,
            ),
            Handler::MethodNotAllowed => r matches Some(text) && is_string_response(
                text@,
                templates.temp_405@,
                MimeType::TextPlain,
                HttpStatus::Http404NotFound,
            ),
            Handler::User(_) => r is None,
        },
{
    match handler {
        Handler::NotFound => Some(response_404(templates)),
        Handler::MethodNotAllowed => Some(response_405(templates)),
        Handler::User(_) => None,
    }
}

/// The server: where it listens and what it serves.
pub struct Samovar<H> {
    port: u32,
    address: String,
    endpoints: Registry<Endpoint<H>>,
    bare_paths: Vec<String>,
}

impl<H> Samovar<H> {
    /// The endpoints under their keys, in the order in which the keys came.
    pub closed spec fn endpoints(self) -> Seq<(Seq<char>, EndpointView<H>)> {
        self.endpoints.model()
    }

    /// The paths that endpoints were registered for, one for each
    /// registration.
    pub closed spec fn bare_paths(self) -> Seq<Seq<char>> {
        texts(self.bare_paths@)
    }

    /// The host to listen on.
    pub closed spec fn address(self) -> Seq<char> {
        self.address@
    }

    /// The port to listen on.
    pub closed spec fn port(self) -> u32 {
        self.port
    }

    /// The two fallback pages are registered, as they are once the server
    /// runs.
    pub open spec fn is_running(self) -> bool {
        &&& index_of(self.endpoints(), key_404()) is Some
        &&& index_of(self.endpoints(), key_405()) is Some
    }

    /// A server for the given address that serves nothing yet.
    pub fn new(address: &str, port: u32) -> (r: Self)
        ensures
            r.endpoints() == Seq::<(Seq<char>, EndpointView<H>)>::empty(),
            r.bare_paths() == Seq::<Seq<char>>::empty(),
            r.address() == address@,
            r.port() == port,
    {
        let r = Samovar {
            address: copy_text(address),
            port,
            endpoints: Registry::new(),
            bare_paths: Vec::new(),
        };
        assert(texts(r.bare_paths@) == Seq::<Seq<char>>::empty());
        r
    }

    /// Registers an endpoint under its path, stripped of its outer slashes,
    /// and its method. An endpoint that stood under the same path and
    /// method is replaced.
    pub fn insert_endpoint(&mut self, endpoint: Endpoint<H>)
        ensures
            final(self).endpoints() == put(
                old(self).endpoints(),
                endpoint_key(bare_path(endpoint@.uri), endpoint@.method),
                endpoint@,
            ),
            final(self).bare_paths() == old(self).bare_paths().push(bare_path(endpoint@.uri)),
            final(self).address() == old(self).address(),
            final(self).port() == old(self).port(),
            distinct_keys(final(self).endpoints()),
    {
        let ep_name = strip_slashes(endpoint.get_uri().as_str());
        let key = compose_endpoint_key(ep_name.as_str(), endpoint.get_method());
        let ghost before = texts(self.bare_paths@);
        self.bare_paths.push(ep_name);
        assert(texts(self.bare_paths@) == before.push(ep_name@));
        self.endpoints.insert(key, endpoint);
    }

    /// Registers the page for unknown paths.
    fn construct_response_404(&mut self)
        ensures
            final(self).endpoints() == put(old(self).endpoints(), key_404(), Endpoint::<H>::not_found_view()),
            final(self).bare_paths() == old(self).bare_paths().push("404"@),
            final(self).address() == old(self).address(),
            final(self).port() == old(self).port(),
    {
        proof {
            reveal_strlit("404");
        }
        self.insert_endpoint(Endpoint::not_found());
    }

    /// Registers the page for methods that a path does not take.
    fn construct_response_405(&mut self)
        ensures
            final(self).endpoints() == put(old(self).endpoints(), key_405(), Endpoint::<H>::not_allowed_view()),
            final(self).bare_paths() == old(self).bare_paths().push("405"@),
            final(self).address() == old(self).address(),
            final(self).port() == old(self).port(),
    {
        proof {
            reveal_strlit("405");
        }
        self.insert_endpoint(Endpoint::method_not_allowed());
    }

    /// The keys of the endpoints with the paths they were registered for,
    /// in the order in which the keys came.
    pub fn print_endpoint_uris(&self) -> (r: Vec<(String, String)>)
        ensures
            r@.len() == self.endpoints().len(),
            forall|i: int|
                0 <= i < r@.len() ==> (#[trigger] r@[i]).0@ == self.endpoints()[i].0 && r@[i].1@
                    == self.endpoints()[i].1.uri,
    {
        let mut r: Vec<(String, String)> = Vec::new();
        let n = self.endpoints.len();
        let mut i: usize = 0;
        while i < n
            invariant
                i <= n,
                n == self.endpoints().len(),
                r@.len() == i,
                forall|j: int|
                    0 <= j < i ==> (#[trigger] r@[j]).0@ == self.endpoints()[j].0 && r@[j].1@
                        == self.endpoints()[j].1.uri,
            decreases n - i,
        {
            let key = self.endpoints.key_at(i).clone();
            let uri = self.endpoints.value_at(i).get_uri();
            r.push((key, uri));
            i += 1;
        }
        r
    }

    /// Makes the server ready to run: registers the two fallback pages and
    /// gives the address to listen on.
    pub fn run(&mut self) -> (bind: String)
        ensures
            final(self).endpoints() == put(
                put(old(self).endpoints(), key_404(), Endpoint::<H>::not_found_view()),
                key_405(),
                Endpoint::<H>::not_allowed_view(),
            ),
            final(self).bare_paths() == old(self).bare_paths().push("404"@).push("405"@),
            final(self).address() == old(self).address(),
            final(self).port() == old(self).port(),
            final(self).is_running(),
            lookup(final(self).endpoints(), key_404()) == Some(Endpoint::<H>::not_found_view()),
            lookup(final(self).endpoints(), key_405()) == Some(Endpoint::<H>::not_allowed_view()),
            bind@ == bind_address(old(self).address(), old(self).port()),
    {
        self.construct_response_404();
        self.construct_response_405();
        proof {
            lemma_fallbacks_registered(old(self).endpoints());
        }
        let mut bind = to_chars(self.address.as_str());
        bind.push(':');
        let port = decimal(self.port as usize);
        append(&mut bind, port.as_slice());
        from_chars(bind.as_slice())
    }

    /// Whether the two fallback pages are registered.
    pub fn running(&self) -> (r: bool)
        ensures
            r == self.is_running(),
    {
        let k404 = compose_endpoint_key("404", Method::GET);
        let k405 = compose_endpoint_key("405", Method::GET);
        self.endpoints.contains_key(k404.as_str()) && self.endpoints.contains_key(k405.as_str())
    }

    /// The endpoint that answers a request for `uri` by `method`.
    pub fn route_uri(&self, uri: &str, method: Method) -> (r: &Endpoint<H>)
        requires
            self.is_running(),
        ensures
            lookup(
                self.endpoints(),
                route_key(self.bare_paths(), self.endpoints(), uri@, method),
            ) == Some(r@),
    {
        let uri_fin = normalize_uri(uri);
        let key = if has_path(&self.bare_paths, uri_fin.as_str()) {
            let uri_key = compose_endpoint_key(uri_fin.as_str(), method);
            if self.endpoints.contains_key(uri_key.as_str()) {
                uri_key
            } else {
                compose_endpoint_key("405", Method::GET)
            }
        } else {
            compose_endpoint_key("404", Method::GET)
        };
        self.endpoints.get(key.as_str()).unwrap()
    }

    /// The endpoint that answers the request.
    pub fn route(&self, request: &Request) -> (r: &Endpoint<H>)
        requires
            self.is_running(),
        ensures
            lookup(
                self.endpoints(),
                route_key(
                    self.bare_paths(),
                    self.endpoints(),
                    request@.uri,
                    request@.method,
                ),
            ) == Some(r@),
    {
        let uri_name = request.get_raw_uri();
        self.route_uri(uri_name.as_str(), request.get_method())
    }
}

/// The keys of the two fallback pages differ.
pub proof fn lemma_fallback_keys_differ()
    ensures
        key_404() != key_405(),
{
    reveal_strlit("404");
    reveal_strlit("405");
    assert(key_404()[2] == '4');
    assert(key_405()[2] == '5');
}

} // verus!

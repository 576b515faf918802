//! Endpoints: a path and a method bound to a handler.

use vstd::prelude::*;
use crate::common::{copy_text, method_of, Method};
use crate::text::lowercase_of;

verus! {

/// What answers the requests of an endpoint: a handler of the application,
/// or one of the two fallback pages of the server.
pub enum Handler<H> {
    /// The page for paths that nothing is registered under.
    NotFound,
    /// The page for methods that a registered path does not take.
    MethodNotAllowed,
    /// A handler of the application.
    User(H),
}

/// A path and a method bound to a handler.
pub struct Endpoint<H> {
    uri: String,
    callable: Handler<H>,
    method: Method,
}

/// What an endpoint holds.
pub struct EndpointView<H> {
    pub uri: Seq<char>,
    pub callable: Handler<H>,
    pub method: Method,
}

impl<H> View for Endpoint<H> {
    type V = EndpointView<H>;

    closed spec fn view(&self) -> EndpointView<H> {
        EndpointView { uri: self.uri@, callable: self.callable, method: self.method }
    }
}

impl<H> Endpoint<H> {
    /// An endpoint for the method that `method_string` names, whatever its
    /// case.
    pub fn new_string_method(uri: String, callable: H, method_string: String) -> (r: Self)
        ensures
            r@ == (EndpointView {
                uri: uri@,
                callable: Handler::User(callable),
                method: method_of(lowercase_of(method_string@)),
            }),
    {
        let method = Method::from(method_string);
        Endpoint { uri, callable: Handler::User(callable), method }
    }

    pub fn new(uri: String, callable: H, method: Method) -> (r: Self)
        ensures
            r@ == (EndpointView { uri: uri@, callable: Handler::User(callable), method }),
    {
        Endpoint { uri, callable: Handler::User(callable), method }
    }

    /// What the endpoint of the page for unknown paths holds.
    pub open spec fn not_found_view() -> EndpointView<H> {
        EndpointView { uri: "404"@, callable: Handler::NotFound, method: Method::GET }
    }

    /// What the endpoint of the page for methods that a path does not take
    /// holds.
    pub open spec fn not_allowed_view() -> EndpointView<H> {
        EndpointView { uri: "405"@, callable: Handler::MethodNotAllowed, method: Method::GET }
    }

    /// The endpoint of the page for unknown paths.
    pub fn not_found() -> (r: Self)
        ensures
            r@ == Self::not_found_view(),
    {
        Endpoint { uri: copy_text("404"), callable: Handler::NotFound, method: Method::GET }
    }

    /// The endpoint of the page for methods that a path does not take.
    pub fn method_not_allowed() -> (r: Self)
        ensures
            r@ == Self::not_allowed_view(),
    {
        Endpoint { uri: copy_text("405"), callable: Handler::MethodNotAllowed, method: Method::GET }
    }

    pub fn get_uri(&self) -> (r: String)
        ensures
            r@ == self@.uri,
    {
        self.uri.clone()
    }

    pub fn get_method(&self) -> (r: Method)
        ensures
            r == self@.method,
    {
        self.method
    }

    /// What answers the requests of this endpoint.
    pub fn get_callable(&self) -> (r: &Handler<H>)
        ensures
            *r == self@.callable,
    {
        &self.callable
    }
}

} // verus!

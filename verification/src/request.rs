//! A parsed request.

use vstd::prelude::*;
use crate::common::{
    header_views, param_views, text_is, Credentials, Header, KeyValue, Method, MimeType, Params,
    RequestBody, RequestError, UserInfo,
};
use crate::parser::{
    body_text_in, ctype_in, headers_in, request_error, request_in, RequestParser,
};
use crate::text::{lowercase_of, texts};
use crate::uri::{bare_path, compose_server_name, server_name, strip_slashes};

verus! {

/// One request, as the parser read it. It is built once and never changed.
pub struct Request {
    headers: Vec<Header>,
    body: RequestBody,
    uri: String,
    uri_params: Vec<Params>,
    uri_paths: Vec<String>,
    bare_uri: String,
    method: Method,
    port: u32,
    userinfo: UserInfo,
    host: String,
    scheme: String,
    referer: String,
    content_type: MimeType,
    ip: String,
    location: String,
}

/// What a request holds.
pub struct RequestView {
    pub headers: Seq<KeyValue>,
    pub body: RequestBody,
    pub uri: Seq<char>,
    pub uri_params: Seq<KeyValue>,
    pub uri_paths: Seq<Seq<char>>,
    pub bare_uri: Seq<char>,
    pub method: Method,
    pub port: u32,
    pub userinfo: Credentials,
    pub host: Seq<char>,
    pub scheme: Seq<char>,
    pub referer: Seq<char>,
    pub content_type: MimeType,
    pub ip: Seq<char>,
    pub location: Seq<char>,
}

/// The value of the last header with the given key.
pub open spec fn last_value(headers: Seq<KeyValue>, key: Seq<char>) -> Option<Seq<char>>
    decreases headers.len(),
{
    if headers.len() == 0 {
        None
    } else if headers.last().key == key {
        Some(headers.last().value)
    } else {
        last_value(headers.drop_last(), key)
    }
}

/// Looks up the last header with the given key.
pub fn find_last_value(headers: &Vec<Header>, key: &str) -> (r: Option<String>)
    ensures
        match r {
            Some(v) => last_value(header_views(headers@), key@) == Some(v@),
            None => last_value(header_views(headers@), key@) is None,
        },
{
    let mut i: usize = headers.len();
    assert(header_views(headers@).take(headers.len() as int) == header_views(headers@));
    while i > 0
        invariant
            i <= headers.len(),
            last_value(header_views(headers@), key@) == last_value(
                header_views(headers@).take(i as int),
                key@,
            ),
        decreases i,
    {
        let ghost upto = header_views(headers@).take(i as int);
        assert(upto.last() == headers@[i - 1]@);
        assert(upto.drop_last() == header_views(headers@).take(i - 1));
        if text_is(headers[i - 1].key.as_str(), key) {
            return Some(headers[i - 1].value.clone());
        }
        i -= 1;
    }
    None
}

impl View for Request {
    type V = RequestView;

    closed spec fn view(&self) -> RequestView {
        RequestView {
            headers: header_views(self.headers@),
            body: self.body,
            uri: self.uri@,
            uri_params: param_views(self.uri_params@),
            uri_paths: texts(self.uri_paths@),
            bare_uri: self.bare_uri@,
            method: self.method,
            port: self.port,
            userinfo: self.userinfo@,
            host: self.host@,
            scheme: self.scheme@,
            referer: self.referer@,
            content_type: self.content_type,
            ip: self.ip@,
            location: self.location@,
        }
    }
}

impl Request {
    /// Reads the request that `raw` holds; `ip` is the address it came
    /// from.
    pub fn from(raw: &String, ip: String) -> (r: Result<Request, RequestError>)
        ensures
            match r {
                Ok(request) => {
                    &&& request_error(raw@) is None
                    &&& request@ == request_in(raw@, ip@, request@.body)
                    &&& request@.body.holds(body_text_in(raw@), ctype_in(headers_in(raw@)))
                },
                Err(e) => request_error(raw@) == Some(e),
            },
    {
        RequestParser::parse_and_create(raw, ip)
    }

    pub fn new(
        headers: Vec<Header>,
        body: RequestBody,
        uri: String,
        uri_params: Vec<Params>,
        uri_paths: Vec<String>,
        bare_uri: String,
        method: Method,
        port: u32,
        userinfo: UserInfo,
        host: String,
        scheme: String,
        referer: String,
        content_type: MimeType,
        ip: String,
        location: String,
    ) -> (r: Self)
        ensures
            r@ == (RequestView {
                headers: header_views(headers@),
                body,
                uri: uri@,
                uri_params: param_views(uri_params@),
                uri_paths: texts(uri_paths@),
                bare_uri: bare_uri@,
                method,
                port,
                userinfo: userinfo@,
                host: host@,
                scheme: scheme@,
                referer: referer@,
                content_type,
                ip: ip@,
                location: location@,
            }),
    {
        Request {
            method,
            uri,
            headers,
            host,
            referer,
            content_type,
            scheme,
            uri_params,
            userinfo,
            bare_uri,
            port,
            uri_paths,
            body,
            ip,
            location,
        }
    }

    /// The name under which a directory server for the path of this
    /// request is kept.
    pub fn compose_name_for_fs(&self) -> (name: String)
        ensures
            name@ == server_name("dir_server_"@, self@.uri),
    {
        compose_server_name("dir_server_", self.uri.as_str())
    }

    /// The path of this request as the routing table keys it.
    pub fn compose_name_for_ep(&self) -> (name: String)
        ensures
            name@ == bare_path(self@.uri),
    {
        strip_slashes(self.uri.as_str())
    }

    pub fn get_raw_uri(&self) -> (r: String)
        ensures
            r@ == self@.uri,
    {
        self.uri.clone()
    }

    /// The value of the last header whose key is `lowered`. Header keys are
    /// kept in lowercase.
    pub fn get_header_lowercase(&self, lowered: &str) -> (r: Option<String>)
        ensures
            match r {
                Some(v) => last_value(self@.headers, lowered@) == Some(v@),
                None => last_value(self@.headers, lowered@) is None,
            },
    {
        find_last_value(&self.headers, lowered)
    }

    /// The value of the last header with the given key, whatever the case
    /// the key is written in.
    pub fn get_header(&self, key: &str) -> (r: Option<String>)
        ensures
            match r {
                Some(v) => last_value(self@.headers, lowercase_of(key@)) == Some(v@),
                None => last_value(self@.headers, lowercase_of(key@)) is None,
            },
    {
        let lowered = key.to_lowercase();
        self.get_header_lowercase(lowered.as_str())
    }

    pub fn get_method(&self) -> (r: Method)
        ensures
            r == self@.method,
    {
        self.method
    }

    pub fn get_host(&self) -> (r: String)
        ensures
            r@ == self@.host,
    {
        self.host.clone()
    }

    pub fn get_ip(&self) -> (r: String)
        ensures
            r@ == self@.ip,
    {
        self.ip.clone()
    }

    pub fn get_scheme(&self) -> (r: String)
        ensures
            r@ == self@.scheme,
    {
        self.scheme.clone()
    }

    pub fn get_user_info(&self) -> (r: UserInfo)
        ensures
            r@ == self@.userinfo,
    {
        self.userinfo.clone()
    }

    pub fn get_port(&self) -> (r: u32)
        ensures
            r == self@.port,
    {
        self.port
    }

    pub fn get_bare_url(&self) -> (r: String)
        ensures
            r@ == self@.bare_uri,
    {
        self.bare_uri.clone()
    }

    pub fn get_body(&self) -> (r: RequestBody)
        ensures
            r == self@.body,
    {
        self.body.clone()
    }

    pub fn get_referer(&self) -> (r: String)
        ensures
            r@ == self@.referer,
    {
        self.referer.clone()
    }

    pub fn get_location(&self) -> (r: String)
        ensures
            r@ == self@.location,
    {
        self.location.clone()
    }

    pub fn get_params(&self) -> (r: Vec<Params>)
        ensures
            param_views(r@) == self@.uri_params,
    {
        let r = self.uri_params.clone();
        assert(param_views(r@) == param_views(self.uri_params@));
        r
    }

    pub fn get_paths(&self) -> (r: Vec<String>)
        ensures
            texts(r@) == self@.uri_paths,
    {
        let r = self.uri_paths.clone();
        assert(texts(r@) == texts(self.uri_paths@));
        r
    }

    pub fn get_content_type(&self) -> (r: MimeType)
        ensures
            r == self@.content_type,
    {
        self.content_type
    }

    pub fn get_all_headers(&self) -> (r: Vec<Header>)
        ensures
            header_views(r@) == self@.headers,
    {
        let r = self.headers.clone();
        assert(header_views(r@) == header_views(self.headers@));
        r
    }
}

} // verus!

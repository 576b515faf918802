//! The wire model: headers, methods, MIME types and bodies.

use vstd::prelude::*;
pub use crate::status::HttpStatus;
use crate::text::{from_chars, lowercase_of, same_text, to_chars};

verus! {

/// A key with its value, both as texts.
pub struct KeyValue {
    pub key: Seq<char>,
    pub value: Seq<char>,
}

/// Whether two texts hold the same characters.
pub fn text_is(a: &str, b: &str) -> (r: bool)
    ensures
        r == (a@ == b@),
{
    let left = to_chars(a);
    let right = to_chars(b);
    same_text(left.as_slice(), right.as_slice())
}

/// A copy of a text.
pub fn copy_text(s: &str) -> (r: String)
    ensures
        r@ == s@,
{
    let chars = to_chars(s);
    from_chars(chars.as_slice())
}

/// One header of a request or a response.
pub struct Header {
    pub key: String,
    pub value: String,
}

impl View for Header {
    type V = KeyValue;

    open spec fn view(&self) -> KeyValue {
        KeyValue { key: self.key@, value: self.value@ }
    }
}

impl Clone for Header {
    fn clone(&self) -> (r: Self)
        ensures
            r@ == self@,
    {
        Header { key: self.key.clone(), value: self.value.clone() }
    }
}

/// The headers of a list, as keys and values.
pub open spec fn header_views(headers: Seq<Header>) -> Seq<KeyValue> {
    headers.map_values(|h: Header| h@)
}

/// One parameter of a query string.
pub struct Params {
    pub key: String,
    pub value: String,
}

impl View for Params {
    type V = KeyValue;

    open spec fn view(&self) -> KeyValue {
        KeyValue { key: self.key@, value: self.value@ }
    }
}

impl Clone for Params {
    fn clone(&self) -> (r: Self)
        ensures
            r@ == self@,
    {
        Params { key: self.key.clone(), value: self.value.clone() }
    }
}

/// The parameters of a list, as keys and values.
pub open spec fn param_views(params: Seq<Params>) -> Seq<KeyValue> {
    params.map_values(|p: Params| p@)
}

/// The user name and password given in a request target.
pub struct UserInfo {
    pub username: String,
    pub password: String,
}

/// A user name with its password, both as texts.
pub struct Credentials {
    pub username: Seq<char>,
    pub password: Seq<char>,
}

impl View for UserInfo {
    type V = Credentials;

    open spec fn view(&self) -> Credentials {
        Credentials { username: self.username@, password: self.password@ }
    }
}

impl Clone for UserInfo {
    fn clone(&self) -> (r: Self)
        ensures
            r@ == self@,
    {
        UserInfo { username: self.username.clone(), password: self.password.clone() }
    }
}

/// The content types that the server tells apart.
#[derive(Clone, Copy, Debug, PartialEq, Eq, Structural, Hash)]
pub enum MimeType {
    ApplicationJson,
    TextPlain,
    TextHtml,
    ApplicationOctetStream,
    TextJavaScript,
    TextCSS,
}

/// The content type that the value of a `Content-Type` header names: each
/// of the six known texts names its own type, anything else is plain text.
pub open spec fn mime_of(value: Seq<char>) -> MimeType {
    if value == "application/json"@ {
        MimeType::ApplicationJson
    } else if value == "text/plain"@ {
        MimeType::TextPlain
    } else if value == "text/html"@ {
        MimeType::TextHtml
    } else if value == "application/octet-stream"@ {
        MimeType::ApplicationOctetStream
    } else if value == "text/javascript"@ {
        MimeType::TextJavaScript
    } else if value == "text/css"@ {
        MimeType::TextCSS
    } else {
        MimeType::TextPlain
    }
}

impl MimeType {
    /// The content type as it stands in a header.
    pub open spec fn text(self) -> Seq<char> {
        match self {
            MimeType::ApplicationJson => "application/json"@,
            MimeType::TextPlain => "text/plain"@,
            MimeType::TextHtml => "text/html"@,
            MimeType::ApplicationOctetStream => "application/octet-stream"@,
            MimeType::TextJavaScript => "text/javascript"@,
            MimeType::TextCSS => "text/css"@,
        }
    }

    /// The content type as it stands in a header.
    pub fn as_str(self) -> (r: &'static str)
        ensures
            r@ == self.text(),
    {
        match self {
            MimeType::ApplicationJson => "application/json",
            MimeType::TextPlain => "text/plain",
            MimeType::TextHtml => "text/html",
            MimeType::ApplicationOctetStream => "application/octet-stream",
            MimeType::TextJavaScript => "text/javascript",
            MimeType::TextCSS => "text/css",
        }
    }

    /// The content type as it stands in a header.
    pub fn into(self) -> (r: String)
        ensures
            r@ == self.text(),
    {
        copy_text(self.as_str())
    }

    /// The content type that the value of a `Content-Type` header names.
    pub fn from_header_value(value: &str) -> (r: MimeType)
        ensures
            r == mime_of(value@),
    {
        if text_is(value, "application/json") {
            MimeType::ApplicationJson
        } else if text_is(value, "text/plain") {
            MimeType::TextPlain
        } else if text_is(value, "text/html") {
            MimeType::TextHtml
        } else if text_is(value, "application/octet-stream") {
            MimeType::ApplicationOctetStream
        } else if text_is(value, "text/javascript") {
            MimeType::TextJavaScript
        } else if text_is(value, "text/css") {
            MimeType::TextCSS
        } else {
            MimeType::TextPlain
        }
    }
}

/// Every content type is read back from its own text.
pub proof fn lemma_mime_round_trip(mime: MimeType)
    ensures
        mime_of(mime.text()) == mime,
{
    reveal_strlit("application/json");
    reveal_strlit("text/plain");
    reveal_strlit("text/html");
    reveal_strlit("application/octet-stream");
    reveal_strlit("text/javascript");
    reveal_strlit("text/css");
    assert("application/json"@.len() == 16);
    assert("text/plain"@.len() == 10);
    assert("text/html"@.len() == 9);
    assert("application/octet-stream"@.len() == 24);
    assert("text/javascript"@.len() == 15);
    assert("text/css"@.len() == 8);
}

/// The request methods.
#[derive(Clone, Copy, Debug, PartialEq, Eq, Structural)]
pub enum Method {
    GET,
    POST,
    OPTION,
    PUT,
    DELETE,
    UNKNOWN,
}

/// The method that a lowercase name stands for. A name that is none of
/// the five known ones is `UNKNOWN`.
pub open spec fn method_of(lowered: Seq<char>) -> Method {
    if lowered == "get"@ {
        Method::GET
    } else if lowered == "post"@ {
        Method::POST
    } else if lowered == "option"@ {
        Method::OPTION
    } else if lowered == "put"@ {
        Method::PUT
    } else if lowered == "delete"@ {
        Method::DELETE
    } else {
        Method::UNKNOWN
    }
}

impl Method {
    /// The method as it stands in the key of an endpoint.
    pub open spec fn text(self) -> Seq<char> {
        match self {
            Method::GET => "GET"@,
            Method::POST => "POST"@,
            Method::OPTION => "OPTION"@,
            Method::PUT => "PUT"@,
            Method::DELETE => "DELETE"@,
            Method::UNKNOWN => "UNKNOW"@,
        }
    }

    /// The method that a lowercase name stands for.
    pub fn from_lowercase(lowered: &str) -> (r: Method)
        ensures
            r == method_of(lowered@),
    {
        if text_is(lowered, "get") {
            Method::GET
        } else if text_is(lowered, "post") {
            Method::POST
        } else if text_is(lowered, "option") {
            Method::OPTION
        } else if text_is(lowered, "put") {
            Method::PUT
        } else if text_is(lowered, "delete") {
            Method::DELETE
        } else {
            Method::UNKNOWN
        }
    }

    /// The method that a name stands for, whatever its case.
    pub fn from(s: String) -> (r: Method)
        ensures
            r == method_of(lowercase_of(s@)),
    {
        let lowered = s.as_str().to_lowercase();
        Method::from_lowercase(lowered.as_str())
    }

    /// The method as it stands in the key of an endpoint.
    pub fn as_str(self) -> (r: &'static str)
        ensures
            r@ == self.text(),
    {
        match self {
            Method::GET => "GET",
            Method::POST => "POST",
            Method::OPTION => "OPTION",
            Method::PUT => "PUT",
            Method::DELETE => "DELETE",
            Method::UNKNOWN => "UNKNOW",
        }
    }

    /// The method as it stands in the key of an endpoint.
    pub fn into(self) -> (r: String)
        ensures
            r@ == self.text(),
    {
        copy_text(self.as_str())
    }
}

/// Why a request could not be read.
#[derive(Clone, Copy, Debug, PartialEq, Eq, Structural)]
pub enum RequestError {
    /// The request has no first line, or that line has no word.
    MissingMethod,
    /// The first line has no second word.
    MissingTarget,
    /// A query parameter has no `=`.
    MalformedQuery,
    /// The user information has no `:`.
    MalformedUserInfo,
    /// The body was announced as JSON and is not JSON.
    InvalidJson,
}

/// `serde_json::Value`, a JSON value. Nothing is known of what it holds
/// but the text it was read from.
#[verifier::external_type_specification]
#[verifier::external_body]
pub struct ExJsonValue(serde_json::Value);

/// `serde_json::Error`, the reason why a text is no JSON. Nothing is known
/// of what it holds.
#[verifier::external_type_specification]
#[verifier::external_body]
pub struct ExJsonError(serde_json::Error);

/// The JSON value that `serde_json` reads from a text, or `None` where the
/// text is no JSON.
pub uninterp spec fn json_of(text: Seq<char>) -> Option<serde_json::Value>;

/// `serde_json` reads the text as one JSON value.
pub open spec fn is_json(text: Seq<char>) -> bool {
    json_of(text) is Some
}

/// `serde_json::from_str` reads a JSON value from a text. Whether it
/// succeeds, and which value it gives, depends on the text alone.
#[verifier::external_body]
fn parse_json(text: &str) -> (r: Result<serde_json::Value, serde_json::Error>)
    ensures
        match r {
            Ok(value) => json_of(text@) == Some(value),
            Err(_) => json_of(text@) is None,
        },
{
    serde_json::from_str(text)
}

/// `Clone` for `serde_json::Value` is derived: the clone is the same value.
pub assume_specification[ <serde_json::Value as Clone>::clone ](v: &serde_json::Value) -> (r:
    serde_json::Value)
    ensures
        r == *v,
;

/// The content of a request body.
pub enum RequestBodyType {
    Json(serde_json::Value),
    Str(String),
}

impl Clone for RequestBodyType {
    fn clone(&self) -> (r: Self)
        ensures
            r == *self,
    {
        match self {
            RequestBodyType::Json(j) => RequestBodyType::Json(j.clone()),
            RequestBodyType::Str(s) => RequestBodyType::Str(s.clone()),
        }
    }
}

/// The body of a request, with the content type it came with.
pub struct RequestBody {
    pub content_type: MimeType,
    pub content: RequestBodyType,
}

impl Clone for RequestBody {
    fn clone(&self) -> (r: Self)
        ensures
            r == *self,
    {
        RequestBody { content_type: self.content_type, content: self.content.clone() }
    }
}

impl RequestBody {
    /// The body that `t` is under the content type `ctype`: the JSON value
    /// read from the text where the type is JSON, the text itself under
    /// every other type.
    pub open spec fn holds(self, t: Seq<char>, ctype: MimeType) -> bool {
        &&& self.content_type == ctype
        &&& match self.content {
            RequestBodyType::Json(value) => ctype == MimeType::ApplicationJson && json_of(t)
                == Some(value),
            RequestBodyType::Str(s) => ctype != MimeType::ApplicationJson && s@ == t,
        }
    }

    /// Reads a body from its text. Under the JSON content type the text has
    /// to be JSON; under any other type every text is accepted as it is.
    pub fn from_str(t: String, ctype: MimeType) -> (r: Result<RequestBody, RequestError>)
        ensures
            r is Ok <==> (ctype == MimeType::ApplicationJson ==> is_json(t@)),
            r matches Ok(body) ==> body.holds(t@, ctype),
            r matches Err(e) ==> e == RequestError::InvalidJson,
    {
        match ctype {
            MimeType::ApplicationJson => match parse_json(t.as_str()) {
                Ok(j) => Ok(RequestBody { content: RequestBodyType::Json(j), content_type: ctype }),
                Err(_) => Err(RequestError::InvalidJson),
            },
            _ => Ok(RequestBody { content: RequestBodyType::Str(t), content_type: ctype }),
        }
    }
}

/// A value that renders itself as the body of a response.
pub trait ResponseCommon {
    /// The text that the value renders itself to.
    spec fn rendering(&self) -> Seq<char>;

    /// Renders the value.
    fn parse_to_string(&self) -> (s: String)
        ensures
            s@ == self.rendering(),
    ;

    /// The length in bytes that the value reports for its rendering.
    fn get_length(&self) -> usize;
}

/// The content of a response body.
pub enum ResponseBodyType<T> {
    Object(T),
    Str(String),
    Empty,
}

/// The body of a response, with its content type.
pub struct ResponseBody<T> {
    pub content_type: MimeType,
    pub content: ResponseBodyType<T>,
}

impl<T: ResponseCommon> ResponseBody<T> {
    /// The text that the body is sent as: what an object renders itself
    /// to, the text that the body holds, nothing for an empty body.
    pub open spec fn text(self) -> Seq<char> {
        match self.content {
            ResponseBodyType::Object(obj) => obj.rendering(),
            ResponseBodyType::Str(t) => t@,
            ResponseBodyType::Empty => Seq::empty(),
        }
    }

    /// A JSON body that renders `content`.
    pub fn new_json(content: T) -> (r: Self)
        ensures
            r.content_type == MimeType::ApplicationJson,
            r.content == ResponseBodyType::Object(content),
    {
        ResponseBody {
            content: ResponseBodyType::Object(content),
            content_type: MimeType::ApplicationJson,
        }
    }

    /// A body that holds the text `t`.
    pub fn new_string(ctype: MimeType, t: String) -> (r: Self)
        ensures
            r.content_type == ctype,
            r.content == ResponseBodyType::<T>::Str(t),
    {
        ResponseBody { content_type: ctype, content: ResponseBodyType::Str(t) }
    }

    /// A body without content.
    pub fn new_empty(ctype: MimeType) -> (r: Self)
        ensures
            r.content_type == ctype,
            r.content == ResponseBodyType::<T>::Empty,
    {
        ResponseBody { content_type: ctype, content: ResponseBodyType::Empty }
    }

    /// Renders the body.
    pub fn render(&self) -> (r: String)
        ensures
            r@ == self.text(),
    {
        match &self.content {
            ResponseBodyType::Object(obj) => obj.parse_to_string(),
            ResponseBodyType::Str(t) => t.clone(),
            ResponseBodyType::Empty => String::new(),
        }
    }
}

/// A response type for responses that render no object.
#[derive(Clone, Copy, Debug)]
pub struct DummyResponseType;

impl ResponseCommon for DummyResponseType {
    open spec fn rendering(&self) -> Seq<char> {
        Seq::empty()
    }

    fn parse_to_string(&self) -> (s: String) {
        String::new()
    }

    fn get_length(&self) -> (n: usize)
        ensures
            n == 0,
    {
        0usize
    }
}

/// A value that has been rendered already: it renders itself to the text
/// it holds.
pub struct Rendered(pub String);

impl ResponseCommon for Rendered {
    open spec fn rendering(&self) -> Seq<char> {
        self.0@
    }

    fn parse_to_string(&self) -> (s: String) {
        self.0.clone()
    }

    /// The number of bytes of the text.
    fn get_length(&self) -> (n: usize)
        ensures
            n == vstd::utf8::encode_utf8(self.0@).len(),
    {
        self.0.as_str().as_bytes().len()
    }
}

/// The text of a complete response, ready to be sent.
pub struct ResponseTextWrapper(String);

impl View for ResponseTextWrapper {
    type V = Seq<char>;

    closed spec fn view(&self) -> Seq<char> {
        self.0@
    }
}

impl ResponseTextWrapper {
    pub fn new(t: String) -> (r: Self)
        ensures
            r@ == t@,
    {
        ResponseTextWrapper(t)
    }

    /// The text to send.
    pub fn as_str(&self) -> (r: &str)
        ensures
            r@ == self@,
    {
        self.0.as_str()
    }
}

/// A template text that can be replaced while the server runs.
pub struct TemplateHolder {
    template: String,
}

impl View for TemplateHolder {
    type V = Seq<char>;

    closed spec fn view(&self) -> Seq<char> {
        self.template@
    }
}

impl TemplateHolder {
    pub fn new(t: String) -> (r: Self)
        ensures
            r@ == t@,
    {
        TemplateHolder { template: t }
    }

    pub fn mutate(&mut self, t_rep: String)
        ensures
            final(self)@ == t_rep@,
    {
        self.template = t_rep;
    }

    pub fn get_temp(&self) -> (r: String)
        ensures
            r@ == self@,
    {
        self.template.clone()
    }
}

/// The templates of the two fallback pages.
pub struct Templates {
    pub temp_404: TemplateHolder,
    pub temp_405: TemplateHolder,
}

impl Templates {
    /// The templates as they are before anything replaces them.
    pub fn new() -> (r: Self)
        ensures
            r.temp_404@ == "404 Not Found"@,
            r.temp_405@ == "405 Not Found"@,
    {
        Templates {
            temp_404: TemplateHolder::new(copy_text("404 Not Found")),
            temp_405: TemplateHolder::new(copy_text("405 Not Found")),
        }
    }
}

/// Replaces the template of the page for unknown paths.
pub fn modify_404_template(templates: &mut Templates, template: String)
    ensures
        final(templates).temp_404@ == template@,
        final(templates).temp_405 == old(templates).temp_405,
{
    templates.temp_404.mutate(template)
}

/// Replaces the template of the page for methods that a path does not take.
pub fn modify_405_template(templates: &mut Templates, template: String)
    ensures
        final(templates).temp_405@ == template@,
        final(templates).temp_404 == old(templates).temp_404,
{
    templates.temp_405.mutate(template)
}

} // verus!

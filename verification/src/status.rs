//! The catalogue of HTTP status codes.

use vstd::prelude::*;
use crate::number::{decimal, decimal_of};
use crate::text::{append, from_chars, to_chars};

verus! {

/// A registered HTTP status. The catalogue is closed: a code outside it has
/// no status.
#[derive(Clone, Copy, Debug, PartialEq, Eq, Structural)]
pub enum HttpStatus {
    Http100Continue,
    Http101SwitchingProtocols,
    Http102Processing,
    Http103EarlyHints,
    Http200Ok,
    Http201Created,
    Http202Accepted,
    Http203NonAuthorative,
    Http204NoContent,
    Http205ResetContent,
    Http206PartialContent,
    Http207Multi,
    Http208AlreadyReported,
    Http226IMUsed,
    Http300MultipleChoices,
    Http301MoovedPermenantly,
    Http302Found,
    Http303SeeOther,
    Http304NotModified,
    Http305UseProxy,
    Http306SwitchProxy,
    Http307TemporaryRedirect,
    Http308PermanentRedirect,
    Http400BadRequest,
    Http401Unauthorized,
    Http402PaymentRequired,
    Http403Forbidden,
    Http404NotFound,
    Http405MethodNotAllwed,
    Http406NotAcceptable,
    Http407ProxyAuthRequired,
    Http408RequestTimeout,
    Http409Conflict,
    Http410Gone,
    Http411LengthRequired,
    Http412PreconditionFailed,
    Http413PayloadTooLarge,
    Http414URITooLong,
    Http415UnsupportedMediaType,
    Http416RangeNotSatisfiable,
    Http417ExcpectationFailed,
    Http418ImATeapot,
    Http421MisdirectedRequest,
    Http422UnprocessableEntity,
    Http423Locked,
    Http424FailedDependency,
    Http425TooEarly,
    Http426UpgradeRequired,
    Http428PreconditionRequired,
    Http429TooManyRequests,
    Http431RequestHeaderFieldsTooLarge,
    Http451UnavailableForLegalReasons,
    Http500InternalServerError,
    Http501NotImplemented,
    Http502BadGateway,
    Http503ServiceUnavailable,
    Http504GatewayTimeout,
    Http505HTTPVersionNotSupported,
    Http506VariantAlsoNegotiates,
    Http507InsufficientStorage,
    Http508LoopDetected,
    Http510NotExtended,
    Http511NetworkAuthenticationRequried,
}

/// The status registered under `code`, if there is one.
pub open spec fn status_of(code: u32) -> Option<HttpStatus> {
    if code == 100 {
        Some(HttpStatus::Http100Continue)
    } else if code == 101 {
        Some(HttpStatus::Http101SwitchingProtocols)
    } else if code == 102 {
        Some(HttpStatus::Http102Processing)
    } else if code == 103 {
        Some(HttpStatus::Http103EarlyHints)
    } else if code == 200 {
        Some(HttpStatus::Http200Ok)
    } else if code == 201 {
        Some(HttpStatus::Http201Created)
    } else if code == 202 {
        Some(HttpStatus::Http202Accepted)
    } else if code == 203 {
        Some(HttpStatus::Http203NonAuthorative)
    } else if code == 204 {
        Some(HttpStatus::Http204NoContent)
    } else if code == 205 {
        Some(HttpStatus::Http205ResetContent)
    } else if code == 206 {
        Some(HttpStatus::Http206PartialContent)
    } else if code == 207 {
        Some(HttpStatus::Http207Multi)
    } else if code == 208 {
        Some(HttpStatus::Http208AlreadyReported)
    } else if code == 226 {
        Some(HttpStatus::Http226IMUsed)
    } else if code == 300 {
        Some(HttpStatus::Http300MultipleChoices)
    } else if code == 301 {
        Some(HttpStatus::Http301MoovedPermenantly)
    } else if code == 302 {
        Some(HttpStatus::Http302Found)
    } else if code == 303 {
        Some(HttpStatus::Http303SeeOther)
    } else if code == 304 {
        Some(HttpStatus::Http304NotModified)
    } else if code == 305 {
        Some(HttpStatus::Http305UseProxy)
    } else if code == 306 {
        Some(HttpStatus::Http306SwitchProxy)
    } else if code == 307 {
        Some(HttpStatus::Http307TemporaryRedirect)
    } else if code == 308 {
        Some(HttpStatus::Http308PermanentRedirect)
    } else if code == 400 {
        Some(HttpStatus::Http400BadRequest)
    } else if code == 401 {
        Some(HttpStatus::Http401Unauthorized)
    } else if code == 402 {
        Some(HttpStatus::Http402PaymentRequired)
    } else if code == 403 {
        Some(HttpStatus::Http403Forbidden)
    } else if code == 404 {
        Some(HttpStatus::Http404NotFound)
    } else if code == 405 {
        Some(HttpStatus::Http405MethodNotAllwed)
    } else if code == 406 {
        Some(HttpStatus::Http406NotAcceptable)
    } else if code == 407 {
        Some(HttpStatus::Http407ProxyAuthRequired)
    } else if code == 408 {
        Some(HttpStatus::Http408RequestTimeout)
    } else if code == 409 {
        Some(HttpStatus::Http409Conflict)
    } else if code == 410 {
        Some(HttpStatus::Http410Gone)
    } else if code == 411 {
        Some(HttpStatus::Http411LengthRequired)
    } else if code == 412 {
        Some(HttpStatus::Http412PreconditionFailed)
    } else if code == 413 {
        Some(HttpStatus::Http413PayloadTooLarge)
    } else if code == 414 {
        Some(HttpStatus::Http414URITooLong)
    } else if code == 415 {
        Some(HttpStatus::Http415UnsupportedMediaType)
    } else if code == 416 {
        Some(HttpStatus::Http416RangeNotSatisfiable)
    } else if code == 417 {
        Some(HttpStatus::Http417ExcpectationFailed)
    } else if code == 418 {
        Some(HttpStatus::Http418ImATeapot)
    } else if code == 421 {
        Some(HttpStatus::Http421MisdirectedRequest)
    } else if code == 422 {
        Some(HttpStatus::Http422UnprocessableEntity)
    } else if code == 423 {
        Some(HttpStatus::Http423Locked)
    } else if code == 424 {
        Some(HttpStatus::Http424FailedDependency)
    } else if code == 425 {
        Some(HttpStatus::Http425TooEarly)
    } else if code == 426 {
        Some(HttpStatus::Http426UpgradeRequired)
    } else if code == 428 {
        Some(HttpStatus::Http428PreconditionRequired)
    } else if code == 429 {
        Some(HttpStatus::Http429TooManyRequests)
    } else if code == 431 {
        Some(HttpStatus::Http431RequestHeaderFieldsTooLarge)
    } else if code == 451 {
        Some(HttpStatus::Http451UnavailableForLegalReasons)
    } else if code == 500 {
        Some(HttpStatus::Http500InternalServerError)
    } else if code == 501 {
        Some(HttpStatus::Http501NotImplemented)
    } else if code == 502 {
        Some(HttpStatus::Http502BadGateway)
    } else if code == 503 {
        Some(HttpStatus::Http503ServiceUnavailable)
    } else if code == 504 {
        Some(HttpStatus::Http504GatewayTimeout)
    } else if code == 505 {
        Some(HttpStatus::Http505HTTPVersionNotSupported)
    } else if code == 506 {
        Some(HttpStatus::Http506VariantAlsoNegotiates)
    } else if code == 507 {
        Some(HttpStatus::Http507InsufficientStorage)
    } else if code == 508 {
        Some(HttpStatus::Http508LoopDetected)
    } else if code == 510 {
        Some(HttpStatus::Http510NotExtended)
    } else if code == 511 {
        Some(HttpStatus::Http511NetworkAuthenticationRequried)
    } else {
        None
    }
}

impl HttpStatus {
    /// The numeric code of the status.
    pub open spec fn code(self) -> u32 {
        match self {
            HttpStatus::Http100Continue => 100,
            HttpStatus::Http101SwitchingProtocols => 101,
            HttpStatus::Http102Processing => 102,
            HttpStatus::Http103EarlyHints => 103,
            HttpStatus::Http200Ok => 200,
            HttpStatus::Http201Created => 201,
            HttpStatus::Http202Accepted => 202,
            HttpStatus::Http203NonAuthorative => 203,
            HttpStatus::Http204NoContent => 204,
            HttpStatus::Http205ResetContent => 205,
            HttpStatus::Http206PartialContent => 206,
            HttpStatus::Http207Multi => 207,
            HttpStatus::Http208AlreadyReported => 208,
            HttpStatus::Http226IMUsed => 226,
            HttpStatus::Http300MultipleChoices => 300,
            HttpStatus::Http301MoovedPermenantly => 301,
            HttpStatus::Http302Found => 302,
            HttpStatus::Http303SeeOther => 303,
            HttpStatus::Http304NotModified => 304,
            HttpStatus::Http305UseProxy => 305,
            HttpStatus::Http306SwitchProxy => 306,
            HttpStatus::Http307TemporaryRedirect => 307,
            HttpStatus::Http308PermanentRedirect => 308,
            HttpStatus::Http400BadRequest => 400,
            HttpStatus::Http401Unauthorized => 401,
            HttpStatus::Http402PaymentRequired => 402,
            HttpStatus::Http403Forbidden => 403,
            HttpStatus::Http404NotFound => 404,
            HttpStatus::Http405MethodNotAllwed => 405,
            HttpStatus::Http406NotAcceptable => 406,
            HttpStatus::Http407ProxyAuthRequired => 407,
            HttpStatus::Http408RequestTimeout => 408,
            HttpStatus::Http409Conflict => 409,
            HttpStatus::Http410Gone => 410,
            HttpStatus::Http411LengthRequired => 411,
            HttpStatus::Http412PreconditionFailed => 412,
            HttpStatus::Http413PayloadTooLarge => 413,
            HttpStatus::Http414URITooLong => 414,
            HttpStatus::Http415UnsupportedMediaType => 415,
            HttpStatus::Http416RangeNotSatisfiable => 416,
            HttpStatus::Http417ExcpectationFailed => 417,
            HttpStatus::Http418ImATeapot => 418,
            HttpStatus::Http421MisdirectedRequest => 421,
            HttpStatus::Http422UnprocessableEntity => 422,
            HttpStatus::Http423Locked => 423,
            HttpStatus::Http424FailedDependency => 424,
            HttpStatus::Http425TooEarly => 425,
            HttpStatus::Http426UpgradeRequired => 426,
            HttpStatus::Http428PreconditionRequired => 428,
            HttpStatus::Http429TooManyRequests => 429,
            HttpStatus::Http431RequestHeaderFieldsTooLarge => 431,
            HttpStatus::Http451UnavailableForLegalReasons => 451,
            HttpStatus::Http500InternalServerError => 500,
            HttpStatus::Http501NotImplemented => 501,
            HttpStatus::Http502BadGateway => 502,
            HttpStatus::Http503ServiceUnavailable => 503,
            HttpStatus::Http504GatewayTimeout => 504,
            HttpStatus::Http505HTTPVersionNotSupported => 505,
            HttpStatus::Http506VariantAlsoNegotiates => 506,
            HttpStatus::Http507InsufficientStorage => 507,
            HttpStatus::Http508LoopDetected => 508,
            HttpStatus::Http510NotExtended => 510,
            HttpStatus::Http511NetworkAuthenticationRequried => 511,
        }
    }

    /// The reason phrase of the status.
    pub open spec fn reason(self) -> Seq<char> {
        match self {
            HttpStatus::Http100Continue => "Continue"@,
            HttpStatus::Http101SwitchingProtocols => "Switching Protocols"@,
            HttpStatus::Http102Processing => "Processing"@,
            HttpStatus::Http103EarlyHints => "Early Hints"@,
            HttpStatus::Http200Ok => "OK"@,
            HttpStatus::Http201Created => "Created"@,
            HttpStatus::Http202Accepted => "Accepted"@,
            HttpStatus::Http203NonAuthorative => "Non-Authoritative Information"@,
            HttpStatus::Http204NoContent => "No Content"@,
            HttpStatus::Http205ResetContent => "Reset Content"@,
            HttpStatus::Http206PartialContent => "Partial Content"@,
            HttpStatus::Http207Multi => "Multi-Status"@,
            HttpStatus::Http208AlreadyReported => "Already Reported"@,
            HttpStatus::Http226IMUsed => "IM Used"@,
            HttpStatus::Http300MultipleChoices => "Multiple Choices"@,
            HttpStatus::Http301MoovedPermenantly => "Moved Permanently"@,
            HttpStatus::Http302Found => "Found"@,
            HttpStatus::Http303SeeOther => "See Other"@,
            HttpStatus::Http304NotModified => "Not Modified"@,
            HttpStatus::Http305UseProxy => "Use Proxy"@,
            HttpStatus::Http306SwitchProxy => "Switch Proxy"@,
            HttpStatus::Http307TemporaryRedirect => "Temporary Redirect"@,
            HttpStatus::Http308PermanentRedirect => "Permanent Redirect"@,
            HttpStatus::Http400BadRequest => "Bad Request"@,
            HttpStatus::Http401Unauthorized => "Unauthorized"@,
            HttpStatus::Http402PaymentRequired => "Payment Required"@,
            HttpStatus::Http403Forbidden => "Forbidden"@,
            HttpStatus::Http404NotFound => "Not Found"@,
            HttpStatus::Http405MethodNotAllwed => "Method Not Allowed"@,
            HttpStatus::Http406NotAcceptable => "Not Acceptable"@,
            HttpStatus::Http407ProxyAuthRequired => "Proxy Authentication Required"@,
            HttpStatus::Http408RequestTimeout => "Request Timeout"@,
            HttpStatus::Http409Conflict => "Conflict"@,
            HttpStatus::Http410Gone => "Gone"@,
            HttpStatus::Http411LengthRequired => "Length Required"@,
            HttpStatus::Http412PreconditionFailed => "Precondition Failed"@,
            HttpStatus::Http413PayloadTooLarge => "Payload Too Large"@,
            HttpStatus::Http414URITooLong => "URI Too Long"@,
            HttpStatus::Http415UnsupportedMediaType => "Unsupported Media Type"@,
            HttpStatus::Http416RangeNotSatisfiable => "Range Not Satisfiable"@,
            HttpStatus::Http417ExcpectationFailed => "Expectation Failed"@,
            HttpStatus::Http418ImATeapot => "I'm a teapot"@,
            HttpStatus::Http421MisdirectedRequest => "Misdirected Request"@,
            HttpStatus::Http422UnprocessableEntity => "Unprocessable Entity"@,
            HttpStatus::Http423Locked => "Locked"@,
            HttpStatus::Http424FailedDependency => "Failed Dependency"@,
            HttpStatus::Http425TooEarly => "Too Early"@,
            HttpStatus::Http426UpgradeRequired => "Upgrade Required"@,
            HttpStatus::Http428PreconditionRequired => "Precondition Required"@,
            HttpStatus::Http429TooManyRequests => "Too Many Requests"@,
            HttpStatus::Http431RequestHeaderFieldsTooLarge => "Request Header Fields Too Large"@,
            HttpStatus::Http451UnavailableForLegalReasons => "Unavailable For Legal Reasons"@,
            HttpStatus::Http500InternalServerError => "Internal Server Error"@,
            HttpStatus::Http501NotImplemented => "Not Implemented"@,
            HttpStatus::Http502BadGateway => "Bad Gateway"@,
            HttpStatus::Http503ServiceUnavailable => "Service Unavailable"@,
            HttpStatus::Http504GatewayTimeout => "Gateway Timeout"@,
            HttpStatus::Http505HTTPVersionNotSupported => "HTTP Version Not Supported"@,
            HttpStatus::Http506VariantAlsoNegotiates => "Variant Also Negotiates"@,
            HttpStatus::Http507InsufficientStorage => "Insufficient Storage"@,
            HttpStatus::Http508LoopDetected => "Loop Detected"@,
            HttpStatus::Http510NotExtended => "Not Extended"@,
            HttpStatus::Http511NetworkAuthenticationRequried => "Network Authentication Required"@,
        }
    }

    /// The status as it stands in a status line: the code, a space and the
    /// reason phrase.
    pub open spec fn text(self) -> Seq<char> {
        decimal_of(self.code() as nat) + seq![' '] + self.reason()
    }

    /// The status registered under the code `i`, or `None` where the
    /// catalogue has no such code.
    pub fn from(i: u32) -> (r: Option<HttpStatus>)
        ensures
            r == status_of(i),
            r matches Some(status) ==> status.code() == i,
    {
        match i {
            100 => Some(HttpStatus::Http100Continue),
            101 => Some(HttpStatus::Http101SwitchingProtocols),
            102 => Some(HttpStatus::Http102Processing),
            103 => Some(HttpStatus::Http103EarlyHints),
            200 => Some(HttpStatus::Http200Ok),
            201 => Some(HttpStatus::Http201Created),
            202 => Some(HttpStatus::Http202Accepted),
            203 => Some(HttpStatus::Http203NonAuthorative),
            204 => Some(HttpStatus::Http204NoContent),
            205 => Some(HttpStatus::Http205ResetContent),
            206 => Some(HttpStatus::Http206PartialContent),
            207 => Some(HttpStatus::Http207Multi),
            208 => Some(HttpStatus::Http208AlreadyReported),
            226 => Some(HttpStatus::Http226IMUsed),
            300 => Some(HttpStatus::Http300MultipleChoices),
            301 => Some(HttpStatus::Http301MoovedPermenantly),
            302 => Some(HttpStatus::Http302Found),
            303 => Some(HttpStatus::Http303SeeOther),
            304 => Some(HttpStatus::Http304NotModified),
            305 => Some(HttpStatus::Http305UseProxy),
            306 => Some(HttpStatus::Http306SwitchProxy),
            307 => Some(HttpStatus::Http307TemporaryRedirect),
            308 => Some(HttpStatus::Http308PermanentRedirect),
            400 => Some(HttpStatus::Http400BadRequest),
            401 => Some(HttpStatus::Http401Unauthorized),
            402 => Some(HttpStatus::Http402PaymentRequired),
            403 => Some(HttpStatus::Http403Forbidden),
            404 => Some(HttpStatus::Http404NotFound),
            405 => Some(HttpStatus::Http405MethodNotAllwed),
            406 => Some(HttpStatus::Http406NotAcceptable),
            407 => Some(HttpStatus::Http407ProxyAuthRequired),
            408 => Some(HttpStatus::Http408RequestTimeout),
            409 => Some(HttpStatus::Http409Conflict),
            410 => Some(HttpStatus::Http410Gone),
            411 => Some(HttpStatus::Http411LengthRequired),
            412 => Some(HttpStatus::Http412PreconditionFailed),
            413 => Some(HttpStatus::Http413PayloadTooLarge),
            414 => Some(HttpStatus::Http414URITooLong),
            415 => Some(HttpStatus::Http415UnsupportedMediaType),
            416 => Some(HttpStatus::Http416RangeNotSatisfiable),
            417 => Some(HttpStatus::Http417ExcpectationFailed),
            418 => Some(HttpStatus::Http418ImATeapot),
            421 => Some(HttpStatus::Http421MisdirectedRequest),
            422 => Some(HttpStatus::Http422UnprocessableEntity),
            423 => Some(HttpStatus::Http423Locked),
            424 => Some(HttpStatus::Http424FailedDependency),
            425 => Some(HttpStatus::Http425TooEarly),
            426 => Some(HttpStatus::Http426UpgradeRequired),
            428 => Some(HttpStatus::Http428PreconditionRequired),
            429 => Some(HttpStatus::Http429TooManyRequests),
            431 => Some(HttpStatus::Http431RequestHeaderFieldsTooLarge),
            451 => Some(HttpStatus::Http451UnavailableForLegalReasons),
            500 => Some(HttpStatus::Http500InternalServerError),
            501 => Some(HttpStatus::Http501NotImplemented),
            502 => Some(HttpStatus::Http502BadGateway),
            503 => Some(HttpStatus::Http503ServiceUnavailable),
            504 => Some(HttpStatus::Http504GatewayTimeout),
            505 => Some(HttpStatus::Http505HTTPVersionNotSupported),
            506 => Some(HttpStatus::Http506VariantAlsoNegotiates),
            507 => Some(HttpStatus::Http507InsufficientStorage),
            508 => Some(HttpStatus::Http508LoopDetected),
            510 => Some(HttpStatus::Http510NotExtended),
            511 => Some(HttpStatus::Http511NetworkAuthenticationRequried),
            _ => None,
        }
    }

    /// The numeric code of the status.
    pub fn get_code(self) -> (r: u32)
        ensures
            r == self.code(),
    {
        match self {
            HttpStatus::Http100Continue => 100,
            HttpStatus::Http101SwitchingProtocols => 101,
            HttpStatus::Http102Processing => 102,
            HttpStatus::Http103EarlyHints => 103,
            HttpStatus::Http200Ok => 200,
            HttpStatus::Http201Created => 201,
            HttpStatus::Http202Accepted => 202,
            HttpStatus::Http203NonAuthorative => 203,
            HttpStatus::Http204NoContent => 204,
            HttpStatus::Http205ResetContent => 205,
            HttpStatus::Http206PartialContent => 206,
            HttpStatus::Http207Multi => 207,
            HttpStatus::Http208AlreadyReported => 208,
            HttpStatus::Http226IMUsed => 226,
            HttpStatus::Http300MultipleChoices => 300,
            HttpStatus::Http301MoovedPermenantly => 301,
            HttpStatus::Http302Found => 302,
            HttpStatus::Http303SeeOther => 303,
            HttpStatus::Http304NotModified => 304,
            HttpStatus::Http305UseProxy => 305,
            HttpStatus::Http306SwitchProxy => 306,
            HttpStatus::Http307TemporaryRedirect => 307,
            HttpStatus::Http308PermanentRedirect => 308,
            HttpStatus::Http400BadRequest => 400,
            HttpStatus::Http401Unauthorized => 401,
            HttpStatus::Http402PaymentRequired => 402,
            HttpStatus::Http403Forbidden => 403,
            HttpStatus::Http404NotFound => 404,
            HttpStatus::Http405MethodNotAllwed => 405,
            HttpStatus::Http406NotAcceptable => 406,
            HttpStatus::Http407ProxyAuthRequired => 407,
            HttpStatus::Http408RequestTimeout => 408,
            HttpStatus::Http409Conflict => 409,
            HttpStatus::Http410Gone => 410,
            HttpStatus::Http411LengthRequired => 411,
            HttpStatus::Http412PreconditionFailed => 412,
            HttpStatus::Http413PayloadTooLarge => 413,
            HttpStatus::Http414URITooLong => 414,
            HttpStatus::Http415UnsupportedMediaType => 415,
            HttpStatus::Http416RangeNotSatisfiable => 416,
            HttpStatus::Http417ExcpectationFailed => 417,
            HttpStatus::Http418ImATeapot => 418,
            HttpStatus::Http421MisdirectedRequest => 421,
            HttpStatus::Http422UnprocessableEntity => 422,
            HttpStatus::Http423Locked => 423,
            HttpStatus::Http424FailedDependency => 424,
            HttpStatus::Http425TooEarly => 425,
            HttpStatus::Http426UpgradeRequired => 426,
            HttpStatus::Http428PreconditionRequired => 428,
            HttpStatus::Http429TooManyRequests => 429,
            HttpStatus::Http431RequestHeaderFieldsTooLarge => 431,
            HttpStatus::Http451UnavailableForLegalReasons => 451,
            HttpStatus::Http500InternalServerError => 500,
            HttpStatus::Http501NotImplemented => 501,
            HttpStatus::Http502BadGateway => 502,
            HttpStatus::Http503ServiceUnavailable => 503,
            HttpStatus::Http504GatewayTimeout => 504,
            HttpStatus::Http505HTTPVersionNotSupported => 505,
            HttpStatus::Http506VariantAlsoNegotiates => 506,
            HttpStatus::Http507InsufficientStorage => 507,
            HttpStatus::Http508LoopDetected => 508,
            HttpStatus::Http510NotExtended => 510,
            HttpStatus::Http511NetworkAuthenticationRequried => 511,
        }
    }

    /// The reason phrase of the status.
    pub fn get_reason(self) -> (r: &'static str)
        ensures
            r@ == self.reason(),
    {
        match self {
            HttpStatus::Http100Continue => "Continue",
            HttpStatus::Http101SwitchingProtocols => "Switching Protocols",
            HttpStatus::Http102Processing => "Processing",
            HttpStatus::Http103EarlyHints => "Early Hints",
            HttpStatus::Http200Ok => "OK",
            HttpStatus::Http201Created => "Created",
            HttpStatus::Http202Accepted => "Accepted",
            HttpStatus::Http203NonAuthorative => "Non-Authoritative Information",
            HttpStatus::Http204NoContent => "No Content",
            HttpStatus::Http205ResetContent => "Reset Content",
            HttpStatus::Http206PartialContent => "Partial Content",
            HttpStatus::Http207Multi => "Multi-Status",
            HttpStatus::Http208AlreadyReported => "Already Reported",
            HttpStatus::Http226IMUsed => "IM Used",
            HttpStatus::Http300MultipleChoices => "Multiple Choices",
            HttpStatus::Http301MoovedPermenantly => "Moved Permanently",
            HttpStatus::Http302Found => "Found",
            HttpStatus::Http303SeeOther => "See Other",
            HttpStatus::Http304NotModified => "Not Modified",
            HttpStatus::Http305UseProxy => "Use Proxy",
            HttpStatus::Http306SwitchProxy => "Switch Proxy",
            HttpStatus::Http307TemporaryRedirect => "Temporary Redirect",
            HttpStatus::Http308PermanentRedirect => "Permanent Redirect",
            HttpStatus::Http400BadRequest => "Bad Request",
            HttpStatus::Http401Unauthorized => "Unauthorized",
            HttpStatus::Http402PaymentRequired => "Payment Required",
            HttpStatus::Http403Forbidden => "Forbidden",
            HttpStatus::Http404NotFound => "Not Found",
            HttpStatus::Http405MethodNotAllwed => "Method Not Allowed",
            HttpStatus::Http406NotAcceptable => "Not Acceptable",
            HttpStatus::Http407ProxyAuthRequired => "Proxy Authentication Required",
            HttpStatus::Http408RequestTimeout => "Request Timeout",
            HttpStatus::Http409Conflict => "Conflict",
            HttpStatus::Http410Gone => "Gone",
            HttpStatus::Http411LengthRequired => "Length Required",
            HttpStatus::Http412PreconditionFailed => "Precondition Failed",
            HttpStatus::Http413PayloadTooLarge => "Payload Too Large",
            HttpStatus::Http414URITooLong => "URI Too Long",
            HttpStatus::Http415UnsupportedMediaType => "Unsupported Media Type",
            HttpStatus::Http416RangeNotSatisfiable => "Range Not Satisfiable",
            HttpStatus::Http417ExcpectationFailed => "Expectation Failed",
            HttpStatus::Http418ImATeapot => "I'm a teapot",
            HttpStatus::Http421MisdirectedRequest => "Misdirected Request",
            HttpStatus::Http422UnprocessableEntity => "Unprocessable Entity",
            HttpStatus::Http423Locked => "Locked",
            HttpStatus::Http424FailedDependency => "Failed Dependency",
            HttpStatus::Http425TooEarly => "Too Early",
            HttpStatus::Http426UpgradeRequired => "Upgrade Required",
            HttpStatus::Http428PreconditionRequired => "Precondition Required",
            HttpStatus::Http429TooManyRequests => "Too Many Requests",
            HttpStatus::Http431RequestHeaderFieldsTooLarge => "Request Header Fields Too Large",
            HttpStatus::Http451UnavailableForLegalReasons => "Unavailable For Legal Reasons",
            HttpStatus::Http500InternalServerError => "Internal Server Error",
            HttpStatus::Http501NotImplemented => "Not Implemented",
            HttpStatus::Http502BadGateway => "Bad Gateway",
            HttpStatus::Http503ServiceUnavailable => "Service Unavailable",
            HttpStatus::Http504GatewayTimeout => "Gateway Timeout",
            HttpStatus::Http505HTTPVersionNotSupported => "HTTP Version Not Supported",
            HttpStatus::Http506VariantAlsoNegotiates => "Variant Also Negotiates",
            HttpStatus::Http507InsufficientStorage => "Insufficient Storage",
            HttpStatus::Http508LoopDetected => "Loop Detected",
            HttpStatus::Http510NotExtended => "Not Extended",
            HttpStatus::Http511NetworkAuthenticationRequried => "Network Authentication Required",
        }
    }

    /// The status as text, such as `200 OK`.
    pub fn into(self) -> (r: String)
        ensures
            r@ == self.text(),
    {
        let mut chars = decimal(self.get_code() as usize);
        chars.push(' ');
        let reason = to_chars(self.get_reason());
        append(&mut chars, reason.as_slice());
        from_chars(chars.as_slice())
    }
}

/// Every status is found again under its own code.
pub proof fn lemma_status_round_trip(status: HttpStatus)
    ensures
        status_of(status.code()) == Some(status),
{
}

} // verus!

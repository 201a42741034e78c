//! The closed set of response status codes this client recognises, each
//! with its canonical reason phrase.

use vstd::prelude::*;

verus! {

#[derive(Debug, PartialEq, Eq, Structural, Clone, Copy)]
pub enum StatusCode {
    Continue100,
    SwitchingProtocols101,
    Processing102,
    EarlyHints103,
    Ok200,
    Created201,
    Accepted202,
    NonAuthoritativeInformation203,
    NoContent204,
    ResetContent205,
    PartialContent206,
    MultiStatus207,
    AlreadyReported208,
    ImUsed226,
    MultipleChoices300,
    MovedPermanently301,
    Found302,
    SeeOther303,
    NotModified304,
    UseProxy305,
    TemporaryRedirect307,
    PermanentRedirect308,
    BadRequest400,
    Unauthorized401,
    PaymentRequired402,
    Forbidden403,
    NotFound404,
    MethodNotAllowed405,
    NotAcceptable406,
    ProxyAuthenticationRequired407,
    RequestTimeout408,
    Conflict409,
    Gone410,
    LengthRequired411,
    PrecondiditionFailed412,
    PayloadTooLarge413,
    UriTooLong414,
    UnsupportedMediaType415,
    RangeNotSatisfiable416,
    ExpectationFailed417,
    MisdirectedRequest421,
    UnprocessableEntity422,
    Locked423,
    FailedDependency424,
    TooEarly425,
    UpgradeRequired426,
    PreconditionRequired428,
    TooManyRequests429,
    RequestHeaderFieldsTooLarge431,
    UnavailableForLegalReasons451,
    InternalServerError500,
    NotImplemented501,
    BadGateway502,
    ServiceUnavailable503,
    GatewayTimeout504,
    HttpVersionNotSupported505,
    VariantAlsoNegotiates506,
    InsufficientStorage507,
    LoopDetected508,
    NotExtended510,
    NetworkAuthenticationRequired511,
}

/// The numeric value of each status code.
pub open spec fn spec_code_of(c: StatusCode) -> int {
    match c {
        StatusCode::Continue100 => 100,
        StatusCode::SwitchingProtocols101 => 101,
        StatusCode::Processing102 => 102,
        StatusCode::EarlyHints103 => 103,
        StatusCode::Ok200 => 200,
        StatusCode::Created201 => 201,
        StatusCode::Accepted202 => 202,
        StatusCode::NonAuthoritativeInformation203 => 203,
        StatusCode::NoContent204 => 204,
        StatusCode::ResetContent205 => 205,
        StatusCode::PartialContent206 => 206,
        StatusCode::MultiStatus207 => 207,
        StatusCode::AlreadyReported208 => 208,
        StatusCode::ImUsed226 => 226,
        StatusCode::MultipleChoices300 => 300,
        StatusCode::MovedPermanently301 => 301,
        StatusCode::Found302 => 302,
        StatusCode::SeeOther303 => 303,
        StatusCode::NotModified304 => 304,
        StatusCode::UseProxy305 => 305,
        StatusCode::TemporaryRedirect307 => 307,
        StatusCode::PermanentRedirect308 => 308,
        StatusCode::BadRequest400 => 400,
        StatusCode::Unauthorized401 => 401,
        StatusCode::PaymentRequired402 => 402,
        StatusCode::Forbidden403 => 403,
        StatusCode::NotFound404 => 404,
        StatusCode::MethodNotAllowed405 => 405,
        StatusCode::NotAcceptable406 => 406,
        StatusCode::ProxyAuthenticationRequired407 => 407,
        StatusCode::RequestTimeout408 => 408,
        StatusCode::Conflict409 => 409,
        StatusCode::Gone410 => 410,
        StatusCode::LengthRequired411 => 411,
        StatusCode::PrecondiditionFailed412 => 412,
        StatusCode::PayloadTooLarge413 => 413,
        StatusCode::UriTooLong414 => 414,
        StatusCode::UnsupportedMediaType415 => 415,
        StatusCode::RangeNotSatisfiable416 => 416,
        StatusCode::ExpectationFailed417 => 417,
        StatusCode::MisdirectedRequest421 => 421,
        StatusCode::UnprocessableEntity422 => 422,
        StatusCode::Locked423 => 423,
        StatusCode::FailedDependency424 => 424,
        StatusCode::TooEarly425 => 425,
        StatusCode::UpgradeRequired426 => 426,
        StatusCode::PreconditionRequired428 => 428,
        StatusCode::TooManyRequests429 => 429,
        StatusCode::RequestHeaderFieldsTooLarge431 => 431,
        StatusCode::UnavailableForLegalReasons451 => 451,
        StatusCode::InternalServerError500 => 500,
        StatusCode::NotImplemented501 => 501,
        StatusCode::BadGateway502 => 502,
        StatusCode::ServiceUnavailable503 => 503,
        StatusCode::GatewayTimeout504 => 504,
        StatusCode::HttpVersionNotSupported505 => 505,
        StatusCode::VariantAlsoNegotiates506 => 506,
        StatusCode::InsufficientStorage507 => 507,
        StatusCode::LoopDetected508 => 508,
        StatusCode::NotExtended510 => 510,
        StatusCode::NetworkAuthenticationRequired511 => 511,
    }
}

/// The numbers that name a known status code: any other value is a parse
/// failure, not an "unknown code" variant.
pub open spec fn is_known_code(n: int) -> bool {
    ||| 100 <= n <= 103
    ||| 200 <= n <= 208
    ||| n == 226
    ||| 300 <= n <= 305
    ||| n == 307
    ||| n == 308
    ||| 400 <= n <= 417
    ||| 421 <= n <= 426
    ||| n == 428
    ||| n == 429
    ||| n == 431
    ||| n == 451
    ||| 500 <= n <= 508
    ||| n == 510
    ||| n == 511
}

/// The code and reason phrase as the first line of a response would carry
/// them.
pub open spec fn spec_status_text(c: StatusCode) -> Seq<char> {
    match c {
        StatusCode::Continue100 => "100 Continue"@,
        StatusCode::SwitchingProtocols101 => "101 Switching Protocols"@,
        StatusCode::Processing102 => "102 Processing"@,
        StatusCode::EarlyHints103 => "103 Early Hints"@,
        StatusCode::Ok200 => "200 OK"@,
        StatusCode::Created201 => "201 Created"@,
        StatusCode::Accepted202 => "202 Accepted"@,
        StatusCode::NonAuthoritativeInformation203 => "203 Non-Authoritative Information"@,
        StatusCode::NoContent204 => "204 No Content"@,
        StatusCode::ResetContent205 => "205 Reset Content"@,
        StatusCode::PartialContent206 => "206 Partial Content"@,
        StatusCode::MultiStatus207 => "207 Multi-Status"@,
        StatusCode::AlreadyReported208 => "208 Already Reported"@,
        StatusCode::ImUsed226 => "226 IM Used"@,
        StatusCode::MultipleChoices300 => "300 Multiple Choices"@,
        StatusCode::MovedPermanently301 => "301 Moved Permanently"@,
        StatusCode::Found302 => "302 Found"@,
        StatusCode::SeeOther303 => "303 See Other"@,
        StatusCode::NotModified304 => "304 Not Modified"@,
        StatusCode::UseProxy305 => "305 Use Proxy"@,
        StatusCode::TemporaryRedirect307 => "307 Temporary Redirect"@,
        StatusCode::PermanentRedirect308 => "308 Permanent Redirect"@,
        StatusCode::BadRequest400 => "400 Bad Request"@,
        StatusCode::Unauthorized401 => "401 Unauthorized"@,
        StatusCode::PaymentRequired402 => "402 Payment Required"@,
        StatusCode::Forbidden403 => "403 Forbidden"@,
        StatusCode::NotFound404 => "404 Not Found"@,
        StatusCode::MethodNotAllowed405 => "405 Method Not Allowed"@,
        StatusCode::NotAcceptable406 => "406 Not Acceptable"@,
        StatusCode::ProxyAuthenticationRequired407 => "407 Proxy Authentication Required"@,
        StatusCode::RequestTimeout408 => "408 Request Timeout"@,
        StatusCode::Conflict409 => "409 Conflict"@,
        StatusCode::Gone410 => "410 Gone"@,
        StatusCode::LengthRequired411 => "411 Length Required"@,
        StatusCode::PrecondiditionFailed412 => "412 Precondition Failed"@,
        StatusCode::PayloadTooLarge413 => "413 Payload Too Large"@,
        StatusCode::UriTooLong414 => "414 URI Too Long"@,
        StatusCode::UnsupportedMediaType415 => "415 Unsupported Media Type"@,
        StatusCode::RangeNotSatisfiable416 => "416 Range Not Satisfiable"@,
        StatusCode::ExpectationFailed417 => "417 Expectation Failed"@,
        StatusCode::MisdirectedRequest421 => "421 Misdirected Request"@,
        StatusCode::UnprocessableEntity422 => "422 Unprocessable Entity"@,
        StatusCode::Locked423 => "423 Locked"@,
        StatusCode::FailedDependency424 => "424 Failed Dependency"@,
        StatusCode::TooEarly425 => "425 Too Early"@,
        StatusCode::UpgradeRequired426 => "426 Upgrade Required"@,
        StatusCode::PreconditionRequired428 => "428 Precondition Required"@,
        StatusCode::TooManyRequests429 => "429 Too Many Requests"@,
        StatusCode::RequestHeaderFieldsTooLarge431 => "431 Request Header Fields Too Large"@,
        StatusCode::UnavailableForLegalReasons451 => "451 Unavailable For Legal Reasons"@,
        StatusCode::InternalServerError500 => "500 Internal Server Error"@,
        StatusCode::NotImplemented501 => "501 Not Implemented"@,
        StatusCode::BadGateway502 => "502 Bad Gateway"@,
        StatusCode::ServiceUnavailable503 => "503 Service Unavailable"@,
        StatusCode::GatewayTimeout504 => "504 Gateway Timeout"@,
        StatusCode::HttpVersionNotSupported505 => "505 HTTP Version Not Supported"@,
        StatusCode::VariantAlsoNegotiates506 => "506 Variant Also Negotiates"@,
        StatusCode::InsufficientStorage507 => "507 Insufficient Storage"@,
        StatusCode::LoopDetected508 => "508 Loop Detected"@,
        StatusCode::NotExtended510 => "510 Not Extended"@,
        StatusCode::NetworkAuthenticationRequired511 => "511 Network Authentication Required"@,
    }
}

impl StatusCode {
    /// The status code named by a number, for exactly the numbers of the
    /// known set; any other number gets the one fixed error message.
    pub fn try_from(status_code: u16) -> (r: Result<StatusCode, &'static str>)
        ensures
            r is Ok <==> is_known_code(status_code as int),
            r is Ok ==> spec_code_of(r.unwrap()) == status_code,
            r is Err ==> r.unwrap_err()@ == "Unknown status code"@,
    {
        match status_code {
            100 => Ok(StatusCode::Continue100),
            101 => Ok(StatusCode::SwitchingProtocols101),
            102 => Ok(StatusCode::Processing102),
            103 => Ok(StatusCode::EarlyHints103),
            200 => Ok(StatusCode::Ok200),
            201 => Ok(StatusCode::Created201),
            202 => Ok(StatusCode::Accepted202),
            203 => Ok(StatusCode::NonAuthoritativeInformation203),
            204 => Ok(StatusCode::NoContent204),
            205 => Ok(StatusCode::ResetContent205),
            206 => Ok(StatusCode::PartialContent206),
            207 => Ok(StatusCode::MultiStatus207),
            208 => Ok(StatusCode::AlreadyReported208),
            226 => Ok(StatusCode::ImUsed226),
            300 => Ok(StatusCode::MultipleChoices300),
            301 => Ok(StatusCode::MovedPermanently301),
            302 => Ok(StatusCode::Found302),
            303 => Ok(StatusCode::SeeOther303),
            304 => Ok(StatusCode::NotModified304),
            305 => Ok(StatusCode::UseProxy305),
            307 => Ok(StatusCode::TemporaryRedirect307),
            308 => Ok(StatusCode::PermanentRedirect308),
            400 => Ok(StatusCode::BadRequest400),
            401 => Ok(StatusCode::Unauthorized401),
            402 => Ok(StatusCode::PaymentRequired402),
            403 => Ok(StatusCode::Forbidden403),
            404 => Ok(StatusCode::NotFound404),
            405 => Ok(StatusCode::MethodNotAllowed405),
            406 => Ok(StatusCode::NotAcceptable406),
            407 => Ok(StatusCode::ProxyAuthenticationRequired407),
            408 => Ok(StatusCode::RequestTimeout408),
            409 => Ok(StatusCode::Conflict409),
            410 => Ok(StatusCode::Gone410),
            411 => Ok(StatusCode::LengthRequired411),
            412 => Ok(StatusCode::PrecondiditionFailed412),
            413 => Ok(StatusCode::PayloadTooLarge413),
            414 => Ok(StatusCode::UriTooLong414),
            415 => Ok(StatusCode::UnsupportedMediaType415),
            416 => Ok(StatusCode::RangeNotSatisfiable416),
            417 => Ok(StatusCode::ExpectationFailed417),
            421 => Ok(StatusCode::MisdirectedRequest421),
            422 => Ok(StatusCode::UnprocessableEntity422),
            423 => Ok(StatusCode::Locked423),
            424 => Ok(StatusCode::FailedDependency424),
            425 => Ok(StatusCode::TooEarly425),
            426 => Ok(StatusCode::UpgradeRequired426),
            428 => Ok(StatusCode::PreconditionRequired428),
            429 => Ok(StatusCode::TooManyRequests429),
            431 => Ok(StatusCode::RequestHeaderFieldsTooLarge431),
            451 => Ok(StatusCode::UnavailableForLegalReasons451),
            500 => Ok(StatusCode::InternalServerError500),
            501 => Ok(StatusCode::NotImplemented501),
            502 => Ok(StatusCode::BadGateway502),
            503 => Ok(StatusCode::ServiceUnavailable503),
            504 => Ok(StatusCode::GatewayTimeout504),
            505 => Ok(StatusCode::HttpVersionNotSupported505),
            506 => Ok(StatusCode::VariantAlsoNegotiates506),
            507 => Ok(StatusCode::InsufficientStorage507),
            508 => Ok(StatusCode::LoopDetected508),
            510 => Ok(StatusCode::NotExtended510),
            511 => Ok(StatusCode::NetworkAuthenticationRequired511),
            _ => Err("Unknown status code"),
        }
    }

    /// Whether the code reports success: true exactly for the 2xx range.
    pub fn is_success(&self) -> (r: bool)
        ensures
            r == (200 <= spec_code_of(*self) <= 299),
    {
        match self {
            StatusCode::Ok200 => true,
            StatusCode::Created201 => true,
            StatusCode::Accepted202 => true,
            StatusCode::NonAuthoritativeInformation203 => true,
            StatusCode::NoContent204 => true,
            StatusCode::ResetContent205 => true,
            StatusCode::PartialContent206 => true,
            StatusCode::MultiStatus207 => true,
            StatusCode::AlreadyReported208 => true,
            StatusCode::ImUsed226 => true,
            _ => false,
        }
    }

    /// The code and reason phrase, in the form the status line carries.
    pub fn as_str(&self) -> (r: &'static str)
        ensures
            r@ == spec_status_text(*self),
    {
        match self {
            StatusCode::Continue100 => "100 Continue",
            StatusCode::SwitchingProtocols101 => "101 Switching Protocols",
            StatusCode::Processing102 => "102 Processing",
            StatusCode::EarlyHints103 => "103 Early Hints",
            StatusCode::Ok200 => "200 OK",
            StatusCode::Created201 => "201 Created",
            StatusCode::Accepted202 => "202 Accepted",
            StatusCode::NonAuthoritativeInformation203 => "203 Non-Authoritative Information",
            StatusCode::NoContent204 => "204 No Content",
            StatusCode::ResetContent205 => "205 Reset Content",
            StatusCode::PartialContent206 => "206 Partial Content",
            StatusCode::MultiStatus207 => "207 Multi-Status",
            StatusCode::AlreadyReported208 => "208 Already Reported",
            StatusCode::ImUsed226 => "226 IM Used",
            StatusCode::MultipleChoices300 => "300 Multiple Choices",
            StatusCode::MovedPermanently301 => "301 Moved Permanently",
            StatusCode::Found302 => "302 Found",
            StatusCode::SeeOther303 => "303 See Other",
            StatusCode::NotModified304 => "304 Not Modified",
            StatusCode::UseProxy305 => "305 Use Proxy",
            StatusCode::TemporaryRedirect307 => "307 Temporary Redirect",
            StatusCode::PermanentRedirect308 => "308 Permanent Redirect",
            StatusCode::BadRequest400 => "400 Bad Request",
            StatusCode::Unauthorized401 => "401 Unauthorized",
            StatusCode::PaymentRequired402 => "402 Payment Required",
            StatusCode::Forbidden403 => "403 Forbidden",
            StatusCode::NotFound404 => "404 Not Found",
            StatusCode::MethodNotAllowed405 => "405 Method Not Allowed",
            StatusCode::NotAcceptable406 => "406 Not Acceptable",
            StatusCode::ProxyAuthenticationRequired407 => "407 Proxy Authentication Required",
            StatusCode::RequestTimeout408 => "408 Request Timeout",
            StatusCode::Conflict409 => "409 Conflict",
            StatusCode::Gone410 => "410 Gone",
            StatusCode::LengthRequired411 => "411 Length Required",
            StatusCode::PrecondiditionFailed412 => "412 Precondition Failed",
            StatusCode::PayloadTooLarge413 => "413 Payload Too Large",
            StatusCode::UriTooLong414 => "414 URI Too Long",
            StatusCode::UnsupportedMediaType415 => "415 Unsupported Media Type",
            StatusCode::RangeNotSatisfiable416 => "416 Range Not Satisfiable",
            StatusCode::ExpectationFailed417 => "417 Expectation Failed",
            StatusCode::MisdirectedRequest421 => "421 Misdirected Request",
            StatusCode::UnprocessableEntity422 => "422 Unprocessable Entity",
            StatusCode::Locked423 => "423 Locked",
            StatusCode::FailedDependency424 => "424 Failed Dependency",
            StatusCode::TooEarly425 => "425 Too Early",
            StatusCode::UpgradeRequired426 => "426 Upgrade Required",
            StatusCode::PreconditionRequired428 => "428 Precondition Required",
            StatusCode::TooManyRequests429 => "429 Too Many Requests",
            StatusCode::RequestHeaderFieldsTooLarge431 => "431 Request Header Fields Too Large",
            StatusCode::UnavailableForLegalReasons451 => "451 Unavailable For Legal Reasons",
            StatusCode::InternalServerError500 => "500 Internal Server Error",
            StatusCode::NotImplemented501 => "501 Not Implemented",
            StatusCode::BadGateway502 => "502 Bad Gateway",
            StatusCode::ServiceUnavailable503 => "503 Service Unavailable",
            StatusCode::GatewayTimeout504 => "504 Gateway Timeout",
            StatusCode::HttpVersionNotSupported505 => "505 HTTP Version Not Supported",
            StatusCode::VariantAlsoNegotiates506 => "506 Variant Also Negotiates",
            StatusCode::InsufficientStorage507 => "507 Insufficient Storage",
            StatusCode::LoopDetected508 => "508 Loop Detected",
            StatusCode::NotExtended510 => "510 Not Extended",
            StatusCode::NetworkAuthenticationRequired511 => "511 Network Authentication Required",
        }
    }
}

} // verus!

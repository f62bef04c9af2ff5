use vstd::prelude::*;

verus! {

/// The response statuses this server can send, one per standard HTTP status.
#[derive(Clone, Copy, Debug, PartialEq, Eq, Structural)]
pub enum HttpStatus {
    // Informational responses
    Continue,
    SwitchingProtocols,
    Processing,
    EarlyHints,

    // Success responses
    OK,
    Created,
    Accepted,
    NonAuthoritativeInfo,
    NoContent,
    ResetContent,
    PartialContent,
    MultiStatus,
    AlreadyReported,
    IMUsed,

    // Redirection messages
    MultipleChoices,
    MovedPermanently,
    Found,
    SeeOther,
    NotModified,
    UseProxy,
    TemporaryRedirect,
    PermanentRedirect,

    // Client error responses
    BadRequest,
    Unauthorized,
    PaymentRequired,
    Forbidden,
    NotFound,
    MethodNotAllowed,
    NotAcceptable,
    ProxyAuthRequired,
    RequestTimeout,
    Conflict,
    Gone,
    LengthRequired,
    PreconditionFailed,
    RequestEntityTooLarge,
    RequestURITooLong,
    UnsupportedMediaType,
    RequestedRangeNotSatisfiable,
    ExpectationFailed,
    Teapot,
    MisdirectedRequest,
    UnprocessableEntity,
    Locked,
    FailedDependency,
    TooEarly,
    UpgradeRequired,
    PreconditionRequired,
    TooManyRequests,
    RequestHeaderFieldsTooLarge,
    UnavailableForLegalReasons,

    // Server error responses
    InternalServerError,
    NotImplemented,
    BadGateway,
    ServiceUnavailable,
    GatewayTimeout,
    HTTPVersionNotSupported,
    VariantAlsoNegotiates,
    InsufficientStorage,
    LoopDetected,
    NotExtended,
    NetworkAuthenticationRequired,
}

/// The status line text `"<code> <reason>"` of each status, as it goes on the wire.
pub open spec fn status_text(s: HttpStatus) -> Seq<char> {
    match s {
        HttpStatus::Continue => "100 Continue"@,
        HttpStatus::SwitchingProtocols => "101 Switching Protocols"@,
        HttpStatus::Processing => "102 Processing"@,
        HttpStatus::EarlyHints => "103 Early Hints"@,
        HttpStatus::OK => "200 OK"@,
        HttpStatus::Created => "201 Created"@,
        HttpStatus::Accepted => "202 Accepted"@,
        HttpStatus::NonAuthoritativeInfo => "203 Non-Authoritative Information"@,
        HttpStatus::NoContent => "204 No Content"@,
        HttpStatus::ResetContent => "205 Reset Content"@,
        HttpStatus::PartialContent => "206 Partial Content"@,
        HttpStatus::MultiStatus => "207 Multi-Status"@,
        HttpStatus::AlreadyReported => "208 Already Reported"@,
        HttpStatus::IMUsed => "226 IM Used"@,
        HttpStatus::MultipleChoices => "300 Multiple Choices"@,
        HttpStatus::MovedPermanently => "301 Moved Permanently"@,
        HttpStatus::Found => "302 Found"@,
        HttpStatus::SeeOther => "303 See Other"@,
        HttpStatus::NotModified => "304 Not Modified"@,
        HttpStatus::UseProxy => "305 Use Proxy"@,
        HttpStatus::TemporaryRedirect => "307 Temporary Redirect"@,
        HttpStatus::PermanentRedirect => "308 Permanent Redirect"@,
        HttpStatus::BadRequest => "400 Bad Request"@,
        HttpStatus::Unauthorized => "401 Unauthorized"@,
        HttpStatus::PaymentRequired => "402 Payment Required"@,
        HttpStatus::Forbidden => "403 Forbidden"@,
        HttpStatus::NotFound => "404 Not Found"@,
        HttpStatus::MethodNotAllowed => "405 Method Not Allowed"@,
        HttpStatus::NotAcceptable => "406 Not Acceptable"@,
        HttpStatus::ProxyAuthRequired => "407 Proxy Authentication Required"@,
        HttpStatus::RequestTimeout => "408 Request Timeout"@,
        HttpStatus::Conflict => "409 Conflict"@,
        HttpStatus::Gone => "410 Gone"@,
        HttpStatus::LengthRequired => "411 Length Required"@,
        HttpStatus::PreconditionFailed => "412 Precondition Failed"@,
        HttpStatus::RequestEntityTooLarge => "413 Request Entity Too Large"@,
        HttpStatus::RequestURITooLong => "414 Request-URI Too Long"@,
        HttpStatus::UnsupportedMediaType => "415 Unsupported Media Type"@,
        HttpStatus::RequestedRangeNotSatisfiable => "416 Requested Range Not Satisfiable"@,
        HttpStatus::ExpectationFailed => "417 Expectation Failed"@,
        HttpStatus::Teapot => "418 I'm a teapot"@,
        HttpStatus::MisdirectedRequest => "421 Misdirected Request"@,
        HttpStatus::UnprocessableEntity => "422 Unprocessable Entity"@,
        HttpStatus::Locked => "423 Locked"@,
        HttpStatus::FailedDependency => "424 Failed Dependency"@,
        HttpStatus::TooEarly => "425 Too Early"@,
        HttpStatus::UpgradeRequired => "426 Upgrade Required"@,
        HttpStatus::PreconditionRequired => "428 Precondition Required"@,
        HttpStatus::TooManyRequests => "429 Too Many Requests"@,
        HttpStatus::RequestHeaderFieldsTooLarge => "431 Request Header Fields Too Large"@,
        HttpStatus::UnavailableForLegalReasons => "451 Unavailable For Legal Reasons"@,
        HttpStatus::InternalServerError => "500 Internal Server Error"@,
        HttpStatus::NotImplemented => "501 Not Implemented"@,
        HttpStatus::BadGateway => "502 Bad Gateway"@,
        HttpStatus::ServiceUnavailable => "503 Service Unavailable"@,
        HttpStatus::GatewayTimeout => "504 Gateway Timeout"@,
        HttpStatus::HTTPVersionNotSupported => "505 HTTP Version Not Supported"@,
        HttpStatus::VariantAlsoNegotiates => "506 Variant Also Negotiates"@,
        HttpStatus::InsufficientStorage => "507 Insufficient Storage"@,
        HttpStatus::LoopDetected => "508 Loop Detected"@,
        HttpStatus::NotExtended => "510 Not Extended"@,
        HttpStatus::NetworkAuthenticationRequired => "511 Network Authentication Required"@,
    }
}

/// The numeric code of each status.
pub open spec fn code_of(s: HttpStatus) -> u16 {
    match s {
        HttpStatus::Continue => 100,
        HttpStatus::SwitchingProtocols => 101,
        HttpStatus::Processing => 102,
        HttpStatus::EarlyHints => 103,
        HttpStatus::OK => 200,
        HttpStatus::Created => 201,
        HttpStatus::Accepted => 202,
        HttpStatus::NonAuthoritativeInfo => 203,
        HttpStatus::NoContent => 204,
        HttpStatus::ResetContent => 205,
        HttpStatus::PartialContent => 206,
        HttpStatus::MultiStatus => 207,
        HttpStatus::AlreadyReported => 208,
        HttpStatus::IMUsed => 226,
        HttpStatus::MultipleChoices => 300,
        HttpStatus::MovedPermanently => 301,
        HttpStatus::Found => 302,
        HttpStatus::SeeOther => 303,
        HttpStatus::NotModified => 304,
        HttpStatus::UseProxy => 305,
        HttpStatus::TemporaryRedirect => 307,
        HttpStatus::PermanentRedirect => 308,
        HttpStatus::BadRequest => 400,
        HttpStatus::Unauthorized => 401,
        HttpStatus::PaymentRequired => 402,
        HttpStatus::Forbidden => 403,
        HttpStatus::NotFound => 404,
        HttpStatus::MethodNotAllowed => 405,
        HttpStatus::NotAcceptable => 406,
        HttpStatus::ProxyAuthRequired => 407,
        HttpStatus::RequestTimeout => 408,
        HttpStatus::Conflict => 409,
        HttpStatus::Gone => 410,
        HttpStatus::LengthRequired => 411,
        HttpStatus::PreconditionFailed => 412,
        HttpStatus::RequestEntityTooLarge => 413,
        HttpStatus::RequestURITooLong => 414,
        HttpStatus::UnsupportedMediaType => 415,
        HttpStatus::RequestedRangeNotSatisfiable => 416,
        HttpStatus::ExpectationFailed => 417,
        HttpStatus::Teapot => 418,
        HttpStatus::MisdirectedRequest => 421,
        HttpStatus::UnprocessableEntity => 422,
        HttpStatus::Locked => 423,
        HttpStatus::FailedDependency => 424,
        HttpStatus::TooEarly => 425,
        HttpStatus::UpgradeRequired => 426,
        HttpStatus::PreconditionRequired => 428,
        HttpStatus::TooManyRequests => 429,
        HttpStatus::RequestHeaderFieldsTooLarge => 431,
        HttpStatus::UnavailableForLegalReasons => 451,
        HttpStatus::InternalServerError => 500,
        HttpStatus::NotImplemented => 501,
        HttpStatus::BadGateway => 502,
        HttpStatus::ServiceUnavailable => 503,
        HttpStatus::GatewayTimeout => 504,
        HttpStatus::HTTPVersionNotSupported => 505,
        HttpStatus::VariantAlsoNegotiates => 506,
        HttpStatus::InsufficientStorage => 507,
        HttpStatus::LoopDetected => 508,
        HttpStatus::NotExtended => 510,
        HttpStatus::NetworkAuthenticationRequired => 511,
    }
}

/// The status that carries a numeric code, if any does.
pub open spec fn status_of_code(c: u16) -> Option<HttpStatus> {
    match c {
        100 => Some(HttpStatus::Continue),
        101 => Some(HttpStatus::SwitchingProtocols),
        102 => Some(HttpStatus::Processing),
        103 => Some(HttpStatus::EarlyHints),
        200 => Some(HttpStatus::OK),
        201 => Some(HttpStatus::Created),
        202 => Some(HttpStatus::Accepted),
        203 => Some(HttpStatus::NonAuthoritativeInfo),
        204 => Some(HttpStatus::NoContent),
        205 => Some(HttpStatus::ResetContent),
        206 => Some(HttpStatus::PartialContent),
        207 => Some(HttpStatus::MultiStatus),
        208 => Some(HttpStatus::AlreadyReported),
        226 => Some(HttpStatus::IMUsed),
        300 => Some(HttpStatus::MultipleChoices),
        301 => Some(HttpStatus::MovedPermanently),
        302 => Some(HttpStatus::Found),
        303 => Some(HttpStatus::SeeOther),
        304 => Some(HttpStatus::NotModified),
        305 => Some(HttpStatus::UseProxy),
        307 => Some(HttpStatus::TemporaryRedirect),
        308 => Some(HttpStatus::PermanentRedirect),
        400 => Some(HttpStatus::BadRequest),
        401 => Some(HttpStatus::Unauthorized),
        402 => Some(HttpStatus::PaymentRequired),
        403 => Some(HttpStatus::Forbidden),
        404 => Some(HttpStatus::NotFound),
        405 => Some(HttpStatus::MethodNotAllowed),
        406 => Some(HttpStatus::NotAcceptable),
        407 => Some(HttpStatus::ProxyAuthRequired),
        408 => Some(HttpStatus::RequestTimeout),
        409 => Some(HttpStatus::Conflict),
        410 => Some(HttpStatus::Gone),
        411 => Some(HttpStatus::LengthRequired),
        412 => Some(HttpStatus::PreconditionFailed),
        413 => Some(HttpStatus::RequestEntityTooLarge),
        414 => Some(HttpStatus::RequestURITooLong),
        415 => Some(HttpStatus::UnsupportedMediaType),
        416 => Some(HttpStatus::RequestedRangeNotSatisfiable),
        417 => Some(HttpStatus::ExpectationFailed),
        418 => Some(HttpStatus::Teapot),
        421 => Some(HttpStatus::MisdirectedRequest),
        422 => Some(HttpStatus::UnprocessableEntity),
        423 => Some(HttpStatus::Locked),
        424 => Some(HttpStatus::FailedDependency),
        425 => Some(HttpStatus::TooEarly),
        426 => Some(HttpStatus::UpgradeRequired),
        428 => Some(HttpStatus::PreconditionRequired),
        429 => Some(HttpStatus::TooManyRequests),
        431 => Some(HttpStatus::RequestHeaderFieldsTooLarge),
        451 => Some(HttpStatus::UnavailableForLegalReasons),
        500 => Some(HttpStatus::InternalServerError),
        501 => Some(HttpStatus::NotImplemented),
        502 => Some(HttpStatus::BadGateway),
        503 => Some(HttpStatus::ServiceUnavailable),
        504 => Some(HttpStatus::GatewayTimeout),
        505 => Some(HttpStatus::HTTPVersionNotSupported),
        506 => Some(HttpStatus::VariantAlsoNegotiates),
        507 => Some(HttpStatus::InsufficientStorage),
        508 => Some(HttpStatus::LoopDetected),
        510 => Some(HttpStatus::NotExtended),
        511 => Some(HttpStatus::NetworkAuthenticationRequired),
        _ => None,
    }
}

/// The value of an ASCII decimal digit character.
pub open spec fn digit_value(c: char) -> Option<u16> {
    if '0' <= c && c <= '9' {
        Some((c as u32 - '0' as u32) as u16)
    } else {
        None
    }
}

/// The three-digit decimal code that begins a status line text, if it begins with one.
pub open spec fn code_prefix(t: Seq<char>) -> Option<u16> {
    if t.len() >= 3 && digit_value(t[0]) is Some && digit_value(t[1]) is Some
        && digit_value(t[2]) is Some {
        Some((digit_value(t[0])->0 * 100 + digit_value(t[1])->0 * 10 + digit_value(t[2])->0) as u16)
    } else {
        None
    }
}

/// The status named by the numeric prefix of a status line text.
pub open spec fn status_of_text(t: Seq<char>) -> Option<HttpStatus> {
    match code_prefix(t) {
        Some(c) => status_of_code(c),
        None => None,
    }
}

impl HttpStatus {
    /// The status line text, `"<code> <reason>"`.
    pub fn to_string(&self) -> (r: &'static str)
        ensures
            r@ == status_text(*self),
    {
        match self {

            HttpStatus::Continue => "100 Continue",
            HttpStatus::SwitchingProtocols => "101 Switching Protocols",
            HttpStatus::Processing => "102 Processing",
            HttpStatus::EarlyHints => "103 Early Hints",
            HttpStatus::OK => "200 OK",
            HttpStatus::Created => "201 Created",
            HttpStatus::Accepted => "202 Accepted",
            HttpStatus::NonAuthoritativeInfo => "203 Non-Authoritative Information",
            HttpStatus::NoContent => "204 No Content",
            HttpStatus::ResetContent => "205 Reset Content",
            HttpStatus::PartialContent => "206 Partial Content",
            HttpStatus::MultiStatus => "207 Multi-Status",
            HttpStatus::AlreadyReported => "208 Already Reported",
            HttpStatus::IMUsed => "226 IM Used",
            HttpStatus::MultipleChoices => "300 Multiple Choices",
            HttpStatus::MovedPermanently => "301 Moved Permanently",
            HttpStatus::Found => "302 Found",
            HttpStatus::SeeOther => "303 See Other",
            HttpStatus::NotModified => "304 Not Modified",
            HttpStatus::UseProxy => "305 Use Proxy",
            HttpStatus::TemporaryRedirect => "307 Temporary Redirect",
            HttpStatus::PermanentRedirect => "308 Permanent Redirect",
            HttpStatus::BadRequest => "400 Bad Request",
            HttpStatus::Unauthorized => "401 Unauthorized",
            HttpStatus::PaymentRequired => "402 Payment Required",
            HttpStatus::Forbidden => "403 Forbidden",
            HttpStatus::NotFound => "404 Not Found",
            HttpStatus::MethodNotAllowed => "405 Method Not Allowed",
            HttpStatus::NotAcceptable => "406 Not Acceptable",
            HttpStatus::ProxyAuthRequired => "407 Proxy Authentication Required",
            HttpStatus::RequestTimeout => "408 Request Timeout",
            HttpStatus::Conflict => "409 Conflict",
            HttpStatus::Gone => "410 Gone",
            HttpStatus::LengthRequired => "411 Length Required",
            HttpStatus::PreconditionFailed => "412 Precondition Failed",
            HttpStatus::RequestEntityTooLarge => "413 Request Entity Too Large",
            HttpStatus::RequestURITooLong => "414 Request-URI Too Long",
            HttpStatus::UnsupportedMediaType => "415 Unsupported Media Type",
            HttpStatus::RequestedRangeNotSatisfiable => "416 Requested Range Not Satisfiable",
            HttpStatus::ExpectationFailed => "417 Expectation Failed",
            HttpStatus::Teapot => "418 I'm a teapot",
            HttpStatus::MisdirectedRequest => "421 Misdirected Request",
            HttpStatus::UnprocessableEntity => "422 Unprocessable Entity",
            HttpStatus::Locked => "423 Locked",
            HttpStatus::FailedDependency => "424 Failed Dependency",
            HttpStatus::TooEarly => "425 Too Early",
            HttpStatus::UpgradeRequired => "426 Upgrade Required",
            HttpStatus::PreconditionRequired => "428 Precondition Required",
            HttpStatus::TooManyRequests => "429 Too Many Requests",
            HttpStatus::RequestHeaderFieldsTooLarge => "431 Request Header Fields Too Large",
            HttpStatus::UnavailableForLegalReasons => "451 Unavailable For Legal Reasons",
            HttpStatus::InternalServerError => "500 Internal Server Error",
            HttpStatus::NotImplemented => "501 Not Implemented",
            HttpStatus::BadGateway => "502 Bad Gateway",
            HttpStatus::ServiceUnavailable => "503 Service Unavailable",
            HttpStatus::GatewayTimeout => "504 Gateway Timeout",
            HttpStatus::HTTPVersionNotSupported => "505 HTTP Version Not Supported",
            HttpStatus::VariantAlsoNegotiates => "506 Variant Also Negotiates",
            HttpStatus::InsufficientStorage => "507 Insufficient Storage",
            HttpStatus::LoopDetected => "508 Loop Detected",
            HttpStatus::NotExtended => "510 Not Extended",
            HttpStatus::NetworkAuthenticationRequired => "511 Network Authentication Required",
        }
    }

    /// The numeric code.
    pub fn code(&self) -> (r: u16)
        ensures
            r == code_of(*self),
    {
        match self {
            HttpStatus::Continue => 100,
            HttpStatus::SwitchingProtocols => 101,
            HttpStatus::Processing => 102,
            HttpStatus::EarlyHints => 103,
            HttpStatus::OK => 200,
            HttpStatus::Created => 201,
            HttpStatus::Accepted => 202,
            HttpStatus::NonAuthoritativeInfo => 203,
            HttpStatus::NoContent => 204,
            HttpStatus::ResetContent => 205,
            HttpStatus::PartialContent => 206,
            HttpStatus::MultiStatus => 207,
            HttpStatus::AlreadyReported => 208,
            HttpStatus::IMUsed => 226,
            HttpStatus::MultipleChoices => 300,
            HttpStatus::MovedPermanently => 301,
            HttpStatus::Found => 302,
            HttpStatus::SeeOther => 303,
            HttpStatus::NotModified => 304,
            HttpStatus::UseProxy => 305,
            HttpStatus::TemporaryRedirect => 307,
            HttpStatus::PermanentRedirect => 308,
            HttpStatus::BadRequest => 400,
            HttpStatus::Unauthorized => 401,
            HttpStatus::PaymentRequired => 402,
            HttpStatus::Forbidden => 403,
            HttpStatus::NotFound => 404,
            HttpStatus::MethodNotAllowed => 405,
            HttpStatus::NotAcceptable => 406,
            HttpStatus::ProxyAuthRequired => 407,
            HttpStatus::RequestTimeout => 408,
            HttpStatus::Conflict => 409,
            HttpStatus::Gone => 410,
            HttpStatus::LengthRequired => 411,
            HttpStatus::PreconditionFailed => 412,
            HttpStatus::RequestEntityTooLarge => 413,
            HttpStatus::RequestURITooLong => 414,
            HttpStatus::UnsupportedMediaType => 415,
            HttpStatus::RequestedRangeNotSatisfiable => 416,
            HttpStatus::ExpectationFailed => 417,
            HttpStatus::Teapot => 418,
            HttpStatus::MisdirectedRequest => 421,
            HttpStatus::UnprocessableEntity => 422,
            HttpStatus::Locked => 423,
            HttpStatus::FailedDependency => 424,
            HttpStatus::TooEarly => 425,
            HttpStatus::UpgradeRequired => 426,
            HttpStatus::PreconditionRequired => 428,
            HttpStatus::TooManyRequests => 429,
            HttpStatus::RequestHeaderFieldsTooLarge => 431,
            HttpStatus::UnavailableForLegalReasons => 451,
            HttpStatus::InternalServerError => 500,
            HttpStatus::NotImplemented => 501,
            HttpStatus::BadGateway => 502,
            HttpStatus::ServiceUnavailable => 503,
            HttpStatus::GatewayTimeout => 504,
            HttpStatus::HTTPVersionNotSupported => 505,
            HttpStatus::VariantAlsoNegotiates => 506,
            HttpStatus::InsufficientStorage => 507,
            HttpStatus::LoopDetected => 508,
            HttpStatus::NotExtended => 510,
            HttpStatus::NetworkAuthenticationRequired => 511,
        }
    }

    /// The status with the numeric code `c`, if there is one.
    pub fn from_code(c: u16) -> (r: Option<HttpStatus>)
        ensures
            r == status_of_code(c),
    {
        match c {
            100 => Some(HttpStatus::Continue),
            101 => Some(HttpStatus::SwitchingProtocols),
            102 => Some(HttpStatus::Processing),
            103 => Some(HttpStatus::EarlyHints),
            200 => Some(HttpStatus::OK),
            201 => Some(HttpStatus::Created),
            202 => Some(HttpStatus::Accepted),
            203 => Some(HttpStatus::NonAuthoritativeInfo),
            204 => Some(HttpStatus::NoContent),
            205 => Some(HttpStatus::ResetContent),
            206 => Some(HttpStatus::PartialContent),
            207 => Some(HttpStatus::MultiStatus),
            208 => Some(HttpStatus::AlreadyReported),
            226 => Some(HttpStatus::IMUsed),
            300 => Some(HttpStatus::MultipleChoices),
            301 => Some(HttpStatus::MovedPermanently),
            302 => Some(HttpStatus::Found),
            303 => Some(HttpStatus::SeeOther),
            304 => Some(HttpStatus::NotModified),
            305 => Some(HttpStatus::UseProxy),
            307 => Some(HttpStatus::TemporaryRedirect),
            308 => Some(HttpStatus::PermanentRedirect),
            400 => Some(HttpStatus::BadRequest),
            401 => Some(HttpStatus::Unauthorized),
            402 => Some(HttpStatus::PaymentRequired),
            403 => Some(HttpStatus::Forbidden),
            404 => Some(HttpStatus::NotFound),
            405 => Some(HttpStatus::MethodNotAllowed),
            406 => Some(HttpStatus::NotAcceptable),
            407 => Some(HttpStatus::ProxyAuthRequired),
            408 => Some(HttpStatus::RequestTimeout),
            409 => Some(HttpStatus::Conflict),
            410 => Some(HttpStatus::Gone),
            411 => Some(HttpStatus::LengthRequired),
            412 => Some(HttpStatus::PreconditionFailed),
            413 => Some(HttpStatus::RequestEntityTooLarge),
            414 => Some(HttpStatus::RequestURITooLong),
            415 => Some(HttpStatus::UnsupportedMediaType),
            416 => Some(HttpStatus::RequestedRangeNotSatisfiable),
            417 => Some(HttpStatus::ExpectationFailed),
            418 => Some(HttpStatus::Teapot),
            421 => Some(HttpStatus::MisdirectedRequest),
            422 => Some(HttpStatus::UnprocessableEntity),
            423 => Some(HttpStatus::Locked),
            424 => Some(HttpStatus::FailedDependency),
            425 => Some(HttpStatus::TooEarly),
            426 => Some(HttpStatus::UpgradeRequired),
            428 => Some(HttpStatus::PreconditionRequired),
            429 => Some(HttpStatus::TooManyRequests),
            431 => Some(HttpStatus::RequestHeaderFieldsTooLarge),
            451 => Some(HttpStatus::UnavailableForLegalReasons),
            500 => Some(HttpStatus::InternalServerError),
            501 => Some(HttpStatus::NotImplemented),
            502 => Some(HttpStatus::BadGateway),
            503 => Some(HttpStatus::ServiceUnavailable),
            504 => Some(HttpStatus::GatewayTimeout),
            505 => Some(HttpStatus::HTTPVersionNotSupported),
            506 => Some(HttpStatus::VariantAlsoNegotiates),
            507 => Some(HttpStatus::InsufficientStorage),
            508 => Some(HttpStatus::LoopDetected),
            510 => Some(HttpStatus::NotExtended),
            511 => Some(HttpStatus::NetworkAuthenticationRequired),
            _ => None,
        }
    }


    /// The status named by the three-digit code at the start of a status line text.
    pub fn from_status_text(t: &str) -> (r: Option<HttpStatus>)
        ensures
            r == status_of_text(t@),
    {
        if t.unicode_len() < 3 {
            return None;
        }
        let mut code: u16 = 0;
        let mut i: usize = 0;
        while i < 3
            invariant
                i <= 3,
                t@.len() >= 3,
                forall|j: int| 0 <= j < i ==> digit_value(#[trigger] t@[j]) is Some,
                code == (if i == 0 { 0 } else if i == 1 { digit_value(t@[0])->0 as int }
                    else if i == 2 { digit_value(t@[0])->0 * 10 + digit_value(t@[1])->0 }
                    else { digit_value(t@[0])->0 * 100 + digit_value(t@[1])->0 * 10
                        + digit_value(t@[2])->0 }),
            decreases 3 - i,
        {
            let c = t.get_char(i);
            if c < '0' || c > '9' {
                return None;
            }
            code = code * 10 + (c as u32 - '0' as u32) as u16;
            i = i + 1;
        }
        HttpStatus::from_code(code)
    }
}

/// Every status has a status line text made of its three-digit code, a space and a non-empty
/// reason phrase; reading the numeric prefix of that text back gives the same status.
pub proof fn lemma_status_round_trip(s: HttpStatus)
    ensures
        status_text(s).len() > 4,
        status_text(s)[3] == ' ',
        100 <= code_of(s) <= 599,
        code_prefix(status_text(s)) == Some(code_of(s)),
        status_of_code(code_of(s)) == Some(s),
        status_of_text(status_text(s)) == Some(s),
{
    match s {

        HttpStatus::Continue => reveal_strlit("100 Continue"),
        HttpStatus::SwitchingProtocols => reveal_strlit("101 Switching Protocols"),
        HttpStatus::Processing => reveal_strlit("102 Processing"),
        HttpStatus::EarlyHints => reveal_strlit("103 Early Hints"),
        HttpStatus::OK => reveal_strlit("200 OK"),
        HttpStatus::Created => reveal_strlit("201 Created"),
        HttpStatus::Accepted => reveal_strlit("202 Accepted"),
        HttpStatus::NonAuthoritativeInfo => reveal_strlit("203 Non-Authoritative Information"),
        HttpStatus::NoContent => reveal_strlit("204 No Content"),
        HttpStatus::ResetContent => reveal_strlit("205 Reset Content"),
        HttpStatus::PartialContent => reveal_strlit("206 Partial Content"),
        HttpStatus::MultiStatus => reveal_strlit("207 Multi-Status"),
        HttpStatus::AlreadyReported => reveal_strlit("208 Already Reported"),
        HttpStatus::IMUsed => reveal_strlit("226 IM Used"),
        HttpStatus::MultipleChoices => reveal_strlit("300 Multiple Choices"),
        HttpStatus::MovedPermanently => reveal_strlit("301 Moved Permanently"),
        HttpStatus::Found => reveal_strlit("302 Found"),
        HttpStatus::SeeOther => reveal_strlit("303 See Other"),
        HttpStatus::NotModified => reveal_strlit("304 Not Modified"),
        HttpStatus::UseProxy => reveal_strlit("305 Use Proxy"),
        HttpStatus::TemporaryRedirect => reveal_strlit("307 Temporary Redirect"),
        HttpStatus::PermanentRedirect => reveal_strlit("308 Permanent Redirect"),
        HttpStatus::BadRequest => reveal_strlit("400 Bad Request"),
        HttpStatus::Unauthorized => reveal_strlit("401 Unauthorized"),
        HttpStatus::PaymentRequired => reveal_strlit("402 Payment Required"),
        HttpStatus::Forbidden => reveal_strlit("403 Forbidden"),
        HttpStatus::NotFound => reveal_strlit("404 Not Found"),
        HttpStatus::MethodNotAllowed => reveal_strlit("405 Method Not Allowed"),
        HttpStatus::NotAcceptable => reveal_strlit("406 Not Acceptable"),
        HttpStatus::ProxyAuthRequired => reveal_strlit("407 Proxy Authentication Required"),
        HttpStatus::RequestTimeout => reveal_strlit("408 Request Timeout"),
        HttpStatus::Conflict => reveal_strlit("409 Conflict"),
        HttpStatus::Gone => reveal_strlit("410 Gone"),
        HttpStatus::LengthRequired => reveal_strlit("411 Length Required"),
        HttpStatus::PreconditionFailed => reveal_strlit("412 Precondition Failed"),
        HttpStatus::RequestEntityTooLarge => reveal_strlit("413 Request Entity Too Large"),
        HttpStatus::RequestURITooLong => reveal_strlit("414 Request-URI Too Long"),
        HttpStatus::UnsupportedMediaType => reveal_strlit("415 Unsupported Media Type"),
        HttpStatus::RequestedRangeNotSatisfiable => reveal_strlit("416 Requested Range Not Satisfiable"),
        HttpStatus::ExpectationFailed => reveal_strlit("417 Expectation Failed"),
        HttpStatus::Teapot => reveal_strlit("418 I'm a teapot"),
        HttpStatus::MisdirectedRequest => reveal_strlit("421 Misdirected Request"),
        HttpStatus::UnprocessableEntity => reveal_strlit("422 Unprocessable Entity"),
        HttpStatus::Locked => reveal_strlit("423 Locked"),
        HttpStatus::FailedDependency => reveal_strlit("424 Failed Dependency"),
        HttpStatus::TooEarly => reveal_strlit("425 Too Early"),
        HttpStatus::UpgradeRequired => reveal_strlit("426 Upgrade Required"),
        HttpStatus::PreconditionRequired => reveal_strlit("428 Precondition Required"),
        HttpStatus::TooManyRequests => reveal_strlit("429 Too Many Requests"),
        HttpStatus::RequestHeaderFieldsTooLarge => reveal_strlit("431 Request Header Fields Too Large"),
        HttpStatus::UnavailableForLegalReasons => reveal_strlit("451 Unavailable For Legal Reasons"),
        HttpStatus::InternalServerError => reveal_strlit("500 Internal Server Error"),
        HttpStatus::NotImplemented => reveal_strlit("501 Not Implemented"),
        HttpStatus::BadGateway => reveal_strlit("502 Bad Gateway"),
        HttpStatus::ServiceUnavailable => reveal_strlit("503 Service Unavailable"),
        HttpStatus::GatewayTimeout => reveal_strlit("504 Gateway Timeout"),
        HttpStatus::HTTPVersionNotSupported => reveal_strlit("505 HTTP Version Not Supported"),
        HttpStatus::VariantAlsoNegotiates => reveal_strlit("506 Variant Also Negotiates"),
        HttpStatus::InsufficientStorage => reveal_strlit("507 Insufficient Storage"),
        HttpStatus::LoopDetected => reveal_strlit("508 Loop Detected"),
        HttpStatus::NotExtended => reveal_strlit("510 Not Extended"),
        HttpStatus::NetworkAuthenticationRequired => reveal_strlit("511 Network Authentication Required"),
    }
}

/// No two statuses share a numeric code.
pub proof fn lemma_codes_unique(a: HttpStatus, b: HttpStatus)
    requires
        code_of(a) == code_of(b),
    ensures
        a == b,
{
    lemma_status_round_trip(a);
    lemma_status_round_trip(b);
}

} // verus!


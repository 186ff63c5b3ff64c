//! Response status codes: the registered codes of the protocol's registry,
//! a catch-all for unregistered values, and the five status classes.

use vstd::prelude::*;

verus! {

/// A response status code: one variant per registered code, and a catch-all
/// that carries any unregistered value.
#[derive(PartialEq, Eq, Structural, Debug, Clone, Copy)]
pub enum StatusCode {
    /// 100 Continue
    Continue,
    /// 101 Switching Protocols
    SwitchingProtocols,
    /// 102 Processing
    Processing,
    /// 200 OK
    Okay,
    /// 201 Created
    Created,
    /// 202 Accepted
    Accepted,
    /// 203 Non-Authoritative Information
    NonAuthoritativeInformation,
    /// 204 No Content
    NoContent,
    /// 205 Reset Content
    ResetContent,
    /// 206 Partial Content
    PartialContent,
    /// 207 Multi-Status
    MultiStatus,
    /// 208 Already Reported
    AlreadyReported,
    /// 226 IM Used
    ImUsed,
    /// 300 Multiple Choices
    MultipleChoices,
    /// 301 Moved Permanently
    MovedPermanently,
    /// 302 Found
    Found,
    /// 303 See Other
    SeeOther,
    /// 304 Not Modified
    NotModified,
    /// 305 Use Proxy
    UseProxy,
    /// 307 Temporary Redirect
    TemporaryRedirect,
    /// 308 Permanent Redirect
    PermanentRedirect,
    /// 400 Bad Request
    BadRequest,
    /// 401 Unauthorized
    Unauthorized,
    /// 402 Payment Required
    PaymentRequired,
    /// 403 Forbidden
    Forbidden,
    /// 404 Not Found
    NotFound,
    /// 405 Method Not Allowed
    MethodNotAllowed,
    /// 406 Not Acceptable
    NotAcceptable,
    /// 407 Proxy Authentication Required
    ProxyAuthenticationRequired,
    /// 408 Request Timeout
    RequestTimeout,
    /// 409 Conflict
    Conflict,
    /// 410 Gone
    Gone,
    /// 411 Length Required
    LengthRequired,
    /// 412 Precondition Failed
    PreconditionFailed,
    /// 413 Payload Too Large
    PayloadTooLarge,
    /// 414 URI Too Long
    UriTooLong,
    /// 415 Unsupported Media Type
    UnsupportedMediaType,
    /// 416 Range Not Satisfiable
    RangeNotSatisfiable,
    /// 417 Expectation Failed
    ExpectationFailed,
    /// 421 Misdirected Request
    MisdirectedRequest,
    /// 422 Unprocessable Entity
    UnprocessableEntity,
    /// 423 Locked
    Locked,
    /// 424 Failed Dependency
    FailedDependency,
    /// 426 Upgrade Required
    UpgradeRequired,
    /// 428 Precondition Required
    PreconditionRequired,
    /// 429 Too Many Requests
    TooManyRequests,
    /// 431 Request Header Fields Too Large
    RequestHeaderFieldsTooLarge,
    /// 451 Unavailable For Legal Reasons
    UnavailableForLegalReasons,
    /// 500 Internal Server Error
    InternalServerError,
    /// 501 Not Implemented
    NotImplemented,
    /// 502 Bad Gateway
    BadGateway,
    /// 503 Service Unavailable
    ServiceUnavailable,
    /// 504 Gateway Timeout
    GatewayTimeout,
    /// 505 HTTP Version Not Supported
    HttpVersionNotSupported,
    /// 506 Variant Also Negotiates
    VariantAlsoNegotiates,
    /// 507 Insufficient Storage
    InsufficientStorage,
    /// 508 Loop Detected
    LoopDetected,
    /// 510 Not Extended
    NotExtended,
    /// 511 Network Authentication Required
    NetworkAuthenticationRequired,
    /// Catch-all for unregistered status codes
    Unregistered(u16),
}

/// The five status classes, and a catch-all for values outside them.
#[derive(PartialEq, Eq, Structural, Debug, Clone, Copy)]
pub enum StatusClass {
    /// 1xx: request received, continuing process
    Informational,
    /// 2xx: the action was received, understood and accepted
    Success,
    /// 3xx: further action must be taken to complete the request
    Redirection,
    /// 4xx: the request contains bad syntax or cannot be fulfilled
    ClientError,
    /// 5xx: the server failed to fulfil an apparently valid request
    ServerError,
    /// Catch-all for everything outside the defined classes
    Unclassified,
}

/// The status code a numeric value denotes: the registered code where one
/// exists, the catch-all otherwise.
pub open spec fn spec_from_u16(value: u16) -> StatusCode {
    if value == 100 {
        StatusCode::Continue
    } else if value == 101 {
        StatusCode::SwitchingProtocols
    } else if value == 102 {
        StatusCode::Processing
    } else if value == 200 {
        StatusCode::Okay
    } else if value == 201 {
        StatusCode::Created
    } else if value == 202 {
        StatusCode::Accepted
    } else if value == 203 {
        StatusCode::NonAuthoritativeInformation
    } else if value == 204 {
        StatusCode::NoContent
    } else if value == 205 {
        StatusCode::ResetContent
    } else if value == 206 {
        StatusCode::PartialContent
    } else if value == 207 {
        StatusCode::MultiStatus
    } else if value == 208 {
        StatusCode::AlreadyReported
    } else if value == 226 {
        StatusCode::ImUsed
    } else if value == 300 {
        StatusCode::MultipleChoices
    } else if value == 301 {
        StatusCode::MovedPermanently
    } else if value == 302 {
        StatusCode::Found
    } else if value == 303 {
        StatusCode::SeeOther
    } else if value == 304 {
        StatusCode::NotModified
    } else if value == 305 {
        StatusCode::UseProxy
    } else if value == 307 {
        StatusCode::TemporaryRedirect
    } else if value == 308 {
        StatusCode::PermanentRedirect
    } else if value == 400 {
        StatusCode::BadRequest
    } else if value == 401 {
        StatusCode::Unauthorized
    } else if value == 402 {
        StatusCode::PaymentRequired
    } else if value == 403 {
        StatusCode::Forbidden
    } else if value == 404 {
        StatusCode::NotFound
    } else if value == 405 {
        StatusCode::MethodNotAllowed
    } else if value == 406 {
        StatusCode::NotAcceptable
    } else if value == 407 {
        StatusCode::ProxyAuthenticationRequired
    } else if value == 408 {
        StatusCode::RequestTimeout
    } else if value == 409 {
        StatusCode::Conflict
    } else if value == 410 {
        StatusCode::Gone
    } else if value == 411 {
        StatusCode::LengthRequired
    } else if value == 412 {
        StatusCode::PreconditionFailed
    } else if value == 413 {
        StatusCode::PayloadTooLarge
    } else if value == 414 {
        StatusCode::UriTooLong
    } else if value == 415 {
        StatusCode::UnsupportedMediaType
    } else if value == 416 {
        StatusCode::RangeNotSatisfiable
    } else if value == 417 {
        StatusCode::ExpectationFailed
    } else if value == 421 {
        StatusCode::MisdirectedRequest
    } else if value == 422 {
        StatusCode::UnprocessableEntity
    } else if value == 423 {
        StatusCode::Locked
    } else if value == 424 {
        StatusCode::FailedDependency
    } else if value == 426 {
        StatusCode::UpgradeRequired
    } else if value == 428 {
        StatusCode::PreconditionRequired
    } else if value == 429 {
        StatusCode::TooManyRequests
    } else if value == 431 {
        StatusCode::RequestHeaderFieldsTooLarge
    } else if value == 451 {
        StatusCode::UnavailableForLegalReasons
    } else if value == 500 {
        StatusCode::InternalServerError
    } else if value == 501 {
        StatusCode::NotImplemented
    } else if value == 502 {
        StatusCode::BadGateway
    } else if value == 503 {
        StatusCode::ServiceUnavailable
    } else if value == 504 {
        StatusCode::GatewayTimeout
    } else if value == 505 {
        StatusCode::HttpVersionNotSupported
    } else if value == 506 {
        StatusCode::VariantAlsoNegotiates
    } else if value == 507 {
        StatusCode::InsufficientStorage
    } else if value == 508 {
        StatusCode::LoopDetected
    } else if value == 510 {
        StatusCode::NotExtended
    } else if value == 511 {
        StatusCode::NetworkAuthenticationRequired
    } else {
        StatusCode::Unregistered(value)
    }
}

/// The numeric value of a status code.
pub open spec fn spec_to_u16(code: StatusCode) -> u16 {
    match code {
        StatusCode::Continue => 100,
        StatusCode::SwitchingProtocols => 101,
        StatusCode::Processing => 102,
        StatusCode::Okay => 200,
        StatusCode::Created => 201,
        StatusCode::Accepted => 202,
        StatusCode::NonAuthoritativeInformation => 203,
        StatusCode::NoContent => 204,
        StatusCode::ResetContent => 205,
        StatusCode::PartialContent => 206,
        StatusCode::MultiStatus => 207,
        StatusCode::AlreadyReported => 208,
        StatusCode::ImUsed => 226,
        StatusCode::MultipleChoices => 300,
        StatusCode::MovedPermanently => 301,
        StatusCode::Found => 302,
        StatusCode::SeeOther => 303,
        StatusCode::NotModified => 304,
        StatusCode::UseProxy => 305,
        StatusCode::TemporaryRedirect => 307,
        StatusCode::PermanentRedirect => 308,
        StatusCode::BadRequest => 400,
        StatusCode::Unauthorized => 401,
        StatusCode::PaymentRequired => 402,
        StatusCode::Forbidden => 403,
        StatusCode::NotFound => 404,
        StatusCode::MethodNotAllowed => 405,
        StatusCode::NotAcceptable => 406,
        StatusCode::ProxyAuthenticationRequired => 407,
        StatusCode::RequestTimeout => 408,
        StatusCode::Conflict => 409,
        StatusCode::Gone => 410,
        StatusCode::LengthRequired => 411,
        StatusCode::PreconditionFailed => 412,
        StatusCode::PayloadTooLarge => 413,
        StatusCode::UriTooLong => 414,
        StatusCode::UnsupportedMediaType => 415,
        StatusCode::RangeNotSatisfiable => 416,
        StatusCode::ExpectationFailed => 417,
        StatusCode::MisdirectedRequest => 421,
        StatusCode::UnprocessableEntity => 422,
        StatusCode::Locked => 423,
        StatusCode::FailedDependency => 424,
        StatusCode::UpgradeRequired => 426,
        StatusCode::PreconditionRequired => 428,
        StatusCode::TooManyRequests => 429,
        StatusCode::RequestHeaderFieldsTooLarge => 431,
        StatusCode::UnavailableForLegalReasons => 451,
        StatusCode::InternalServerError => 500,
        StatusCode::NotImplemented => 501,
        StatusCode::BadGateway => 502,
        StatusCode::ServiceUnavailable => 503,
        StatusCode::GatewayTimeout => 504,
        StatusCode::HttpVersionNotSupported => 505,
        StatusCode::VariantAlsoNegotiates => 506,
        StatusCode::InsufficientStorage => 507,
        StatusCode::LoopDetected => 508,
        StatusCode::NotExtended => 510,
        StatusCode::NetworkAuthenticationRequired => 511,
        StatusCode::Unregistered(value) => value,
    }
}

/// The class a status code falls in, by its numeric value's hundreds.
pub open spec fn spec_class(code: StatusCode) -> StatusClass {
    let value = spec_to_u16(code);
    if 100 <= value <= 199 {
        StatusClass::Informational
    } else if 200 <= value <= 299 {
        StatusClass::Success
    } else if 300 <= value <= 399 {
        StatusClass::Redirection
    } else if 400 <= value <= 499 {
        StatusClass::ClientError
    } else if 500 <= value <= 599 {
        StatusClass::ServerError
    } else {
        StatusClass::Unclassified
    }
}

/// The registry's reason phrase of a status code, absent for the catch-all.
pub open spec fn spec_reason(code: StatusCode) -> Option<Seq<char>> {
    match code {
        StatusCode::Continue => Some("Continue"@),
        StatusCode::SwitchingProtocols => Some("Switching Protocols"@),
        StatusCode::Processing => Some("Processing"@),
        StatusCode::Okay => Some("OK"@),
        StatusCode::Created => Some("Created"@),
        StatusCode::Accepted => Some("Accepted"@),
        StatusCode::NonAuthoritativeInformation => Some("Non-Authoritative Information"@),
        StatusCode::NoContent => Some("No Content"@),
        StatusCode::ResetContent => Some("Reset Content"@),
        StatusCode::PartialContent => Some("Partial Content"@),
        StatusCode::MultiStatus => Some("Multi-Status"@),
        StatusCode::AlreadyReported => Some("Already Reported"@),
        StatusCode::ImUsed => Some("IM Used"@),
        StatusCode::MultipleChoices => Some("Multiple Choices"@),
        StatusCode::MovedPermanently => Some("Moved Permanently"@),
        StatusCode::Found => Some("Found"@),
        StatusCode::SeeOther => Some("See Other"@),
        StatusCode::NotModified => Some("Not Modified"@),
        StatusCode::UseProxy => Some("Use Proxy"@),
        StatusCode::TemporaryRedirect => Some("Temporary Redirect"@),
        StatusCode::PermanentRedirect => Some("Permanent Redirect"@),
        StatusCode::BadRequest => Some("Bad Request"@),
        StatusCode::Unauthorized => Some("Unauthorized"@),
        StatusCode::PaymentRequired => Some("Payment Required"@),
        StatusCode::Forbidden => Some("Forbidden"@),
        StatusCode::NotFound => Some("Not Found"@),
        StatusCode::MethodNotAllowed => Some("Method Not Allowed"@),
        StatusCode::NotAcceptable => Some("Not Acceptable"@),
        StatusCode::ProxyAuthenticationRequired => Some("Proxy Authentication Required"@),
        StatusCode::RequestTimeout => Some("Request Timeout"@),
        StatusCode::Conflict => Some("Conflict"@),
        StatusCode::Gone => Some("Gone"@),
        StatusCode::LengthRequired => Some("Length Required"@),
        StatusCode::PreconditionFailed => Some("Precondition Failed"@),
        StatusCode::PayloadTooLarge => Some("Payload Too Large"@),
        StatusCode::UriTooLong => Some("URI Too Long"@),
        StatusCode::UnsupportedMediaType => Some("Unsupported Media Type"@),
        StatusCode::RangeNotSatisfiable => Some("Range Not Satisfiable"@),
        StatusCode::ExpectationFailed => Some("Expectation Failed"@),
        StatusCode::MisdirectedRequest => Some("Misdirected Request"@),
        StatusCode::UnprocessableEntity => Some("Unprocessable Entity"@),
        StatusCode::Locked => Some("Locked"@),
        StatusCode::FailedDependency => Some("Failed Dependency"@),
        StatusCode::UpgradeRequired => Some("Upgrade Required"@),
        StatusCode::PreconditionRequired => Some("Precondition Required"@),
        StatusCode::TooManyRequests => Some("Too Many Requests"@),
        StatusCode::RequestHeaderFieldsTooLarge => Some("Request Header Fields Too Large"@),
        StatusCode::UnavailableForLegalReasons => Some("Unavailable For Legal Reasons"@),
        StatusCode::InternalServerError => Some("Internal Server Error"@),
        StatusCode::NotImplemented => Some("Not Implemented"@),
        StatusCode::BadGateway => Some("Bad Gateway"@),
        StatusCode::ServiceUnavailable => Some("Service Unavailable"@),
        StatusCode::GatewayTimeout => Some("Gateway Timeout"@),
        StatusCode::HttpVersionNotSupported => Some("HTTP Version Not Supported"@),
        StatusCode::VariantAlsoNegotiates => Some("Variant Also Negotiates"@),
        StatusCode::InsufficientStorage => Some("Insufficient Storage"@),
        StatusCode::LoopDetected => Some("Loop Detected"@),
        StatusCode::NotExtended => Some("Not Extended"@),
        StatusCode::NetworkAuthenticationRequired => Some("Network Authentication Required"@),
        StatusCode::Unregistered(_) => None,
    }
}

impl StatusCode {
    /// The status code a numeric value denotes.
    pub fn from_u16(value: u16) -> (r: Self)
        ensures
            r == spec_from_u16(value),
    {
        match value {
            100 => StatusCode::Continue,
            101 => StatusCode::SwitchingProtocols,
            102 => StatusCode::Processing,
            200 => StatusCode::Okay,
            201 => StatusCode::Created,
            202 => StatusCode::Accepted,
            203 => StatusCode::NonAuthoritativeInformation,
            204 => StatusCode::NoContent,
            205 => StatusCode::ResetContent,
            206 => StatusCode::PartialContent,
            207 => StatusCode::MultiStatus,
            208 => StatusCode::AlreadyReported,
            226 => StatusCode::ImUsed,
            300 => StatusCode::MultipleChoices,
            301 => StatusCode::MovedPermanently,
            302 => StatusCode::Found,
            303 => StatusCode::SeeOther,
            304 => StatusCode::NotModified,
            305 => StatusCode::UseProxy,
            307 => StatusCode::TemporaryRedirect,
            308 => StatusCode::PermanentRedirect,
            400 => StatusCode::BadRequest,
            401 => StatusCode::Unauthorized,
            402 => StatusCode::PaymentRequired,
            403 => StatusCode::Forbidden,
            404 => StatusCode::NotFound,
            405 => StatusCode::MethodNotAllowed,
            406 => StatusCode::NotAcceptable,
            407 => StatusCode::ProxyAuthenticationRequired,
            408 => StatusCode::RequestTimeout,
            409 => StatusCode::Conflict,
            410 => StatusCode::Gone,
            411 => StatusCode::LengthRequired,
            412 => StatusCode::PreconditionFailed,
            413 => StatusCode::PayloadTooLarge,
            414 => StatusCode::UriTooLong,
            415 => StatusCode::UnsupportedMediaType,
            416 => StatusCode::RangeNotSatisfiable,
            417 => StatusCode::ExpectationFailed,
            421 => StatusCode::MisdirectedRequest,
            422 => StatusCode::UnprocessableEntity,
            423 => StatusCode::Locked,
            424 => StatusCode::FailedDependency,
            426 => StatusCode::UpgradeRequired,
            428 => StatusCode::PreconditionRequired,
            429 => StatusCode::TooManyRequests,
            431 => StatusCode::RequestHeaderFieldsTooLarge,
            451 => StatusCode::UnavailableForLegalReasons,
            500 => StatusCode::InternalServerError,
            501 => StatusCode::NotImplemented,
            502 => StatusCode::BadGateway,
            503 => StatusCode::ServiceUnavailable,
            504 => StatusCode::GatewayTimeout,
            505 => StatusCode::HttpVersionNotSupported,
            506 => StatusCode::VariantAlsoNegotiates,
            507 => StatusCode::InsufficientStorage,
            508 => StatusCode::LoopDetected,
            510 => StatusCode::NotExtended,
            511 => StatusCode::NetworkAuthenticationRequired,
            _ => StatusCode::Unregistered(value),
        }
    }

    /// The numeric value of this status code.
    pub fn to_u16(&self) -> (r: u16)
        ensures
            r == spec_to_u16(*self),
    {
        match *self {
            StatusCode::Continue => 100,
            StatusCode::SwitchingProtocols => 101,
            StatusCode::Processing => 102,
            StatusCode::Okay => 200,
            StatusCode::Created => 201,
            StatusCode::Accepted => 202,
            StatusCode::NonAuthoritativeInformation => 203,
            StatusCode::NoContent => 204,
            StatusCode::ResetContent => 205,
            StatusCode::PartialContent => 206,
            StatusCode::MultiStatus => 207,
            StatusCode::AlreadyReported => 208,
            StatusCode::ImUsed => 226,
            StatusCode::MultipleChoices => 300,
            StatusCode::MovedPermanently => 301,
            StatusCode::Found => 302,
            StatusCode::SeeOther => 303,
            StatusCode::NotModified => 304,
            StatusCode::UseProxy => 305,
            StatusCode::TemporaryRedirect => 307,
            StatusCode::PermanentRedirect => 308,
            StatusCode::BadRequest => 400,
            StatusCode::Unauthorized => 401,
            StatusCode::PaymentRequired => 402,
            StatusCode::Forbidden => 403,
            StatusCode::NotFound => 404,
            StatusCode::MethodNotAllowed => 405,
            StatusCode::NotAcceptable => 406,
            StatusCode::ProxyAuthenticationRequired => 407,
            StatusCode::RequestTimeout => 408,
            StatusCode::Conflict => 409,
            StatusCode::Gone => 410,
            StatusCode::LengthRequired => 411,
            StatusCode::PreconditionFailed => 412,
            StatusCode::PayloadTooLarge => 413,
            StatusCode::UriTooLong => 414,
            StatusCode::UnsupportedMediaType => 415,
            StatusCode::RangeNotSatisfiable => 416,
            StatusCode::ExpectationFailed => 417,
            StatusCode::MisdirectedRequest => 421,
            StatusCode::UnprocessableEntity => 422,
            StatusCode::Locked => 423,
            StatusCode::FailedDependency => 424,
            StatusCode::UpgradeRequired => 426,
            StatusCode::PreconditionRequired => 428,
            StatusCode::TooManyRequests => 429,
            StatusCode::RequestHeaderFieldsTooLarge => 431,
            StatusCode::UnavailableForLegalReasons => 451,
            StatusCode::InternalServerError => 500,
            StatusCode::NotImplemented => 501,
            StatusCode::BadGateway => 502,
            StatusCode::ServiceUnavailable => 503,
            StatusCode::GatewayTimeout => 504,
            StatusCode::HttpVersionNotSupported => 505,
            StatusCode::VariantAlsoNegotiates => 506,
            StatusCode::InsufficientStorage => 507,
            StatusCode::LoopDetected => 508,
            StatusCode::NotExtended => 510,
            StatusCode::NetworkAuthenticationRequired => 511,
            StatusCode::Unregistered(value) => value,
        }
    }

    /// The class this status code falls in.
    pub fn class(&self) -> (r: StatusClass)
        ensures
            r == spec_class(*self),
    {
        let value = self.to_u16();
        if 100 <= value && value <= 199 {
            StatusClass::Informational
        } else if 200 <= value && value <= 299 {
            StatusClass::Success
        } else if 300 <= value && value <= 399 {
            StatusClass::Redirection
        } else if 400 <= value && value <= 499 {
            StatusClass::ClientError
        } else if 500 <= value && value <= 599 {
            StatusClass::ServerError
        } else {
            StatusClass::Unclassified
        }
    }

    /// The registry's reason phrase, absent for unregistered codes.
    pub fn canonical_reason(&self) -> (r: Option<&'static str>)
        ensures
            r is Some <==> spec_reason(*self) is Some,
            r matches Some(s) ==> Some(s@) == spec_reason(*self),
    {
        match *self {
            StatusCode::Continue => Some("Continue"),
            StatusCode::SwitchingProtocols => Some("Switching Protocols"),
            StatusCode::Processing => Some("Processing"),
            StatusCode::Okay => Some("OK"),
            StatusCode::Created => Some("Created"),
            StatusCode::Accepted => Some("Accepted"),
            StatusCode::NonAuthoritativeInformation => Some("Non-Authoritative Information"),
            StatusCode::NoContent => Some("No Content"),
            StatusCode::ResetContent => Some("Reset Content"),
            StatusCode::PartialContent => Some("Partial Content"),
            StatusCode::MultiStatus => Some("Multi-Status"),
            StatusCode::AlreadyReported => Some("Already Reported"),
            StatusCode::ImUsed => Some("IM Used"),
            StatusCode::MultipleChoices => Some("Multiple Choices"),
            StatusCode::MovedPermanently => Some("Moved Permanently"),
            StatusCode::Found => Some("Found"),
            StatusCode::SeeOther => Some("See Other"),
            StatusCode::NotModified => Some("Not Modified"),
            StatusCode::UseProxy => Some("Use Proxy"),
            StatusCode::TemporaryRedirect => Some("Temporary Redirect"),
            StatusCode::PermanentRedirect => Some("Permanent Redirect"),
            StatusCode::BadRequest => Some("Bad Request"),
            StatusCode::Unauthorized => Some("Unauthorized"),
            StatusCode::PaymentRequired => Some("Payment Required"),
            StatusCode::Forbidden => Some("Forbidden"),
            StatusCode::NotFound => Some("Not Found"),
            StatusCode::MethodNotAllowed => Some("Method Not Allowed"),
            StatusCode::NotAcceptable => Some("Not Acceptable"),
            StatusCode::ProxyAuthenticationRequired => Some("Proxy Authentication Required"),
            StatusCode::RequestTimeout => Some("Request Timeout"),
            StatusCode::Conflict => Some("Conflict"),
            StatusCode::Gone => Some("Gone"),
            StatusCode::LengthRequired => Some("Length Required"),
            StatusCode::PreconditionFailed => Some("Precondition Failed"),
            StatusCode::PayloadTooLarge => Some("Payload Too Large"),
            StatusCode::UriTooLong => Some("URI Too Long"),
            StatusCode::UnsupportedMediaType => Some("Unsupported Media Type"),
            StatusCode::RangeNotSatisfiable => Some("Range Not Satisfiable"),
            StatusCode::ExpectationFailed => Some("Expectation Failed"),
            StatusCode::MisdirectedRequest => Some("Misdirected Request"),
            StatusCode::UnprocessableEntity => Some("Unprocessable Entity"),
            StatusCode::Locked => Some("Locked"),
            StatusCode::FailedDependency => Some("Failed Dependency"),
            StatusCode::UpgradeRequired => Some("Upgrade Required"),
            StatusCode::PreconditionRequired => Some("Precondition Required"),
            StatusCode::TooManyRequests => Some("Too Many Requests"),
            StatusCode::RequestHeaderFieldsTooLarge => Some("Request Header Fields Too Large"),
            StatusCode::UnavailableForLegalReasons => Some("Unavailable For Legal Reasons"),
            StatusCode::InternalServerError => Some("Internal Server Error"),
            StatusCode::NotImplemented => Some("Not Implemented"),
            StatusCode::BadGateway => Some("Bad Gateway"),
            StatusCode::ServiceUnavailable => Some("Service Unavailable"),
            StatusCode::GatewayTimeout => Some("Gateway Timeout"),
            StatusCode::HttpVersionNotSupported => Some("HTTP Version Not Supported"),
            StatusCode::VariantAlsoNegotiates => Some("Variant Also Negotiates"),
            StatusCode::InsufficientStorage => Some("Insufficient Storage"),
            StatusCode::LoopDetected => Some("Loop Detected"),
            StatusCode::NotExtended => Some("Not Extended"),
            StatusCode::NetworkAuthenticationRequired => Some("Network Authentication Required"),
            StatusCode::Unregistered(_) => None,
        }
    }

    /// True for a 1xx code.
    pub fn is_informational(&self) -> (r: bool)
        ensures
            r == (spec_class(*self) == StatusClass::Informational),
    {
        self.class() == StatusClass::Informational
    }

    /// True for a 2xx code.
    pub fn is_success(&self) -> (r: bool)
        ensures
            r == (spec_class(*self) == StatusClass::Success),
    {
        self.class() == StatusClass::Success
    }

    /// True for a 3xx code.
    pub fn is_redirection(&self) -> (r: bool)
        ensures
            r == (spec_class(*self) == StatusClass::Redirection),
    {
        self.class() == StatusClass::Redirection
    }

    /// True for a 4xx code.
    pub fn is_client_error(&self) -> (r: bool)
        ensures
            r == (spec_class(*self) == StatusClass::ClientError),
    {
        self.class() == StatusClass::ClientError
    }

    /// True for a 5xx code.
    pub fn is_server_error(&self) -> (r: bool)
        ensures
            r == (spec_class(*self) == StatusClass::ServerError),
    {
        self.class() == StatusClass::ServerError
    }

    /// True for a 4xx or 5xx code.
    pub fn is_error(&self) -> (r: bool)
        ensures
            r == (spec_class(*self) == StatusClass::ClientError || spec_class(*self)
                == StatusClass::ServerError),
    {
        self.is_client_error() || self.is_server_error()
    }
}

impl From<u16> for StatusCode {
    /// The status code a numeric value denotes.
    fn from(value: u16) -> (r: Self) {
        StatusCode::from_u16(value)
    }
}

impl vstd::std_specs::convert::FromSpecImpl<u16> for StatusCode {
    open spec fn obeys_from_spec() -> bool {
        true
    }

    open spec fn from_spec(value: u16) -> StatusCode {
        spec_from_u16(value)
    }
}

impl From<StatusCode> for u16 {
    /// The numeric value of a status code.
    fn from(code: StatusCode) -> (r: u16) {
        code.to_u16()
    }
}

impl vstd::std_specs::convert::FromSpecImpl<StatusCode> for u16 {
    open spec fn obeys_from_spec() -> bool {
        true
    }

    open spec fn from_spec(code: StatusCode) -> u16 {
        spec_to_u16(code)
    }
}

} // verus!

use routs::routs::status::HttpStatus;

#[test]
fn status_lines_are_canonical() {
    assert_eq!(HttpStatus::OK.to_string(), "200 OK");
    assert_eq!(HttpStatus::NotFound.to_string(), "404 Not Found");
    assert_eq!(HttpStatus::MethodNotAllowed.to_string(), "405 Method Not Allowed");
    assert_eq!(HttpStatus::Teapot.to_string(), "418 I'm a teapot");
    assert_eq!(HttpStatus::Continue.to_string(), "100 Continue");
    assert_eq!(
        HttpStatus::NetworkAuthenticationRequired.to_string(),
        "511 Network Authentication Required"
    );
}

#[test]
fn codes_match_status_lines() {
    assert_eq!(HttpStatus::OK.code(), 200);
    assert_eq!(HttpStatus::IMUsed.code(), 226);
    assert_eq!(HttpStatus::PermanentRedirect.code(), 308);
    assert_eq!(HttpStatus::from_code(404), Some(HttpStatus::NotFound));
    assert_eq!(HttpStatus::from_code(306), None);
    assert_eq!(HttpStatus::from_code(0), None);
}

#[test]
fn status_text_round_trip() {
    let all = [
        HttpStatus::Continue, HttpStatus::SwitchingProtocols, HttpStatus::Processing,
        HttpStatus::EarlyHints, HttpStatus::OK, HttpStatus::Created, HttpStatus::Accepted,
        HttpStatus::NonAuthoritativeInfo, HttpStatus::NoContent, HttpStatus::ResetContent,
        HttpStatus::PartialContent, HttpStatus::MultiStatus, HttpStatus::AlreadyReported,
        HttpStatus::IMUsed, HttpStatus::MultipleChoices, HttpStatus::MovedPermanently,
        HttpStatus::Found, HttpStatus::SeeOther, HttpStatus::NotModified, HttpStatus::UseProxy,
        HttpStatus::TemporaryRedirect, HttpStatus::PermanentRedirect, HttpStatus::BadRequest,
        HttpStatus::Unauthorized, HttpStatus::PaymentRequired, HttpStatus::Forbidden,
        HttpStatus::NotFound, HttpStatus::MethodNotAllowed, HttpStatus::NotAcceptable,
        HttpStatus::ProxyAuthRequired, HttpStatus::RequestTimeout, HttpStatus::Conflict,
        HttpStatus::Gone, HttpStatus::LengthRequired, HttpStatus::PreconditionFailed,
        HttpStatus::RequestEntityTooLarge, HttpStatus::RequestURITooLong,
        HttpStatus::UnsupportedMediaType, HttpStatus::RequestedRangeNotSatisfiable,
        HttpStatus::ExpectationFailed, HttpStatus::Teapot, HttpStatus::MisdirectedRequest,
        HttpStatus::UnprocessableEntity, HttpStatus::Locked, HttpStatus::FailedDependency,
        HttpStatus::TooEarly, HttpStatus::UpgradeRequired, HttpStatus::PreconditionRequired,
        HttpStatus::TooManyRequests, HttpStatus::RequestHeaderFieldsTooLarge,
        HttpStatus::UnavailableForLegalReasons, HttpStatus::InternalServerError,
        HttpStatus::NotImplemented, HttpStatus::BadGateway, HttpStatus::ServiceUnavailable,
        HttpStatus::GatewayTimeout, HttpStatus::HTTPVersionNotSupported,
        HttpStatus::VariantAlsoNegotiates, HttpStatus::InsufficientStorage,
        HttpStatus::LoopDetected, HttpStatus::NotExtended,
        HttpStatus::NetworkAuthenticationRequired,
    ];
    for (i, s) in all.iter().enumerate() {
        let text = s.to_string();
        assert!(text.len() > 4);
        assert_eq!(&text[3..4], " ");
        assert_eq!(HttpStatus::from_status_text(text), Some(*s));
        for t in all.iter().skip(i + 1) {
            assert_ne!(s.code(), t.code());
        }
    }
}

#[test]
fn status_text_without_code_prefix() {
    assert_eq!(HttpStatus::from_status_text("OK"), None);
    assert_eq!(HttpStatus::from_status_text("2x0 OK"), None);
    assert_eq!(HttpStatus::from_status_text("999 Nope"), None);
    assert_eq!(HttpStatus::from_status_text("404"), Some(HttpStatus::NotFound));
}

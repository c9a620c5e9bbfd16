use async_anthropic::errors::AnthropicError;
use async_anthropic::retry::BackoffPolicy;
use async_anthropic::transport::{
    format_url, outcome_of, Config, Exchange, ResponseBody, ResponseOutcome, StatusClass,
};

fn json_error() -> serde_json::Error {
    serde_json::from_str::<serde_json::Value>("{").unwrap_err()
}

fn text(status: u16, body: &str) -> ResponseOutcome<u32> {
    outcome_of(Exchange::Answered(status, ResponseBody::Text(body.to_string())))
}

#[test]
fn status_classes() {
    assert_eq!(StatusClass::of(200), StatusClass::Success);
    assert_eq!(StatusClass::of(400), StatusClass::BadRequest);
    assert_eq!(StatusClass::of(401), StatusClass::Unauthorized);
    assert_eq!(StatusClass::of(429), StatusClass::Retryable);
    assert_eq!(StatusClass::of(529), StatusClass::Retryable);
    assert_eq!(StatusClass::of(500), StatusClass::Unknown);
    assert_eq!(StatusClass::of(404), StatusClass::Unknown);
    assert_eq!(StatusClass::of(201), StatusClass::Unknown);
    assert!(!StatusClass::of(401).reads_body());
    assert!(StatusClass::of(400).reads_body());
    assert!(StatusClass::of(200).decodes_body());
    assert!(!StatusClass::of(429).decodes_body());
}

#[test]
fn success_gives_the_decoded_body() {
    let r = outcome_of(Exchange::Answered(200, ResponseBody::Decoded(Ok(7u32))));
    assert!(matches!(r, ResponseOutcome::Success(7)));
}

#[test]
fn undecodable_success_is_a_deserialization_error() {
    let r = outcome_of::<u32>(Exchange::Answered(200, ResponseBody::Decoded(Err(json_error()))));
    assert!(matches!(
        r,
        ResponseOutcome::TerminalFailure(AnthropicError::DeserializationError(_))
    ));
}

#[test]
fn bad_request_keeps_the_body() {
    match text(400, "Bad request") {
        ResponseOutcome::TerminalFailure(AnthropicError::BadRequest(t)) => {
            assert_eq!(t, "Bad request")
        }
        other => panic!("unexpected {other:?}"),
    }
}

#[test]
fn unauthorized_is_terminal() {
    assert!(matches!(
        text(401, ""),
        ResponseOutcome::TerminalFailure(AnthropicError::Unauthorized)
    ));
}

#[test]
fn throttling_is_recoverable() {
    for status in [429u16, 529] {
        match text(status, "Too Many Requests") {
            ResponseOutcome::RecoverableFailure(AnthropicError::ApiError(t)) => {
                assert_eq!(t, "Too Many Requests")
            }
            other => panic!("unexpected {other:?}"),
        }
    }
}

#[test]
fn other_status_is_unknown() {
    match text(503, "busy") {
        ResponseOutcome::TerminalFailure(AnthropicError::Unknown(t)) => assert_eq!(t, "busy"),
        other => panic!("unexpected {other:?}"),
    }
}

#[test]
fn body_of_the_wrong_kind_is_unexpected() {
    assert!(matches!(
        text(200, "{}"),
        ResponseOutcome::TerminalFailure(AnthropicError::UnexpectedError)
    ));
    let r = outcome_of(Exchange::Answered(429, ResponseBody::Decoded(Ok(1u32))));
    assert!(matches!(
        r,
        ResponseOutcome::TerminalFailure(AnthropicError::UnexpectedError)
    ));
}

#[test]
fn url_joins_with_one_slash() {
    assert_eq!(format_url("https://api.anthropic.com", "/v1/messages"), "https://api.anthropic.com/v1/messages");
    assert_eq!(format_url("http://h:1//", "//v1/models"), "http://h:1/v1/models");
    assert_eq!(format_url("http://h", "v1"), "http://h/v1");
    assert_eq!(format_url("", ""), "/");
}

#[test]
fn standard_config() {
    let c = Config::standard();
    assert_eq!(c.base_url, "https://api.anthropic.com");
    assert_eq!(c.version, "2023-06-01");
    assert_eq!(c.beta, None);
    assert_eq!(
        c.backoff,
        BackoffPolicy {
            initial_interval_ms: 15000,
            multiplier_permille: 2000,
            randomization_permille: 50,
            max_elapsed_ms: 120000,
        }
    );
    assert_eq!(c.url_for("/v1/messages"), "https://api.anthropic.com/v1/messages");
}

#[test]
fn headers_with_and_without_beta() {
    let mut c = Config::standard();
    let h = c.headers("test_secret");
    let pairs: Vec<(&str, &str)> = h.iter().map(|(a, b)| (a.as_str(), b.as_str())).collect();
    assert_eq!(
        pairs,
        vec![
            ("x-api-key", "test_secret"),
            ("anthropic-version", "2023-06-01"),
            ("content-type", "application/json"),
        ]
    );
    c.beta = Some("tools-2024".to_string());
    let h = c.headers("k");
    assert_eq!(h.len(), 4);
    assert_eq!(h[3], ("anthropic-beta".to_string(), "tools-2024".to_string()));
}

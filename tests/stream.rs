use async_anthropic::errors::{AnthropicError, StreamError};
use async_anthropic::retry::BackoffPolicy;
use async_anthropic::stream::{same_text, Decoder, StreamInput, StreamStep};

fn allowed() -> Vec<String> {
    ["message_start", "content_block_delta", "message_stop"]
        .iter()
        .map(|s| s.to_string())
        .collect()
}

fn policy() -> BackoffPolicy {
    BackoffPolicy {
        initial_interval_ms: 10,
        multiplier_permille: 2000,
        randomization_permille: 0,
        max_elapsed_ms: 100,
    }
}

fn open_decoder() -> Decoder {
    let mut d = Decoder::new(allowed(), policy());
    assert!(matches!(d.step::<u32>(StreamInput::Opened), StreamStep::Idle));
    d
}

fn frame<O>(event: &str, data: &str) -> StreamInput<O> {
    StreamInput::Frame { event: event.to_string(), data: data.to_string() }
}

fn json_error() -> serde_json::Error {
    serde_json::from_str::<serde_json::Value>("not json").unwrap_err()
}

#[test]
fn clean_stream_emits_events_in_order() {
    let mut d = open_decoder();
    assert!(matches!(d.step::<u32>(frame("ping", "{}")), StreamStep::Idle));
    let mut emitted = Vec::new();
    for (i, name) in ["message_start", "content_block_delta", "message_stop"].iter().enumerate() {
        match d.step::<u32>(frame(name, &format!("{{\"n\":{i}}}"))) {
            StreamStep::Decode(data) => assert_eq!(data, format!("{{\"n\":{i}}}")),
            other => panic!("unexpected {other:?}"),
        }
        match d.step(StreamInput::Decoded(Ok(i as u32))) {
            StreamStep::Emit(v) => emitted.push(v),
            other => panic!("unexpected {other:?}"),
        }
    }
    assert!(matches!(d.step::<u32>(StreamInput::Ended), StreamStep::Close));
    assert_eq!(emitted, vec![0, 1, 2]);
    assert!(d.is_closed());
}

#[test]
fn server_error_ends_the_stream() {
    let mut d = open_decoder();
    let data = "{\"type\":\"overloaded_error\",\"message\":\"Overloaded\"}";
    match d.step::<u32>(frame("error", data)) {
        StreamStep::DecodeError(p) => assert_eq!(p, data),
        other => panic!("unexpected {other:?}"),
    }
    let e = StreamError { error_type: "overloaded_error".to_string(), message: "Overloaded".to_string() };
    match d.step::<u32>(StreamInput::ErrorDecoded(Ok(e.clone()))) {
        StreamStep::Fail(AnthropicError::StreamError(got)) => assert_eq!(got, e),
        other => panic!("unexpected {other:?}"),
    }
    assert!(d.is_closed());
    assert!(matches!(d.step::<u32>(frame("message_start", "{}")), StreamStep::Close));
    assert!(matches!(d.step::<u32>(StreamInput::Decoded(Ok(1))), StreamStep::Close));
}

#[test]
fn undecodable_error_event_is_a_deserialization_error() {
    let mut d = open_decoder();
    assert!(matches!(d.step::<u32>(frame("error", "x")), StreamStep::DecodeError(_)));
    assert!(matches!(
        d.step::<u32>(StreamInput::ErrorDecoded(Err(json_error()))),
        StreamStep::Fail(AnthropicError::DeserializationError(_))
    ));
    assert!(d.is_closed());
}

#[test]
fn unknown_event_type_ends_the_stream() {
    let mut d = open_decoder();
    match d.step::<u32>(frame("surprise", "{}")) {
        StreamStep::Fail(AnthropicError::UnknownEventType(name)) => assert_eq!(name, "surprise"),
        other => panic!("unexpected {other:?}"),
    }
    assert!(matches!(d.step::<u32>(frame("message_start", "{}")), StreamStep::Close));
}

#[test]
fn undecodable_event_ends_the_stream() {
    let mut d = open_decoder();
    assert!(matches!(d.step::<u32>(frame("message_stop", "??")), StreamStep::Decode(_)));
    assert!(matches!(
        d.step::<u32>(StreamInput::Decoded(Err(json_error()))),
        StreamStep::Fail(AnthropicError::DeserializationError(_))
    ));
    assert!(d.is_closed());
}

#[test]
fn broken_connection_is_a_stream_error() {
    let mut d = open_decoder();
    match d.step::<u32>(StreamInput::Broken("connection reset".to_string())) {
        StreamStep::Fail(AnthropicError::StreamError(e)) => {
            assert_eq!(e.error_type, "sse_error");
            assert_eq!(e.message, "connection reset");
        }
        other => panic!("unexpected {other:?}"),
    }
    assert!(d.is_closed());
}

#[test]
fn cancelling_releases_the_connection() {
    let mut d = open_decoder();
    assert!(matches!(d.step::<u32>(frame("message_start", "{}")), StreamStep::Decode(_)));
    assert!(matches!(d.step::<u32>(StreamInput::Decoded(Ok(5))), StreamStep::Emit(5)));
    assert!(matches!(d.step::<u32>(frame("message_stop", "{}")), StreamStep::Decode(_)));
    assert!(matches!(d.step::<u32>(StreamInput::Cancelled), StreamStep::Close));
    assert!(d.is_closed());
    assert!(matches!(d.step::<u32>(StreamInput::Decoded(Ok(6))), StreamStep::Close));
}

#[test]
fn out_of_turn_decode_is_unexpected() {
    let mut d = open_decoder();
    assert!(matches!(
        d.step::<u32>(StreamInput::Decoded(Ok(1))),
        StreamStep::Fail(AnthropicError::UnexpectedError)
    ));
}

#[test]
fn texts_compare_by_characters() {
    assert!(same_text("ping", "ping"));
    assert!(!same_text("ping", "pin"));
    assert!(!same_text("ping", "pong"));
    assert!(same_text("", ""));
    assert!(same_text("é", "é"));
}

#[test]
fn stream_error_description() {
    let e = StreamError { error_type: "sse_error".to_string(), message: "boom".to_string() };
    assert_eq!(e.describe(), "Error (sse_error): boom");
}

fn refused(status: u16, body: &str) -> StreamInput<u32> {
    StreamInput::Refused { status, body: body.to_string(), draw: 3 }
}

#[test]
fn throttled_opening_is_retried_within_the_budget() {
    let mut d = Decoder::new(allowed(), policy());
    let mut sleeps = Vec::new();
    let error = loop {
        match d.step(refused(529, "Overloaded")) {
            StreamStep::Reconnect(ms) => sleeps.push(ms),
            StreamStep::Fail(e) => break e,
            other => panic!("unexpected {other:?}"),
        }
    };
    assert_eq!(sleeps, vec![10, 20, 40]);
    assert!(matches!(error, AnthropicError::ApiError(t) if t == "Overloaded"));
    assert!(d.is_closed());
}

#[test]
fn opening_retry_then_events() {
    let mut d = Decoder::new(allowed(), policy());
    assert!(matches!(d.step(refused(429, "slow down")), StreamStep::Reconnect(10)));
    assert!(matches!(d.step::<u32>(StreamInput::Opened), StreamStep::Idle));
    assert!(matches!(d.step::<u32>(frame("message_stop", "{}")), StreamStep::Decode(_)));
    assert!(matches!(d.step(StreamInput::Decoded(Ok(9u32))), StreamStep::Emit(9)));
    assert!(matches!(d.step(refused(429, "late")), StreamStep::Fail(AnthropicError::UnexpectedError)));
    assert!(d.is_closed());
}

#[test]
fn refused_opening_that_is_not_throttling_ends_the_stream() {
    let mut d = Decoder::new(allowed(), policy());
    assert!(matches!(d.step(refused(401, "")), StreamStep::Fail(AnthropicError::Unauthorized)));
    let mut d = Decoder::new(allowed(), policy());
    match d.step(refused(400, "bad")) {
        StreamStep::Fail(AnthropicError::BadRequest(t)) => assert_eq!(t, "bad"),
        other => panic!("unexpected {other:?}"),
    }
}

#[test]
fn zero_interval_opening_retries_end() {
    let p = BackoffPolicy {
        initial_interval_ms: 0,
        multiplier_permille: 2000,
        randomization_permille: 0,
        max_elapsed_ms: 3,
    };
    let mut d = Decoder::new(allowed(), p);
    let mut reconnects = 0;
    loop {
        match d.step(refused(429, "busy")) {
            StreamStep::Reconnect(0) => reconnects += 1,
            StreamStep::Fail(AnthropicError::ApiError(_)) => break,
            other => panic!("unexpected {other:?}"),
        }
    }
    assert_eq!(reconnects, 3);
}

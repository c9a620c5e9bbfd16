use async_anthropic::api::{
    message_events, model_path, DEFAULT_MAX_TOKENS, MESSAGES_PATH, MODELS_PATH,
};

#[test]
fn paths() {
    assert_eq!(MESSAGES_PATH, "/v1/messages");
    assert_eq!(MODELS_PATH, "/v1/models");
    assert_eq!(model_path("model-id"), "/v1/models/model-id");
    assert_eq!(DEFAULT_MAX_TOKENS, 2048);
}

#[test]
fn events_of_a_streamed_message() {
    assert_eq!(
        message_events(),
        vec![
            "message_start",
            "message_delta",
            "message_stop",
            "content_block_start",
            "content_block_delta",
            "content_block_stop",
        ]
    );
}

use vstd::prelude::*;

verus! {

/// The number of tokens a request may generate where it names none.
pub const DEFAULT_MAX_TOKENS: i32 = 2048;

/// Where messages are created.
pub const MESSAGES_PATH: &'static str = "/v1/messages";

/// Where the models are listed.
pub const MODELS_PATH: &'static str = "/v1/models";

/// Where the model `id` is described.
pub open spec fn model_path_spec(id: Seq<char>) -> Seq<char> {
    "/v1/models/"@ + id
}

/// The path that describes the model `id`.
pub fn model_path(id: &str) -> (r: String)
    ensures
        r@ == model_path_spec(id@),
{
    let mut r = String::from_str("/v1/models/");
    r.append(id);
    r
}

/// The events of a streamed message.
pub open spec fn message_events_spec() -> Seq<Seq<char>> {
    seq![
        "message_start"@,
        "message_delta"@,
        "message_stop"@,
        "content_block_start"@,
        "content_block_delta"@,
        "content_block_stop"@,
    ]
}

/// The event names that a stream of a message may carry.
pub fn message_events() -> (r: Vec<String>)
    ensures
        r@.map_values(|s: String| s@) == message_events_spec(),
{
    let r = vec![
        String::from_str("message_start"),
        String::from_str("message_delta"),
        String::from_str("message_stop"),
        String::from_str("content_block_start"),
        String::from_str("content_block_delta"),
        String::from_str("content_block_stop"),
    ];
    assert(r@.map_values(|s: String| s@) =~= message_events_spec());
    r
}

} // verus!

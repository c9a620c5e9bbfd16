use vstd::prelude::*;

verus! {

/// A failure of the HTTP client: the request could not be sent, or its answer
/// could not be read. Carried through the library without being inspected.
#[verifier::external_type_specification]
#[verifier::external_body]
pub struct ExReqwestError(reqwest::Error);

/// A JSON document that did not have the expected shape. Carried through the
/// library without being inspected.
#[verifier::external_type_specification]
#[verifier::external_body]
pub struct ExJsonError(serde_json::Error);

/// Every failure a caller of the client can observe.
#[derive(Debug)]
pub enum AnthropicError {
    /// The request could not be completed (connection, TLS, timeout, reading the body).
    NetworkError(reqwest::Error),
    /// The server answered 400; the body text it sent.
    BadRequest(String),
    /// The server was rate limited or overloaded and retrying did not help; its body text.
    ApiError(String),
    /// The server answered 401.
    Unauthorized,
    /// A body or a stream payload did not have the expected shape.
    DeserializationError(serde_json::Error),
    /// Any other status; the body text the server sent.
    Unknown(String),
    /// The exchange with the server did not follow the protocol.
    UnexpectedError,
    /// The stream failed: an error event sent by the server, or a failure of the connection.
    StreamError(StreamError),
    /// A stream frame named an event that is neither reserved nor expected.
    UnknownEventType(String),
}

/// A structured error, as the server sends it in an error event of a stream.
#[derive(Debug, Clone, PartialEq, Eq)]
pub struct StreamError {
    pub error_type: String,
    pub message: String,
}

/// The text `Error (<type>): <message>` that describes a stream error.
pub open spec fn describe_stream_error(error_type: Seq<char>, message: Seq<char>) -> Seq<char> {
    "Error ("@ + error_type + "): "@ + message
}

impl StreamError {
    /// Describes the error as `Error (<type>): <message>`.
    pub fn describe(&self) -> (r: String)
        ensures
            r@ == describe_stream_error(self.error_type@, self.message@),
    {
        let mut s = String::from_str("Error (");
        s.append(self.error_type.as_str());
        s.append("): ");
        s.append(self.message.as_str());
        s
    }
}

} // verus!

use vstd::prelude::*;

use crate::errors::AnthropicError;
use crate::retry::{standard_policy, BackoffPolicy};

verus! {

/// How the transport treats an HTTP status.
#[derive(Clone, Copy, Debug, PartialEq, Eq, Structural)]
pub enum StatusClass {
    /// 200: the body is the answer.
    Success,
    /// 400: the request was malformed.
    BadRequest,
    /// 401: the credential was refused.
    Unauthorized,
    /// 429 (rate limited) or 529 (overloaded): worth another attempt.
    Retryable,
    /// Any other status.
    Unknown,
}

pub open spec fn class_of(status: u16) -> StatusClass {
    if status == 200 {
        StatusClass::Success
    } else if status == 400 {
        StatusClass::BadRequest
    } else if status == 401 {
        StatusClass::Unauthorized
    } else if status == 429 || status == 529 {
        StatusClass::Retryable
    } else {
        StatusClass::Unknown
    }
}

impl StatusClass {
    /// Classifies an HTTP status.
    pub fn of(status: u16) -> (r: StatusClass)
        ensures
            r == class_of(status),
    {
        match status {
            200 => StatusClass::Success,
            400 => StatusClass::BadRequest,
            401 => StatusClass::Unauthorized,
            429 | 529 => StatusClass::Retryable,
            _ => StatusClass::Unknown,
        }
    }

    /// Whether the body of an answer of this class is read: all but a refused
    /// credential carry a body the caller is told about.
    pub fn reads_body(&self) -> (r: bool)
        ensures
            r == (*self != StatusClass::Unauthorized),
    {
        !matches!(self, StatusClass::Unauthorized)
    }

    /// Whether the body of an answer of this class is decoded as the expected
    /// type rather than kept as text.
    pub fn decodes_body(&self) -> (r: bool)
        ensures
            r == (*self == StatusClass::Success),
    {
        matches!(self, StatusClass::Success)
    }
}

/// What one attempt came to.
#[derive(Debug)]
pub enum ResponseOutcome<T> {
    /// The answer.
    Success(T),
    /// A failure worth another attempt.
    RecoverableFailure(AnthropicError),
    /// A failure that ends the call.
    TerminalFailure(AnthropicError),
}

/// What was read of the body of an answer.
#[derive(Debug)]
pub enum ResponseBody<T> {
    /// The body of a 200 answer, decoded as the expected type.
    Decoded(Result<T, serde_json::Error>),
    /// The body of any other answer as text; empty where it was not read.
    Text(String),
}

/// One exchange with the server, as far as it got.
#[derive(Debug)]
pub enum Exchange<T> {
    /// Sending the request or reading the body of its answer failed.
    Failed(reqwest::Error),
    /// The server answered with this status and body.
    Answered(u16, ResponseBody<T>),
}

/// The outcome of an exchange: 200 gives the decoded body, or a
/// deserialization error; 400, 401 and any unknown status end the call; 429
/// and 529 may be retried. A body of the wrong kind for its status breaks the
/// protocol between reader and classifier.
pub open spec fn outcome_spec<T>(x: Exchange<T>) -> ResponseOutcome<T> {
    match x {
        Exchange::Failed(e) => ResponseOutcome::TerminalFailure(AnthropicError::NetworkError(e)),
        Exchange::Answered(status, body) => match (class_of(status), body) {
            (StatusClass::Unauthorized, _) => ResponseOutcome::TerminalFailure(
                AnthropicError::Unauthorized,
            ),
            (StatusClass::Success, ResponseBody::Decoded(Ok(v))) => ResponseOutcome::Success(v),
            (StatusClass::Success, ResponseBody::Decoded(Err(e))) => ResponseOutcome::TerminalFailure(
                AnthropicError::DeserializationError(e),
            ),
            (StatusClass::BadRequest, ResponseBody::Text(t)) => ResponseOutcome::TerminalFailure(
                AnthropicError::BadRequest(t),
            ),
            (StatusClass::Retryable, ResponseBody::Text(t)) => ResponseOutcome::RecoverableFailure(
                AnthropicError::ApiError(t),
            ),
            (StatusClass::Unknown, ResponseBody::Text(t)) => ResponseOutcome::TerminalFailure(
                AnthropicError::Unknown(t),
            ),
            _ => ResponseOutcome::TerminalFailure(AnthropicError::UnexpectedError),
        },
    }
}

/// Classifies one exchange with the server.
pub fn outcome_of<T>(x: Exchange<T>) -> (r: ResponseOutcome<T>)
    ensures
        r == outcome_spec(x),
{
    let (status, body) = match x {
        Exchange::Failed(e) => {
            return ResponseOutcome::TerminalFailure(AnthropicError::NetworkError(e));
        },
        Exchange::Answered(status, body) => (status, body),
    };
    let class = StatusClass::of(status);
    if !class.reads_body() {
        return ResponseOutcome::TerminalFailure(AnthropicError::Unauthorized);
    }
    match body {
        ResponseBody::Decoded(decoded) => {
            if !class.decodes_body() {
                ResponseOutcome::TerminalFailure(AnthropicError::UnexpectedError)
            } else {
                match decoded {
                    Ok(v) => ResponseOutcome::Success(v),
                    Err(e) => ResponseOutcome::TerminalFailure(
                        AnthropicError::DeserializationError(e),
                    ),
                }
            }
        },
        ResponseBody::Text(t) => match class {
            StatusClass::BadRequest => ResponseOutcome::TerminalFailure(
                AnthropicError::BadRequest(t),
            ),
            StatusClass::Retryable => ResponseOutcome::RecoverableFailure(
                AnthropicError::ApiError(t),
            ),
            StatusClass::Unknown => ResponseOutcome::TerminalFailure(AnthropicError::Unknown(t)),
            _ => ResponseOutcome::TerminalFailure(AnthropicError::UnexpectedError),
        },
    }
}

/// Only an answer of 429 or 529 with its body text is worth another attempt,
/// and then the failure is an API error carrying that text.
pub proof fn lemma_only_throttling_is_recoverable<T>(x: Exchange<T>)
    ensures
        outcome_spec(x) is RecoverableFailure <==> (x matches Exchange::Answered(status, body)
            && (status == 429 || status == 529) && body is Text),
        outcome_spec(x) is RecoverableFailure ==> outcome_spec(x)->RecoverableFailure_0
            == AnthropicError::ApiError(x->Answered_1->Text_0),
{
}

/// `s` without the `/` that end it.
pub open spec fn trim_trailing_slashes(s: Seq<char>) -> Seq<char>
    decreases s.len(),
{
    if s.len() > 0 && s.last() == '/' {
        trim_trailing_slashes(s.drop_last())
    } else {
        s
    }
}

/// `s` without the `/` that begin it.
pub open spec fn trim_leading_slashes(s: Seq<char>) -> Seq<char>
    decreases s.len(),
{
    if s.len() > 0 && s[0] == '/' {
        trim_leading_slashes(s.drop_first())
    } else {
        s
    }
}

/// The target of a request: the base URL and the path joined by exactly one `/`.
pub open spec fn url_spec(base: Seq<char>, path: Seq<char>) -> Seq<char> {
    trim_trailing_slashes(base) + "/"@ + trim_leading_slashes(path)
}

/// The headers of every request, as (name, value): the credential, the
/// protocol version, the content type, and the beta features where some are asked for.
pub open spec fn headers_spec(api_key: Seq<char>, version: Seq<char>, beta: Option<Seq<char>>) -> Seq<
    (Seq<char>, Seq<char>),
> {
    let common = seq![
        ("x-api-key"@, api_key),
        ("anthropic-version"@, version),
        ("content-type"@, "application/json"@),
    ];
    match beta {
        Some(b) => common.push(("anthropic-beta"@, b)),
        None => common,
    }
}

pub open spec fn opt_view(o: Option<String>) -> Option<Seq<char>> {
    match o {
        Some(s) => Some(s@),
        None => None,
    }
}

pub open spec fn pair_view(p: (String, String)) -> (Seq<char>, Seq<char>) {
    (p.0@, p.1@)
}

/// Where and how the client reaches the API. Read, never changed, by each call.
#[derive(Clone, Debug)]
pub struct Config {
    pub base_url: String,
    pub version: String,
    pub beta: Option<String>,
    pub backoff: BackoffPolicy,
}

pub const BASE_URL: &'static str = "https://api.anthropic.com";

pub const API_VERSION: &'static str = "2023-06-01";

impl Config {
    /// The public API, its current protocol version, no beta features and the
    /// standard backoff policy.
    pub fn standard() -> (r: Config)
        ensures
            r.base_url@ == BASE_URL@,
            r.version@ == API_VERSION@,
            r.beta is None,
            r.backoff == standard_policy(),
    {
        Config {
            base_url: String::from_str(BASE_URL),
            version: String::from_str(API_VERSION),
            beta: None,
            backoff: BackoffPolicy::standard(),
        }
    }

    /// The URL of `path` under the base URL.
    pub fn url_for(&self, path: &str) -> (r: String)
        ensures
            r@ == url_spec(self.base_url@, path@),
    {
        format_url(self.base_url.as_str(), path)
    }

    /// The headers of a request made with the credential `api_key`.
    pub fn headers(&self, api_key: &str) -> (r: Vec<(String, String)>)
        ensures
            r@.map_values(|p: (String, String)| pair_view(p)) == headers_spec(
                api_key@,
                self.version@,
                opt_view(self.beta),
            ),
    {
        let mut r: Vec<(String, String)> = Vec::new();
        r.push((String::from_str("x-api-key"), String::from_str(api_key)));
        r.push((String::from_str("anthropic-version"), self.version.clone()));
        r.push((String::from_str("content-type"), String::from_str("application/json")));
        match &self.beta {
            Some(b) => r.push((String::from_str("anthropic-beta"), b.clone())),
            None => {},
        }
        proof {
            assert(r@.map_values(|p: (String, String)| pair_view(p)) =~= headers_spec(
                api_key@,
                self.version@,
                opt_view(self.beta),
            ));
        }
        r
    }
}

/// Joins a base URL and a path with exactly one `/`.
pub fn format_url(base: &str, path: &str) -> (r: String)
    ensures
        r@ == url_spec(base@, path@),
{
    let mut end = base.unicode_len();
    assert(base@.subrange(0, end as int) =~= base@);
    while end > 0 && base.get_char(end - 1) == '/'
        invariant
            end <= base@.len(),
            trim_trailing_slashes(base@) == trim_trailing_slashes(base@.subrange(0, end as int)),
        decreases end,
    {
        assert(base@.subrange(0, end as int).drop_last() =~= base@.subrange(0, end - 1));
        end = end - 1;
    }
    let n = path.unicode_len();
    let mut start: usize = 0;
    assert(path@.subrange(0, n as int) =~= path@);
    while start < n && path.get_char(start) == '/'
        invariant
            start <= n,
            n == path@.len(),
            trim_leading_slashes(path@) == trim_leading_slashes(path@.subrange(start as int, n as int)),
        decreases n - start,
    {
        assert(path@.subrange(start as int, n as int).drop_first() =~= path@.subrange(
            start + 1,
            n as int,
        ));
        start = start + 1;
    }
    let mut r = String::from_str(base.substring_char(0, end));
    r.append("/");
    r.append(path.substring_char(start, n));
    r
}

} // verus!

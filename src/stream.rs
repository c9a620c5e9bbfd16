use vstd::prelude::*;

use crate::errors::{AnthropicError, StreamError};
use crate::retry::{BackoffPolicy, RetryState, RetryStep};
use crate::transport::{outcome_of, outcome_spec, Exchange, ResponseBody, ResponseOutcome};

verus! {

/// Where a stream stands.
#[derive(Clone, Copy, Debug, PartialEq, Eq, Structural)]
pub enum Phase {
    /// The connection is not open yet: a refusal may still be retried.
    Connecting,
    /// Reading frames.
    Reading,
    /// Waiting for the payload of an expected event to be decoded.
    AwaitingEvent,
    /// Waiting for the payload of an error event to be decoded.
    AwaitingError,
    /// Done: the connection is released and nothing more is emitted.
    Closed,
}

/// The state of one stream: its phase, and the retries of its connection.
#[derive(Clone, Copy, Debug, PartialEq, Eq, Structural)]
pub struct StreamState {
    pub phase: Phase,
    pub retry: RetryState,
}

/// What happened on the connection, or what came of a decode that the
/// decoder asked for.
#[derive(Debug)]
pub enum StreamInput<O> {
    /// The connection was opened.
    Opened,
    /// The server refused to open the stream: its status, its body text, and a
    /// random number to jitter a retry with.
    Refused { status: u16, body: String, draw: u64 },
    /// A complete frame arrived: its event name and its data.
    Frame { event: String, data: String },
    /// The server ended the stream.
    Ended,
    /// Reading from the connection failed; what the failure says.
    Broken(String),
    /// The consumer stopped pulling events.
    Cancelled,
    /// The payload of an expected event, decoded as the caller's event type.
    Decoded(Result<O, serde_json::Error>),
    /// The payload of an error event, decoded as a stream error.
    ErrorDecoded(Result<StreamError, serde_json::Error>),
}

/// What to do next.
#[derive(Debug)]
pub enum StreamStep<O> {
    /// Nothing to emit; read on.
    Idle,
    /// Sleep this many milliseconds, then open the connection again.
    Reconnect(u64),
    /// Decode this payload as the caller's event type and hand the result back.
    Decode(String),
    /// Decode this payload as a stream error and hand the result back.
    DecodeError(String),
    /// Emit this event; read on.
    Emit(O),
    /// Emit this error as the last item and release the connection.
    Fail(AnthropicError),
    /// Release the connection; emit nothing more.
    Close,
}

/// The event name of the frames that only keep the connection alive.
pub open spec fn is_heartbeat(event: Seq<char>) -> bool {
    event == "ping"@
}

/// The event name of the frames that carry an error of the server.
pub open spec fn is_error_event(event: Seq<char>) -> bool {
    event == "error"@
}

/// How the transport judges a refusal to open the stream.
pub open spec fn refusal_outcome<O>(status: u16, body: String) -> ResponseOutcome<O> {
    outcome_spec(Exchange::Answered(status, ResponseBody::Text(body)))
}

pub open spec fn with_phase(st: StreamState, phase: Phase) -> StreamState {
    StreamState { phase, retry: st.retry }
}

/// The state after `input` arrives in `st`.
pub open spec fn next_state<O>(allowed: Seq<Seq<char>>, st: StreamState, input: StreamInput<O>) -> StreamState {
    match st.phase {
        Phase::Closed => st,
        Phase::Connecting | Phase::Reading => match input {
            StreamInput::Opened => with_phase(st, Phase::Reading),
            StreamInput::Frame { event, data } => if is_heartbeat(event@) {
                st
            } else if is_error_event(event@) {
                with_phase(st, Phase::AwaitingError)
            } else if allowed.contains(event@) {
                with_phase(st, Phase::AwaitingEvent)
            } else {
                with_phase(st, Phase::Closed)
            },
            StreamInput::Refused { status, body, draw } => if st.phase == Phase::Connecting {
                match st.retry.decide(refusal_outcome::<O>(status, body), draw) {
                    (retry, RetryStep::Wait(_)) => StreamState { phase: Phase::Connecting, retry },
                    _ => with_phase(st, Phase::Closed),
                }
            } else {
                with_phase(st, Phase::Closed)
            },
            _ => with_phase(st, Phase::Closed),
        },
        Phase::AwaitingEvent => match input {
            StreamInput::Decoded(Ok(_)) => with_phase(st, Phase::Reading),
            _ => with_phase(st, Phase::Closed),
        },
        Phase::AwaitingError => with_phase(st, Phase::Closed),
    }
}

/// Whether `step` is the right response to `input` in `st`: heartbeats and
/// the opening are skipped; a refusal before the stream opens is retried as
/// the transport retries a call, and ends the stream once it is not; an error
/// event is decoded and always ends the stream; an expected event is decoded
/// and emitted, or ends the stream with a deserialization error; any other
/// event name ends it with an unknown event type error; the end of the stream
/// and the consumer going away release the connection; a failed read ends the
/// stream with a stream error.
pub open spec fn step_spec<O>(
    allowed: Seq<Seq<char>>,
    st: StreamState,
    input: StreamInput<O>,
    step: StreamStep<O>,
) -> bool {
    match st.phase {
        Phase::Closed => step is Close,
        Phase::Connecting | Phase::Reading => match input {
            StreamInput::Opened => step is Idle,
            StreamInput::Frame { event, data } => if is_heartbeat(event@) {
                step is Idle
            } else if is_error_event(event@) {
                step == StreamStep::<O>::DecodeError(data)
            } else if allowed.contains(event@) {
                step == StreamStep::<O>::Decode(data)
            } else {
                step == StreamStep::<O>::Fail(AnthropicError::UnknownEventType(event))
            },
            StreamInput::Refused { status, body, draw } => if st.phase == Phase::Connecting {
                match st.retry.decide(refusal_outcome::<O>(status, body), draw).1 {
                    RetryStep::Wait(ms) => step == StreamStep::<O>::Reconnect(ms),
                    RetryStep::Finish(Err(e)) => step == StreamStep::<O>::Fail(e),
                    RetryStep::Finish(Ok(_)) => step == StreamStep::<O>::Fail(
                        AnthropicError::UnexpectedError,
                    ),
                }
            } else {
                step == StreamStep::<O>::Fail(AnthropicError::UnexpectedError)
            },
            StreamInput::Ended => step is Close,
            StreamInput::Broken(message) => step matches StreamStep::Fail(
                AnthropicError::StreamError(e),
            ) && e.error_type@ == "sse_error"@ && e.message == message,
            StreamInput::Cancelled => step is Close,
            _ => step == StreamStep::<O>::Fail(AnthropicError::UnexpectedError),
        },
        Phase::AwaitingEvent => match input {
            StreamInput::Decoded(Ok(v)) => step == StreamStep::Emit(v),
            StreamInput::Decoded(Err(e)) => step == StreamStep::<O>::Fail(
                AnthropicError::DeserializationError(e),
            ),
            StreamInput::Cancelled => step is Close,
            _ => step == StreamStep::<O>::Fail(AnthropicError::UnexpectedError),
        },
        Phase::AwaitingError => match input {
            StreamInput::ErrorDecoded(Ok(e)) => step == StreamStep::<O>::Fail(
                AnthropicError::StreamError(e),
            ),
            StreamInput::ErrorDecoded(Err(e)) => step == StreamStep::<O>::Fail(
                AnthropicError::DeserializationError(e),
            ),
            StreamInput::Cancelled => step is Close,
            _ => step == StreamStep::<O>::Fail(AnthropicError::UnexpectedError),
        },
    }
}

/// Whether two texts are the same.
pub fn same_text(a: &str, b: &str) -> (r: bool)
    ensures
        r == (a@ == b@),
{
    let n = a.unicode_len();
    if n != b.unicode_len() {
        return false;
    }
    let mut i: usize = 0;
    while i < n
        invariant
            n == a@.len(),
            n == b@.len(),
            i <= n,
            a@.subrange(0, i as int) == b@.subrange(0, i as int),
        decreases n - i,
    {
        if a.get_char(i) != b.get_char(i) {
            return false;
        }
        assert(a@.subrange(0, i + 1) =~= a@.subrange(0, i as int).push(a@[i as int]));
        assert(b@.subrange(0, i + 1) =~= b@.subrange(0, i as int).push(b@[i as int]));
        i = i + 1;
    }
    assert(a@ =~= a@.subrange(0, n as int));
    assert(b@ =~= b@.subrange(0, n as int));
    true
}

/// Turns the frames of one event stream into the caller's events: the event
/// names it expects and the state of the stream.
#[derive(Debug)]
pub struct Decoder {
    allowed: Vec<String>,
    state: StreamState,
}

impl Decoder {
    /// The event names that this stream expects.
    pub closed spec fn allowed(&self) -> Seq<Seq<char>> {
        self.allowed@.map_values(|s: String| s@)
    }

    pub closed spec fn state(&self) -> StreamState {
        self.state
    }

    /// A decoder for a stream that expects the events named in `allowed`,
    /// whose connection is retried under `policy` until it opens.
    pub fn new(allowed: Vec<String>, policy: BackoffPolicy) -> (r: Decoder)
        ensures
            r.allowed() == allowed@.map_values(|s: String| s@),
            r.state() == (StreamState { phase: Phase::Connecting, retry: RetryState::fresh(policy) }),
    {
        Decoder {
            allowed,
            state: StreamState { phase: Phase::Connecting, retry: RetryState::new(policy) },
        }
    }

    /// Whether the stream is over.
    pub fn is_closed(&self) -> (r: bool)
        ensures
            r == (self.state().phase == Phase::Closed),
    {
        matches!(self.state.phase, Phase::Closed)
    }

    /// Whether `event` is one of the expected event names.
    fn expects(&self, event: &str) -> (r: bool)
        ensures
            r == self.allowed().contains(event@),
    {
        let mut i: usize = 0;
        while i < self.allowed.len()
            invariant
                i <= self.allowed@.len(),
                forall|j: int| 0 <= j < i ==> self.allowed@[j]@ != event@,
            decreases self.allowed@.len() - i,
        {
            if same_text(self.allowed[i].as_str(), event) {
                assert(self.allowed()[i as int] == event@);
                return true;
            }
            i = i + 1;
        }
        assert forall|j: int| 0 <= j < self.allowed().len() implies self.allowed()[j] != event@ by {
            assert(self.allowed@[j]@ != event@);
        }
        false
    }

    /// Takes in what happened next and says what to do.
    pub fn step<O>(&mut self, input: StreamInput<O>) -> (r: StreamStep<O>)
        ensures
            final(self).allowed() == old(self).allowed(),
            final(self).state() == next_state(old(self).allowed(), old(self).state(), input),
            step_spec(old(self).allowed(), old(self).state(), input, r),
    {
        match self.state.phase {
            Phase::Closed => StreamStep::Close,
            Phase::Connecting | Phase::Reading => match input {
                StreamInput::Opened => {
                    self.state.phase = Phase::Reading;
                    StreamStep::Idle
                },
                StreamInput::Frame { event, data } => {
                    if same_text(event.as_str(), "ping") {
                        StreamStep::Idle
                    } else if same_text(event.as_str(), "error") {
                        self.state.phase = Phase::AwaitingError;
                        StreamStep::DecodeError(data)
                    } else if self.expects(event.as_str()) {
                        self.state.phase = Phase::AwaitingEvent;
                        StreamStep::Decode(data)
                    } else {
                        self.state.phase = Phase::Closed;
                        StreamStep::Fail(AnthropicError::UnknownEventType(event))
                    }
                },
                StreamInput::Refused { status, body, draw } => {
                    if matches!(self.state.phase, Phase::Connecting) {
                        let outcome = outcome_of::<O>(
                            Exchange::Answered(status, ResponseBody::Text(body)),
                        );
                        match self.state.retry.settle(outcome, draw) {
                            RetryStep::Wait(ms) => StreamStep::Reconnect(ms),
                            RetryStep::Finish(Err(e)) => {
                                self.state.phase = Phase::Closed;
                                StreamStep::Fail(e)
                            },
                            RetryStep::Finish(Ok(_)) => {
                                self.state.phase = Phase::Closed;
                                StreamStep::Fail(AnthropicError::UnexpectedError)
                            },
                        }
                    } else {
                        self.state.phase = Phase::Closed;
                        StreamStep::Fail(AnthropicError::UnexpectedError)
                    }
                },
                StreamInput::Ended | StreamInput::Cancelled => {
                    self.state.phase = Phase::Closed;
                    StreamStep::Close
                },
                StreamInput::Broken(message) => {
                    self.state.phase = Phase::Closed;
                    StreamStep::Fail(
                        AnthropicError::StreamError(
                            StreamError { error_type: String::from_str("sse_error"), message },
                        ),
                    )
                },
                _ => {
                    self.state.phase = Phase::Closed;
                    StreamStep::Fail(AnthropicError::UnexpectedError)
                },
            },
            Phase::AwaitingEvent => {
                match input {
                    StreamInput::Decoded(Ok(v)) => {
                        self.state.phase = Phase::Reading;
                        StreamStep::Emit(v)
                    },
                    StreamInput::Decoded(Err(e)) => {
                        self.state.phase = Phase::Closed;
                        StreamStep::Fail(AnthropicError::DeserializationError(e))
                    },
                    StreamInput::Cancelled => {
                        self.state.phase = Phase::Closed;
                        StreamStep::Close
                    },
                    _ => {
                        self.state.phase = Phase::Closed;
                        StreamStep::Fail(AnthropicError::UnexpectedError)
                    },
                }
            },
            Phase::AwaitingError => {
                self.state.phase = Phase::Closed;
                match input {
                    StreamInput::ErrorDecoded(Ok(e)) => StreamStep::Fail(
                        AnthropicError::StreamError(e),
                    ),
                    StreamInput::ErrorDecoded(Err(e)) => StreamStep::Fail(
                        AnthropicError::DeserializationError(e),
                    ),
                    StreamInput::Cancelled => StreamStep::Close,
                    _ => StreamStep::Fail(AnthropicError::UnexpectedError),
                }
            },
        }
    }
}

/// The state after the first `n` of `inputs`, starting in `start`.
pub open spec fn stream_after<O>(
    allowed: Seq<Seq<char>>,
    start: StreamState,
    inputs: Seq<StreamInput<O>>,
    n: nat,
) -> StreamState
    decreases n,
{
    if n == 0 {
        start
    } else {
        next_state(allowed, stream_after(allowed, start, inputs, (n - 1) as nat), inputs[n - 1])
    }
}

/// Whether `steps` are the decoder's responses to `inputs`, one each, from
/// the state `start` on.
pub open spec fn is_trace<O>(
    allowed: Seq<Seq<char>>,
    start: StreamState,
    inputs: Seq<StreamInput<O>>,
    steps: Seq<StreamStep<O>>,
) -> bool {
    &&& steps.len() == inputs.len()
    &&& forall|i: int|
        0 <= i < inputs.len() ==> step_spec(
            allowed,
            stream_after(allowed, start, inputs, i as nat),
            inputs[i],
            #[trigger] steps[i],
        )
}

/// The events that `steps` emit, in order.
pub open spec fn emitted<O>(steps: Seq<StreamStep<O>>) -> Seq<O>
    decreases steps.len(),
{
    if steps.len() == 0 {
        Seq::empty()
    } else {
        let before = emitted(steps.drop_last());
        match steps.last() {
            StreamStep::Emit(v) => before.push(v),
            _ => before,
        }
    }
}

/// Once closed, a stream stays closed and answers every input by releasing
/// the connection: it emits nothing more.
pub proof fn lemma_closed_stays_closed<O>(
    allowed: Seq<Seq<char>>,
    start: StreamState,
    inputs: Seq<StreamInput<O>>,
    steps: Seq<StreamStep<O>>,
    j: nat,
)
    requires
        is_trace(allowed, start, inputs, steps),
        j <= inputs.len(),
        stream_after(allowed, start, inputs, j).phase == Phase::Closed,
    ensures
        forall|i: int| j <= i < steps.len() ==> #[trigger] steps[i] is Close,
        stream_after(allowed, start, inputs, inputs.len()).phase == Phase::Closed,
    decreases inputs.len() - j,
{
    if j < inputs.len() {
        assert(step_spec(
            allowed,
            stream_after(allowed, start, inputs, j),
            inputs[j as int],
            steps[j as int],
        ));
        assert(stream_after(allowed, start, inputs, j + 1).phase == Phase::Closed);
        lemma_closed_stays_closed(allowed, start, inputs, steps, j + 1);
    }
}

/// Where every frame but one heartbeat is an expected event that decodes, the
/// stream `[open, heartbeat, (event, decoded) x k, end]` emits exactly the `k`
/// decoded events in order, fails nowhere, and ends by releasing the
/// connection.
pub proof fn lemma_clean_stream<O>(
    allowed: Seq<Seq<char>>,
    start: StreamState,
    inputs: Seq<StreamInput<O>>,
    steps: Seq<StreamStep<O>>,
    events: Seq<O>,
)
    requires
        is_trace(allowed, start, inputs, steps),
        start.phase == Phase::Connecting,
        inputs.len() == 2 * events.len() + 3,
        inputs[0] is Opened,
        inputs[1] matches StreamInput::Frame { event, .. } && is_heartbeat(event@),
        forall|i: int|
            0 <= i < events.len() ==> (#[trigger] inputs[2 + 2 * i] matches StreamInput::Frame {
                event,
                ..
            } && allowed.contains(event@) && !is_heartbeat(event@) && !is_error_event(event@)),
        forall|i: int|
            0 <= i < events.len() ==> #[trigger] inputs[3 + 2 * i] == StreamInput::Decoded::<O>(
                Ok(events[i]),
            ),
        inputs[2 * events.len() + 2 as int] is Ended,
    ensures
        emitted(steps) == events,
        forall|i: int| 0 <= i < steps.len() ==> !(#[trigger] steps[i] is Fail),
        steps.last() is Close,
        stream_after(allowed, start, inputs, inputs.len()).phase == Phase::Closed,
{
    let k = events.len();
    lemma_clean_prefix(allowed, start, inputs, steps, events, k);
    let last = 2 * k + 2;
    assert(steps[last as int] is Close);
    assert(steps.subrange(0, (last + 1) as int).drop_last() =~= steps.subrange(0, last as int));
    assert(steps.subrange(0, (last + 1) as int) =~= steps);
    assert(events.subrange(0, k as int) =~= events);
}

/// A stream that begins `[open, heartbeat, (event, decoded) x k]`, each event
/// expected and decoding: its first `2 + 2 * j` steps emit the first `j`
/// events, fail nowhere, and leave it reading.
pub proof fn lemma_clean_prefix<O>(
    allowed: Seq<Seq<char>>,
    start: StreamState,
    inputs: Seq<StreamInput<O>>,
    steps: Seq<StreamStep<O>>,
    events: Seq<O>,
    j: nat,
)
    requires
        is_trace(allowed, start, inputs, steps),
        start.phase == Phase::Connecting,
        inputs.len() >= 2 * events.len() + 2,
        j <= events.len(),
        inputs[0] is Opened,
        inputs[1] matches StreamInput::Frame { event, .. } && is_heartbeat(event@),
        forall|i: int|
            0 <= i < events.len() ==> (#[trigger] inputs[2 + 2 * i] matches StreamInput::Frame {
                event,
                ..
            } && allowed.contains(event@) && !is_heartbeat(event@) && !is_error_event(event@)),
        forall|i: int|
            0 <= i < events.len() ==> #[trigger] inputs[3 + 2 * i] == StreamInput::Decoded::<O>(
                Ok(events[i]),
            ),
    ensures
        stream_after(allowed, start, inputs, 2 + 2 * j).phase == Phase::Reading,
        emitted(steps.subrange(0, 2 + 2 * j as int)) == events.subrange(0, j as int),
        forall|i: int| 0 <= i < 2 + 2 * j ==> !(#[trigger] steps[i] is Fail),
    decreases j,
{
    if j == 0 {
        assert(steps[0] is Idle);
        assert(stream_after(allowed, start, inputs, 1).phase == Phase::Reading);
        assert(steps[1] is Idle);
        assert(stream_after(allowed, start, inputs, 2).phase == Phase::Reading);
        assert(emitted(steps.subrange(0, 0)) =~= Seq::<O>::empty());
        assert(steps.subrange(0, 1).drop_last() =~= steps.subrange(0, 0));
        assert(steps.subrange(0, 2).drop_last() =~= steps.subrange(0, 1));
        assert(events.subrange(0, 0) =~= Seq::<O>::empty());
        assert(emitted(steps.subrange(0, 1)) == emitted(steps.subrange(0, 0)));
        assert(emitted(steps.subrange(0, 2)) == emitted(steps.subrange(0, 1)));
    } else {
        let p = (j - 1) as nat;
        lemma_clean_prefix(allowed, start, inputs, steps, events, p);
        let a: int = 2 + 2 * (p as int);
        assert(inputs[2 + 2 * (p as int)] == inputs[a]);
        assert(steps[a] is Decode);
        assert(stream_after(allowed, start, inputs, (a + 1) as nat).phase == Phase::AwaitingEvent);
        assert(inputs[3 + 2 * (p as int)] == StreamInput::Decoded::<O>(Ok(events[p as int])));
        assert(steps[a + 1] == StreamStep::Emit(events[p as int]));
        assert(stream_after(allowed, start, inputs, (a + 2) as nat).phase == Phase::Reading);
        assert(steps.subrange(0, a + 1).drop_last() =~= steps.subrange(0, a));
        assert(steps.subrange(0, a + 2).drop_last() =~= steps.subrange(0, a + 1));
        assert(events.subrange(0, j as int) =~= events.subrange(0, p as int).push(events[p as int]));
        assert(emitted(steps.subrange(0, a + 1)) == emitted(steps.subrange(0, a)));
        assert(emitted(steps.subrange(0, a + 2)) == emitted(steps.subrange(0, a + 1)).push(
            events[p as int],
        ));
    }
}

/// An error event whose payload decodes ends the stream with exactly one
/// stream error carrying it; whatever frames follow, nothing more is emitted.
pub proof fn lemma_server_error_ends_stream<O>(
    allowed: Seq<Seq<char>>,
    start: StreamState,
    inputs: Seq<StreamInput<O>>,
    steps: Seq<StreamStep<O>>,
    j: nat,
    error: StreamError,
)
    requires
        is_trace(allowed, start, inputs, steps),
        j + 1 < inputs.len(),
        stream_after(allowed, start, inputs, j).phase == Phase::Reading || stream_after(
            allowed,
            start,
            inputs,
            j,
        ).phase == Phase::Connecting,
        inputs[j as int] matches StreamInput::Frame { event, .. } && is_error_event(event@),
        inputs[(j + 1) as int] == StreamInput::ErrorDecoded::<O>(Ok(error)),
    ensures
        steps[j as int] is DecodeError,
        steps[(j + 1) as int] == StreamStep::<O>::Fail(AnthropicError::StreamError(error)),
        forall|i: int| j + 1 < i < steps.len() ==> #[trigger] steps[i] is Close,
        emitted(steps) == emitted(steps.subrange(0, j as int)),
{
    reveal_strlit("ping");
    reveal_strlit("error");
    assert("ping"@.len() != "error"@.len());
    assert(!is_heartbeat(inputs[j as int]->event@));
    assert(stream_after(allowed, start, inputs, j + 1).phase == Phase::AwaitingError);
    assert(stream_after(allowed, start, inputs, j + 2).phase == Phase::Closed);
    lemma_closed_stays_closed(allowed, start, inputs, steps, j + 2);
    lemma_emitted_none_after(steps, j as int);
}

/// A frame whose event name is neither reserved nor expected ends the stream
/// with exactly one unknown event type error; nothing more is emitted.
pub proof fn lemma_unknown_event_ends_stream<O>(
    allowed: Seq<Seq<char>>,
    start: StreamState,
    inputs: Seq<StreamInput<O>>,
    steps: Seq<StreamStep<O>>,
    j: nat,
)
    requires
        is_trace(allowed, start, inputs, steps),
        j < inputs.len(),
        stream_after(allowed, start, inputs, j).phase == Phase::Reading || stream_after(
            allowed,
            start,
            inputs,
            j,
        ).phase == Phase::Connecting,
        inputs[j as int] matches StreamInput::Frame { event, .. } && !is_heartbeat(event@)
            && !is_error_event(event@) && !allowed.contains(event@),
    ensures
        steps[j as int] == StreamStep::<O>::Fail(
            AnthropicError::UnknownEventType(inputs[j as int]->event),
        ),
        forall|i: int| j < i < steps.len() ==> #[trigger] steps[i] is Close,
        emitted(steps) == emitted(steps.subrange(0, j as int)),
{
    assert(stream_after(allowed, start, inputs, j + 1).phase == Phase::Closed);
    lemma_closed_stays_closed(allowed, start, inputs, steps, j + 1);
    lemma_emitted_none_after(steps, j as int);
}

/// After a clean beginning `[open, heartbeat, (event, decoded) x k]`, an
/// error event whose payload decodes gives the `k` events and then exactly one
/// stream error carrying that payload; whatever frames follow, nothing more is
/// emitted.
pub proof fn lemma_events_then_server_error<O>(
    allowed: Seq<Seq<char>>,
    start: StreamState,
    inputs: Seq<StreamInput<O>>,
    steps: Seq<StreamStep<O>>,
    events: Seq<O>,
    error: StreamError,
)
    requires
        is_trace(allowed, start, inputs, steps),
        start.phase == Phase::Connecting,
        inputs.len() >= 2 * events.len() + 4,
        inputs[0] is Opened,
        inputs[1] matches StreamInput::Frame { event, .. } && is_heartbeat(event@),
        forall|i: int|
            0 <= i < events.len() ==> (#[trigger] inputs[2 + 2 * i] matches StreamInput::Frame {
                event,
                ..
            } && allowed.contains(event@) && !is_heartbeat(event@) && !is_error_event(event@)),
        forall|i: int|
            0 <= i < events.len() ==> #[trigger] inputs[3 + 2 * i] == StreamInput::Decoded::<O>(
                Ok(events[i]),
            ),
        inputs[2 * events.len() + 2 as int] matches StreamInput::Frame { event, .. }
            && is_error_event(event@),
        inputs[2 * events.len() + 3 as int] == StreamInput::ErrorDecoded::<O>(Ok(error)),
    ensures
        emitted(steps) == events,
        steps[2 * events.len() + 3 as int] == StreamStep::<O>::Fail(
            AnthropicError::StreamError(error),
        ),
        forall|i: int| 0 <= i < 2 * events.len() + 3 ==> !(#[trigger] steps[i] is Fail),
        forall|i: int| 2 * events.len() + 3 < i < steps.len() ==> #[trigger] steps[i] is Close,
{
    let k = events.len();
    lemma_clean_prefix(allowed, start, inputs, steps, events, k);
    lemma_server_error_ends_stream(allowed, start, inputs, steps, 2 * k + 2, error);
    assert(events.subrange(0, k as int) =~= events);
}

/// After a clean beginning `[open, heartbeat, (event, decoded) x k]`, a frame
/// whose name is neither reserved nor expected gives the `k` events and then
/// exactly one unknown event type error naming it; whatever frames follow,
/// nothing more is emitted.
pub proof fn lemma_events_then_unknown_event<O>(
    allowed: Seq<Seq<char>>,
    start: StreamState,
    inputs: Seq<StreamInput<O>>,
    steps: Seq<StreamStep<O>>,
    events: Seq<O>,
)
    requires
        is_trace(allowed, start, inputs, steps),
        start.phase == Phase::Connecting,
        inputs.len() >= 2 * events.len() + 3,
        inputs[0] is Opened,
        inputs[1] matches StreamInput::Frame { event, .. } && is_heartbeat(event@),
        forall|i: int|
            0 <= i < events.len() ==> (#[trigger] inputs[2 + 2 * i] matches StreamInput::Frame {
                event,
                ..
            } && allowed.contains(event@) && !is_heartbeat(event@) && !is_error_event(event@)),
        forall|i: int|
            0 <= i < events.len() ==> #[trigger] inputs[3 + 2 * i] == StreamInput::Decoded::<O>(
                Ok(events[i]),
            ),
        inputs[2 * events.len() + 2 as int] matches StreamInput::Frame { event, .. }
            && !is_heartbeat(event@) && !is_error_event(event@) && !allowed.contains(event@),
    ensures
        emitted(steps) == events,
        steps[2 * events.len() + 2 as int] == StreamStep::<O>::Fail(
            AnthropicError::UnknownEventType(inputs[2 * events.len() + 2 as int]->event),
        ),
        forall|i: int| 0 <= i < 2 * events.len() + 2 ==> !(#[trigger] steps[i] is Fail),
        forall|i: int| 2 * events.len() + 2 < i < steps.len() ==> #[trigger] steps[i] is Close,
{
    let k = events.len();
    lemma_clean_prefix(allowed, start, inputs, steps, events, k);
    lemma_unknown_event_ends_stream(allowed, start, inputs, steps, 2 * k + 2);
    assert(events.subrange(0, k as int) =~= events);
}

/// A consumer that stops pulling, at any point, has the connection released at
/// once and is sent nothing more.
pub proof fn lemma_cancel_releases<O>(
    allowed: Seq<Seq<char>>,
    start: StreamState,
    inputs: Seq<StreamInput<O>>,
    steps: Seq<StreamStep<O>>,
    j: nat,
)
    requires
        is_trace(allowed, start, inputs, steps),
        j < inputs.len(),
        inputs[j as int] is Cancelled,
    ensures
        forall|i: int| j <= i < steps.len() ==> #[trigger] steps[i] is Close,
        emitted(steps) == emitted(steps.subrange(0, j as int)),
        stream_after(allowed, start, inputs, inputs.len()).phase == Phase::Closed,
{
    assert(stream_after(allowed, start, inputs, j + 1).phase == Phase::Closed);
    assert(steps[j as int] is Close);
    lemma_closed_stays_closed(allowed, start, inputs, steps, j + 1);
    lemma_emitted_none_after(steps, j as int);
}

/// A stream gives exactly one terminal signal: once a step ends it with an
/// error or releases the connection, every later step only releases it again.
pub proof fn lemma_one_terminal_signal<O>(
    allowed: Seq<Seq<char>>,
    start: StreamState,
    inputs: Seq<StreamInput<O>>,
    steps: Seq<StreamStep<O>>,
    j: nat,
)
    requires
        is_trace(allowed, start, inputs, steps),
        j < inputs.len(),
        steps[j as int] is Fail || steps[j as int] is Close,
    ensures
        forall|i: int| j < i < steps.len() ==> #[trigger] steps[i] is Close,
        emitted(steps) == emitted(steps.subrange(0, j + 1 as int)),
        stream_after(allowed, start, inputs, inputs.len()).phase == Phase::Closed,
{
    assert(step_spec(
        allowed,
        stream_after(allowed, start, inputs, j),
        inputs[j as int],
        steps[j as int],
    ));
    assert(stream_after(allowed, start, inputs, j + 1).phase == Phase::Closed);
    lemma_closed_stays_closed(allowed, start, inputs, steps, j + 1);
    lemma_emitted_none_after(steps, j + 1 as int);
}

/// Only the opening of a stream is retried: once it has left the connecting
/// phase, no later step asks to reconnect.
pub proof fn lemma_no_retry_once_open<O>(
    allowed: Seq<Seq<char>>,
    start: StreamState,
    inputs: Seq<StreamInput<O>>,
    steps: Seq<StreamStep<O>>,
    j: nat,
)
    requires
        is_trace(allowed, start, inputs, steps),
        j <= inputs.len(),
        stream_after(allowed, start, inputs, j).phase != Phase::Connecting,
    ensures
        forall|i: int| j <= i < steps.len() ==> !(#[trigger] steps[i] is Reconnect),
    decreases inputs.len() - j,
{
    if j < inputs.len() {
        assert(step_spec(
            allowed,
            stream_after(allowed, start, inputs, j),
            inputs[j as int],
            steps[j as int],
        ));
        assert(!(steps[j as int] is Reconnect));
        assert(stream_after(allowed, start, inputs, j + 1).phase != Phase::Connecting);
        lemma_no_retry_once_open(allowed, start, inputs, steps, j + 1);
    }
}

/// Steps from `j` on that emit nothing add nothing to what was emitted.
proof fn lemma_emitted_none_after<O>(steps: Seq<StreamStep<O>>, j: int)
    requires
        0 <= j <= steps.len(),
        forall|i: int| j <= i < steps.len() ==> !(#[trigger] steps[i] is Emit),
    ensures
        emitted(steps) == emitted(steps.subrange(0, j)),
    decreases steps.len() - j,
{
    if j < steps.len() {
        assert(steps.subrange(0, j + 1).drop_last() =~= steps.subrange(0, j));
        assert(!(steps[j] is Emit));
        assert(forall|i: int| j + 1 <= i < steps.len() ==> !(#[trigger] steps[i] is Emit));
        lemma_emitted_none_after(steps, j + 1 as int);
    } else {
        assert(steps.subrange(0, j) =~= steps);
    }
}

} // verus!

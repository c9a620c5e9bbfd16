//! A client library for a conversational AI HTTP API, its decisions verified:
//! how each HTTP status is treated, when a call is retried and how long it
//! sleeps, and how the frames of an event stream become the caller's events.
//! The library holds no connection and no clock: a runner sends the requests,
//! reads the frames and sleeps, and hands what it saw to the functions here.

pub mod api;
pub mod errors;
pub mod retry;
pub mod stream;
pub mod transport;
pub mod types;

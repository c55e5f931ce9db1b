//! Resilient forwarding core of an outbound API gateway: a rotating pool of
//! credentials, retry with backoff, and replayable request bodies.

pub mod auth;
pub mod forward_request;
pub mod headers;
pub mod outcome;
pub mod read_request_body;
pub mod rename_header;
pub mod request;
pub mod retry;
pub mod span;

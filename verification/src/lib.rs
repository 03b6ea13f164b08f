//! Request logic of a small HTTP/S client library for C callers: what a
//! request turns into, how responses are recorded, when a request is retried,
//! how agents are shared per base URL, and what is logged.

pub mod text;
pub mod headers;
pub mod origin;
pub mod pool;
pub mod request;
pub mod retry;
pub mod log;
pub mod call;
pub mod call_log;

//! Retry-with-backoff executor for a rate-limited upstream.
//!
//! The crate decides, for a request that may be retried after an HTTP 429
//! response or a transport failure, whether and how long to wait before the
//! next submission. The backoff schedule is exponential with a cap, and a
//! server-supplied `Retry-After` hint (whole seconds) takes precedence over
//! the computed wait. The network exchange itself is left to the caller: the
//! caller performs one submission, reports what it produced, and this crate
//! answers with the next step.

pub mod backoff;
pub mod retry;

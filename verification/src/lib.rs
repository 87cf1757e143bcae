//! An idempotency-enforcing reverse proxy, as a library of decisions.
//!
//! A request path is matched against a table of rules. The matching rule
//! names the request fields that make up an idempotency fingerprint, the time
//! for which a fingerprint is remembered, and what to answer to the first and
//! to every later request that bears it. Everything that decides is here and
//! proved; sockets, the cache connection and the upstream call belong to the
//! program around this library.

pub mod config;
pub mod proxy;
pub mod utils;

//! Single-use token check-in service: a fixed pool of one-time numeric
//! tokens, a three-step redemption flow (validate, collect identifier,
//! confirm), a per-client rate limiter, and an append-only redemption log.
//!
//! The token lifecycle is the heart of the library: a token is *unused*
//! until the confirm step atomically moves it to *used*, exactly once.

pub mod flow;
pub mod limiter;
pub mod pages;
pub mod service;
pub mod token;

//! What stands between a request and its handler.

pub mod auth;
pub mod rate_limit;

pub mod auth;
pub mod client;
pub mod rate_limiter;

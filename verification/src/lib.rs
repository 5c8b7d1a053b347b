//! Credential-based authentication and authorization core.
//!
//! The library validates password strength, hashes and verifies
//! credentials, issues and checks signed session tokens, throttles
//! request volume with a fixed-window counter, and decides login,
//! registration and bearer-token authorization. Persistence and HTTP
//! wiring live outside the library and hand plain values in and out.

pub mod base64url;
pub mod claims;
pub mod config;
pub mod digits;
pub mod errors;
pub mod flow;
pub mod gate;
pub mod hashing;
pub mod limiter;
pub mod policy;
pub mod protected;
pub mod token;
pub mod user;
pub mod users;

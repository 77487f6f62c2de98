//! Core of an ad-hoc local file-sharing service: deterministic file
//! identities, self-signed certificate provisioning bound to the bind
//! address, single-token session authentication, and a token-bucket
//! rate limit on the login path.

pub mod addr;
pub mod handlers;
pub mod identity;
pub mod models;
pub mod rate_limit;
pub mod text;
pub mod utilities;

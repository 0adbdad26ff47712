//! The verified core of the WebX Metrics dashboard service: request
//! limits per client, cookie and CSRF handling, password hashes and token
//! claims, the login and refresh-token rotation decisions, and the
//! start-up checks on its secrets. The HTTP server, the database and the
//! token encoding drive these from the `app` crate.
use vstd::prelude::*;

pub mod auth;
pub mod config;
pub mod cookies;
pub mod limiter;
pub mod security;
pub mod session;
pub mod text;

verus! {

} // verus!

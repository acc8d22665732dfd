//! Verified core of the `fj-ex` Forgejo command-line helper: target
//! resolution, the credential store model, cookie-header import and the
//! small decisions around web sessions.

pub mod text;
pub mod urls;
pub mod target;
pub mod cli;
pub mod clock;
pub mod store;
pub mod login;
pub mod html;
pub mod session;
pub mod auth;
pub mod pulls;

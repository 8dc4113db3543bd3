//! Account linking and session reconciliation for a music-library backup service.
//!
//! A user links a streaming-service identity and a code-hosting identity into one
//! account; browser sessions are bound to accounts. The store in [`database`] keeps
//! the four relations (accounts, both kinds of provider authentication, sessions)
//! and performs every reconciliation step as one all-or-nothing operation.
pub mod authentication;
pub mod database;
pub mod entity;
pub mod error;
mod fresh;
pub mod oauth;
pub mod server;
pub mod session;

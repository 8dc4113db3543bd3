//! Rows of the four persisted relations, as plain values.
pub mod account;
pub mod github_auth;
pub mod spotify_auth;
pub mod user_session;

//! Session and identity boundary of a personal task-tracking backend: single-use
//! anti-forgery tokens for the OAuth login, sessions with absolute expiry,
//! identity resolution from the provider's profile, and owner-scoped task records.
pub mod types;
pub mod keyed;
pub mod database;
pub mod github;
pub mod logic;
pub mod lemmas;

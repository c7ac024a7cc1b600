//! The per-session controller: what one search session remembers and how it
//! reacts to each event it is handed.
//!
//! The controller never performs background work itself. Each event yields an
//! [`machine::Action`] that tells the embedding runtime what to spawn, cancel or
//! dispatch; completions are reported back through dedicated methods.

pub mod context;
pub mod event;
pub mod handlers;
pub mod laws;
pub mod machine;

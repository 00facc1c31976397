//! Verified core of a playlist import service.
//!
//! The crate covers the pure decision logic of the service: retry/backoff
//! classification for an unreliable upstream API, playlist reference
//! validation, a paginated import orchestrator with partial-failure
//! accounting, a CSRF token store, an authenticated-encryption credential
//! vault, and the OAuth handshake that ties them together.

pub mod auth;
pub mod clock;
pub mod config;
pub mod csrf;
pub mod import;
pub mod repo;
pub mod retry;
mod rng;
pub mod spotify;
pub mod text;
pub mod vault;

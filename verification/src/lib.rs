//! Authentication, session and dispatch core of a small music-recognition
//! service.
//!
//! The crate provides:
//! - credential hashing and verification with fixed, versioned parameters
//!   (`db::auth`),
//! - an append-only audit trail of login attempts (`db::logs`),
//! - an in-memory session store mapping opaque tokens to principal
//!   snapshots (`session`),
//! - request authorization through an `Authorization` header (`auth`),
//! - a pool of sequential workers that serializes every operation against
//!   the backing user store (`dispatch`).
//!
//! All state-changing operations carry contracts; the HTTP boundary that
//! feeds them plain values lives outside this crate.

pub mod auth;
pub mod config;
pub mod db;
pub mod dispatch;
pub mod logs;
pub mod session;
pub mod utils;

//! Request-gating library for a user-management HTTP API.
//!
//! The crate decides, for every inbound request, whether the caller may
//! proceed: it rate-limits client identifiers with a hard counting window and
//! automatic temporary blocking, validates credentials taken from an
//! `Authorization` header against an expected secret, screens user input, and
//! resolves the authenticated identity for downstream handlers.
//!
//! Everything here is pure: time enters as an integer timestamp, configuration
//! as plain values, and the surrounding web server performs the actual I/O.

pub mod auth_usecase;
pub mod dtos;
pub mod errors;
pub mod identity;
pub mod user_usecase;
pub mod numbers;
pub mod text;
pub mod user_validator;
pub mod sso_validator;
pub mod alist;
pub mod credential;
pub mod gate_laws;
pub mod rate_limiter;

pub use errors::AppError;

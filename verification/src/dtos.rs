//! Data the request pipeline carries: the user entity as the library models it
//! (identifiers as 128-bit values, instants as epoch seconds) and the
//! request/response shapes of the authentication and user-management use
//! cases. The surrounding web layer converts between these and its wire
//! types.

use vstd::prelude::*;

verus! {

/// A stored user.
#[derive(Clone, Debug)]
pub struct User {
    /// Unique identifier (a UUID's 128 bits).
    pub id: u128,
    /// Unique login name.
    pub username: String,
    /// Unique email address.
    pub email: String,
    /// Hash of the password; never exposed in responses.
    pub password_hash: String,
    /// Role name.
    pub role: String,
    /// Creation instant, epoch seconds.
    pub created_at: i64,
    /// Last-update instant, epoch seconds.
    pub updated_at: i64,
}

/// A user as returned to callers: every stored field but the password hash.
#[derive(Clone, Debug)]
pub struct UserResponse {
    /// Unique identifier (a UUID's 128 bits).
    pub id: u128,
    /// Unique login name.
    pub username: String,
    /// Unique email address.
    pub email: String,
    /// Role name.
    pub role: String,
    /// Creation instant, epoch seconds.
    pub created_at: i64,
    /// Last-update instant, epoch seconds.
    pub updated_at: i64,
}

/// Registration input.
pub struct RegisterRequest {
    /// Requested login name.
    pub username: String,
    /// Email address.
    pub email: String,
    /// Plain password, to be hashed by the surrounding layer.
    pub password: String,
    /// Requested role.
    pub role: String,
}

/// Login input.
pub struct LoginRequest {
    /// Email address.
    pub email: String,
    /// Plain password.
    pub password: String,
}

/// Direct user-creation input.
pub struct CreateUserRequest {
    /// Requested login name.
    pub username: String,
    /// Email address.
    pub email: String,
    /// Plain password.
    pub password: String,
    /// Requested role.
    pub role: String,
}

/// Partial user update: absent fields are left unchanged.
pub struct UpdateUserRequest {
    /// New login name, if any.
    pub username: Option<String>,
    /// New email address, if any.
    pub email: Option<String>,
    /// New plain password, if any.
    pub password: Option<String>,
}

/// What a successful registration or login returns.
pub struct AuthResponse {
    /// The authenticated user.
    pub user: UserResponse,
    /// The freshly issued access token.
    pub access_token: String,
}

} // verus!

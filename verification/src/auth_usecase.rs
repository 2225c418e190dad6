//! Authentication use case: the decisions behind user registration and
//! login.
//!
//! The repository and the token service are outside collaborators; the
//! surrounding layer queries them and hands their answers in as plain values
//! (`email_taken`, `user_found`, `password_matches`), so every decision here
//! is a pure, verified function.

use vstd::prelude::*;

use crate::dtos::{RegisterRequest, User, UserResponse};
use crate::errors::AppError;
use crate::user_validator::{
    email_ok, password_ok, username_ok, validate_email, validate_email_post, validate_password,
    validate_password_post, validate_username, validate_username_post,
};

verus! {

/// The fields of the response a user maps to.
pub open spec fn response_of(user: User) -> UserResponse {
    UserResponse {
        id: user.id,
        username: user.username,
        email: user.email,
        role: user.role,
        created_at: user.created_at,
        updated_at: user.updated_at,
    }
}

/// Authentication use case handling user registration and login.
///
/// Holds the one piece of token-service state that callers read: the
/// refresh-token lifetime, fixed at construction.
pub struct AuthUseCase {
    refresh_token_expiry_secs: i64,
}

/// A registration request that will be accepted: all three fields valid and
/// the email not yet registered.
pub open spec fn registration_ok(req: RegisterRequest, email_taken: bool) -> bool {
    &&& username_ok(req.username@)
    &&& email_ok(req.email@)
    &&& password_ok(req.password@)
    &&& !email_taken
}

/// What [`AuthUseCase::screen_registration`] returns: the three validators
/// run in order, then the duplicate-email check.
pub open spec fn screen_registration_post(
    req: RegisterRequest,
    email_taken: bool,
    r: Result<(), AppError>,
) -> bool {
    if !username_ok(req.username@) {
        validate_username_post(req.username@, r)
    } else if !email_ok(req.email@) {
        validate_email_post(req.email@, r)
    } else if !password_ok(req.password@) {
        validate_password_post(req.password@, r)
    } else if email_taken {
        r matches Err(AppError::BadRequest(m)) && m@ == "Email already registered"@
    } else {
        r is Ok
    }
}

impl AuthUseCase {
    /// The refresh-token lifetime this use case was built with.
    pub closed spec fn refresh_expiry(self) -> i64 {
        self.refresh_token_expiry_secs
    }

    /// Creates the use case around a token service issuing refresh tokens
    /// that live `refresh_token_expiry_secs` seconds.
    pub fn new(refresh_token_expiry_secs: i64) -> (r: Self)
        ensures
            r.refresh_expiry() == refresh_token_expiry_secs,
    {
        AuthUseCase { refresh_token_expiry_secs }
    }

    /// The refresh-token lifetime in seconds, used as the max-age of the
    /// refresh-token cookie.
    pub fn get_refresh_token_expiry(&self) -> (r: i64)
        ensures
            r == self.refresh_expiry(),
    {
        self.refresh_token_expiry_secs
    }

    /// Screens a registration request: username, email and password are
    /// validated in that order, then a taken email is rejected as a bad
    /// request. `email_taken` is the repository's answer to a lookup of
    /// `req.email`.
    pub fn screen_registration(&self, req: &RegisterRequest, email_taken: bool) -> (r: Result<
        (),
        AppError,
    >)
        ensures
            screen_registration_post(*req, email_taken, r),
            r is Ok <==> registration_ok(*req, email_taken),
    {
        match validate_username(req.username.as_str()) {
            Result::Err(e) => {
                return Result::Err(e);
            },
            Result::Ok(()) => {},
        }
        match validate_email(req.email.as_str()) {
            Result::Err(e) => {
                return Result::Err(e);
            },
            Result::Ok(()) => {},
        }
        match validate_password(req.password.as_str()) {
            Result::Err(e) => {
                return Result::Err(e);
            },
            Result::Ok(()) => {},
        }
        if email_taken {
            return Result::Err(
                AppError::BadRequest(String::from_str("Email already registered")),
            );
        }
        Result::Ok(())
    }

    /// Screens a login: the caller looked the user up by email
    /// (`user_found`) and verified the password against the stored hash
    /// (`password_matches`). Succeeds exactly when both hold; either failure
    /// yields one deliberately indistinct `Unauthorized`.
    pub fn screen_login(&self, user_found: bool, password_matches: bool) -> (r: Result<
        (),
        AppError,
    >)
        ensures
            r is Ok <==> user_found && password_matches,
            !(user_found && password_matches) ==> (r matches Err(AppError::Unauthorized(m)) && m@
                == "Invalid email or password"@),
    {
        if user_found && password_matches {
            Result::Ok(())
        } else {
            Result::Err(AppError::Unauthorized(String::from_str("Invalid email or password")))
        }
    }

    /// Converts a stored user to its response shape, dropping the password
    /// hash.
    pub fn user_to_response(user: User) -> (r: UserResponse)
        ensures
            r == response_of(user),
    {
        UserResponse {
            id: user.id,
            username: user.username,
            email: user.email,
            role: user.role,
            created_at: user.created_at,
            updated_at: user.updated_at,
        }
    }
}

} // verus!

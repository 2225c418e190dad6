//! User-management use case: the decisions behind creating, reading,
//! updating and deleting users.
//!
//! The repository is an outside collaborator; the surrounding layer performs
//! the lookups and hands their answers in as plain values, so every decision
//! here is a pure, verified function.

use vstd::prelude::*;
use vstd::string::StringExecFns;

use crate::auth_usecase::response_of;
use crate::dtos::{CreateUserRequest, UpdateUserRequest, User, UserResponse};
use crate::errors::AppError;
use crate::user_validator::{
    email_ok, password_ok, username_ok, validate_email, validate_email_post, validate_password,
    validate_password_post, validate_username, validate_username_post,
};

verus! {

/// A creation request that will be accepted: all three fields valid.
pub open spec fn create_user_ok(req: CreateUserRequest) -> bool {
    username_ok(req.username@) && email_ok(req.email@) && password_ok(req.password@)
}

/// What [`UserUseCase::screen_create_user`] returns: the three validators
/// run in order.
pub open spec fn screen_create_user_post(req: CreateUserRequest, r: Result<(), AppError>) -> bool {
    if !username_ok(req.username@) {
        validate_username_post(req.username@, r)
    } else if !email_ok(req.email@) {
        validate_email_post(req.email@, r)
    } else if !password_ok(req.password@) {
        validate_password_post(req.password@, r)
    } else {
        r is Ok
    }
}

/// An update request that will be accepted: each present field valid.
pub open spec fn update_user_ok(req: UpdateUserRequest) -> bool {
    &&& (req.username matches Some(u) ==> username_ok(u@))
    &&& (req.email matches Some(e) ==> email_ok(e@))
    &&& (req.password matches Some(p) ==> password_ok(p@))
}

/// What [`UserUseCase::screen_update_user`] returns: each present field is
/// validated, username first, then email, then password.
pub open spec fn screen_update_user_post(req: UpdateUserRequest, r: Result<(), AppError>) -> bool {
    if req.username matches Some(u) && !username_ok(u@) {
        validate_username_post(req.username->0@, r)
    } else if req.email matches Some(e) && !email_ok(e@) {
        validate_email_post(req.email->0@, r)
    } else if req.password matches Some(p) && !password_ok(p@) {
        validate_password_post(req.password->0@, r)
    } else {
        r is Ok
    }
}

/// User use case orchestrating user-management decisions.
pub struct UserUseCase {}

impl UserUseCase {
    /// Creates the use case.
    pub fn new() -> Self {
        UserUseCase {  }
    }

    /// Screens a user-creation request: username, email and password are
    /// validated in that order.
    pub fn screen_create_user(&self, req: &CreateUserRequest) -> (r: Result<(), AppError>)
        ensures
            screen_create_user_post(*req, r),
            r is Ok <==> create_user_ok(*req),
    {
        match validate_username(req.username.as_str()) {
            Result::Err(e) => {
                return Result::Err(e);
            },
            Result::Ok(()) => {},
        }
        match validate_email(req.email.as_str()) {
            Result::Err(e) => {
                return Result::Err(e);
            },
            Result::Ok(()) => {},
        }
        match validate_password(req.password.as_str()) {
            Result::Err(e) => {
                return Result::Err(e);
            },
            Result::Ok(()) => {},
        }
        Result::Ok(())
    }

    /// Screens a user-update request: each field that is present is
    /// validated, username first, then email, then password.
    pub fn screen_update_user(&self, req: &UpdateUserRequest) -> (r: Result<(), AppError>)
        ensures
            screen_update_user_post(*req, r),
            r is Ok <==> update_user_ok(*req),
    {
        match &req.username {
            Option::Some(u) => match validate_username(u.as_str()) {
                Result::Err(e) => {
                    return Result::Err(e);
                },
                Result::Ok(()) => {},
            },
            Option::None => {},
        }
        match &req.email {
            Option::Some(e) => match validate_email(e.as_str()) {
                Result::Err(err) => {
                    return Result::Err(err);
                },
                Result::Ok(()) => {},
            },
            Option::None => {},
        }
        match &req.password {
            Option::Some(p) => match validate_password(p.as_str()) {
                Result::Err(e) => {
                    return Result::Err(e);
                },
                Result::Ok(()) => {},
            },
            Option::None => {},
        }
        Result::Ok(())
    }

    /// Turns a lookup's answer into the use case's result: the found user's
    /// response, or `NotFound` naming the identifier the caller rendered
    /// into `id_text`.
    pub fn get_user_outcome(&self, found: Option<User>, id_text: &str) -> (r: Result<
        UserResponse,
        AppError,
    >)
        ensures
            found matches Some(u) ==> r == Result::<UserResponse, AppError>::Ok(response_of(u)),
            found is None ==> (r matches Err(AppError::NotFound(m)) && m@ == "User with id "@
                + id_text@ + " not found"@),
    {
        match found {
            Option::Some(u) => Result::Ok(Self::user_to_response(u)),
            Option::None => {
                let mut m = String::from_str("User with id ");
                m.append(id_text);
                m.append(" not found");
                Result::Err(AppError::NotFound(m))
            },
        }
    }

    /// The response shapes of all users, in order: what listing all users
    /// returns once the repository has answered.
    pub fn users_to_responses(&self, users: Vec<User>) -> (r: Vec<UserResponse>)
        ensures
            r@.len() == users@.len(),
            forall|i: int| 0 <= i < users@.len() ==> r@[i] == response_of(users@[i]),
    {
        let mut out: Vec<UserResponse> = Vec::new();
        let mut users = users;
        let ghost all = users@;
        proof {
            assert(all.skip(0) =~= all);
        }
        let n = users.len();
        let mut i: usize = 0;
        while users.len() > 0
            invariant
                n == all.len(),
                0 <= i <= all.len(),
                users@ == all.skip(i as int),
                out@.len() == i,
                forall|k: int| 0 <= k < i ==> out@[k] == response_of(all[k]),
            decreases users@.len(),
        {
            let u = users.remove(0);
            proof {
                assert(all.skip(i as int)[0] == all[i as int]);
                assert(all.skip(i as int).remove(0) =~= all.skip(i + 1));
            }
            out.push(Self::user_to_response(u));
            i = i + 1;
        }
        proof {
            assert(all.skip(i as int).len() == 0);
        }
        out
    }

    /// Converts a stored user to its response shape, dropping the password
    /// hash.
    pub fn user_to_response(user: User) -> (r: UserResponse)
        ensures
            r == response_of(user),
    {
        UserResponse {
            id: user.id,
            username: user.username,
            email: user.email,
            role: user.role,
            created_at: user.created_at,
            updated_at: user.updated_at,
        }
    }
}

} // verus!

//! Tenant-context resolution: combining the verified token identity with the
//! tenant injected by the upstream middleware into the request-scoped
//! identity handlers consume. Fails closed: a missing token or a missing
//! tenant yields `Unauthorized`, never a default tenant.

use vstd::prelude::*;

use crate::errors::AppError;

verus! {

/// The authenticated identity attached to a request after token and tenant
/// resolution; consumed by downstream handlers and never mutated.
#[derive(Clone, Copy, Debug, PartialEq, Eq, Structural)]
pub struct AuthenticatedIdentity {
    /// The user the verified token names (a UUID's 128 bits).
    pub user_id: u128,
    /// The tenant the upstream middleware resolved (a UUID's 128 bits).
    pub tenant_id: u128,
}

/// Builds the request's identity from the verified token's user, if any, and
/// the tenant injected by the upstream middleware, if any. Succeeds exactly
/// when both are present; a missing token outranks a missing tenant.
pub fn resolve_identity(user_id: Option<u128>, tenant_id: Option<u128>) -> (r: Result<
    AuthenticatedIdentity,
    AppError,
>)
    ensures
        r is Ok <==> user_id is Some && tenant_id is Some,
        user_id is Some && tenant_id is Some ==> r == Result::<
            AuthenticatedIdentity,
            AppError,
        >::Ok(
            AuthenticatedIdentity { user_id: user_id->0, tenant_id: tenant_id->0 },
        ),
        user_id is None ==> (r matches Err(AppError::Unauthorized(m)) && m@ == "Unauthorized"@),
        user_id is Some && tenant_id is None ==> (r matches Err(AppError::Unauthorized(m)) && m@
            == "Tenant ID not found in request context"@),
{
    match user_id {
        Option::None => Result::Err(AppError::Unauthorized(String::from_str("Unauthorized"))),
        Option::Some(u) => match tenant_id {
            Option::None => Result::Err(
                AppError::Unauthorized(
                    String::from_str("Tenant ID not found in request context"),
                ),
            ),
            Option::Some(t) => Result::Ok(AuthenticatedIdentity { user_id: u, tenant_id: t }),
        },
    }
}

} // verus!

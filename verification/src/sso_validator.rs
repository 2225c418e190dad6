//! Validation of optional single-sign-on parameters: `state`, `nonce`, and
//! `redirect_uri`. Absent parameters are accepted; present ones are checked
//! in that order, each against a length cap and a character rule.

use vstd::prelude::*;

use crate::errors::AppError;
use crate::text::{byte_len, contains_char, find_first};
use crate::user_validator::char_alphanumeric;

verus! {

/// The parameter is present and longer than `cap` bytes.
pub open spec fn opt_too_long(o: Option<String>, cap: usize) -> bool {
    match o {
        Option::Some(s) => byte_len(s@) > cap,
        Option::None => false,
    }
}

/// The parameter is present and contains a non-alphanumeric character.
pub open spec fn opt_not_alphanumeric(o: Option<String>) -> bool {
    match o {
        Option::Some(s) => !(forall|i: int| 0 <= i < s@.len() ==> char_alphanumeric(s@[i])),
        Option::None => false,
    }
}

/// The parameter is present and contains one of `<`, `>`, `"`, `'`.
pub open spec fn opt_has_uri_injection(o: Option<String>) -> bool {
    match o {
        Option::Some(s) => contains_char(s@, '<') || contains_char(s@, '>') || contains_char(
            s@,
            '"',
        ) || contains_char(s@, '\''),
        Option::None => false,
    }
}

/// All three parameters, where present, pass their checks.
pub open spec fn sso_params_ok(
    state: Option<String>,
    nonce: Option<String>,
    redirect_uri: Option<String>,
) -> bool {
    &&& !opt_too_long(state, 128)
    &&& !opt_not_alphanumeric(state)
    &&& !opt_too_long(nonce, 128)
    &&& !opt_not_alphanumeric(nonce)
    &&& !opt_too_long(redirect_uri, 256)
    &&& !opt_has_uri_injection(redirect_uri)
}

/// What [`validate_sso_params`] returns: the checks run in order — state
/// length, state characters, nonce length, nonce characters, URI length, URI
/// characters — each with its own message.
pub open spec fn validate_sso_params_post(
    state: Option<String>,
    nonce: Option<String>,
    redirect_uri: Option<String>,
    r: Result<(), AppError>,
) -> bool {
    if opt_too_long(state, 128) {
        r matches Err(AppError::ValidationError(m)) && m@
            == "State parameter too long (max 128 chars)"@
    } else if opt_not_alphanumeric(state) {
        r matches Err(AppError::ValidationError(m)) && m@
            == "State parameter must be alphanumeric"@
    } else if opt_too_long(nonce, 128) {
        r matches Err(AppError::ValidationError(m)) && m@
            == "Nonce parameter too long (max 128 chars)"@
    } else if opt_not_alphanumeric(nonce) {
        r matches Err(AppError::ValidationError(m)) && m@
            == "Nonce parameter must be alphanumeric"@
    } else if opt_too_long(redirect_uri, 256) {
        r matches Err(AppError::ValidationError(m)) && m@
            == "Redirect URI too long (max 256 chars)"@
    } else if opt_has_uri_injection(redirect_uri) {
        r matches Err(AppError::ValidationError(m)) && m@
            == "Redirect URI contains invalid characters"@
    } else {
        r is Ok
    }
}

/// Whether every character of the string is alphanumeric.
fn all_alphanumeric(s: &String) -> (r: bool)
    ensures
        r == (forall|i: int| 0 <= i < s@.len() ==> char_alphanumeric(s@[i])),
{
    let t = s.as_str();
    let n = t.unicode_len();
    let mut i: usize = 0;
    while i < n
        invariant
            0 <= i <= n,
            n == t@.len(),
            t@ == s@,
            forall|k: int| 0 <= k < i ==> char_alphanumeric(t@[k]),
        decreases n - i,
    {
        if !t.get_char(i).is_alphanumeric() {
            return false;
        }
        i = i + 1;
    }
    true
}

/// Validates the optional SSO parameters: `state` and `nonce` must be at
/// most 128 bytes and alphanumeric; `redirect_uri` must be at most 256 bytes
/// and free of `<`, `>`, `"`, `'`.
pub fn validate_sso_params(
    state: &Option<String>,
    nonce: &Option<String>,
    redirect_uri: &Option<String>,
) -> (r: Result<(), AppError>)
    ensures
        validate_sso_params_post(*state, *nonce, *redirect_uri, r),
        r is Ok <==> sso_params_ok(*state, *nonce, *redirect_uri),
{
    match state {
        Option::Some(s) => {
            if s.as_str().len() > 128 {
                return Result::Err(
                    AppError::ValidationError(
                        String::from_str("State parameter too long (max 128 chars)"),
                    ),
                );
            }
            if !all_alphanumeric(s) {
                return Result::Err(
                    AppError::ValidationError(
                        String::from_str("State parameter must be alphanumeric"),
                    ),
                );
            }
        },
        Option::None => {},
    }
    match nonce {
        Option::Some(s) => {
            if s.as_str().len() > 128 {
                return Result::Err(
                    AppError::ValidationError(
                        String::from_str("Nonce parameter too long (max 128 chars)"),
                    ),
                );
            }
            if !all_alphanumeric(s) {
                return Result::Err(
                    AppError::ValidationError(
                        String::from_str("Nonce parameter must be alphanumeric"),
                    ),
                );
            }
        },
        Option::None => {},
    }
    match redirect_uri {
        Option::Some(s) => {
            if s.as_str().len() > 256 {
                return Result::Err(
                    AppError::ValidationError(
                        String::from_str("Redirect URI too long (max 256 chars)"),
                    ),
                );
            }
            let t = s.as_str();
            let bad = match find_first(t, '<') {
                Option::Some(_) => true,
                Option::None => match find_first(t, '>') {
                    Option::Some(_) => true,
                    Option::None => match find_first(t, '"') {
                        Option::Some(_) => true,
                        Option::None => match find_first(t, '\'') {
                            Option::Some(_) => true,
                            Option::None => false,
                        },
                    },
                },
            };
            if bad {
                return Result::Err(
                    AppError::ValidationError(
                        String::from_str("Redirect URI contains invalid characters"),
                    ),
                );
            }
        },
        Option::None => {},
    }
    Result::Ok(())
}

} // verus!

//! User input validation: username, email, password, phone, and a basic
//! script-injection screen.
//!
//! Each validator's contract pins, for every input, whether it succeeds and
//! which error it returns, through a `*_post` predicate mirroring the checks
//! in order.

use vstd::prelude::*;

use crate::errors::AppError;
use crate::text::{
    byte_len, contains_char, contains_seq, find_first, find_last, str_contains_str, str_eq, trim,
    trim_spec,
};

verus! {

/// What `char::is_alphanumeric` returns: membership in the Unicode letter
/// and number categories, a function of the character alone.
pub uninterp spec fn char_alphanumeric(c: char) -> bool;

/// Relies on char::is_alphanumeric: true exactly for Unicode letters and
/// numbers, depending on the character alone.
pub assume_specification[ char::is_alphanumeric ](c: char) -> (r: bool)
    ensures
        r == char_alphanumeric(c),
;

/// What `str::to_lowercase` returns: the Unicode lowercase mapping of the
/// characters, a function of the characters alone.
pub uninterp spec fn lowercase_of(s: Seq<char>) -> Seq<char>;

/// Relies on str::to_lowercase: the result depends on the characters alone.
pub assume_specification[ str::to_lowercase ](s: &str) -> (r: String)
    ensures
        r@ == lowercase_of(s@),
;

/// A character a username may contain: alphanumeric, underscore, or dash.
pub open spec fn username_char_ok(c: char) -> bool {
    char_alphanumeric(c) || c == '_' || c == '-'
}

/// The ten reserved names a (lowercased) username must not equal.
pub open spec fn is_reserved_name(s: Seq<char>) -> bool {
    ||| s == "admin"@
    ||| s == "root"@
    ||| s == "system"@
    ||| s == "superuser"@
    ||| s == "administrator"@
    ||| s == "god"@
    ||| s == "null"@
    ||| s == "undefined"@
    ||| s == "test"@
    ||| s == "demo"@
}

/// Decides [`is_reserved_name`].
pub fn is_reserved_username(s: &str) -> (r: bool)
    ensures
        r == is_reserved_name(s@),
{
    str_eq(s, "admin") || str_eq(s, "root") || str_eq(s, "system") || str_eq(s, "superuser")
        || str_eq(s, "administrator") || str_eq(s, "god") || str_eq(s, "null") || str_eq(
        s,
        "undefined",
    ) || str_eq(s, "test") || str_eq(s, "demo")
}

/// The characters of `"javascript:"`, the rejected URI scheme.
pub open spec fn js_scheme() -> Seq<char> {
    seq!['j', 'a', 'v', 'a', 's', 'c', 'r', 'i', 'p', 't', ':']
}

/// The input carries an obvious script-injection payload: an angle bracket
/// or the `javascript:` scheme.
pub open spec fn has_xss_payload(s: Seq<char>) -> bool {
    contains_char(s, '<') || contains_char(s, '>') || contains_seq(s, js_scheme())
}

/// What [`validate_no_xss`] returns on `s`.
pub open spec fn no_xss_post(s: Seq<char>, r: Result<(), AppError>) -> bool {
    if has_xss_payload(s) {
        r matches Err(AppError::ValidationError(m)) && m@ == "Validation Error"@
    } else {
        r is Ok
    }
}

/// Rejects input containing an angle bracket or the `javascript:` scheme.
pub fn validate_no_xss(input: &str) -> (r: Result<(), AppError>)
    ensures
        no_xss_post(input@, r),
        r is Ok <==> !has_xss_payload(input@),
{
    proof {
        reveal_strlit("javascript:");
        assert("javascript:"@ =~= js_scheme());
    }
    let bad = match find_first(input, '<') {
        Option::Some(_) => true,
        Option::None => match find_first(input, '>') {
            Option::Some(_) => true,
            Option::None => str_contains_str(input, "javascript:"),
        },
    };
    if bad {
        Result::Err(AppError::ValidationError(String::from_str("Validation Error")))
    } else {
        Result::Ok(())
    }
}

/// A valid username once trimmed: nonempty, 3 to 50 bytes, only allowed
/// characters, not reserved (after Unicode lowercasing), and free of
/// script-injection payloads.
pub open spec fn username_ok(u: Seq<char>) -> bool {
    let t = trim_spec(u);
    &&& t.len() > 0
    &&& 3 <= byte_len(t) <= 50
    &&& forall|i: int| 0 <= i < t.len() ==> username_char_ok(t[i])
    &&& !is_reserved_name(lowercase_of(t))
    &&& !has_xss_payload(t)
}

/// What [`validate_username`] returns on `u`: the checks run in order on the
/// trimmed input, each with its own error.
pub open spec fn validate_username_post(u: Seq<char>, r: Result<(), AppError>) -> bool {
    let t = trim_spec(u);
    if t.len() == 0 {
        r matches Err(AppError::ValidationError(m)) && m@ == "Username cannot be empty"@
    } else if byte_len(t) < 3 {
        r matches Err(AppError::ValidationError(m)) && m@ == "Username must be at least 3 characters"@
    } else if byte_len(t) > 50 {
        r matches Err(AppError::ValidationError(m)) && m@ == "Username must be at most 50 characters"@
    } else if !(forall|i: int| 0 <= i < t.len() ==> username_char_ok(t[i])) {
        r matches Err(AppError::ValidationError(m)) && m@ == "Validation Error"@
    } else if is_reserved_name(lowercase_of(t)) {
        r matches Err(AppError::Conflict(m)) && m@ == "Reserved Username"@
    } else {
        no_xss_post(t, r)
    }
}

/// Validates a username: trimmed, it must be nonempty, 3 to 50 bytes long,
/// contain only alphanumerics, underscores and dashes, not be a reserved
/// name, and carry no script-injection payload.
pub fn validate_username(username: &str) -> (r: Result<(), AppError>)
    ensures
        validate_username_post(username@, r),
        r is Ok <==> username_ok(username@),
{
    let trimmed = trim(username);
    if trimmed.is_empty() {
        return Result::Err(
            AppError::ValidationError(String::from_str("Username cannot be empty")),
        );
    }
    if trimmed.len() < 3 {
        return Result::Err(
            AppError::ValidationError(String::from_str("Username must be at least 3 characters")),
        );
    }
    if trimmed.len() > 50 {
        return Result::Err(
            AppError::ValidationError(String::from_str("Username must be at most 50 characters")),
        );
    }
    let n = trimmed.unicode_len();
    let mut i: usize = 0;
    while i < n
        invariant
            0 <= i <= n,
            n == trimmed@.len(),
            trimmed@ == trim_spec(username@),
            trimmed@.len() > 0,
            3 <= byte_len(trimmed@) <= 50,
            forall|k: int| 0 <= k < i ==> username_char_ok(trimmed@[k]),
        decreases n - i,
    {
        let c = trimmed.get_char(i);
        if !(c.is_alphanumeric() || c == '_' || c == '-') {
            return Result::Err(AppError::ValidationError(String::from_str("Validation Error")));
        }
        i = i + 1;
    }
    let lowered = trimmed.to_lowercase();
    if is_reserved_username(lowered.as_str()) {
        return Result::Err(AppError::Conflict(String::from_str("Reserved Username")));
    }
    match validate_no_xss(trimmed) {
        Result::Ok(()) => Result::Ok(()),
        Result::Err(e) => Result::Err(e),
    }
}

/// A valid email once trimmed: it contains `@` and `.`, does not start with
/// `@`, and some `@` precedes some `.`.
pub open spec fn email_ok(e: Seq<char>) -> bool {
    let t = trim_spec(e);
    &&& contains_char(t, '@')
    &&& contains_char(t, '.')
    &&& t.len() > 0
    &&& t[0] != '@'
    &&& exists|i: int, j: int|
        #![trigger t[i], t[j]]
        0 <= i < j < t.len() && t[i] == '@' && t[j] == '.'
}

/// What [`validate_email`] returns on `e`: success exactly on [`email_ok`],
/// and one uniform validation error otherwise.
pub open spec fn validate_email_post(e: Seq<char>, r: Result<(), AppError>) -> bool {
    if email_ok(e) {
        r is Ok
    } else {
        r matches Err(AppError::ValidationError(m)) && m@ == "Validation Error"@
    }
}

/// Validates an email address: the trimmed input must contain `@` and `.`,
/// have content before the first `@`, and the first `@` must precede the
/// last `.`.
pub fn validate_email(email: &str) -> (r: Result<(), AppError>)
    ensures
        validate_email_post(email@, r),
        r is Ok <==> email_ok(email@),
{
    let trimmed = trim(email);
    let at = find_first(trimmed, '@');
    let dot = find_last(trimmed, '.');
    let ok = match (at, dot) {
        (Option::Some(a), Option::Some(d)) => {
            proof {
                if a < d {
                    assert(trimmed@[a as int] == '@' && trimmed@[d as int] == '.');
                }
                if exists|i: int, j: int|
                    #![trigger trimmed@[i], trimmed@[j]]
                    0 <= i < j < trimmed@.len() && trimmed@[i] == '@' && trimmed@[j] == '.' {
                    let (i, j) = choose|i: int, j: int|
                        #![trigger trimmed@[i], trimmed@[j]]
                        0 <= i < j < trimmed@.len() && trimmed@[i] == '@' && trimmed@[j] == '.';
                    assert(a <= i);
                    assert(j <= d);
                }
            }
            a > 0 && a < d
        },
        _ => false,
    };
    if ok {
        Result::Ok(())
    } else {
        Result::Err(AppError::ValidationError(String::from_str("Validation Error")))
    }
}

/// A valid password: 6 to 128 bytes, untrimmed.
pub open spec fn password_ok(p: Seq<char>) -> bool {
    6 <= byte_len(p) <= 128
}

/// What [`validate_password`] returns on `p`: the length checks in order.
pub open spec fn validate_password_post(p: Seq<char>, r: Result<(), AppError>) -> bool {
    if byte_len(p) < 6 {
        r matches Err(AppError::ValidationError(m)) && m@
            == "Validation Error (Password too weak)"@
    } else if byte_len(p) > 128 {
        r matches Err(AppError::ValidationError(m)) && m@ == "Validation Error"@
    } else {
        r is Ok
    }
}

/// Validates a password: it must be 6 to 128 bytes long.
pub fn validate_password(password: &str) -> (r: Result<(), AppError>)
    ensures
        validate_password_post(password@, r),
        r is Ok <==> password_ok(password@),
{
    if password.len() < 6 {
        return Result::Err(
            AppError::ValidationError(String::from_str("Validation Error (Password too weak)")),
        );
    }
    if password.len() > 128 {
        return Result::Err(AppError::ValidationError(String::from_str("Validation Error")));
    }
    Result::Ok(())
}

/// A valid phone number: a `+` followed only by ASCII digits, 10 to 15
/// bytes in all.
pub open spec fn phone_ok(p: Seq<char>) -> bool {
    &&& p.len() >= 1
    &&& p[0] == '+'
    &&& forall|i: int| 1 <= i < p.len() ==> crate::numbers::is_digit_char(p[i])
    &&& 10 <= byte_len(p) <= 15
}

/// What [`validate_phone`] returns on `p`: success exactly on [`phone_ok`],
/// and one uniform validation error otherwise.
pub open spec fn validate_phone_post(p: Seq<char>, r: Result<(), AppError>) -> bool {
    if phone_ok(p) {
        r is Ok
    } else {
        r matches Err(AppError::ValidationError(m)) && m@ == "Validation Error"@
    }
}

/// Validates a phone number: `+` followed only by digits, 10 to 15 bytes.
pub fn validate_phone(phone: &str) -> (r: Result<(), AppError>)
    ensures
        validate_phone_post(phone@, r),
        r is Ok <==> phone_ok(phone@),
{
    let n = phone.unicode_len();
    let mut ok = n >= 1 && phone.get_char(0) == '+';
    if ok {
        let mut i: usize = 1;
        while i < n && ok
            invariant
                1 <= i <= n,
                n == phone@.len(),
                ok ==> forall|k: int| 1 <= k < i ==> crate::numbers::is_digit_char(phone@[k]),
                !ok ==> !(forall|k: int|
                    1 <= k < n ==> crate::numbers::is_digit_char(phone@[k])),
            decreases n - i,
        {
            let c = phone.get_char(i) as u32;
            if c < 0x30 || c > 0x39 {
                ok = false;
            }
            i = i + 1;
        }
    }
    if ok {
        ok = 10 <= phone.len() && phone.len() <= 15;
    }
    if ok {
        Result::Ok(())
    } else {
        Result::Err(AppError::ValidationError(String::from_str("Validation Error")))
    }
}

} // verus!

//! Credential validation for the API-key middleware.
//!
//! An `Authorization` header value is authorized against an expected secret
//! when it equals the secret exactly, carries it behind a literal `"Bearer "`
//! or `"bearer "` prefix, or consists of exactly two whitespace-separated
//! tokens whose scheme is `bearer` up to ASCII case and whose token equals
//! the secret. An empty expected secret authorizes nothing: an unconfigured
//! secret must never let traffic through.

use vstd::prelude::*;

use crate::text::{
    eq_icase_char, eq_icase_seq, is_space_char, lemma_trim_edges, lemma_ws_tokens_of_word,
    lemma_ws_tokens_skip_space, lemma_ws_tokens_word, str_eq, str_eq_icase, trim, trim_spec,
    ws_token_strings, ws_tokens,
};

verus! {

/// The seven characters of the literal upper-case bearer prefix.
pub open spec fn bearer_uc_prefix() -> Seq<char> {
    seq!['B', 'e', 'a', 'r', 'e', 'r', ' ']
}

/// The seven characters of the literal lower-case bearer prefix.
pub open spec fn bearer_lc_prefix() -> Seq<char> {
    seq!['b', 'e', 'a', 'r', 'e', 'r', ' ']
}

/// The scheme word compared case-insensitively on the split path.
pub open spec fn bearer_word() -> Seq<char> {
    seq!['b', 'e', 'a', 'r', 'e', 'r']
}

/// The header starts with `"Bearer "` or `"bearer "` and the trimmed
/// remainder equals the secret.
pub open spec fn bearer_prefix_match(h: Seq<char>, key: Seq<char>) -> bool {
    h.len() >= 7 && (h.take(7) == bearer_uc_prefix() || h.take(7) == bearer_lc_prefix())
        && trim_spec(h.skip(7)) == key
}

/// The header splits into exactly a scheme equal to `bearer` up to ASCII
/// case and a token equal to the secret.
pub open spec fn scheme_split_match(h: Seq<char>, key: Seq<char>) -> bool {
    ws_tokens(h).len() == 2 && eq_icase_seq(ws_tokens(h)[0], bearer_word()) && ws_tokens(h)[1]
        == key
}

/// What [`is_authorized`] decides: a nonempty secret carried in one of the
/// three accepted header forms.
pub open spec fn is_authorized_spec(h: Seq<char>, key: Seq<char>) -> bool {
    key.len() > 0 && (h == key || bearer_prefix_match(h, key) || scheme_split_match(h, key))
}

proof fn lemma_prefix_chars(h: Seq<char>)
    requires
        h.len() >= 7,
    ensures
        (h.take(7) == bearer_uc_prefix()) <==> (h[0] == 'B' && h[1] == 'e' && h[2] == 'a' && h[3]
            == 'r' && h[4] == 'e' && h[5] == 'r' && h[6] == ' '),
        (h.take(7) == bearer_lc_prefix()) <==> (h[0] == 'b' && h[1] == 'e' && h[2] == 'a' && h[3]
            == 'r' && h[4] == 'e' && h[5] == 'r' && h[6] == ' '),
{
    assert(forall|i: int| 0 <= i < 7 ==> #[trigger] h.take(7)[i] == h[i]);
    if h[0] == 'B' && h[1] == 'e' && h[2] == 'a' && h[3] == 'r' && h[4] == 'e' && h[5] == 'r'
        && h[6] == ' ' {
        assert(h.take(7) =~= bearer_uc_prefix());
    }
    if h[0] == 'b' && h[1] == 'e' && h[2] == 'a' && h[3] == 'r' && h[4] == 'e' && h[5] == 'r'
        && h[6] == ' ' {
        assert(h.take(7) =~= bearer_lc_prefix());
    }
}

/// Checks whether the provided header value matches the expected API key.
///
/// Accepted forms, mirrored exactly by [`is_authorized_spec`]:
/// - the plain key itself;
/// - `Bearer <key>` or `bearer <key>` (two literal prefixes, remainder
///   trimmed);
/// - `<scheme> <token>` split on whitespace, with the scheme equal to
///   `bearer` up to ASCII case and the token equal to the key.
///
/// An empty expected key is never authorized.
pub fn is_authorized(header_value: &str, expected_key: &str) -> (r: bool)
    ensures
        r == is_authorized_spec(header_value@, expected_key@),
{
    if expected_key.unicode_len() == 0 {
        return false;
    }
    if str_eq(header_value, expected_key) {
        return true;
    }
    let n = header_value.unicode_len();
    let mut prefix_form = n >= 7;
    if prefix_form {
        let c0 = header_value.get_char(0);
        prefix_form = (c0 == 'B' || c0 == 'b') && header_value.get_char(1) == 'e'
            && header_value.get_char(2) == 'a' && header_value.get_char(3) == 'r'
            && header_value.get_char(4) == 'e' && header_value.get_char(5) == 'r'
            && header_value.get_char(6) == ' ';
        proof {
            lemma_prefix_chars(header_value@);
        }
    }
    if prefix_form {
        let rest = header_value.substring_char(7, n);
        let trimmed = trim(rest);
        if str_eq(trimmed, expected_key) {
            proof {
                assert(header_value@.skip(7) =~= header_value@.subrange(
                    7,
                    header_value@.len() as int,
                ));
            }
            return true;
        }
        proof {
            assert(header_value@.skip(7) =~= header_value@.subrange(
                7,
                header_value@.len() as int,
            ));
            assert(!bearer_prefix_match(header_value@, expected_key@));
        }
    }
    let tokens = ws_token_strings(header_value);
    if tokens.len() != 2 {
        return false;
    }
    let scheme_ok = str_eq_icase(tokens[0].as_str(), "bearer");
    proof {
        reveal_strlit("bearer");
        assert("bearer"@ =~= bearer_word());
    }
    if !scheme_ok {
        return false;
    }
    str_eq(tokens[1].as_str(), expected_key)
}

/// A classified authorization value, ephemeral and never persisted.
#[derive(Clone, Copy, Debug, PartialEq, Eq, Structural)]
pub enum Credential {
    /// No `Authorization` header was sent.
    Absent,
    /// The trimmed header equals the secret exactly.
    PlainMatch,
    /// The secret arrived in one of the bearer forms.
    BearerMatch,
    /// The header names a scheme other than `bearer`.
    SchemeMismatch,
    /// The header parses but does not carry the secret.
    ValueMismatch,
}

/// How [`classify`] reads a raw header against the expected secret. The
/// header is trimmed first, as the middleware trims it.
pub open spec fn classify_spec(header: Option<Seq<char>>, key: Seq<char>) -> Credential {
    match header {
        Option::None => Credential::Absent,
        Option::Some(h) => {
            let t = trim_spec(h);
            if key.len() > 0 && t == key {
                Credential::PlainMatch
            } else if key.len() > 0 && (bearer_prefix_match(t, key) || scheme_split_match(
                t,
                key,
            )) {
                Credential::BearerMatch
            } else if ws_tokens(t).len() >= 2 && !eq_icase_seq(ws_tokens(t)[0], bearer_word()) {
                Credential::SchemeMismatch
            } else {
                Credential::ValueMismatch
            }
        },
    }
}

/// Whether a classification authorizes the request.
pub open spec fn credential_authorizes(c: Credential) -> bool {
    c == Credential::PlainMatch || c == Credential::BearerMatch
}

/// Classifies a raw `Authorization` header value against the expected
/// secret.
pub fn classify(header: Option<&str>, expected_key: &str) -> (c: Credential)
    ensures
        c == classify_spec(
            match header {
                Option::Some(h) => Option::Some(h@),
                Option::None => Option::None,
            },
            expected_key@,
        ),
{
    let h = match header {
        Option::Some(h) => h,
        Option::None => {
            return Credential::Absent;
        },
    };
    let t = trim(h);
    let key_set = expected_key.unicode_len() > 0;
    if key_set && str_eq(t, expected_key) {
        return Credential::PlainMatch;
    }
    if is_authorized(t, expected_key) {
        return Credential::BearerMatch;
    }
    let tokens = ws_token_strings(t);
    proof {
        reveal_strlit("bearer");
        assert("bearer"@ =~= bearer_word());
    }
    if tokens.len() >= 2 && !str_eq_icase(tokens[0].as_str(), "bearer") {
        return Credential::SchemeMismatch;
    }
    Credential::ValueMismatch
}

/// A classification authorizes the request exactly when the trimmed header
/// passes [`is_authorized`].
pub proof fn lemma_classify_matches_authorization(h: Seq<char>, key: Seq<char>)
    ensures
        credential_authorizes(classify_spec(Option::Some(h), key)) == is_authorized_spec(
            trim_spec(h),
            key,
        ),
        !credential_authorizes(classify_spec(Option::<Seq<char>>::None, key)),
{
}

/// API-key authentication middleware factory.
///
/// The surrounding web layer wraps each service it builds in an
/// [`ApiKeyMiddlewareService`] holding the expected key.
pub struct ApiKeyMiddleware;

/// Service wrapper that screens each request's `Authorization` header
/// against the expected API key before the inner service runs.
pub struct ApiKeyMiddlewareService<S> {
    /// The wrapped inner service.
    pub service: S,
    /// The expected API key; empty when unconfigured, which authorizes
    /// nothing.
    pub api_key: String,
}

impl<S> ApiKeyMiddlewareService<S> {
    /// Wraps `service`, screening requests against `api_key`.
    pub fn new(service: S, api_key: String) -> (r: Self)
        ensures
            r.service == service,
            r.api_key == api_key,
    {
        ApiKeyMiddlewareService { service, api_key }
    }

    /// Whether a request carrying `header` may pass a service configured
    /// with `key`: the trimmed header (empty when absent) must be
    /// authorized.
    pub open spec fn allows_spec(key: Seq<char>, header: Option<Seq<char>>) -> bool {
        is_authorized_spec(
            trim_spec(
                match header {
                    Option::Some(h) => h,
                    Option::None => Seq::empty(),
                },
            ),
            key,
        )
    }

    /// Decides whether the request may proceed to the inner service.
    pub fn authorizes(&self, auth_header: Option<&str>) -> (ok: bool)
        ensures
            ok == Self::allows_spec(
                self.api_key@,
                match auth_header {
                    Option::Some(h) => Option::Some(h@),
                    Option::None => Option::None,
                },
            ),
    {
        let raw = match auth_header {
            Option::Some(h) => h,
            Option::None => "",
        };
        proof {
            reveal_strlit("");
            assert(""@ =~= Seq::<char>::empty());
        }
        let value = trim(raw);
        let key = self.api_key.as_str();
        if key.is_empty() {
            false
        } else {
            is_authorized(value, key)
        }
    }
}

/// LAW: every documented positive form is authorized. For any nonempty,
/// whitespace-free secret, the secret itself, `Bearer <secret>`,
/// `bearer <secret>`, and `BEARER <secret>` (via the scheme-split path) all
/// pass.
pub proof fn lemma_authorized_accepts_documented_forms(key: Seq<char>)
    requires
        key.len() > 0,
        forall|i: int| 0 <= i < key.len() ==> !is_space_char(key[i]),
    ensures
        is_authorized_spec(key, key),
        is_authorized_spec(bearer_uc_prefix() + key, key),
        is_authorized_spec(bearer_lc_prefix() + key, key),
        is_authorized_spec(seq!['B', 'E', 'A', 'R', 'E', 'R', ' '] + key, key),
{
    lemma_trim_edges(key);
    let hu = bearer_uc_prefix() + key;
    assert(hu.take(7) =~= bearer_uc_prefix());
    assert(hu.skip(7) =~= key);
    assert(bearer_prefix_match(hu, key));
    let hl = bearer_lc_prefix() + key;
    assert(hl.take(7) =~= bearer_lc_prefix());
    assert(hl.skip(7) =~= key);
    assert(bearer_prefix_match(hl, key));
    let word = seq!['B', 'E', 'A', 'R', 'E', 'R'];
    let tail = seq![' '] + key;
    let hs = seq!['B', 'E', 'A', 'R', 'E', 'R', ' '] + key;
    assert(hs =~= word + tail);
    assert(forall|k: int| 0 <= k < word.len() ==> !is_space_char(word[k]));
    lemma_ws_tokens_word(word, tail);
    lemma_ws_tokens_skip_space(tail, 1);
    assert(tail.skip(1) =~= key);
    lemma_ws_tokens_of_word(key);
    assert(ws_tokens(hs) =~= seq![word, key]);
    assert(eq_icase_seq(word, bearer_word()));
    assert(scheme_split_match(hs, key));
}

/// LAW: authorization fails closed on an unconfigured secret. No header value at
/// all — not even the empty string — is authorized against an empty
/// expected secret.
pub proof fn lemma_authorized_rejects_empty_secret(h: Seq<char>)
    ensures
        !is_authorized_spec(h, Seq::<char>::empty()),
{
}

/// LAW: a scheme other than `bearer` is rejected. A two-token header whose
/// first token differs from `bearer` up to ASCII case never authorizes a
/// whitespace-free secret.
pub proof fn lemma_authorized_rejects_wrong_scheme(
    scheme: Seq<char>,
    token: Seq<char>,
    key: Seq<char>,
)
    requires
        scheme.len() > 0,
        token.len() > 0,
        forall|i: int| 0 <= i < scheme.len() ==> !is_space_char(scheme[i]),
        forall|i: int| 0 <= i < token.len() ==> !is_space_char(token[i]),
        forall|i: int| 0 <= i < key.len() ==> !is_space_char(key[i]),
        !eq_icase_seq(scheme, bearer_word()),
    ensures
        !is_authorized_spec(scheme + seq![' '] + token, key),
{
    let h = scheme + seq![' '] + token;
    let sl = scheme.len() as int;
    assert(forall|i: int| 0 <= i < sl ==> h[i] == scheme[i]);
    assert(h[sl] == ' ');
    assert(is_space_char(' '));
    assert(h != key) by {
        if h == key {
            assert(key[sl] == ' ');
        }
    }
    assert(!bearer_prefix_match(h, key)) by {
        if h.len() >= 7 && (h.take(7) == bearer_uc_prefix() || h.take(7)
            == bearer_lc_prefix()) {
            lemma_prefix_chars(h);
            assert(h[1] != ' ' && h[2] != ' ' && h[3] != ' ' && h[4] != ' ' && h[5] != ' ');
            if sl > 6 {
                assert(scheme[6] == h[6] && h[6] == ' ');
            }
            assert(sl == 6);
            assert(eq_icase_seq(scheme, bearer_word()));
        }
    }
    assert(!scheme_split_match(h, key)) by {
        let tail = seq![' '] + token;
        assert(h =~= scheme + tail);
        lemma_ws_tokens_word(scheme, tail);
        lemma_ws_tokens_skip_space(tail, 1);
        assert(tail.skip(1) =~= token);
        lemma_ws_tokens_of_word(token);
        assert(ws_tokens(h) =~= seq![scheme, token]);
    }
}

/// LAW: extra whitespace-separated tokens beyond `(scheme, token)` are
/// rejected, whatever the three tokens are, for a whitespace-free secret.
pub proof fn lemma_authorized_rejects_extra_tokens(
    a: Seq<char>,
    b: Seq<char>,
    c: Seq<char>,
    key: Seq<char>,
)
    requires
        a.len() > 0,
        b.len() > 0,
        c.len() > 0,
        forall|i: int| 0 <= i < a.len() ==> !is_space_char(a[i]),
        forall|i: int| 0 <= i < b.len() ==> !is_space_char(b[i]),
        forall|i: int| 0 <= i < c.len() ==> !is_space_char(c[i]),
        forall|i: int| 0 <= i < key.len() ==> !is_space_char(key[i]),
    ensures
        !is_authorized_spec(a + seq![' '] + b + seq![' '] + c, key),
{
    let h = a + seq![' '] + b + seq![' '] + c;
    let al = a.len() as int;
    let bl = b.len() as int;
    assert(forall|i: int| 0 <= i < al ==> h[i] == a[i]);
    assert(h[al] == ' ');
    assert(is_space_char(' '));
    assert(h != key) by {
        if h == key {
            assert(key[al] == ' ');
        }
    }
    let rest = b + seq![' '] + c;
    assert(rest[bl] == ' ');
    assert(!bearer_prefix_match(h, key)) by {
        if h.len() >= 7 && (h.take(7) == bearer_uc_prefix() || h.take(7)
            == bearer_lc_prefix()) {
            lemma_prefix_chars(h);
            assert(h[1] != ' ' && h[2] != ' ' && h[3] != ' ' && h[4] != ' ' && h[5] != ' ');
            if al > 6 {
                assert(a[6] == h[6] && h[6] == ' ');
            }
            assert(al == 6);
            assert(h.skip(7) =~= rest);
            assert(!is_space_char(rest[0]) && !is_space_char(rest.last()));
            lemma_trim_edges(rest);
            if trim_spec(h.skip(7)) == key {
                assert(key[bl] == ' ');
            }
        }
    }
    assert(!scheme_split_match(h, key)) by {
        let tail2 = seq![' '] + c;
        let tail1 = seq![' '] + (b + tail2);
        assert(h =~= a + tail1);
        lemma_ws_tokens_word(a, tail1);
        lemma_ws_tokens_skip_space(tail1, 1);
        assert(tail1.skip(1) =~= b + tail2);
        lemma_ws_tokens_word(b, tail2);
        lemma_ws_tokens_skip_space(tail2, 1);
        assert(tail2.skip(1) =~= c);
        lemma_ws_tokens_of_word(c);
        assert(ws_tokens(h) =~= seq![a, b, c]);
    }
}

} // verus!

//! Character and string primitives used by the credential check and the
//! input validators: whitespace classification, trimming, equality,
//! ASCII-case-insensitive comparison, whitespace tokenization, and substring
//! search, each specified over the character view of a string.

use vstd::prelude::*;

verus! {

/// Length in bytes of the UTF-8 encoding of the character sequence: what
/// `str::len` returns for a string with these characters.
pub open spec fn byte_len(s: Seq<char>) -> usize {
    vstd::utf8::encode_utf8(s).len() as usize
}

/// A character with the Unicode `White_Space` property; the set `str::trim`
/// and `str::split_whitespace` strip.
pub open spec fn is_space_char(c: char) -> bool {
    let u = c as u32;
    ||| 0x9 <= u <= 0xD
    ||| u == 0x20
    ||| u == 0x85
    ||| u == 0xA0
    ||| u == 0x1680
    ||| 0x2000 <= u <= 0x200A
    ||| u == 0x2028
    ||| u == 0x2029
    ||| u == 0x202F
    ||| u == 0x205F
    ||| u == 0x3000
}

/// Decides [`is_space_char`].
pub fn is_space(c: char) -> (r: bool)
    ensures
        r == is_space_char(c),
{
    let u = c as u32;
    (0x9 <= u && u <= 0xD) || u == 0x20 || u == 0x85 || u == 0xA0 || u == 0x1680 || (0x2000 <= u
        && u <= 0x200A) || u == 0x2028 || u == 0x2029 || u == 0x202F || u == 0x205F || u == 0x3000
}

/// The sequence without its leading whitespace.
pub open spec fn trim_left_spec(s: Seq<char>) -> Seq<char>
    decreases s.len(),
{
    if s.len() > 0 && is_space_char(s[0]) {
        trim_left_spec(s.drop_first())
    } else {
        s
    }
}

/// The sequence without its trailing whitespace.
pub open spec fn trim_right_spec(s: Seq<char>) -> Seq<char>
    decreases s.len(),
{
    if s.len() > 0 && is_space_char(s.last()) {
        trim_right_spec(s.drop_last())
    } else {
        s
    }
}

/// What `str::trim` returns: the sequence without leading and trailing
/// whitespace.
pub open spec fn trim_spec(s: Seq<char>) -> Seq<char> {
    trim_right_spec(trim_left_spec(s))
}

proof fn lemma_trim_left_skip(s: Seq<char>, i: int)
    requires
        0 <= i <= s.len(),
        forall|k: int| 0 <= k < i ==> is_space_char(s[k]),
        i == s.len() || !is_space_char(s[i]),
    ensures
        trim_left_spec(s) == s.skip(i),
    decreases i,
{
    if i == 0 {
        assert(s.skip(0) =~= s);
    } else {
        let t = s.drop_first();
        assert(forall|k: int| 0 <= k < i - 1 ==> t[k] == s[k + 1] && is_space_char(t[k]));
        lemma_trim_left_skip(t, i - 1);
        assert(t.skip(i - 1) =~= s.skip(i));
    }
}

proof fn lemma_trim_right_take(s: Seq<char>, j: int)
    requires
        0 <= j <= s.len(),
        forall|k: int| j <= k < s.len() ==> is_space_char(s[k]),
        j == 0 || !is_space_char(s[j - 1]),
    ensures
        trim_right_spec(s) == s.take(j),
    decreases s.len() - j,
{
    if j == s.len() {
        assert(s.take(j) =~= s);
    } else {
        let t = s.drop_last();
        assert(is_space_char(s.last()));
        lemma_trim_right_take(t, j);
        assert(t.take(j) =~= s.take(j));
    }
}

/// What `str::trim` returns, as an executable function: the argument without
/// leading and trailing whitespace.
pub fn trim(s: &str) -> (r: &str)
    ensures
        r@ == trim_spec(s@),
{
    let n = s.unicode_len();
    let mut i: usize = 0;
    while i < n && is_space(s.get_char(i))
        invariant
            0 <= i <= n,
            n == s@.len(),
            forall|k: int| 0 <= k < i ==> is_space_char(s@[k]),
        decreases n - i,
    {
        i = i + 1;
    }
    let mut j: usize = n;
    while j > i && is_space(s.get_char(j - 1))
        invariant
            i <= j <= n,
            n == s@.len(),
            i == n || !is_space_char(s@[i as int]),
            forall|k: int| 0 <= k < i ==> is_space_char(s@[k]),
            forall|k: int| j <= k < n ==> is_space_char(s@[k]),
        decreases j,
    {
        j = j - 1;
    }
    let r = s.substring_char(i, j);
    proof {
        lemma_trim_left_skip(s@, i as int);
        let t = s@.skip(i as int);
        assert(forall|k: int|
            j - i <= k < t.len() ==> t[k] == s@[k + i] && is_space_char(t[k]));
        assert(j > i ==> !is_space_char(t[j - i - 1])) by {
            if j > i {
                assert(t[j - i - 1] == s@[j - 1]);
            }
        }
        lemma_trim_right_take(t, j - i);
        assert(t.take(j - i) =~= s@.subrange(i as int, j as int));
    }
    r
}

/// Trimming does nothing to a sequence whose first and last characters are
/// not whitespace, and nothing to the empty sequence.
pub proof fn lemma_trim_edges(s: Seq<char>)
    requires
        s.len() == 0 || (!is_space_char(s[0]) && !is_space_char(s.last())),
    ensures
        trim_spec(s) == s,
{
}

/// Decides whether two strings have the same characters.
pub fn str_eq(a: &str, b: &str) -> (r: bool)
    ensures
        r == (a@ == b@),
{
    let na = a.unicode_len();
    let nb = b.unicode_len();
    if na != nb {
        return false;
    }
    let mut i: usize = 0;
    while i < na
        invariant
            0 <= i <= na,
            na == a@.len(),
            na == b@.len(),
            forall|k: int| 0 <= k < i ==> a@[k] == b@[k],
        decreases na - i,
    {
        if a.get_char(i) != b.get_char(i) {
            return false;
        }
        i = i + 1;
    }
    proof {
        assert(a@ =~= b@);
    }
    true
}

/// Whether the character occurs in the sequence.
pub open spec fn contains_char(s: Seq<char>, c: char) -> bool {
    exists|i: int| 0 <= i < s.len() && s[i] == c
}

/// Index of the first occurrence of `c`, if any.
pub fn find_first(s: &str, c: char) -> (r: Option<usize>)
    ensures
        match r {
            Some(i) => i < s@.len() && s@[i as int] == c && forall|k: int|
                0 <= k < i ==> s@[k] != c,
            None => !contains_char(s@, c),
        },
{
    let n = s.unicode_len();
    let mut i: usize = 0;
    while i < n
        invariant
            0 <= i <= n,
            n == s@.len(),
            forall|k: int| 0 <= k < i ==> s@[k] != c,
        decreases n - i,
    {
        if s.get_char(i) == c {
            return Some(i);
        }
        i = i + 1;
    }
    None
}

/// Index of the last occurrence of `c`, if any.
pub fn find_last(s: &str, c: char) -> (r: Option<usize>)
    ensures
        match r {
            Some(i) => i < s@.len() && s@[i as int] == c && forall|k: int|
                i < k < s@.len() ==> s@[k] != c,
            None => !contains_char(s@, c),
        },
{
    let n = s.unicode_len();
    let mut j: usize = n;
    while j > 0
        invariant
            0 <= j <= n,
            n == s@.len(),
            forall|k: int| j <= k < n ==> s@[k] != c,
        decreases j,
    {
        if s.get_char(j - 1) == c {
            return Some(j - 1);
        }
        j = j - 1;
    }
    None
}

/// The code point of `c` with an ASCII upper-case letter folded to lower
/// case; other characters are left as they are.
pub open spec fn lower_code(c: char) -> int {
    if 0x41 <= c as int <= 0x5A {
        c as int + 0x20
    } else {
        c as int
    }
}

/// Character equality up to ASCII case, as `str::eq_ignore_ascii_case`
/// compares single characters.
pub open spec fn eq_icase_char(a: char, b: char) -> bool {
    lower_code(a) == lower_code(b)
}

/// Sequence equality up to ASCII case.
pub open spec fn eq_icase_seq(a: Seq<char>, b: Seq<char>) -> bool {
    a.len() == b.len() && forall|i: int| 0 <= i < a.len() ==> eq_icase_char(a[i], b[i])
}

/// Decides [`eq_icase_seq`] on two strings.
pub fn str_eq_icase(a: &str, b: &str) -> (r: bool)
    ensures
        r == eq_icase_seq(a@, b@),
{
    let na = a.unicode_len();
    let nb = b.unicode_len();
    if na != nb {
        return false;
    }
    let mut i: usize = 0;
    while i < na
        invariant
            0 <= i <= na,
            na == a@.len(),
            na == b@.len(),
            forall|k: int| 0 <= k < i ==> eq_icase_char(a@[k], b@[k]),
        decreases na - i,
    {
        let ca = a.get_char(i) as u32;
        let cb = b.get_char(i) as u32;
        let la = if 0x41 <= ca && ca <= 0x5A {
            ca + 0x20
        } else {
            ca
        };
        let lb = if 0x41 <= cb && cb <= 0x5A {
            cb + 0x20
        } else {
            cb
        };
        if la != lb {
            return false;
        }
        i = i + 1;
    }
    true
}

/// Length of the longest whitespace-free prefix.
pub open spec fn non_ws_prefix_len(s: Seq<char>) -> nat
    decreases s.len(),
{
    if s.len() > 0 && !is_space_char(s[0]) {
        1 + non_ws_prefix_len(s.drop_first())
    } else {
        0
    }
}

proof fn lemma_non_ws_prefix_len_bound(s: Seq<char>)
    ensures
        non_ws_prefix_len(s) <= s.len(),
    decreases s.len(),
{
    if s.len() > 0 && !is_space_char(s[0]) {
        lemma_non_ws_prefix_len_bound(s.drop_first());
    }
}

/// Characterization of [`non_ws_prefix_len`] by a scan position: `m` points
/// just past a whitespace-free prefix and at whitespace or the end.
proof fn lemma_non_ws_prefix_len_at(s: Seq<char>, m: int)
    requires
        0 <= m <= s.len(),
        forall|k: int| 0 <= k < m ==> !is_space_char(s[k]),
        m == s.len() || is_space_char(s[m]),
    ensures
        non_ws_prefix_len(s) == m,
    decreases m,
{
    if m == 0 {
    } else {
        let t = s.drop_first();
        assert(forall|k: int| 0 <= k < m - 1 ==> t[k] == s[k + 1] && !is_space_char(t[k]));
        assert(m - 1 == t.len() || is_space_char(t[m - 1]));
        lemma_non_ws_prefix_len_at(t, m - 1);
    }
}

/// The maximal whitespace-separated tokens of the sequence, in order: what
/// `str::split_whitespace` yields.
pub open spec fn ws_tokens(s: Seq<char>) -> Seq<Seq<char>>
    decreases s.len(),
    via ws_tokens_decreases
{
    if s.len() == 0 {
        Seq::empty()
    } else if is_space_char(s[0]) {
        ws_tokens(s.drop_first())
    } else {
        seq![s.take(non_ws_prefix_len(s) as int)] + ws_tokens(s.skip(non_ws_prefix_len(s) as int))
    }
}

#[via_fn]
proof fn ws_tokens_decreases(s: Seq<char>) {
    if s.len() > 0 && !is_space_char(s[0]) {
        lemma_non_ws_prefix_len_bound(s);
        assert(non_ws_prefix_len(s) >= 1);
    }
}

/// Leading whitespace contributes no token.
pub proof fn lemma_ws_tokens_skip_space(s: Seq<char>, i: int)
    requires
        0 <= i <= s.len(),
        forall|k: int| 0 <= k < i ==> is_space_char(s[k]),
    ensures
        ws_tokens(s) == ws_tokens(s.skip(i)),
    decreases i,
{
    if i == 0 {
        assert(s.skip(0) =~= s);
    } else {
        let t = s.drop_first();
        assert(forall|k: int| 0 <= k < i - 1 ==> t[k] == s[k + 1] && is_space_char(t[k]));
        lemma_ws_tokens_skip_space(t, i - 1);
        assert(t.skip(i - 1) =~= s.skip(i));
    }
}

/// A token run followed by the rest: the first token of `word + tail` is
/// `word` whenever `word` is a nonempty whitespace-free run and `tail` does
/// not extend it.
pub proof fn lemma_ws_tokens_word(word: Seq<char>, tail: Seq<char>)
    requires
        word.len() > 0,
        forall|k: int| 0 <= k < word.len() ==> !is_space_char(word[k]),
        tail.len() == 0 || is_space_char(tail[0]),
    ensures
        ws_tokens(word + tail) == seq![word] + ws_tokens(tail),
{
    let s = word + tail;
    assert(s[0] == word[0]);
    assert(forall|k: int| 0 <= k < word.len() ==> s[k] == word[k]);
    assert(word.len() == s.len() || is_space_char(s[word.len() as int]));
    lemma_non_ws_prefix_len_at(s, word.len() as int);
    assert(s.take(word.len() as int) =~= word);
    assert(s.skip(word.len() as int) =~= tail);
}

/// A nonempty whitespace-free sequence is its own single token.
pub proof fn lemma_ws_tokens_of_word(word: Seq<char>)
    requires
        word.len() > 0,
        forall|k: int| 0 <= k < word.len() ==> !is_space_char(word[k]),
    ensures
        ws_tokens(word) == seq![word],
{
    assert(word + Seq::<char>::empty() =~= word);
    lemma_ws_tokens_word(word, Seq::<char>::empty());
    assert(ws_tokens(Seq::<char>::empty()) =~= Seq::<Seq<char>>::empty());
    assert(seq![word] + Seq::<Seq<char>>::empty() =~= seq![word]);
}

/// The whitespace-separated tokens of a string, each as an owned `String`.
pub fn ws_token_strings(s: &str) -> (r: Vec<String>)
    ensures
        r@.len() == ws_tokens(s@).len(),
        forall|k: int| 0 <= k < r@.len() ==> r@[k]@ == ws_tokens(s@)[k],
{
    let n = s.unicode_len();
    let mut out: Vec<String> = Vec::new();
    let mut i: usize = 0;
    proof {
        assert(s@.skip(0) =~= s@);
        assert(out@.map_values(|t: String| t@) + ws_tokens(s@) =~= ws_tokens(s@));
    }
    while i < n
        invariant
            0 <= i <= n,
            n == s@.len(),
            ws_tokens(s@) == out@.map_values(|t: String| t@) + ws_tokens(s@.skip(i as int)),
        decreases n - i,
    {
        if is_space(s.get_char(i)) {
            proof {
                let t = s@.skip(i as int);
                assert(t[0] == s@[i as int]);
                assert(t.drop_first() =~= s@.skip(i + 1));
            }
            i = i + 1;
        } else {
            let start = i;
            let mut j: usize = i + 1;
            while j < n && !is_space(s.get_char(j))
                invariant
                    start < j <= n,
                    n == s@.len(),
                    forall|k: int| start <= k < j ==> !is_space_char(s@[k]),
                decreases n - j,
            {
                j = j + 1;
            }
            let tok = s.substring_char(start, j);
            let owned = tok.to_owned();
            proof {
                let t = s@.skip(start as int);
                assert(forall|k: int|
                    0 <= k < j - start ==> t[k] == s@[k + start] && !is_space_char(t[k]));
                assert(j - start == t.len() || is_space_char(t[j - start]));
                lemma_non_ws_prefix_len_at(t, j - start);
                assert(t.take(j - start) =~= s@.subrange(start as int, j as int));
                assert(t.skip(j - start) =~= s@.skip(j as int));
                assert(ws_tokens(t) == seq![s@.subrange(start as int, j as int)] + ws_tokens(
                    s@.skip(j as int),
                ));
            }
            let ghost prev = out@;
            out.push(owned);
            proof {
                assert(out@ =~= prev + seq![owned]);
                assert(out@.map_values(|t: String| t@) =~= prev.map_values(|t: String| t@)
                    + seq![owned@]);
                assert(ws_tokens(s@) =~= out@.map_values(|t: String| t@) + ws_tokens(
                    s@.skip(j as int),
                ));
            }
            i = j;
        }
    }
    proof {
        assert(s@.skip(n as int) =~= Seq::<char>::empty());
        assert(ws_tokens(s@) =~= out@.map_values(|t: String| t@));
    }
    out
}

/// Whether `needle` occurs as a contiguous subsequence of `hay`.
pub open spec fn contains_seq(hay: Seq<char>, needle: Seq<char>) -> bool {
    exists|i: int|
        0 <= i && i + needle.len() <= hay.len() && #[trigger] hay.subrange(i, i + needle.len())
            == needle
}

/// Decides [`contains_seq`] on two strings.
pub fn str_contains_str(hay: &str, needle: &str) -> (r: bool)
    ensures
        r == contains_seq(hay@, needle@),
{
    let nh = hay.unicode_len();
    let nn = needle.unicode_len();
    if nn > nh {
        return false;
    }
    let mut i: usize = 0;
    while i <= nh - nn
        invariant
            0 <= i <= nh - nn + 1,
            nn <= nh,
            nh == hay@.len(),
            nn == needle@.len(),
            forall|p: int| 0 <= p < i ==> #[trigger] hay@.subrange(p, p + nn) != needle@,
        decreases nh - nn - i + 1,
    {
        let mut j: usize = 0;
        let mut matched = true;
        while j < nn
            invariant
                0 <= j <= nn,
                i + nn <= nh,
                nh == hay@.len(),
                nn == needle@.len(),
                matched <==> forall|k: int| 0 <= k < j ==> hay@[i + k] == needle@[k],
            decreases nn - j,
        {
            if hay.get_char(i + j) != needle.get_char(j) {
                matched = false;
                proof {
                    assert(!(forall|k: int| 0 <= k < j + 1 ==> hay@[i + k] == needle@[k]));
                }
                j = nn;
            } else {
                j = j + 1;
            }
        }
        if matched {
            proof {
                assert(hay@.subrange(i as int, i + nn) =~= needle@);
            }
            return true;
        }
        proof {
            assert(hay@.subrange(i as int, i + nn) != needle@) by {
                if hay@.subrange(i as int, i + nn) == needle@ {
                    assert(forall|k: int|
                        0 <= k < nn ==> hay@[i + k] == #[trigger] hay@.subrange(
                            i as int,
                            i + nn,
                        )[k]);
                }
            }
        }
        i = i + 1;
    }
    false
}

} // verus!

//! Decimal parsing for configuration values, with exact success and failure
//! conditions: an optional sign followed by one or more ASCII digits whose
//! value fits the target type, and nothing else.

use vstd::prelude::*;

verus! {

/// An ASCII decimal digit.
pub open spec fn is_digit_char(c: char) -> bool {
    0x30 <= c as int <= 0x39
}

/// A nonempty run of ASCII digits.
pub open spec fn all_digits(s: Seq<char>) -> bool {
    s.len() > 0 && forall|i: int| 0 <= i < s.len() ==> is_digit_char(s[i])
}

/// The value of a digit run read in base ten.
pub open spec fn digits_val(s: Seq<char>) -> nat
    decreases s.len(),
{
    if s.len() == 0 {
        0
    } else {
        digits_val(s.drop_last()) * 10 + (s.last() as int - 0x30) as nat
    }
}

proof fn lemma_digits_val_take_step(s: Seq<char>, i: int)
    requires
        0 <= i < s.len(),
    ensures
        digits_val(s.take(i + 1)) == digits_val(s.take(i)) * 10 + (s[i] as int - 0x30) as nat,
{
    assert(s.take(i + 1).drop_last() =~= s.take(i));
    assert(s.take(i + 1).last() == s[i]);
}

proof fn lemma_digits_val_prefix_le(s: Seq<char>, j: int)
    requires
        0 <= j <= s.len(),
    ensures
        digits_val(s.take(j)) <= digits_val(s),
    decreases s.len() - j,
{
    if j == s.len() {
        assert(s.take(j) =~= s);
    } else {
        lemma_digits_val_take_step(s, j);
        lemma_digits_val_prefix_le(s, j + 1);
    }
}

/// What parsing an unsigned 32-bit decimal accepts and yields: an optional
/// leading `+`, then only digits, with the value in range.
pub open spec fn parse_u32_spec(s: Seq<char>) -> Option<u32> {
    let body = if s.len() > 0 && s[0] == '+' {
        s.drop_first()
    } else {
        s
    };
    if all_digits(body) && digits_val(body) <= u32::MAX {
        Some(digits_val(body) as u32)
    } else {
        None
    }
}

/// What parsing a signed 64-bit decimal accepts and yields: an optional
/// leading `+` or `-`, then only digits, with the value in range.
pub open spec fn parse_i64_spec(s: Seq<char>) -> Option<i64> {
    let neg = s.len() > 0 && s[0] == '-';
    let body = if s.len() > 0 && (s[0] == '-' || s[0] == '+') {
        s.drop_first()
    } else {
        s
    };
    if !all_digits(body) {
        None
    } else if neg && digits_val(body) <= 0x8000000000000000 {
        Some((-(digits_val(body) as int)) as i64)
    } else if !neg && digits_val(body) <= 0x7FFFFFFFFFFFFFFF {
        Some(digits_val(body) as i64)
    } else {
        None
    }
}

/// Reads the digit run `s@.skip(start)` into a magnitude, or reports that it
/// is empty, contains a non-digit, or exceeds `limit`.
fn parse_magnitude(s: &str, start: usize, limit: u64) -> (r: Option<u64>)
    requires
        start <= s@.len(),
        9 <= limit,
    ensures
        match r {
            Some(v) => all_digits(s@.skip(start as int)) && digits_val(s@.skip(start as int))
                == v && v <= limit,
            None => !all_digits(s@.skip(start as int)) || digits_val(s@.skip(start as int))
                > limit,
        },
{
    let n = s.unicode_len();
    if start == n {
        proof {
            assert(s@.skip(start as int) =~= Seq::<char>::empty());
        }
        return None;
    }
    let ghost body = s@.skip(start as int);
    let mut acc: u64 = 0;
    let mut i: usize = start;
    while i < n
        invariant
            start <= i <= n,
            n == s@.len(),
            body == s@.skip(start as int),
            acc <= limit,
            9 <= limit,
            forall|k: int| 0 <= k < i - start ==> is_digit_char(body[k]),
            acc == digits_val(body.take(i - start)),
        decreases n - i,
    {
        let c = s.get_char(i) as u32;
        if c < 0x30 || c > 0x39 {
            proof {
                assert(body[i - start] == s@[i as int]);
                assert(!is_digit_char(body[i - start]));
            }
            return None;
        }
        let d = (c - 0x30) as u64;
        proof {
            assert(body[i - start] == s@[i as int]);
            lemma_digits_val_take_step(body, i - start);
        }
        if acc > (limit - d) / 10 {
            proof {
                assert(limit - d == 10 * ((limit - d) / 10) + (limit - d) % 10);
                assert(digits_val(body.take(i - start + 1)) > limit);
                lemma_digits_val_prefix_le(body, i - start + 1);
            }
            return None;
        }
        acc = acc * 10 + d;
        i = i + 1;
    }
    proof {
        assert(body.take(n - start) =~= body);
        assert(all_digits(body));
    }
    Some(acc)
}

/// Parses an unsigned 32-bit decimal; `None` exactly on malformed or
/// out-of-range input.
pub fn parse_u32(s: &str) -> (r: Option<u32>)
    ensures
        r == parse_u32_spec(s@),
{
    let n = s.unicode_len();
    let start: usize = if n > 0 && s.get_char(0) == '+' {
        1
    } else {
        0
    };
    proof {
        if start == 1 {
            assert(s@.skip(1) =~= s@.drop_first());
        } else {
            assert(s@.skip(0) =~= s@);
        }
    }
    match parse_magnitude(s, start, 0xFFFFFFFF) {
        Some(v) => Some(v as u32),
        None => None,
    }
}

/// Parses a signed 64-bit decimal; `None` exactly on malformed or
/// out-of-range input.
pub fn parse_i64(s: &str) -> (r: Option<i64>)
    ensures
        r == parse_i64_spec(s@),
{
    let n = s.unicode_len();
    let mut neg = false;
    let mut start: usize = 0;
    if n > 0 {
        let c = s.get_char(0);
        if c == '-' {
            neg = true;
            start = 1;
        } else if c == '+' {
            start = 1;
        }
    }
    proof {
        if start == 1 {
            assert(s@.skip(1) =~= s@.drop_first());
        } else {
            assert(s@.skip(0) =~= s@);
        }
    }
    if neg {
        match parse_magnitude(s, start, 0x8000000000000000) {
            Some(v) => {
                if v == 0x8000000000000000 {
                    Some(i64::MIN)
                } else {
                    Some(-(v as i64))
                }
            },
            None => None,
        }
    } else {
        match parse_magnitude(s, start, 0x7FFFFFFFFFFFFFFF) {
            Some(v) => Some(v as i64),
            None => None,
        }
    }
}

} // verus!

//! Numbers that the wire writes as strings.

use vstd::prelude::*;

use crate::error::DecodeError;
use crate::money::{all_digits, digits_value, is_digit};
use crate::text::{chars_of, string_of};

verus! {

/// The value of `s` read as a `usize` literal: an optional `+`, then one or more digits.
pub open spec fn usize_literal(s: Seq<char>) -> Option<int> {
    let start: int = if s.len() > 0 && s[0] == '+' {
        1
    } else {
        0
    };
    let body = s.subrange(start, s.len() as int);
    if body.len() > 0 && all_digits(body) && digits_value(body) <= usize::MAX {
        Some(digits_value(body))
    } else {
        None
    }
}

/// Decodes a non-negative integer that the wire writes as a string, as
/// `str::parse::<usize>` reads it.
pub fn deserialize_usize(s: &str) -> (r: Result<usize, DecodeError>)
    ensures
        match usize_literal(s@) {
            Some(n) => r == Ok::<usize, DecodeError>(n as usize),
            None => r == Err::<usize, DecodeError>(DecodeError::InvalidNumber),
        },
{
    let v = chars_of(s);
    let start: usize = if v.len() > 0 && v[0] == '+' {
        1
    } else {
        0
    };
    let ghost body = v@.subrange(start as int, v.len() as int);
    if start >= v.len() {
        return Err(DecodeError::InvalidNumber);
    }
    let mut n: usize = 0;
    let mut i: usize = start;
    while i < v.len()
        invariant
            start <= i <= v.len(),
            v@ == s@,
            start == (if v@.len() > 0 && v@[0] == '+' { 1int } else { 0int }),
            body == v@.subrange(start as int, v.len() as int),
            all_digits(body.take(i - start)),
            digits_value(body.take(i - start)) == n,
        decreases v.len() - i,
    {
        let c = v[i];
        assert(body[i - start] == c);
        if !('0' <= c && c <= '9') {
            assert(!all_digits(body));
            return Err(DecodeError::InvalidNumber);
        }
        let d = (c as u32 - '0' as u32) as usize;
        assert(body.take(i + 1 - start).drop_last() =~= body.take(i - start));
        assert(body.take(i + 1 - start).last() == c);
        proof {
            lemma_digits_value_grows(body, (i - start) as int);
        }
        if n > (usize::MAX - d) / 10 {
            proof {
                if all_digits(body) {
                    lemma_digits_value_prefix(body, (i + 1 - start) as int);
                }
            }
            return Err(DecodeError::InvalidNumber);
        }
        n = n * 10 + d;
        assert(all_digits(body.take(i + 1 - start)));
        i = i + 1;
    }
    assert(body.take(i - start) =~= body);
    Ok(n)
}

proof fn lemma_digits_value_grows(s: Seq<char>, k: int)
    requires
        0 <= k < s.len(),
        all_digits(s.take(k)),
        is_digit(s[k]),
    ensures
        digits_value(s.take(k + 1)) == digits_value(s.take(k)) * 10 + (s[k] as int - '0' as int),
{
    assert(s.take(k + 1).drop_last() =~= s.take(k));
}

/// A longer run of digits never writes a smaller number.
proof fn lemma_digits_value_prefix(s: Seq<char>, k: int)
    requires
        0 <= k <= s.len(),
        all_digits(s),
    ensures
        digits_value(s.take(k)) <= digits_value(s),
        digits_value(s.take(k)) >= 0,
    decreases s.len() - k,
{
    if k < s.len() {
        lemma_digits_value_prefix(s, k + 1);
        assert(s.take(k + 1).drop_last() =~= s.take(k));
        assert(is_digit(s[k]));
    } else {
        assert(s.take(k) =~= s);
        lemma_digits_value_nonneg(s);
    }
}

proof fn lemma_digits_value_nonneg(s: Seq<char>)
    requires
        all_digits(s),
    ensures
        digits_value(s) >= 0,
    decreases s.len(),
{
    if s.len() > 0 {
        assert(is_digit(s[s.len() - 1]));
        lemma_digits_value_nonneg(s.drop_last());
    }
}

pub open spec fn is_percentage_char(c: char) -> bool {
    is_digit(c) || c == '.' || c == '-' || c == '+'
}

/// The characters of `s` that can belong to a percentage, in order.
pub open spec fn percentage_chars(s: Seq<char>) -> Seq<char>
    decreases s.len(),
{
    if s.len() == 0 {
        seq![]
    } else if is_percentage_char(s.last()) {
        percentage_chars(s.drop_last()).push(s.last())
    } else {
        percentage_chars(s.drop_last())
    }
}

/// The text that a percentage string leaves to be read as a number: `None` for an empty
/// string, else its digits, points and signs.
pub fn deserialize_percentage(s: &str) -> (r: Option<String>)
    ensures
        s@.len() == 0 ==> r is None,
        s@.len() > 0 ==> (r matches Some(t) && t@ == percentage_chars(s@)),
{
    let cs = chars_of(s);
    if cs.len() == 0 {
        return None;
    }
    let mut kept: Vec<char> = Vec::new();
    let mut i: usize = 0;
    while i < cs.len()
        invariant
            i <= cs.len(),
            cs@ == s@,
            kept@ == percentage_chars(cs@.take(i as int)),
        decreases cs.len() - i,
    {
        assert(cs@.take(i + 1).drop_last() =~= cs@.take(i as int));
        let c = cs[i];
        if ('0' <= c && c <= '9') || c == '.' || c == '-' || c == '+' {
            kept.push(c);
        }
        i = i + 1;
    }
    assert(cs@.take(cs.len() as int) =~= cs@);
    Some(string_of(&kept))
}

} // verus!

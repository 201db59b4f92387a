//! The boolean decoder: strings, numbers, booleans and null read as a tri-state boolean.

use vstd::prelude::*;

use crate::error::DecodeError;
use crate::money::{all_digits, digits_value, is_digit, sign_len};
use crate::text::{chars_of, trim, trimmed};

verus! {

/// What a floating-point wire value says as a boolean: within `f64::EPSILON` of 1.0,
/// exactly 0.0, or anything else.
#[derive(Debug, Clone, Copy, PartialEq, Eq, Structural)]
pub enum FloatReading {
    NearOne,
    Zero,
    Other,
}

/// The shapes in which the wire carries a boolean.
#[derive(Debug, Clone, PartialEq, Eq)]
pub enum BoolWire {
    /// A string, with what it reads as when parsed as an `f64` (`None` when it does not parse).
    Text { text: String, as_float: Option<FloatReading> },
    /// An integer.
    Int(i64),
    /// A floating-point number.
    Float(FloatReading),
    /// A boolean literal.
    Boolean(bool),
    /// A null.
    Null,
}

/// What `str::to_lowercase` returns for `s`.
pub uninterp spec fn lower_of(s: Seq<char>) -> Seq<char>;

/// Relies on `str::to_lowercase`: its result depends on the characters alone.
#[verifier::external_body]
fn lowercase(s: &str) -> (r: String)
    ensures
        r@ == lower_of(s@),
{
    s.to_lowercase()
}

pub open spec fn is_true_token(t: Seq<char>) -> bool {
    ||| t == seq!['t', 'r', 'u', 'e']
    ||| t == seq!['t']
    ||| t == seq!['y', 'e', 's']
    ||| t == seq!['y']
    ||| t == seq!['1']
}

pub open spec fn is_false_token(t: Seq<char>) -> bool {
    ||| t == seq!['f', 'a', 'l', 's', 'e']
    ||| t == seq!['f']
    ||| t == seq!['n', 'o']
    ||| t == seq!['n']
    ||| t == seq!['0']
}

/// The value of `s` read as an `i64` literal: a sign, then one or more digits.
pub open spec fn int_literal(s: Seq<char>) -> Option<int> {
    let body = s.subrange(sign_len(s) as int, s.len() as int);
    let v = digits_value(body);
    let n = if sign_len(s) == 1 && s[0] == '-' {
        -v
    } else {
        v
    };
    if body.len() > 0 && all_digits(body) && i64::MIN <= n <= i64::MAX {
        Some(n)
    } else {
        None
    }
}

pub open spec fn int_rule(i: int) -> Result<Option<bool>, DecodeError> {
    if i == 1 {
        Ok(Some(true))
    } else if i == 0 {
        Ok(Some(false))
    } else {
        Err(DecodeError::NumberNotBinary)
    }
}

pub open spec fn float_rule(f: FloatReading) -> Result<Option<bool>, DecodeError> {
    match f {
        FloatReading::NearOne => Ok(Some(true)),
        FloatReading::Zero => Ok(Some(false)),
        FloatReading::Other => Err(DecodeError::FloatNotBinary),
    }
}

/// The boolean a string `s` stands for, given `folded`, the string lower-cased and
/// trimmed; `None` when no rule reads it.
pub open spec fn bool_rules(folded: Seq<char>, s: Seq<char>, as_float: Option<FloatReading>) -> Option<
    Result<Option<bool>, DecodeError>,
> {
    if is_true_token(folded) {
        Some(Ok(Some(true)))
    } else if is_false_token(folded) {
        Some(Ok(Some(false)))
    } else if s == seq!['t', 'r', 'u', 'e'] {
        Some(Ok(Some(true)))
    } else if s == seq!['f', 'a', 'l', 's', 'e'] {
        Some(Ok(Some(false)))
    } else if let Some(i) = int_literal(s) {
        Some(int_rule(i))
    } else if let Some(f) = as_float {
        Some(float_rule(f))
    } else {
        None
    }
}

/// The boolean a string stands for; `None` when no rule reads it.
pub open spec fn bool_text(s: Seq<char>, as_float: Option<FloatReading>) -> Option<
    Result<Option<bool>, DecodeError>,
> {
    bool_rules(trimmed(lower_of(s)), s, as_float)
}

/// `r` is what the rules owe for `verdict`, a failure to read naming `text`.
pub open spec fn meets_verdict(
    verdict: Option<Result<Option<bool>, DecodeError>>,
    text: Seq<char>,
    r: Result<Option<bool>, DecodeError>,
) -> bool {
    match verdict {
        Some(v) => r == v,
        None => r matches Err(DecodeError::NotABoolean { input }) && input@ == text,
    }
}

/// `r` is what the boolean decoder owes for `raw`.
pub open spec fn bool_decoded(raw: BoolWire, r: Result<Option<bool>, DecodeError>) -> bool {
    match raw {
        BoolWire::Boolean(b) => r == Ok::<Option<bool>, DecodeError>(Some(b)),
        BoolWire::Int(i) => r == int_rule(i as int),
        BoolWire::Float(f) => r == float_rule(f),
        BoolWire::Null => r == Ok::<Option<bool>, DecodeError>(None),
        BoolWire::Text { text, as_float } => meets_verdict(bool_text(text@, as_float), text@, r),
    }
}

fn spells1(v: &Vec<char>, a: char) -> (r: bool)
    ensures
        r == (v@ == seq![a]),
{
    let r = v.len() == 1 && v[0] == a;
    proof {
        if r {
            assert(v@ =~= seq![a]);
        }
    }
    r
}

fn spells2(v: &Vec<char>, a: char, b: char) -> (r: bool)
    ensures
        r == (v@ == seq![a, b]),
{
    let r = v.len() == 2 && v[0] == a && v[1] == b;
    proof {
        if r {
            assert(v@ =~= seq![a, b]);
        }
    }
    r
}

fn spells3(v: &Vec<char>, a: char, b: char, c: char) -> (r: bool)
    ensures
        r == (v@ == seq![a, b, c]),
{
    let r = v.len() == 3 && v[0] == a && v[1] == b && v[2] == c;
    proof {
        if r {
            assert(v@ =~= seq![a, b, c]);
        }
    }
    r
}

fn spells4(v: &Vec<char>, a: char, b: char, c: char, d: char) -> (r: bool)
    ensures
        r == (v@ == seq![a, b, c, d]),
{
    let r = v.len() == 4 && v[0] == a && v[1] == b && v[2] == c && v[3] == d;
    proof {
        if r {
            assert(v@ =~= seq![a, b, c, d]);
        }
    }
    r
}

fn spells5(v: &Vec<char>, a: char, b: char, c: char, d: char, e: char) -> (r: bool)
    ensures
        r == (v@ == seq![a, b, c, d, e]),
{
    let r = v.len() == 5 && v[0] == a && v[1] == b && v[2] == c && v[3] == d && v[4] == e;
    proof {
        if r {
            assert(v@ =~= seq![a, b, c, d, e]);
        }
    }
    r
}

fn true_token(t: &Vec<char>) -> (r: bool)
    ensures
        r == is_true_token(t@),
{
    spells4(t, 't', 'r', 'u', 'e') || spells1(t, 't') || spells3(t, 'y', 'e', 's') || spells1(t, 'y')
        || spells1(t, '1')
}

fn false_token(t: &Vec<char>) -> (r: bool)
    ensures
        r == is_false_token(t@),
{
    spells5(t, 'f', 'a', 'l', 's', 'e') || spells1(t, 'f') || spells2(t, 'n', 'o') || spells1(t, 'n')
        || spells1(t, '0')
}

/// Reads `s` as an `i64` literal, as `str::parse::<i64>` does.
pub fn parse_i64(s: &Vec<char>) -> (r: Option<i64>)
    ensures
        r matches Some(n) ==> int_literal(s@) == Some(n as int),
        r is None ==> int_literal(s@) is None,
{
    let neg = s.len() > 0 && s[0] == '-';
    let start: usize = if s.len() > 0 && (s[0] == '-' || s[0] == '+') {
        1
    } else {
        0
    };
    assert(sign_len(s@) == start);
    let ghost body = s@.subrange(start as int, s.len() as int);
    if start >= s.len() {
        return None;
    }
    let cap: u128 = 0x8000_0000_0000_0001;
    let mut v: u128 = 0;
    let mut i: usize = start;
    while i < s.len()
        invariant
            start <= i <= s.len(),
            cap == 0x8000_0000_0000_0001,
            sign_len(s@) == start,
            neg == (start == 1 && s@[0] == '-'),
            body == s@.subrange(start as int, s.len() as int),
            all_digits(body.take(i - start)),
            v == if digits_value(body.take(i - start)) < cap {
                digits_value(body.take(i - start))
            } else {
                cap as int
            },
            digits_value(body.take(i - start)) >= 0,
        decreases s.len() - i,
    {
        let c = s[i];
        if !('0' <= c && c <= '9') {
            assert(body[i - start] == c);
            assert(!all_digits(body));

            return None;
        }
        let d = (c as u32 - '0' as u32) as u128;
        assert(body.take(i + 1 - start).drop_last() =~= body.take(i - start));
        assert(body.take(i + 1 - start).last() == c);
        v = if v >= cap {
            cap
        } else if v * 10 + d >= cap {
            cap
        } else {
            v * 10 + d
        };
        assert(all_digits(body.take(i + 1 - start)));
        i = i + 1;
    }
    assert(body.take(i - start) =~= body);
    if neg {
        if v > 0x8000_0000_0000_0000 {
            None
        } else if v == 0x8000_0000_0000_0000 {
            Some(i64::MIN)
        } else {
            Some(-(v as i64))
        }
    } else {
        if v > 0x7fff_ffff_ffff_ffff {
            None
        } else {
            Some(v as i64)
        }
    }
}

fn int_bool(i: i64) -> (r: Result<Option<bool>, DecodeError>)
    ensures
        r == int_rule(i as int),
{
    if i == 1 {
        Ok(Some(true))
    } else if i == 0 {
        Ok(Some(false))
    } else {
        Err(DecodeError::NumberNotBinary)
    }
}

fn float_bool(f: FloatReading) -> (r: Result<Option<bool>, DecodeError>)
    ensures
        r == float_rule(f),
{
    match f {
        FloatReading::NearOne => Ok(Some(true)),
        FloatReading::Zero => Ok(Some(false)),
        FloatReading::Other => Err(DecodeError::FloatNotBinary),
    }
}

/// Decodes a boolean field that the wire may write as a string, a number, a boolean or null.
pub fn deserialize_bool(raw: BoolWire) -> (r: Result<Option<bool>, DecodeError>)
    ensures
        bool_decoded(raw, r),
{
    match raw {
        BoolWire::Boolean(b) => Ok(Some(b)),
        BoolWire::Int(i) => int_bool(i),
        BoolWire::Float(f) => float_bool(f),
        BoolWire::Null => Ok(None),
        BoolWire::Text { text, as_float } => {
            let lower = lowercase(text.as_str());
            bool_from_folded(trim(lower.as_str()), text, as_float)
        },
    }
}

/// Reads a boolean string `text` by its rules, given `folded`, the string lower-cased
/// and trimmed, and what `text` reads as when parsed as an `f64`.
pub fn bool_from_folded(folded: &str, text: String, as_float: Option<FloatReading>) -> (r: Result<
    Option<bool>,
    DecodeError,
>)
    ensures
        meets_verdict(bool_rules(folded@, text@, as_float), text@, r),
{
    let t = chars_of(folded);
    if true_token(&t) {
        return Ok(Some(true));
    }
    if false_token(&t) {
        return Ok(Some(false));
    }
    let raw_chars = chars_of(text.as_str());
    if spells4(&raw_chars, 't', 'r', 'u', 'e') {
        Ok(Some(true))
    } else if spells5(&raw_chars, 'f', 'a', 'l', 's', 'e') {
        Ok(Some(false))
    } else if let Some(i) = parse_i64(&raw_chars) {
        int_bool(i)
    } else if let Some(f) = as_float {
        float_bool(f)
    } else {
        Err(DecodeError::NotABoolean { input: text })
    }
}

} // verus!

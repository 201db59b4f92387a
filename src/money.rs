//! The money decoder: amounts written as integers, decimals or strings in either numeral
//! convention, read as exact amounts of Canadian dollars.

use vstd::prelude::*;

use rusty_money::{iso, Money, MoneyError};

use crate::error::DecodeError;
use crate::text::{
    slice_of,
    chars_of, count_char, count_of, find_char, first_index, remove_char, replace_char, replaced,
    without,
};

verus! {

/// rusty_money's `MoneyError`, carried as it is.
#[verifier::external_type_specification]
#[verifier::external_body]
pub struct ExMoneyError(MoneyError);

/// The most digits an amount may be written with, counting two fraction digits where
/// none is written: every such amount is held exactly.
pub const MAX_DIGITS: usize = 28;

/// An exact amount of Canadian dollars: `mantissa / 10^scale`, with no trailing zero
/// in the mantissa beyond the decimal point.
#[derive(Debug, Clone, Copy, PartialEq, Eq, Structural)]
pub struct MonetaryAmount {
    mantissa: i128,
    scale: u32,
}

impl View for MonetaryAmount {
    type V = (int, nat);

    closed spec fn view(&self) -> (int, nat) {
        (self.mantissa as int, self.scale as nat)
    }
}

/// The amount `m / 10^s` written with as few fraction digits as it needs.
pub open spec fn canonical(m: int, s: nat) -> (int, nat)
    decreases s,
{
    if s > 0 && m % 10 == 0 {
        canonical(m / 10, (s - 1) as nat)
    } else {
        (m, s)
    }
}

impl MonetaryAmount {
    /// The amount `mantissa / 10^scale`.
    pub fn from_parts(mantissa: i128, scale: u32) -> (r: MonetaryAmount)
        ensures
            r@ == canonical(mantissa as int, scale as nat),
    {
        let mut m = mantissa;
        let mut s = scale;
        while s > 0 && m % 10 == 0
            invariant
                canonical(m as int, s as nat) == canonical(mantissa as int, scale as nat),
            decreases s,
        {
            m = m / 10;
            s = s - 1;
        }
        MonetaryAmount { mantissa: m, scale: s }
    }

    /// The amount of `n` whole dollars.
    pub fn from_major(n: i64) -> (r: MonetaryAmount)
        ensures
            r@ == (n as int, 0nat),
    {
        MonetaryAmount { mantissa: n as i128, scale: 0 }
    }

    /// The digits of the amount, with its sign.
    pub fn mantissa(&self) -> (r: i128)
        ensures
            r == self@.0,
    {
        self.mantissa
    }

    /// How many of the digits stand after the decimal point.
    pub fn scale(&self) -> (r: u32)
        ensures
            r == self@.1,
    {
        self.scale
    }
}

/// The shapes in which the wire carries an amount.
#[derive(Debug, Clone, PartialEq, Eq)]
pub enum MoneyWire {
    /// A string such as `"$ 1,000.00"` or `"1.000,00 $"`.
    Text(String),
    /// A whole number of dollars.
    Int(i64),
    /// A number the wire wrote with a fraction, as the digits `mantissa / 10^scale`.
    Decimal { mantissa: i128, scale: u32 },
}

/// Which character marks the decimal point.
#[derive(Debug, Clone, Copy, PartialEq, Eq, Structural)]
pub enum Convention {
    /// `.` is the decimal point, `,` separates thousands.
    NorthAmerican,
    /// `,` is the decimal point, `.` separates thousands.
    European,
}

pub open spec fn is_digit(c: char) -> bool {
    '0' <= c && c <= '9'
}

pub open spec fn all_digits(s: Seq<char>) -> bool {
    forall|i: int| 0 <= i < s.len() ==> is_digit(#[trigger] s[i])
}

pub open spec fn is_amount_char(c: char) -> bool {
    is_digit(c) || c == '.' || c == ',' || c == '-' || c == '+'
}

/// The characters of `s` that can belong to an amount, in order.
pub open spec fn clean_amount(s: Seq<char>) -> Seq<char>
    decreases s.len(),
{
    if s.len() == 0 {
        seq![]
    } else if is_amount_char(s.last()) {
        clean_amount(s.drop_last()).push(s.last())
    } else {
        clean_amount(s.drop_last())
    }
}

/// How many characters follow the first `c` of `s`.
pub open spec fn digits_after(s: Seq<char>, c: char) -> int {
    s.len() - (first_index(s, c) + 1)
}

/// The numeral convention of a cleaned amount string; `None` when it has no separator.
pub open spec fn convention_of(s: Seq<char>) -> Result<Option<Convention>, DecodeError> {
    let dots = count_of(s, '.');
    let commas = count_of(s, ',');
    if dots == 0 && commas == 0 {
        Ok(None)
    } else if dots == 1 && commas == 0 {
        let n = digits_after(s, '.');
        if n <= 2 {
            Ok(Some(Convention::NorthAmerican))
        } else if n == 3 {
            Ok(Some(Convention::European))
        } else {
            Err(DecodeError::MalformedAmount)
        }
    } else if dots == 0 && commas == 1 {
        let n = digits_after(s, ',');
        if n <= 2 {
            Ok(Some(Convention::European))
        } else if n == 3 {
            Ok(Some(Convention::NorthAmerican))
        } else {
            Err(DecodeError::MalformedAmount)
        }
    } else if dots == 1 && commas == 1 {
        let d = first_index(s, '.');
        let c = first_index(s, ',');
        if d > c {
            Ok(Some(Convention::NorthAmerican))
        } else if c > d {
            Ok(Some(Convention::European))
        } else {
            Err(DecodeError::SeparatorClash)
        }
    } else if dots >= 2 && commas <= 1 {
        Ok(Some(Convention::European))
    } else if commas >= 2 && dots <= 1 {
        Ok(Some(Convention::NorthAmerican))
    } else {
        Err(DecodeError::TooManySeparators)
    }
}

/// The amount string rewritten with `.` as its only separator.
pub open spec fn normalized(s: Seq<char>, conv: Option<Convention>) -> Seq<char> {
    match conv {
        None => s,
        Some(Convention::NorthAmerican) => without(s, ','),
        Some(Convention::European) => replaced(without(s, '.'), ',', '.'),
    }
}

/// The number that a string of decimal digits writes.
pub open spec fn digits_value(s: Seq<char>) -> int
    decreases s.len(),
{
    if s.len() == 0 {
        0
    } else {
        digits_value(s.drop_last()) * 10 + (s.last() as int - '0' as int)
    }
}

pub open spec fn sign_len(t: Seq<char>) -> nat {
    if t.len() > 0 && (t[0] == '-' || t[0] == '+') {
        1
    } else {
        0
    }
}

pub open spec fn unsigned_part(t: Seq<char>) -> Seq<char> {
    t.subrange(sign_len(t) as int, t.len() as int)
}

pub open spec fn has_point(t: Seq<char>) -> bool {
    first_index(unsigned_part(t), '.') < unsigned_part(t).len()
}

pub open spec fn integer_part(t: Seq<char>) -> Seq<char> {
    unsigned_part(t).take(first_index(unsigned_part(t), '.') as int)
}

pub open spec fn fraction_part(t: Seq<char>) -> Seq<char> {
    let b = unsigned_part(t);
    if has_point(t) {
        b.subrange((first_index(b, '.') + 1) as int, b.len() as int)
    } else {
        seq![]
    }
}

/// `t` is a sign, one or more digits, and perhaps a point followed by one or more digits.
pub open spec fn is_plain_decimal(t: Seq<char>) -> bool {
    &&& integer_part(t).len() > 0
    &&& all_digits(integer_part(t))
    &&& all_digits(fraction_part(t))
    &&& has_point(t) ==> fraction_part(t).len() > 0
}

/// How many digits the amount carries, where a missing fraction counts as two zeros.
pub open spec fn written_digits(t: Seq<char>) -> int {
    integer_part(t).len() + if has_point(t) {
        fraction_part(t).len() as int
    } else {
        2
    }
}

pub open spec fn plain_mantissa(t: Seq<char>) -> int {
    let m = if has_point(t) {
        digits_value(integer_part(t) + fraction_part(t))
    } else {
        digits_value(integer_part(t)) * 100
    };
    if sign_len(t) == 1 && t[0] == '-' {
        -m
    } else {
        m
    }
}

pub open spec fn plain_scale(t: Seq<char>) -> nat {
    if has_point(t) {
        fraction_part(t).len()
    } else {
        2
    }
}

/// The fraction digits, read as an integer, fit an `i32`.
pub open spec fn fraction_fits(t: Seq<char>) -> bool {
    !has_point(t) || digits_value(fraction_part(t)) <= i32::MAX
}

/// The amount that a normalized string writes.
pub open spec fn plain_amount(t: Seq<char>) -> Result<(int, nat), DecodeError> {
    if !is_plain_decimal(t) {
        Err(DecodeError::MalformedAmount)
    } else if written_digits(t) > MAX_DIGITS {
        Err(DecodeError::AmountOutOfRange)
    } else if !fraction_fits(t) {
        Err(DecodeError::MalformedAmount)
    } else {
        Ok(canonical(plain_mantissa(t), plain_scale(t)))
    }
}

/// The amount that an amount string stands for, in either numeral convention.
pub open spec fn money_text(s: Seq<char>) -> Result<(int, nat), DecodeError> {
    let c = clean_amount(s);
    if c.len() == 0 {
        Err(DecodeError::EmptyAmount)
    } else {
        match convention_of(c) {
            Err(e) => Err(e),
            Ok(conv) => plain_amount(normalized(c, conv)),
        }
    }
}

/// The amount that a wire value stands for.
pub open spec fn money_spec(raw: MoneyWire) -> Result<(int, nat), DecodeError> {
    match raw {
        MoneyWire::Text(s) => money_text(s@),
        MoneyWire::Int(n) => Ok((n as int, 0nat)),
        MoneyWire::Decimal { mantissa, scale } => Ok(canonical(mantissa as int, scale as nat)),
    }
}

/// The amount that a wire value which may be null or blank stands for.
pub open spec fn money_optional_spec(raw: Option<MoneyWire>) -> Result<Option<(int, nat)>, DecodeError> {
    match raw {
        None => Ok(None),
        Some(w) => match money_spec(w) {
            Ok(v) => Ok(Some(v)),
            Err(DecodeError::EmptyAmount) => Ok(None),
            Err(e) => Err(e),
        },
    }
}

pub open spec fn amount_outcome(r: Result<MonetaryAmount, DecodeError>) -> Result<(int, nat), DecodeError> {
    match r {
        Ok(a) => Ok(a@),
        Err(e) => Err(e),
    }
}

pub open spec fn optional_amount_outcome(r: Result<Option<MonetaryAmount>, DecodeError>) -> Result<
    Option<(int, nat)>,
    DecodeError,
> {
    match r {
        Ok(Some(a)) => Ok(Some(a@)),
        Ok(None) => Ok(None),
        Err(e) => Err(e),
    }
}

/// Relies on rusty_money's `Money::from_str` with the Canadian dollar, whose format
/// separates thousands with `,` and decimals with `.`. On a plain decimal it splits off
/// the fraction, reads it as an `i32` (failing when it does not fit), appends `.00` where
/// there is no fraction, and reads the whole as a `Decimal`, whose mantissa and scale are
/// returned. Within `MAX_DIGITS` digits that reading is exact.
#[verifier::external_body]
fn money_from_str(t: &Vec<char>) -> (r: Result<(i128, u32), MoneyError>)
    requires
        is_plain_decimal(t@),
        written_digits(t@) <= MAX_DIGITS,
    ensures
        r is Ok <==> fraction_fits(t@),
        r matches Ok(p) ==> p.0 == plain_mantissa(t@) && p.1 == plain_scale(t@),
{
    let s: String = t.iter().collect();
    Money::from_str(&s, iso::CAD).map(|m| (m.amount().mantissa(), m.amount().scale()))
}


fn clean(s: &str) -> (r: Vec<char>)
    ensures
        r@ == clean_amount(s@),
{
    let cs = chars_of(s);
    let mut r: Vec<char> = Vec::new();
    let mut i: usize = 0;
    while i < cs.len()
        invariant
            i <= cs.len(),
            cs@ == s@,
            r@ == clean_amount(cs@.take(i as int)),
        decreases cs.len() - i,
    {
        assert(cs@.take(i + 1).drop_last() =~= cs@.take(i as int));
        let c = cs[i];
        if ('0' <= c && c <= '9') || c == '.' || c == ',' || c == '-' || c == '+' {
            r.push(c);
        }
        i = i + 1;
    }
    assert(cs@.take(cs.len() as int) =~= cs@);
    r
}

fn is_all_digits(v: &Vec<char>) -> (r: bool)
    ensures
        r == all_digits(v@),
{
    let mut i: usize = 0;
    while i < v.len()
        invariant
            i <= v.len(),
            forall|j: int| 0 <= j < i ==> is_digit(#[trigger] v@[j]),
        decreases v.len() - i,
    {
        if !('0' <= v[i] && v[i] <= '9') {
            return false;
        }
        i = i + 1;
    }
    true
}

/// The numeral convention of a cleaned amount string.
pub fn convention(c: &Vec<char>) -> (r: Result<Option<Convention>, DecodeError>)
    ensures
        r == convention_of(c@),
{
    let dots = count_char(c, '.');
    let commas = count_char(c, ',');
    if dots == 0 && commas == 0 {
        Ok(None)
    } else if dots == 1 && commas == 0 {
        let k = find_char(c, '.');
        proof { crate::text::lemma_found_when_counted(c@, '.'); }
        let n = c.len() - (k + 1);
        if n <= 2 {
            Ok(Some(Convention::NorthAmerican))
        } else if n == 3 {
            Ok(Some(Convention::European))
        } else {
            Err(DecodeError::MalformedAmount)
        }
    } else if dots == 0 && commas == 1 {
        let k = find_char(c, ',');
        proof { crate::text::lemma_found_when_counted(c@, ','); }
        let n = c.len() - (k + 1);
        if n <= 2 {
            Ok(Some(Convention::European))
        } else if n == 3 {
            Ok(Some(Convention::NorthAmerican))
        } else {
            Err(DecodeError::MalformedAmount)
        }
    } else if dots == 1 && commas == 1 {
        let d = find_char(c, '.');
        let k = find_char(c, ',');
        if d > k {
            Ok(Some(Convention::NorthAmerican))
        } else if k > d {
            Ok(Some(Convention::European))
        } else {
            Err(DecodeError::SeparatorClash)
        }
    } else if dots >= 2 && commas <= 1 {
        Ok(Some(Convention::European))
    } else if commas >= 2 && dots <= 1 {
        Ok(Some(Convention::NorthAmerican))
    } else {
        Err(DecodeError::TooManySeparators)
    }
}

/// The amount that a string with `.` as its only separator writes.
pub fn parse_plain(t: &Vec<char>) -> (r: Result<MonetaryAmount, DecodeError>)
    ensures
        amount_outcome(r) == plain_amount(t@),
{
    let sign: usize = if t.len() > 0 && (t[0] == '-' || t[0] == '+') {
        1
    } else {
        0
    };
    let body = slice_of(t, sign, t.len());
    assert(body@ == unsigned_part(t@));
    let k = find_char(&body, '.');
    let int_part = slice_of(&body, 0, k);
    assert(int_part@ =~= integer_part(t@));
    let point = k < body.len();
    let frac = if point {
        slice_of(&body, k + 1, body.len())
    } else {
        Vec::new()
    };
    assert(frac@ =~= fraction_part(t@));
    if !(int_part.len() > 0 && is_all_digits(&int_part) && is_all_digits(&frac) && (!point
        || frac.len() > 0)) {
        return Err(DecodeError::MalformedAmount);
    }
    if int_part.len() > MAX_DIGITS || frac.len() > MAX_DIGITS {
        return Err(DecodeError::AmountOutOfRange);
    }
    let written = int_part.len() + if point {
        frac.len()
    } else {
        2
    };
    if written > MAX_DIGITS {
        return Err(DecodeError::AmountOutOfRange);
    }
    match money_from_str(t) {
        Ok(p) => Ok(MonetaryAmount::from_parts(p.0, p.1)),
        Err(_) => Err(DecodeError::MalformedAmount),
    }
}

/// Reads an amount in the North-American convention: `,` separates thousands.
fn parse_na(c: &Vec<char>) -> (r: Result<MonetaryAmount, DecodeError>)
    ensures
        amount_outcome(r) == plain_amount(normalized(c@, Some(Convention::NorthAmerican))),
{
    parse_plain(&remove_char(c, ','))
}

/// Reads an amount in the European convention: `.` separates thousands, `,` marks decimals.
fn parse_eu(c: &Vec<char>) -> (r: Result<MonetaryAmount, DecodeError>)
    ensures
        amount_outcome(r) == plain_amount(normalized(c@, Some(Convention::European))),
{
    parse_plain(&replace_char(&remove_char(c, '.'), ',', '.'))
}

/// Reads an amount string in either numeral convention, after dropping every character
/// that cannot belong to an amount (currency signs, words, spaces).
pub fn parse_str(s: &str) -> (r: Result<MonetaryAmount, DecodeError>)
    ensures
        amount_outcome(r) == money_text(s@),
{
    let c = clean(s);
    if c.len() == 0 {
        return Err(DecodeError::EmptyAmount);
    }
    match convention(&c) {
        Err(e) => Err(e),
        Ok(None) => parse_plain(&c),
        Ok(Some(Convention::NorthAmerican)) => parse_na(&c),
        Ok(Some(Convention::European)) => parse_eu(&c),
    }
}

/// Decodes an amount field.
pub fn deserialize_money(raw: MoneyWire) -> (r: Result<MonetaryAmount, DecodeError>)
    ensures
        amount_outcome(r) == money_spec(raw),
{
    match raw {
        MoneyWire::Text(s) => parse_str(s.as_str()),
        MoneyWire::Int(n) => Ok(MonetaryAmount::from_major(n)),
        MoneyWire::Decimal { mantissa, scale } => Ok(MonetaryAmount::from_parts(mantissa, scale)),
    }
}

/// Decodes an amount field that may be null, or a string with no amount in it.
pub fn deserialize_money_optional(raw: Option<MoneyWire>) -> (r: Result<Option<MonetaryAmount>, DecodeError>)
    ensures
        optional_amount_outcome(r) == money_optional_spec(raw),
{
    match raw {
        None => Ok(None),
        Some(w) => match deserialize_money(w) {
            Ok(a) => Ok(Some(a)),
            Err(DecodeError::EmptyAmount) => Ok(None),
            Err(e) => Err(e),
        },
    }
}


pub open spec fn digit_char(d: int) -> char {
    seq!['0', '1', '2', '3', '4', '5', '6', '7', '8', '9'][d]
}

/// The base-10 digits of `k`, most significant first.
pub open spec fn decimal_digits(k: nat) -> Seq<char>
    decreases k,
{
    if k < 10 {
        seq![digit_char(k as int)]
    } else {
        decimal_digits(k / 10).push(digit_char((k % 10) as int))
    }
}

/// The base-10 text of `n`: its digits, after a `-` when it is negative.
pub open spec fn decimal_text(n: int) -> Seq<char> {
    if n < 0 {
        seq!['-'] + decimal_digits((-n) as nat)
    } else {
        decimal_digits(n as nat)
    }
}

pub open spec fn pow10(m: nat) -> nat
    decreases m,
{
    if m == 0 {
        1
    } else {
        10 * pow10((m - 1) as nat)
    }
}

proof fn lemma_digit_char(d: int)
    requires
        0 <= d < 10,
    ensures
        is_digit(digit_char(d)),
        digit_char(d) as int - '0' as int == d,
        digit_char(d) != '-',
{
    let ds = seq!['0', '1', '2', '3', '4', '5', '6', '7', '8', '9'];
    assert(ds[0] == '0' && ds[1] == '1' && ds[2] == '2' && ds[3] == '3' && ds[4] == '4');
    assert(ds[5] == '5' && ds[6] == '6' && ds[7] == '7' && ds[8] == '8' && ds[9] == '9');
}

proof fn lemma_decimal_digits(k: nat, m: nat)
    requires
        k < pow10(m),
    ensures
        all_digits(decimal_digits(k)),
        digits_value(decimal_digits(k)) == k,
        1 <= decimal_digits(k).len() <= if m == 0 { 1 } else { m },
    decreases k,
{
    let d = decimal_digits(k);
    if k < 10 {
        lemma_digit_char(k as int);
        assert(d.drop_last() =~= Seq::<char>::empty());
        assert(digits_value(d.drop_last()) == 0);
        assert(d.last() == digit_char(k as int));
    } else {
        lemma_digit_char((k % 10) as int);
        assert((k / 10) * 10 + k % 10 == k);
        if m == 0 {
            assert(false);
        }
        let mm = (m - 1) as nat;
        assert(k / 10 < pow10(mm));
        lemma_decimal_digits(k / 10, mm);
        assert(d.drop_last() =~= decimal_digits(k / 10));
        assert(d.last() == digit_char((k % 10) as int));
        assert(digits_value(d) == digits_value(decimal_digits(k / 10)) * 10 + (k % 10));
        assert forall|i: int| 0 <= i < d.len() implies is_digit(#[trigger] d[i]) by {
            if i < d.len() - 1 {
                assert(d[i] == decimal_digits(k / 10)[i]);
            }
        }
        if mm == 0 {
            assert(false);
        }
    }
}

proof fn lemma_clean_keeps(s: Seq<char>)
    requires
        forall|i: int| 0 <= i < s.len() ==> is_amount_char(#[trigger] s[i]),
    ensures
        clean_amount(s) == s,
    decreases s.len(),
{
    if s.len() > 0 {
        assert(is_amount_char(s[s.len() - 1]));
        lemma_clean_keeps(s.drop_last());
        assert(s.drop_last().push(s.last()) =~= s);
    }
}

proof fn lemma_count_absent(s: Seq<char>, c: char)
    requires
        forall|i: int| 0 <= i < s.len() ==> #[trigger] s[i] != c,
    ensures
        count_of(s, c) == 0,
    decreases s.len(),
{
    if s.len() > 0 {
        assert(s[s.len() - 1] != c);
        lemma_count_absent(s.drop_last(), c);
    }
}

/// Decoding a whole number of dollars gives the same amount as decoding the base-10
/// text of that number.
pub proof fn lemma_int_matches_its_text(n: i64)
    ensures
        money_spec(MoneyWire::Int(n)) == money_text(decimal_text(n as int)),
{
    let k: nat = if n < 0 { (-n) as nat } else { n as nat };
    reveal_with_fuel(pow10, 20);
    assert(pow10(19) == 10000000000000000000nat);
    assert(k < pow10(19));
    lemma_decimal_digits(k, 19);
    let ds = decimal_digits(k);
    let t = decimal_text(n as int);
    if n < 0 {
        assert(t[0] == '-');
        assert(t.subrange(1, t.len() as int) =~= ds);
        assert forall|i: int| 0 <= i < t.len() implies is_amount_char(#[trigger] t[i]) by {
            if i > 0 {
                assert(t[i] == ds[i - 1]);
            }
        }
    } else {
        assert(is_digit(t[0]));
        assert(t.subrange(0, t.len() as int) =~= ds);
        assert forall|i: int| 0 <= i < t.len() implies is_amount_char(#[trigger] t[i]) by {
            assert(is_digit(ds[i]));
        }
    }
    lemma_clean_keeps(t);
    lemma_count_absent(t, '.');
    lemma_count_absent(t, ',');
    assert(unsigned_part(t) == ds);
    lemma_count_absent(ds, '.');
    crate::text::lemma_absent_not_found(ds, '.');
    assert(integer_part(t) =~= ds);
    assert(!has_point(t));
    assert(fraction_part(t) =~= Seq::<char>::empty());
    assert(is_plain_decimal(t));
    assert(plain_mantissa(t) == n * 100);
    let m = n as int;
    assert((m * 100) % 10 == 0 && (m * 100) / 10 == m * 10 && (m * 10) % 10 == 0 && (m * 10) / 10
        == m) by (nonlinear_arith);
    assert(canonical(m * 100, 2) == canonical(m * 10, 1));
    assert(canonical(m * 10, 1) == canonical(m, 0));
}

} // verus!

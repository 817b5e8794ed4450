//! Decimal integer text, as Rust's `str::parse` reads it for unsigned
//! integers: an optional `+`, then one or more ASCII digits, no overflow.

use vstd::prelude::*;
use crate::text::text_chars;

verus! {

/// An ASCII digit.
pub open spec fn is_digit(c: char) -> bool {
    '0' <= c && c <= '9'
}

/// The value of an ASCII digit.
pub open spec fn digit_value(c: char) -> nat {
    (c as u32 - '0' as u32) as nat
}

/// The value of a digit string, most significant first.
pub open spec fn digits_value(s: Seq<char>) -> nat
    decreases s.len(),
{
    if s.len() == 0 {
        0
    } else {
        10 * digits_value(s.drop_last()) + digit_value(s.last())
    }
}

/// Whether every character is an ASCII digit.
pub open spec fn all_digits(s: Seq<char>) -> bool {
    forall|i: int| 0 <= i < s.len() ==> is_digit(#[trigger] s[i])
}

/// The digits after an optional leading `+`.
pub open spec fn unsigned_body(s: Seq<char>) -> Seq<char> {
    if s.len() > 0 && s[0] == '+' { s.drop_first() } else { s }
}

/// The value `str::parse` gives an unsigned integer type whose maximum is
/// `max`, or `None` where it fails.
pub open spec fn parse_unsigned(s: Seq<char>, max: nat) -> Option<nat> {
    let body = unsigned_body(s);
    if body.len() > 0 && all_digits(body) && digits_value(body) <= max {
        Some(digits_value(body))
    } else {
        None
    }
}

proof fn lemma_digits_monotone(s: Seq<char>, i: int)
    requires
        0 <= i <= s.len(),
        all_digits(s),
    ensures
        digits_value(s.take(i)) <= digits_value(s),
    decreases s.len() - i,
{
    if i < s.len() {
        lemma_digits_monotone(s, i + 1);
        assert(s.take(i + 1).drop_last() =~= s.take(i));
    } else {
        assert(s.take(i) =~= s);
    }
}

/// Parses decimal text into a value no greater than `max`.
pub fn parse_decimal(text: &str, max: u64) -> (value: Option<u64>)
    ensures
        match parse_unsigned(text@, max as nat) {
            Some(v) => value == Some(v as u64),
            None => value is None,
        },
{
    let chars = text_chars(text);
    let start: usize = if chars.len() > 0 && chars[0] == '+' { 1 } else { 0 };
    let ghost body = unsigned_body(text@);
    assert(body =~= text@.skip(start as int));
    if start == chars.len() {
        return None;
    }
    let mut value: u64 = 0;
    let mut i: usize = start;
    assert(body.take(0) =~= seq![]);
    while i < chars.len()
        invariant
            chars@ == text@,
            start <= i <= chars.len(),
            body == text@.skip(start as int),
            body == unsigned_body(text@),
            value as nat == digits_value(body.take(i - start)),
            value <= max,
            all_digits(body.take(i - start)),
        decreases chars.len() - i,
    {
        let c = chars[i];
        assert(body[i - start] == c);
        if !('0' <= c && c <= '9') {
            assert(!all_digits(body));
            return None;
        }
        let d = (c as u32 - '0' as u32) as u64;
        assert(body.take(i - start + 1).drop_last() =~= body.take(i - start));
        if d > max || value > (max - d) / 10 {
            proof {
                assert(10 * value + d > max) by (nonlinear_arith)
                    requires d > max || (d <= max && value > (max - d) / 10);
                if all_digits(body) {
                    lemma_digits_monotone(body, i - start + 1);
                }
            }
            return None;
        }
        proof {
            assert(10 * value + d <= max) by (nonlinear_arith)
                requires value <= (max - d) / 10, d <= max;
        }
        value = 10 * value + d;
        i = i + 1;
        assert(all_digits(body.take(i - start)));
    }
    assert(body.take(i - start) =~= body);
    Some(value)
}

/// Parses a `u32` as `str::parse::<u32>` does.
pub fn parse_u32(text: &str) -> (value: Option<u32>)
    ensures
        match parse_unsigned(text@, u32::MAX as nat) {
            Some(v) => value == Some(v as u32),
            None => value is None,
        },
{
    match parse_decimal(text, u32::MAX as u64) {
        Some(v) => Some(v as u32),
        None => None,
    }
}

/// Parses a `usize` as `str::parse::<usize>` does.
pub fn parse_usize(text: &str) -> (value: Option<usize>)
    ensures
        match parse_unsigned(text@, usize::MAX as nat) {
            Some(v) => value == Some(v as usize),
            None => value is None,
        },
{
    match parse_decimal(text, usize::MAX as u64) {
        Some(v) => Some(v as usize),
        None => None,
    }
}

/// Why `str::parse` refused unsigned integer text.
#[derive(Clone, Copy, Debug, PartialEq, Eq, Structural)]
pub enum IntErrorKind {
    /// The text is empty.
    Empty,
    /// A character is not a digit (a lone `+` counts as one).
    InvalidDigit,
    /// The value exceeds the type's maximum.
    PosOverflow,
}

/// The first failure of the digits of `body` from position `k`, where the
/// digits before `k` are worth `acc`: a non-digit, or a digit that takes
/// the value past `max`.
pub open spec fn first_failure(body: Seq<char>, max: nat, k: int, acc: nat) -> Option<IntErrorKind>
    decreases body.len() - k,
{
    if k >= body.len() || k < 0 {
        None
    } else if !is_digit(body[k]) {
        Some(IntErrorKind::InvalidDigit)
    } else if 10 * acc + digit_value(body[k]) > max {
        Some(IntErrorKind::PosOverflow)
    } else {
        first_failure(body, max, k + 1, 10 * acc + digit_value(body[k]))
    }
}

/// What `str::parse` gives for unsigned integer text with maximum `max`:
/// the value, or why it failed (the first offending character decides).
pub open spec fn integer_parse(s: Seq<char>, max: nat) -> Result<nat, IntErrorKind> {
    if s.len() == 0 {
        Err(IntErrorKind::Empty)
    } else if unsigned_body(s).len() == 0 {
        Err(IntErrorKind::InvalidDigit)
    } else {
        match first_failure(unsigned_body(s), max, 0, 0) {
            Some(k) => Err(k),
            None => Ok(digits_value(unsigned_body(s))),
        }
    }
}

/// The text `str::parse` reports for an integer error.
pub open spec fn int_error_text(k: IntErrorKind) -> Seq<char> {
    match k {
        IntErrorKind::Empty => "cannot parse integer from empty string"@,
        IntErrorKind::InvalidDigit => "invalid digit found in string"@,
        IntErrorKind::PosOverflow => "number too large to fit in target type"@,
    }
}

impl IntErrorKind {
    /// The human-readable text of this error.
    pub fn message(&self) -> (text: String)
        ensures
            text@ == int_error_text(*self),
    {
        match self {
            IntErrorKind::Empty => crate::text::owned_text("cannot parse integer from empty string"),
            IntErrorKind::InvalidDigit => crate::text::owned_text("invalid digit found in string"),
            IntErrorKind::PosOverflow => crate::text::owned_text("number too large to fit in target type"),
        }
    }
}

proof fn lemma_no_failure_bounded(body: Seq<char>, max: nat, k: int, acc: nat)
    requires
        0 <= k <= body.len(),
        acc == digits_value(body.take(k)),
        acc <= max,
        first_failure(body, max, k, acc) is None,
    ensures
        digits_value(body) <= max,
    decreases body.len() - k,
{
    if k < body.len() {
        assert(body.take(k + 1).drop_last() =~= body.take(k));
        lemma_no_failure_bounded(body, max, k + 1, 10 * acc + digit_value(body[k]));
    } else {
        assert(body.take(k) =~= body);
    }
}

/// A value `str::parse` accepts is within the maximum.
pub proof fn lemma_integer_parse_bounded(s: Seq<char>, max: nat)
    ensures
        integer_parse(s, max) matches Ok(v) ==> v <= max,
{
    if integer_parse(s, max) is Ok {
        assert(unsigned_body(s).take(0) =~= seq![]);
        lemma_no_failure_bounded(unsigned_body(s), max, 0, 0);
    }
}

/// Parses unsigned integer text no greater than `max`, telling why it
/// fails.
pub fn parse_integer(text: &str, max: u64) -> (result: Result<u64, IntErrorKind>)
    ensures
        match integer_parse(text@, max as nat) {
            Ok(v) => result == Ok::<u64, IntErrorKind>(v as u64),
            Err(k) => result == Err::<u64, IntErrorKind>(k),
        },
        integer_parse(text@, max as nat) matches Ok(v) ==> v <= max,
{
    proof {
        lemma_integer_parse_bounded(text@, max as nat);
    }
    let chars = text_chars(text);
    if chars.len() == 0 {
        return Err(IntErrorKind::Empty);
    }
    let start: usize = if chars[0] == '+' { 1 } else { 0 };
    let ghost body = unsigned_body(text@);
    assert(body =~= text@.skip(start as int));
    if start == chars.len() {
        return Err(IntErrorKind::InvalidDigit);
    }
    let mut value: u64 = 0;
    let mut i: usize = start;
    assert(body.take(0) =~= seq![]);
    while i < chars.len()
        invariant
            chars@ == text@,
            start <= i <= chars.len(),
            body == text@.skip(start as int),
            body == unsigned_body(text@),
            body.len() > 0,
            value as nat == digits_value(body.take(i - start)),
            value <= max,
            first_failure(body, max as nat, 0, 0) == first_failure(body, max as nat, i - start, value as nat),
        decreases chars.len() - i,
    {
        let c = chars[i];
        assert(body[i - start] == c);
        if !('0' <= c && c <= '9') {
            return Err(IntErrorKind::InvalidDigit);
        }
        let d = (c as u32 - '0' as u32) as u64;
        assert(body.take(i - start + 1).drop_last() =~= body.take(i - start));
        if d > max || value > (max - d) / 10 {
            proof {
                assert(10 * value + d > max) by (nonlinear_arith)
                    requires d > max || (d <= max && value > (max - d) / 10);
            }
            return Err(IntErrorKind::PosOverflow);
        }
        proof {
            assert(10 * value + d <= max) by (nonlinear_arith)
                requires value <= (max - d) / 10, d <= max;
        }
        value = 10 * value + d;
        i = i + 1;
    }
    assert(body.take(i - start) =~= body);
    Ok(value)
}

proof fn lemma_first_failure_none(body: Seq<char>, max: nat, k: int)
    requires
        0 <= k <= body.len(),
        all_digits(body.take(k)),
        digits_value(body.take(k)) <= max,
    ensures
        first_failure(body, max, k, digits_value(body.take(k))) is None
            <==> (all_digits(body) && digits_value(body) <= max),
    decreases body.len() - k,
{
    if k < body.len() {
        let acc = digits_value(body.take(k));
        assert(body.take(k + 1).drop_last() =~= body.take(k));
        if is_digit(body[k]) {
            assert(all_digits(body.take(k + 1)));
            if 10 * acc + digit_value(body[k]) <= max {
                lemma_first_failure_none(body, max, k + 1);
            } else if all_digits(body) {
                lemma_digits_monotone(body, k + 1);
            }
        } else {
            assert(!all_digits(body)) by {
                assert(!is_digit(body[k]));
            }
        }
    } else {
        assert(body.take(k) =~= body);
    }
}

/// The two readings of `str::parse` agree: it accepts exactly the text
/// whose value `parse_unsigned` gives, with that value.
pub proof fn law_integer_parse_agrees(s: Seq<char>, max: nat)
    ensures
        match integer_parse(s, max) {
            Ok(v) => parse_unsigned(s, max) == Some(v),
            Err(_) => parse_unsigned(s, max) is None,
        },
{
    let body = unsigned_body(s);
    if s.len() > 0 && body.len() > 0 {
        assert(body.take(0) =~= seq![]);
        lemma_first_failure_none(body, max, 0);
    }
}

} // verus!

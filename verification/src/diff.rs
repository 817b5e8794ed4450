//! Helpers of the image comparison report: the inclusion mask and the JSON
//! string escaping of its metrics file.

use vstd::prelude::*;
use crate::bytes::{hex_digit, hex_digit_exec};
use crate::text::{push_char, text_chars};

verus! {

/// Whether pixel `index` takes part in the comparison: every pixel does
/// without a mask, else those whose mask byte is not zero.
pub fn mask_includes(mask: Option<&[u8]>, index: usize) -> (included: bool)
    requires
        mask matches Some(m) ==> index < m@.len(),
    ensures
        included == match mask {
            Some(m) => m@[index as int] != 0,
            None => true,
        },
{
    match mask {
        Some(m) => m[index] != 0,
        None => true,
    }
}

/// A Unicode control code (general category Cc): U+0000..=U+001F and
/// U+007F..=U+009F, as `char::is_control` decides.
pub open spec fn is_control(c: char) -> bool {
    (c as u32) <= 0x1f || (0x7f <= (c as u32) && (c as u32) <= 0x9f)
}

/// Four lowercase hex digits of a value below 0x10000.
pub open spec fn hex4(v: nat) -> Seq<char> {
    seq![hex_digit((v / 4096) % 16), hex_digit((v / 256) % 16), hex_digit((v / 16) % 16), hex_digit(v % 16)]
}

/// The JSON escape of one character.
pub open spec fn escape_char(c: char) -> Seq<char> {
    if c == '"' {
        seq!['\\', '"']
    } else if c == '\\' {
        seq!['\\', '\\']
    } else if c == '\n' {
        seq!['\\', 'n']
    } else if c == '\r' {
        seq!['\\', 'r']
    } else if c == '\t' {
        seq!['\\', 't']
    } else if is_control(c) {
        seq!['\\', 'u'] + hex4(c as nat)
    } else {
        seq![c]
    }
}

/// The JSON escape of a string, character by character.
pub open spec fn escaped(s: Seq<char>) -> Seq<char>
    decreases s.len(),
{
    if s.len() == 0 { seq![] } else { escaped(s.drop_last()) + escape_char(s.last()) }
}

fn push_escaped(out: &mut String, c: char)
    ensures
        final(out)@ == old(out)@ + escape_char(c),
{
    let ghost before = out@;
    if c == '"' {
        push_char(out, '\\');
        push_char(out, '"');
    } else if c == '\\' {
        push_char(out, '\\');
        push_char(out, '\\');
    } else if c == '\n' {
        push_char(out, '\\');
        push_char(out, 'n');
    } else if c == '\r' {
        push_char(out, '\\');
        push_char(out, 'r');
    } else if c == '\t' {
        push_char(out, '\\');
        push_char(out, 't');
    } else if (c as u32) <= 0x1f || (0x7f <= (c as u32) && (c as u32) <= 0x9f) {
        let v = c as u32;
        push_char(out, '\\');
        push_char(out, 'u');
        push_char(out, hex_digit_exec(((v / 4096) % 16) as u8));
        push_char(out, hex_digit_exec(((v / 256) % 16) as u8));
        push_char(out, hex_digit_exec(((v / 16) % 16) as u8));
        push_char(out, hex_digit_exec((v % 16) as u8));
    } else {
        push_char(out, c);
    }
    assert(out@ =~= before + escape_char(c));
}

/// Escapes a string for a JSON string literal: quote, backslash, newline,
/// carriage return and tab by their short escapes, other control codes as
/// `\u00XX`.
pub fn json_escape(value: &str) -> (out: String)
    ensures
        out@ == escaped(value@),
{
    let chars = text_chars(value);
    let mut out = String::new();
    let mut i: usize = 0;
    assert(value@.take(0) =~= seq![]);
    while i < chars.len()
        invariant
            chars@ == value@,
            i <= chars.len(),
            out@ == escaped(value@.take(i as int)),
        decreases chars.len() - i,
    {
        let c = chars[i];
        let ghost before = out@;
        push_escaped(&mut out, c);
        proof {
            assert(value@.take(i + 1).drop_last() =~= value@.take(i as int));
            assert(value@.take(i + 1).last() == c);
            assert(out@ =~= before + escape_char(c));
        }
        i = i + 1;
    }
    assert(value@.take(chars.len() as int) =~= value@);
    out
}

} // verus!

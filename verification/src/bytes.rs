//! Little-endian byte encodings, SHA-256 and lowercase hex text.

use vstd::prelude::*;
use sha2::Digest;
use crate::text::push_char;

verus! {

/// Three `f32` values as bits.
#[derive(Clone, Copy, Debug, PartialEq, Eq, Structural)]
pub struct Vec3Bits {
    pub x: u32,
    pub y: u32,
    pub z: u32,
}


/// The little-endian bytes of a `u16`.
pub open spec fn le16(v: u16) -> Seq<u8> {
    seq![(v % 256) as u8, (v / 256) as u8]
}

/// The little-endian bytes of a `u32`.
pub open spec fn le32(v: u32) -> Seq<u8> {
    seq![(v % 256) as u8, ((v / 256) % 256) as u8, ((v / 65536) % 256) as u8, (v / 16777216) as u8]
}

/// Distinct values have distinct little-endian bytes.
pub proof fn lemma_le32_injective(a: u32, b: u32)
    requires
        le32(a) == le32(b),
    ensures
        a == b,
{
    assert(le32(a)[0] == le32(b)[0] && le32(a)[1] == le32(b)[1] && le32(a)[2] == le32(b)[2] && le32(a)[3] == le32(b)[3]);
    assert(((a % 256) as u8 == (b % 256) as u8 && ((a / 256) % 256) as u8 == ((b / 256) % 256) as u8
        && ((a / 65536) % 256) as u8 == ((b / 65536) % 256) as u8 && (a / 16777216) as u8 == (b / 16777216) as u8)
        ==> a == b) by (bit_vector);
}

/// The little-endian bytes of a `u64`.
pub open spec fn le64(v: u64) -> Seq<u8> {
    le32((v % 4294967296) as u32) + le32((v / 4294967296) as u32)
}

/// The bytes of characters below 128, one byte each.
pub open spec fn ascii_bytes(s: Seq<char>) -> Seq<u8> {
    s.map_values(|c: char| c as u8)
}

/// Appends the little-endian bytes of a `u16`.
pub fn push_u16(output: &mut Vec<u8>, value: u16)
    ensures
        final(output)@ == old(output)@ + le16(value),
{
    output.push((value % 256) as u8);
    output.push((value / 256) as u8);
    assert(final(output)@ =~= old(output)@ + le16(value));
}

/// Appends the little-endian two's-complement bytes of an `i16`.
pub fn push_i16(output: &mut Vec<u8>, value: i16)
    ensures
        final(output)@ == old(output)@ + le16(value as u16),
{
    push_u16(output, value as u16);
}

/// Appends the little-endian bytes of a `u32`.
pub fn push_u32(output: &mut Vec<u8>, value: u32)
    ensures
        final(output)@ == old(output)@ + le32(value),
{
    output.push((value % 256) as u8);
    output.push(((value / 256) % 256) as u8);
    output.push(((value / 65536) % 256) as u8);
    output.push((value / 16777216) as u8);
    assert(final(output)@ =~= old(output)@ + le32(value));
}

/// Appends the little-endian bytes of a `u64`.
pub fn push_u64(output: &mut Vec<u8>, value: u64)
    ensures
        final(output)@ == old(output)@ + le64(value),
{
    push_u32(output, (value % 4294967296) as u32);
    push_u32(output, (value / 4294967296) as u32);
    assert(final(output)@ =~= old(output)@ + le64(value));
}

/// Appends a byte string.
pub fn push_bytes(output: &mut Vec<u8>, bytes: &[u8])
    ensures
        final(output)@ == old(output)@ + bytes@,
{
    let mut i: usize = 0;
    while i < bytes.len()
        invariant
            i <= bytes.len(),
            output@ == old(output)@ + bytes@.take(i as int),
        decreases bytes.len() - i,
    {
        output.push(bytes[i]);
        i = i + 1;
        assert(output@ =~= old(output)@ + bytes@.take(i as int));
    }
    assert(bytes@.take(bytes.len() as int) =~= bytes@);
}

/// Appends one byte per character of `s` (its code, truncated to a byte).
pub fn push_ascii(output: &mut Vec<u8>, s: &str)
    ensures
        final(output)@ == old(output)@ + ascii_bytes(s@),
{
    let chars = crate::text::text_chars(s);
    let mut i: usize = 0;
    while i < chars.len()
        invariant
            chars@ == s@,
            i <= chars.len(),
            output@ == old(output)@ + ascii_bytes(s@.take(i as int)),
        decreases chars.len() - i,
    {
        output.push(chars[i] as u8);
        i = i + 1;
        assert(output@ =~= old(output)@ + ascii_bytes(s@.take(i as int)));
    }
    assert(s@.take(chars.len() as int) =~= s@);
}

/// The `u16` whose little-endian bytes are `b0 b1`.
pub open spec fn from_le16(b0: u8, b1: u8) -> u16 {
    (b0 as int + 256 * (b1 as int)) as u16
}

/// Reads a little-endian `u16` at `offset`, or `None` when fewer than two
/// bytes remain.
pub fn read_u16(payload: &[u8], offset: usize) -> (value: Option<u16>)
    ensures
        match value {
            Some(v) => offset + 2 <= payload@.len() && v == from_le16(payload@[offset as int], payload@[offset + 1]),
            None => offset + 2 > payload@.len(),
        },
{
    if offset > payload.len() || payload.len() - offset < 2 {
        return None;
    }
    let low = payload[offset] as u16;
    let high = payload[offset + 1] as u16;
    Some(low + 256 * high)
}

/// Reads a little-endian two's-complement `i16` at `offset`, or `None`
/// when fewer than two bytes remain.
pub fn read_i16(payload: &[u8], offset: usize) -> (value: Option<i16>)
    ensures
        match value {
            Some(v) => offset + 2 <= payload@.len() && v == from_le16(payload@[offset as int], payload@[offset + 1]) as i16,
            None => offset + 2 > payload@.len(),
        },
{
    match read_u16(payload, offset) {
        Some(bits) => Some(bits as i16),
        None => None,
    }
}

/// The SHA-256 digest of a byte string.
pub uninterp spec fn sha256_digest(data: Seq<u8>) -> Seq<u8>;

/// SHA-256 by `sha2::Sha256::digest`; its contract names the digest of the
/// bytes and says nothing more of it.
#[verifier::external_body]
pub(crate) fn sha256(data: &[u8]) -> (digest: [u8; 32])
    ensures
        digest@ == sha256_digest(data@),
{
    sha2::Sha256::digest(data).into()
}

/// The lowercase hex digit of a value below sixteen.
pub open spec fn hex_digit(v: nat) -> char {
    if v < 10 { crate::text::digit_char(v) }
    else if v == 10 { 'a' }
    else if v == 11 { 'b' }
    else if v == 12 { 'c' }
    else if v == 13 { 'd' }
    else if v == 14 { 'e' }
    else { 'f' }
}

/// The value of a lowercase hex digit.
pub open spec fn hex_value(c: char) -> nat {
    if '0' <= c && c <= '9' { (c as u32 - '0' as u32) as nat }
    else { (c as u32 - 'a' as u32 + 10) as nat }
}

/// Lowercase hex text, two digits per byte.
pub open spec fn hex_text(bytes: Seq<u8>) -> Seq<char>
    decreases bytes.len(),
{
    if bytes.len() == 0 {
        seq![]
    } else {
        hex_text(bytes.drop_last()) + seq![hex_digit((bytes.last() / 16) as nat), hex_digit((bytes.last() % 16) as nat)]
    }
}

pub(crate) fn hex_digit_exec(v: u8) -> (c: char)
    requires
        v < 16,
    ensures
        c == hex_digit(v as nat),
{
    if v == 0 { '0' }
    else if v == 1 { '1' }
    else if v == 2 { '2' }
    else if v == 3 { '3' }
    else if v == 4 { '4' }
    else if v == 5 { '5' }
    else if v == 6 { '6' }
    else if v == 7 { '7' }
    else if v == 8 { '8' }
    else if v == 9 { '9' }
    else if v == 10 { 'a' }
    else if v == 11 { 'b' }
    else if v == 12 { 'c' }
    else if v == 13 { 'd' }
    else if v == 14 { 'e' }
    else { 'f' }
}

/// Lowercase hex text of a byte string.
pub fn hex_hash(bytes: &[u8]) -> (text: String)
    ensures
        text@ == hex_text(bytes@),
        text@.len() == 2 * bytes@.len(),
{
    let mut out = String::new();
    let mut i: usize = 0;
    assert(bytes@.take(0) =~= seq![]);
    while i < bytes.len()
        invariant
            i <= bytes.len(),
            out@ == hex_text(bytes@.take(i as int)),
            out@.len() == 2 * i,
        decreases bytes.len() - i,
    {
        let b = bytes[i];
        push_char(&mut out, hex_digit_exec(b / 16));
        push_char(&mut out, hex_digit_exec(b % 16));
        assert(bytes@.take(i as int + 1).drop_last() =~= bytes@.take(i as int));
        i = i + 1;
        assert(out@ =~= hex_text(bytes@.take(i as int)));
    }
    assert(bytes@.take(bytes.len() as int) =~= bytes@);
    out
}

} // verus!

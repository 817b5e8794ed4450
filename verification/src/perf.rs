//! Helpers of the render performance harness: its integer flags, the data
//! file named in a trace line, and the escaping of its JSON report.

use vstd::prelude::*;
use crate::numbers::{parse_unsigned, parse_u32 as parse_u32_text};
use crate::text::{concat2, decimal_digits, decimal_text, owned_text, push_char, text_chars};

verus! {

/// What `parse_u32` gives for a flag's value (`None` when the value is
/// missing).
pub open spec fn flag_u32(value: Option<Seq<char>>, flag: Seq<char>) -> Result<u32, Seq<char>> {
    match value {
        None => Err("missing value for "@ + flag),
        Some(text) => match parse_unsigned(text, u32::MAX as nat) {
            Some(v) => Ok(v as u32),
            None => Err(flag + " must be an unsigned integer"@),
        },
    }
}

/// Parses the value of an unsigned integer flag.
pub fn parse_u32(value: Option<String>, flag: &str) -> (result: Result<u32, String>)
    ensures
        match flag_u32(match value { Some(v) => Some(v@), None => None }, flag@) {
            Ok(v) => result == Ok::<u32, String>(v),
            Err(text) => result matches Err(e) && e@ == text,
        },
{
    match value {
        None => Err(concat2("missing value for ", flag)),
        Some(text) => match parse_u32_text(text.as_str()) {
            Some(v) => Ok(v),
            None => Err(concat2(flag, " must be an unsigned integer")),
        },
    }
}

/// Whether `pat` occurs in `s` at position `i`.
pub open spec fn occurs_at(s: Seq<char>, pat: Seq<char>, i: int) -> bool {
    0 <= i && i + pat.len() <= s.len() && s.subrange(i, i + pat.len()) == pat
}

/// The first position at or after `from` where `pat` occurs in `s`.
#[verifier::opaque]
pub open spec fn find_from(s: Seq<char>, pat: Seq<char>, from: int) -> Option<int> {
    if exists|i: int| from <= i && occurs_at(s, pat, i) {
        Some(choose|i: int| from <= i && occurs_at(s, pat, i) && forall|j: int| from <= j < i ==> !occurs_at(s, pat, j))
    } else {
        None
    }
}

fn matches_at(s: &Vec<char>, pat: &Vec<char>, i: usize) -> (found: bool)
    requires
        i <= s@.len(),
    ensures
        found == occurs_at(s@, pat@, i as int),
{
    let n = s.len();
    if pat.len() > n - i {
        return false;
    }
    let mut k: usize = 0;
    while k < pat.len()
        invariant
            n == s@.len(),
            i + pat@.len() <= n,
            k <= pat@.len(),
            forall|m: int| 0 <= m < k ==> s@[i + m] == pat@[m],
        decreases pat.len() - k,
    {
        if s[i + k] != pat[k] {
            assert(s@.subrange(i as int, i + pat@.len())[k as int] != pat@[k as int]);
            return false;
        }
        k = k + 1;
    }
    assert(s@.subrange(i as int, i + pat@.len()) =~= pat@);
    true
}

proof fn lemma_found_first(s: Seq<char>, pat: Seq<char>, from: int, i: int)
    requires
        from <= i,
        occurs_at(s, pat, i),
        forall|j: int| from <= j < i ==> !occurs_at(s, pat, j),
    ensures
        find_from(s, pat, from) == Some(i),
{
    reveal(find_from);
    assert(from <= i && occurs_at(s, pat, i));
    let k = choose|k: int| from <= k && occurs_at(s, pat, k) && forall|j: int| from <= j < k ==> !occurs_at(s, pat, j);
    if k < i {
        assert(!occurs_at(s, pat, k));
    }
    if k > i {
        assert(!occurs_at(s, pat, i));
    }
}

proof fn lemma_not_found(s: Seq<char>, pat: Seq<char>, from: int)
    requires
        forall|j: int| from <= j <= s.len() ==> !occurs_at(s, pat, j),
    ensures
        find_from(s, pat, from) is None,
{
    reveal(find_from);
    assert forall|j: int| from <= j implies !occurs_at(s, pat, j) by {
        if j > s.len() {
            assert(!(j + pat.len() <= s.len()));
        }
    }
}

fn find(s: &Vec<char>, pat: &Vec<char>, from: usize) -> (found: Option<usize>)
    requires
        from <= s@.len(),
    ensures
        match found {
            Some(i) => find_from(s@, pat@, from as int) == Some(i as int) && from <= i && occurs_at(s@, pat@, i as int),
            None => find_from(s@, pat@, from as int) is None,
        },
{
    let mut i: usize = from;
    while i < s.len()
        invariant
            from <= i <= s@.len(),
            forall|j: int| from <= j < i ==> !occurs_at(s@, pat@, j),
        decreases s.len() - i,
    {
        if matches_at(s, pat, i) {
            proof { lemma_found_first(s@, pat@, from as int, i as int); }
            return Some(i);
        }
        i = i + 1;
    }
    if matches_at(s, pat, i) {
        proof { lemma_found_first(s@, pat@, from as int, i as int); }
        return Some(i);
    }
    proof { lemma_not_found(s@, pat@, from as int); }
    None
}

/// The file a trace line names: the text between its first `File("` and the
/// next `")`.
pub open spec fn data_file_of(line: Seq<char>) -> Option<Seq<char>> {
    match find_from(line, "File(\""@, 0) {
        None => None,
        Some(a) => match find_from(line, "\")"@, a + 6) {
            None => None,
            Some(b) => Some(line.subrange(a + 6, b)),
        },
    }
}

fn copy_range(chars: &Vec<char>, start: usize, end: usize) -> (out: String)
    requires
        start <= end <= chars@.len(),
    ensures
        out@ == chars@.subrange(start as int, end as int),
{
    let mut out = String::new();
    let mut k: usize = start;
    while k < end
        invariant
            start <= k <= end,
            end <= chars@.len(),
            out@ == chars@.subrange(start as int, k as int),
        decreases end - k,
    {
        push_char(&mut out, chars[k]);
        assert(chars@.subrange(start as int, k + 1) =~= chars@.subrange(start as int, k as int).push(chars@[k as int]));
        k = k + 1;
    }
    out
}

/// Extracts the data file a trace line names.
pub fn data_file(line: &str) -> (file: Option<String>)
    ensures
        match file { Some(f) => Some(f@), None => None } == data_file_of(line@),
{
    let chars = text_chars(line);
    let marker = text_chars("File(\"");
    let close = text_chars("\")");
    proof {
        reveal_strlit("File(\"");
        reveal_strlit("\")");
    }
    assert(marker@.len() == 6);
    let a = match find(&chars, &marker, 0) {
        Some(a) => a,
        None => return None,
    };
    let n = chars.len();
    assert(a + 6 <= n);
    let start = a + 6;
    let end = match find(&chars, &close, start) {
        Some(b) => b,
        None => return None,
    };
    assert(end + 2 <= chars@.len());
    Some(copy_range(&chars, start, end))
}

/// The escape of one character in the report: backslash, quote and
/// newline are escaped, everything else is kept.
pub open spec fn report_escape_char(c: char) -> Seq<char> {
    if c == '\\' {
        seq!['\\', '\\']
    } else if c == '"' {
        seq!['\\', '"']
    } else if c == '\n' {
        seq!['\\', 'n']
    } else {
        seq![c]
    }
}

/// The report escape of a string, character by character.
pub open spec fn report_escaped(s: Seq<char>) -> Seq<char>
    decreases s.len(),
{
    if s.len() == 0 { seq![] } else { report_escaped(s.drop_last()) + report_escape_char(s.last()) }
}

/// Escapes backslashes, double quotes and newlines for the JSON report.
pub fn json_escape(value: &str) -> (out: String)
    ensures
        out@ == report_escaped(value@),
{
    let chars = text_chars(value);
    let mut out = String::new();
    let mut i: usize = 0;
    assert(value@.take(0) =~= seq![]);
    while i < chars.len()
        invariant
            chars@ == value@,
            i <= chars.len(),
            out@ == report_escaped(value@.take(i as int)),
        decreases chars.len() - i,
    {
        let c = chars[i];
        let ghost before = out@;
        if c == '\\' {
            push_char(&mut out, '\\');
            push_char(&mut out, '\\');
        } else if c == '"' {
            push_char(&mut out, '\\');
            push_char(&mut out, '"');
        } else if c == '\n' {
            push_char(&mut out, '\\');
            push_char(&mut out, 'n');
        } else {
            push_char(&mut out, c);
        }
        proof {
            assert(value@.take(i + 1).drop_last() =~= value@.take(i as int));
            assert(value@.take(i + 1).last() == c);
            assert(out@ =~= before + report_escape_char(c));
        }
        i = i + 1;
    }
    assert(value@.take(chars.len() as int) =~= value@);
    out
}

/// A Unicode `White_Space` character, as `char::is_whitespace` decides.
pub open spec fn is_white_space(c: char) -> bool {
    c == ' ' || ('\t' <= c && c <= '\r') || c == '\u{85}' || c == '\u{a0}' || c == '\u{1680}'
        || ('\u{2000}' <= c && c <= '\u{200a}') || c == '\u{2028}' || c == '\u{2029}' || c == '\u{202f}'
        || c == '\u{205f}' || c == '\u{3000}'
}

fn white_space(c: char) -> (w: bool)
    ensures
        w == is_white_space(c),
{
    c == ' ' || ('\t' <= c && c <= '\r') || c == '\u{85}' || c == '\u{a0}' || c == '\u{1680}'
        || ('\u{2000}' <= c && c <= '\u{200a}') || c == '\u{2028}' || c == '\u{2029}' || c == '\u{202f}'
        || c == '\u{205f}' || c == '\u{3000}'
}

/// The number of leading white-space characters of `s`.
pub open spec fn leading_space(s: Seq<char>) -> int {
    if exists|i: int| 0 <= i < s.len() && !is_white_space(s[i]) {
        choose|i: int| 0 <= i < s.len() && !is_white_space(s[i]) && forall|j: int| 0 <= j < i ==> is_white_space(s[j])
    } else {
        s.len() as int
    }
}

/// `s` without its leading white space, as `str::trim_start` gives it.
pub open spec fn trimmed_start(s: Seq<char>) -> Seq<char> {
    s.subrange(leading_space(s), s.len() as int)
}

/// `s` with its leading white space removed.
pub fn trim_start(s: &str) -> (t: String)
    ensures
        t@ == trimmed_start(s@),
{
    let chars = text_chars(s);
    let mut i: usize = 0;
    while i < chars.len() && white_space(chars[i])
        invariant
            chars@ == s@,
            i <= chars@.len(),
            forall|j: int| 0 <= j < i ==> is_white_space(chars@[j]),
        decreases chars.len() - i,
    {
        i = i + 1;
    }
    proof {
        if i < chars.len() {
            let k = choose|k: int| 0 <= k < s@.len() && !is_white_space(s@[k]) && forall|j: int| 0 <= j < k ==> is_white_space(s@[j]);
            assert(0 <= i < s@.len() && !is_white_space(s@[i as int]));
            if k < i { assert(is_white_space(s@[k])); }
            if k > i { assert(is_white_space(s@[i as int])); }
        }
    }
    copy_range(&chars, i, chars.len())
}

/// Whether `s` starts with `prefix`.
pub open spec fn starts_with(s: Seq<char>, prefix: Seq<char>) -> bool {
    prefix.len() <= s.len() && s.subrange(0, prefix.len() as int) == prefix
}

fn has_prefix(s: &str, prefix: &str) -> (found: bool)
    ensures
        found == starts_with(s@, prefix@),
{
    let a = text_chars(s);
    let p = text_chars(prefix);
    let n = a.len();
    if p.len() > n {
        return false;
    }
    let found = matches_at(&a, &p, 0);
    proof {
        assert(starts_with(s@, prefix@) == occurs_at(s@, prefix@, 0));
    }
    found
}

/// The kind of upload a trace write command makes.
#[derive(Clone, Copy, Debug, PartialEq, Eq, Structural)]
pub enum WriteKind {
    Buffer,
    Texture,
}

/// The state of a scan over a GPU trace: the write command awaiting its
/// data file, the upload bytes of the frame so far, and the finished
/// frames as (buffer bytes, texture bytes).
#[derive(Debug)]
pub struct UploadScan {
    pub current: Option<WriteKind>,
    pub frame_buffer_bytes: u64,
    pub frame_texture_bytes: u64,
    pub frames: Vec<(u64, u64)>,
}

/// The write command a trimmed trace line starts, if any.
pub open spec fn line_write(trimmed: Seq<char>) -> Option<WriteKind> {
    if starts_with(trimmed, "WriteBuffer("@) {
        Some(WriteKind::Buffer)
    } else if starts_with(trimmed, "WriteTexture("@) {
        Some(WriteKind::Texture)
    } else {
        None
    }
}

impl UploadScan {
    /// A scan before the first line.
    pub fn new() -> (scan: UploadScan)
        ensures
            scan.current is None,
            scan.frame_buffer_bytes == 0,
            scan.frame_texture_bytes == 0,
            scan.frames@ == Seq::<(u64, u64)>::empty(),
    {
        UploadScan { current: None, frame_buffer_bytes: 0, frame_texture_bytes: 0, frames: Vec::new() }
    }

    /// Reads the start of a trace line: a write command becomes the one
    /// awaiting data, and when one awaits and the line names a data file,
    /// that file is returned; its size is then given to `record_upload`.
    pub fn begin_line(&mut self, line: &str) -> (file: Option<String>)
        ensures
            final(self).frame_buffer_bytes == old(self).frame_buffer_bytes,
            final(self).frame_texture_bytes == old(self).frame_texture_bytes,
            final(self).frames@ == old(self).frames@,
            final(self).current == (match line_write(trimmed_start(line@)) {
                Some(k) => Some(k),
                None => old(self).current,
            }),
            match file { Some(f) => Some(f@), None => None }
                == (if final(self).current is Some { data_file_of(trimmed_start(line@)) } else { None }),
    {
        let trimmed = trim_start(line);
        proof {
            reveal_strlit("WriteBuffer(");
            reveal_strlit("WriteTexture(");
        }
        if has_prefix(trimmed.as_str(), "WriteBuffer(") {
            self.current = Some(WriteKind::Buffer);
        } else if has_prefix(trimmed.as_str(), "WriteTexture(") {
            self.current = Some(WriteKind::Texture);
        }
        if self.current.is_some() {
            data_file(trimmed.as_str())
        } else {
            None
        }
    }

    /// Adds the size of the data file of the awaiting write to the frame.
    pub fn record_upload(&mut self, bytes: u64)
        requires
            old(self).current is Some,
            old(self).current == Some(WriteKind::Buffer) ==> old(self).frame_buffer_bytes + bytes <= u64::MAX,
            old(self).current == Some(WriteKind::Texture) ==> old(self).frame_texture_bytes + bytes <= u64::MAX,
        ensures
            final(self).current is None,
            final(self).frames@ == old(self).frames@,
            final(self).frame_buffer_bytes == old(self).frame_buffer_bytes
                + if old(self).current == Some(WriteKind::Buffer) { bytes as int } else { 0int },
            final(self).frame_texture_bytes == old(self).frame_texture_bytes
                + if old(self).current == Some(WriteKind::Texture) { bytes as int } else { 0int },
    {
        match self.current {
            Some(WriteKind::Buffer) => self.frame_buffer_bytes = self.frame_buffer_bytes + bytes,
            Some(WriteKind::Texture) => self.frame_texture_bytes = self.frame_texture_bytes + bytes,
            None => {},
        }
        self.current = None;
    }

    /// Reads the end of a trace line: a `Submit(` ends the frame.
    pub fn end_line(&mut self, line: &str)
        ensures
            starts_with(trimmed_start(line@), "Submit("@) ==> {
                &&& final(self).frames@ == old(self).frames@.push((old(self).frame_buffer_bytes, old(self).frame_texture_bytes))
                &&& final(self).frame_buffer_bytes == 0
                &&& final(self).frame_texture_bytes == 0
                &&& final(self).current is None
            },
            !starts_with(trimmed_start(line@), "Submit("@) ==> {
                &&& final(self).frames@ == old(self).frames@
                &&& final(self).frame_buffer_bytes == old(self).frame_buffer_bytes
                &&& final(self).frame_texture_bytes == old(self).frame_texture_bytes
                &&& final(self).current == old(self).current
            },
    {
        let trimmed = trim_start(line);
        if has_prefix(trimmed.as_str(), "Submit(") {
            self.frames.push((self.frame_buffer_bytes, self.frame_texture_bytes));
            self.frame_buffer_bytes = 0;
            self.frame_texture_bytes = 0;
            self.current = None;
        }
    }
}

/// The upload totals over the measured frames.
#[derive(Clone, Copy, Debug, PartialEq, Eq, Structural)]
pub struct UploadTotals {
    pub submit_count: usize,
    pub measured_submit_count: usize,
    pub buffer_total_bytes: u64,
    pub texture_total_bytes: u64,
}

/// The sum of the buffer (`first`) or texture bytes of frames `from..to`.
pub open spec fn frames_sum(frames: Seq<(u64, u64)>, from: int, to: int, first: bool) -> nat
    decreases to - from,
{
    if to <= from {
        0
    } else {
        frames_sum(frames, from, to - 1, first) + if first { frames[to - 1].0 as nat } else { frames[to - 1].1 as nat }
    }
}

/// The totals of the last `measured` frames, or the text of the error when
/// the trace holds fewer.
pub open spec fn upload_totals_of(frames: Seq<(u64, u64)>, measured: nat) -> Result<UploadTotals, Seq<char>> {
    if frames.len() < measured {
        Err("trace has "@ + decimal_digits(frames.len()) + " submissions, fewer than "@ + decimal_digits(measured)
            + " measured frames"@)
    } else {
        Ok(UploadTotals {
            submit_count: frames.len() as usize,
            measured_submit_count: measured as usize,
            buffer_total_bytes: frames_sum(frames, frames.len() - measured, frames.len() as int, true) as u64,
            texture_total_bytes: frames_sum(frames, frames.len() - measured, frames.len() as int, false) as u64,
        })
    }
}

/// Adds up the uploads of the last `measured_frames` frames of a trace.
pub fn upload_totals(frames: &Vec<(u64, u64)>, measured_frames: u32) -> (result: Result<UploadTotals, String>)
    requires
        frames@.len() >= measured_frames ==>
            frames_sum(frames@, frames@.len() - measured_frames, frames@.len() as int, true) <= u64::MAX
            && frames_sum(frames@, frames@.len() - measured_frames, frames@.len() as int, false) <= u64::MAX,
    ensures
        match upload_totals_of(frames@, measured_frames as nat) {
            Ok(t) => result == Ok::<UploadTotals, String>(t),
            Err(text) => result matches Err(e) && e@ == text,
        },
{
    let measured = measured_frames as usize;
    let n = frames.len();
    if n < measured {
        let mut out = owned_text("trace has ");
        let a = decimal_text(n as u64);
        out.append(a.as_str());
        out.append(" submissions, fewer than ");
        let b = decimal_text(measured as u64);
        out.append(b.as_str());
        out.append(" measured frames");
        return Err(out);
    }
    let start = n - measured;
    let mut buffer: u64 = 0;
    let mut texture: u64 = 0;
    let mut k: usize = start;
    while k < n
        invariant
            n == frames@.len(),
            start == n - measured,
            measured == measured_frames,
            start <= k <= n,
            frames_sum(frames@, start as int, n as int, true) <= u64::MAX,
            frames_sum(frames@, start as int, n as int, false) <= u64::MAX,
            buffer == frames_sum(frames@, start as int, k as int, true),
            texture == frames_sum(frames@, start as int, k as int, false),
        decreases n - k,
    {
        proof {
            lemma_frames_sum_monotone(frames@, start as int, k + 1, n as int, true);
            lemma_frames_sum_monotone(frames@, start as int, k + 1, n as int, false);
        }
        buffer = buffer + frames[k].0;
        texture = texture + frames[k].1;
        k = k + 1;
    }
    Ok(UploadTotals { submit_count: n, measured_submit_count: measured, buffer_total_bytes: buffer, texture_total_bytes: texture })
}

proof fn lemma_frames_sum_monotone(frames: Seq<(u64, u64)>, from: int, a: int, b: int, first: bool)
    requires
        from <= a <= b,
    ensures
        frames_sum(frames, from, a, first) <= frames_sum(frames, from, b, first),
    decreases b - a,
{
    if a < b {
        lemma_frames_sum_monotone(frames, from, a, b - 1, first);
    }
}

/// Upload totals are additive: the bytes of frames `a..c` are the bytes
/// of `a..b` and of `b..c` together, for buffers and for textures alike,
/// and one frame's total is that frame's bytes.
pub proof fn law_frame_totals_are_additive(frames: Seq<(u64, u64)>, a: int, b: int, c: int, first: bool)
    requires
        a <= b <= c,
    ensures
        frames_sum(frames, a, c, first) == frames_sum(frames, a, b, first) + frames_sum(frames, b, c, first),
        frames_sum(frames, b, b + 1, first) == if first { frames[b].0 as nat } else { frames[b].1 as nat },
    decreases c - b,
{
    if b < c {
        law_frame_totals_are_additive(frames, a, b, c - 1, first);
    }
}

/// Measuring one more frame adds exactly that frame's bytes to both
/// totals: the totals are the sums of the measured frames' buffer and
/// texture bytes, and measuring nothing gives nothing.
pub proof fn law_one_more_measured_frame_adds_its_bytes(frames: Seq<(u64, u64)>, measured: nat)
    requires
        measured + 1 <= frames.len(),
        frames_sum(frames, frames.len() - measured - 1, frames.len() as int, true) <= u64::MAX,
        frames_sum(frames, frames.len() - measured - 1, frames.len() as int, false) <= u64::MAX,
    ensures
        upload_totals_of(frames, 0) matches Ok(z) && z.buffer_total_bytes == 0 && z.texture_total_bytes == 0,
        upload_totals_of(frames, measured) matches Ok(t) && upload_totals_of(frames, measured + 1) matches Ok(u) && {
            let k = frames.len() - measured - 1;
            &&& u.buffer_total_bytes == t.buffer_total_bytes + frames[k].0
            &&& u.texture_total_bytes == t.texture_total_bytes + frames[k].1
        },
{
    let n = frames.len() as int;
    let k = n - measured - 1;
    law_frame_totals_are_additive(frames, k, k + 1, n, true);
    law_frame_totals_are_additive(frames, k, k + 1, n, false);
    law_frame_totals_are_additive(frames, k, k, k + 1, true);
    law_frame_totals_are_additive(frames, k, k, k + 1, false);
    let b0 = frames_sum(frames, k + 1, n, true);
    let b1 = frames_sum(frames, k, n, true);
    let t0 = frames_sum(frames, k + 1, n, false);
    let t1 = frames_sum(frames, k, n, false);
    assert(b1 == b0 + frames[k].0 && b1 <= u64::MAX);
    assert(t1 == t0 + frames[k].1 && t1 <= u64::MAX);
    assert(n - (measured + 1) == k);
    assert(n - measured == k + 1);
    assert(b0 as u64 == b0 && b1 as u64 == b1 && t0 as u64 == t0 && t1 as u64 == t1);
}

} // verus!

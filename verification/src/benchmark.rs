//! Option handling and GPU memory accounting of the cooked-asset
//! benchmarks.

use vstd::prelude::*;
use crate::numbers::{parse_unsigned, parse_usize};
use crate::text::{owned_text, text_eq, texts};

verus! {

/// Iterations measured when `--iterations` is absent.
pub const DEFAULT_ITERATIONS: usize = 25;

/// The largest accepted `--iterations`.
pub const MAX_ITERATIONS: usize = 1000;

/// Why `--iterations` was refused.
#[derive(Clone, Copy, Debug, PartialEq, Eq, Structural)]
pub enum IterationsError {
    MissingValue,
    NotInteger,
    OutOfRange,
    Repeated,
}

/// The text of an iterations error.
pub open spec fn iterations_error_text(e: IterationsError) -> Seq<char> {
    match e {
        IterationsError::MissingValue => "--iterations requires a value"@,
        IterationsError::NotInteger => "--iterations must be an integer"@,
        IterationsError::OutOfRange => "--iterations must be between 1 and 1000"@,
        IterationsError::Repeated => "--iterations may only be specified once"@,
    }
}

impl IterationsError {
    /// The human-readable text of this error.
    pub fn message(&self) -> (text: String)
        ensures
            text@ == iterations_error_text(*self),
    {
        match self {
            IterationsError::MissingValue => owned_text("--iterations requires a value"),
            IterationsError::NotInteger => owned_text("--iterations must be an integer"),
            IterationsError::OutOfRange => owned_text("--iterations must be between 1 and 1000"),
            IterationsError::Repeated => owned_text("--iterations may only be specified once"),
        }
    }
}

/// The scan of `split_iterations` from position `i`.
pub open spec fn scan_iterations(
    flags: Seq<Seq<char>>,
    i: int,
    iterations: Option<usize>,
    remaining: Seq<Seq<char>>,
) -> Result<(Option<usize>, Seq<Seq<char>>), IterationsError>
    decreases flags.len() - i,
{
    if i >= flags.len() || i < 0 {
        Ok((iterations, remaining))
    } else if flags[i] != "--iterations"@ {
        scan_iterations(flags, i + 1, iterations, remaining.push(flags[i]))
    } else if i + 1 >= flags.len() {
        Err(IterationsError::MissingValue)
    } else {
        match parse_unsigned(flags[i + 1], usize::MAX as nat) {
            None => Err(IterationsError::NotInteger),
            Some(v) => if !(1 <= v <= MAX_ITERATIONS) {
                Err(IterationsError::OutOfRange)
            } else if iterations is Some {
                Err(IterationsError::Repeated)
            } else {
                scan_iterations(flags, i + 2, Some(v as usize), remaining)
            },
        }
    }
}

/// What `split_iterations` returns.
pub open spec fn split_iterations_spec(flags: Seq<Seq<char>>) -> Result<(usize, Seq<Seq<char>>), IterationsError> {
    match scan_iterations(flags, 0, None, seq![]) {
        Err(e) => Err(e),
        Ok((Some(n), remaining)) => Ok((n, remaining)),
        Ok((None, remaining)) => Ok((DEFAULT_ITERATIONS, remaining)),
    }
}

/// Takes `--iterations N` (1..=1000, at most once, default 25) out of the
/// flags; the other flags keep their order.
pub fn split_iterations(flags: &[String]) -> (result: Result<(usize, Vec<String>), IterationsError>)
    ensures
        match split_iterations_spec(texts(flags@)) {
            Ok((n, remaining)) => result matches Ok((m, r)) && m == n && texts(r@) == remaining,
            Err(e) => result == Err::<(usize, Vec<String>), IterationsError>(e),
        },
{
    let mut iterations: Option<usize> = None;
    let mut remaining: Vec<String> = Vec::new();
    let mut index: usize = 0;
    let ghost all = texts(flags@);
    assert(texts(remaining@) =~= seq![]);
    while index < flags.len()
        invariant
            all == texts(flags@),
            index <= flags.len(),
            scan_iterations(all, 0, None, seq![]) == scan_iterations(all, index as int, iterations, texts(remaining@)),
        decreases flags.len() - index,
    {
        if !text_eq(flags[index].as_str(), "--iterations") {
            let ghost before = texts(remaining@);
            remaining.push(flags[index].clone());
            assert(texts(remaining@) =~= before.push(all[index as int]));
            index = index + 1;
            continue;
        }
        if index + 1 >= flags.len() {
            return Err(IterationsError::MissingValue);
        }
        let value = match parse_usize(flags[index + 1].as_str()) {
            Some(v) => v,
            None => return Err(IterationsError::NotInteger),
        };
        if !(1 <= value && value <= MAX_ITERATIONS) {
            return Err(IterationsError::OutOfRange);
        }
        if iterations.is_some() {
            return Err(IterationsError::Repeated);
        }
        iterations = Some(value);
        index = index + 2;
    }
    match iterations {
        Some(n) => Ok((n, remaining)),
        None => Ok((DEFAULT_ITERATIONS, remaining)),
    }
}

/// The next mip dimension: half, at least one.
pub open spec fn next_mip(d: nat) -> nat {
    if d / 2 == 0 { 1 } else { d / 2 }
}

/// Bytes of an RGBA8 mip chain of `levels` levels from `width x height`.
pub open spec fn rgba8_chain_bytes(width: nat, height: nat, levels: nat) -> nat
    decreases levels,
{
    if levels == 0 {
        0
    } else {
        width * height * 4 + rgba8_chain_bytes(next_mip(width), next_mip(height), (levels - 1) as nat)
    }
}

/// Bytes of a BC (16-byte 4x4 block) mip chain of `levels` levels.
pub open spec fn bc_chain_bytes(width: nat, height: nat, levels: nat) -> nat
    decreases levels,
{
    if levels == 0 {
        0
    } else {
        ((width + 3) / 4) * ((height + 3) / 4) * 16 + bc_chain_bytes(next_mip(width), next_mip(height), (levels - 1) as nat)
    }
}

/// Bytes of an RGBA8 mip chain.
pub fn rgba8_mip_bytes(width: u32, height: u32, mip_levels: u32) -> (bytes: u64)
    requires
        rgba8_chain_bytes(width as nat, height as nat, mip_levels as nat) <= u64::MAX,
    ensures
        bytes == rgba8_chain_bytes(width as nat, height as nat, mip_levels as nat),
{
    let mut w = width;
    let mut h = height;
    let mut bytes: u64 = 0;
    let mut level: u32 = 0;
    while level < mip_levels
        invariant
            level <= mip_levels,
            bytes + rgba8_chain_bytes(w as nat, h as nat, (mip_levels - level) as nat)
                == rgba8_chain_bytes(width as nat, height as nat, mip_levels as nat),
            rgba8_chain_bytes(width as nat, height as nat, mip_levels as nat) <= u64::MAX,
        decreases mip_levels - level,
    {
        let ghost rest = rgba8_chain_bytes(next_mip(w as nat), next_mip(h as nat), (mip_levels - level - 1) as nat);
        assert(rgba8_chain_bytes(w as nat, h as nat, (mip_levels - level) as nat) == w * h * 4 + rest);
        assert(w as u64 * h as u64 <= u64::MAX / 4) by (nonlinear_arith)
            requires bytes + w * h * 4 + rest <= u64::MAX, rest >= 0, bytes >= 0;
        bytes = bytes + (w as u64) * (h as u64) * 4;
        w = if w / 2 == 0 { 1 } else { w / 2 };
        h = if h / 2 == 0 { 1 } else { h / 2 };
        level = level + 1;
    }
    bytes
}

/// Bytes of a BC-compressed mip chain.
pub fn bc_mip_bytes(width: u32, height: u32, mip_levels: u32) -> (bytes: u64)
    requires
        bc_chain_bytes(width as nat, height as nat, mip_levels as nat) <= u64::MAX,
    ensures
        bytes == bc_chain_bytes(width as nat, height as nat, mip_levels as nat),
{
    let mut w = width;
    let mut h = height;
    let mut bytes: u64 = 0;
    let mut level: u32 = 0;
    while level < mip_levels
        invariant
            level <= mip_levels,
            bytes + bc_chain_bytes(w as nat, h as nat, (mip_levels - level) as nat)
                == bc_chain_bytes(width as nat, height as nat, mip_levels as nat),
            bc_chain_bytes(width as nat, height as nat, mip_levels as nat) <= u64::MAX,
        decreases mip_levels - level,
    {
        let ghost rest = bc_chain_bytes(next_mip(w as nat), next_mip(h as nat), (mip_levels - level - 1) as nat);
        let bw = (w as u64 + 3) / 4;
        let bh = (h as u64 + 3) / 4;
        assert(bc_chain_bytes(w as nat, h as nat, (mip_levels - level) as nat) == bw * bh * 16 + rest);
        assert(bw * bh <= u64::MAX / 16) by (nonlinear_arith)
            requires bytes + bw * bh * 16 + rest <= u64::MAX, rest >= 0, bytes >= 0;
        bytes = bytes + bw * bh * 16;
        w = if w / 2 == 0 { 1 } else { w / 2 };
        h = if h / 2 == 0 { 1 } else { h / 2 };
        level = level + 1;
    }
    bytes
}

proof fn lemma_scan_iterations_bounded(flags: Seq<Seq<char>>, i: int, iterations: Option<usize>, remaining: Seq<Seq<char>>)
    requires
        iterations matches Some(v) ==> 1 <= v <= MAX_ITERATIONS,
    ensures
        scan_iterations(flags, i, iterations, remaining) matches Ok((Some(v), _)) ==> 1 <= v <= MAX_ITERATIONS,
    decreases flags.len() - i,
{
    if 0 <= i < flags.len() {
        if flags[i] != "--iterations"@ {
            lemma_scan_iterations_bounded(flags, i + 1, iterations, remaining.push(flags[i]));
        } else if i + 1 < flags.len() {
            if let Some(v) = parse_unsigned(flags[i + 1], usize::MAX as nat) {
                if 1 <= v <= MAX_ITERATIONS && iterations is None {
                    lemma_scan_iterations_bounded(flags, i + 2, Some(v as usize), remaining);
                }
            }
        }
    }
}

/// The iteration count a benchmark runs is always between 1 and 1000.
pub proof fn law_iterations_are_bounded(flags: Seq<Seq<char>>)
    ensures
        split_iterations_spec(flags) matches Ok((n, _)) ==> 1 <= n <= MAX_ITERATIONS,
{
    lemma_scan_iterations_bounded(flags, 0, None, seq![]);
}

proof fn lemma_scan_passes_other_flags(flags: Seq<Seq<char>>, i: int, k: int, iterations: Option<usize>, remaining: Seq<Seq<char>>)
    requires
        0 <= i <= k <= flags.len(),
        forall|j: int| i <= j < k ==> flags[j] != "--iterations"@,
    ensures
        scan_iterations(flags, i, iterations, remaining) == scan_iterations(flags, k, iterations, remaining + flags.subrange(i, k)),
    decreases k - i,
{
    if i < k {
        lemma_scan_passes_other_flags(flags, i + 1, k, iterations, remaining.push(flags[i]));
        assert(remaining.push(flags[i]) + flags.subrange(i + 1, k) =~= remaining + flags.subrange(i, k));
    } else {
        assert(remaining + flags.subrange(i, k) =~= remaining);
    }
}

/// `--iterations N` may stand anywhere among the other flags: wherever it
/// stands, the count is `N` and the other flags come back in their order;
/// without it the count is the default.
pub proof fn law_iterations_are_order_independent(before: Seq<Seq<char>>, after: Seq<Seq<char>>, value: Seq<char>)
    requires
        forall|j: int| 0 <= j < before.len() ==> before[j] != "--iterations"@,
        forall|j: int| 0 <= j < after.len() ==> after[j] != "--iterations"@,
    ensures
        split_iterations_spec(before + after) == Ok::<(usize, Seq<Seq<char>>), IterationsError>((DEFAULT_ITERATIONS, before + after)),
        match parse_unsigned(value, usize::MAX as nat) {
            Some(n) => 1 <= n <= MAX_ITERATIONS ==> split_iterations_spec(before + seq!["--iterations"@, value] + after)
                == Ok::<(usize, Seq<Seq<char>>), IterationsError>((n as usize, before + after)),
            None => true,
        },
{
    let plain = before + after;
    lemma_scan_passes_other_flags(plain, 0, plain.len() as int, None, seq![]);
    assert(seq![] + plain.subrange(0, plain.len() as int) =~= plain);
    let flags = before + seq!["--iterations"@, value] + after;
    let b = before.len() as int;
    if let Some(n) = parse_unsigned(value, usize::MAX as nat) {
        if 1 <= n <= MAX_ITERATIONS {
            assert forall|j: int| 0 <= j < b implies flags[j] != "--iterations"@ by {
                assert(flags[j] == before[j]);
            }
            lemma_scan_passes_other_flags(flags, 0, b, None, seq![]);
            assert(seq![] + flags.subrange(0, b) =~= before);
            assert(flags[b] == "--iterations"@ && flags[b + 1] == value);
            assert forall|j: int| b + 2 <= j < flags.len() implies flags[j] != "--iterations"@ by {
                assert(flags[j] == after[j - b - 2]);
            }
            lemma_scan_passes_other_flags(flags, b + 2, flags.len() as int, Some(n as usize), before);
            assert(before + flags.subrange(b + 2, flags.len() as int) =~= before + after);
        }
    }
}

} // verus!

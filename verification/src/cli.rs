//! Pieces shared by the command-line grammars: option values taken from
//! the next argument, and numbers read from them.
//!
//! Float values are parsed by the caller (the library holds no floats):
//! `floats[k]` is the `f32` bit pattern `args[k]` parses to, or the text
//! of the parse error.

use vstd::prelude::*;
use crate::numbers::{int_error_text, integer_parse, parse_integer};
use crate::text::{concat2, concat3, owned_text, texts};

verus! {

/// The characters of an optional string.
pub open spec fn opt_chars(s: Option<String>) -> Option<Seq<char>> {
    match s {
        Some(t) => Some(t@),
        None => None,
    }
}

/// The parse results as plain values.
pub open spec fn float_texts(floats: Seq<Result<u32, String>>) -> Seq<Result<u32, Seq<char>>> {
    floats.map_values(|r: Result<u32, String>| match r {
        Ok(b) => Ok(b),
        Err(t) => Err(t@),
    })
}

/// The argument after position `i`, if any.
pub open spec fn value_after(args: Seq<Seq<char>>, i: int) -> Option<Seq<char>> {
    if args.len() - i > 1 { Some(args[i + 1]) } else { None }
}

/// The position after an option at `i` that takes one value.
pub open spec fn after_value(args: Seq<Seq<char>>, i: int) -> int {
    if args.len() - i > 1 { i + 2 } else { args.len() as int }
}

/// The float value of the option `flag` at position `i`.
pub open spec fn float_value(args: Seq<Seq<char>>, floats: Seq<Result<u32, Seq<char>>>, i: int, flag: Seq<char>) -> Result<u32, Seq<char>> {
    if args.len() - i <= 1 {
        Err(flag + " needs a value"@)
    } else {
        match floats[i + 1] {
            Ok(b) => Ok(b),
            Err(t) => Err("invalid "@ + flag + ": "@ + t),
        }
    }
}

/// The argument after position `i`, copied.
pub fn next_value(args: &[String], i: usize) -> (v: Option<String>)
    requires
        i < args@.len(),
    ensures
        opt_chars(v) == value_after(texts(args@), i as int),
{
    if args.len() - i > 1 {
        Some(owned_text(args[i + 1].as_str()))
    } else {
        None
    }
}

/// The float value of the option `flag` at position `i`.
pub fn read_float(args: &[String], floats: &[Result<u32, String>], i: usize, flag: &str) -> (result: Result<u32, String>)
    requires
        i < args@.len(),
        floats@.len() == args@.len(),
    ensures
        match float_value(texts(args@), float_texts(floats@), i as int, flag@) {
            Ok(b) => result == Ok::<u32, String>(b),
            Err(t) => result matches Err(e) && e@ == t,
        },
{
    if args.len() - i <= 1 {
        return Err(concat2(flag, " needs a value"));
    }
    match &floats[i + 1] {
        Ok(b) => Ok(*b),
        Err(t) => {
            let mut out = concat3("invalid ", flag, ": ");
            out.append(t.as_str());
            Err(out)
        },
    }
}


/// The integer value, at most `max`, of the option `flag` at position `i`.
pub open spec fn int_value(args: Seq<Seq<char>>, i: int, flag: Seq<char>, max: nat) -> Result<nat, Seq<char>> {
    if args.len() - i <= 1 {
        Err(flag + " needs a value"@)
    } else {
        match integer_parse(args[i + 1], max) {
            Ok(v) => Ok(v),
            Err(k) => Err("invalid "@ + flag + ": "@ + int_error_text(k)),
        }
    }
}

/// The integer value, at most `max`, of the option `flag` at position `i`.
pub fn read_int(args: &[String], i: usize, flag: &str, max: u64) -> (result: Result<u64, String>)
    requires
        i < args@.len(),
    ensures
        match int_value(texts(args@), i as int, flag@, max as nat) {
            Ok(v) => result == Ok::<u64, String>(v as u64),
            Err(t) => result matches Err(e) && e@ == t,
        },
        int_value(texts(args@), i as int, flag@, max as nat) matches Ok(v) ==> v <= max,
{
    if args.len() - i <= 1 {
        return Err(concat2(flag, " needs a value"));
    }
    match parse_integer(args[i + 1].as_str(), max) {
        Ok(v) => Ok(v),
        Err(k) => {
            let mut out = concat3("invalid ", flag, ": ");
            let text = k.message();
            out.append(text.as_str());
            Err(out)
        },
    }
}

/// The float values at positions `start + k .. start + count`, or the
/// first `k` whose value is missing (`None`) or does not parse (its error
/// text).
pub open spec fn float_run(args: Seq<Seq<char>>, floats: Seq<Result<u32, Seq<char>>>, start: int, k: nat, count: nat) -> Result<Seq<u32>, (nat, Option<Seq<char>>)>
    decreases count - k,
{
    if k >= count {
        Ok(seq![])
    } else if start + k >= args.len() {
        Err((k, None))
    } else {
        match floats[start + k] {
            Err(t) => Err((k, Some(t))),
            Ok(b) => match float_run(args, floats, start, k + 1, count) {
                Ok(rest) => Ok(seq![b] + rest),
                Err(e) => Err(e),
            },
        }
    }
}

/// Reads `count` float values starting at position `start`.
pub fn read_float_run(args: &[String], floats: &[Result<u32, String>], start: usize, count: usize) -> (result: Result<Vec<u32>, (usize, Option<String>)>)
    requires
        floats@.len() == args@.len(),
    ensures
        match float_run(texts(args@), float_texts(floats@), start as int, 0, count as nat) {
            Ok(vals) => result matches Ok(v) && v@ == vals,
            Err((k, None)) => result matches Err((j, None)) && j == k,
            Err((k, Some(t))) => result matches Err((j, Some(e))) && j == k && e@ == t,
        },
{
    let ghost all = texts(args@);
    let ghost fl = float_texts(floats@);
    let mut out: Vec<u32> = Vec::new();
    let mut k: usize = 0;
    assert(out@ + seq![] =~= out@);
    while k < count
        invariant
            all == texts(args@),
            fl == float_texts(floats@),
            floats@.len() == args@.len(),
            k <= count,
            float_run(all, fl, start as int, 0, count as nat) == match float_run(all, fl, start as int, k as nat, count as nat) {
                Ok(rest) => Ok::<Seq<u32>, (nat, Option<Seq<char>>)>(out@ + rest),
                Err(e) => Err(e),
            },
        decreases count - k,
    {
        if start >= args.len() || args.len() - start <= k {
            return Err((k, None));
        }
        let b = match &floats[start + k] {
            Ok(b) => *b,
            Err(t) => return Err((k, Some(owned_text(t.as_str())))),
        };
        let ghost before = out@;
        out.push(b);
        proof {
            match float_run(all, fl, start as int, (k + 1) as nat, count as nat) {
                Ok(rest) => {
                    assert(before + (seq![b] + rest) =~= out@ + rest);
                },
                Err(e) => {},
            }
        }
        k = k + 1;
    }
    assert(out@ + seq![] =~= out@);
    Ok(out)
}

} // verus!

//! The command line of the render performance harness.
//!
//! The render scale is a float: the caller parses it (`floats[k]` holds
//! the `f32` bits of `args[k]`, or the parse error) and clamps it to
//! `0.15..=1.0`.

use vstd::prelude::*;
use crate::cli::{after_value, float_texts, next_value, opt_chars, value_after};
use crate::perf::{flag_u32, parse_u32};
use crate::text::{concat2, owned_text, text_eq, texts};

verus! {

/// The settings of a performance run.
#[derive(Debug)]
pub struct PerfConfig {
    pub width: u32,
    pub height: u32,
    pub warmup_frames: u32,
    pub measured_frames: u32,
    /// At most 4.
    pub quality_preset: u32,
    /// `f32` bits, before clamping.
    pub render_scale_bits: Option<u32>,
    pub reactive_transparency: bool,
    pub profile_passes: bool,
    pub trace_dir: Option<String>,
    pub output: String,
}

/// The options seen so far, as plain values.
pub struct PerfScan {
    pub width: u32,
    pub height: u32,
    pub warmup_frames: u32,
    pub measured_frames: u32,
    pub quality_preset: u32,
    pub render_scale_bits: Option<u32>,
    pub reactive_transparency: bool,
    pub profile_passes: bool,
    pub trace_dir: Option<Seq<char>>,
    pub output: Option<Seq<char>>,
}

/// The state before any argument.
pub open spec fn perf_defaults() -> PerfScan {
    PerfScan {
        width: 1920,
        height: 1080,
        warmup_frames: 180,
        measured_frames: 300,
        quality_preset: 4,
        render_scale_bits: None,
        reactive_transparency: false,
        profile_passes: false,
        trace_dir: None,
        output: None,
    }
}

/// The float value of the option `flag` at `i`, or the error text.
pub open spec fn flag_f32(args: Seq<Seq<char>>, floats: Seq<Result<u32, Seq<char>>>, i: int, flag: Seq<char>) -> Result<u32, Seq<char>> {
    if value_after(args, i) is None {
        Err("missing value for "@ + flag)
    } else {
        match floats[i + 1] {
            Ok(b) => Ok(b),
            Err(_) => Err(flag + " must be a number"@),
        }
    }
}

/// The scan of the arguments from position `i` in state `s`.
pub open spec fn perf_scan(args: Seq<Seq<char>>, floats: Seq<Result<u32, Seq<char>>>, i: int, s: PerfScan) -> Result<PerfScan, Seq<char>>
    decreases args.len() - i,
{
    if i >= args.len() || i < 0 {
        Ok(s)
    } else {
        let a = args[i];
        let v = value_after(args, i);
        let next = after_value(args, i);
        if a == "--width"@ {
            match flag_u32(v, a) {
                Err(t) => Err(t),
                Ok(n) => perf_scan(args, floats, next, PerfScan { width: n, ..s }),
            }
        } else if a == "--height"@ {
            match flag_u32(v, a) {
                Err(t) => Err(t),
                Ok(n) => perf_scan(args, floats, next, PerfScan { height: n, ..s }),
            }
        } else if a == "--warmup"@ {
            match flag_u32(v, a) {
                Err(t) => Err(t),
                Ok(n) => perf_scan(args, floats, next, PerfScan { warmup_frames: n, ..s }),
            }
        } else if a == "--frames"@ {
            match flag_u32(v, a) {
                Err(t) => Err(t),
                Ok(n) => perf_scan(args, floats, next, PerfScan { measured_frames: n, ..s }),
            }
        } else if a == "--quality-preset"@ {
            match flag_u32(v, a) {
                Err(t) => Err(t),
                Ok(n) => perf_scan(args, floats, next, PerfScan { quality_preset: if n < 4 { n } else { 4 }, ..s }),
            }
        } else if a == "--render-scale"@ {
            match flag_f32(args, floats, i, a) {
                Err(t) => Err(t),
                Ok(b) => perf_scan(args, floats, next, PerfScan { render_scale_bits: Some(b), ..s }),
            }
        } else if a == "--reactive-transparency"@ {
            perf_scan(args, floats, i + 1, PerfScan { reactive_transparency: true, ..s })
        } else if a == "--profile-passes"@ {
            perf_scan(args, floats, i + 1, PerfScan { profile_passes: true, ..s })
        } else if a == "--trace-dir"@ {
            if v is None {
                Err("missing value for --trace-dir"@)
            } else {
                perf_scan(args, floats, next, PerfScan { trace_dir: v, ..s })
            }
        } else if a == "--out"@ {
            if v is None {
                Err("missing value for --out"@)
            } else {
                perf_scan(args, floats, next, PerfScan { output: v, ..s })
            }
        } else {
            Err("unknown argument "@ + a)
        }
    }
}

/// The settings of the run, or the error text: sizes and warm-up must be
/// positive, at least two frames measured, and an output named.
pub open spec fn perf_config_of(args: Seq<Seq<char>>, floats: Seq<Result<u32, Seq<char>>>) -> Result<PerfScan, Seq<char>> {
    match perf_scan(args, floats, 0, perf_defaults()) {
        Err(t) => Err(t),
        Ok(s) => if s.width == 0 || s.height == 0 || s.warmup_frames == 0 || s.measured_frames < 2 {
            Err("width/height/warmup must be positive and frames must be >= 2"@)
        } else if s.output is None {
            Err("--out is required"@)
        } else {
            Ok(s)
        },
    }
}

/// Whether a configuration is the scan result `s`.
pub open spec fn perf_config_is(c: PerfConfig, s: PerfScan) -> bool {
    &&& c.width == s.width
    &&& c.height == s.height
    &&& c.warmup_frames == s.warmup_frames
    &&& c.measured_frames == s.measured_frames
    &&& c.quality_preset == s.quality_preset
    &&& c.render_scale_bits == s.render_scale_bits
    &&& c.reactive_transparency == s.reactive_transparency
    &&& c.profile_passes == s.profile_passes
    &&& opt_chars(c.trace_dir) == s.trace_dir
    &&& s.output == Some(c.output@)
}

/// Parses the harness's arguments (without the program name).
pub fn parse_perf_config(args: &[String], floats: &[Result<u32, String>]) -> (result: Result<PerfConfig, String>)
    requires
        floats@.len() == args@.len(),
    ensures
        match perf_config_of(texts(args@), float_texts(floats@)) {
            Ok(s) => result matches Ok(c) && perf_config_is(c, s),
            Err(t) => result matches Err(e) && e@ == t,
        },
{
    let ghost all = texts(args@);
    let ghost fl = float_texts(floats@);
    let mut width: u32 = 1920;
    let mut height: u32 = 1080;
    let mut warmup_frames: u32 = 180;
    let mut measured_frames: u32 = 300;
    let mut quality_preset: u32 = 4;
    let mut render_scale_bits: Option<u32> = None;
    let mut reactive_transparency = false;
    let mut profile_passes = false;
    let mut trace_dir: Option<String> = None;
    let mut output: Option<String> = None;
    let mut i: usize = 0;
    while i < args.len()
        invariant
            all == texts(args@),
            fl == float_texts(floats@),
            floats@.len() == args@.len(),
            i <= args@.len(),
            perf_scan(all, fl, 0, perf_defaults()) == perf_scan(all, fl, i as int, PerfScan {
                width,
                height,
                warmup_frames,
                measured_frames,
                quality_preset,
                render_scale_bits,
                reactive_transparency,
                profile_passes,
                trace_dir: opt_chars(trace_dir),
                output: opt_chars(output),
            }),
        decreases args.len() - i,
    {
        let a = args[i].as_str();
        assert(a@ == all[i as int]);
        let next = if args.len() - i > 1 { i + 2 } else { args.len() };
        let v = next_value(args, i);
        if text_eq(a, "--width") {
            match parse_u32(v, a) {
                Ok(n) => width = n,
                Err(e) => return Err(e),
            }
        } else if text_eq(a, "--height") {
            match parse_u32(v, a) {
                Ok(n) => height = n,
                Err(e) => return Err(e),
            }
        } else if text_eq(a, "--warmup") {
            match parse_u32(v, a) {
                Ok(n) => warmup_frames = n,
                Err(e) => return Err(e),
            }
        } else if text_eq(a, "--frames") {
            match parse_u32(v, a) {
                Ok(n) => measured_frames = n,
                Err(e) => return Err(e),
            }
        } else if text_eq(a, "--quality-preset") {
            match parse_u32(v, a) {
                Ok(n) => quality_preset = if n < 4 { n } else { 4 },
                Err(e) => return Err(e),
            }
        } else if text_eq(a, "--render-scale") {
            if v.is_none() {
                return Err(concat2("missing value for ", a));
            }
            match &floats[i + 1] {
                Ok(b) => render_scale_bits = Some(*b),
                Err(_) => return Err(concat2(a, " must be a number")),
            }
        } else if text_eq(a, "--reactive-transparency") {
            reactive_transparency = true;
            i = i + 1;
            continue;
        } else if text_eq(a, "--profile-passes") {
            profile_passes = true;
            i = i + 1;
            continue;
        } else if text_eq(a, "--trace-dir") {
            if v.is_none() {
                return Err(owned_text("missing value for --trace-dir"));
            }
            trace_dir = v;
        } else if text_eq(a, "--out") {
            if v.is_none() {
                return Err(owned_text("missing value for --out"));
            }
            output = v;
        } else {
            return Err(concat2("unknown argument ", a));
        }
        i = next;
    }
    if width == 0 || height == 0 || warmup_frames == 0 || measured_frames < 2 {
        return Err(owned_text("width/height/warmup must be positive and frames must be >= 2"));
    }
    let output = match output {
        Some(o) => o,
        None => return Err(owned_text("--out is required")),
    };
    Ok(PerfConfig {
        width,
        height,
        warmup_frames,
        measured_frames,
        quality_preset,
        render_scale_bits,
        reactive_transparency,
        profile_passes,
        trace_dir,
        output,
    })
}

} // verus!

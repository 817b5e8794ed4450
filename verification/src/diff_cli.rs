//! The command line of the image comparison tool: which paths it reads and
//! writes, its gates and its switches.
//!
//! Float-valued options are parsed as 32-bit floats by the caller (the
//! library holds no floats): `floats[k]` is the bit pattern `args[k]`
//! parses to, or the text of the parse error.

use vstd::prelude::*;
use crate::cli::{after_value, float_texts, float_value, next_value, opt_chars, read_float, value_after};
use crate::text::{concat2, owned_text, text_eq, texts};

verus! {

/// The default per-pixel tolerance, 0.02, as `f32` bits.
pub const DEFAULT_TOLERANCE_BITS: u32 = 0x3ca3_d70a;

/// The parsed command line of a comparison run.
#[derive(Debug)]
pub struct DiffArgs {
    pub reference_path: String,
    pub candidate_path: String,
    pub mask_path: Option<String>,
    pub heatmap_path: Option<String>,
    pub composite_path: Option<String>,
    pub metrics_json_path: Option<String>,
    /// `f32` bits.
    pub tolerance_bits: u32,
    pub min_ssim_bits: Option<u32>,
    pub max_rmse_bits: Option<u32>,
    pub max_oklab_delta_bits: Option<u32>,
    pub max_edge_delta_bits: Option<u32>,
    pub seed_fault: Option<String>,
    pub fault_output_path: Option<String>,
    pub report_only: bool,
    pub quiet: bool,
}

/// What the command line asks for.
#[derive(Debug)]
pub enum DiffCommand {
    /// Print the usage text and stop.
    Help,
    Run(DiffArgs),
}

/// The options seen so far, as plain values.
pub struct DiffScan {
    pub reference_path: Option<Seq<char>>,
    pub candidate_path: Option<Seq<char>>,
    pub mask_path: Option<Seq<char>>,
    pub heatmap_path: Option<Seq<char>>,
    pub composite_path: Option<Seq<char>>,
    pub metrics_json_path: Option<Seq<char>>,
    pub tolerance_bits: u32,
    pub min_ssim_bits: Option<u32>,
    pub max_rmse_bits: Option<u32>,
    pub max_oklab_delta_bits: Option<u32>,
    pub max_edge_delta_bits: Option<u32>,
    pub seed_fault: Option<Seq<char>>,
    pub fault_output_path: Option<Seq<char>>,
    pub report_only: bool,
    pub quiet: bool,
}

/// Where a scan of the arguments ends.
pub enum DiffScanEnd {
    Help,
    Done(DiffScan),
    Failed(Seq<char>),
}

/// The state before any argument.
pub open spec fn diff_defaults() -> DiffScan {
    DiffScan {
        reference_path: None,
        candidate_path: None,
        mask_path: None,
        heatmap_path: None,
        composite_path: None,
        metrics_json_path: None,
        tolerance_bits: DEFAULT_TOLERANCE_BITS,
        min_ssim_bits: None,
        max_rmse_bits: None,
        max_oklab_delta_bits: None,
        max_edge_delta_bits: None,
        seed_fault: None,
        fault_output_path: None,
        report_only: false,
        quiet: false,
    }
}

/// The scan of the arguments from position `i` in state `s`. A path
/// option with no value left unsets its path.
pub open spec fn diff_scan(args: Seq<Seq<char>>, floats: Seq<Result<u32, Seq<char>>>, i: int, s: DiffScan) -> DiffScanEnd
    decreases args.len() - i,
{
    if i >= args.len() || i < 0 {
        DiffScanEnd::Done(s)
    } else {
        let a = args[i];
        let v = value_after(args, i);
        let next = after_value(args, i);
        if a == "--reference"@ || a == "-r"@ {
            diff_scan(args, floats, next, DiffScan { reference_path: v, ..s })
        } else if a == "--candidate"@ || a == "-c"@ {
            diff_scan(args, floats, next, DiffScan { candidate_path: v, ..s })
        } else if a == "--mask"@ {
            diff_scan(args, floats, next, DiffScan { mask_path: v, ..s })
        } else if a == "--heatmap"@ {
            diff_scan(args, floats, next, DiffScan { heatmap_path: v, ..s })
        } else if a == "--composite"@ {
            diff_scan(args, floats, next, DiffScan { composite_path: v, ..s })
        } else if a == "--metrics-json"@ {
            diff_scan(args, floats, next, DiffScan { metrics_json_path: v, ..s })
        } else if a == "--tolerance"@ {
            match float_value(args, floats, i, a) {
                Err(t) => DiffScanEnd::Failed(t),
                Ok(b) => diff_scan(args, floats, next, DiffScan { tolerance_bits: b, ..s }),
            }
        } else if a == "--min-ssim"@ {
            match float_value(args, floats, i, a) {
                Err(t) => DiffScanEnd::Failed(t),
                Ok(b) => diff_scan(args, floats, next, DiffScan { min_ssim_bits: Some(b), ..s }),
            }
        } else if a == "--max-rmse"@ {
            match float_value(args, floats, i, a) {
                Err(t) => DiffScanEnd::Failed(t),
                Ok(b) => diff_scan(args, floats, next, DiffScan { max_rmse_bits: Some(b), ..s }),
            }
        } else if a == "--max-oklab-delta"@ {
            match float_value(args, floats, i, a) {
                Err(t) => DiffScanEnd::Failed(t),
                Ok(b) => diff_scan(args, floats, next, DiffScan { max_oklab_delta_bits: Some(b), ..s }),
            }
        } else if a == "--max-edge-delta"@ {
            match float_value(args, floats, i, a) {
                Err(t) => DiffScanEnd::Failed(t),
                Ok(b) => diff_scan(args, floats, next, DiffScan { max_edge_delta_bits: Some(b), ..s }),
            }
        } else if a == "--seed-fault"@ {
            diff_scan(args, floats, next, DiffScan { seed_fault: v, ..s })
        } else if a == "--fault-output"@ {
            diff_scan(args, floats, next, DiffScan { fault_output_path: v, ..s })
        } else if a == "--report-only"@ {
            diff_scan(args, floats, i + 1, DiffScan { report_only: true, ..s })
        } else if a == "--quiet"@ || a == "-q"@ {
            diff_scan(args, floats, i + 1, DiffScan { quiet: true, ..s })
        } else if a == "-h"@ || a == "--help"@ {
            DiffScanEnd::Help
        } else {
            DiffScanEnd::Failed("unknown argument: "@ + a)
        }
    }
}

/// What the command line asks for: help, a run with both images named, or
/// the error text.
pub open spec fn diff_command(args: Seq<Seq<char>>, floats: Seq<Result<u32, Seq<char>>>) -> Result<Option<DiffScan>, Seq<char>> {
    match diff_scan(args, floats, 0, diff_defaults()) {
        DiffScanEnd::Help => Ok(None),
        DiffScanEnd::Failed(t) => Err(t),
        DiffScanEnd::Done(s) => if s.reference_path is None {
            Err("--reference is required"@)
        } else if s.candidate_path is None {
            Err("- - candidate is required"@)
        } else {
            Ok(Some(s))
        },
    }
}

/// Whether parsed arguments are the scan result `s`.
pub open spec fn diff_args_are(a: DiffArgs, s: DiffScan) -> bool {
    &&& s.reference_path == Some(a.reference_path@)
    &&& s.candidate_path == Some(a.candidate_path@)
    &&& s.mask_path == opt_chars(a.mask_path)
    &&& s.heatmap_path == opt_chars(a.heatmap_path)
    &&& s.composite_path == opt_chars(a.composite_path)
    &&& s.metrics_json_path == opt_chars(a.metrics_json_path)
    &&& s.tolerance_bits == a.tolerance_bits
    &&& s.min_ssim_bits == a.min_ssim_bits
    &&& s.max_rmse_bits == a.max_rmse_bits
    &&& s.max_oklab_delta_bits == a.max_oklab_delta_bits
    &&& s.max_edge_delta_bits == a.max_edge_delta_bits
    &&& s.seed_fault == opt_chars(a.seed_fault)
    &&& s.fault_output_path == opt_chars(a.fault_output_path)
    &&& s.report_only == a.report_only
    &&& s.quiet == a.quiet
}

struct ScanState {
    reference_path: Option<String>,
    candidate_path: Option<String>,
    mask_path: Option<String>,
    heatmap_path: Option<String>,
    composite_path: Option<String>,
    metrics_json_path: Option<String>,
    tolerance_bits: u32,
    min_ssim_bits: Option<u32>,
    max_rmse_bits: Option<u32>,
    max_oklab_delta_bits: Option<u32>,
    max_edge_delta_bits: Option<u32>,
    seed_fault: Option<String>,
    fault_output_path: Option<String>,
    report_only: bool,
    quiet: bool,
}

impl ScanState {
    spec fn view(&self) -> DiffScan {
        DiffScan {
            reference_path: opt_chars(self.reference_path),
            candidate_path: opt_chars(self.candidate_path),
            mask_path: opt_chars(self.mask_path),
            heatmap_path: opt_chars(self.heatmap_path),
            composite_path: opt_chars(self.composite_path),
            metrics_json_path: opt_chars(self.metrics_json_path),
            tolerance_bits: self.tolerance_bits,
            min_ssim_bits: self.min_ssim_bits,
            max_rmse_bits: self.max_rmse_bits,
            max_oklab_delta_bits: self.max_oklab_delta_bits,
            max_edge_delta_bits: self.max_edge_delta_bits,
            seed_fault: opt_chars(self.seed_fault),
            fault_output_path: opt_chars(self.fault_output_path),
            report_only: self.report_only,
            quiet: self.quiet,
        }
    }
}

/// Parses the comparison tool's arguments (without the program name).
pub fn parse_diff_args(args: &[String], floats: &[Result<u32, String>]) -> (result: Result<DiffCommand, String>)
    requires
        floats@.len() == args@.len(),
    ensures
        match diff_command(texts(args@), float_texts(floats@)) {
            Ok(None) => result matches Ok(DiffCommand::Help),
            Ok(Some(s)) => result matches Ok(DiffCommand::Run(a)) && diff_args_are(a, s),
            Err(t) => result matches Err(e) && e@ == t,
        },
{
    let ghost all = texts(args@);
    let ghost fl = float_texts(floats@);
    let mut st = ScanState {
        reference_path: None,
        candidate_path: None,
        mask_path: None,
        heatmap_path: None,
        composite_path: None,
        metrics_json_path: None,
        tolerance_bits: DEFAULT_TOLERANCE_BITS,
        min_ssim_bits: None,
        max_rmse_bits: None,
        max_oklab_delta_bits: None,
        max_edge_delta_bits: None,
        seed_fault: None,
        fault_output_path: None,
        report_only: false,
        quiet: false,
    };
    let mut i: usize = 0;
    while i < args.len()
        invariant
            all == texts(args@),
            fl == float_texts(floats@),
            floats@.len() == args@.len(),
            i <= args@.len(),
            diff_scan(all, fl, 0, diff_defaults()) == diff_scan(all, fl, i as int, st.view()),
        decreases args.len() - i,
    {
        let a = args[i].as_str();
        assert(a@ == all[i as int]);
        let next = if args.len() - i > 1 { i + 2 } else { args.len() };
        if text_eq(a, "--reference") || text_eq(a, "-r") {
            st.reference_path = next_value(args, i);
        } else if text_eq(a, "--candidate") || text_eq(a, "-c") {
            st.candidate_path = next_value(args, i);
        } else if text_eq(a, "--mask") {
            st.mask_path = next_value(args, i);
        } else if text_eq(a, "--heatmap") {
            st.heatmap_path = next_value(args, i);
        } else if text_eq(a, "--composite") {
            st.composite_path = next_value(args, i);
        } else if text_eq(a, "--metrics-json") {
            st.metrics_json_path = next_value(args, i);
        } else if text_eq(a, "--tolerance") {
            match read_float(args, floats, i, a) {
                Ok(b) => st.tolerance_bits = b,
                Err(e) => return Err(e),
            }
        } else if text_eq(a, "--min-ssim") {
            match read_float(args, floats, i, a) {
                Ok(b) => st.min_ssim_bits = Some(b),
                Err(e) => return Err(e),
            }
        } else if text_eq(a, "--max-rmse") {
            match read_float(args, floats, i, a) {
                Ok(b) => st.max_rmse_bits = Some(b),
                Err(e) => return Err(e),
            }
        } else if text_eq(a, "--max-oklab-delta") {
            match read_float(args, floats, i, a) {
                Ok(b) => st.max_oklab_delta_bits = Some(b),
                Err(e) => return Err(e),
            }
        } else if text_eq(a, "--max-edge-delta") {
            match read_float(args, floats, i, a) {
                Ok(b) => st.max_edge_delta_bits = Some(b),
                Err(e) => return Err(e),
            }
        } else if text_eq(a, "--seed-fault") {
            st.seed_fault = next_value(args, i);
        } else if text_eq(a, "--fault-output") {
            st.fault_output_path = next_value(args, i);
        } else if text_eq(a, "--report-only") {
            st.report_only = true;
            i = i + 1;
            continue;
        } else if text_eq(a, "--quiet") || text_eq(a, "-q") {
            st.quiet = true;
            i = i + 1;
            continue;
        } else if text_eq(a, "-h") || text_eq(a, "--help") {
            return Ok(DiffCommand::Help);
        } else {
            return Err(concat2("unknown argument: ", a));
        }
        i = next;
    }
    let reference_path = match st.reference_path {
        Some(p) => p,
        None => return Err(owned_text("--reference is required")),
    };
    let candidate_path = match st.candidate_path {
        Some(p) => p,
        None => return Err(owned_text("- - candidate is required")),
    };
    Ok(DiffCommand::Run(DiffArgs {
        reference_path,
        candidate_path,
        mask_path: st.mask_path,
        heatmap_path: st.heatmap_path,
        composite_path: st.composite_path,
        metrics_json_path: st.metrics_json_path,
        tolerance_bits: st.tolerance_bits,
        min_ssim_bits: st.min_ssim_bits,
        max_rmse_bits: st.max_rmse_bits,
        max_oklab_delta_bits: st.max_oklab_delta_bits,
        max_edge_delta_bits: st.max_edge_delta_bits,
        seed_fault: st.seed_fault,
        fault_output_path: st.fault_output_path,
        report_only: st.report_only,
        quiet: st.quiet,
    }))
}

} // verus!

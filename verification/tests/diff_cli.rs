use bloom_cook::diff_cli::{parse_diff_args, DiffCommand, DEFAULT_TOLERANCE_BITS};

fn parse(items: &[&str]) -> Result<DiffCommand, String> {
    let args: Vec<String> = items.iter().map(|s| s.to_string()).collect();
    let floats: Vec<Result<u32, String>> =
        args.iter().map(|a| a.parse::<f32>().map(f32::to_bits).map_err(|e| e.to_string())).collect();
    parse_diff_args(&args, &floats)
}

#[test]
fn default_tolerance_is_two_percent() {
    assert_eq!(f32::from_bits(DEFAULT_TOLERANCE_BITS), 0.02);
}

#[test]
fn both_images_are_required() {
    assert_eq!(parse(&[]).unwrap_err(), "--reference is required");
    assert_eq!(parse(&["-r", "a.png"]).unwrap_err(), "- - candidate is required");
    let DiffCommand::Run(args) = parse(&["-r", "a.png", "-c", "b.png"]).unwrap() else { panic!("expected a run") };
    assert_eq!(args.reference_path, "a.png");
    assert_eq!(args.candidate_path, "b.png");
    assert_eq!(args.tolerance_bits, DEFAULT_TOLERANCE_BITS);
    assert!(args.mask_path.is_none() && args.min_ssim_bits.is_none());
    assert!(!args.report_only && !args.quiet);
}

#[test]
fn every_option_lands_in_its_field() {
    let command = parse(&[
        "--reference", "ref.png", "--candidate", "cand.png", "--mask", "m.png", "--heatmap", "h.png",
        "--composite", "c.png", "--metrics-json", "m.json", "--tolerance", "0.5", "--min-ssim", "0.9",
        "--max-rmse", "0.1", "--max-oklab-delta", "0.25", "--max-edge-delta", "2", "--seed-fault",
        "gi-leakage", "--fault-output", "f.png", "--report-only", "-q",
    ])
    .unwrap();
    let DiffCommand::Run(args) = command else { panic!("expected a run") };
    assert_eq!(args.mask_path.as_deref(), Some("m.png"));
    assert_eq!(args.heatmap_path.as_deref(), Some("h.png"));
    assert_eq!(args.composite_path.as_deref(), Some("c.png"));
    assert_eq!(args.metrics_json_path.as_deref(), Some("m.json"));
    assert_eq!(f32::from_bits(args.tolerance_bits), 0.5);
    assert_eq!(args.min_ssim_bits.map(f32::from_bits), Some(0.9));
    assert_eq!(args.max_rmse_bits.map(f32::from_bits), Some(0.1));
    assert_eq!(args.max_oklab_delta_bits.map(f32::from_bits), Some(0.25));
    assert_eq!(args.max_edge_delta_bits.map(f32::from_bits), Some(2.0));
    assert_eq!(args.seed_fault.as_deref(), Some("gi-leakage"));
    assert_eq!(args.fault_output_path.as_deref(), Some("f.png"));
    assert!(args.report_only && args.quiet);
}

#[test]
fn float_options_report_their_parse_errors() {
    assert_eq!(parse(&["--tolerance"]).unwrap_err(), "--tolerance needs a value");
    assert_eq!(parse(&["--min-ssim", "high"]).unwrap_err(), "invalid --min-ssim: invalid float literal");
    assert_eq!(parse(&["--max-rmse", ""]).unwrap_err(), "invalid --max-rmse: cannot parse float from empty string");
    assert_eq!(parse(&["--bogus"]).unwrap_err(), "unknown argument: --bogus");
}

#[test]
fn help_stops_the_scan_and_later_values_win() {
    assert!(matches!(parse(&["-r", "a", "--help", "--bogus"]), Ok(DiffCommand::Help)));
    assert_eq!(parse(&["--bogus", "-h"]).unwrap_err(), "unknown argument: --bogus");
    let DiffCommand::Run(args) = parse(&["-r", "a", "-r", "b", "-c", "c"]).unwrap() else { panic!("expected a run") };
    assert_eq!(args.reference_path, "b");
    assert_eq!(parse(&["-c", "c", "-r", "a", "-r"]).unwrap_err(), "--reference is required");
}

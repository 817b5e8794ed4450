use bloom_cook::perf_cli::parse_perf_config;

fn parse(items: &[&str]) -> Result<bloom_cook::perf_cli::PerfConfig, String> {
    let args: Vec<String> = items.iter().map(|s| s.to_string()).collect();
    let floats: Vec<Result<u32, String>> =
        args.iter().map(|a| a.parse::<f32>().map(f32::to_bits).map_err(|e| e.to_string())).collect();
    parse_perf_config(&args, &floats)
}

#[test]
fn defaults_and_required_output() {
    assert_eq!(parse(&[]).unwrap_err(), "--out is required");
    let c = parse(&["--out", "perf.json"]).unwrap();
    assert_eq!((c.width, c.height, c.warmup_frames, c.measured_frames, c.quality_preset), (1920, 1080, 180, 300, 4));
    assert_eq!(c.output, "perf.json");
    assert!(c.render_scale_bits.is_none() && c.trace_dir.is_none());
    assert!(!c.reactive_transparency && !c.profile_passes);
}

#[test]
fn options_are_read_and_the_preset_is_capped() {
    let c = parse(&[
        "--width", "640", "--height", "480", "--warmup", "3", "--frames", "9", "--quality-preset", "7",
        "--render-scale", "0.5", "--reactive-transparency", "--profile-passes", "--trace-dir", "traces", "--out", "o.json",
    ])
    .unwrap();
    assert_eq!((c.width, c.height, c.warmup_frames, c.measured_frames, c.quality_preset), (640, 480, 3, 9, 4));
    assert_eq!(c.render_scale_bits.map(f32::from_bits), Some(0.5));
    assert!(c.reactive_transparency && c.profile_passes);
    assert_eq!(c.trace_dir.as_deref(), Some("traces"));
    assert_eq!(parse(&["--quality-preset", "2", "--out", "o"]).unwrap().quality_preset, 2);
}

#[test]
fn malformed_runs_are_refused() {
    assert_eq!(parse(&["--width"]).unwrap_err(), "missing value for --width");
    assert_eq!(parse(&["--width", "-1"]).unwrap_err(), "--width must be an unsigned integer");
    assert_eq!(parse(&["--render-scale", "big"]).unwrap_err(), "--render-scale must be a number");
    assert_eq!(parse(&["--render-scale"]).unwrap_err(), "missing value for --render-scale");
    assert_eq!(parse(&["--trace-dir"]).unwrap_err(), "missing value for --trace-dir");
    assert_eq!(parse(&["--verbose"]).unwrap_err(), "unknown argument --verbose");
    assert_eq!(
        parse(&["--frames", "1", "--out", "o"]).unwrap_err(),
        "width/height/warmup must be positive and frames must be >= 2"
    );
    assert_eq!(
        parse(&["--width", "0"]).unwrap_err(),
        "width/height/warmup must be positive and frames must be >= 2"
    );
}

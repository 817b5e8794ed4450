use bloom_cook::numbers::{parse_integer, IntErrorKind};
use bloom_cook::reference_cli::{
    finish_reference_args, scan_reference_args, CameraBits, EnvFields, ReferenceCommand, ReferenceScan, RenderDefaults,
    SunFields, Vec3Bits, ViewSpecFields, DEFAULT_SEED,
};

fn strings(items: &[&str]) -> Vec<String> {
    items.iter().map(|s| s.to_string()).collect()
}

fn scan(items: &[&str]) -> Result<ReferenceCommand, String> {
    let args = strings(items);
    let floats: Vec<Result<u32, String>> =
        args.iter().map(|a| a.parse::<f32>().map(f32::to_bits).map_err(|e| e.to_string())).collect();
    scan_reference_args(&args, &floats)
}

fn scanned(items: &[&str]) -> ReferenceScan {
    match scan(items).unwrap() {
        ReferenceCommand::Scanned(s) => s,
        ReferenceCommand::Help => panic!("unexpected help"),
    }
}

fn bits(x: f32, y: f32, z: f32) -> Vec3Bits {
    Vec3Bits { x: x.to_bits(), y: y.to_bits(), z: z.to_bits() }
}

#[test]
fn integer_errors_match_the_standard_parser() {
    for text in ["", "+", "-1", "12a", "a12", "4294967296", "99999999999x", "+7", "0", "4294967295", " 1"] {
        let expected = text.parse::<u32>();
        let actual = parse_integer(text, u32::MAX as u64);
        match expected {
            Ok(v) => assert_eq!(actual, Ok(v as u64), "{text:?}"),
            Err(e) => assert_eq!(actual.unwrap_err().message(), e.to_string(), "{text:?}"),
        }
    }
    assert_eq!(parse_integer("18446744073709551615", u64::MAX), Ok(u64::MAX));
    assert_eq!(parse_integer("18446744073709551616", u64::MAX), Err(IntErrorKind::PosOverflow));
}

#[test]
fn defaults_hold_without_options() {
    let s = scanned(&[]);
    assert_eq!((s.width, s.height, s.spp, s.max_bounces, s.seed), (512, 512, 64, 4, DEFAULT_SEED));
    assert_eq!(s.sun_direction, Some(bits(0.4, 0.8, 0.3)));
    assert_eq!(f32::from_bits(s.env_intensity_bits), 1.0);
    assert_eq!(f32::from_bits(s.sun_intensity_bits), 2.0);
    assert!(!s.size_from_cli && s.camera.is_none() && s.spec_path.is_none());
    assert_eq!(finish_reference_args(s, None).unwrap_err(), "--scene or --spec is required");
    let s = scanned(&["--scene", "a.glb"]);
    assert_eq!(finish_reference_args(s, None).unwrap_err(), "--out is required");
}

#[test]
fn options_are_read_with_their_values() {
    let s = scanned(&[
        "--scene", "a.glb", "--out", "o.png", "--env", "sky.hdr", "--env-intensity", "0.5", "--sun-dir", "1", "2",
        "3", "--sun-intensity", "4", "--width", "64", "--spp", "8", "--bounces", "2", "--seed", "99", "--camera", "0",
        "1", "2", "3", "4", "5", "45",
    ]);
    assert_eq!(s.sun_direction, Some(bits(1.0, 2.0, 3.0)));
    assert_eq!(f32::from_bits(s.env_intensity_bits), 0.5);
    assert_eq!(f32::from_bits(s.sun_intensity_bits), 4.0);
    assert_eq!((s.width, s.height, s.spp, s.max_bounces, s.seed), (64, 512, 8, 2, 99));
    assert!(s.size_from_cli);
    let camera = s.camera.unwrap();
    assert_eq!(camera.position, bits(0.0, 1.0, 2.0));
    assert_eq!(camera.target, bits(3.0, 4.0, 5.0));
    assert_eq!(camera.up, bits(0.0, 1.0, 0.0));
    assert_eq!(f32::from_bits(camera.fov_y_deg), 45.0);
    let args = finish_reference_args(s, None).unwrap();
    assert_eq!(args.scene_path, "a.glb");
    assert_eq!(args.out_path, "o.png");
    assert_eq!(args.env_path.as_deref(), Some("sky.hdr"));
    assert_eq!(args.sun_color, bits(1.0, 0.98, 0.93));
    assert!(scanned(&["--no-sun"]).sun_direction.is_none());
}

#[test]
fn malformed_options_are_refused_with_their_reason() {
    assert_eq!(scan(&["--width"]).unwrap_err(), "--width needs a value");
    assert_eq!(scan(&["--width", "wide"]).unwrap_err(), "invalid --width: invalid digit found in string");
    assert_eq!(scan(&["--seed", ""]).unwrap_err(), "invalid --seed: cannot parse integer from empty string");
    assert_eq!(scan(&["--spp", "4294967296"]).unwrap_err(), "invalid --spp: number too large to fit in target type");
    assert_eq!(scan(&["--env-intensity", "x"]).unwrap_err(), "invalid --env-intensity: invalid float literal");
    assert_eq!(scan(&["--sun-dir", "1", "2"]).unwrap_err(), "--sun-dir needs 3 values");
    assert_eq!(scan(&["--sun-dir", "1", "y", "3"]).unwrap_err(), "invalid --sun-dir y: invalid float literal");
    assert_eq!(scan(&["--camera", "1", "2"]).unwrap_err(), "--camera needs 7 values (got 2)");
    assert_eq!(scan(&["--camera", "1", "2", "3", "q"]).unwrap_err(), "invalid --camera value 3: invalid float literal");
    assert_eq!(scan(&["--frobnicate"]).unwrap_err(), "unknown argument: --frobnicate");
    assert!(matches!(scan(&["--out", "o.png", "-h", "--frobnicate"]), Ok(ReferenceCommand::Help)));
}

fn spec() -> ViewSpecFields {
    ViewSpecFields {
        scene: "specs/scene.glb".to_string(),
        width: 128,
        height: 96,
        camera: CameraBits { position: bits(9.0, 9.0, 9.0), target: bits(0.0, 0.0, 0.0), up: bits(0.0, 1.0, 0.0), fov_y_deg: 60f32.to_bits() },
        env: Some(EnvFields { path: "specs/sky.hdr".to_string(), intensity_bits: 3f32.to_bits() }),
        sun: Some(SunFields { direction: bits(0.0, 1.0, 0.0), color: Some(bits(1.0, 0.5, 0.25)), intensity_bits: 7f32.to_bits() }),
        reference_defaults: Some(RenderDefaults { spp: Some(256), bounces: Some(8) }),
    }
}

#[test]
fn a_spec_fills_what_the_command_line_left_open() {
    let s = scanned(&["--spec", "view.json", "--out", "o.png"]);
    assert_eq!(s.spec_path.as_deref(), Some("view.json"));
    let args = finish_reference_args(s, Some(spec())).unwrap();
    assert_eq!(args.scene_path, "specs/scene.glb");
    assert_eq!((args.width, args.height), (128, 96));
    assert_eq!(args.camera.unwrap().position, bits(9.0, 9.0, 9.0));
    assert_eq!(args.env_path.as_deref(), Some("specs/sky.hdr"));
    assert_eq!(f32::from_bits(args.env_intensity_bits), 3.0);
    assert_eq!(args.sun_direction, Some(bits(0.0, 1.0, 0.0)));
    assert_eq!(args.sun_color, bits(1.0, 0.5, 0.25));
    assert_eq!(f32::from_bits(args.sun_intensity_bits), 7.0);
    assert_eq!((args.spp, args.max_bounces), (256, 8));
}

#[test]
fn the_command_line_keeps_the_last_word() {
    let s = scanned(&[
        "--spec", "view.json", "--out", "o.png", "--scene", "mine.glb", "--height", "10", "--spp", "16", "--env",
        "mine.hdr", "--camera", "1", "1", "1", "0", "0", "0", "30", "--no-sun",
    ]);
    let args = finish_reference_args(s, Some(spec())).unwrap();
    assert_eq!(args.scene_path, "mine.glb");
    assert_eq!((args.width, args.height), (512, 10));
    assert_eq!(args.camera.unwrap().position, bits(1.0, 1.0, 1.0));
    assert_eq!(args.env_path.as_deref(), Some("mine.hdr"));
    assert_eq!(f32::from_bits(args.env_intensity_bits), 1.0);
    assert_eq!((args.spp, args.max_bounces), (16, 8));
    // The spec's sun wins over --no-sun, as the merge is written.
    assert_eq!(args.sun_direction, Some(bits(0.0, 1.0, 0.0)));

    let s = scanned(&["--spec", "view.json", "--out", "o.png", "--env-intensity", "2"]);
    let mut no_sun = spec();
    no_sun.sun = None;
    let args = finish_reference_args(s, Some(no_sun)).unwrap();
    assert_eq!(f32::from_bits(args.env_intensity_bits), 2.0);
    assert_eq!(args.sun_direction, None);
    assert_eq!(args.sun_color, bits(1.0, 0.98, 0.93));
}

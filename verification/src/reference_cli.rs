//! The command line of the reference path tracer: the scan of its
//! arguments, then the merge with a shared view spec, where the command
//! line keeps the last word on the fields it set.
//!
//! Floats travel as `f32` bit patterns. Directions stay as given; the
//! caller normalises them.

use vstd::prelude::*;
use crate::cli::{after_value, float_run, float_texts, float_value, int_value, next_value, opt_chars, read_float, read_float_run, read_int, value_after};
pub use crate::bytes::Vec3Bits;
use crate::text::{concat2, decimal_digits, decimal_text, owned_text, text_eq, texts};

verus! {

/// `1.0` as `f32` bits.
pub const ONE_BITS: u32 = 0x3f80_0000;
/// The default sun intensity, `2.0`, as `f32` bits.
pub const DEFAULT_SUN_INTENSITY_BITS: u32 = 0x4000_0000;
pub const DEFAULT_WIDTH: u32 = 512;
pub const DEFAULT_HEIGHT: u32 = 512;
pub const DEFAULT_SPP: u32 = 64;
pub const DEFAULT_BOUNCES: u32 = 4;
pub const DEFAULT_SEED: u64 = 0x12345;

/// The default sun direction, `(0.4, 0.8, 0.3)` before normalisation.
pub open spec fn default_sun_direction() -> Vec3Bits {
    Vec3Bits { x: 0x3ecc_cccd, y: 0x3f4c_cccd, z: 0x3e99_999a }
}

/// The default sun colour, `(1.0, 0.98, 0.93)`.
pub open spec fn default_sun_color() -> Vec3Bits {
    Vec3Bits { x: 0x3f80_0000, y: 0x3f7a_e148, z: 0x3f6e_147b }
}

/// The world up axis, `(0, 1, 0)`.
pub open spec fn up_axis() -> Vec3Bits {
    Vec3Bits { x: 0, y: ONE_BITS, z: 0 }
}

/// A camera: position, target, up axis and vertical field of view in
/// degrees.
#[derive(Clone, Copy, Debug, PartialEq, Eq, Structural)]
pub struct CameraBits {
    pub position: Vec3Bits,
    pub target: Vec3Bits,
    pub up: Vec3Bits,
    pub fov_y_deg: u32,
}

/// The camera of `--camera px py pz tx ty tz fov`.
pub open spec fn camera_of(v: Seq<u32>) -> CameraBits {
    CameraBits {
        position: Vec3Bits { x: v[0], y: v[1], z: v[2] },
        target: Vec3Bits { x: v[3], y: v[4], z: v[5] },
        up: up_axis(),
        fov_y_deg: v[6],
    }
}

/// The options seen on the command line, as plain values.
pub struct ReferenceScanView {
    pub spec_path: Option<Seq<char>>,
    pub scene_path: Option<Seq<char>>,
    pub out_path: Option<Seq<char>>,
    pub env_path: Option<Seq<char>>,
    pub env_intensity_bits: u32,
    pub sun_direction: Option<Vec3Bits>,
    pub sun_intensity_bits: u32,
    pub camera: Option<CameraBits>,
    pub width: u32,
    pub height: u32,
    pub spp: u32,
    pub max_bounces: u32,
    pub seed: u64,
    /// Whether `--width` or `--height` was given.
    pub size_from_cli: bool,
}

/// The options seen on the command line.
#[derive(Debug)]
pub struct ReferenceScan {
    pub spec_path: Option<String>,
    pub scene_path: Option<String>,
    pub out_path: Option<String>,
    pub env_path: Option<String>,
    pub env_intensity_bits: u32,
    pub sun_direction: Option<Vec3Bits>,
    pub sun_intensity_bits: u32,
    pub camera: Option<CameraBits>,
    pub width: u32,
    pub height: u32,
    pub spp: u32,
    pub max_bounces: u32,
    pub seed: u64,
    pub size_from_cli: bool,
}

impl View for ReferenceScan {
    type V = ReferenceScanView;

    open spec fn view(&self) -> ReferenceScanView {
        ReferenceScanView {
            spec_path: opt_chars(self.spec_path),
            scene_path: opt_chars(self.scene_path),
            out_path: opt_chars(self.out_path),
            env_path: opt_chars(self.env_path),
            env_intensity_bits: self.env_intensity_bits,
            sun_direction: self.sun_direction,
            sun_intensity_bits: self.sun_intensity_bits,
            camera: self.camera,
            width: self.width,
            height: self.height,
            spp: self.spp,
            max_bounces: self.max_bounces,
            seed: self.seed,
            size_from_cli: self.size_from_cli,
        }
    }
}

/// The state before any argument.
pub open spec fn reference_defaults() -> ReferenceScanView {
    ReferenceScanView {
        spec_path: None,
        scene_path: None,
        out_path: None,
        env_path: None,
        env_intensity_bits: ONE_BITS,
        sun_direction: Some(default_sun_direction()),
        sun_intensity_bits: DEFAULT_SUN_INTENSITY_BITS,
        camera: None,
        width: DEFAULT_WIDTH,
        height: DEFAULT_HEIGHT,
        spp: DEFAULT_SPP,
        max_bounces: DEFAULT_BOUNCES,
        seed: DEFAULT_SEED,
        size_from_cli: false,
    }
}

/// Where a scan of the arguments ends.
pub enum ReferenceScanEnd {
    Help,
    Done(ReferenceScanView),
    Failed(Seq<char>),
}

/// The name of the `k`-th sun direction component.
pub open spec fn axis_name(k: nat) -> Seq<char> {
    if k == 0 { "x"@ } else if k == 1 { "y"@ } else { "z"@ }
}

/// The position `n` places after `i`, at most the end.
pub open spec fn skip(args: Seq<Seq<char>>, i: int, n: int) -> int {
    if i + n <= args.len() { i + n } else { args.len() as int }
}

/// The scan of the arguments from position `i` in state `s`. A path
/// option with no value left unsets its path.
pub open spec fn reference_scan(args: Seq<Seq<char>>, floats: Seq<Result<u32, Seq<char>>>, i: int, s: ReferenceScanView) -> ReferenceScanEnd
    decreases args.len() - i,
{
    if i >= args.len() || i < 0 {
        ReferenceScanEnd::Done(s)
    } else {
        let a = args[i];
        let v = value_after(args, i);
        let next = after_value(args, i);
        if a == "--spec"@ {
            reference_scan(args, floats, next, ReferenceScanView { spec_path: v, ..s })
        } else if a == "--scene"@ {
            reference_scan(args, floats, next, ReferenceScanView { scene_path: v, ..s })
        } else if a == "--out"@ {
            reference_scan(args, floats, next, ReferenceScanView { out_path: v, ..s })
        } else if a == "--env"@ {
            reference_scan(args, floats, next, ReferenceScanView { env_path: v, ..s })
        } else if a == "--env-intensity"@ {
            match float_value(args, floats, i, a) {
                Err(t) => ReferenceScanEnd::Failed(t),
                Ok(b) => reference_scan(args, floats, next, ReferenceScanView { env_intensity_bits: b, ..s }),
            }
        } else if a == "--sun-dir"@ {
            match float_run(args, floats, i + 1, 0, 3) {
                Err((_, None)) => ReferenceScanEnd::Failed("--sun-dir needs 3 values"@),
                Err((k, Some(t))) => ReferenceScanEnd::Failed("invalid --sun-dir "@ + axis_name(k) + ": "@ + t),
                Ok(d) => reference_scan(args, floats, skip(args, i, 4),
                    ReferenceScanView { sun_direction: Some(Vec3Bits { x: d[0], y: d[1], z: d[2] }), ..s }),
            }
        } else if a == "--no-sun"@ {
            reference_scan(args, floats, i + 1, ReferenceScanView { sun_direction: None, ..s })
        } else if a == "--sun-intensity"@ {
            match float_value(args, floats, i, a) {
                Err(t) => ReferenceScanEnd::Failed(t),
                Ok(b) => reference_scan(args, floats, next, ReferenceScanView { sun_intensity_bits: b, ..s }),
            }
        } else if a == "--width"@ {
            match int_value(args, i, a, u32::MAX as nat) {
                Err(t) => ReferenceScanEnd::Failed(t),
                Ok(n) => reference_scan(args, floats, next, ReferenceScanView { width: n as u32, size_from_cli: true, ..s }),
            }
        } else if a == "--height"@ {
            match int_value(args, i, a, u32::MAX as nat) {
                Err(t) => ReferenceScanEnd::Failed(t),
                Ok(n) => reference_scan(args, floats, next, ReferenceScanView { height: n as u32, size_from_cli: true, ..s }),
            }
        } else if a == "--spp"@ {
            match int_value(args, i, a, u32::MAX as nat) {
                Err(t) => ReferenceScanEnd::Failed(t),
                Ok(n) => reference_scan(args, floats, next, ReferenceScanView { spp: n as u32, ..s }),
            }
        } else if a == "--bounces"@ {
            match int_value(args, i, a, u32::MAX as nat) {
                Err(t) => ReferenceScanEnd::Failed(t),
                Ok(n) => reference_scan(args, floats, next, ReferenceScanView { max_bounces: n as u32, ..s }),
            }
        } else if a == "--seed"@ {
            match int_value(args, i, a, u64::MAX as nat) {
                Err(t) => ReferenceScanEnd::Failed(t),
                Ok(n) => reference_scan(args, floats, next, ReferenceScanView { seed: n as u64, ..s }),
            }
        } else if a == "--camera"@ {
            match float_run(args, floats, i + 1, 0, 7) {
                Err((k, None)) => ReferenceScanEnd::Failed("--camera needs 7 values (got "@ + decimal_digits(k) + ")"@),
                Err((k, Some(t))) => ReferenceScanEnd::Failed("invalid --camera value "@ + decimal_digits(k) + ": "@ + t),
                Ok(c) => reference_scan(args, floats, skip(args, i, 8), ReferenceScanView { camera: Some(camera_of(c)), ..s }),
            }
        } else if a == "-h"@ || a == "--help"@ {
            ReferenceScanEnd::Help
        } else {
            ReferenceScanEnd::Failed("unknown argument: "@ + a)
        }
    }
}

/// What the command line asks for.
#[derive(Debug)]
pub enum ReferenceCommand {
    /// Print the usage text and stop.
    Help,
    /// Render; a `--spec` file, if named, is merged in next.
    Scanned(ReferenceScan),
}

proof fn lemma_float_run_len(args: Seq<Seq<char>>, floats: Seq<Result<u32, Seq<char>>>, start: int, k: nat, count: nat)
    requires
        k <= count,
        float_run(args, floats, start, k, count) is Ok,
    ensures
        float_run(args, floats, start, k, count)->Ok_0.len() == count - k,
        k < count ==> start + count <= args.len(),
    decreases count - k,
{
    if k < count {
        lemma_float_run_len(args, floats, start, k + 1, count);
    }
}

/// Scans the path tracer's arguments (without the program name).
pub fn scan_reference_args(args: &[String], floats: &[Result<u32, String>]) -> (result: Result<ReferenceCommand, String>)
    requires
        floats@.len() == args@.len(),
    ensures
        match reference_scan(texts(args@), float_texts(floats@), 0, reference_defaults()) {
            ReferenceScanEnd::Help => result matches Ok(ReferenceCommand::Help),
            ReferenceScanEnd::Done(s) => result matches Ok(ReferenceCommand::Scanned(r)) && r@ == s,
            ReferenceScanEnd::Failed(t) => result matches Err(e) && e@ == t,
        },
{
    let ghost all = texts(args@);
    let ghost fl = float_texts(floats@);
    let mut st = ReferenceScan {
        spec_path: None,
        scene_path: None,
        out_path: None,
        env_path: None,
        env_intensity_bits: ONE_BITS,
        sun_direction: Some(Vec3Bits { x: 0x3ecc_cccd, y: 0x3f4c_cccd, z: 0x3e99_999a }),
        sun_intensity_bits: DEFAULT_SUN_INTENSITY_BITS,
        camera: None,
        width: DEFAULT_WIDTH,
        height: DEFAULT_HEIGHT,
        spp: DEFAULT_SPP,
        max_bounces: DEFAULT_BOUNCES,
        seed: DEFAULT_SEED,
        size_from_cli: false,
    };
    let mut i: usize = 0;
    while i < args.len()
        invariant
            all == texts(args@),
            fl == float_texts(floats@),
            floats@.len() == args@.len(),
            i <= args@.len(),
            reference_scan(all, fl, 0, reference_defaults()) == reference_scan(all, fl, i as int, st@),
        decreases args.len() - i,
    {
        let a = args[i].as_str();
        assert(a@ == all[i as int]);
        let next = if args.len() - i > 1 { i + 2 } else { args.len() };
        if text_eq(a, "--spec") {
            st.spec_path = next_value(args, i);
        } else if text_eq(a, "--scene") {
            st.scene_path = next_value(args, i);
        } else if text_eq(a, "--out") {
            st.out_path = next_value(args, i);
        } else if text_eq(a, "--env") {
            st.env_path = next_value(args, i);
        } else if text_eq(a, "--env-intensity") {
            match read_float(args, floats, i, a) {
                Ok(b) => st.env_intensity_bits = b,
                Err(e) => return Err(e),
            }
        } else if text_eq(a, "--sun-dir") {
            let d = match read_float_run(args, floats, i + 1, 3) {
                Ok(d) => d,
                Err((_, None)) => return Err(owned_text("--sun-dir needs 3 values")),
                Err((k, Some(t))) => {
                    let axis = if k == 0 { "x" } else if k == 1 { "y" } else { "z" };
                    let mut out = concat2("invalid --sun-dir ", axis);
                    out.append(": ");
                    out.append(t.as_str());
                    return Err(out);
                },
            };
            proof {
                lemma_float_run_len(all, fl, i + 1, 0, 3);
            }
            st.sun_direction = Some(Vec3Bits { x: d[0], y: d[1], z: d[2] });
            i = i + 4;
            continue;
        } else if text_eq(a, "--no-sun") {
            st.sun_direction = None;
            i = i + 1;
            continue;
        } else if text_eq(a, "--sun-intensity") {
            match read_float(args, floats, i, a) {
                Ok(b) => st.sun_intensity_bits = b,
                Err(e) => return Err(e),
            }
        } else if text_eq(a, "--width") {
            match read_int(args, i, a, 0xffff_ffff) {
                Ok(n) => {
                    st.width = n as u32;
                    st.size_from_cli = true;
                },
                Err(e) => return Err(e),
            }
        } else if text_eq(a, "--height") {
            match read_int(args, i, a, 0xffff_ffff) {
                Ok(n) => {
                    st.height = n as u32;
                    st.size_from_cli = true;
                },
                Err(e) => return Err(e),
            }
        } else if text_eq(a, "--spp") {
            match read_int(args, i, a, 0xffff_ffff) {
                Ok(n) => st.spp = n as u32,
                Err(e) => return Err(e),
            }
        } else if text_eq(a, "--bounces") {
            match read_int(args, i, a, 0xffff_ffff) {
                Ok(n) => st.max_bounces = n as u32,
                Err(e) => return Err(e),
            }
        } else if text_eq(a, "--seed") {
            match read_int(args, i, a, 0xffff_ffff_ffff_ffff) {
                Ok(n) => st.seed = n,
                Err(e) => return Err(e),
            }
        } else if text_eq(a, "--camera") {
            let c = match read_float_run(args, floats, i + 1, 7) {
                Ok(c) => c,
                Err((k, None)) => {
                    let mut out = owned_text("--camera needs 7 values (got ");
                    let digits = decimal_text(k as u64);
                    out.append(digits.as_str());
                    out.append(")");
                    return Err(out);
                },
                Err((k, Some(t))) => {
                    let mut out = owned_text("invalid --camera value ");
                    let digits = decimal_text(k as u64);
                    out.append(digits.as_str());
                    out.append(": ");
                    out.append(t.as_str());
                    return Err(out);
                },
            };
            proof {
                lemma_float_run_len(all, fl, i + 1, 0, 7);
            }
            st.camera = Some(CameraBits {
                position: Vec3Bits { x: c[0], y: c[1], z: c[2] },
                target: Vec3Bits { x: c[3], y: c[4], z: c[5] },
                up: Vec3Bits { x: 0, y: ONE_BITS, z: 0 },
                fov_y_deg: c[6],
            });
            i = i + 8;
            continue;
        } else if text_eq(a, "-h") || text_eq(a, "--help") {
            return Ok(ReferenceCommand::Help);
        } else {
            return Err(concat2("unknown argument: ", a));
        }
        i = next;
    }
    Ok(ReferenceCommand::Scanned(st))
}

/// The fields of a view spec the path tracer reads, with its paths
/// already resolved against the spec's own directory.
#[derive(Debug)]
pub struct ViewSpecFields {
    pub scene: String,
    pub width: u32,
    pub height: u32,
    pub camera: CameraBits,
    pub env: Option<EnvFields>,
    /// `None` when the spec has no sun (`null` or absent).
    pub sun: Option<SunFields>,
    pub reference_defaults: Option<RenderDefaults>,
}

/// A view spec's environment map and its intensity.
#[derive(Debug)]
pub struct EnvFields {
    pub path: String,
    pub intensity_bits: u32,
}

/// A view spec's sun.
#[derive(Clone, Copy, Debug, PartialEq, Eq, Structural)]
pub struct SunFields {
    pub direction: Vec3Bits,
    pub color: Option<Vec3Bits>,
    pub intensity_bits: u32,
}

/// A view spec's sample and bounce counts for the path tracer.
#[derive(Clone, Copy, Debug, PartialEq, Eq, Structural)]
pub struct RenderDefaults {
    pub spp: Option<u32>,
    pub bounces: Option<u32>,
}

/// A view spec as plain values.
pub struct ViewSpecView {
    pub scene: Seq<char>,
    pub width: u32,
    pub height: u32,
    pub camera: CameraBits,
    pub env: Option<(Seq<char>, u32)>,
    pub sun: Option<SunFields>,
    pub reference_defaults: Option<RenderDefaults>,
}

impl View for ViewSpecFields {
    type V = ViewSpecView;

    open spec fn view(&self) -> ViewSpecView {
        ViewSpecView {
            scene: self.scene@,
            width: self.width,
            height: self.height,
            camera: self.camera,
            env: match self.env { Some(e) => Some((e.path@, e.intensity_bits)), None => None },
            sun: self.sun,
            reference_defaults: self.reference_defaults,
        }
    }
}

/// The settings of a render.
#[derive(Debug)]
pub struct ReferenceArgs {
    pub scene_path: String,
    pub out_path: String,
    pub env_path: Option<String>,
    pub env_intensity_bits: u32,
    /// Not yet normalised; `None` renders without a sun.
    pub sun_direction: Option<Vec3Bits>,
    pub sun_color: Vec3Bits,
    pub sun_intensity_bits: u32,
    pub camera: Option<CameraBits>,
    pub width: u32,
    pub height: u32,
    pub spp: u32,
    pub max_bounces: u32,
    pub seed: u64,
}

/// The settings of a render as plain values.
pub struct ReferenceArgsView {
    pub scene_path: Seq<char>,
    pub out_path: Seq<char>,
    pub env_path: Option<Seq<char>>,
    pub env_intensity_bits: u32,
    pub sun_direction: Option<Vec3Bits>,
    pub sun_color: Vec3Bits,
    pub sun_intensity_bits: u32,
    pub camera: Option<CameraBits>,
    pub width: u32,
    pub height: u32,
    pub spp: u32,
    pub max_bounces: u32,
    pub seed: u64,
}

impl View for ReferenceArgs {
    type V = ReferenceArgsView;

    open spec fn view(&self) -> ReferenceArgsView {
        ReferenceArgsView {
            scene_path: self.scene_path@,
            out_path: self.out_path@,
            env_path: opt_chars(self.env_path),
            env_intensity_bits: self.env_intensity_bits,
            sun_direction: self.sun_direction,
            sun_color: self.sun_color,
            sun_intensity_bits: self.sun_intensity_bits,
            camera: self.camera,
            width: self.width,
            height: self.height,
            spp: self.spp,
            max_bounces: self.max_bounces,
            seed: self.seed,
        }
    }
}

/// A count from the spec's defaults, used only while the command line
/// left the count at its default.
pub open spec fn defaulted(current: u32, default: u32, from_spec: Option<u32>) -> u32 {
    match from_spec {
        Some(x) => if current == default { x } else { current },
        None => current,
    }
}

/// The command line merged with the view spec, if any, and the sun colour.
/// The command line keeps the scene, size, camera and environment it
/// named; the environment intensity follows the spec unless the command
/// line moved it off `1.0`; the spec's sun (or its absence) always wins;
/// its sample and bounce counts apply where the command line kept the
/// defaults.
pub open spec fn merged(s: ReferenceScanView, spec: Option<ViewSpecView>) -> (ReferenceScanView, Vec3Bits) {
    match spec {
        None => (s, default_sun_color()),
        Some(v) => {
            let m = ReferenceScanView {
                scene_path: if s.scene_path is None { Some(v.scene) } else { s.scene_path },
                width: if s.size_from_cli { s.width } else { v.width },
                height: if s.size_from_cli { s.height } else { v.height },
                camera: if s.camera is None { Some(v.camera) } else { s.camera },
                env_path: match v.env {
                    Some((path, _)) => if s.env_path is None { Some(path) } else { s.env_path },
                    None => s.env_path,
                },
                env_intensity_bits: match v.env {
                    Some((_, b)) => if s.env_path is None && s.env_intensity_bits == ONE_BITS { b } else { s.env_intensity_bits },
                    None => s.env_intensity_bits,
                },
                sun_direction: match v.sun { Some(sun) => Some(sun.direction), None => None },
                sun_intensity_bits: match v.sun { Some(sun) => sun.intensity_bits, None => s.sun_intensity_bits },
                spp: match v.reference_defaults { Some(d) => defaulted(s.spp, DEFAULT_SPP, d.spp), None => s.spp },
                max_bounces: match v.reference_defaults {
                    Some(d) => defaulted(s.max_bounces, DEFAULT_BOUNCES, d.bounces),
                    None => s.max_bounces,
                },
                ..s
            };
            let color = match v.sun {
                Some(sun) => match sun.color { Some(c) => c, None => default_sun_color() },
                None => default_sun_color(),
            };
            (m, color)
        },
    }
}

/// The settings of the render, or why there is none: the scene and the
/// output path are required.
pub open spec fn reference_args_of(s: ReferenceScanView, spec: Option<ViewSpecView>) -> Result<ReferenceArgsView, Seq<char>> {
    let (m, color) = merged(s, spec);
    if m.scene_path is None {
        Err("--scene or --spec is required"@)
    } else if m.out_path is None {
        Err("--out is required"@)
    } else {
        Ok(ReferenceArgsView {
            scene_path: m.scene_path->0,
            out_path: m.out_path->0,
            env_path: m.env_path,
            env_intensity_bits: m.env_intensity_bits,
            sun_direction: m.sun_direction,
            sun_color: color,
            sun_intensity_bits: m.sun_intensity_bits,
            camera: m.camera,
            width: m.width,
            height: m.height,
            spp: m.spp,
            max_bounces: m.max_bounces,
            seed: m.seed,
        })
    }
}

fn defaulted_count(current: u32, default: u32, from_spec: Option<u32>) -> (count: u32)
    ensures
        count == defaulted(current, default, from_spec),
{
    match from_spec {
        Some(x) => if current == default { x } else { current },
        None => current,
    }
}

/// Merges the scanned command line with the view spec its `--spec` named
/// (`None` when it named none) and checks that a scene and an output path
/// are known.
pub fn finish_reference_args(scan: ReferenceScan, spec: Option<ViewSpecFields>) -> (result: Result<ReferenceArgs, String>)
    ensures
        match reference_args_of(scan@, match spec { Some(v) => Some(v@), None => None }) {
            Ok(a) => result matches Ok(r) && r@ == a,
            Err(t) => result matches Err(e) && e@ == t,
        },
{
    let mut m = scan;
    let mut color = Vec3Bits { x: 0x3f80_0000, y: 0x3f7a_e148, z: 0x3f6e_147b };
    match spec {
        None => {},
        Some(v) => {
            if m.scene_path.is_none() {
                m.scene_path = Some(v.scene);
            }
            if !m.size_from_cli {
                m.width = v.width;
                m.height = v.height;
            }
            if m.camera.is_none() {
                m.camera = Some(v.camera);
            }
            if m.env_path.is_none() {
                match v.env {
                    Some(env) => {
                        m.env_path = Some(env.path);
                        if m.env_intensity_bits == ONE_BITS {
                            m.env_intensity_bits = env.intensity_bits;
                        }
                    },
                    None => {},
                }
            }
            match v.sun {
                Some(sun) => {
                    m.sun_direction = Some(sun.direction);
                    m.sun_intensity_bits = sun.intensity_bits;
                    match sun.color {
                        Some(c) => color = c,
                        None => {},
                    }
                },
                None => m.sun_direction = None,
            }
            match v.reference_defaults {
                Some(d) => {
                    m.spp = defaulted_count(m.spp, DEFAULT_SPP, d.spp);
                    m.max_bounces = defaulted_count(m.max_bounces, DEFAULT_BOUNCES, d.bounces);
                },
                None => {},
            }
        },
    }
    let scene_path = match m.scene_path {
        Some(p) => p,
        None => return Err(owned_text("--scene or --spec is required")),
    };
    let out_path = match m.out_path {
        Some(p) => p,
        None => return Err(owned_text("--out is required")),
    };
    Ok(ReferenceArgs {
        scene_path,
        out_path,
        env_path: m.env_path,
        env_intensity_bits: m.env_intensity_bits,
        sun_direction: m.sun_direction,
        sun_color: color,
        sun_intensity_bits: m.sun_intensity_bits,
        camera: m.camera,
        width: m.width,
        height: m.height,
        spp: m.spp,
        max_bounces: m.max_bounces,
        seed: m.seed,
    })
}

/// The command line has the last word on what it names: a scene, an
/// output path, an image size, a camera, an environment map, the seed; a
/// spec only fills in what it left open.
pub proof fn law_command_line_overrides_the_spec(s: ReferenceScanView, spec: Option<ViewSpecView>)
    ensures
        ({
            let m = merged(s, spec).0;
            &&& s.scene_path is Some ==> m.scene_path == s.scene_path
            &&& m.out_path == s.out_path
            &&& s.size_from_cli ==> m.width == s.width && m.height == s.height
            &&& s.camera is Some ==> m.camera == s.camera
            &&& s.env_path is Some ==> m.env_path == s.env_path && m.env_intensity_bits == s.env_intensity_bits
            &&& m.seed == s.seed
        }),
{
}

} // verus!

//! Pixel work of the image comparison tool: the seeded faults that stand
//! in for renderer failures, and the three-panel composite.
//!
//! Images are rows of RGB8 pixels. Two faults need a float computation
//! per pixel value, which the caller supplies: the brightened value of
//! every channel value (`energy_gain`), and which pixels are dark
//! (`dark`, luma below 128).

use vstd::prelude::*;
use crate::text::{debug_quoted, debug_text, owned_text, text_eq};

verus! {

/// An RGB pixel.
#[derive(Clone, Copy, Debug, PartialEq, Eq, Structural)]
pub struct Rgb8 {
    pub r: u8,
    pub g: u8,
    pub b: u8,
}

/// A seeded renderer failure.
#[derive(Clone, Copy, Debug, PartialEq, Eq, Structural)]
pub enum SeededFault {
    /// Every channel brightened by 18%.
    BrdfEnergy,
    /// The image shifted right, as a misplaced shadow.
    ShadowPlacement,
    /// Dark pixels lifted, as leaking indirect light.
    GiLeakage,
    /// Each pixel blended with one to its left, as stale history.
    MotionHistory,
    /// The image flipped vertically.
    TextureOrientation,
}

/// The rows of an image as plain values.
pub open spec fn rows_of(img: Seq<Vec<Rgb8>>) -> Seq<Seq<Rgb8>> {
    img.map_values(|r: Vec<Rgb8>| r@)
}

/// Whether every row of `img` is `w` pixels wide.
pub open spec fn rows_are(img: Seq<Seq<Rgb8>>, w: nat) -> bool {
    forall|y: int| 0 <= y < img.len() ==> (#[trigger] img[y]).len() == w
}

/// `v` clamped to `lo..=hi`.
pub open spec fn clamped(v: nat, lo: nat, hi: nat) -> nat {
    if v < lo { lo } else if v > hi { hi } else { v }
}

/// How far a misplaced shadow moves: a thirty-second of the width, 2 to 16.
pub open spec fn shadow_shift(w: nat) -> nat {
    clamped(w / 32, 2, 16)
}

/// How far stale history lags: a forty-eighth of the width, 2 to 12.
pub open spec fn history_shift(w: nat) -> nat {
    clamped(w / 48, 2, 12)
}

/// `x - s`, or 0.
pub open spec fn minus_or_zero(x: int, s: nat) -> int {
    if x >= s { x - s } else { 0 }
}

/// `v + d`, or 255.
pub open spec fn add_or_max(v: u8, d: nat) -> u8 {
    if v + d <= 255 { (v + d) as u8 } else { 255 }
}

/// Three parts of `current` and one of `history`, per channel.
pub open spec fn blended(current: Rgb8, history: Rgb8) -> Rgb8 {
    Rgb8 {
        r: ((3 * current.r + history.r) / 4) as u8,
        g: ((3 * current.g + history.g) / 4) as u8,
        b: ((3 * current.b + history.b) / 4) as u8,
    }
}

/// The pixel at `(x, y)` of the image with the fault applied.
pub open spec fn fault_pixel(fault: SeededFault, img: Seq<Seq<Rgb8>>, w: nat, gain: Seq<u8>, dark: Seq<Seq<bool>>, x: int, y: int) -> Rgb8 {
    let p = img[y][x];
    match fault {
        SeededFault::BrdfEnergy => Rgb8 { r: gain[p.r as int], g: gain[p.g as int], b: gain[p.b as int] },
        SeededFault::ShadowPlacement => img[y][minus_or_zero(x, shadow_shift(w))],
        SeededFault::GiLeakage => if dark[y][x] {
            Rgb8 { r: add_or_max(p.r, 24), g: add_or_max(p.g, 38), b: add_or_max(p.b, 20) }
        } else {
            p
        },
        SeededFault::MotionHistory => blended(p, img[y][minus_or_zero(x, history_shift(w))]),
        SeededFault::TextureOrientation => img[img.len() - 1 - y][x],
    }
}

/// The text of an unknown fault name.
pub open spec fn unknown_fault_text(name: Seq<char>) -> Seq<char> {
    "unknown seeded fault "@ + debug_text(name)
        + "; expected brdf-energy, shadow-placement, gi-leakage, motion-history, or texture-orientation"@
}

/// The fault a name selects.
pub open spec fn fault_named(name: Seq<char>) -> Option<SeededFault> {
    if name == "brdf-energy"@ {
        Some(SeededFault::BrdfEnergy)
    } else if name == "shadow-placement"@ {
        Some(SeededFault::ShadowPlacement)
    } else if name == "gi-leakage"@ {
        Some(SeededFault::GiLeakage)
    } else if name == "motion-history"@ {
        Some(SeededFault::MotionHistory)
    } else if name == "texture-orientation"@ {
        Some(SeededFault::TextureOrientation)
    } else {
        None
    }
}

impl SeededFault {
    /// The fault a name selects, or the error text.
    pub fn parse(name: &str) -> (result: Result<SeededFault, String>)
        ensures
            match fault_named(name@) {
                Some(f) => result == Ok::<SeededFault, String>(f),
                None => result matches Err(e) && e@ == unknown_fault_text(name@),
            },
    {
        if text_eq(name, "brdf-energy") {
            Ok(SeededFault::BrdfEnergy)
        } else if text_eq(name, "shadow-placement") {
            Ok(SeededFault::ShadowPlacement)
        } else if text_eq(name, "gi-leakage") {
            Ok(SeededFault::GiLeakage)
        } else if text_eq(name, "motion-history") {
            Ok(SeededFault::MotionHistory)
        } else if text_eq(name, "texture-orientation") {
            Ok(SeededFault::TextureOrientation)
        } else {
            let mut out = owned_text("unknown seeded fault ");
            let quoted = debug_quoted(name);
            out.append(quoted.as_str());
            out.append("; expected brdf-energy, shadow-placement, gi-leakage, motion-history, or texture-orientation");
            Err(out)
        }
    }
}

fn clamp_u32(v: u32, lo: u32, hi: u32) -> (c: u32)
    requires
        lo <= hi,
    ensures
        c == clamped(v as nat, lo as nat, hi as nat),
{
    if v < lo { lo } else if v > hi { hi } else { v }
}

fn add_saturating(v: u8, d: u8) -> (s: u8)
    ensures
        s == add_or_max(v, d as nat),
{
    if v as u16 + d as u16 <= 255 { v + d } else { 255 }
}

/// Applies a seeded fault to an image `w` pixels wide. `energy_gain[v]` is
/// the brightened value of channel value `v`; `dark[y][x]` says whether
/// pixel `(x, y)` is dark.
pub fn apply_seeded_fault(image: &Vec<Vec<Rgb8>>, w: usize, fault: SeededFault, energy_gain: &[u8], dark: &Vec<Vec<bool>>) -> (out: Vec<Vec<Rgb8>>)
    requires
        rows_are(rows_of(image@), w as nat),
        w <= u32::MAX,
        energy_gain@.len() == 256,
        fault == SeededFault::GiLeakage ==> dark@.len() == image@.len()
            && forall|y: int| 0 <= y < dark@.len() ==> (#[trigger] dark@[y])@.len() == w,
    ensures
        out@.len() == image@.len(),
        rows_are(rows_of(out@), w as nat),
        forall|y: int, x: int| 0 <= y < out@.len() && 0 <= x < w ==> (#[trigger] out@[y]@[x])
            == fault_pixel(fault, rows_of(image@), w as nat, energy_gain@, dark@.map_values(|r: Vec<bool>| r@), x, y),
{
    let ghost img = rows_of(image@);
    let ghost dk = dark@.map_values(|r: Vec<bool>| r@);
    let shadow = clamp_u32((w / 32) as u32, 2, 16) as usize;
    let history = clamp_u32((w / 48) as u32, 2, 12) as usize;
    let h = image.len();
    let mut out: Vec<Vec<Rgb8>> = Vec::new();
    let mut y: usize = 0;
    while y < h
        invariant
            h == image@.len(),
            img == rows_of(image@),
            dk == dark@.map_values(|r: Vec<bool>| r@),
            rows_are(img, w as nat),
            energy_gain@.len() == 256,
            fault == SeededFault::GiLeakage ==> dark@.len() == image@.len()
                && forall|y: int| 0 <= y < dark@.len() ==> (#[trigger] dark@[y])@.len() == w,
            shadow == shadow_shift(w as nat),
            history == history_shift(w as nat),
            y <= h,
            out@.len() == y,
            forall|r: int| 0 <= r < y ==> (#[trigger] out@[r])@.len() == w,
            forall|r: int, x: int| 0 <= r < y && 0 <= x < w ==> (#[trigger] out@[r]@[x])
                == fault_pixel(fault, img, w as nat, energy_gain@, dk, x, r),
        decreases h - y,
    {
        let row = &image[y];
        assert(row@ == img[y as int]);
        let mut line: Vec<Rgb8> = Vec::new();
        let mut x: usize = 0;
        while x < w
            invariant
                h == image@.len(),
                img == rows_of(image@),
                dk == dark@.map_values(|r: Vec<bool>| r@),
                rows_are(img, w as nat),
                energy_gain@.len() == 256,
                fault == SeededFault::GiLeakage ==> dark@.len() == image@.len()
                    && forall|y: int| 0 <= y < dark@.len() ==> (#[trigger] dark@[y])@.len() == w,
                shadow == shadow_shift(w as nat),
                history == history_shift(w as nat),
                y < h,
                row@ == img[y as int],
                x <= w,
                line@.len() == x,
                forall|k: int| 0 <= k < x ==> (#[trigger] line@[k])
                    == fault_pixel(fault, img, w as nat, energy_gain@, dk, k, y as int),
            decreases w - x,
        {
            let p = row[x];
            let q = match fault {
                SeededFault::BrdfEnergy => Rgb8 {
                    r: energy_gain[p.r as usize],
                    g: energy_gain[p.g as usize],
                    b: energy_gain[p.b as usize],
                },
                SeededFault::ShadowPlacement => {
                    let sx = if x >= shadow { x - shadow } else { 0 };
                    row[sx]
                },
                SeededFault::GiLeakage => {
                    assert(dk[y as int] == dark@[y as int]@);
                    if dark[y][x] {
                        Rgb8 { r: add_saturating(p.r, 24), g: add_saturating(p.g, 38), b: add_saturating(p.b, 20) }
                    } else {
                        p
                    }
                },
                SeededFault::MotionHistory => {
                    let sx = if x >= history { x - history } else { 0 };
                    let old = row[sx];
                    Rgb8 {
                        r: ((3 * p.r as u16 + old.r as u16) / 4) as u8,
                        g: ((3 * p.g as u16 + old.g as u16) / 4) as u8,
                        b: ((3 * p.b as u16 + old.b as u16) / 4) as u8,
                    }
                },
                SeededFault::TextureOrientation => {
                    let flipped = &image[h - 1 - y];
                    assert(flipped@ == img[h - 1 - y]);
                    flipped[x]
                },
            };
            assert(q == fault_pixel(fault, img, w as nat, energy_gain@, dk, x as int, y as int));
            line.push(q);
            x = x + 1;
        }
        out.push(line);
        y = y + 1;
    }
    out
}

/// The grey of the dividers between composite panels.
pub open spec fn divider() -> Rgb8 {
    Rgb8 { r: 80, g: 80, b: 80 }
}

/// Lays out reference, candidate and heatmap side by side, each row
/// separated by one divider pixel.
pub fn compose_panels(reference: &Vec<Vec<Rgb8>>, candidate: &Vec<Vec<Rgb8>>, heatmap: &Vec<Vec<Rgb8>>) -> (out: Vec<Vec<Rgb8>>)
    requires
        candidate@.len() == reference@.len(),
        heatmap@.len() == reference@.len(),
    ensures
        out@.len() == reference@.len(),
        forall|y: int| 0 <= y < out@.len() ==> (#[trigger] out@[y])@
            == reference@[y]@ + seq![divider()] + candidate@[y]@ + seq![divider()] + heatmap@[y]@,
{
    let gray = Rgb8 { r: 80, g: 80, b: 80 };
    let mut out: Vec<Vec<Rgb8>> = Vec::new();
    let mut y: usize = 0;
    while y < reference.len()
        invariant
            candidate@.len() == reference@.len(),
            heatmap@.len() == reference@.len(),
            gray == divider(),
            y <= reference@.len(),
            out@.len() == y,
            forall|r: int| 0 <= r < y ==> (#[trigger] out@[r])@
                == reference@[r]@ + seq![divider()] + candidate@[r]@ + seq![divider()] + heatmap@[r]@,
        decreases reference.len() - y,
    {
        let mut line: Vec<Rgb8> = Vec::new();
        append_row(&mut line, &reference[y]);
        line.push(gray);
        append_row(&mut line, &candidate[y]);
        line.push(gray);
        append_row(&mut line, &heatmap[y]);
        assert(line@ =~= reference@[y as int]@ + seq![divider()] + candidate@[y as int]@ + seq![divider()] + heatmap@[y as int]@);
        out.push(line);
        y = y + 1;
    }
    out
}

fn append_row(line: &mut Vec<Rgb8>, row: &Vec<Rgb8>)
    ensures
        final(line)@ == old(line)@ + row@,
{
    let mut i: usize = 0;
    let ghost start = line@;
    while i < row.len()
        invariant
            i <= row@.len(),
            line@ == start + row@.take(i as int),
        decreases row.len() - i,
    {
        line.push(row[i]);
        assert(row@.take(i + 1) =~= row@.take(i as int).push(row@[i as int]));
        i = i + 1;
    }
    assert(row@.take(row@.len() as int) =~= row@);
}

} // verus!

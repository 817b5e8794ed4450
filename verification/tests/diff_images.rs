use bloom_cook::diff_images::{apply_seeded_fault, compose_panels, Rgb8, SeededFault};

fn image(w: usize, h: usize) -> Vec<Vec<Rgb8>> {
    (0..h)
        .map(|y| {
            (0..w)
                .map(|x| {
                    let v = if (x / 8 + y / 8) % 2 == 0 { 230 } else { 20 };
                    Rgb8 { r: v, g: (x * 3 % 256) as u8, b: (y * 5 % 256) as u8 }
                })
                .collect()
        })
        .collect()
}

fn gain() -> Vec<u8> {
    (0..=255u32).map(|c| ((c as f32 * 1.18).round() as u16).min(255) as u8).collect()
}

fn dark(img: &[Vec<Rgb8>]) -> Vec<Vec<bool>> {
    img.iter()
        .map(|row| {
            row.iter()
                .map(|p| 0.2126 * p.r as f32 + 0.7152 * p.g as f32 + 0.0722 * (p.b as f32) < 128.0)
                .collect()
        })
        .collect()
}

fn faulted(img: &Vec<Vec<Rgb8>>, fault: SeededFault) -> Vec<Vec<Rgb8>> {
    let w = img[0].len();
    apply_seeded_fault(img, w, fault, &gain(), &dark(img))
}

#[test]
fn fault_names_select_faults() {
    assert_eq!(SeededFault::parse("brdf-energy"), Ok(SeededFault::BrdfEnergy));
    assert_eq!(SeededFault::parse("texture-orientation"), Ok(SeededFault::TextureOrientation));
    assert_eq!(
        SeededFault::parse("lens-flare").unwrap_err(),
        "unknown seeded fault \"lens-flare\"; expected brdf-energy, shadow-placement, gi-leakage, motion-history, or texture-orientation"
    );
}

#[test]
fn faults_move_pixels_as_described() {
    let img = image(64, 64);
    let shadow = faulted(&img, SeededFault::ShadowPlacement);
    assert_eq!(shadow[5][0], img[5][0]);
    assert_eq!(shadow[5][1], img[5][0]);
    assert_eq!(shadow[5][10], img[5][8]);
    let flipped = faulted(&img, SeededFault::TextureOrientation);
    assert_eq!(flipped[0][7], img[63][7]);
    let history = faulted(&img, SeededFault::MotionHistory);
    let (c, o) = (img[3][20], img[3][18]);
    assert_eq!(history[3][20].r as u16, (3 * c.r as u16 + o.r as u16) / 4);
    let energy = faulted(&img, SeededFault::BrdfEnergy);
    assert_eq!(energy[0][0].r, 255);
    assert_eq!(energy[0][8].r, 24);
    let leak = faulted(&img, SeededFault::GiLeakage);
    assert_eq!(leak[0][8], Rgb8 { r: 44, g: 62, b: 20 });
    assert_eq!(leak[0][48], img[0][48]);
    assert_eq!(leak[0][0], Rgb8 { r: 254, g: 38, b: 20 });
    for fault in [
        SeededFault::BrdfEnergy,
        SeededFault::ShadowPlacement,
        SeededFault::GiLeakage,
        SeededFault::MotionHistory,
        SeededFault::TextureOrientation,
    ] {
        let out = faulted(&img, fault);
        assert_eq!(out.len(), 64);
        assert!(out.iter().all(|row| row.len() == 64));
        assert_ne!(out, img, "{fault:?} changed nothing");
    }
}

#[test]
fn wide_images_cap_the_shifts() {
    let img = image(1024, 2);
    let shadow = faulted(&img, SeededFault::ShadowPlacement);
    assert_eq!(shadow[1][100], img[1][84]);
    let history = faulted(&img, SeededFault::MotionHistory);
    let (c, o) = (img[1][100], img[1][88]);
    assert_eq!(history[1][100].g as u16, (3 * c.g as u16 + o.g as u16) / 4);
}

#[test]
fn composite_places_three_panels_between_dividers() {
    let a = vec![vec![Rgb8 { r: 1, g: 1, b: 1 }; 2]; 2];
    let b = vec![vec![Rgb8 { r: 2, g: 2, b: 2 }; 2]; 2];
    let c = vec![vec![Rgb8 { r: 3, g: 3, b: 3 }; 2]; 2];
    let out = compose_panels(&a, &b, &c);
    let gray = Rgb8 { r: 80, g: 80, b: 80 };
    assert_eq!(out.len(), 2);
    assert_eq!(out[1], vec![a[1][0], a[1][1], gray, b[1][0], b[1][1], gray, c[1][0], c[1][1]]);
}

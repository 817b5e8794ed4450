use bloom_cook::sampling::upper_bound_index;

fn key(f: f32) -> u32 {
    let f = if f == 0.0 { 0.0f32 } else { f };
    let bits = f.to_bits();
    if bits >> 31 == 0 { bits | 0x8000_0000 } else { !bits }
}

fn float_search(cdf: &[f32], u: f32) -> usize {
    let mut lo = 0usize;
    let mut hi = cdf.len();
    while lo < hi {
        let mid = (lo + hi) / 2;
        if cdf[mid] <= u {
            lo = mid + 1;
        } else {
            hi = mid;
        }
    }
    if lo == 0 { 0 } else { lo - 1 }
}

#[test]
fn inverse_cdf_picks_the_last_entry_not_above_u() {
    let cdf = [0.0f32, 0.1, 0.25, 0.25, 0.6, 1.0];
    let keys: Vec<u32> = cdf.iter().map(|&f| key(f)).collect();
    for u in [0.0f32, 0.05, 0.1, 0.2, 0.25, 0.5, 0.6, 0.99, 1.0, -0.5] {
        assert_eq!(upper_bound_index(&keys, key(u)), float_search(&cdf, u), "{u}");
    }
    assert_eq!(upper_bound_index(&keys, key(0.3)), 3);
    assert_eq!(upper_bound_index(&keys, key(-1.0)), 0);
    assert_eq!(upper_bound_index(&[], key(0.5)), 0);
}

use bloom_cook::rng::{seed_for, Rng};

fn reference_step(state: u64) -> (u64, u32) {
    let state = state.wrapping_mul(6364136223846793005).wrapping_add(1442695040888963407);
    let xorshifted = (((state >> 18) ^ state) >> 27) as u32;
    let rot = (state >> 59) as u32;
    (state, xorshifted.rotate_right(rot))
}

#[test]
fn streams_are_reproducible_pcg_steps() {
    let mut rng = Rng::new(42);
    let (warm, _) = reference_step(42);
    assert_eq!(rng.state, warm);
    let mut state = warm;
    for _ in 0..100 {
        let (next, value) = reference_step(state);
        state = next;
        assert_eq!(rng.next_u32(), value);
        assert_eq!(rng.state, state);
    }
    let mut again = Rng::new(42);
    let mut other = Rng::new(43);
    assert_eq!(again.next_u32(), Rng::new(42).next_u32());
    assert_ne!(again.next_u32(), other.next_u32());
}

#[test]
fn sample_seeds_mix_pixel_sample_and_global_seed() {
    assert_eq!(seed_for(0, 0, 0, 0x12345), 0x12345);
    let expected = 7u64
        ^ 3u64.wrapping_mul(0x9E3779B97F4A7C15)
        ^ 5u64.wrapping_mul(0xBF58476D1CE4E5B9)
        ^ 9u64.wrapping_mul(0x94D049BB133111EB);
    assert_eq!(seed_for(3, 5, 9, 7), expected);
    assert_ne!(seed_for(1, 0, 0, 0), seed_for(0, 1, 0, 0));
}

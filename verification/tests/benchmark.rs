use bloom_cook::benchmark::{bc_mip_bytes, rgba8_mip_bytes, split_iterations, IterationsError, DEFAULT_ITERATIONS};

fn strings(items: &[&str]) -> Vec<String> {
    items.iter().map(|s| s.to_string()).collect()
}

#[test]
fn mip_memory_accounts_for_odd_bc_blocks_and_rgba_texels() {
    assert_eq!(rgba8_mip_bytes(5, 3, 3), 72);
    assert_eq!(bc_mip_bytes(5, 3, 3), 64);
    assert_eq!(rgba8_mip_bytes(1024, 1024, 11), 5_592_404);
    assert_eq!(bc_mip_bytes(1024, 1024, 11), 1_398_128);
}

#[test]
fn iteration_parser_is_bounded_and_order_independent() {
    let flags = strings(&["--normal", "--iterations", "7"]);
    let (iterations, remaining) = split_iterations(&flags).unwrap();
    assert_eq!(iterations, 7);
    assert_eq!(remaining, ["--normal"]);
    assert!(split_iterations(&strings(&["--iterations", "0"])).is_err());
    assert!(split_iterations(&strings(&["--iterations", "2", "--iterations", "3"])).is_err());
}

#[test]
fn iterations_default_and_every_refusal() {
    let (iterations, remaining) = split_iterations(&strings(&["--linear"])).unwrap();
    assert_eq!(iterations, DEFAULT_ITERATIONS);
    assert_eq!(remaining, ["--linear"]);
    assert_eq!(split_iterations(&strings(&["--iterations"])).unwrap_err(), IterationsError::MissingValue);
    assert_eq!(split_iterations(&strings(&["--iterations", "x"])).unwrap_err(), IterationsError::NotInteger);
    assert_eq!(split_iterations(&strings(&["--iterations", "1001"])).unwrap_err(), IterationsError::OutOfRange);
    assert_eq!(split_iterations(&strings(&["--iterations", "1000"])).unwrap().0, 1000);
    assert_eq!(
        split_iterations(&strings(&["--iterations", "2", "--iterations", "3"])).unwrap_err().message(),
        "--iterations may only be specified once"
    );
}

#[test]
fn single_level_mips_match_the_top_level_size() {
    assert_eq!(rgba8_mip_bytes(4, 4, 1), 64);
    assert_eq!(bc_mip_bytes(4, 4, 1), 16);
    assert_eq!(bc_mip_bytes(1, 1, 1), 16);
    assert_eq!(rgba8_mip_bytes(1, 1, 1), 4);
}

use bloom_cook::options::{parse_options, CookOptions, LimitsError, MeshletLimits, DEFAULT_PAGE_BYTES};
use bloom_cook::store::VertexEncoding;

fn strings(items: &[&str]) -> Vec<String> {
    items.iter().map(|s| s.to_string()).collect()
}

#[test]
fn geometry_options_are_strict_and_bounded() {
    let flags = strings(&[
        "--max-vertices",
        "32",
        "--max-triangles",
        "48",
        "--page-bytes",
        "32768",
        "--hierarchy-levels",
        "6",
    ]);
    let options = parse_options(&flags).unwrap();
    assert_eq!(options.meshlet_limits.max_vertices, 32);
    assert_eq!(options.meshlet_limits.max_triangles, 48);
    assert_eq!(options.page_bytes, 32768);
    assert_eq!(options.hierarchy_levels, 6);
    assert_eq!(options.vertex_encoding, VertexEncoding::Float32);
    let quantized = parse_options(&strings(&["--vertex-format", "quantized32"])).unwrap();
    assert_eq!(quantized.vertex_encoding, VertexEncoding::Quantized);
    assert!(parse_options(&strings(&["--vertex-format", "packed-magic"]))
        .unwrap_err()
        .message()
        .contains("float32 or quantized32"));
    assert!(parse_options(&strings(&["--surprise", "1"])).unwrap_err().message().contains("unknown"));
    assert!(parse_options(&strings(&["--max-vertices"])).unwrap_err().message().contains("requires"));
}

#[test]
fn geometry_option_errors_have_exact_text() {
    let message = |flags: &[&str]| parse_options(&strings(flags)).unwrap_err().message();
    assert_eq!(message(&["--max-vertices", "x"]), "--max-vertices requires an unsigned integer, got \"x\"");
    assert_eq!(message(&["--max-vertices", "2"]), "meshlet max vertices must be in 3..=255, got 2");
    assert_eq!(message(&["--max-vertices", "256"]), "meshlet max vertices must be in 3..=255, got 256");
    assert_eq!(message(&["--max-triangles", "0"]), "meshlet max triangles must be greater than zero");
    assert_eq!(message(&["--hierarchy-levels", "17"]), "geometry hierarchy levels must be in 0..=16, got 17");
    assert_eq!(message(&["--page-bytes", "0"]), "geometry page budget must be greater than zero");
    assert_eq!(message(&["--surprise", "1"]), "unknown geometry option \"--surprise\"");
    let defaults = parse_options(&[]).unwrap();
    assert_eq!(defaults, CookOptions::default_options());
    assert_eq!(defaults.page_bytes, DEFAULT_PAGE_BYTES);
    assert_eq!(defaults.meshlet_limits, MeshletLimits { max_vertices: 64, max_triangles: 124 });
    assert_eq!(VertexEncoding::Quantized.label(), "quantized32");
}

#[test]
fn meshlet_limits_accept_exactly_the_encodable_range() {
    assert!(MeshletLimits { max_vertices: 3, max_triangles: 1 }.validate().is_ok());
    assert!(MeshletLimits { max_vertices: 255, max_triangles: 1 }.validate().is_ok());
    assert_eq!(
        MeshletLimits { max_vertices: 2, max_triangles: 0 }.validate().unwrap_err(),
        LimitsError::VerticesOutOfRange { max_vertices: 2 }
    );
    assert_eq!(MeshletLimits { max_vertices: 64, max_triangles: 0 }.validate().unwrap_err(), LimitsError::ZeroTriangles);
    assert_eq!(MeshletLimits::default_limits(), MeshletLimits { max_vertices: 64, max_triangles: 124 });
}

use bloom_cook::diff::{json_escape, mask_includes};

#[test]
fn masks_include_only_nonzero_pixels() {
    let mask = [0u8, 255, 1];
    assert!(!mask_includes(Some(&mask), 0));
    assert!(mask_includes(Some(&mask), 1));
    assert!(mask_includes(Some(&mask), 2));
    assert!(mask_includes(None, 99));
}

#[test]
fn metrics_strings_escape_controls() {
    assert_eq!(json_escape("plain"), "plain");
    assert_eq!(json_escape("q\"b\\n\nr\rt\t"), "q\\\"b\\\\n\\nr\\rt\\t");
    assert_eq!(json_escape("\u{1}\u{7f}\u{9f}\u{a0}☃"), "\\u0001\\u007f\\u009f\u{a0}☃");
}

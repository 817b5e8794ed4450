use bloom_cook::profile::{validate_profile_component, AssetProfile, ProfileField};

fn strings(items: &[&str]) -> Vec<String> {
    items.iter().map(|s| s.to_string()).collect()
}

#[test]
fn profile_ids_and_paired_flags_are_canonical() {
    let flags = strings(&["--hierarchy-levels", "4", "--platform", "macos", "--quality", "high-end"]);
    let (profile, remaining) = AssetProfile::split_optional_flags(&flags).unwrap();
    let profile = profile.unwrap();
    assert_eq!(profile.label(), "macos/high-end");
    assert_eq!(remaining, ["--hierarchy-levels", "4"]);

    let texture_flags = strings(&["--normal", "--platform", "portable", "--quality", "high", "--linear"]);
    let (profile, remaining) = AssetProfile::split_optional_flags(&texture_flags).unwrap();
    assert_eq!(profile.unwrap().label(), "portable/high");
    assert_eq!(remaining, ["--normal", "--linear"]);

    assert!(AssetProfile::new("MacOS", "high").is_err());
    assert!(AssetProfile::new("../macos", "high").is_err());
    assert!(AssetProfile::split_optional_flags(&strings(&["--platform", "macos"])).is_err());
    assert!(AssetProfile::split_optional_flags(&strings(&["--quality", "high", "--quality", "medium"])).is_err());
}

#[test]
fn profile_errors_say_what_was_refused() {
    let error = AssetProfile::new("MacOS", "high").unwrap_err();
    assert_eq!(
        error.message(),
        "asset platform profile \"MacOS\" must be 1..=32 lowercase ASCII letters, digits, '-' or '_'"
    );
    let error = AssetProfile::new("macos", "").unwrap_err();
    assert!(error.message().starts_with("asset quality profile \"\""), "{}", error.message());
    assert!(validate_profile_component(&"a".repeat(32), ProfileField::Platform).is_ok());
    assert!(validate_profile_component(&"a".repeat(33), ProfileField::Platform).is_err());
    let (profile, remaining) = AssetProfile::split_optional_flags(&strings(&["--x"])).unwrap();
    assert!(profile.is_none());
    assert_eq!(remaining, ["--x"]);
    let missing = AssetProfile::split_optional_flags(&strings(&["--platform"])).unwrap_err();
    assert_eq!(missing.message(), "--platform requires a value");
    let a = AssetProfile::new("web", "high").unwrap();
    assert!(a.same_as(&a.duplicate()));
    assert_eq!(a.platform(), "web");
    assert_eq!(a.quality(), "high");
}

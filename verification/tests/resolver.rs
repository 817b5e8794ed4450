use bloom_cook::profile::AssetProfile;
use bloom_cook::resolver::{
    parse_profile_pair, select_variant, set_once, CandidateProfile, ResolutionError, ResolutionRequest, Selection,
    SelectionKind,
};

fn strings(items: &[&str]) -> Vec<String> {
    items.iter().map(|s| s.to_string()).collect()
}

#[test]
fn request_parser_requires_explicit_canonical_fallbacks() {
    let request =
        ResolutionRequest::parse(&strings(&["--platform", "windows", "--quality", "ultra", "--fallback", "portable/high"]))
            .unwrap();
    assert_eq!(request.requested.label(), "windows/ultra");
    assert_eq!(request.fallbacks[0].label(), "portable/high");
    assert!(!request.allow_unprofiled);

    assert!(ResolutionRequest::parse(&strings(&["--platform", "web"])).is_err());
    assert!(ResolutionRequest::parse(&strings(&[
        "--platform",
        "web",
        "--quality",
        "high",
        "--fallback",
        "web/high"
    ]))
    .is_err());
}

#[test]
fn request_errors_report_each_refusal() {
    let message = |flags: &[&str]| ResolutionRequest::parse(&strings(flags)).err().unwrap().message("x");
    assert_eq!(message(&["--platform", "web"]), "asset resolution requires both --platform and --quality");
    assert_eq!(message(&["--platform"]), "--platform requires a value");
    assert_eq!(message(&["--platform", "a", "--platform", "b"]), "--platform may only be specified once");
    assert_eq!(message(&["--allow-unprofiled", "--allow-unprofiled"]), "--allow-unprofiled may only be specified once");
    assert_eq!(message(&["--surprise", "1"]), "unknown asset resolution option \"--surprise\"");
    assert_eq!(message(&["--fallback", "web"]), "--fallback requires PLATFORM/QUALITY, got \"web\"");
    assert_eq!(message(&["--fallback", "a/b/c"]), "--fallback requires exactly PLATFORM/QUALITY, got \"a/b/c\"");
    assert_eq!(
        message(&["--platform", "web", "--quality", "high", "--fallback", "mac/low", "--fallback", "mac/low"]),
        "asset resolution profile mac/low is duplicated"
    );
    let request = ResolutionRequest::parse(&strings(&["--allow-unprofiled", "--quality", "q", "--platform", "p"])).unwrap();
    assert!(request.allow_unprofiled);
    assert_eq!(request.requested.label(), "p/q");
    assert!(parse_profile_pair("Web/high").is_err());
    assert_eq!(parse_profile_pair("web/high").unwrap().label(), "web/high");
}

#[test]
fn set_once_refuses_a_second_value() {
    let mut slot = None;
    assert!(set_once(&mut slot, "a", "--platform").is_ok());
    assert_eq!(slot.as_deref(), Some("a"));
    let error = set_once(&mut slot, "b", "--platform").unwrap_err();
    assert_eq!(error.message(""), "--platform may only be specified once");
}

fn profiled(platform: &str, quality: &str) -> CandidateProfile {
    CandidateProfile::Profiled(AssetProfile::new(platform, quality).unwrap())
}

#[test]
fn selection_prefers_exact_then_fallbacks_in_order_then_unprofiled() {
    let request = ResolutionRequest::parse(&strings(&[
        "--platform",
        "windows",
        "--quality",
        "ultra",
        "--fallback",
        "portable/high",
        "--fallback",
        "portable/low",
        "--allow-unprofiled",
    ]))
    .unwrap();
    let candidates = vec![CandidateProfile::Unprofiled, profiled("portable", "low"), profiled("windows", "ultra")];
    assert_eq!(select_variant(&candidates, &request).unwrap(), Selection { entry: 2, kind: SelectionKind::Exact });
    let candidates = vec![CandidateProfile::Unprofiled, profiled("portable", "low"), profiled("portable", "high")];
    assert_eq!(
        select_variant(&candidates, &request).unwrap(),
        Selection { entry: 2, kind: SelectionKind::Fallback { rank: 0 } }
    );
    let candidates = vec![CandidateProfile::Unprofiled, profiled("portable", "low")];
    assert_eq!(
        select_variant(&candidates, &request).unwrap(),
        Selection { entry: 1, kind: SelectionKind::Fallback { rank: 1 } }
    );
    let candidates = vec![profiled("web", "low"), CandidateProfile::Unprofiled];
    assert_eq!(
        select_variant(&candidates, &request).unwrap(),
        Selection { entry: 1, kind: SelectionKind::UnprofiledFallback }
    );
}

#[test]
fn selection_failures_explain_what_is_available() {
    let request = ResolutionRequest::parse(&strings(&["--platform", "windows", "--quality", "ultra"])).unwrap();
    let none = select_variant(&vec![], &request).unwrap_err();
    assert_eq!(none.message("props/chair"), "logical asset \"props/chair\" is not in the cooked index");
    let candidates = vec![profiled("web", "low"), CandidateProfile::Unprofiled, profiled("mac", "high")];
    let error = select_variant(&candidates, &request).unwrap_err();
    assert_eq!(
        error.message("props/chair"),
        "logical asset \"props/chair\" has no allowed variant for windows/ultra; available profiles: mac/high, web/low; unprofiled available: true"
    );
    let duplicates = vec![profiled("windows", "ultra"), profiled("windows", "ultra")];
    let error = select_variant(&duplicates, &request).unwrap_err();
    assert_eq!(error.message("x"), "asset index contains duplicate windows/ultra variants");
    assert!(matches!(error, ResolutionError::DuplicateVariants { .. }));
    let only_unprofiled = vec![CandidateProfile::Unprofiled];
    assert_eq!(
        select_variant(&only_unprofiled, &request).unwrap_err().message("x"),
        "logical asset \"x\" has no allowed variant for windows/ultra; available profiles: none; unprofiled available: true"
    );
}

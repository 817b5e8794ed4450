use bloom_cook::index::{
    collect_profiled_manifests, index_schema, index_totals, logical_id_from_path, logical_id_from_relative,
    order_descriptors, profiled_entry_count, IndexError, IndexedArtifact, ManifestDescriptor, PlatformDirectory,
    QualityDirectory,
};
use bloom_cook::profile::AssetProfile;

#[test]
fn logical_id_derivation_preserves_dotted_names_and_rejects_non_manifests() {
    assert_eq!(
        logical_id_from_path("store/manifests", "store/manifests/props/chair.v2.json").unwrap(),
        "props/chair.v2"
    );
    assert!(logical_id_from_path("store/manifests", "store/elsewhere/chair.json").is_err());
    assert!(logical_id_from_path("store/manifests", "store/manifests/../escape.json").is_err());
}

#[test]
fn logical_id_errors_name_the_path() {
    let escape = logical_id_from_path("store/manifests", "store/elsewhere/chair.json").unwrap_err();
    assert_eq!(escape.message(), "manifest path store/elsewhere/chair.json escapes its root");
    let suffix = logical_id_from_path("store/manifests", "store/manifests/chair.txt").unwrap_err();
    assert_eq!(suffix.message(), "manifest path store/manifests/chair.txt lacks .json suffix");
    assert!(matches!(
        logical_id_from_relative("p", Some("a\\b.json"), '\\'),
        Ok(ref id) if id == "a/b"
    ));
    assert!(matches!(logical_id_from_relative("p", Some("../x.json"), '/'), Err(IndexError::LogicalId(_))));
}

fn profile(platform: &str, quality: &str) -> AssetProfile {
    AssetProfile::new(platform, quality).unwrap()
}

fn descriptor(id: &str, p: Option<(&str, &str)>) -> ManifestDescriptor {
    ManifestDescriptor { logical_id: id.to_string(), profile: p.map(|(a, b)| profile(a, b)) }
}

fn summary(ds: &[ManifestDescriptor]) -> Vec<String> {
    ds.iter()
        .map(|d| match &d.profile {
            None => d.logical_id.clone(),
            Some(p) => format!("{}@{}", d.logical_id, p.label()),
        })
        .collect()
}

#[test]
fn descriptors_sort_by_id_then_profile_and_reject_duplicates() {
    let sorted = order_descriptors(vec![
        descriptor("props/chair", Some(("web", "high"))),
        descriptor("helmet", None),
        descriptor("props/chair", None),
        descriptor("props/chair", Some(("macos", "low"))),
        descriptor("props/chair", Some(("macos", "high"))),
    ])
    .unwrap();
    assert_eq!(
        summary(&sorted),
        ["helmet", "props/chair", "props/chair@macos/high", "props/chair@macos/low", "props/chair@web/high"]
    );
    assert_eq!(profiled_entry_count(&sorted), 3);
    let duplicate = order_descriptors(vec![
        descriptor("a", Some(("web", "high"))),
        descriptor("b", None),
        descriptor("a", Some(("web", "high"))),
    ])
    .unwrap_err();
    assert_eq!(duplicate.message(), "asset store contains duplicate logical ID/profile entries");
    assert_eq!(ManifestDescriptor::legacy("x".to_string()).logical_id, "x");
}

#[test]
fn variant_tree_yields_profiled_descriptors_in_order() {
    let tree = vec![PlatformDirectory {
        name: "macos".to_string(),
        qualities: vec![
            QualityDirectory { name: "high".to_string(), logical_ids: vec!["a".to_string(), "b/c".to_string()] },
            QualityDirectory { name: "low".to_string(), logical_ids: vec!["a".to_string()] },
        ],
    }];
    let mut descriptors = vec![descriptor("legacy", None)];
    collect_profiled_manifests(&tree, &mut descriptors).unwrap();
    assert_eq!(summary(&descriptors), ["legacy", "a@macos/high", "b/c@macos/high", "a@macos/low"]);

    let bad = vec![PlatformDirectory { name: "MacOS".to_string(), qualities: vec![] }];
    let mut none = Vec::new();
    let error = collect_profiled_manifests(&bad, &mut none).unwrap_err();
    assert!(error.message().contains("lowercase ASCII"), "{}", error.message());

    let bad_quality = vec![PlatformDirectory {
        name: "web".to_string(),
        qualities: vec![
            QualityDirectory { name: "ok".to_string(), logical_ids: vec!["x".to_string()] },
            QualityDirectory { name: "Bad".to_string(), logical_ids: vec!["y".to_string()] },
        ],
    }];
    let mut partial = Vec::new();
    let error = collect_profiled_manifests(&bad_quality, &mut partial).unwrap_err();
    assert!(error.message().contains("asset quality profile"), "{}", error.message());
    assert_eq!(summary(&partial), ["x@web/ok"]);
}

fn artifact(sha: &str, bytes: u64) -> IndexedArtifact {
    IndexedArtifact { sha256: sha.to_string(), bytes }
}

#[test]
fn index_totals_count_shared_chunks_once() {
    let totals = index_totals(&vec![artifact("aa", 10), artifact("bb", 5), artifact("aa", 10)]).unwrap();
    assert_eq!(totals.referenced_bytes, 25);
    assert_eq!(totals.unique_chunks, 2);
    assert_eq!(totals.unique_chunk_bytes, 15);
    let inconsistent = index_totals(&vec![artifact("aa", 10), artifact("aa", 11)]).unwrap_err();
    assert_eq!(inconsistent.message(), "chunk aa has inconsistent byte lengths across manifests");
    let overflow = index_totals(&vec![artifact("aa", u64::MAX), artifact("bb", 1)]).unwrap_err();
    assert_eq!(overflow.message(), "asset index referenced-byte total overflow");
    assert_eq!(index_schema(0), "bloom-asset-index-v1");
    assert_eq!(index_schema(2), "bloom-asset-index-v2");
}

use bloom_cook::bytes::hex_hash;
use bloom_cook::index_json::{read_asset_index, resolve_in_index};
use bloom_cook::manifest::{validate_manifest_contract, validate_manifest_identity};
use bloom_cook::manifest_json::{read_geometry_artifact, read_geometry_manifest, read_scene_manifest};
use bloom_cook::resolver::{CandidateProfile, ResolutionRequest, SelectionKind};
use bloom_cook::store::{build_key_for_profile, geometry_build_key_sha256, VertexEncoding};

const SOURCE: &str = "0101010101010101010101010101010101010101010101010101010101010101";

fn key() -> String {
    let base = geometry_build_key_sha256([1; 32], 64, 124, 65536, 4, VertexEncoding::Quantized);
    hex_hash(&build_key_for_profile(base, None))
}

fn geometry_manifest(dependencies: &str) -> String {
    format!(
        r#"{{
  "schema": "bloom-asset-manifest-v1",
  "kind": "geometry",
  "logical_id": "props/chair",
  "recipe": {{ "name": "bloom-geometry", "version": 3 }},
  "source": {{ "sha256": "{SOURCE}" }},
  "dependencies": {dependencies},
  "settings": {{
    "max_vertices_per_meshlet": 64,
    "max_triangles_per_meshlet": 124,
    "page_budget_bytes": 65536,
    "hierarchy_levels": 4,
    "vertex_format": "quantized32"
  }},
  "build_key_sha256": "{}",
  "artifact": {{ "path": "chunks/sha256/ab.bgeo", "sha256": "ab", "payload_sha256": "cd", "bytes": 120, "format_version": 2 }}
}}"#,
        key()
    )
}

fn canonical_dependencies() -> String {
    format!(r#"[{{ "kind": "source-closure", "sha256": "{SOURCE}" }}]"#)
}

#[test]
fn a_geometry_manifest_is_read_and_checked_from_its_bytes() {
    let text = geometry_manifest(&canonical_dependencies());
    let fields = read_geometry_manifest("m.json", text.as_bytes()).unwrap();
    assert_eq!(fields.schema.as_deref(), Some("bloom-asset-manifest-v1"));
    assert!(fields.profile.is_none());
    assert_eq!(fields.recipe_version, Some(3));
    assert_eq!(fields.settings_field_count, Some(5));
    assert_eq!(fields.source_closure_dependency.as_deref(), Some(SOURCE));
    validate_manifest_identity(&fields, "props/chair", None).unwrap();
    let contract = validate_manifest_contract(&fields, 4096, 1 << 20).unwrap();
    assert_eq!(contract.build_key_sha256, key());

    let artifact = read_geometry_artifact(text.as_bytes());
    assert_eq!(artifact.path.as_deref(), Some("chunks/sha256/ab.bgeo"));
    assert_eq!(artifact.bytes, Some(120));
    assert_eq!(artifact.format_version, Some(2));
}

#[test]
fn only_one_source_closure_dependency_is_canonical() {
    for dependencies in [
        format!(r#"[{{ "kind": "source-closure", "sha256": "{SOURCE}", "extra": 1 }}]"#),
        format!(r#"[{{ "kind": "source-file", "sha256": "{SOURCE}" }}]"#),
        format!(r#"[{{ "kind": "source-closure", "sha256": "{SOURCE}" }}, {{ "kind": "source-closure", "sha256": "{SOURCE}" }}]"#),
        format!(r#"{{ "kind": "source-closure", "sha256": "{SOURCE}" }}"#),
        r#"[{ "kind": "source-closure", "sha256": 7 }]"#.to_string(),
    ] {
        let text = geometry_manifest(&dependencies);
        let fields = read_geometry_manifest("m.json", text.as_bytes()).unwrap();
        assert_eq!(fields.source_closure_dependency, None);
        assert_eq!(
            validate_manifest_contract(&fields, 4096, 1 << 20).err().unwrap().message(),
            "asset manifest has non-canonical dependencies"
        );
    }
}

#[test]
fn bytes_that_are_not_json_are_refused() {
    let error = read_geometry_manifest("store/m.json", b"{ not json").err().unwrap().message();
    assert!(error.starts_with("parse manifest store/m.json: "), "{error}");
    assert!(read_scene_manifest("s.json", b"[1,").is_err());
}

#[test]
fn profile_objects_are_read_as_they_stand() {
    let text = r#"{"schema": "bloom-asset-manifest-v2", "profile": {"platform": "windows", "quality": "ultra"}}"#;
    let fields = read_geometry_manifest("m", text.as_bytes()).unwrap();
    let profile = fields.profile.unwrap().unwrap();
    assert_eq!(profile.field_count, 2);
    assert_eq!(profile.platform.as_deref(), Some("windows"));
    assert_eq!(profile.quality.as_deref(), Some("ultra"));

    let fields = read_geometry_manifest("m", br#"{"profile": null}"#).unwrap();
    assert!(matches!(fields.profile, Some(None)));
    let fields = read_geometry_manifest("m", br#"{"profile": {"platform": 1, "quality": "q", "x": 2}}"#).unwrap();
    let profile = fields.profile.unwrap().unwrap();
    assert_eq!(profile.field_count, 3);
    assert_eq!(profile.platform, None);
    let fields = read_geometry_manifest("m", br#"{"recipe": {"version": -1}}"#).unwrap();
    assert_eq!(fields.recipe_version, None);
}

#[test]
fn scene_manifests_are_read_from_their_bytes() {
    let text = r#"{"schema": "bloom-asset-manifest-v1", "recipe": {"name": "bloom-scene", "version": 1},
        "source": {"sha256": "aa"}, "artifact": {"sha256": "bb", "payload_sha256": "cc", "path": "p", "bytes": 9},
        "build_key_sha256": "dd"}"#;
    let record = read_scene_manifest("s", text.as_bytes()).unwrap();
    assert_eq!(record.fields.recipe_name.as_deref(), Some("bloom-scene"));
    assert_eq!(record.fields.recipe_version, Some(1));
    assert_eq!(record.fields.artifact_path.as_deref(), Some("p"));
    assert_eq!(record.artifact_bytes, Some(9));
    assert_eq!(record.build_key_sha256.as_deref(), Some("dd"));
    assert!(record.profile.is_none());
}

fn index(entries: &str) -> String {
    format!(r#"{{"schema": "bloom-asset-index-v2", "entry_count": 0, "entries": {entries}}}"#)
}

#[test]
fn index_shapes_are_checked_before_entries() {
    let message = |text: &str| read_asset_index(text.as_bytes()).err().unwrap().message();
    assert!(message("nope").starts_with("parse validated asset index: "));
    assert_eq!(message(r#"{"entries": []}"#), "asset index schema is missing or not a string");
    assert_eq!(
        message(r#"{"schema": "bloom-asset-index-v3", "entries": []}"#),
        "unsupported asset index schema \"bloom-asset-index-v3\"; recook assets"
    );
    assert_eq!(message(r#"{"schema": "bloom-asset-index-v1"}"#), "asset index entries are missing or not an array");
    assert_eq!(read_asset_index(index("[]").as_bytes()).unwrap().len(), 0);
}

#[test]
fn index_entries_resolve_by_profile() {
    let text = index(
        r#"[
        {"logical_id": "props/chair", "artifact": {"path": "a", "sha256": "s1", "bytes": 10}, "build_key_sha256": "k1", "manifest": {"path": "manifests/props/chair.json"}},
        {"logical_id": "props/table", "profile": {"platform": "windows", "quality": "ultra"}},
        {"logical_id": "props/chair", "profile": {"platform": "windows", "quality": "ultra"}, "artifact": {"path": "b", "bytes": 20}},
        {"logical_id": "props/chair", "profile": {"platform": "web"}}
    ]"#,
    );
    let entries = read_asset_index(text.as_bytes()).unwrap();
    assert_eq!(entries.len(), 4);
    assert_eq!(entries[0].artifact.path.as_deref(), Some("a"));
    assert_eq!(entries[0].artifact.bytes, Some(10));
    assert_eq!(entries[0].artifact.build_key_sha256.as_deref(), Some("k1"));
    assert_eq!(entries[0].artifact.manifest_path.as_deref(), Some("manifests/props/chair.json"));
    assert!(matches!(entries[0].profile, CandidateProfile::Unprofiled));
    assert!(matches!(entries[2].profile, CandidateProfile::Profiled(_)));
    assert!(matches!(&entries[3].profile, CandidateProfile::Unreadable(t) if t == "asset profile has unknown or missing fields"));

    let request = |flags: &[&str]| {
        ResolutionRequest::parse(&flags.iter().map(|f| f.to_string()).collect::<Vec<_>>()).unwrap()
    };
    // The unreadable profile of the last chair entry is met while scanning.
    let exact = request(&["--platform", "windows", "--quality", "ultra"]);
    assert_eq!(
        resolve_in_index(&entries, "props/chair", &exact).err().unwrap().message("props/chair"),
        "asset profile has unknown or missing fields"
    );
    assert_eq!(resolve_in_index(&entries, "props/table", &exact).unwrap(), (1, SelectionKind::Exact));
    let unprofiled = request(&["--platform", "linux", "--quality", "low", "--allow-unprofiled"]);
    assert_eq!(
        resolve_in_index(&entries, "props/table", &unprofiled).err().unwrap().message("props/table"),
        "logical asset \"props/table\" has no allowed variant for linux/low; available profiles: windows/ultra; unprofiled available: false"
    );
    let readable = read_asset_index(
        index(
            r#"[
        {"logical_id": "props/chair"},
        {"logical_id": "props/table", "profile": {"platform": "windows", "quality": "ultra"}},
        {"logical_id": "props/chair", "profile": {"platform": "windows", "quality": "ultra"}}
    ]"#,
        )
        .as_bytes(),
    )
    .unwrap();
    assert_eq!(resolve_in_index(&readable, "props/chair", &exact).unwrap(), (2, SelectionKind::Exact));
    assert_eq!(
        resolve_in_index(&readable, "props/chair", &unprofiled).unwrap(),
        (0, SelectionKind::UnprofiledFallback)
    );
    assert_eq!(
        resolve_in_index(&entries, "props/lamp", &exact).err().unwrap().message("props/lamp"),
        "logical asset \"props/lamp\" is not in the cooked index"
    );
}

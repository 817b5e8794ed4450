use bloom_cook::bytes::hex_hash;
use bloom_cook::manifest::{
    manifest_profile, profile_from_fields, reuse_stored_build, validate_manifest_contract, validate_manifest_identity,
    GeometryManifestFields, ManifestError, ProfileFields,
};
use bloom_cook::profile::AssetProfile;
use bloom_cook::store::{build_key_for_profile, geometry_build_key_sha256, VertexEncoding};

const SOURCE: &str = "0101010101010101010101010101010101010101010101010101010101010101";
const MIN_PAGE: u32 = 4096;
const MAX_PAGE: u32 = 1 << 20;

fn profile_fields(platform: &str, quality: &str) -> ProfileFields {
    ProfileFields { field_count: 2, platform: Some(platform.to_string()), quality: Some(quality.to_string()) }
}

fn expected_key(profile: Option<&AssetProfile>, encoding: VertexEncoding) -> String {
    let base = geometry_build_key_sha256([1; 32], 64, 124, 65536, 4, encoding);
    hex_hash(&build_key_for_profile(base, profile))
}

fn manifest(profile: Option<Option<ProfileFields>>) -> GeometryManifestFields {
    let schema = if profile.is_some() { "bloom-asset-manifest-v2" } else { "bloom-asset-manifest-v1" };
    let key = match &profile {
        Some(Some(p)) => {
            let id = AssetProfile::new(p.platform.as_deref().unwrap(), p.quality.as_deref().unwrap()).unwrap();
            expected_key(Some(&id), VertexEncoding::Quantized)
        }
        _ => expected_key(None, VertexEncoding::Quantized),
    };
    GeometryManifestFields {
        schema: Some(schema.to_string()),
        profile,
        kind: Some("geometry".to_string()),
        logical_id: Some("props/chair".to_string()),
        recipe_name: Some("bloom-geometry".to_string()),
        recipe_version: Some(3),
        source_sha256: Some(SOURCE.to_string()),
        source_closure_dependency: Some(SOURCE.to_string()),
        settings_field_count: Some(5),
        max_vertices: Some(64),
        max_triangles: Some(124),
        page_budget_bytes: Some(65536),
        hierarchy_levels: Some(4),
        vertex_format: Some("quantized32".to_string()),
        build_key_sha256: Some(key),
    }
}

#[test]
fn a_v1_manifest_checks_out_against_its_recipe() {
    let fields = manifest(None);
    assert!(matches!(manifest_profile(&fields), Ok(None)));
    validate_manifest_identity(&fields, "props/chair", None).unwrap();
    let contract = validate_manifest_contract(&fields, MIN_PAGE, MAX_PAGE).unwrap();
    assert_eq!(contract.build_key_sha256, expected_key(None, VertexEncoding::Quantized));
    assert_eq!(contract.source_sha256, [1; 32]);
    assert_eq!(contract.vertex_encoding, VertexEncoding::Quantized);
}

#[test]
fn a_v2_manifest_binds_its_profile_into_the_key() {
    let fields = manifest(Some(Some(profile_fields("macos", "high"))));
    let declared = manifest_profile(&fields).unwrap().unwrap();
    assert!(declared.same_as(&AssetProfile::new("macos", "high").unwrap()));
    let expected = AssetProfile::new("macos", "high").unwrap();
    validate_manifest_identity(&fields, "props/chair", Some(&expected)).unwrap();
    let other = AssetProfile::new("macos", "low").unwrap();
    assert_eq!(
        validate_manifest_identity(&fields, "props/chair", Some(&other)).unwrap_err().message(),
        "asset manifest profile does not match its path"
    );
    let contract = validate_manifest_contract(&fields, MIN_PAGE, MAX_PAGE).unwrap();
    assert_ne!(contract.build_key_sha256, expected_key(None, VertexEncoding::Quantized));
}

#[test]
fn identity_checks_run_in_order() {
    let mut fields = manifest(None);
    fields.profile = Some(None);
    assert_eq!(
        validate_manifest_identity(&fields, "props/chair", None).unwrap_err().message(),
        "v1 asset manifest may not declare a profile"
    );
    let mut fields = manifest(None);
    fields.kind = Some("texture".to_string());
    assert!(matches!(validate_manifest_identity(&fields, "props/chair", None), Err(ManifestError::KindNotGeometry)));
    let fields = manifest(None);
    assert_eq!(
        validate_manifest_identity(&fields, "props/table", None).unwrap_err().message(),
        "asset manifest logical ID does not match its path"
    );
    let mut fields = manifest(None);
    fields.schema = Some("bloom-asset-manifest-v3".to_string());
    assert_eq!(manifest_profile(&fields).unwrap_err().message(), "unsupported asset manifest schema");
    fields.schema = None;
    assert_eq!(
        manifest_profile(&fields).unwrap_err().message(),
        "asset manifest field /schema is missing or not a string"
    );
    let mut fields = manifest(Some(Some(profile_fields("macos", "high"))));
    fields.profile = None;
    assert_eq!(manifest_profile(&fields).unwrap_err().message(), "profiled asset manifest is missing its profile");
}

#[test]
fn profile_objects_are_strict() {
    assert_eq!(profile_from_fields(&None).unwrap_err().message(), "asset profile is missing or not an object");
    let extra = ProfileFields { field_count: 3, ..profile_fields("macos", "high") };
    assert_eq!(profile_from_fields(&Some(extra)).unwrap_err().message(), "asset profile has unknown or missing fields");
    let no_platform = ProfileFields { platform: None, ..profile_fields("macos", "high") };
    assert_eq!(
        profile_from_fields(&Some(no_platform)).unwrap_err().message(),
        "asset profile platform is missing or not a string"
    );
    let no_quality = ProfileFields { quality: None, ..profile_fields("macos", "high") };
    assert_eq!(
        profile_from_fields(&Some(no_quality)).unwrap_err().message(),
        "asset profile quality is missing or not a string"
    );
    assert!(matches!(profile_from_fields(&Some(profile_fields("MacOS", "high"))), Err(ManifestError::Profile(_))));
    assert!(profile_from_fields(&Some(profile_fields("macos", "high"))).is_ok());
}

#[test]
fn recipe_contract_refusals() {
    let check = |fields: &GeometryManifestFields| validate_manifest_contract(fields, MIN_PAGE, MAX_PAGE).unwrap_err().message();
    let mut f = manifest(None);
    f.recipe_version = Some(2);
    assert_eq!(check(&f), "asset manifest has an unsupported geometry recipe");
    let mut f = manifest(None);
    f.recipe_version = None;
    assert_eq!(check(&f), "asset manifest field /recipe/version is missing or not an integer");
    let mut f = manifest(None);
    f.source_closure_dependency = None;
    assert_eq!(check(&f), "asset manifest has non-canonical dependencies");
    let mut f = manifest(None);
    f.settings_field_count = Some(4);
    assert_eq!(check(&f), "asset manifest geometry settings have unknown or missing fields");
    let mut f = manifest(None);
    f.settings_field_count = None;
    assert_eq!(check(&f), "asset manifest geometry settings are missing or not an object");
    let mut f = manifest(None);
    f.max_vertices = Some(1 << 32);
    assert_eq!(check(&f), "asset manifest field /settings/max_vertices_per_meshlet exceeds u32");
    let mut f = manifest(None);
    f.max_vertices = Some(2);
    assert_eq!(check(&f), "meshlet max vertices must be in 3..=255, got 2");
    let mut f = manifest(None);
    f.page_budget_bytes = Some(65535);
    assert_eq!(check(&f), "asset manifest geometry page budget is invalid");
    let mut f = manifest(None);
    f.page_budget_bytes = Some(1 << 21);
    assert_eq!(check(&f), "asset manifest geometry page budget is invalid");
    let mut f = manifest(None);
    f.hierarchy_levels = Some(17);
    assert_eq!(check(&f), "asset manifest geometry hierarchy level count exceeds 16");
    let mut f = manifest(None);
    f.vertex_format = Some("half".to_string());
    assert_eq!(check(&f), "asset manifest has unknown vertex format \"half\"");
    let mut f = manifest(None);
    f.vertex_format = Some("float32".to_string());
    let message = check(&f);
    assert!(message.starts_with("asset manifest build key mismatch: declared "), "{message}");
    assert!(message.ends_with(&format!(", actual {}", expected_key(None, VertexEncoding::Float32))));
    let mut f = manifest(None);
    f.source_sha256 = Some("01".to_string());
    assert!(matches!(validate_manifest_contract(&f, MIN_PAGE, MAX_PAGE), Err(ManifestError::Hash(_))));
}

#[test]
fn a_stored_manifest_is_reused_only_for_its_exact_key() {
    let fields = manifest(None);
    let key = expected_key(None, VertexEncoding::Quantized);
    assert_eq!(reuse_stored_build(None, "props/chair", None, &key).unwrap(), false);
    assert_eq!(reuse_stored_build(Some(&fields), "props/chair", None, &key).unwrap(), true);
    let other = expected_key(None, VertexEncoding::Float32);
    assert_eq!(reuse_stored_build(Some(&fields), "props/chair", None, &other).unwrap(), false);
    assert_eq!(
        reuse_stored_build(Some(&fields), "props/table", None, &key).unwrap_err().message(),
        "asset manifest logical ID does not match its path"
    );
    let mut bad = manifest(None);
    bad.build_key_sha256 = Some(key.to_uppercase());
    assert_eq!(
        reuse_stored_build(Some(&bad), "props/chair", None, &key).unwrap_err().message(),
        "manifest build key is not a canonical lowercase SHA-256"
    );
    bad.build_key_sha256 = None;
    assert_eq!(
        reuse_stored_build(Some(&bad), "props/chair", None, &key).unwrap_err().message(),
        "asset manifest field /build_key_sha256 is missing or not a string"
    );
}

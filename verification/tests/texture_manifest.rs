use bloom_cook::bytes::hex_hash;
use bloom_cook::manifest::{ManifestError, ProfileFields};
use bloom_cook::profile::AssetProfile;
use bloom_cook::texture::{build_key_for_profile, TextureManifestFields, TextureSettings};
use bloom_cook::texture_manifest::{validate_texture_manifest_contract, TextureManifestRecord};

const SOURCE: &str = "0202020202020202020202020202020202020202020202020202020202020202";

fn settings_fields() -> TextureManifestFields {
    TextureManifestFields {
        field_count: 3,
        color_space: Some("srgb".to_string()),
        normal_map: Some(false),
        has_coverage_key: true,
        coverage_bits: None,
    }
}

fn key(profile: Option<&AssetProfile>) -> String {
    let settings = TextureSettings::from_semantics(false, true, None);
    hex_hash(&build_key_for_profile(settings.build_key_sha256([2; 32]), profile))
}

fn record() -> TextureManifestRecord {
    TextureManifestRecord {
        schema: Some("bloom-asset-manifest-v1".to_string()),
        profile: None,
        recipe_name: Some("bloom-texture".to_string()),
        recipe_version: Some(bloom_cook::store::TEXTURE_RECIPE_VERSION as u64),
        source_sha256: Some(SOURCE.to_string()),
        source_file_dependency: Some(SOURCE.to_string()),
        settings: Some(Some(settings_fields())),
        build_key_sha256: Some(key(None)),
    }
}

#[test]
fn a_texture_manifest_checks_out_against_its_recipe() {
    let contract = validate_texture_manifest_contract(&record()).unwrap();
    assert_eq!(contract.build_key_sha256, key(None));
    assert_eq!(contract.source_sha256, [2; 32]);
    assert_eq!(contract.settings, TextureSettings::from_semantics(false, true, None));
}

#[test]
fn a_profiled_texture_manifest_binds_its_profile() {
    let profile = AssetProfile::new("portable", "low").unwrap();
    let mut r = record();
    r.schema = Some("bloom-asset-manifest-v2".to_string());
    r.profile = Some(Some(ProfileFields {
        field_count: 2,
        platform: Some("portable".to_string()),
        quality: Some("low".to_string()),
    }));
    assert!(matches!(validate_texture_manifest_contract(&r), Err(ManifestError::KeyMismatch { .. })));
    r.build_key_sha256 = Some(key(Some(&profile)));
    assert!(validate_texture_manifest_contract(&r).is_ok());
}

#[test]
fn texture_contract_refusals() {
    let check = |r: &TextureManifestRecord| validate_texture_manifest_contract(r).err().unwrap().message();
    let mut r = record();
    r.recipe_name = Some("bloom-geometry".to_string());
    r.recipe_version = None;
    assert_eq!(check(&r), "asset manifest has an unsupported texture recipe");
    let mut r = record();
    r.recipe_version = None;
    assert_eq!(check(&r), "asset manifest field /recipe/version is missing or not an integer");
    let mut r = record();
    r.source_file_dependency = Some("03".repeat(32));
    assert_eq!(check(&r), "asset manifest has non-canonical dependencies");
    let mut r = record();
    r.settings = None;
    assert_eq!(check(&r), "asset manifest texture settings are missing");
    let mut r = record();
    r.settings = Some(None);
    assert_eq!(check(&r), "asset manifest texture settings are missing or not an object");
    let mut r = record();
    r.settings = Some(Some(TextureManifestFields { normal_map: Some(true), ..settings_fields() }));
    assert_eq!(check(&r), "normal-map texture manifests must use linear color space");
    let mut r = record();
    r.schema = Some("bloom-asset-manifest-v1".to_string());
    r.profile = Some(None);
    assert_eq!(check(&r), "v1 asset manifest may not declare a profile");
    let mut r = record();
    r.build_key_sha256 = Some("00".repeat(32));
    let message = check(&r);
    assert_eq!(message, format!("asset manifest build key mismatch: declared {}, actual {}", "00".repeat(32), key(None)));
}

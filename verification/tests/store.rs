use bloom_cook::profile::AssetProfile;
use bloom_cook::store::{
    build_key_for_profile, geometry_build_key_sha256, manifest_path, manifest_path_for_profile, parse_hex_hash,
    scene_build_key, validate_hex_hash, validate_logical_id, BuildOutcome, VertexEncoding,
};
use sha2::{Digest, Sha256};

#[test]
fn logical_ids_are_relative_and_canonical() {
    for valid in ["helmet", "world/sponza-main", "props/chair.v2"] {
        validate_logical_id(valid).unwrap();
    }
    assert_ne!(manifest_path("store", "props/chair.v2"), manifest_path("store", "props/chair.v3"));
    for invalid in ["", "/root", "root/", "a//b", ".", "..", "a/../b", "snowman-☃"] {
        assert!(validate_logical_id(invalid).is_err(), "{invalid}");
    }
}

#[test]
fn logical_id_error_quotes_the_id() {
    assert_eq!(
        validate_logical_id("a//b").unwrap_err().message(),
        "logical asset ID \"a//b\" must be a relative slash-separated ASCII identifier without empty, dot, or parent segments"
    );
    assert!(validate_logical_id("a/.hidden").is_ok());
    assert!(validate_logical_id("a/...").is_ok());
}

#[test]
fn manifest_paths_follow_the_store_layout() {
    assert_eq!(manifest_path("store", "props/chair"), "store/manifests/props/chair.json");
    let profile = AssetProfile::new("macos", "high").unwrap();
    assert_eq!(
        manifest_path_for_profile("store", "props/chair", Some(&profile)),
        "store/variants/macos/high/props/chair.json"
    );
    assert_eq!(manifest_path_for_profile("store", "helmet", None), "store/manifests/helmet.json");
}

#[test]
fn hex_hashes_are_canonical_and_round_trip() {
    let text = "00ff10a5".repeat(8);
    let bytes = parse_hex_hash(&text, "h").unwrap();
    assert_eq!(bytes[0], 0x00);
    assert_eq!(bytes[1], 0xff);
    assert_eq!(bytes[3], 0xa5);
    assert_eq!(bloom_cook::bytes::hex_hash(&bytes), text);
    assert!(validate_hex_hash(&text.to_uppercase(), "h").is_err());
    assert_eq!(
        validate_hex_hash("abc", "manifest build key").unwrap_err().message(),
        "manifest build key is not a canonical lowercase SHA-256"
    );
}

fn sha(bytes: &[u8]) -> [u8; 32] {
    Sha256::digest(bytes).into()
}

#[test]
fn build_keys_hash_the_documented_recipe_bytes() {
    let source = [7u8; 32];
    let mut expected = Vec::new();
    expected.extend_from_slice(b"bloom-geometry-recipe\0");
    expected.extend_from_slice(&3u32.to_le_bytes());
    expected.extend_from_slice(&source);
    for value in [64u32, 124, 65536, 2, 2] {
        expected.extend_from_slice(&value.to_le_bytes());
    }
    assert_eq!(geometry_build_key_sha256(source, 64, 124, 65536, 2, VertexEncoding::Quantized), sha(&expected));

    let base = [9u8; 32];
    assert_eq!(build_key_for_profile(base, None), base);
    let profile = AssetProfile::new("web", "high").unwrap();
    let mut bytes = Vec::new();
    bytes.extend_from_slice(b"bloom-profiled-geometry-recipe\0");
    bytes.extend_from_slice(&1u32.to_le_bytes());
    bytes.extend_from_slice(&base);
    bytes.extend_from_slice(&3u32.to_le_bytes());
    bytes.extend_from_slice(b"web");
    bytes.extend_from_slice(&4u32.to_le_bytes());
    bytes.extend_from_slice(b"high");
    assert_eq!(build_key_for_profile(base, Some(&profile)), sha(&bytes));

    let mut scene = Vec::new();
    scene.extend_from_slice(b"bloom-scene-recipe\0");
    scene.extend_from_slice(&1u32.to_le_bytes());
    scene.extend_from_slice(&base);
    assert_eq!(scene_build_key(base, None), sha(&scene));
    scene.extend_from_slice(b"web\0high");
    assert_eq!(scene_build_key(base, Some(&profile)), sha(&scene));
}

#[test]
fn build_outcomes_record_cache_and_writes() {
    let hit = BuildOutcome::cache_hit();
    assert_eq!(hit.cache(), "hit");
    assert!(!hit.chunk_written && !hit.manifest_written);
    let miss = BuildOutcome::cache_miss(true);
    assert_eq!(miss.cache(), "miss");
    assert!(miss.chunk_written && miss.manifest_written);
}

#[test]
fn every_recipe_setting_and_profile_changes_the_key() {
    let base = geometry_build_key_sha256([7; 32], 64, 124, 65536, 4, VertexEncoding::Float32);
    let variants = [
        geometry_build_key_sha256([8; 32], 64, 124, 65536, 4, VertexEncoding::Float32),
        geometry_build_key_sha256([7; 32], 63, 124, 65536, 4, VertexEncoding::Float32),
        geometry_build_key_sha256([7; 32], 64, 123, 65536, 4, VertexEncoding::Float32),
        geometry_build_key_sha256([7; 32], 64, 124, 32768, 4, VertexEncoding::Float32),
        geometry_build_key_sha256([7; 32], 64, 124, 65536, 3, VertexEncoding::Float32),
        geometry_build_key_sha256([7; 32], 64, 124, 65536, 4, VertexEncoding::Quantized),
    ];
    for v in variants {
        assert_ne!(v, base);
    }
    let high = AssetProfile::new("macos", "high").unwrap();
    let low = AssetProfile::new("macos", "low").unwrap();
    // Length prefixes keep "ab"/"c" apart from "a"/"bc".
    let split_a = AssetProfile::new("ab", "c").unwrap();
    let split_b = AssetProfile::new("a", "bc").unwrap();
    assert_eq!(build_key_for_profile(base, None), base);
    assert_ne!(build_key_for_profile(base, Some(&high)), build_key_for_profile(base, Some(&low)));
    assert_ne!(build_key_for_profile(base, Some(&split_a)), build_key_for_profile(base, Some(&split_b)));
}

use bloom_cook::profile::AssetProfile;
use bloom_cook::texture::{
    build_key_for_profile, cook_texture, is_cookable_extension, CookedTextureInfo, TextureArtifactFormat, TextureBuildOutcome,
    TextureManifestFields, TextureSettings,
};
use sha2::{Digest, Sha256};

fn strings(items: &[&str]) -> Vec<String> {
    items.iter().map(|s| s.to_string()).collect()
}

fn coverage(flags: &[String]) -> Vec<Option<u32>> {
    flags.iter().map(|f| f.parse::<f32>().ok().map(f32::to_bits)).collect()
}

fn parse(items: &[&str]) -> Result<TextureSettings, String> {
    let flags = strings(items);
    TextureSettings::parse(&flags, &coverage(&flags)).map_err(|e| e.message())
}

#[test]
fn portable_profiles_use_capability_neutral_rgba8() {
    let color = parse(&[]).unwrap();
    let data = parse(&["--linear"]).unwrap();
    let normal = parse(&["--normal"]).unwrap();
    let portable = AssetProfile::new("portable", "high").unwrap();
    let macos = AssetProfile::new("macos", "high").unwrap();
    assert_eq!(color.artifact_format(None), TextureArtifactFormat::Bc7Srgb);
    assert_eq!(color.artifact_format(Some(&portable)), TextureArtifactFormat::Rgba8Srgb);
    assert_eq!(data.artifact_format(Some(&portable)), TextureArtifactFormat::Rgba8Linear);
    assert_eq!(color.artifact_format(Some(&macos)), TextureArtifactFormat::Bc7Srgb);
    assert_eq!(normal.artifact_format(Some(&portable)), TextureArtifactFormat::Rgba8NormalVariance);
}

#[test]
fn texture_flags_are_checked_once_each() {
    let normal = parse(&["--normal"]).unwrap();
    assert!(normal.is_normal_map() && normal.linear && !normal.is_srgb());
    let coverage = parse(&["--alpha-coverage", "0.5"]).unwrap();
    assert_eq!(coverage.alpha_coverage_bits, Some(0.5f32.to_bits()));
    assert!(parse(&["--alpha-coverage", "-0"]).is_ok());
    assert_eq!(parse(&["--alpha-coverage"]).unwrap_err(), "--alpha-coverage requires a value");
    assert_eq!(parse(&["--alpha-coverage", "x"]).unwrap_err(), "--alpha-coverage must be a finite non-negative number");
    assert_eq!(parse(&["--alpha-coverage", "-1"]).unwrap_err(), "--alpha-coverage must be a finite non-negative number");
    assert_eq!(parse(&["--alpha-coverage", "inf"]).unwrap_err(), "--alpha-coverage must be a finite non-negative number");
    assert_eq!(parse(&["--alpha-coverage", "NaN"]).unwrap_err(), "--alpha-coverage must be a finite non-negative number");
    assert_eq!(
        parse(&["--alpha-coverage", "1", "--alpha-coverage", "2"]).unwrap_err(),
        "--alpha-coverage may only be specified once"
    );
    assert_eq!(parse(&["--linear", "--linear"]).unwrap_err(), "--linear may only be specified once");
    assert_eq!(parse(&["--bogus"]).unwrap_err(), "unknown texture option \"--bogus\"");
    assert_eq!(
        parse(&["--normal", "--alpha-coverage", "0.5"]).unwrap_err(),
        "normal maps cannot use alpha-coverage mips"
    );
}

fn fields(count: usize, color: Option<&str>, normal: Option<bool>, key: bool, bits: Option<u32>) -> TextureManifestFields {
    TextureManifestFields {
        field_count: count,
        color_space: color.map(str::to_string),
        normal_map: normal,
        has_coverage_key: key,
        coverage_bits: bits,
    }
}

#[test]
fn manifest_settings_are_validated_in_order() {
    let from = |f: Option<TextureManifestFields>| TextureSettings::from_manifest(f.as_ref()).map_err(|e| e.message());
    assert_eq!(
        from(Some(fields(3, Some("srgb"), Some(false), true, None))).unwrap(),
        TextureSettings { normal_map: false, linear: false, alpha_coverage_bits: None }
    );
    assert_eq!(from(None).unwrap_err(), "asset manifest texture settings are missing or not an object");
    assert_eq!(
        from(Some(fields(4, Some("srgb"), Some(false), true, None))).unwrap_err(),
        "asset manifest texture settings have unknown or missing fields"
    );
    assert_eq!(
        from(Some(fields(3, None, Some(false), true, None))).unwrap_err(),
        "asset manifest texture color_space is missing or not a string"
    );
    assert_eq!(
        from(Some(fields(3, Some("srgb"), None, true, None))).unwrap_err(),
        "asset manifest texture normal_map is missing or not a boolean"
    );
    assert_eq!(
        from(Some(fields(3, Some("srgb"), Some(false), false, None))).unwrap_err(),
        "asset manifest alpha coverage reference is invalid"
    );
    assert_eq!(
        from(Some(fields(3, Some("srgb"), Some(false), true, Some((-1.0f32).to_bits())))).unwrap_err(),
        "asset manifest alpha coverage reference is invalid"
    );
    assert_eq!(
        from(Some(fields(3, Some("rgb"), Some(false), true, None))).unwrap_err(),
        "asset manifest has unknown color space \"rgb\""
    );
    assert_eq!(
        from(Some(fields(3, Some("srgb"), Some(true), true, None))).unwrap_err(),
        "normal-map texture manifests must use linear color space"
    );
    assert_eq!(
        from(Some(fields(3, Some("linear"), Some(true), true, Some(0.5f32.to_bits())))).unwrap_err(),
        "normal-map texture manifests cannot use alpha coverage"
    );
}

fn sha(bytes: &[u8]) -> [u8; 32] {
    Sha256::digest(bytes).into()
}

#[test]
fn texture_build_keys_hash_semantics_and_profile() {
    let settings = TextureSettings::from_semantics(false, true, Some(0.5f32.to_bits()));
    assert!(!settings.linear);
    let source = [3u8; 32];
    let mut bytes = Vec::new();
    bytes.extend_from_slice(b"bloom-texture-recipe\0");
    bytes.extend_from_slice(&4u32.to_le_bytes());
    bytes.extend_from_slice(&source);
    bytes.push(0);
    bytes.push(0);
    bytes.extend_from_slice(&0.5f32.to_bits().to_le_bytes());
    assert_eq!(settings.build_key_sha256(source), sha(&bytes));
    let plain = TextureSettings::from_semantics(true, true, None);
    assert!(plain.linear);
    assert_ne!(plain.build_key_sha256(source), settings.build_key_sha256(source));

    let base = [1u8; 32];
    assert_eq!(build_key_for_profile(base, None), base);
    let profile = AssetProfile::new("portable", "low").unwrap();
    let mut profiled = Vec::new();
    profiled.extend_from_slice(b"bloom-profiled-texture-recipe\0");
    profiled.extend_from_slice(&1u32.to_le_bytes());
    profiled.extend_from_slice(&base);
    profiled.extend_from_slice(&8u32.to_le_bytes());
    profiled.extend_from_slice(b"portable");
    profiled.extend_from_slice(&3u32.to_le_bytes());
    profiled.extend_from_slice(b"low");
    assert_eq!(build_key_for_profile(base, Some(&profile)), sha(&profiled));
}

#[test]
fn texture_formats_outcomes_and_reports() {
    assert_eq!(TextureArtifactFormat::Bc7Srgb.name(), "bc7-rgba-unorm-srgb");
    assert_eq!(TextureArtifactFormat::Rgba8NormalVariance.name(), "rgba8-unorm-normal-variance");
    assert!(TextureArtifactFormat::Bc7Linear.is_block_compressed());
    assert!(!TextureArtifactFormat::Rgba8Linear.is_block_compressed());
    assert_eq!(TextureBuildOutcome::cache_hit().cache(), "hit");
    assert!(TextureBuildOutcome::cache_miss(false).manifest_written);
    let report = cook_texture(
        "in.png",
        "out.dds",
        5000,
        CookedTextureInfo { bytes: 2048, width: 64, height: 32, mip_levels: 7 },
    );
    assert_eq!(report, "in.png -> out.dds (4 KB -> 2 KB, 64x32, 7 mips)");
}

#[test]
fn directory_cook_picks_up_image_extensions_in_any_case() {
    for ext in ["png", "PNG", "jpg", "Jpeg", "bmp", "TGA"] {
        assert!(is_cookable_extension(ext), "{ext}");
    }
    for ext in ["", "gif", "pngx", "dds", "jp"] {
        assert!(!is_cookable_extension(ext), "{ext}");
    }
}

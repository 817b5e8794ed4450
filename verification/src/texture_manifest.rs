//! The contract of a cooked-texture manifest: the recipe it records and a
//! build key that must be the key of that recipe.

use vstd::prelude::*;
use crate::bytes::{hex_hash, hex_text, sha256_digest};
use crate::manifest::{opt_chars, read_schema_profile, schema_profile, ManifestError, ManifestErrorView, ProfileFields};
use crate::profile::ProfileId;
use crate::store::{hex_bytes, is_hex_hash, parse_hex_hash, profiled_key, validate_hex_hash, StoreErrorView, TEXTURE_RECIPE_VERSION};
use crate::text::{owned_text, text_eq};
use crate::texture::{manifest_fields_view, manifest_settings, texture_key_bytes, TextureManifestFields, TextureSettings};

verus! {

/// The fields of a texture manifest that its contract reads; a field that
/// is missing or of another JSON type reads as `None`.
pub struct TextureManifestRecord {
    pub schema: Option<String>,
    /// `None` when the manifest has no `profile` key; `Some(None)` when the
    /// value is not an object.
    pub profile: Option<Option<ProfileFields>>,
    pub recipe_name: Option<String>,
    pub recipe_version: Option<u64>,
    pub source_sha256: Option<String>,
    /// The hash of the one dependency when `dependencies` is exactly
    /// `[{"kind": "source-file", "sha256": HASH}]`.
    pub source_file_dependency: Option<String>,
    /// `None` when the manifest has no `settings`; `Some(None)` when they
    /// are not an object.
    pub settings: Option<Option<TextureManifestFields>>,
    pub build_key_sha256: Option<String>,
}

/// What a valid texture manifest establishes.
pub struct TextureManifestContract {
    pub build_key_sha256: String,
    pub source_sha256: [u8; 32],
    pub settings: TextureSettings,
}

/// The settings field as plain values.
pub open spec fn settings_view(s: Option<Option<TextureManifestFields>>) -> Option<Option<(nat, Option<Seq<char>>, Option<bool>, bool, Option<u32>)>> {
    match s {
        None => None,
        Some(None) => Some(None),
        Some(Some(f)) => Some(manifest_fields_view(Some(&f))),
    }
}

/// The build key of texture settings applied to a source, for a profile,
/// as hex text.
pub open spec fn texture_key_text(settings: TextureSettings, source: Seq<u8>, profile: Option<ProfileId>) -> Seq<char> {
    hex_text(profiled_key("bloom-profiled-texture-recipe"@, sha256_digest(texture_key_bytes(settings, source)), profile))
}

/// The outcome of checking the recipe a texture manifest records, in the
/// order the checks run.
pub open spec fn texture_contract_check(f: &TextureManifestRecord) -> Result<(Seq<char>, Seq<u8>, TextureSettings), ManifestErrorView> {
    if f.recipe_name is None {
        Err(ManifestErrorView::FieldNotString { pointer: "/recipe/name"@ })
    } else if f.recipe_name->0@ != "bloom-texture"@ {
        Err(ManifestErrorView::UnsupportedTextureRecipe)
    } else if f.recipe_version is None {
        Err(ManifestErrorView::FieldNotInteger { pointer: "/recipe/version"@ })
    } else if f.recipe_version->0 != TEXTURE_RECIPE_VERSION {
        Err(ManifestErrorView::UnsupportedTextureRecipe)
    } else if f.source_sha256 is None {
        Err(ManifestErrorView::FieldNotString { pointer: "/source/sha256"@ })
    } else if !is_hex_hash(f.source_sha256->0@) {
        Err(ManifestErrorView::Hash(StoreErrorView::NonCanonicalHash { label: "manifest source hash"@ }))
    } else if opt_chars(f.source_file_dependency) != Some(f.source_sha256->0@) {
        Err(ManifestErrorView::NonCanonicalDependencies)
    } else {
        match settings_view(f.settings) {
            None => Err(ManifestErrorView::TextureSettingsMissing),
            Some(fields) => match manifest_settings(fields) {
                Err(e) => Err(ManifestErrorView::TextureSettings(e)),
                Ok(settings) => if f.build_key_sha256 is None {
                    Err(ManifestErrorView::FieldNotString { pointer: "/build_key_sha256"@ })
                } else if !is_hex_hash(f.build_key_sha256->0@) {
                    Err(ManifestErrorView::Hash(StoreErrorView::NonCanonicalHash { label: "manifest build key"@ }))
                } else {
                    match schema_profile(opt_chars(f.schema), f.profile) {
                        Err(e) => Err(e),
                        Ok(profile) => {
                            let source = hex_bytes(f.source_sha256->0@);
                            let actual = texture_key_text(settings, source, profile);
                            let declared = f.build_key_sha256->0@;
                            if actual != declared {
                                Err(ManifestErrorView::KeyMismatch { declared, actual })
                            } else {
                                Ok((declared, source, settings))
                            }
                        },
                    }
                },
            },
        }
    }
}

/// Checks the recipe a texture manifest records and that its build key is
/// the key of that recipe.
pub fn validate_texture_manifest_contract(fields: &TextureManifestRecord) -> (result: Result<TextureManifestContract, ManifestError>)
    ensures
        match texture_contract_check(fields) {
            Ok((key, source, settings)) => result matches Ok(c) && c.build_key_sha256@ == key
                && c.source_sha256@ == source && c.settings == settings,
            Err(e) => result matches Err(err) && err@ == e,
        },
{
    let name = match &fields.recipe_name {
        Some(n) => n.as_str(),
        None => return Err(ManifestError::FieldNotString { pointer: owned_text("/recipe/name") }),
    };
    if !text_eq(name, "bloom-texture") {
        return Err(ManifestError::UnsupportedTextureRecipe);
    }
    let version = match fields.recipe_version {
        Some(v) => v,
        None => return Err(ManifestError::FieldNotInteger { pointer: owned_text("/recipe/version") }),
    };
    if version != TEXTURE_RECIPE_VERSION as u64 {
        return Err(ManifestError::UnsupportedTextureRecipe);
    }
    let source_text = match &fields.source_sha256 {
        Some(s) => s.as_str(),
        None => return Err(ManifestError::FieldNotString { pointer: owned_text("/source/sha256") }),
    };
    let source = match parse_hex_hash(source_text, "manifest source hash") {
        Ok(b) => b,
        Err(e) => return Err(ManifestError::Hash(e)),
    };
    let canonical = match &fields.source_file_dependency {
        Some(d) => text_eq(d.as_str(), source_text),
        None => false,
    };
    if !canonical {
        return Err(ManifestError::NonCanonicalDependencies);
    }
    let settings = match &fields.settings {
        None => return Err(ManifestError::TextureSettingsMissing),
        Some(value) => match TextureSettings::from_manifest(value.as_ref()) {
            Ok(s) => s,
            Err(e) => return Err(ManifestError::TextureSettings(e)),
        },
    };
    let declared = match &fields.build_key_sha256 {
        Some(k) => k.as_str(),
        None => return Err(ManifestError::FieldNotString { pointer: owned_text("/build_key_sha256") }),
    };
    match validate_hex_hash(declared, "manifest build key") {
        Ok(()) => {},
        Err(e) => return Err(ManifestError::Hash(e)),
    }
    let base = settings.build_key_sha256(source);
    let profile = match read_schema_profile(&fields.schema, &fields.profile) {
        Ok(p) => p,
        Err(e) => return Err(e),
    };
    let key = match &profile {
        Some(p) => crate::texture::build_key_for_profile(base, Some(p)),
        None => crate::texture::build_key_for_profile(base, None),
    };
    let actual = hex_hash(&key);
    if !text_eq(actual.as_str(), declared) {
        return Err(ManifestError::KeyMismatch { declared: owned_text(declared), actual });
    }
    Ok(TextureManifestContract { build_key_sha256: owned_text(declared), source_sha256: source, settings })
}

} // verus!

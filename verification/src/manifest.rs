//! The contract of a cooked-geometry manifest: its identity (schema,
//! profile, kind, logical ID) and the recipe it records, down to the build
//! key that must match the recipe.
//!
//! The manifest's JSON fields are read into [`GeometryManifestFields`]
//! first; a field that is missing or of another JSON type reads as `None`.

use vstd::prelude::*;
use crate::bytes::{hex_text, sha256_digest};
use crate::options::{limits_error_text, limits_refusal, limits_valid, LimitsError, MeshletLimits};
use crate::profile::{profile_error_text, AssetProfile, ProfileError, ProfileErrorView, ProfileId, new_profile_error};
use crate::store::{
    build_key_for_profile, geometry_build_key_sha256, geometry_key_bytes, hex_bytes, is_hex_hash, parse_hex_hash,
    profiled_key, store_error_text, validate_hex_hash, StoreError, StoreErrorView, VertexEncoding,
    GEOMETRY_RECIPE_VERSION,
};
use crate::bytes::hex_hash;
use crate::text::{concat3, debug_quoted, debug_text, owned_text, text_eq};
use crate::texture::{texture_error_text, TextureError, TextureErrorView};

verus! {

/// The fields of a manifest's `profile` object.
#[derive(Debug)]
pub struct ProfileFields {
    pub field_count: usize,
    pub platform: Option<String>,
    pub quality: Option<String>,
}

/// The fields of a geometry manifest that its checks read.
#[derive(Debug)]
pub struct GeometryManifestFields {
    pub schema: Option<String>,
    /// `None` when the manifest has no `profile` key; `Some(None)` when the
    /// value is not an object.
    pub profile: Option<Option<ProfileFields>>,
    pub kind: Option<String>,
    pub logical_id: Option<String>,
    pub recipe_name: Option<String>,
    pub recipe_version: Option<u64>,
    pub source_sha256: Option<String>,
    /// The hash of the one dependency when `dependencies` is exactly
    /// `[{"kind": "source-closure", "sha256": HASH}]`.
    pub source_closure_dependency: Option<String>,
    /// The field count of `settings` when it is an object.
    pub settings_field_count: Option<usize>,
    pub max_vertices: Option<u64>,
    pub max_triangles: Option<u64>,
    pub page_budget_bytes: Option<u64>,
    pub hierarchy_levels: Option<u64>,
    pub vertex_format: Option<String>,
    pub build_key_sha256: Option<String>,
}

/// Why a manifest was refused.
#[derive(Debug)]
pub enum ManifestError {
    FieldNotString { pointer: String },
    FieldNotInteger { pointer: String },
    FieldExceedsU32 { pointer: String },
    UnsupportedRecipe,
    Hash(StoreError),
    NonCanonicalDependencies,
    SettingsNotObject,
    SettingsFieldCount,
    Limits(LimitsError),
    InvalidPageBudget,
    TooManyLevels,
    UnknownVertexFormat { value: String },
    KeyMismatch { declared: String, actual: String },
    V1WithProfile,
    MissingProfile,
    UnsupportedSchema,
    ProfileNotObject,
    ProfileFieldCount,
    ProfilePlatformMissing,
    ProfileQualityMissing,
    Profile(ProfileError),
    ProfileMismatch,
    KindNotGeometry,
    LogicalIdMismatch,
    UnsupportedTextureRecipe,
    TextureSettingsMissing,
    TextureSettings(TextureError),
    NonCanonicalArtifactPath { path: String, canonical: String },
    FormatVersionExceedsU32,
    /// The manifest at `path` is not JSON; `detail` says why.
    Unparsable { path: String, detail: String },
}

/// A manifest error as plain values.
pub enum ManifestErrorView {
    FieldNotString { pointer: Seq<char> },
    FieldNotInteger { pointer: Seq<char> },
    FieldExceedsU32 { pointer: Seq<char> },
    UnsupportedRecipe,
    Hash(StoreErrorView),
    NonCanonicalDependencies,
    SettingsNotObject,
    SettingsFieldCount,
    Limits(LimitsError),
    InvalidPageBudget,
    TooManyLevels,
    UnknownVertexFormat { value: Seq<char> },
    KeyMismatch { declared: Seq<char>, actual: Seq<char> },
    V1WithProfile,
    MissingProfile,
    UnsupportedSchema,
    ProfileNotObject,
    ProfileFieldCount,
    ProfilePlatformMissing,
    ProfileQualityMissing,
    Profile(ProfileErrorView),
    ProfileMismatch,
    KindNotGeometry,
    LogicalIdMismatch,
    UnsupportedTextureRecipe,
    TextureSettingsMissing,
    TextureSettings(TextureErrorView),
    NonCanonicalArtifactPath { path: Seq<char>, canonical: Seq<char> },
    FormatVersionExceedsU32,
    Unparsable { path: Seq<char>, detail: Seq<char> },
}

impl View for ManifestError {
    type V = ManifestErrorView;

    open spec fn view(&self) -> ManifestErrorView {
        match self {
            ManifestError::FieldNotString { pointer } => ManifestErrorView::FieldNotString { pointer: pointer@ },
            ManifestError::FieldNotInteger { pointer } => ManifestErrorView::FieldNotInteger { pointer: pointer@ },
            ManifestError::FieldExceedsU32 { pointer } => ManifestErrorView::FieldExceedsU32 { pointer: pointer@ },
            ManifestError::UnsupportedRecipe => ManifestErrorView::UnsupportedRecipe,
            ManifestError::Hash(e) => ManifestErrorView::Hash(e@),
            ManifestError::NonCanonicalDependencies => ManifestErrorView::NonCanonicalDependencies,
            ManifestError::SettingsNotObject => ManifestErrorView::SettingsNotObject,
            ManifestError::SettingsFieldCount => ManifestErrorView::SettingsFieldCount,
            ManifestError::Limits(e) => ManifestErrorView::Limits(*e),
            ManifestError::InvalidPageBudget => ManifestErrorView::InvalidPageBudget,
            ManifestError::TooManyLevels => ManifestErrorView::TooManyLevels,
            ManifestError::UnknownVertexFormat { value } => ManifestErrorView::UnknownVertexFormat { value: value@ },
            ManifestError::KeyMismatch { declared, actual } =>
                ManifestErrorView::KeyMismatch { declared: declared@, actual: actual@ },
            ManifestError::V1WithProfile => ManifestErrorView::V1WithProfile,
            ManifestError::MissingProfile => ManifestErrorView::MissingProfile,
            ManifestError::UnsupportedSchema => ManifestErrorView::UnsupportedSchema,
            ManifestError::ProfileNotObject => ManifestErrorView::ProfileNotObject,
            ManifestError::ProfileFieldCount => ManifestErrorView::ProfileFieldCount,
            ManifestError::ProfilePlatformMissing => ManifestErrorView::ProfilePlatformMissing,
            ManifestError::ProfileQualityMissing => ManifestErrorView::ProfileQualityMissing,
            ManifestError::Profile(e) => ManifestErrorView::Profile(e@),
            ManifestError::ProfileMismatch => ManifestErrorView::ProfileMismatch,
            ManifestError::KindNotGeometry => ManifestErrorView::KindNotGeometry,
            ManifestError::LogicalIdMismatch => ManifestErrorView::LogicalIdMismatch,
            ManifestError::UnsupportedTextureRecipe => ManifestErrorView::UnsupportedTextureRecipe,
            ManifestError::TextureSettingsMissing => ManifestErrorView::TextureSettingsMissing,
            ManifestError::TextureSettings(e) => ManifestErrorView::TextureSettings(e@),
            ManifestError::NonCanonicalArtifactPath { path, canonical } =>
                ManifestErrorView::NonCanonicalArtifactPath { path: path@, canonical: canonical@ },
            ManifestError::FormatVersionExceedsU32 => ManifestErrorView::FormatVersionExceedsU32,
            ManifestError::Unparsable { path, detail } =>
                ManifestErrorView::Unparsable { path: path@, detail: detail@ },
        }
    }
}

/// The text of a manifest error.
pub open spec fn manifest_error_text(e: ManifestErrorView) -> Seq<char> {
    match e {
        ManifestErrorView::FieldNotString { pointer } => "asset manifest field "@ + pointer + " is missing or not a string"@,
        ManifestErrorView::FieldNotInteger { pointer } => "asset manifest field "@ + pointer + " is missing or not an integer"@,
        ManifestErrorView::FieldExceedsU32 { pointer } => "asset manifest field "@ + pointer + " exceeds u32"@,
        ManifestErrorView::UnsupportedRecipe => "asset manifest has an unsupported geometry recipe"@,
        ManifestErrorView::Hash(s) => store_error_text(s),
        ManifestErrorView::NonCanonicalDependencies => "asset manifest has non-canonical dependencies"@,
        ManifestErrorView::SettingsNotObject => "asset manifest geometry settings are missing or not an object"@,
        ManifestErrorView::SettingsFieldCount => "asset manifest geometry settings have unknown or missing fields"@,
        ManifestErrorView::Limits(l) => limits_error_text(l),
        ManifestErrorView::InvalidPageBudget => "asset manifest geometry page budget is invalid"@,
        ManifestErrorView::TooManyLevels => "asset manifest geometry hierarchy level count exceeds 16"@,
        ManifestErrorView::UnknownVertexFormat { value } => "asset manifest has unknown vertex format "@ + debug_text(value),
        ManifestErrorView::KeyMismatch { declared, actual } =>
            "asset manifest build key mismatch: declared "@ + declared + ", actual "@ + actual,
        ManifestErrorView::V1WithProfile => "v1 asset manifest may not declare a profile"@,
        ManifestErrorView::MissingProfile => "profiled asset manifest is missing its profile"@,
        ManifestErrorView::UnsupportedSchema => "unsupported asset manifest schema"@,
        ManifestErrorView::ProfileNotObject => "asset profile is missing or not an object"@,
        ManifestErrorView::ProfileFieldCount => "asset profile has unknown or missing fields"@,
        ManifestErrorView::ProfilePlatformMissing => "asset profile platform is missing or not a string"@,
        ManifestErrorView::ProfileQualityMissing => "asset profile quality is missing or not a string"@,
        ManifestErrorView::Profile(p) => profile_error_text(p),
        ManifestErrorView::ProfileMismatch => "asset manifest profile does not match its path"@,
        ManifestErrorView::KindNotGeometry => "asset manifest kind is not geometry"@,
        ManifestErrorView::LogicalIdMismatch => "asset manifest logical ID does not match its path"@,
        ManifestErrorView::UnsupportedTextureRecipe => "asset manifest has an unsupported texture recipe"@,
        ManifestErrorView::TextureSettingsMissing => "asset manifest texture settings are missing"@,
        ManifestErrorView::TextureSettings(t) => texture_error_text(t),
        ManifestErrorView::NonCanonicalArtifactPath { path, canonical } =>
            "manifest artifact path "@ + debug_text(path) + " is not canonical "@ + debug_text(canonical),
        ManifestErrorView::FormatVersionExceedsU32 => "manifest artifact format version exceeds u32"@,
        ManifestErrorView::Unparsable { path, detail } => "parse manifest "@ + path + ": "@ + detail,
    }
}

impl ManifestError {
    /// The human-readable text of this error.
    pub fn message(&self) -> (text: String)
        ensures
            text@ == manifest_error_text(self@),
    {
        match self {
            ManifestError::FieldNotString { pointer } => concat3("asset manifest field ", pointer.as_str(), " is missing or not a string"),
            ManifestError::FieldNotInteger { pointer } => concat3("asset manifest field ", pointer.as_str(), " is missing or not an integer"),
            ManifestError::FieldExceedsU32 { pointer } => concat3("asset manifest field ", pointer.as_str(), " exceeds u32"),
            ManifestError::UnsupportedRecipe => owned_text("asset manifest has an unsupported geometry recipe"),
            ManifestError::Hash(e) => e.message(),
            ManifestError::NonCanonicalDependencies => owned_text("asset manifest has non-canonical dependencies"),
            ManifestError::SettingsNotObject => owned_text("asset manifest geometry settings are missing or not an object"),
            ManifestError::SettingsFieldCount => owned_text("asset manifest geometry settings have unknown or missing fields"),
            ManifestError::Limits(e) => e.message(),
            ManifestError::InvalidPageBudget => owned_text("asset manifest geometry page budget is invalid"),
            ManifestError::TooManyLevels => owned_text("asset manifest geometry hierarchy level count exceeds 16"),
            ManifestError::UnknownVertexFormat { value } => {
                let q = debug_quoted(value.as_str());
                let mut out = owned_text("asset manifest has unknown vertex format ");
                out.append(q.as_str());
                out
            },
            ManifestError::KeyMismatch { declared, actual } => {
                let mut out = concat3("asset manifest build key mismatch: declared ", declared.as_str(), ", actual ");
                out.append(actual.as_str());
                out
            },
            ManifestError::V1WithProfile => owned_text("v1 asset manifest may not declare a profile"),
            ManifestError::MissingProfile => owned_text("profiled asset manifest is missing its profile"),
            ManifestError::UnsupportedSchema => owned_text("unsupported asset manifest schema"),
            ManifestError::ProfileNotObject => owned_text("asset profile is missing or not an object"),
            ManifestError::ProfileFieldCount => owned_text("asset profile has unknown or missing fields"),
            ManifestError::ProfilePlatformMissing => owned_text("asset profile platform is missing or not a string"),
            ManifestError::ProfileQualityMissing => owned_text("asset profile quality is missing or not a string"),
            ManifestError::Profile(e) => e.message(),
            ManifestError::ProfileMismatch => owned_text("asset manifest profile does not match its path"),
            ManifestError::KindNotGeometry => owned_text("asset manifest kind is not geometry"),
            ManifestError::LogicalIdMismatch => owned_text("asset manifest logical ID does not match its path"),
            ManifestError::UnsupportedTextureRecipe => owned_text("asset manifest has an unsupported texture recipe"),
            ManifestError::TextureSettingsMissing => owned_text("asset manifest texture settings are missing"),
            ManifestError::TextureSettings(e) => e.message(),
            ManifestError::NonCanonicalArtifactPath { path, canonical } => {
                let mut out = owned_text("manifest artifact path ");
                let p = debug_quoted(path.as_str());
                out.append(p.as_str());
                out.append(" is not canonical ");
                let c = debug_quoted(canonical.as_str());
                out.append(c.as_str());
                out
            },
            ManifestError::FormatVersionExceedsU32 => owned_text("manifest artifact format version exceeds u32"),
            ManifestError::Unparsable { path, detail } => {
                let mut out = concat3("parse manifest ", path.as_str(), ": ");
                out.append(detail.as_str());
                out
            },
        }
    }
}

/// The characters of an optional string.
pub open spec fn opt_chars(s: Option<String>) -> Option<Seq<char>> {
    match s {
        Some(t) => Some(t@),
        None => None,
    }
}

/// The profile a `profile` object names.
pub open spec fn profile_of_fields(f: Option<ProfileFields>) -> Result<ProfileId, ManifestErrorView> {
    match f {
        None => Err(ManifestErrorView::ProfileNotObject),
        Some(p) => if p.field_count != 2 {
            Err(ManifestErrorView::ProfileFieldCount)
        } else if p.platform is None {
            Err(ManifestErrorView::ProfilePlatformMissing)
        } else if p.quality is None {
            Err(ManifestErrorView::ProfileQualityMissing)
        } else {
            let platform = p.platform->0@;
            let quality = p.quality->0@;
            if crate::profile::is_profile_component(platform) && crate::profile::is_profile_component(quality) {
                Ok(ProfileId { platform, quality })
            } else {
                Err(ManifestErrorView::Profile(new_profile_error(platform, quality)))
            }
        },
    }
}

/// Reads a profile from its JSON fields (`None` when it is not an object).
pub fn profile_from_fields(fields: &Option<ProfileFields>) -> (result: Result<AssetProfile, ManifestError>)
    ensures
        match profile_of_fields(*fields) {
            Ok(p) => result matches Ok(q) && q@ == p,
            Err(e) => result matches Err(err) && err@ == e,
        },
{
    let f = match fields {
        Some(f) => f,
        None => return Err(ManifestError::ProfileNotObject),
    };
    if f.field_count != 2 {
        return Err(ManifestError::ProfileFieldCount);
    }
    let platform = match &f.platform {
        Some(p) => p.as_str(),
        None => return Err(ManifestError::ProfilePlatformMissing),
    };
    let quality = match &f.quality {
        Some(q) => q.as_str(),
        None => return Err(ManifestError::ProfileQualityMissing),
    };
    match AssetProfile::new(platform, quality) {
        Ok(p) => Ok(p),
        Err(e) => Err(ManifestError::Profile(e)),
    }
}

/// The profile a manifest with this `schema` and `profile` declares.
pub open spec fn schema_profile(schema: Option<Seq<char>>, profile: Option<Option<ProfileFields>>) -> Result<Option<ProfileId>, ManifestErrorView> {
    match schema {
        None => Err(ManifestErrorView::FieldNotString { pointer: "/schema"@ }),
        Some(s) => if s == "bloom-asset-manifest-v1"@ {
            if profile is Some { Err(ManifestErrorView::V1WithProfile) } else { Ok(None) }
        } else if s == "bloom-asset-manifest-v2"@ {
            match profile {
                None => Err(ManifestErrorView::MissingProfile),
                Some(p) => match profile_of_fields(p) {
                    Ok(id) => Ok(Some(id)),
                    Err(e) => Err(e),
                },
            }
        } else {
            Err(ManifestErrorView::UnsupportedSchema)
        },
    }
}

/// The profile a manifest declares, by its schema.
pub open spec fn declared_profile(f: &GeometryManifestFields) -> Result<Option<ProfileId>, ManifestErrorView> {
    schema_profile(opt_chars(f.schema), f.profile)
}

/// Reads the profile a manifest with this `schema` and `profile` declares.
pub fn read_schema_profile(schema: &Option<String>, profile: &Option<Option<ProfileFields>>) -> (result: Result<Option<AssetProfile>, ManifestError>)
    ensures
        match schema_profile(opt_chars(*schema), *profile) {
            Ok(p) => result matches Ok(q) && match q { Some(a) => p == Some(a@), None => p is None },
            Err(e) => result matches Err(err) && err@ == e,
        },
{
    let schema = match schema {
        Some(s) => s.as_str(),
        None => return Err(ManifestError::FieldNotString { pointer: owned_text("/schema") }),
    };
    if text_eq(schema, "bloom-asset-manifest-v1") {
        if profile.is_some() {
            return Err(ManifestError::V1WithProfile);
        }
        Ok(None)
    } else if text_eq(schema, "bloom-asset-manifest-v2") {
        match profile {
            None => Err(ManifestError::MissingProfile),
            Some(p) => match profile_from_fields(p) {
                Ok(profile) => Ok(Some(profile)),
                Err(e) => Err(e),
            },
        }
    } else {
        Err(ManifestError::UnsupportedSchema)
    }
}

/// The profile a manifest declares: none for a `v1` manifest, its
/// `profile` object for a `v2` manifest.
pub fn manifest_profile(fields: &GeometryManifestFields) -> (result: Result<Option<AssetProfile>, ManifestError>)
    ensures
        match declared_profile(fields) {
            Ok(p) => result matches Ok(q) && match q { Some(a) => p == Some(a@), None => p is None },
            Err(e) => result matches Err(err) && err@ == e,
        },
{
    read_schema_profile(&fields.schema, &fields.profile)
}

/// The outcome of checking a manifest's identity against where it was found.
pub open spec fn identity_check(f: &GeometryManifestFields, logical_id: Seq<char>, expected: Option<ProfileId>) -> Result<(), ManifestErrorView> {
    match declared_profile(f) {
        Err(e) => Err(e),
        Ok(p) => if p != expected {
            Err(ManifestErrorView::ProfileMismatch)
        } else if f.kind is None {
            Err(ManifestErrorView::FieldNotString { pointer: "/kind"@ })
        } else if f.kind->0@ != "geometry"@ {
            Err(ManifestErrorView::KindNotGeometry)
        } else if f.logical_id is None {
            Err(ManifestErrorView::FieldNotString { pointer: "/logical_id"@ })
        } else if f.logical_id->0@ != logical_id {
            Err(ManifestErrorView::LogicalIdMismatch)
        } else {
            Ok(())
        },
    }
}

/// Checks that a manifest is the geometry manifest of `logical_id` and
/// `expected_profile`, as its path says.
pub fn validate_manifest_identity(fields: &GeometryManifestFields, logical_id: &str, expected_profile: Option<&AssetProfile>) -> (result: Result<(), ManifestError>)
    ensures
        match identity_check(fields, logical_id@, match expected_profile { Some(p) => Some(p@), None => None }) {
            Ok(()) => result is Ok,
            Err(e) => result matches Err(err) && err@ == e,
        },
{
    let actual = match manifest_profile(fields) {
        Ok(p) => p,
        Err(e) => return Err(e),
    };
    let same = match (&actual, expected_profile) {
        (None, None) => true,
        (Some(a), Some(b)) => a.same_as(b),
        _ => false,
    };
    if !same {
        return Err(ManifestError::ProfileMismatch);
    }
    let kind = match &fields.kind {
        Some(k) => k.as_str(),
        None => return Err(ManifestError::FieldNotString { pointer: owned_text("/kind") }),
    };
    if !text_eq(kind, "geometry") {
        return Err(ManifestError::KindNotGeometry);
    }
    let id = match &fields.logical_id {
        Some(i) => i.as_str(),
        None => return Err(ManifestError::FieldNotString { pointer: owned_text("/logical_id") }),
    };
    if !text_eq(id, logical_id) {
        return Err(ManifestError::LogicalIdMismatch);
    }
    Ok(())
}

/// Whether `v` is a power of two.
pub open spec fn power_of_two(v: nat) -> bool
    decreases v,
{
    if v == 0 { false } else if v == 1 { true } else { v % 2 == 0 && power_of_two(v / 2) }
}

fn is_power_of_two(v: u32) -> (p: bool)
    ensures
        p == power_of_two(v as nat),
{
    let mut x = v;
    while x > 1 && x % 2 == 0
        invariant
            power_of_two(v as nat) == power_of_two(x as nat),
        decreases x,
    {
        x = x / 2;
    }
    x == 1
}

/// What a valid geometry manifest establishes.
#[derive(Debug)]
pub struct ManifestContract {
    pub build_key_sha256: String,
    pub source_sha256: [u8; 32],
    pub vertex_encoding: VertexEncoding,
}

/// A `u32` manifest field, or the error it gets.
pub open spec fn u32_field(v: Option<u64>, pointer: Seq<char>) -> Result<u32, ManifestErrorView> {
    match v {
        None => Err(ManifestErrorView::FieldNotInteger { pointer }),
        Some(x) => if x > u32::MAX { Err(ManifestErrorView::FieldExceedsU32 { pointer }) } else { Ok(x as u32) },
    }
}

fn read_u32_field(v: Option<u64>, pointer: &str) -> (result: Result<u32, ManifestError>)
    ensures
        match u32_field(v, pointer@) {
            Ok(x) => result matches Ok(y) && y == x,
            Err(e) => result matches Err(err) && err@ == e,
        },
{
    match v {
        None => Err(ManifestError::FieldNotInteger { pointer: owned_text(pointer) }),
        Some(x) => if x > 0xffff_ffffu64 {
            Err(ManifestError::FieldExceedsU32 { pointer: owned_text(pointer) })
        } else {
            Ok(x as u32)
        },
    }
}

/// The build key a manifest's recipe gives, as hex text.
pub open spec fn recipe_key_text(source: Seq<u8>, limits: MeshletLimits, page: u32, levels: u32, e: VertexEncoding, profile: Option<ProfileId>) -> Seq<char> {
    hex_text(profiled_key(
        "bloom-profiled-geometry-recipe"@,
        sha256_digest(geometry_key_bytes(source, limits.max_vertices, limits.max_triangles, page, levels, e)),
        profile,
    ))
}

/// The settings a manifest's recipe records, once its fields check out.
pub struct RecipeSettings {
    pub limits: MeshletLimits,
    pub page: u32,
    pub levels: u32,
    pub encoding: VertexEncoding,
}

/// The recipe settings of a manifest, checked in order.
pub open spec fn recipe_settings(f: &GeometryManifestFields, min_page: u32, max_page: u32) -> Result<RecipeSettings, ManifestErrorView> {
    if f.settings_field_count is None {
        Err(ManifestErrorView::SettingsNotObject)
    } else if f.settings_field_count->0 != 5 {
        Err(ManifestErrorView::SettingsFieldCount)
    } else {
        match u32_field(f.max_vertices, "/settings/max_vertices_per_meshlet"@) {
            Err(e) => Err(e),
            Ok(mv) => match u32_field(f.max_triangles, "/settings/max_triangles_per_meshlet"@) {
                Err(e) => Err(e),
                Ok(mt) => {
                    let limits = MeshletLimits { max_vertices: mv, max_triangles: mt };
                    if !limits_valid(limits) {
                        Err(ManifestErrorView::Limits(limits_refusal(limits)))
                    } else {
                        match u32_field(f.page_budget_bytes, "/settings/page_budget_bytes"@) {
                            Err(e) => Err(e),
                            Ok(page) => if !(min_page <= page <= max_page) || !power_of_two(page as nat) {
                                Err(ManifestErrorView::InvalidPageBudget)
                            } else {
                                match u32_field(f.hierarchy_levels, "/settings/hierarchy_levels"@) {
                                    Err(e) => Err(e),
                                    Ok(levels) => if levels > 16 {
                                        Err(ManifestErrorView::TooManyLevels)
                                    } else {
                                        match opt_chars(f.vertex_format) {
                                            None => Err(ManifestErrorView::FieldNotString { pointer: "/settings/vertex_format"@ }),
                                            Some(v) => if v == "float32"@ {
                                                Ok(RecipeSettings { limits, page, levels, encoding: VertexEncoding::Float32 })
                                            } else if v == "quantized32"@ {
                                                Ok(RecipeSettings { limits, page, levels, encoding: VertexEncoding::Quantized })
                                            } else {
                                                Err(ManifestErrorView::UnknownVertexFormat { value: v })
                                            },
                                        }
                                    },
                                }
                            },
                        }
                    }
                },
            },
        }
    }
}

/// The outcome of checking the recipe a manifest records; `min_page` and
/// `max_page` are the page budgets the geometry format allows.
pub open spec fn contract_check(f: &GeometryManifestFields, min_page: u32, max_page: u32) -> Result<(Seq<char>, Seq<u8>, VertexEncoding), ManifestErrorView> {
    if f.recipe_name is None {
        Err(ManifestErrorView::FieldNotString { pointer: "/recipe/name"@ })
    } else if f.recipe_name->0@ != "bloom-geometry"@ {
        Err(ManifestErrorView::UnsupportedRecipe)
    } else if f.recipe_version is None {
        Err(ManifestErrorView::FieldNotInteger { pointer: "/recipe/version"@ })
    } else if f.recipe_version->0 != GEOMETRY_RECIPE_VERSION {
        Err(ManifestErrorView::UnsupportedRecipe)
    } else if f.source_sha256 is None {
        Err(ManifestErrorView::FieldNotString { pointer: "/source/sha256"@ })
    } else if !is_hex_hash(f.source_sha256->0@) {
        Err(ManifestErrorView::Hash(StoreErrorView::NonCanonicalHash { label: "manifest source hash"@ }))
    } else if opt_chars(f.source_closure_dependency) != Some(f.source_sha256->0@) {
        Err(ManifestErrorView::NonCanonicalDependencies)
    } else {
        match recipe_settings(f, min_page, max_page) {
            Err(e) => Err(e),
            Ok(r) => if f.build_key_sha256 is None {
                Err(ManifestErrorView::FieldNotString { pointer: "/build_key_sha256"@ })
            } else if !is_hex_hash(f.build_key_sha256->0@) {
                Err(ManifestErrorView::Hash(StoreErrorView::NonCanonicalHash { label: "manifest build key"@ }))
            } else {
                match declared_profile(f) {
                    Err(e) => Err(e),
                    Ok(profile) => {
                        let source = hex_bytes(f.source_sha256->0@);
                        let actual = recipe_key_text(source, r.limits, r.page, r.levels, r.encoding, profile);
                        let declared = f.build_key_sha256->0@;
                        if actual != declared {
                            Err(ManifestErrorView::KeyMismatch { declared, actual })
                        } else {
                            Ok((declared, source, r.encoding))
                        }
                    },
                }
            },
        }
    }
}

fn read_recipe_settings(f: &GeometryManifestFields, min_page: u32, max_page: u32) -> (result: Result<(MeshletLimits, u32, u32, VertexEncoding), ManifestError>)
    ensures
        match recipe_settings(f, min_page, max_page) {
            Ok(r) => result matches Ok(t) && t == (r.limits, r.page, r.levels, r.encoding),
            Err(e) => result matches Err(err) && err@ == e,
        },
{
    let count = match f.settings_field_count {
        Some(c) => c,
        None => return Err(ManifestError::SettingsNotObject),
    };
    if count != 5 {
        return Err(ManifestError::SettingsFieldCount);
    }
    let max_vertices = read_u32_field(f.max_vertices, "/settings/max_vertices_per_meshlet")?;
    let max_triangles = read_u32_field(f.max_triangles, "/settings/max_triangles_per_meshlet")?;
    let limits = match (MeshletLimits { max_vertices, max_triangles }).validate() {
        Ok(l) => l,
        Err(e) => return Err(ManifestError::Limits(e)),
    };
    let page = read_u32_field(f.page_budget_bytes, "/settings/page_budget_bytes")?;
    if !(min_page <= page && page <= max_page) || !is_power_of_two(page) {
        return Err(ManifestError::InvalidPageBudget);
    }
    let levels = read_u32_field(f.hierarchy_levels, "/settings/hierarchy_levels")?;
    if levels > 16 {
        return Err(ManifestError::TooManyLevels);
    }
    let format = match &f.vertex_format {
        Some(v) => v.as_str(),
        None => return Err(ManifestError::FieldNotString { pointer: owned_text("/settings/vertex_format") }),
    };
    let encoding = if text_eq(format, "float32") {
        VertexEncoding::Float32
    } else if text_eq(format, "quantized32") {
        VertexEncoding::Quantized
    } else {
        return Err(ManifestError::UnknownVertexFormat { value: owned_text(format) });
    };
    Ok((limits, page, levels, encoding))
}

/// Checks the recipe a geometry manifest records and that its build key is
/// the key of that recipe; `min_page_bytes` and `max_page_bytes` bound the
/// page budget the geometry format accepts.
pub fn validate_manifest_contract(fields: &GeometryManifestFields, min_page_bytes: u32, max_page_bytes: u32) -> (result: Result<ManifestContract, ManifestError>)
    ensures
        match contract_check(fields, min_page_bytes, max_page_bytes) {
            Ok((key, source, encoding)) => result matches Ok(c) && c.build_key_sha256@ == key
                && c.source_sha256@ == source && c.vertex_encoding == encoding,
            Err(e) => result matches Err(err) && err@ == e,
        },
{
    let name = match &fields.recipe_name {
        Some(n) => n.as_str(),
        None => return Err(ManifestError::FieldNotString { pointer: owned_text("/recipe/name") }),
    };
    if !text_eq(name, "bloom-geometry") {
        return Err(ManifestError::UnsupportedRecipe);
    }
    let version = match fields.recipe_version {
        Some(v) => v,
        None => return Err(ManifestError::FieldNotInteger { pointer: owned_text("/recipe/version") }),
    };
    if version != GEOMETRY_RECIPE_VERSION as u64 {
        return Err(ManifestError::UnsupportedRecipe);
    }
    let source_text = match &fields.source_sha256 {
        Some(s) => s.as_str(),
        None => return Err(ManifestError::FieldNotString { pointer: owned_text("/source/sha256") }),
    };
    let source = match parse_hex_hash(source_text, "manifest source hash") {
        Ok(b) => b,
        Err(e) => return Err(ManifestError::Hash(e)),
    };
    let canonical = match &fields.source_closure_dependency {
        Some(d) => text_eq(d.as_str(), source_text),
        None => false,
    };
    if !canonical {
        return Err(ManifestError::NonCanonicalDependencies);
    }
    let (limits, page, levels, encoding) = read_recipe_settings(fields, min_page_bytes, max_page_bytes)?;
    let declared = match &fields.build_key_sha256 {
        Some(k) => k.as_str(),
        None => return Err(ManifestError::FieldNotString { pointer: owned_text("/build_key_sha256") }),
    };
    match validate_hex_hash(declared, "manifest build key") {
        Ok(()) => {},
        Err(e) => return Err(ManifestError::Hash(e)),
    }
    let base = geometry_build_key_sha256(source, limits.max_vertices, limits.max_triangles, page, levels, encoding);
    let profile = manifest_profile(fields)?;
    let key = match &profile {
        Some(p) => build_key_for_profile(base, Some(p)),
        None => build_key_for_profile(base, None),
    };
    let actual = hex_hash(&key);
    if !text_eq(actual.as_str(), declared) {
        return Err(ManifestError::KeyMismatch { declared: owned_text(declared), actual });
    }
    Ok(ManifestContract { build_key_sha256: owned_text(declared), source_sha256: source, vertex_encoding: encoding })
}

/// Whether a build may reuse what the manifest found at its path records:
/// no manifest means a rebuild; a manifest must be this asset's, with a
/// canonical build key, and is reused when that key is `build_key`.
pub open spec fn reuse_decision(m: Option<&GeometryManifestFields>, logical_id: Seq<char>, expected: Option<ProfileId>, build_key: Seq<char>) -> Result<bool, ManifestErrorView> {
    match m {
        None => Ok(false),
        Some(f) => match identity_check(f, logical_id, expected) {
            Err(e) => Err(e),
            Ok(()) => match opt_chars(f.build_key_sha256) {
                None => Err(ManifestErrorView::FieldNotString { pointer: "/build_key_sha256"@ }),
                Some(k) => if !is_hex_hash(k) {
                    Err(ManifestErrorView::Hash(StoreErrorView::NonCanonicalHash { label: "manifest build key"@ }))
                } else {
                    Ok(k == build_key)
                },
            },
        },
    }
}

/// Decides whether a geometry build reuses the stored manifest (`true`) or
/// cooks again (`false`); `manifest` is `None` when none exists yet.
pub fn reuse_stored_build(manifest: Option<&GeometryManifestFields>, logical_id: &str, profile: Option<&AssetProfile>, build_key: &str) -> (result: Result<bool, ManifestError>)
    ensures
        match reuse_decision(manifest, logical_id@, match profile { Some(p) => Some(p@), None => None }, build_key@) {
            Ok(b) => result == Ok::<bool, ManifestError>(b),
            Err(e) => result matches Err(err) && err@ == e,
        },
{
    let fields = match manifest {
        None => return Ok(false),
        Some(f) => f,
    };
    match validate_manifest_identity(fields, logical_id, profile) {
        Ok(()) => {},
        Err(e) => return Err(e),
    }
    let stored = match &fields.build_key_sha256 {
        Some(k) => k.as_str(),
        None => return Err(ManifestError::FieldNotString { pointer: owned_text("/build_key_sha256") }),
    };
    match validate_hex_hash(stored, "manifest build key") {
        Ok(()) => {},
        Err(e) => return Err(ManifestError::Hash(e)),
    }
    Ok(text_eq(stored, build_key))
}

} // verus!

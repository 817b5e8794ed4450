//! The checks on a cooked-scene manifest: the recipe and artifact it
//! declares, the chunk bytes read back, what decoding the chunk found, and
//! the build key.
//!
//! Reading the chunk and decoding it happen between these checks, outside
//! the library; `path_text` is the chunk path as the caller displays it.

use vstd::prelude::*;
use crate::artifact::{chunk_path, chunk_path_of};
use crate::bytes::{hex_hash, hex_text, sha256, sha256_digest};
use crate::manifest::{
    manifest_error_text, opt_chars, read_schema_profile, schema_profile, ManifestError, ManifestErrorView, ProfileFields,
};
use crate::profile::ProfileId;
use crate::store::{is_hex_hash, scene_build_key, scene_key_bytes, store_error_text, validate_hex_hash, StoreErrorView, SCENE_RECIPE_VERSION};
use crate::text::{concat3, debug_quoted, debug_text, owned_text, text_eq};

verus! {

/// The fields of a scene manifest that the declaration check reads; a field
/// that is missing or of another JSON type reads as `None`.
pub struct SceneManifestFields {
    pub recipe_name: Option<String>,
    pub recipe_version: Option<u64>,
    pub source_sha256: Option<String>,
    pub artifact_sha256: Option<String>,
    pub artifact_payload_sha256: Option<String>,
    pub artifact_path: Option<String>,
}

/// What a scene manifest declares of its source and artifact.
#[derive(Debug)]
pub struct SceneDeclaration {
    pub source_sha256: String,
    pub sha256: String,
    pub payload_sha256: String,
    pub relative_path: String,
}

pub open spec fn field_not_string(pointer: Seq<char>) -> Seq<char> {
    manifest_error_text(ManifestErrorView::FieldNotString { pointer })
}

pub open spec fn not_canonical_hash(label: Seq<char>) -> Seq<char> {
    store_error_text(StoreErrorView::NonCanonicalHash { label })
}

pub open spec fn unsupported_scene_recipe() -> Seq<char> {
    "asset manifest has an unsupported scene recipe"@
}

/// The outcome of checking what a scene manifest declares, in the order
/// the checks run: the recipe, the source hash, both artifact hashes, then
/// the artifact path, which must be the canonical chunk path.
pub open spec fn scene_declaration(f: &SceneManifestFields) -> Result<(Seq<char>, Seq<char>, Seq<char>, Seq<char>), Seq<char>> {
    match opt_chars(f.recipe_name) {
        None => Err(field_not_string("/recipe/name"@)),
        Some(name) => if name != "bloom-scene"@ {
            Err(unsupported_scene_recipe())
        } else if f.recipe_version is None {
            Err(manifest_error_text(ManifestErrorView::FieldNotInteger { pointer: "/recipe/version"@ }))
        } else if f.recipe_version->0 != SCENE_RECIPE_VERSION {
            Err(unsupported_scene_recipe())
        } else {
            match opt_chars(f.source_sha256) {
                None => Err(field_not_string("/source/sha256"@)),
                Some(source) => if !is_hex_hash(source) {
                    Err(not_canonical_hash("scene source hash"@))
                } else {
                    match (opt_chars(f.artifact_sha256), opt_chars(f.artifact_payload_sha256)) {
                        (None, _) => Err(field_not_string("/artifact/sha256"@)),
                        (Some(_), None) => Err(field_not_string("/artifact/payload_sha256"@)),
                        (Some(sha), Some(payload)) => if !is_hex_hash(sha) {
                            Err(not_canonical_hash("scene artifact hash"@))
                        } else if !is_hex_hash(payload) {
                            Err(not_canonical_hash("scene payload hash"@))
                        } else {
                            match opt_chars(f.artifact_path) {
                                None => Err(field_not_string("/artifact/path"@)),
                                Some(path) => if path != chunk_path_of(sha, "bscene"@) {
                                    Err("scene artifact path "@ + debug_text(path) + " is not canonical "@
                                        + debug_text(chunk_path_of(sha, "bscene"@)))
                                } else {
                                    Ok((source, sha, payload, path))
                                },
                            }
                        },
                    }
                },
            }
        },
    }
}

fn required_text<'a>(field: &'a Option<String>, pointer: &str) -> (result: Result<&'a str, String>)
    ensures
        match field {
            Some(s) => result matches Ok(t) && t@ == s@,
            None => result matches Err(e) && e@ == field_not_string(pointer@),
        },
{
    match field {
        Some(s) => Ok(s.as_str()),
        None => Err(ManifestError::FieldNotString { pointer: owned_text(pointer) }.message()),
    }
}

fn canonical_hash(value: &str, label: &str) -> (result: Result<(), String>)
    ensures
        result is Ok <==> is_hex_hash(value@),
        result matches Err(e) ==> e@ == not_canonical_hash(label@),
{
    match validate_hex_hash(value, label) {
        Ok(()) => Ok(()),
        Err(e) => Err(e.message()),
    }
}

/// Checks the recipe, source and artifact that a scene manifest declares.
pub fn check_scene_declaration(fields: &SceneManifestFields) -> (result: Result<SceneDeclaration, String>)
    ensures
        match scene_declaration(fields) {
            Ok((source, sha, payload, path)) => result matches Ok(d) && d.source_sha256@ == source
                && d.sha256@ == sha && d.payload_sha256@ == payload && d.relative_path@ == path,
            Err(t) => result matches Err(e) && e@ == t,
        },
{
    let name = required_text(&fields.recipe_name, "/recipe/name")?;
    if !text_eq(name, "bloom-scene") {
        return Err(owned_text("asset manifest has an unsupported scene recipe"));
    }
    let version = match fields.recipe_version {
        Some(v) => v,
        None => return Err(ManifestError::FieldNotInteger { pointer: owned_text("/recipe/version") }.message()),
    };
    if version != SCENE_RECIPE_VERSION as u64 {
        return Err(owned_text("asset manifest has an unsupported scene recipe"));
    }
    let source = required_text(&fields.source_sha256, "/source/sha256")?;
    canonical_hash(source, "scene source hash")?;
    let sha = required_text(&fields.artifact_sha256, "/artifact/sha256")?;
    let payload = required_text(&fields.artifact_payload_sha256, "/artifact/payload_sha256")?;
    canonical_hash(sha, "scene artifact hash")?;
    canonical_hash(payload, "scene payload hash")?;
    let path = required_text(&fields.artifact_path, "/artifact/path")?;
    let canonical = chunk_path(sha, "bscene");
    if !text_eq(path, canonical.as_str()) {
        let mut out = owned_text("scene artifact path ");
        let p = debug_quoted(path);
        out.append(p.as_str());
        out.append(" is not canonical ");
        let c = debug_quoted(canonical.as_str());
        out.append(c.as_str());
        return Err(out);
    }
    Ok(SceneDeclaration {
        source_sha256: owned_text(source),
        sha256: owned_text(sha),
        payload_sha256: owned_text(payload),
        relative_path: owned_text(path),
    })
}

/// `scene chunk P` followed by what went wrong.
pub open spec fn scene_chunk_text(path: Seq<char>, what: Seq<char>) -> Seq<char> {
    "scene chunk "@ + path + what
}

/// The outcome of checking scene chunk bytes read back: the manifest's
/// byte count must be an integer equal to their length, then their SHA-256
/// the declared one.
pub open spec fn scene_chunk_check(path: Seq<char>, bytes: Seq<u8>, declared_bytes: Option<u64>, declared_sha256: Seq<char>) -> Result<(), Seq<char>> {
    match declared_bytes {
        None => Err(manifest_error_text(ManifestErrorView::FieldNotInteger { pointer: "/artifact/bytes"@ })),
        Some(n) => if bytes.len() != n {
            Err(scene_chunk_text(path, " length mismatch"@))
        } else if hex_text(sha256_digest(bytes)) != declared_sha256 {
            Err(scene_chunk_text(path, " hash mismatch"@))
        } else {
            Ok(())
        },
    }
}

/// Checks scene chunk bytes read back against the manifest's `bytes`
/// field and the declared artifact hash.
pub fn check_scene_chunk(path_text: &str, bytes: &[u8], declared_bytes: Option<u64>, declaration: &SceneDeclaration) -> (result: Result<(), String>)
    requires
        bytes@.len() <= u64::MAX,
    ensures
        match scene_chunk_check(path_text@, bytes@, declared_bytes, declaration.sha256@) {
            Ok(()) => result is Ok,
            Err(t) => result matches Err(e) && e@ == t,
        },
{
    let n = match declared_bytes {
        Some(n) => n,
        None => return Err(ManifestError::FieldNotInteger { pointer: owned_text("/artifact/bytes") }.message()),
    };
    if bytes.len() as u64 != n {
        return Err(concat3("scene chunk ", path_text, " length mismatch"));
    }
    let actual = hex_hash(&sha256(bytes));
    if !text_eq(actual.as_str(), declaration.sha256.as_str()) {
        return Err(concat3("scene chunk ", path_text, " hash mismatch"));
    }
    Ok(())
}

/// The outcome of checking what decoding a scene chunk found: its payload
/// hash, then the hash of the source geometry it was cooked from.
pub open spec fn decoded_scene_check(path: Seq<char>, payload_sha256: Seq<u8>, source_sha256: Seq<u8>, d: (Seq<char>, Seq<char>)) -> Result<(), Seq<char>> {
    if hex_text(payload_sha256) != d.0 {
        Err(scene_chunk_text(path, " payload hash mismatch"@))
    } else if hex_text(source_sha256) != d.1 {
        Err(scene_chunk_text(path, " source hash mismatch"@))
    } else {
        Ok(())
    }
}

/// Checks what decoding a scene chunk found against the manifest.
pub fn check_decoded_scene(
    path_text: &str,
    payload_sha256: [u8; 32],
    source_geometry_sha256: [u8; 32],
    declaration: &SceneDeclaration,
) -> (result: Result<(), String>)
    ensures
        match decoded_scene_check(path_text@, payload_sha256@, source_geometry_sha256@,
            (declaration.payload_sha256@, declaration.source_sha256@)) {
            Ok(()) => result is Ok,
            Err(t) => result matches Err(e) && e@ == t,
        },
{
    let payload = hex_hash(&payload_sha256);
    if !text_eq(payload.as_str(), declaration.payload_sha256.as_str()) {
        return Err(concat3("scene chunk ", path_text, " payload hash mismatch"));
    }
    let source = hex_hash(&source_geometry_sha256);
    if !text_eq(source.as_str(), declaration.source_sha256.as_str()) {
        return Err(concat3("scene chunk ", path_text, " source hash mismatch"));
    }
    Ok(())
}

/// The scene build key of a payload for a profile, as hex text.
pub open spec fn scene_key_text(payload_sha256: Seq<u8>, profile: Option<ProfileId>) -> Seq<char> {
    hex_text(sha256_digest(scene_key_bytes(payload_sha256, profile)))
}

/// The outcome of checking a scene manifest's build key: the profile its
/// schema declares, then the declared key, which must be canonical and the
/// key of the decoded payload for that profile.
pub open spec fn scene_key_check(
    schema: Option<Seq<char>>,
    profile: Option<Option<ProfileFields>>,
    declared: Option<Seq<char>>,
    payload_sha256: Seq<u8>,
) -> Result<Seq<char>, Seq<char>> {
    match schema_profile(schema, profile) {
        Err(e) => Err(manifest_error_text(e)),
        Ok(p) => match declared {
            None => Err(field_not_string("/build_key_sha256"@)),
            Some(key) => if !is_hex_hash(key) {
                Err(not_canonical_hash("scene build key"@))
            } else if scene_key_text(payload_sha256, p) != key {
                Err("scene build key mismatch: declared "@ + key + ", actual "@ + scene_key_text(payload_sha256, p))
            } else {
                Ok(key)
            },
        },
    }
}

/// Checks that a scene manifest's build key is the key of the decoded
/// payload for the profile the manifest declares.
pub fn check_scene_build_key(
    schema: &Option<String>,
    profile: &Option<Option<ProfileFields>>,
    declared_key: &Option<String>,
    payload_sha256: [u8; 32],
) -> (result: Result<String, String>)
    ensures
        match scene_key_check(opt_chars(*schema), *profile, opt_chars(*declared_key), payload_sha256@) {
            Ok(k) => result matches Ok(key) && key@ == k,
            Err(t) => result matches Err(e) && e@ == t,
        },
{
    let p = match read_schema_profile(schema, profile) {
        Ok(p) => p,
        Err(e) => return Err(e.message()),
    };
    let actual = hex_hash(&scene_build_key(payload_sha256, p.as_ref()));
    let declared = required_text(declared_key, "/build_key_sha256")?;
    canonical_hash(declared, "scene build key")?;
    if !text_eq(actual.as_str(), declared) {
        let mut out = concat3("scene build key mismatch: declared ", declared, ", actual ");
        out.append(actual.as_str());
        return Err(out);
    }
    Ok(owned_text(declared))
}

} // verus!

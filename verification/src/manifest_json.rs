//! Reading geometry and scene manifests from their JSON bytes into the
//! fields that the manifest checks take.

use vstd::prelude::*;
use crate::artifact::GeometryArtifactFields;
use crate::json::{
    json_array_len, json_array_len_at, json_object_len, json_object_len_at, json_parse_error, json_parse_error_text,
    json_present, json_present_at, json_text, json_text_at, json_u64, json_u64_at,
};
use crate::manifest::{opt_chars, GeometryManifestFields, ManifestError, ManifestErrorView, ProfileFields};
use crate::scene_manifest::SceneManifestFields;
use crate::text::{concat2, owned_text, text_eq};

verus! {

/// A count as a natural number.
pub open spec fn opt_count(n: Option<usize>) -> Option<nat> {
    match n {
        Some(k) => Some(k as nat),
        None => None,
    }
}

/// `f` is what the document holds under the key at `base`: absent, not an
/// object, or an object with its member count and its `platform` and
/// `quality` strings.
pub open spec fn profile_fields_at(f: Option<Option<ProfileFields>>, b: Seq<u8>, base: Seq<char>) -> bool {
    match f {
        None => !json_present(b, base),
        Some(None) => json_present(b, base) && json_object_len(b, base) is None,
        Some(Some(p)) => {
            &&& json_present(b, base)
            &&& json_object_len(b, base) == Some(p.field_count as nat)
            &&& opt_chars(p.platform) == json_text(b, base + "/platform"@)
            &&& opt_chars(p.quality) == json_text(b, base + "/quality"@)
        },
    }
}

/// Reads the profile object at `base`.
pub fn read_profile_fields(bytes: &[u8], base: &str) -> (f: Option<Option<ProfileFields>>)
    ensures
        profile_fields_at(f, bytes@, base@),
{
    if !json_present_at(bytes, base) {
        return None;
    }
    match json_object_len_at(bytes, base) {
        None => Some(None),
        Some(n) => {
            let platform_pointer = concat2(base, "/platform");
            let quality_pointer = concat2(base, "/quality");
            Some(Some(ProfileFields {
                field_count: n,
                platform: json_text_at(bytes, platform_pointer.as_str()),
                quality: json_text_at(bytes, quality_pointer.as_str()),
            }))
        },
    }
}

/// The hash of the one dependency when `dependencies` is exactly one
/// object of two members, `kind` being the string `kind` and `sha256` a
/// string.
pub open spec fn single_dependency(b: Seq<u8>, kind: Seq<char>) -> Option<Seq<char>> {
    if json_array_len(b, "/dependencies"@) == Some(1nat) && json_object_len(b, "/dependencies/0"@) == Some(2nat)
        && json_text(b, "/dependencies/0/kind"@) == Some(kind) {
        json_text(b, "/dependencies/0/sha256"@)
    } else {
        None
    }
}

/// Reads the hash of the one dependency of the given kind.
pub fn read_single_dependency(bytes: &[u8], kind: &str) -> (hash: Option<String>)
    ensures
        opt_chars(hash) == single_dependency(bytes@, kind@),
{
    if json_array_len_at(bytes, "/dependencies") != Some(1usize) {
        return None;
    }
    if json_object_len_at(bytes, "/dependencies/0") != Some(2usize) {
        return None;
    }
    match json_text_at(bytes, "/dependencies/0/kind") {
        Some(k) => if !text_eq(k.as_str(), kind) {
            return None;
        },
        None => return None,
    }
    json_text_at(bytes, "/dependencies/0/sha256")
}

/// `f` holds what a geometry manifest document holds at each pointer its
/// checks read.
pub open spec fn geometry_fields_at(f: &GeometryManifestFields, b: Seq<u8>) -> bool {
    &&& opt_chars(f.schema) == json_text(b, "/schema"@)
    &&& profile_fields_at(f.profile, b, "/profile"@)
    &&& opt_chars(f.kind) == json_text(b, "/kind"@)
    &&& opt_chars(f.logical_id) == json_text(b, "/logical_id"@)
    &&& opt_chars(f.recipe_name) == json_text(b, "/recipe/name"@)
    &&& f.recipe_version == json_u64(b, "/recipe/version"@)
    &&& opt_chars(f.source_sha256) == json_text(b, "/source/sha256"@)
    &&& opt_chars(f.source_closure_dependency) == single_dependency(b, "source-closure"@)
    &&& opt_count(f.settings_field_count) == json_object_len(b, "/settings"@)
    &&& f.max_vertices == json_u64(b, "/settings/max_vertices_per_meshlet"@)
    &&& f.max_triangles == json_u64(b, "/settings/max_triangles_per_meshlet"@)
    &&& f.page_budget_bytes == json_u64(b, "/settings/page_budget_bytes"@)
    &&& f.hierarchy_levels == json_u64(b, "/settings/hierarchy_levels"@)
    &&& opt_chars(f.vertex_format) == json_text(b, "/settings/vertex_format"@)
    &&& opt_chars(f.build_key_sha256) == json_text(b, "/build_key_sha256"@)
}

fn unparsable(path_text: &str, detail: String) -> (e: ManifestError)
    ensures
        e@ == (ManifestErrorView::Unparsable { path: path_text@, detail: detail@ }),
{
    ManifestError::Unparsable { path: owned_text(path_text), detail }
}

/// Reads a geometry manifest from the bytes of the file at `path_text`: an
/// error when they are not JSON, else every field its checks read.
pub fn read_geometry_manifest(path_text: &str, bytes: &[u8]) -> (r: Result<GeometryManifestFields, ManifestError>)
    ensures
        match json_parse_error(bytes@) {
            Some(d) => r matches Err(e) && e@ == (ManifestErrorView::Unparsable { path: path_text@, detail: d }),
            None => r matches Ok(f) && geometry_fields_at(&f, bytes@),
        },
{
    if let Some(detail) = json_parse_error_text(bytes) {
        return Err(unparsable(path_text, detail));
    }
    Ok(GeometryManifestFields {
        schema: json_text_at(bytes, "/schema"),
        profile: read_profile_fields(bytes, "/profile"),
        kind: json_text_at(bytes, "/kind"),
        logical_id: json_text_at(bytes, "/logical_id"),
        recipe_name: json_text_at(bytes, "/recipe/name"),
        recipe_version: json_u64_at(bytes, "/recipe/version"),
        source_sha256: json_text_at(bytes, "/source/sha256"),
        source_closure_dependency: read_single_dependency(bytes, "source-closure"),
        settings_field_count: json_object_len_at(bytes, "/settings"),
        max_vertices: json_u64_at(bytes, "/settings/max_vertices_per_meshlet"),
        max_triangles: json_u64_at(bytes, "/settings/max_triangles_per_meshlet"),
        page_budget_bytes: json_u64_at(bytes, "/settings/page_budget_bytes"),
        hierarchy_levels: json_u64_at(bytes, "/settings/hierarchy_levels"),
        vertex_format: json_text_at(bytes, "/settings/vertex_format"),
        build_key_sha256: json_text_at(bytes, "/build_key_sha256"),
    })
}

/// `f` holds the artifact fields of a manifest document.
pub open spec fn artifact_fields_at(f: &GeometryArtifactFields, b: Seq<u8>) -> bool {
    &&& opt_chars(f.path) == json_text(b, "/artifact/path"@)
    &&& opt_chars(f.sha256) == json_text(b, "/artifact/sha256"@)
    &&& opt_chars(f.payload_sha256) == json_text(b, "/artifact/payload_sha256"@)
    &&& f.bytes == json_u64(b, "/artifact/bytes"@)
    &&& f.format_version == json_u64(b, "/artifact/format_version"@)
}

/// Reads the artifact fields of a manifest document.
pub fn read_geometry_artifact(bytes: &[u8]) -> (f: GeometryArtifactFields)
    ensures
        artifact_fields_at(&f, bytes@),
{
    GeometryArtifactFields {
        path: json_text_at(bytes, "/artifact/path"),
        sha256: json_text_at(bytes, "/artifact/sha256"),
        payload_sha256: json_text_at(bytes, "/artifact/payload_sha256"),
        bytes: json_u64_at(bytes, "/artifact/bytes"),
        format_version: json_u64_at(bytes, "/artifact/format_version"),
    }
}

/// What the scene checks read of a scene manifest.
pub struct SceneManifestRecord {
    pub fields: SceneManifestFields,
    pub artifact_bytes: Option<u64>,
    pub schema: Option<String>,
    /// `None` when the manifest has no `profile` key; `Some(None)` when the
    /// value is not an object.
    pub profile: Option<Option<ProfileFields>>,
    pub build_key_sha256: Option<String>,
}

/// `r` holds what a scene manifest document holds at each pointer its
/// checks read.
pub open spec fn scene_record_at(r: &SceneManifestRecord, b: Seq<u8>) -> bool {
    &&& opt_chars(r.fields.recipe_name) == json_text(b, "/recipe/name"@)
    &&& r.fields.recipe_version == json_u64(b, "/recipe/version"@)
    &&& opt_chars(r.fields.source_sha256) == json_text(b, "/source/sha256"@)
    &&& opt_chars(r.fields.artifact_sha256) == json_text(b, "/artifact/sha256"@)
    &&& opt_chars(r.fields.artifact_payload_sha256) == json_text(b, "/artifact/payload_sha256"@)
    &&& opt_chars(r.fields.artifact_path) == json_text(b, "/artifact/path"@)
    &&& r.artifact_bytes == json_u64(b, "/artifact/bytes"@)
    &&& opt_chars(r.schema) == json_text(b, "/schema"@)
    &&& profile_fields_at(r.profile, b, "/profile"@)
    &&& opt_chars(r.build_key_sha256) == json_text(b, "/build_key_sha256"@)
}

/// Reads a scene manifest from the bytes of the file at `path_text`: an
/// error when they are not JSON, else every field its checks read.
pub fn read_scene_manifest(path_text: &str, bytes: &[u8]) -> (r: Result<SceneManifestRecord, ManifestError>)
    ensures
        match json_parse_error(bytes@) {
            Some(d) => r matches Err(e) && e@ == (ManifestErrorView::Unparsable { path: path_text@, detail: d }),
            None => r matches Ok(m) && scene_record_at(&m, bytes@),
        },
{
    if let Some(detail) = json_parse_error_text(bytes) {
        return Err(unparsable(path_text, detail));
    }
    Ok(SceneManifestRecord {
        fields: SceneManifestFields {
            recipe_name: json_text_at(bytes, "/recipe/name"),
            recipe_version: json_u64_at(bytes, "/recipe/version"),
            source_sha256: json_text_at(bytes, "/source/sha256"),
            artifact_sha256: json_text_at(bytes, "/artifact/sha256"),
            artifact_payload_sha256: json_text_at(bytes, "/artifact/payload_sha256"),
            artifact_path: json_text_at(bytes, "/artifact/path"),
        },
        artifact_bytes: json_u64_at(bytes, "/artifact/bytes"),
        schema: json_text_at(bytes, "/schema"),
        profile: read_profile_fields(bytes, "/profile"),
        build_key_sha256: json_text_at(bytes, "/build_key_sha256"),
    })
}

} // verus!

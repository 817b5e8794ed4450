//! The artifact a geometry manifest points at: the checks on what the
//! manifest declares, on the chunk bytes read back, and on what decoding
//! the chunk found.
//!
//! Reading the chunk and decoding it happen between these checks, outside
//! the library; `path_text` is the chunk path as the caller displays it.

use vstd::prelude::*;
use crate::bytes::{hex_hash, hex_text, sha256, sha256_digest};
use crate::manifest::{opt_chars, ManifestError, ManifestErrorView};
use crate::store::{is_hex_hash, validate_hex_hash, StoreErrorView};
use crate::text::{concat2, concat3, decimal_digits, decimal_text, owned_text, text_eq};

verus! {

/// The store directory of content-addressed chunks.
pub open spec fn chunk_directory() -> Seq<char> {
    "chunks/sha256"@
}

/// Where a chunk with this hash and extension lives in the store.
pub open spec fn chunk_path_of(sha256_hex: Seq<char>, extension: Seq<char>) -> Seq<char> {
    chunk_directory() + "/"@ + sha256_hex + "."@ + extension
}

/// The store-relative path of a chunk.
pub fn chunk_path(sha256_hex: &str, extension: &str) -> (path: String)
    ensures
        path@ == chunk_path_of(sha256_hex@, extension@),
{
    let mut out = concat3("chunks/sha256", "/", sha256_hex);
    out.append(".");
    out.append(extension);
    out
}

/// The artifact fields of a geometry manifest; a field that is missing or
/// of another JSON type reads as `None`.
pub struct GeometryArtifactFields {
    pub path: Option<String>,
    pub sha256: Option<String>,
    pub payload_sha256: Option<String>,
    pub bytes: Option<u64>,
    pub format_version: Option<u64>,
}

/// What a geometry manifest declares of its artifact.
#[derive(Debug)]
pub struct GeometryArtifactDeclaration {
    pub relative_path: String,
    pub sha256: String,
    pub payload_sha256: String,
    pub bytes: u64,
    pub format_version: u32,
}

/// The outcome of checking a manifest's artifact fields, in order: the
/// path and both hashes as strings, the hashes canonical, the path the
/// canonical one, then the byte length and a `u32` format version.
pub open spec fn artifact_declaration(f: &GeometryArtifactFields) -> Result<(Seq<char>, Seq<char>, Seq<char>, u64, u32), ManifestErrorView> {
    match (opt_chars(f.path), opt_chars(f.sha256), opt_chars(f.payload_sha256)) {
        (None, _, _) => Err(ManifestErrorView::FieldNotString { pointer: "/artifact/path"@ }),
        (Some(_), None, _) => Err(ManifestErrorView::FieldNotString { pointer: "/artifact/sha256"@ }),
        (Some(_), Some(_), None) => Err(ManifestErrorView::FieldNotString { pointer: "/artifact/payload_sha256"@ }),
        (Some(path), Some(sha), Some(payload)) => if !is_hex_hash(sha) {
            Err(ManifestErrorView::Hash(StoreErrorView::NonCanonicalHash { label: "artifact hash"@ }))
        } else if !is_hex_hash(payload) {
            Err(ManifestErrorView::Hash(StoreErrorView::NonCanonicalHash { label: "artifact payload hash"@ }))
        } else if path != chunk_path_of(sha, "bgeo"@) {
            Err(ManifestErrorView::NonCanonicalArtifactPath { path, canonical: chunk_path_of(sha, "bgeo"@) })
        } else {
            match (f.bytes, f.format_version) {
                (None, _) => Err(ManifestErrorView::FieldNotInteger { pointer: "/artifact/bytes"@ }),
                (Some(_), None) => Err(ManifestErrorView::FieldNotInteger { pointer: "/artifact/format_version"@ }),
                (Some(b), Some(v)) => if v > u32::MAX {
                    Err(ManifestErrorView::FormatVersionExceedsU32)
                } else {
                    Ok((path, sha, payload, b, v as u32))
                },
            }
        },
    }
}

/// Checks what a geometry manifest declares of its artifact.
pub fn check_geometry_artifact(fields: &GeometryArtifactFields) -> (result: Result<GeometryArtifactDeclaration, ManifestError>)
    ensures
        match artifact_declaration(fields) {
            Ok((path, sha, payload, bytes, version)) => result matches Ok(d) && d.relative_path@ == path
                && d.sha256@ == sha && d.payload_sha256@ == payload && d.bytes == bytes && d.format_version == version,
            Err(e) => result matches Err(err) && err@ == e,
        },
{
    let path = match &fields.path {
        Some(p) => p.as_str(),
        None => return Err(ManifestError::FieldNotString { pointer: owned_text("/artifact/path") }),
    };
    let sha = match &fields.sha256 {
        Some(s) => s.as_str(),
        None => return Err(ManifestError::FieldNotString { pointer: owned_text("/artifact/sha256") }),
    };
    let payload = match &fields.payload_sha256 {
        Some(s) => s.as_str(),
        None => return Err(ManifestError::FieldNotString { pointer: owned_text("/artifact/payload_sha256") }),
    };
    match validate_hex_hash(sha, "artifact hash") {
        Ok(()) => {},
        Err(e) => return Err(ManifestError::Hash(e)),
    }
    match validate_hex_hash(payload, "artifact payload hash") {
        Ok(()) => {},
        Err(e) => return Err(ManifestError::Hash(e)),
    }
    let canonical = chunk_path(sha, "bgeo");
    if !text_eq(path, canonical.as_str()) {
        return Err(ManifestError::NonCanonicalArtifactPath { path: owned_text(path), canonical });
    }
    let bytes = match fields.bytes {
        Some(b) => b,
        None => return Err(ManifestError::FieldNotInteger { pointer: owned_text("/artifact/bytes") }),
    };
    let version = match fields.format_version {
        Some(v) => v,
        None => return Err(ManifestError::FieldNotInteger { pointer: owned_text("/artifact/format_version") }),
    };
    if version > 0xffff_ffff {
        return Err(ManifestError::FormatVersionExceedsU32);
    }
    Ok(GeometryArtifactDeclaration {
        relative_path: owned_text(path),
        sha256: owned_text(sha),
        payload_sha256: owned_text(payload),
        bytes,
        format_version: version as u32,
    })
}

/// `chunk P what: manifest D, actual A`.
pub open spec fn mismatch_text(path: Seq<char>, what: Seq<char>, declared: Seq<char>, actual: Seq<char>) -> Seq<char> {
    "chunk "@ + path + " "@ + what + " mismatch: manifest "@ + declared + ", actual "@ + actual
}

fn mismatch(path: &str, what: &str, declared: &str, actual: &str) -> (text: String)
    ensures
        text@ == mismatch_text(path@, what@, declared@, actual@),
{
    let mut out = concat3("chunk ", path, " ");
    out.append(what);
    out.append(" mismatch: manifest ");
    out.append(declared);
    out.append(", actual ");
    out.append(actual);
    out
}

/// The outcome of checking chunk bytes read back against the manifest:
/// the length first, then the SHA-256.
pub open spec fn chunk_check(path: Seq<char>, bytes: Seq<u8>, declared_bytes: u64, declared_sha256: Seq<char>) -> Result<(), Seq<char>> {
    if bytes.len() != declared_bytes {
        Err(mismatch_text(path, "length"@, decimal_digits(declared_bytes as nat), decimal_digits(bytes.len())))
    } else if hex_text(sha256_digest(bytes)) != declared_sha256 {
        Err(mismatch_text(path, "hash"@, declared_sha256, hex_text(sha256_digest(bytes))))
    } else {
        Ok(())
    }
}

/// Checks the chunk bytes read back against what the manifest declares.
pub fn check_chunk(path_text: &str, bytes: &[u8], declared: &GeometryArtifactDeclaration) -> (result: Result<(), String>)
    requires
        bytes@.len() <= u64::MAX,
    ensures
        match chunk_check(path_text@, bytes@, declared.bytes, declared.sha256@) {
            Ok(()) => result is Ok,
            Err(t) => result matches Err(e) && e@ == t,
        },
{
    if bytes.len() as u64 != declared.bytes {
        let d = decimal_text(declared.bytes);
        let a = decimal_text(bytes.len() as u64);
        return Err(mismatch(path_text, "length", d.as_str(), a.as_str()));
    }
    let actual = hex_hash(&sha256(bytes));
    if !text_eq(actual.as_str(), declared.sha256.as_str()) {
        return Err(mismatch(path_text, "hash", declared.sha256.as_str(), actual.as_str()));
    }
    Ok(())
}

/// What decoding a geometry chunk found.
#[derive(Clone, Copy, Debug)]
pub struct DecodedGeometry {
    pub format_version: u32,
    pub source_sha256: [u8; 32],
    pub payload_sha256: [u8; 32],
}

/// The outcome of checking a decoded chunk against its manifest: the
/// declared format, the format the manifest's vertex format expects, the
/// source closure, then the payload hash.
pub open spec fn decoded_check(
    path: Seq<char>,
    declared: (u32, Seq<char>),
    expected_format: u32,
    contract_source: Seq<u8>,
    archive: (u32, Seq<u8>, Seq<u8>),
) -> Result<(), Seq<char>> {
    if archive.0 != declared.0 {
        Err(mismatch_text(path, "format"@, decimal_digits(declared.0 as nat), decimal_digits(archive.0 as nat)))
    } else if archive.0 != expected_format {
        Err("chunk "@ + path + " format "@ + decimal_digits(archive.0 as nat) + " does not match manifest vertex format"@)
    } else if archive.1 != contract_source {
        Err("chunk "@ + path + " source closure does not match its manifest"@)
    } else if hex_text(archive.2) != declared.1 {
        Err(mismatch_text(path, "payload hash"@, declared.1, hex_text(archive.2)))
    } else {
        Ok(())
    }
}

/// Checks what decoding the chunk found against the manifest: its declared
/// format version, the version its vertex format expects, its source
/// closure and its payload hash.
pub fn check_decoded_geometry(
    path_text: &str,
    declared: &GeometryArtifactDeclaration,
    expected_format_version: u32,
    contract_source_sha256: [u8; 32],
    archive: DecodedGeometry,
) -> (result: Result<(), String>)
    ensures
        match decoded_check(
            path_text@,
            (declared.format_version, declared.payload_sha256@),
            expected_format_version,
            contract_source_sha256@,
            (archive.format_version, archive.source_sha256@, archive.payload_sha256@),
        ) {
            Ok(()) => result is Ok,
            Err(t) => result matches Err(e) && e@ == t,
        },
{
    if archive.format_version != declared.format_version {
        let d = decimal_text(declared.format_version as u64);
        let a = decimal_text(archive.format_version as u64);
        return Err(mismatch(path_text, "format", d.as_str(), a.as_str()));
    }
    if archive.format_version != expected_format_version {
        let a = decimal_text(archive.format_version as u64);
        let mut out = concat3("chunk ", path_text, " format ");
        out.append(a.as_str());
        out.append(" does not match manifest vertex format");
        return Err(out);
    }
    let mut same = true;
    let mut i: usize = 0;
    while i < 32
        invariant
            i <= 32,
            same == (forall|j: int| 0 <= j < i ==> archive.source_sha256@[j] == contract_source_sha256@[j]),
        decreases 32 - i,
    {
        if archive.source_sha256[i] != contract_source_sha256[i] {
            same = false;
        }
        i = i + 1;
    }
    if !same {
        return Err(concat3("chunk ", path_text, " source closure does not match its manifest"));
    }
    assert(archive.source_sha256@ =~= contract_source_sha256@);
    let actual = hex_hash(&archive.payload_sha256);
    if !text_eq(actual.as_str(), declared.payload_sha256.as_str()) {
        return Err(mismatch(path_text, "payload hash", declared.payload_sha256.as_str(), actual.as_str()));
    }
    Ok(())
}

} // verus!

use bloom_cook::artifact::{
    check_chunk, check_decoded_geometry, check_geometry_artifact, chunk_path, DecodedGeometry, GeometryArtifactFields,
};
use bloom_cook::bytes::hex_hash;
use sha2::{Digest, Sha256};

fn fields(bytes: &[u8]) -> GeometryArtifactFields {
    let sha = hex_hash(&Sha256::digest(bytes));
    GeometryArtifactFields {
        path: Some(format!("chunks/sha256/{sha}.bgeo")),
        sha256: Some(sha),
        payload_sha256: Some("ab".repeat(32)),
        bytes: Some(bytes.len() as u64),
        format_version: Some(2),
    }
}

#[test]
fn chunk_paths_are_content_addressed() {
    assert_eq!(chunk_path("00ff", "dds"), "chunks/sha256/00ff.dds");
}

#[test]
fn artifact_declarations_are_checked_in_order() {
    let bytes = b"geometry chunk".to_vec();
    let declared = check_geometry_artifact(&fields(&bytes)).unwrap();
    assert_eq!((declared.bytes, declared.format_version), (14, 2));
    let mut f = fields(&bytes);
    f.path = Some("chunks/other.bgeo".to_string());
    let canonical = format!("chunks/sha256/{}.bgeo", f.sha256.clone().unwrap());
    assert_eq!(
        check_geometry_artifact(&f).unwrap_err().message(),
        format!("manifest artifact path \"chunks/other.bgeo\" is not canonical \"{canonical}\"")
    );
    let mut f = fields(&bytes);
    f.payload_sha256 = Some("AB".repeat(32));
    assert_eq!(
        check_geometry_artifact(&f).unwrap_err().message(),
        "artifact payload hash is not a canonical lowercase SHA-256"
    );
    let mut f = fields(&bytes);
    f.format_version = Some(1 << 32);
    assert_eq!(check_geometry_artifact(&f).unwrap_err().message(), "manifest artifact format version exceeds u32");
    let mut f = fields(&bytes);
    f.bytes = None;
    assert_eq!(
        check_geometry_artifact(&f).unwrap_err().message(),
        "asset manifest field /artifact/bytes is missing or not an integer"
    );
    let mut f = fields(&bytes);
    f.sha256 = None;
    assert_eq!(
        check_geometry_artifact(&f).unwrap_err().message(),
        "asset manifest field /artifact/sha256 is missing or not a string"
    );
}

#[test]
fn chunks_read_back_must_match_their_manifest() {
    let bytes = b"geometry chunk".to_vec();
    let declared = check_geometry_artifact(&fields(&bytes)).unwrap();
    assert_eq!(check_chunk("s/c.bgeo", &bytes, &declared), Ok(()));
    assert_eq!(
        check_chunk("s/c.bgeo", b"short", &declared).unwrap_err(),
        "chunk s/c.bgeo length mismatch: manifest 14, actual 5"
    );
    let other = b"geometry chunK".to_vec();
    let message = check_chunk("s/c.bgeo", &other, &declared).unwrap_err();
    assert_eq!(
        message,
        format!("chunk s/c.bgeo hash mismatch: manifest {}, actual {}", declared.sha256, hex_hash(&Sha256::digest(&other)))
    );
}

#[test]
fn decoded_chunks_must_match_their_manifest() {
    let bytes = b"geometry chunk".to_vec();
    let declared = check_geometry_artifact(&fields(&bytes)).unwrap();
    let good = DecodedGeometry { format_version: 2, source_sha256: [5; 32], payload_sha256: [0xab; 32] };
    assert_eq!(check_decoded_geometry("p", &declared, 2, [5; 32], good), Ok(()));
    assert_eq!(
        check_decoded_geometry("p", &declared, 2, [5; 32], DecodedGeometry { format_version: 3, ..good }).unwrap_err(),
        "chunk p format mismatch: manifest 2, actual 3"
    );
    assert_eq!(
        check_decoded_geometry("p", &declared, 1, [5; 32], good).unwrap_err(),
        "chunk p format 2 does not match manifest vertex format"
    );
    assert_eq!(
        check_decoded_geometry("p", &declared, 2, [6; 32], good).unwrap_err(),
        "chunk p source closure does not match its manifest"
    );
    assert_eq!(
        check_decoded_geometry("p", &declared, 2, [5; 32], DecodedGeometry { payload_sha256: [0xcd; 32], ..good }).unwrap_err(),
        format!("chunk p payload hash mismatch: manifest {}, actual {}", "ab".repeat(32), "cd".repeat(32))
    );
}

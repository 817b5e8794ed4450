use bloom_cook::bytes::hex_hash;
use bloom_cook::manifest::ProfileFields;
use bloom_cook::scene_manifest::{
    check_decoded_scene, check_scene_build_key, check_scene_chunk, check_scene_declaration, SceneManifestFields,
};
use sha2::{Digest, Sha256};

fn fields_for(chunk: &[u8]) -> SceneManifestFields {
    let sha = hex_hash(&Sha256::digest(chunk));
    SceneManifestFields {
        recipe_name: Some("bloom-scene".to_string()),
        recipe_version: Some(1),
        source_sha256: Some("cd".repeat(32)),
        artifact_sha256: Some(sha.clone()),
        artifact_payload_sha256: Some("ef".repeat(32)),
        artifact_path: Some(format!("chunks/sha256/{sha}.bscene")),
    }
}

#[test]
fn a_canonical_scene_declaration_is_accepted() {
    let fields = fields_for(b"scene chunk");
    let declaration = check_scene_declaration(&fields).unwrap();
    assert_eq!(declaration.source_sha256, "cd".repeat(32));
    assert_eq!(declaration.payload_sha256, "ef".repeat(32));
    assert_eq!(Some(declaration.relative_path.clone()), fields.artifact_path);
}

#[test]
fn scene_declarations_are_refused_in_check_order() {
    let mut fields = fields_for(b"x");
    fields.recipe_name = Some("bloom-geometry".to_string());
    assert_eq!(check_scene_declaration(&fields).unwrap_err(), "asset manifest has an unsupported scene recipe");
    let mut fields = fields_for(b"x");
    fields.recipe_version = Some(2);
    assert_eq!(check_scene_declaration(&fields).unwrap_err(), "asset manifest has an unsupported scene recipe");
    let mut fields = fields_for(b"x");
    fields.recipe_name = None;
    assert_eq!(
        check_scene_declaration(&fields).unwrap_err(),
        "asset manifest field /recipe/name is missing or not a string"
    );
    let mut fields = fields_for(b"x");
    fields.recipe_version = None;
    assert_eq!(
        check_scene_declaration(&fields).unwrap_err(),
        "asset manifest field /recipe/version is missing or not an integer"
    );
    let mut fields = fields_for(b"x");
    fields.source_sha256 = Some("CD".repeat(32));
    assert_eq!(
        check_scene_declaration(&fields).unwrap_err(),
        "scene source hash is not a canonical lowercase SHA-256"
    );
    let mut fields = fields_for(b"x");
    fields.artifact_payload_sha256 = None;
    fields.artifact_sha256 = Some("short".to_string());
    assert_eq!(
        check_scene_declaration(&fields).unwrap_err(),
        "asset manifest field /artifact/payload_sha256 is missing or not a string"
    );
    let mut fields = fields_for(b"x");
    fields.artifact_payload_sha256 = Some("zz".repeat(32));
    assert_eq!(
        check_scene_declaration(&fields).unwrap_err(),
        "scene payload hash is not a canonical lowercase SHA-256"
    );
    let mut fields = fields_for(b"x");
    let sha = fields.artifact_sha256.clone().unwrap();
    fields.artifact_path = Some(format!("chunks/sha256/{sha}.bgeo"));
    assert_eq!(
        check_scene_declaration(&fields).unwrap_err(),
        format!("scene artifact path \"chunks/sha256/{sha}.bgeo\" is not canonical \"chunks/sha256/{sha}.bscene\"")
    );
}

#[test]
fn scene_chunks_are_checked_by_length_then_hash() {
    let chunk = b"scene chunk bytes".to_vec();
    let declaration = check_scene_declaration(&fields_for(&chunk)).unwrap();
    assert_eq!(check_scene_chunk("s/c.bscene", &chunk, Some(chunk.len() as u64), &declaration), Ok(()));
    assert_eq!(
        check_scene_chunk("s/c.bscene", &chunk, None, &declaration).unwrap_err(),
        "asset manifest field /artifact/bytes is missing or not an integer"
    );
    assert_eq!(
        check_scene_chunk("s/c.bscene", &chunk, Some(3), &declaration).unwrap_err(),
        "scene chunk s/c.bscene length mismatch"
    );
    let mut other = chunk.clone();
    other[0] ^= 1;
    assert_eq!(
        check_scene_chunk("s/c.bscene", &other, Some(other.len() as u64), &declaration).unwrap_err(),
        "scene chunk s/c.bscene hash mismatch"
    );
}

#[test]
fn decoded_scenes_must_match_payload_then_source() {
    let declaration = check_scene_declaration(&fields_for(b"x")).unwrap();
    assert_eq!(check_decoded_scene("p", [0xef; 32], [0xcd; 32], &declaration), Ok(()));
    assert_eq!(
        check_decoded_scene("p", [0xee; 32], [0x00; 32], &declaration).unwrap_err(),
        "scene chunk p payload hash mismatch"
    );
    assert_eq!(
        check_decoded_scene("p", [0xef; 32], [0x00; 32], &declaration).unwrap_err(),
        "scene chunk p source hash mismatch"
    );
}

fn expected_key(payload: [u8; 32], profile: Option<(&str, &str)>) -> String {
    let mut bytes = b"bloom-scene-recipe\0".to_vec();
    bytes.extend_from_slice(&1u32.to_le_bytes());
    bytes.extend_from_slice(&payload);
    if let Some((platform, quality)) = profile {
        bytes.extend_from_slice(platform.as_bytes());
        bytes.push(0);
        bytes.extend_from_slice(quality.as_bytes());
    }
    hex_hash(&Sha256::digest(&bytes))
}

#[test]
fn scene_build_keys_are_recomputed_for_the_declared_profile() {
    let payload = [7u8; 32];
    let v1 = Some("bloom-asset-manifest-v1".to_string());
    let key = expected_key(payload, None);
    assert_eq!(check_scene_build_key(&v1, &None, &Some(key.clone()), payload), Ok(key.clone()));

    let v2 = Some("bloom-asset-manifest-v2".to_string());
    let profile = Some(Some(ProfileFields {
        field_count: 2,
        platform: Some("desktop".to_string()),
        quality: Some("high".to_string()),
    }));
    let profiled = expected_key(payload, Some(("desktop", "high")));
    assert_ne!(profiled, key);
    assert_eq!(check_scene_build_key(&v2, &profile, &Some(profiled.clone()), payload), Ok(profiled.clone()));
    assert_eq!(
        check_scene_build_key(&v2, &profile, &Some(key.clone()), payload).unwrap_err(),
        format!("scene build key mismatch: declared {key}, actual {profiled}")
    );
    assert_eq!(
        check_scene_build_key(&v1, &None, &Some("ABC".to_string()), payload).unwrap_err(),
        "scene build key is not a canonical lowercase SHA-256"
    );
    assert_eq!(
        check_scene_build_key(&v1, &None, &None, payload).unwrap_err(),
        "asset manifest field /build_key_sha256 is missing or not a string"
    );
    assert_eq!(
        check_scene_build_key(&v2, &None, &Some(key), payload).unwrap_err(),
        "profiled asset manifest is missing its profile"
    );
}

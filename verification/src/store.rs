//! Identity rules of the content-addressed cooked-asset store: logical
//! IDs, canonical SHA-256 text, manifest locations and build keys.

use vstd::prelude::*;
use crate::bytes::{
    ascii_bytes, hex_text, lemma_le32_injective, hex_value, le32, push_ascii, push_bytes, push_u32, sha256,
    sha256_digest,
};
use crate::profile::{AssetProfile, ProfileId};
use crate::text::{concat3, debug_quoted, debug_text, owned_text, text_chars};
use vstd::utf8::encode_utf8;

verus! {

/// A character allowed in a logical-ID segment: ASCII letter or digit,
/// `-`, `_` or `.`.
pub open spec fn is_id_char(c: char) -> bool {
    ('a' <= c && c <= 'z') || ('A' <= c && c <= 'Z') || ('0' <= c && c <= '9')
        || c == '-' || c == '_' || c == '.'
}

/// Whether `s[i..j]` is a whole segment that reads `.` or `..`.
pub open spec fn is_dot_segment(s: Seq<char>, i: int, j: int) -> bool {
    &&& 0 <= i < j <= s.len()
    &&& (i == 0 || s[i - 1] == '/')
    &&& (j == s.len() || s[j] == '/')
    &&& ((j == i + 1 && s[i] == '.') || (j == i + 2 && s[i] == '.' && s[i + 1] == '.'))
}

/// A canonical logical ID: a relative, slash-separated ASCII identifier
/// without empty, `.` or `..` segments.
pub open spec fn is_logical_id(s: Seq<char>) -> bool {
    &&& s.len() > 0
    &&& forall|i: int| 0 <= i < s.len() ==> s[i] == '/' || is_id_char(#[trigger] s[i])
    &&& s[0] != '/'
    &&& s[s.len() - 1] != '/'
    &&& forall|i: int| 0 <= i < s.len() - 1 ==> !(#[trigger] s[i] == '/' && s[i + 1] == '/')
    &&& forall|i: int, j: int| !is_dot_segment(s, i, j)
}

/// Why a store identifier was refused.
#[derive(Debug)]
pub enum StoreError {
    /// The logical ID is not canonical.
    InvalidLogicalId { logical_id: String },
    /// A hash is not 64 lowercase hex digits.
    NonCanonicalHash { label: String },
}

/// The mathematical value of a [`StoreError`].
pub enum StoreErrorView {
    InvalidLogicalId { logical_id: Seq<char> },
    NonCanonicalHash { label: Seq<char> },
}

impl View for StoreError {
    type V = StoreErrorView;

    open spec fn view(&self) -> StoreErrorView {
        match self {
            StoreError::InvalidLogicalId { logical_id } => StoreErrorView::InvalidLogicalId { logical_id: logical_id@ },
            StoreError::NonCanonicalHash { label } => StoreErrorView::NonCanonicalHash { label: label@ },
        }
    }
}

/// The text of a store error.
pub open spec fn store_error_text(e: StoreErrorView) -> Seq<char> {
    match e {
        StoreErrorView::InvalidLogicalId { logical_id } => "logical asset ID "@ + debug_text(logical_id)
            + " must be a relative slash-separated ASCII identifier without empty, dot, or parent segments"@,
        StoreErrorView::NonCanonicalHash { label } => label + " is not a canonical lowercase SHA-256"@,
    }
}

impl StoreError {
    /// The human-readable text of this error.
    pub fn message(&self) -> (text: String)
        ensures
            text@ == store_error_text(self@),
    {
        match self {
            StoreError::InvalidLogicalId { logical_id } => {
                let quoted = debug_quoted(logical_id.as_str());
                concat3(
                    "logical asset ID ",
                    quoted.as_str(),
                    " must be a relative slash-separated ASCII identifier without empty, dot, or parent segments",
                )
            },
            StoreError::NonCanonicalHash { label } => {
                let mut out = owned_text(label.as_str());
                out.append(" is not a canonical lowercase SHA-256");
                out
            },
        }
    }
}

fn id_char(c: char) -> (ok: bool)
    ensures
        ok == is_id_char(c),
{
    ('a' <= c && c <= 'z') || ('A' <= c && c <= 'Z') || ('0' <= c && c <= '9') || c == '-' || c == '_'
        || c == '.'
}

/// Checks that a logical ID is canonical.
pub fn validate_logical_id(logical_id: &str) -> (result: Result<(), StoreError>)
    ensures
        result is Ok <==> is_logical_id(logical_id@),
        result matches Err(e) ==> e@ == (StoreErrorView::InvalidLogicalId { logical_id: logical_id@ }),
{
    let s = text_chars(logical_id);
    let n = s.len();
    let error = StoreError::InvalidLogicalId { logical_id: owned_text(logical_id) };
    if n == 0 || s[0] == '/' || s[n - 1] == '/' {
        return Err(error);
    }
    let mut i: usize = 0;
    while i < n
        invariant
            s@ == logical_id@,
            error@ == (StoreErrorView::InvalidLogicalId { logical_id: logical_id@ }),
            n == s.len(),
            n > 0,
            s@[0] != '/',
            s@[n - 1] != '/',
            i <= n,
            forall|k: int| 0 <= k < i ==> s@[k] == '/' || is_id_char(#[trigger] s@[k]),
            forall|k: int| 0 <= k < i && k < n - 1 ==> !(#[trigger] s@[k] == '/' && s@[k + 1] == '/'),
            forall|a: int, b: int| 0 <= a < i ==> !is_dot_segment(s@, a, b),
        decreases n - i,
    {
        let c = s[i];
        if c != '/' && !id_char(c) {
            return Err(error);
        }
        if c == '/' && i + 1 < n && s[i + 1] == '/' {
            return Err(error);
        }
        let starts_segment = i == 0 || s[i - 1] == '/';
        if starts_segment && c == '.' {
            if i + 1 == n || s[i + 1] == '/' {
                assert(is_dot_segment(s@, i as int, i + 1));
                return Err(error);
            }
            if s[i + 1] == '.' && (i + 2 == n || s[i + 2] == '/') {
                assert(is_dot_segment(s@, i as int, i + 2));
                return Err(error);
            }
        }
        assert forall|b: int| !is_dot_segment(s@, i as int, b) by {
            if is_dot_segment(s@, i as int, b) {
                assert(starts_segment && c == '.');
            }
        }
        i = i + 1;
    }
    Ok(())
}

/// A canonical SHA-256 text: 64 lowercase hex digits.
pub open spec fn is_hex_hash(s: Seq<char>) -> bool {
    &&& s.len() == 64
    &&& forall|i: int| 0 <= i < s.len() ==> is_lower_hex(#[trigger] s[i])
}

/// A lowercase hex digit.
pub open spec fn is_lower_hex(c: char) -> bool {
    ('0' <= c && c <= '9') || ('a' <= c && c <= 'f')
}

/// Checks that `value` is 64 lowercase hex digits; `label` names the value
/// in the error.
pub fn validate_hex_hash(value: &str, label: &str) -> (result: Result<(), StoreError>)
    ensures
        result is Ok <==> is_hex_hash(value@),
        result matches Err(e) ==> e@ == (StoreErrorView::NonCanonicalHash { label: label@ }),
{
    let s = text_chars(value);
    let mut ok = s.len() == 64;
    let mut i: usize = 0;
    while i < s.len()
        invariant
            s@ == value@,
            i <= s.len(),
            ok == (s.len() == 64 && forall|k: int| 0 <= k < i ==> is_lower_hex(#[trigger] s@[k])),
        decreases s.len() - i,
    {
        let c = s[i];
        ok = ok && (('0' <= c && c <= '9') || ('a' <= c && c <= 'f'));
        i = i + 1;
    }
    if ok {
        Ok(())
    } else {
        Err(StoreError::NonCanonicalHash { label: owned_text(label) })
    }
}

/// The bytes a canonical hash text spells.
pub open spec fn hex_bytes(s: Seq<char>) -> Seq<u8> {
    Seq::new(s.len() / 2, |k: int| (16 * hex_value(s[2 * k]) + hex_value(s[2 * k + 1])) as u8)
}

fn hex_value_exec(c: char) -> (v: u8)
    requires
        is_lower_hex(c),
    ensures
        v == hex_value(c),
        v < 16,
{
    if '0' <= c && c <= '9' {
        (c as u32 - '0' as u32) as u8
    } else {
        (c as u32 - 'a' as u32 + 10) as u8
    }
}

/// Parses a canonical hash text into its 32 bytes.
pub fn parse_hex_hash(value: &str, label: &str) -> (result: Result<[u8; 32], StoreError>)
    ensures
        match result {
            Ok(bytes) => is_hex_hash(value@) && bytes@ == hex_bytes(value@),
            Err(e) => !is_hex_hash(value@) && e@ == (StoreErrorView::NonCanonicalHash { label: label@ }),
        },
{
    validate_hex_hash(value, label)?;
    let s = text_chars(value);
    let mut result = [0u8; 32];
    let mut k: usize = 0;
    while k < 32
        invariant
            s@ == value@,
            is_hex_hash(value@),
            k <= 32,
            forall|m: int| 0 <= m < k ==> result@[m] == #[trigger] hex_bytes(value@)[m],
        decreases 32 - k,
    {
        let high = hex_value_exec(s[2 * k]);
        let low = hex_value_exec(s[2 * k + 1]);
        result[k] = 16 * high + low;
        k = k + 1;
    }
    assert(result@ =~= hex_bytes(value@));
    Ok(result)
}

/// `Path::join` of a relative path onto a base directory, with `/`.
pub open spec fn join_path(base: Seq<char>, relative: Seq<char>) -> Seq<char> {
    if base.len() == 0 || base[base.len() - 1] == '/' {
        base + relative
    } else {
        base + seq!['/'] + relative
    }
}

/// The store-relative path of a manifest: `manifests/ID.json`, or
/// `variants/PLATFORM/QUALITY/ID.json` for a profiled variant.
pub open spec fn manifest_relative_path(logical_id: Seq<char>, profile: Option<ProfileId>) -> Seq<char> {
    match profile {
        None => "manifests/"@ + logical_id + ".json"@,
        Some(p) => "variants/"@ + p.platform + seq!['/'] + p.quality + seq!['/'] + logical_id + ".json"@,
    }
}

/// Joins a relative path onto a base directory.
pub fn join(base: &str, relative: &str) -> (path: String)
    ensures
        path@ == join_path(base@, relative@),
{
    let chars = text_chars(base);
    if chars.len() == 0 || chars[chars.len() - 1] == '/' {
        crate::text::concat2(base, relative)
    } else {
        proof { reveal_strlit("/"); }
        concat3(base, "/", relative)
    }
}

/// The store-relative manifest path of a logical ID and optional profile.
pub fn manifest_relative(logical_id: &str, profile: Option<&AssetProfile>) -> (path: String)
    ensures
        path@ == manifest_relative_path(logical_id@, match profile { Some(p) => Some(p@), None => None }),
{
    match profile {
        None => {
            let mut out = owned_text("manifests/");
            out.append(logical_id);
            out.append(".json");
            out
        },
        Some(p) => {
            proof { reveal_strlit("/"); }
            let mut out = owned_text("variants/");
            out.append(p.platform());
            out.append("/");
            out.append(p.quality());
            out.append("/");
            out.append(logical_id);
            out.append(".json");
            out
        },
    }
}

/// The manifest path of an unprofiled logical ID in a store.
pub fn manifest_path(store: &str, logical_id: &str) -> (path: String)
    ensures
        path@ == join_path(store@, manifest_relative_path(logical_id@, None)),
{
    let relative = manifest_relative(logical_id, None);
    join(store, relative.as_str())
}

/// The manifest path of a logical ID and optional profile in a store.
pub fn manifest_path_for_profile(store: &str, logical_id: &str, profile: Option<&AssetProfile>) -> (path: String)
    ensures
        path@ == join_path(store@, manifest_relative_path(logical_id@, match profile { Some(p) => Some(p@), None => None })),
{
    let relative = manifest_relative(logical_id, profile);
    join(store, relative.as_str())
}

/// The recipe version of geometry build keys.
pub const GEOMETRY_RECIPE_VERSION: u32 = 3;

/// The recipe version of texture build keys.
pub const TEXTURE_RECIPE_VERSION: u32 = 4;

/// The recipe version of scene build keys.
pub const SCENE_RECIPE_VERSION: u32 = 1;

/// The vertex layout of cooked geometry.
#[derive(Clone, Copy, Debug, PartialEq, Eq, Structural)]
pub enum VertexEncoding {
    /// Full-precision float32 vertices.
    Float32,
    /// Quantized 32-byte vertices.
    Quantized,
}

/// The code a vertex encoding contributes to a build key.
pub open spec fn encoding_code(e: VertexEncoding) -> u32 {
    match e {
        VertexEncoding::Float32 => 1,
        VertexEncoding::Quantized => 2,
    }
}

impl VertexEncoding {
    /// The name used in options and manifests.
    pub fn label(self) -> (label: &'static str)
        ensures
            label@ == match self {
                VertexEncoding::Float32 => "float32"@,
                VertexEncoding::Quantized => "quantized32"@,
            },
    {
        match self {
            VertexEncoding::Float32 => "float32",
            VertexEncoding::Quantized => "quantized32",
        }
    }
}

/// The bytes hashed into a geometry build key.
pub open spec fn geometry_key_bytes(
    source_sha256: Seq<u8>,
    max_vertices: u32,
    max_triangles: u32,
    page_bytes: u32,
    hierarchy_levels: u32,
    encoding: VertexEncoding,
) -> Seq<u8> {
    ascii_bytes("bloom-geometry-recipe"@) + seq![0u8] + le32(GEOMETRY_RECIPE_VERSION) + source_sha256
        + le32(max_vertices) + le32(max_triangles) + le32(page_bytes) + le32(hierarchy_levels)
        + le32(encoding_code(encoding))
}

/// The build key of a geometry recipe: SHA-256 of its recipe bytes.
pub fn geometry_build_key_sha256(
    source_sha256: [u8; 32],
    max_vertices: u32,
    max_triangles: u32,
    page_bytes: u32,
    hierarchy_levels: u32,
    vertex_encoding: VertexEncoding,
) -> (key: [u8; 32])
    ensures
        key@ == sha256_digest(geometry_key_bytes(source_sha256@, max_vertices, max_triangles, page_bytes, hierarchy_levels, vertex_encoding)),
{
    let mut bytes: Vec<u8> = Vec::new();
    push_ascii(&mut bytes, "bloom-geometry-recipe");
    bytes.push(0);
    push_u32(&mut bytes, GEOMETRY_RECIPE_VERSION);
    push_bytes(&mut bytes, &source_sha256);
    push_u32(&mut bytes, max_vertices);
    push_u32(&mut bytes, max_triangles);
    push_u32(&mut bytes, page_bytes);
    push_u32(&mut bytes, hierarchy_levels);
    let code: u32 = match vertex_encoding {
        VertexEncoding::Float32 => 1,
        VertexEncoding::Quantized => 2,
    };
    push_u32(&mut bytes, code);
    assert(bytes@ =~= geometry_key_bytes(source_sha256@, max_vertices, max_triangles, page_bytes, hierarchy_levels, vertex_encoding));
    sha256(bytes.as_slice())
}

/// The bytes hashed into a profiled build key for the recipe named `recipe`.
pub open spec fn profiled_key_bytes(recipe: Seq<char>, base_key: Seq<u8>, profile: ProfileId) -> Seq<u8> {
    ascii_bytes(recipe) + seq![0u8] + le32(1) + base_key
        + le32(encode_utf8(profile.platform).len() as u32) + encode_utf8(profile.platform)
        + le32(encode_utf8(profile.quality).len() as u32) + encode_utf8(profile.quality)
}

/// A build key specialised to a profile: the base key itself when there is
/// no profile, else SHA-256 of the recipe name, base key and profile.
pub open spec fn profiled_key(recipe: Seq<char>, base_key: Seq<u8>, profile: Option<ProfileId>) -> Seq<u8> {
    match profile {
        None => base_key,
        Some(p) => sha256_digest(profiled_key_bytes(recipe, base_key, p)),
    }
}

pub(crate) fn profiled_build_key(recipe: &str, base_key_sha256: [u8; 32], profile: Option<&AssetProfile>) -> (key: [u8; 32])
    ensures
        key@ == profiled_key(recipe@, base_key_sha256@, match profile { Some(p) => Some(p@), None => None }),
{
    match profile {
        None => base_key_sha256,
        Some(profile) => {
            let mut bytes: Vec<u8> = Vec::new();
            push_ascii(&mut bytes, recipe);
            bytes.push(0);
            push_u32(&mut bytes, 1);
            push_bytes(&mut bytes, &base_key_sha256);
            let platform = profile.platform().as_bytes();
            let quality = profile.quality().as_bytes();
            let platform_len = profile.platform().len();
            let quality_len = profile.quality().len();
            // Components are at most 32 one-byte characters.
            proof { lemma_component_bytes(profile@.platform); lemma_component_bytes(profile@.quality); }
            push_u32(&mut bytes, platform_len as u32);
            push_bytes(&mut bytes, platform);
            push_u32(&mut bytes, quality_len as u32);
            push_bytes(&mut bytes, quality);
            assert(bytes@ =~= profiled_key_bytes(recipe@, base_key_sha256@, profile@));
            sha256(bytes.as_slice())
        },
    }
}

proof fn lemma_component_bytes(s: Seq<char>)
    requires
        crate::profile::is_profile_component(s),
    ensures
        encode_utf8(s).len() == s.len(),
        s.len() <= 32,
{
    assert(vstd::utf8::is_ascii_chars(s)) by {
        assert forall|i: int| 0 <= i < s.len() implies '\0' <= #[trigger] s[i] <= '\u{7f}' by {
            assert(crate::profile::is_profile_char(s[i]));
        }
    }
    vstd::utf8::is_ascii_chars_encode_utf8(s);
}

/// The geometry build key for an optional profile.
pub fn build_key_for_profile(base_key_sha256: [u8; 32], profile: Option<&AssetProfile>) -> (key: [u8; 32])
    ensures
        key@ == profiled_key("bloom-profiled-geometry-recipe"@, base_key_sha256@, match profile { Some(p) => Some(p@), None => None }),
{
    profiled_build_key("bloom-profiled-geometry-recipe", base_key_sha256, profile)
}

/// The bytes hashed into a scene build key.
pub open spec fn scene_key_bytes(payload_sha256: Seq<u8>, profile: Option<ProfileId>) -> Seq<u8> {
    let head = ascii_bytes("bloom-scene-recipe"@) + seq![0u8] + le32(SCENE_RECIPE_VERSION) + payload_sha256;
    match profile {
        None => head,
        Some(p) => head + encode_utf8(p.platform) + seq![0u8] + encode_utf8(p.quality),
    }
}

/// The build key of a cooked scene and optional profile.
pub fn scene_build_key(payload_sha256: [u8; 32], profile: Option<&AssetProfile>) -> (key: [u8; 32])
    ensures
        key@ == sha256_digest(scene_key_bytes(payload_sha256@, match profile { Some(p) => Some(p@), None => None })),
{
    let mut bytes: Vec<u8> = Vec::new();
    push_ascii(&mut bytes, "bloom-scene-recipe");
    bytes.push(0);
    push_u32(&mut bytes, SCENE_RECIPE_VERSION);
    push_bytes(&mut bytes, &payload_sha256);
    if let Some(profile) = profile {
        push_bytes(&mut bytes, profile.platform().as_bytes());
        bytes.push(0);
        push_bytes(&mut bytes, profile.quality().as_bytes());
    }
    assert(bytes@ =~= scene_key_bytes(payload_sha256@, match profile { Some(p) => Some(p@), None => None }));
    sha256(bytes.as_slice())
}

/// Whether a build found its manifest (`hit`) and what it wrote.
#[derive(Clone, Copy, Debug, PartialEq, Eq, Structural)]
pub struct BuildOutcome {
    pub cache_hit: bool,
    pub chunk_written: bool,
    pub manifest_written: bool,
}

impl BuildOutcome {
    /// A cache hit writes nothing.
    pub fn cache_hit() -> (outcome: BuildOutcome)
        ensures
            outcome == (BuildOutcome { cache_hit: true, chunk_written: false, manifest_written: false }),
    {
        BuildOutcome { cache_hit: true, chunk_written: false, manifest_written: false }
    }

    /// A cache miss writes the manifest, and the chunk when it was new.
    pub fn cache_miss(chunk_written: bool) -> (outcome: BuildOutcome)
        ensures
            outcome == (BuildOutcome { cache_hit: false, chunk_written, manifest_written: true }),
    {
        BuildOutcome { cache_hit: false, chunk_written, manifest_written: true }
    }

    /// The report word for the cache: `hit` or `miss`.
    pub fn cache(self) -> (word: &'static str)
        ensures
            word@ == if self.cache_hit { "hit"@ } else { "miss"@ },
    {
        if self.cache_hit { "hit" } else { "miss" }
    }
}

proof fn lemma_hex_text_digits(b: Seq<u8>)
    ensures
        hex_text(b).len() == 2 * b.len(),
        forall|k: int| 0 <= k < b.len() ==> #[trigger] hex_text(b)[2 * k] == crate::bytes::hex_digit((b[k] / 16) as nat)
            && hex_text(b)[2 * k + 1] == crate::bytes::hex_digit((b[k] % 16) as nat),
    decreases b.len(),
{
    if b.len() > 0 {
        let front = b.drop_last();
        lemma_hex_text_digits(front);
        assert forall|k: int| 0 <= k < b.len() implies #[trigger] hex_text(b)[2 * k] == crate::bytes::hex_digit((b[k] / 16) as nat)
            && hex_text(b)[2 * k + 1] == crate::bytes::hex_digit((b[k] % 16) as nat) by {
            if k < b.len() - 1 {
                assert(front[k] == b[k]);
                assert(hex_text(front)[2 * k] == crate::bytes::hex_digit((front[k] / 16) as nat));
            }
        }
    }
}

proof fn lemma_hex_digit_value(v: nat)
    requires
        v < 16,
    ensures
        is_lower_hex(crate::bytes::hex_digit(v)),
        hex_value(crate::bytes::hex_digit(v)) == v,
{
}

/// Hex text and its bytes are inverse: the text of 32 bytes is a canonical
/// hash, and parsing it gives the bytes back.
pub proof fn law_hex_text_round_trips(b: Seq<u8>)
    requires
        b.len() == 32,
    ensures
        is_hex_hash(hex_text(b)),
        hex_bytes(hex_text(b)) == b,
{
    lemma_hex_text_digits(b);
    let t = hex_text(b);
    assert forall|i: int| 0 <= i < t.len() implies is_lower_hex(#[trigger] t[i]) by {
        let k = i / 2;
        if i % 2 == 0 {
            assert(i == 2 * k);
            lemma_hex_digit_value((b[k] / 16) as nat);
        } else {
            assert(i == 2 * k + 1);
            assert(t[2 * k] == crate::bytes::hex_digit((b[k] / 16) as nat));
            lemma_hex_digit_value((b[k] % 16) as nat);
            assert(t[2 * k + 1] == crate::bytes::hex_digit((b[k] % 16) as nat));
        }
    }
    assert forall|k: int| 0 <= k < b.len() implies #[trigger] hex_bytes(t)[k] == b[k] by {
        assert(t[2 * k] == crate::bytes::hex_digit((b[k] / 16) as nat));
        lemma_hex_digit_value((b[k] / 16) as nat);
        lemma_hex_digit_value((b[k] % 16) as nat);
    }
    assert(hex_bytes(t) =~= b);
}

/// Two geometry recipes hash the same bytes only when they are the same
/// recipe: the build key follows the source and every setting, barring a
/// SHA-256 collision.
pub proof fn law_geometry_key_input_identifies_recipe(
    source_a: Seq<u8>, max_vertices_a: u32, max_triangles_a: u32, page_a: u32, levels_a: u32, encoding_a: VertexEncoding,
    source_b: Seq<u8>, max_vertices_b: u32, max_triangles_b: u32, page_b: u32, levels_b: u32, encoding_b: VertexEncoding,
)
    requires
        source_a.len() == 32,
        source_b.len() == 32,
        geometry_key_bytes(source_a, max_vertices_a, max_triangles_a, page_a, levels_a, encoding_a)
            == geometry_key_bytes(source_b, max_vertices_b, max_triangles_b, page_b, levels_b, encoding_b),
    ensures
        source_a == source_b,
        max_vertices_a == max_vertices_b,
        max_triangles_a == max_triangles_b,
        page_a == page_b,
        levels_a == levels_b,
        encoding_a == encoding_b,
{
    reveal_strlit("bloom-geometry-recipe");
    let head = ascii_bytes("bloom-geometry-recipe"@) + seq![0u8] + le32(GEOMETRY_RECIPE_VERSION);
    assert(head.len() == 26);
    let x = geometry_key_bytes(source_a, max_vertices_a, max_triangles_a, page_a, levels_a, encoding_a);
    let y = geometry_key_bytes(source_b, max_vertices_b, max_triangles_b, page_b, levels_b, encoding_b);
    assert(x.subrange(26, 58) =~= source_a);
    assert(y.subrange(26, 58) =~= source_b);
    assert(x.subrange(58, 62) =~= le32(max_vertices_a));
    assert(y.subrange(58, 62) =~= le32(max_vertices_b));
    assert(x.subrange(62, 66) =~= le32(max_triangles_a));
    assert(y.subrange(62, 66) =~= le32(max_triangles_b));
    assert(x.subrange(66, 70) =~= le32(page_a));
    assert(y.subrange(66, 70) =~= le32(page_b));
    assert(x.subrange(70, 74) =~= le32(levels_a));
    assert(y.subrange(70, 74) =~= le32(levels_b));
    assert(x.subrange(74, 78) =~= le32(encoding_code(encoding_a)));
    assert(y.subrange(74, 78) =~= le32(encoding_code(encoding_b)));
    lemma_le32_injective(max_vertices_a, max_vertices_b);
    lemma_le32_injective(max_triangles_a, max_triangles_b);
    lemma_le32_injective(page_a, page_b);
    lemma_le32_injective(levels_a, levels_b);
    lemma_le32_injective(encoding_code(encoding_a), encoding_code(encoding_b));
}

proof fn lemma_component_encoding(s: Seq<char>)
    requires
        crate::profile::is_profile_component(s),
    ensures
        encode_utf8(s).len() == s.len(),
        s.len() <= 32,
{
    assert(vstd::utf8::is_ascii_chars(s)) by {
        assert forall|i: int| 0 <= i < s.len() implies '\0' <= #[trigger] s[i] <= '\u{7f}' by {
            assert(crate::profile::is_profile_char(s[i]));
        }
    }
    vstd::utf8::is_ascii_chars_encode_utf8(s);
}

/// A profiled key's hashed bytes determine the base key and the profile:
/// two profiles (or two base keys) never share them, barring a SHA-256
/// collision.
pub proof fn law_profiled_key_input_identifies_profile(recipe: Seq<char>, base_a: Seq<u8>, a: ProfileId, base_b: Seq<u8>, b: ProfileId)
    requires
        base_a.len() == 32,
        base_b.len() == 32,
        crate::profile::is_profile_component(a.platform) && crate::profile::is_profile_component(a.quality),
        crate::profile::is_profile_component(b.platform) && crate::profile::is_profile_component(b.quality),
        profiled_key_bytes(recipe, base_a, a) == profiled_key_bytes(recipe, base_b, b),
    ensures
        base_a == base_b,
        a == b,
{
    lemma_component_encoding(a.platform);
    lemma_component_encoding(a.quality);
    lemma_component_encoding(b.platform);
    lemma_component_encoding(b.quality);
    let x = profiled_key_bytes(recipe, base_a, a);
    let y = profiled_key_bytes(recipe, base_b, b);
    let h = ascii_bytes(recipe).len() as int + 5;
    let (pa, qa) = (encode_utf8(a.platform), encode_utf8(a.quality));
    let (pb, qb) = (encode_utf8(b.platform), encode_utf8(b.quality));
    assert(x.subrange(h, h + 32) =~= base_a);
    assert(y.subrange(h, h + 32) =~= base_b);
    assert(x.subrange(h + 32, h + 36) =~= le32(pa.len() as u32));
    assert(y.subrange(h + 32, h + 36) =~= le32(pb.len() as u32));
    lemma_le32_injective(pa.len() as u32, pb.len() as u32);
    let lp = pa.len() as int;
    assert(x.subrange(h + 36, h + 36 + lp) =~= pa);
    assert(y.subrange(h + 36, h + 36 + lp) =~= pb);
    vstd::utf8::encode_utf8_decode_utf8(a.platform);
    vstd::utf8::encode_utf8_decode_utf8(b.platform);
    assert(x.subrange(h + 36 + lp, h + 40 + lp) =~= le32(qa.len() as u32));
    assert(y.subrange(h + 36 + lp, h + 40 + lp) =~= le32(qb.len() as u32));
    lemma_le32_injective(qa.len() as u32, qb.len() as u32);
    let lq = qa.len() as int;
    assert(x.subrange(h + 40 + lp, h + 40 + lp + lq) =~= qa);
    assert(y.subrange(h + 40 + lp, h + 40 + lp + lq) =~= qb);
    vstd::utf8::encode_utf8_decode_utf8(a.quality);
    vstd::utf8::encode_utf8_decode_utf8(b.quality);
}

} // verus!

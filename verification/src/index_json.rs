//! Reading the asset index from its JSON bytes, and resolving a request
//! among the entries of one logical ID.

use vstd::prelude::*;
use crate::json::{
    json_array_len, json_array_len_at, json_parse_error, json_parse_error_text, json_text, json_text_at, json_u64,
    json_u64_at,
};
use crate::manifest::{manifest_error_text, opt_chars, profile_from_fields, profile_of_fields, ManifestError, ManifestErrorView, ProfileFields};
use crate::manifest_json::{profile_fields_at, read_profile_fields};
use crate::resolver::{
    copy_candidate, lemma_selected_entry_in_range, resolve_selection, select_variant, CandidateProfile, CandidateView,
    ResolutionError, ResolutionErrorView, ResolutionRequest, SelectionKind,
};
use crate::text::{concat2, concat3, debug_quoted, debug_text, decimal_digits, decimal_text, owned_text, text_eq};

verus! {

/// Why the asset index could not be read.
#[derive(Debug)]
pub enum IndexError {
    /// The index is not JSON; the text says why.
    Unparsable { detail: String },
    /// `schema` is missing or not a string.
    SchemaMissing,
    /// `schema` names no index version this reader knows.
    UnsupportedSchema { schema: String },
    /// `entries` is missing or not an array.
    EntriesMissing,
}

pub enum IndexErrorView {
    Unparsable { detail: Seq<char> },
    SchemaMissing,
    UnsupportedSchema { schema: Seq<char> },
    EntriesMissing,
}

impl View for IndexError {
    type V = IndexErrorView;

    open spec fn view(&self) -> IndexErrorView {
        match self {
            IndexError::Unparsable { detail } => IndexErrorView::Unparsable { detail: detail@ },
            IndexError::SchemaMissing => IndexErrorView::SchemaMissing,
            IndexError::UnsupportedSchema { schema } => IndexErrorView::UnsupportedSchema { schema: schema@ },
            IndexError::EntriesMissing => IndexErrorView::EntriesMissing,
        }
    }
}

/// The text of an index error.
pub open spec fn index_error_text(e: IndexErrorView) -> Seq<char> {
    match e {
        IndexErrorView::Unparsable { detail } => "parse validated asset index: "@ + detail,
        IndexErrorView::SchemaMissing => "asset index schema is missing or not a string"@,
        IndexErrorView::UnsupportedSchema { schema } =>
            "unsupported asset index schema "@ + debug_text(schema) + "; recook assets"@,
        IndexErrorView::EntriesMissing => "asset index entries are missing or not an array"@,
    }
}

impl IndexError {
    /// The human-readable text of this error.
    pub fn message(&self) -> (text: String)
        ensures
            text@ == index_error_text(self@),
    {
        match self {
            IndexError::Unparsable { detail } => concat2("parse validated asset index: ", detail.as_str()),
            IndexError::SchemaMissing => owned_text("asset index schema is missing or not a string"),
            IndexError::UnsupportedSchema { schema } => {
                let q = debug_quoted(schema.as_str());
                concat3("unsupported asset index schema ", q.as_str(), "; recook assets")
            },
            IndexError::EntriesMissing => owned_text("asset index entries are missing or not an array"),
        }
    }
}

/// What an index entry records of its artifact and manifest.
#[derive(Debug)]
pub struct IndexedArtifact {
    pub path: Option<String>,
    pub sha256: Option<String>,
    pub bytes: Option<u64>,
    pub build_key_sha256: Option<String>,
    pub manifest_path: Option<String>,
}

/// One entry of the asset index.
#[derive(Debug)]
pub struct IndexEntry {
    pub logical_id: Option<String>,
    /// `None` when the entry has no `profile` key; `Some(None)` when the
    /// value is not an object.
    pub profile_fields: Option<Option<ProfileFields>>,
    /// What the profile fields make of the entry as a resolution candidate.
    pub profile: CandidateProfile,
    pub artifact: IndexedArtifact,
}

/// The candidate an entry with these profile fields is: no profile, a valid
/// profile, a profile with a refused component, or one that is not an
/// object of two strings.
pub open spec fn candidate_from_fields(f: Option<Option<ProfileFields>>) -> CandidateView {
    match f {
        None => CandidateView::Unprofiled,
        Some(p) => match profile_of_fields(p) {
            Ok(id) => CandidateView::Profiled(id),
            Err(ManifestErrorView::Profile(e)) => CandidateView::Malformed(e),
            Err(e) => CandidateView::Unreadable(manifest_error_text(e)),
        },
    }
}

fn candidate_of(f: &Option<Option<ProfileFields>>) -> (c: CandidateProfile)
    ensures
        c@ == candidate_from_fields(*f),
{
    match f {
        None => CandidateProfile::Unprofiled,
        Some(p) => match profile_from_fields(p) {
            Ok(a) => CandidateProfile::Profiled(a),
            Err(ManifestError::Profile(e)) => CandidateProfile::Malformed(e),
            Err(e) => CandidateProfile::Unreadable(e.message()),
        },
    }
}

/// The pointer of entry `k`.
pub open spec fn entry_base(k: nat) -> Seq<char> {
    "/entries/"@ + decimal_digits(k)
}

/// `e` holds what the index document holds for entry `k`.
pub open spec fn entry_at(e: &IndexEntry, b: Seq<u8>, k: nat) -> bool {
    let base = entry_base(k);
    &&& opt_chars(e.logical_id) == json_text(b, base + "/logical_id"@)
    &&& profile_fields_at(e.profile_fields, b, base + "/profile"@)
    &&& e.profile@ == candidate_from_fields(e.profile_fields)
    &&& opt_chars(e.artifact.path) == json_text(b, base + "/artifact/path"@)
    &&& opt_chars(e.artifact.sha256) == json_text(b, base + "/artifact/sha256"@)
    &&& e.artifact.bytes == json_u64(b, base + "/artifact/bytes"@)
    &&& opt_chars(e.artifact.build_key_sha256) == json_text(b, base + "/build_key_sha256"@)
    &&& opt_chars(e.artifact.manifest_path) == json_text(b, base + "/manifest/path"@)
}

/// Reads entry `k` of the index.
fn read_entry(bytes: &[u8], k: usize) -> (e: IndexEntry)
    ensures
        entry_at(&e, bytes@, k as nat),
{
    let number = decimal_text(k as u64);
    let base = concat2("/entries/", number.as_str());
    let b = base.as_str();
    let profile_fields = read_profile_fields(bytes, concat2(b, "/profile").as_str());
    let profile = candidate_of(&profile_fields);
    IndexEntry {
        logical_id: json_text_at(bytes, concat2(b, "/logical_id").as_str()),
        profile_fields,
        profile,
        artifact: IndexedArtifact {
            path: json_text_at(bytes, concat2(b, "/artifact/path").as_str()),
            sha256: json_text_at(bytes, concat2(b, "/artifact/sha256").as_str()),
            bytes: json_u64_at(bytes, concat2(b, "/artifact/bytes").as_str()),
            build_key_sha256: json_text_at(bytes, concat2(b, "/build_key_sha256").as_str()),
            manifest_path: json_text_at(bytes, concat2(b, "/manifest/path").as_str()),
        },
    }
}

/// The schemas of the index that this reader knows.
pub open spec fn known_index_schema(s: Seq<char>) -> bool {
    s == "bloom-asset-index-v1"@ || s == "bloom-asset-index-v2"@
}

/// The outcome of reading an index, before its entries: not JSON, no
/// string `schema`, an unknown schema, no `entries` array, or the number
/// of entries.
pub open spec fn index_shape(b: Seq<u8>) -> Result<nat, IndexErrorView> {
    match json_parse_error(b) {
        Some(d) => Err(IndexErrorView::Unparsable { detail: d }),
        None => match json_text(b, "/schema"@) {
            None => Err(IndexErrorView::SchemaMissing),
            Some(s) => if !known_index_schema(s) {
                Err(IndexErrorView::UnsupportedSchema { schema: s })
            } else {
                match json_array_len(b, "/entries"@) {
                    None => Err(IndexErrorView::EntriesMissing),
                    Some(n) => Ok(n),
                }
            },
        },
    }
}

/// Reads the asset index: its schema must be a known one and its entries
/// an array; each entry is read in order.
pub fn read_asset_index(bytes: &[u8]) -> (r: Result<Vec<IndexEntry>, IndexError>)
    ensures
        match index_shape(bytes@) {
            Err(e) => r matches Err(x) && x@ == e,
            Ok(n) => r matches Ok(es) && es@.len() == n
                && forall|k: int| 0 <= k < n ==> #[trigger] entry_at(&es@[k], bytes@, k as nat),
        },
{
    if let Some(detail) = json_parse_error_text(bytes) {
        return Err(IndexError::Unparsable { detail });
    }
    let schema = match json_text_at(bytes, "/schema") {
        Some(s) => s,
        None => return Err(IndexError::SchemaMissing),
    };
    if !text_eq(schema.as_str(), "bloom-asset-index-v1") && !text_eq(schema.as_str(), "bloom-asset-index-v2") {
        return Err(IndexError::UnsupportedSchema { schema });
    }
    let n = match json_array_len_at(bytes, "/entries") {
        Some(n) => n,
        None => return Err(IndexError::EntriesMissing),
    };
    let mut entries: Vec<IndexEntry> = Vec::new();
    let mut k: usize = 0;
    while k < n
        invariant
            k <= n,
            entries@.len() == k,
            forall|j: int| 0 <= j < k ==> #[trigger] entry_at(&entries@[j], bytes@, j as nat),
        decreases n - k,
    {
        let e = read_entry(bytes, k);
        entries.push(e);
        k = k + 1;
    }
    Ok(entries)
}

/// The positions of the entries of a logical ID, in index order.
pub open spec fn entries_of(es: Seq<IndexEntry>, id: Seq<char>) -> Seq<int>
    decreases es.len(),
{
    if es.len() == 0 {
        seq![]
    } else {
        let rest = entries_of(es.drop_last(), id);
        if opt_chars(es.last().logical_id) == Some(id) { rest.push(es.len() - 1) } else { rest }
    }
}

/// The candidates of a logical ID: the profiles of its entries, in index
/// order.
pub open spec fn candidates_of(es: Seq<IndexEntry>, id: Seq<char>) -> Seq<CandidateView> {
    entries_of(es, id).map_values(|k: int| es[k].profile@)
}

proof fn lemma_entries_of_bounds(es: Seq<IndexEntry>, id: Seq<char>)
    ensures
        forall|i: int| 0 <= i < entries_of(es, id).len() ==> 0 <= #[trigger] entries_of(es, id)[i] < es.len(),
        entries_of(es, id).len() <= es.len(),
    decreases es.len(),
{
    if es.len() > 0 {
        lemma_entries_of_bounds(es.drop_last(), id);
    }
}

/// Resolves a request among the index entries of `logical_id`: the
/// position of the chosen entry in the index and how it was chosen.
pub fn resolve_in_index(entries: &Vec<IndexEntry>, logical_id: &str, request: &ResolutionRequest) -> (r: Result<(usize, SelectionKind), ResolutionError>)
    ensures
        match resolve_selection(candidates_of(entries@, logical_id@), request@) {
            Ok(s) => r matches Ok((k, kind)) && k == entries_of(entries@, logical_id@)[s.entry as int] && kind == s.kind,
            Err(e) => r matches Err(x) && x@ == e,
        },
{
    let ghost pos = entries_of(entries@, logical_id@);
    let mut candidates: Vec<CandidateProfile> = Vec::new();
    let mut positions: Vec<usize> = Vec::new();
    let mut k: usize = 0;
    while k < entries.len()
        invariant
            k <= entries.len(),
            candidates@.len() == positions@.len(),
            positions@.len() == entries_of(entries@.take(k as int), logical_id@).len(),
            forall|i: int| 0 <= i < positions@.len() ==> #[trigger] positions@[i] as int
                == entries_of(entries@.take(k as int), logical_id@)[i],
            forall|i: int| 0 <= i < positions@.len() ==> #[trigger] candidates@[i]@ == entries@[positions@[i] as int].profile@,
            forall|i: int| 0 <= i < positions@.len() ==> #[trigger] positions@[i] < k,
        decreases entries.len() - k,
    {
        assert(entries@.take(k + 1).drop_last() =~= entries@.take(k as int));
        let matches = match &entries[k].logical_id {
            Some(id) => text_eq(id.as_str(), logical_id),
            None => false,
        };
        if matches {
            candidates.push(copy_candidate(&entries[k].profile));
            positions.push(k);
        }
        k = k + 1;
    }
    assert(entries@.take(entries.len() as int) =~= entries@);
    proof {
        lemma_entries_of_bounds(entries@, logical_id@);
        assert(crate::resolver::candidate_views(candidates@) =~= candidates_of(entries@, logical_id@));
        lemma_selected_entry_in_range(candidates_of(entries@, logical_id@), request@);
    }
    match select_variant(&candidates, request) {
        Ok(s) => Ok((positions[s.entry], s.kind)),
        Err(e) => Err(e),
    }
}

} // verus!

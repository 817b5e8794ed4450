//! Assembly of the cooked geometry container: the header, the cluster,
//! page and compatibility tables, then the payload at a 16-byte boundary.
//!
//! The container's magic bytes, version words and endianness tag are the
//! format's own constants; the caller passes them.

use vstd::prelude::*;
use crate::bytes::{le32, le64, push_bytes, push_u32, push_u64, sha256, sha256_digest};
use crate::pages::{
    aligned, breaks_page, checked_table_end, close_page, encoded_bytes, open_page, payload_total, place_cluster, plan_from,
    plan_start, table_end, FootprintView, PageError, PlanState,
};
use crate::records::{
    cluster_record_bytes, encode_cluster_record, encode_page_record, page_record_bytes, ClusterRecord, PageRecord,
    CLUSTER_RECORD_BYTES, PAGE_RECORD_BYTES,
};
use crate::text::{concat2, decimal_digits, decimal_text, owned_text};

verus! {

/// Bytes of one compatibility record.
pub const COMPATIBILITY_RECORD_BYTES: usize = 16;

/// Why a primitive was cooked in a compatibility form, and its detail.
#[derive(Clone, Copy, Debug, PartialEq, Eq, Structural)]
pub struct CompatibilityEntry {
    pub mesh_index: u32,
    pub primitive_index: u32,
    /// The numeric code of the reason.
    pub reason: u32,
    pub detail: u32,
}

/// The constants of the container format.
#[derive(Clone, Copy, Debug, PartialEq, Eq, Structural)]
pub struct FormatWords {
    pub version: u32,
    pub endian_tag: u32,
}

/// Header bytes after the magic bytes.
pub open spec fn header_tail_bytes() -> nat {
    152
}

/// The bytes of a compatibility record.
pub open spec fn compatibility_bytes(r: CompatibilityEntry) -> Seq<u8> {
    le32(r.mesh_index) + le32(r.primitive_index) + le32(r.reason) + le32(r.detail)
}

/// The cluster table.
pub open spec fn cluster_table(cs: Seq<ClusterRecord>) -> Seq<u8>
    decreases cs.len(),
{
    if cs.len() == 0 { seq![] } else { cluster_table(cs.drop_last()) + cluster_record_bytes(cs.last()) }
}

/// The page table.
pub open spec fn page_table(ps: Seq<PageRecord>) -> Seq<u8>
    decreases ps.len(),
{
    if ps.len() == 0 { seq![] } else { page_table(ps.drop_last()) + page_record_bytes(ps.last()) }
}

/// The compatibility table.
pub open spec fn compatibility_table(rs: Seq<CompatibilityEntry>) -> Seq<u8>
    decreases rs.len(),
{
    if rs.len() == 0 { seq![] } else { compatibility_table(rs.drop_last()) + compatibility_bytes(rs.last()) }
}

/// Where the tables and the payload lie: the page table, compatibility
/// table, end of the tables, payload and end of file, or the first error.
pub open spec fn container_layout(header: nat, clusters: nat, pages: nat, compatibility: nat, payload: nat) -> Result<(nat, nat, nat, nat, nat), Seq<char>> {
    match table_end(header, clusters, CLUSTER_RECORD_BYTES as nat, "cluster table"@) {
        Err(e) => Err(e),
        Ok(page_table) => match table_end(page_table, pages, PAGE_RECORD_BYTES as nat, "page table"@) {
            Err(e) => Err(e),
            Ok(compat_table) => match table_end(compat_table, compatibility, COMPATIBILITY_RECORD_BYTES as nat, "compatibility table"@) {
                Err(e) => Err(e),
                Ok(tables_end) => if tables_end + 15 > usize::MAX || aligned(tables_end, 16) + payload > usize::MAX {
                    Err("geometry file length overflow"@)
                } else {
                    Ok((page_table, compat_table, tables_end, aligned(tables_end, 16), aligned(tables_end, 16) + payload))
                },
            },
        },
    }
}

/// The first part of a container header: magic, version, header size,
/// endianness tag, then the source and payload digests.
#[verifier::opaque]
pub open spec fn header_front(magic: Seq<u8>, words: FormatWords, source_sha256: Seq<u8>, payload_sha256: Seq<u8>) -> Seq<u8> {
    magic + le32(words.version) + le32((magic.len() + header_tail_bytes()) as u32) + le32(words.endian_tag) + le32(0)
        + source_sha256 + payload_sha256
}

/// The rest of a container header: record counts, table offsets, payload
/// extent, file size and page budget.
#[verifier::opaque]
pub open spec fn header_back(counts: (u32, u32, u32), offsets: (u64, u64, u64, u64), payload_len: u64, file_bytes: u64, page_budget_bytes: u32) -> Seq<u8> {
    le32(counts.0) + le32(counts.1) + le32(counts.2) + le32(0)
        + le64(offsets.0) + le64(offsets.1) + le64(offsets.2) + le64(offsets.3)
        + le64(payload_len) + le64(file_bytes) + le32(page_budget_bytes) + le32(0)
}

/// The header of a container.
pub open spec fn header_bytes(
    magic: Seq<u8>,
    words: FormatWords,
    source_sha256: Seq<u8>,
    payload_sha256: Seq<u8>,
    counts: (u32, u32, u32),
    offsets: (u64, u64, u64, u64),
    payload_len: u64,
    file_bytes: u64,
    page_budget_bytes: u32,
) -> Seq<u8> {
    header_front(magic, words, source_sha256, payload_sha256)
        + header_back(counts, offsets, payload_len, file_bytes, page_budget_bytes)
}

/// Whether some cluster belongs to the primitive that a compatibility
/// record routes elsewhere.
pub open spec fn overlaps_cluster(clusters: Seq<ClusterRecord>, r: CompatibilityEntry) -> bool {
    exists|k: int| 0 <= k < clusters.len() && (#[trigger] clusters[k]).mesh_index == r.mesh_index
        && clusters[k].primitive_index == r.primitive_index
}

/// Whether an earlier compatibility record routes the same primitive as
/// record `i`.
pub open spec fn repeats_earlier(rs: Seq<CompatibilityEntry>, i: int) -> bool {
    exists|j: int| 0 <= j < i && (#[trigger] rs[j]).mesh_index == rs[i].mesh_index
        && rs[j].primitive_index == rs[i].primitive_index
}

/// ` mesh M primitive P` of a record.
pub open spec fn route_text(r: CompatibilityEntry) -> Seq<char> {
    " mesh "@ + decimal_digits(r.mesh_index as nat) + " primitive "@ + decimal_digits(r.primitive_index as nat)
}

/// The first fault among the compatibility records from `i` on: a record
/// whose primitive also has eligible clusters, or one that repeats the
/// primitive of an earlier record.
pub open spec fn route_check_from(clusters: Seq<ClusterRecord>, rs: Seq<CompatibilityEntry>, i: int) -> Result<(), Seq<char>>
    decreases rs.len() - i,
{
    if i < 0 || i >= rs.len() {
        Ok(())
    } else if overlaps_cluster(clusters, rs[i]) {
        Err("compatibility route overlaps eligible"@ + route_text(rs[i]))
    } else if repeats_earlier(rs, i) {
        Err("compatibility route duplicates"@ + route_text(rs[i]))
    } else {
        route_check_from(clusters, rs, i + 1)
    }
}

/// The text of the first fault among the compatibility records.
pub open spec fn route_fault(clusters: Seq<ClusterRecord>, rs: Seq<CompatibilityEntry>) -> Seq<char> {
    match route_check_from(clusters, rs, 0) {
        Err(t) => t,
        Ok(()) => seq![],
    }
}

fn route_message(prefix: &str, r: CompatibilityEntry) -> (text: String)
    ensures
        text@ == prefix@ + route_text(r),
{
    let mut out = concat2(prefix, " mesh ");
    let m = decimal_text(r.mesh_index as u64);
    out.append(m.as_str());
    out.append(" primitive ");
    let q = decimal_text(r.primitive_index as u64);
    out.append(q.as_str());
    out
}

/// Checks that the compatibility records and the clusters split the
/// primitives: no record routes a primitive that has clusters, and no two
/// records route the same primitive.
pub fn check_compatibility_routes(clusters: &Vec<ClusterRecord>, compatibility: &Vec<CompatibilityEntry>) -> (result: Result<(), String>)
    ensures
        match route_check_from(clusters@, compatibility@, 0) {
            Ok(()) => result is Ok,
            Err(t) => result matches Err(e) && e@ == t,
        },
{
    let mut i: usize = 0;
    while i < compatibility.len()
        invariant
            i <= compatibility@.len(),
            route_check_from(clusters@, compatibility@, 0) == route_check_from(clusters@, compatibility@, i as int),
        decreases compatibility.len() - i,
    {
        let r = compatibility[i];
        let mut k: usize = 0;
        while k < clusters.len()
            invariant
                k <= clusters@.len(),
                i < compatibility@.len(),
                r == compatibility@[i as int],
                route_check_from(clusters@, compatibility@, 0) == route_check_from(clusters@, compatibility@, i as int),
                forall|q: int| 0 <= q < k ==> !((#[trigger] clusters@[q]).mesh_index == r.mesh_index
                    && clusters@[q].primitive_index == r.primitive_index),
            decreases clusters.len() - k,
        {
            if clusters[k].mesh_index == r.mesh_index && clusters[k].primitive_index == r.primitive_index {
                assert(overlaps_cluster(clusters@, r)) by {
                    assert(clusters@[k as int].mesh_index == r.mesh_index);
                }
                return Err(route_message("compatibility route overlaps eligible", r));
            }
            k = k + 1;
        }
        assert(!overlaps_cluster(clusters@, r));
        let mut j: usize = 0;
        while j < i
            invariant
                j <= i < compatibility@.len(),
                r == compatibility@[i as int],
                !overlaps_cluster(clusters@, r),
                route_check_from(clusters@, compatibility@, 0) == route_check_from(clusters@, compatibility@, i as int),
                forall|q: int| 0 <= q < j ==> !((#[trigger] compatibility@[q]).mesh_index == r.mesh_index
                    && compatibility@[q].primitive_index == r.primitive_index),
            decreases i - j,
        {
            if compatibility[j].mesh_index == r.mesh_index && compatibility[j].primitive_index == r.primitive_index {
                assert(repeats_earlier(compatibility@, i as int)) by {
                    assert(compatibility@[j as int].mesh_index == r.mesh_index);
                }
                return Err(route_message("compatibility route duplicates", r));
            }
            j = j + 1;
        }
        assert(!repeats_earlier(compatibility@, i as int));
        i = i + 1;
    }
    Ok(())
}

/// The bytes of a container, or the first error: table and file extents
/// must fit in `usize`, record counts in `u32`, and the compatibility
/// records and the clusters must split the primitives between them.
pub open spec fn container_bytes(
    magic: Seq<u8>,
    words: FormatWords,
    source_sha256: Seq<u8>,
    clusters: Seq<ClusterRecord>,
    pages: Seq<PageRecord>,
    compatibility: Seq<CompatibilityEntry>,
    payload: Seq<u8>,
    page_budget_bytes: u32,
) -> Result<Seq<u8>, Seq<char>> {
    let header = magic.len() + header_tail_bytes();
    match container_layout(header, clusters.len(), pages.len(), compatibility.len(), payload.len()) {
        Err(e) => Err(e),
        Ok((page_at, compat_at, tables_end, payload_at, file_bytes)) => if clusters.len() > u32::MAX {
            Err("cluster count"@ + " exceeds u32"@)
        } else if pages.len() > u32::MAX {
            Err("page count"@ + " exceeds u32"@)
        } else if compatibility.len() > u32::MAX {
            Err("compatibility count"@ + " exceeds u32"@)
        } else if route_check_from(clusters, compatibility, 0) is Err {
            Err(route_fault(clusters, compatibility))
        } else {
            Ok(header_bytes(
                magic,
                words,
                source_sha256,
                sha256_digest(payload),
                (clusters.len() as u32, pages.len() as u32, compatibility.len() as u32),
                (header as u64, page_at as u64, compat_at as u64, payload_at as u64),
                payload.len() as u64,
                file_bytes as u64,
                page_budget_bytes,
            ) + cluster_table(clusters) + page_table(pages) + compatibility_table(compatibility)
                + Seq::new((payload_at - tables_end) as nat, |i: int| 0u8) + payload)
        },
    }
}

fn push_header(
    output: &mut Vec<u8>,
    magic: &[u8],
    words: FormatWords,
    source_sha256: &[u8; 32],
    payload_sha256: &[u8; 32],
    counts: (u32, u32, u32),
    offsets: (u64, u64, u64, u64),
    payload_len: u64,
    file_bytes: u64,
    page_budget_bytes: u32,
)
    requires
        magic@.len() + header_tail_bytes() <= u32::MAX,
    ensures
        final(output)@ == old(output)@ + header_bytes(magic@, words, source_sha256@, payload_sha256@, counts, offsets, payload_len, file_bytes, page_budget_bytes),
        header_bytes(magic@, words, source_sha256@, payload_sha256@, counts, offsets, payload_len, file_bytes, page_budget_bytes).len()
            == magic@.len() + header_tail_bytes(),
{
    let ghost start = output@;
    push_header_front(output, magic, words, source_sha256, payload_sha256);
    push_header_back(output, counts, offsets, payload_len, file_bytes, page_budget_bytes);
    assert(output@ =~= start + header_bytes(magic@, words, source_sha256@, payload_sha256@, counts, offsets, payload_len, file_bytes, page_budget_bytes));
}

fn push_header_front(output: &mut Vec<u8>, magic: &[u8], words: FormatWords, source_sha256: &[u8; 32], payload_sha256: &[u8; 32])
    requires
        magic@.len() + header_tail_bytes() <= u32::MAX,
    ensures
        final(output)@ == old(output)@ + header_front(magic@, words, source_sha256@, payload_sha256@),
        header_front(magic@, words, source_sha256@, payload_sha256@).len() == magic@.len() + 80,
{
    let ghost start = output@;
    push_bytes(output, magic);
    push_u32(output, words.version);
    push_u32(output, (magic.len() + 152) as u32);
    push_u32(output, words.endian_tag);
    push_u32(output, 0);
    push_bytes(output, source_sha256);
    push_bytes(output, payload_sha256);
    reveal(header_front);
    assert(output@ =~= start + header_front(magic@, words, source_sha256@, payload_sha256@));
}

fn push_header_back(output: &mut Vec<u8>, counts: (u32, u32, u32), offsets: (u64, u64, u64, u64), payload_len: u64, file_bytes: u64, page_budget_bytes: u32)
    ensures
        final(output)@ == old(output)@ + header_back(counts, offsets, payload_len, file_bytes, page_budget_bytes),
        header_back(counts, offsets, payload_len, file_bytes, page_budget_bytes).len() == 72,
{
    let ghost start = output@;
    push_u32(output, counts.0);
    push_u32(output, counts.1);
    push_u32(output, counts.2);
    push_u32(output, 0);
    push_u64(output, offsets.0);
    push_u64(output, offsets.1);
    push_u64(output, offsets.2);
    push_u64(output, offsets.3);
    push_u64(output, payload_len);
    push_u64(output, file_bytes);
    push_u32(output, page_budget_bytes);
    push_u32(output, 0);
    reveal(header_back);
    assert(output@ =~= start + header_back(counts, offsets, payload_len, file_bytes, page_budget_bytes));
}

/// Assembles a container from its records and payload; `magic` and
/// `words` are the format's constants.
#[verifier::spinoff_prover]
pub fn assemble_container(
    magic: &[u8],
    words: FormatWords,
    source_sha256: [u8; 32],
    clusters: &Vec<ClusterRecord>,
    pages: &Vec<PageRecord>,
    compatibility: &Vec<CompatibilityEntry>,
    payload: &Vec<u8>,
    page_budget_bytes: u32,
) -> (result: Result<Vec<u8>, String>)
    requires
        magic@.len() + header_tail_bytes() <= u32::MAX,
    ensures
        match container_bytes(magic@, words, source_sha256@, clusters@, pages@, compatibility@, payload@, page_budget_bytes) {
            Ok(bytes) => result matches Ok(out) && out@ == bytes,
            Err(t) => result matches Err(e) && e@ == t,
        },
{
    let header = magic.len() + 152;
    let page_at = match checked_table_end(header, clusters.len(), CLUSTER_RECORD_BYTES, "cluster table") {
        Ok(v) => v,
        Err(e) => return Err(e),
    };
    let compat_at = match checked_table_end(page_at, pages.len(), PAGE_RECORD_BYTES, "page table") {
        Ok(v) => v,
        Err(e) => return Err(e),
    };
    let tables_end = match checked_table_end(compat_at, compatibility.len(), COMPATIBILITY_RECORD_BYTES, "compatibility table") {
        Ok(v) => v,
        Err(e) => return Err(e),
    };
    if tables_end > usize::MAX - 15 {
        return Err(owned_text("geometry file length overflow"));
    }
    let payload_at = crate::pages::align_up(tables_end, 16);
    if payload_at > usize::MAX - payload.len() {
        return Err(owned_text("geometry file length overflow"));
    }
    let file_bytes = payload_at + payload.len();
    if clusters.len() > 0xffff_ffff {
        return Err(concat2("cluster count", " exceeds u32"));
    }
    if pages.len() > 0xffff_ffff {
        return Err(concat2("page count", " exceeds u32"));
    }
    if compatibility.len() > 0xffff_ffff {
        return Err(concat2("compatibility count", " exceeds u32"));
    }
    match check_compatibility_routes(clusters, compatibility) {
        Ok(()) => {},
        Err(e) => return Err(e),
    }
    let payload_sha256 = sha256(payload.as_slice());
    let mut output: Vec<u8> = Vec::new();
    push_header(
        &mut output,
        magic,
        words,
        &source_sha256,
        &payload_sha256,
        (clusters.len() as u32, pages.len() as u32, compatibility.len() as u32),
        (header as u64, page_at as u64, compat_at as u64, payload_at as u64),
        payload.len() as u64,
        file_bytes as u64,
        page_budget_bytes,
    );
    let ghost head = output@;
    let mut i: usize = 0;
    assert(clusters@.take(0) =~= seq![]);
    while i < clusters.len()
        invariant
            i <= clusters@.len(),
            output@ == head + cluster_table(clusters@.take(i as int)),
        decreases clusters.len() - i,
    {
        encode_cluster_record(&mut output, &clusters[i]);
        assert(clusters@.take(i + 1).drop_last() =~= clusters@.take(i as int));
        i = i + 1;
    }
    assert(clusters@.take(clusters@.len() as int) =~= clusters@);
    let ghost with_clusters = output@;
    let mut j: usize = 0;
    assert(pages@.take(0) =~= seq![]);
    while j < pages.len()
        invariant
            j <= pages@.len(),
            output@ == with_clusters + page_table(pages@.take(j as int)),
        decreases pages.len() - j,
    {
        encode_page_record(&mut output, &pages[j]);
        assert(pages@.take(j + 1).drop_last() =~= pages@.take(j as int));
        j = j + 1;
    }
    assert(pages@.take(pages@.len() as int) =~= pages@);
    let ghost with_pages = output@;
    let mut k: usize = 0;
    assert(compatibility@.take(0) =~= seq![]);
    while k < compatibility.len()
        invariant
            k <= compatibility@.len(),
            output@ == with_pages + compatibility_table(compatibility@.take(k as int)),
        decreases compatibility.len() - k,
    {
        let r = compatibility[k];
        let ghost before = output@;
        push_u32(&mut output, r.mesh_index);
        push_u32(&mut output, r.primitive_index);
        push_u32(&mut output, r.reason);
        push_u32(&mut output, r.detail);
        assert(output@ =~= before + compatibility_bytes(r));
        assert(compatibility@.take(k + 1).drop_last() =~= compatibility@.take(k as int));
        k = k + 1;
    }
    assert(compatibility@.take(compatibility@.len() as int) =~= compatibility@);
    let ghost with_tables = output@;
    proof {
        lemma_table_lengths(clusters@, pages@, compatibility@);
        assert(with_tables.len() == tables_end);
    }
    let mut z: usize = tables_end;
    while z < payload_at
        invariant
            tables_end <= z <= payload_at,
            output@ == with_tables + Seq::new((z - tables_end) as nat, |i: int| 0u8),
        decreases payload_at - z,
    {
        output.push(0);
        assert(with_tables + Seq::new((z + 1 - tables_end) as nat, |i: int| 0u8)
            =~= (with_tables + Seq::new((z - tables_end) as nat, |i: int| 0u8)).push(0u8));
        z = z + 1;
    }
    push_bytes(&mut output, payload.as_slice());
    assert(output@ =~= head + cluster_table(clusters@) + page_table(pages@) + compatibility_table(compatibility@)
        + Seq::new((payload_at - tables_end) as nat, |i: int| 0u8) + payload@);
    Ok(output)
}

proof fn lemma_table_lengths(cs: Seq<ClusterRecord>, ps: Seq<PageRecord>, rs: Seq<CompatibilityEntry>)
    ensures
        cluster_table(cs).len() == cs.len() * CLUSTER_RECORD_BYTES,
        page_table(ps).len() == ps.len() * PAGE_RECORD_BYTES,
        compatibility_table(rs).len() == rs.len() * COMPATIBILITY_RECORD_BYTES,
    decreases cs.len() + ps.len() + rs.len(),
{
    if cs.len() > 0 {
        lemma_table_lengths(cs.drop_last(), ps, rs);
        crate::records::lemma_cluster_record_len(cs.last());
    } else if ps.len() > 0 {
        lemma_table_lengths(cs, ps.drop_last(), rs);
        assert(page_record_bytes(ps.last()).len() == PAGE_RECORD_BYTES);
    } else if rs.len() > 0 {
        lemma_table_lengths(cs, ps, rs.drop_last());
    }
}

/// A cluster's payload: its encoded vertices, then its local indices,
/// zero-padded to a multiple of 16 bytes.
pub open spec fn padded_chunk(vertices: Seq<u8>, indices: Seq<u8>) -> Seq<u8> {
    let body = vertices + indices;
    body + Seq::new((aligned(body.len(), 16) - body.len()) as nat, |i: int| 0u8)
}

/// The payload of the first `n` clusters, one chunk after the other.
pub open spec fn payload_of(vertices: Seq<Seq<u8>>, indices: Seq<Seq<u8>>, n: int) -> Seq<u8>
    decreases n,
{
    if n <= 0 { seq![] } else { payload_of(vertices, indices, n - 1) + padded_chunk(vertices[n - 1], indices[n - 1]) }
}

/// The views of nested byte vectors.
pub open spec fn byte_views(v: Seq<Vec<u8>>) -> Seq<Seq<u8>> {
    v.map_values(|b: Vec<u8>| b@)
}

/// Concatenates the clusters' payloads in order, each padded to 16 bytes;
/// `vertices[i]` holds cluster `i`'s encoded vertices.
pub fn build_payload(vertices: &Vec<Vec<u8>>, indices: &Vec<Vec<u8>>) -> (payload: Vec<u8>)
    requires
        vertices@.len() == indices@.len(),
        payload_of(byte_views(vertices@), byte_views(indices@), vertices@.len() as int).len() + 16 <= usize::MAX,
    ensures
        payload@ == payload_of(byte_views(vertices@), byte_views(indices@), vertices@.len() as int),
{
    let ghost vs = byte_views(vertices@);
    let ghost is = byte_views(indices@);
    let mut out: Vec<u8> = Vec::new();
    let mut i: usize = 0;
    while i < vertices.len()
        invariant
            vs == byte_views(vertices@),
            is == byte_views(indices@),
            vertices@.len() == indices@.len(),
            payload_of(vs, is, vertices@.len() as int).len() + 16 <= usize::MAX,
            i <= vertices@.len(),
            out@ == payload_of(vs, is, i as int),
            out@.len() % 16 == 0,
        decreases vertices.len() - i,
    {
        proof {
            lemma_payload_prefix_len(vs, is, i as int + 1, vertices@.len() as int);
        }
        let ghost before = out@;
        push_bytes(&mut out, vertices[i].as_slice());
        push_bytes(&mut out, indices[i].as_slice());
        assert(vertices@[i as int]@ == vs[i as int] && indices@[i as int]@ == is[i as int]);
        assert(out@ == before + vs[i as int] + is[i as int]);
        let body_end = out.len();
        let target = crate::pages::align_up(body_end, 16);
        while out.len() < target
            invariant
                body_end <= out@.len() <= target,
                out@ == before + vs[i as int] + is[i as int] + Seq::new((out@.len() - body_end) as nat, |k: int| 0u8),
                before.len() + vs[i as int].len() + is[i as int].len() == body_end,
            decreases target - out.len(),
        {
            let ghost prev = out@;
            out.push(0);
            assert(out@ =~= before + vs[i as int] + is[i as int] + Seq::new((out@.len() - body_end) as nat, |k: int| 0u8));
        }
        proof {
            lemma_aligned_offset(before.len(), (vs[i as int] + is[i as int]).len());
            assert(out@ =~= before + padded_chunk(vs[i as int], is[i as int]));
        }
        i = i + 1;
    }
    out
}

proof fn lemma_payload_prefix_len(vs: Seq<Seq<u8>>, is: Seq<Seq<u8>>, a: int, b: int)
    requires
        a <= b,
    ensures
        payload_of(vs, is, a).len() <= payload_of(vs, is, b).len(),
    decreases b - a,
{
    if a < b {
        lemma_payload_prefix_len(vs, is, a, b - 1);
    }
}

/// Each chunk is a multiple of 16 long, so a chunk appended at a 16-byte
/// boundary pads to the next boundary.
proof fn lemma_aligned_offset(start: nat, body: nat)
    requires
        start % 16 == 0,
    ensures
        aligned(start + body, 16) == start + aligned(body, 16),
        (start + aligned(body, 16)) % 16 == 0,
        aligned(body, 16) >= body,
{
    assert(aligned(start + body, 16) == start + aligned(body, 16)) by (nonlinear_arith)
        requires start % 16 == 0;
    assert((start + aligned(body, 16)) % 16 == 0) by (nonlinear_arith)
        requires start % 16 == 0;
    assert(aligned(body, 16) >= body) by (nonlinear_arith);
}

/// Whether the encoded vertices and indices fit the footprints the pages
/// were planned from.
pub open spec fn chunks_match(cs: Seq<FootprintView>, stride: nat, vertices: Seq<Seq<u8>>, indices: Seq<Seq<u8>>) -> bool {
    &&& vertices.len() == cs.len()
    &&& indices.len() == cs.len()
    &&& forall|i: int| 0 <= i < cs.len() ==> (#[trigger] vertices[i]).len() == cs[i].vertex_count * stride
        && indices[i] == cs[i].local_indices
}

proof fn lemma_plan_offsets(cs: Seq<FootprintView>, stride: nat, budget: nat, i: int, st: PlanState)
    requires
        0 <= i <= cs.len(),
        st.payload == payload_total(cs, stride, i),
        st.placements.len() == i,
        forall|k: int| 0 <= k < i ==> (#[trigger] st.placements[k]).vertex_offset == payload_total(cs, stride, k) as u64
            && st.placements[k].index_offset == (payload_total(cs, stride, k) + cs[k].vertex_count * stride) as u64,
        plan_from(cs, stride, budget, i, st) is Ok,
    ensures
        ({
            let r = plan_from(cs, stride, budget, i, st)->Ok_0;
            &&& r.payload == payload_total(cs, stride, cs.len() as int)
            &&& r.placements.len() == cs.len()
            &&& forall|k: int| 0 <= k < cs.len() ==> (#[trigger] r.placements[k]).vertex_offset == payload_total(cs, stride, k) as u64
                && r.placements[k].index_offset == (payload_total(cs, stride, k) + cs[k].vertex_count * stride) as u64
        }),
    decreases cs.len() - i,
{
    if i < cs.len() {
        let enc = encoded_bytes(cs[i], stride);
        let opened: Result<PlanState, PageError> = if breaks_page(st, cs[i], enc, budget) {
            match close_page(st, i as nat) {
                Err(e) => Err(e),
                Ok(pages) => Ok(open_page(st, pages, i)),
            }
        } else {
            Ok(st)
        };
        let s = opened->Ok_0;
        let next = place_cluster(s, cs[i], enc, stride);
        assert forall|k: int| 0 <= k < i + 1 implies (#[trigger] next.placements[k]).vertex_offset == payload_total(cs, stride, k) as u64
            && next.placements[k].index_offset == (payload_total(cs, stride, k) + cs[k].vertex_count * stride) as u64 by {
            if k < i {
                assert(next.placements[k] == st.placements[k]);
            }
        }
        lemma_plan_offsets(cs, stride, budget, i + 1, next);
    }
}

proof fn lemma_payload_len(cs: Seq<FootprintView>, stride: nat, vertices: Seq<Seq<u8>>, indices: Seq<Seq<u8>>, n: int)
    requires
        chunks_match(cs, stride, vertices, indices),
        0 <= n <= cs.len(),
    ensures
        payload_of(vertices, indices, n).len() == payload_total(cs, stride, n),
    decreases n,
{
    if n > 0 {
        lemma_payload_len(cs, stride, vertices, indices, n - 1);
        assert(vertices[n - 1].len() == cs[n - 1].vertex_count * stride);
        assert(indices[n - 1] == cs[n - 1].local_indices);
        let body = vertices[n - 1] + indices[n - 1];
        assert(aligned(body.len(), 16) >= body.len()) by (nonlinear_arith);
    }
}

proof fn lemma_payload_prefix(vertices: Seq<Seq<u8>>, indices: Seq<Seq<u8>>, k: int, n: int)
    requires
        0 <= k <= n,
    ensures
        payload_of(vertices, indices, k).len() <= payload_of(vertices, indices, n).len(),
        payload_of(vertices, indices, n).subrange(0, payload_of(vertices, indices, k).len() as int) == payload_of(vertices, indices, k),
    decreases n - k,
{
    if k < n {
        lemma_payload_prefix(vertices, indices, k, n - 1);
        let a = payload_of(vertices, indices, n - 1);
        let b = payload_of(vertices, indices, n);
        assert(b.subrange(0, a.len() as int) =~= a);
        assert(b.subrange(0, payload_of(vertices, indices, k).len() as int)
            =~= a.subrange(0, payload_of(vertices, indices, k).len() as int));
    } else {
        assert(payload_of(vertices, indices, n).subrange(0, payload_of(vertices, indices, n).len() as int)
            =~= payload_of(vertices, indices, n));
    }
}

/// The offsets the page plan gives each cluster address its bytes in the
/// assembled payload: its encoded vertices start at its vertex offset and
/// its local indices at its index offset, and the payload is as long as
/// the plan says.
pub proof fn law_planned_offsets_address_the_payload(
    cs: Seq<FootprintView>,
    stride: nat,
    budget: nat,
    vertices: Seq<Seq<u8>>,
    indices: Seq<Seq<u8>>,
)
    requires
        chunks_match(cs, stride, vertices, indices),
        plan_from(cs, stride, budget, 0, plan_start()) is Ok,
        payload_total(cs, stride, cs.len() as int) <= u64::MAX,
    ensures
        ({
            let r = plan_from(cs, stride, budget, 0, plan_start())->Ok_0;
            let p = payload_of(vertices, indices, cs.len() as int);
            &&& r.payload == p.len()
            &&& forall|k: int| 0 <= k < cs.len() ==> {
                &&& p.subrange((#[trigger] r.placements[k]).vertex_offset as int, r.placements[k].vertex_offset + vertices[k].len()) == vertices[k]
                &&& p.subrange(r.placements[k].index_offset as int, r.placements[k].index_offset + indices[k].len()) == indices[k]
            }
        }),
{
    let n = cs.len() as int;
    lemma_plan_offsets(cs, stride, budget, 0, plan_start());
    lemma_payload_len(cs, stride, vertices, indices, n);
    let r = plan_from(cs, stride, budget, 0, plan_start())->Ok_0;
    let p = payload_of(vertices, indices, n);
    assert forall|k: int| 0 <= k < cs.len() implies {
        &&& p.subrange((#[trigger] r.placements[k]).vertex_offset as int, r.placements[k].vertex_offset + vertices[k].len()) == vertices[k]
        &&& p.subrange(r.placements[k].index_offset as int, r.placements[k].index_offset + indices[k].len()) == indices[k]
    } by {
        lemma_payload_len(cs, stride, vertices, indices, k);
        lemma_payload_len(cs, stride, vertices, indices, k + 1);
        lemma_payload_prefix(vertices, indices, k + 1, n);
        let before = payload_of(vertices, indices, k);
        let upto = payload_of(vertices, indices, k + 1);
        let off = before.len() as int;
        assert(payload_total(cs, stride, k) <= payload_total(cs, stride, n)) by {
            lemma_payload_prefix(vertices, indices, k, n);
        }
        assert(r.placements[k].vertex_offset == off);
        assert(vertices[k].len() == cs[k].vertex_count * stride);
        assert(r.placements[k].index_offset == off + vertices[k].len());
        assert(upto == before + padded_chunk(vertices[k], indices[k]));
        assert(p.subrange(off, off + vertices[k].len()) =~= upto.subrange(off, off + vertices[k].len()));
        assert(upto.subrange(off, off + vertices[k].len()) =~= vertices[k]);
        let io = off + vertices[k].len();
        assert(p.subrange(io, io + indices[k].len()) =~= upto.subrange(io, io + indices[k].len()));
        assert(upto.subrange(io, io + indices[k].len()) =~= indices[k]);
    }
}

} // verus!

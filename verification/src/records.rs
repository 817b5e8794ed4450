//! The fixed-size records of the cooked geometry container: one per
//! cluster and one per page, little-endian. Float fields travel as their
//! bit patterns.

use vstd::prelude::*;
use crate::bytes::{le32, le64, push_bytes, push_u32, push_u64, sha256, sha256_digest, Vec3Bits};
use crate::pages::PagePlan;

verus! {

/// Bytes of one cluster record.
pub const CLUSTER_RECORD_BYTES: usize = 128;
/// Bytes of one page record.
pub const PAGE_RECORD_BYTES: usize = 64;

/// A cluster as the container records it.
#[derive(Clone, Copy, Debug, PartialEq, Eq, Structural)]
pub struct ClusterRecord {
    pub mesh_index: u32,
    pub primitive_index: u32,
    /// `None` is written as `u32::MAX`.
    pub material_index: Option<u32>,
    pub flags: u32,
    pub page_index: u32,
    pub vertex_count: u32,
    pub triangle_count: u32,
    pub lod_level: u32,
    pub vertex_offset: u64,
    pub index_offset: u64,
    pub aabb_min: Vec3Bits,
    pub aabb_max: Vec3Bits,
    pub sphere_center: Vec3Bits,
    pub sphere_radius: u32,
    pub normal_cone_axis: Vec3Bits,
    pub normal_cone_cutoff: u32,
    pub geometric_error: u32,
    pub parent: u32,
    pub first_child: u32,
    pub child_count: u32,
    pub vertex_stride: u32,
    pub parent_count: u32,
}

/// A page as the container records it.
#[derive(Clone, Copy, Debug)]
pub struct PageRecord {
    pub payload_offset: u64,
    pub payload_bytes: u32,
    pub first_cluster: u32,
    pub cluster_count: u32,
    pub sha256: [u8; 32],
}

/// The bytes of three floats.
pub open spec fn le32x3(v: Vec3Bits) -> Seq<u8> {
    le32(v.x) + le32(v.y) + le32(v.z)
}

/// The identifying words of a cluster record.
#[verifier::opaque]
pub open spec fn cluster_ids_bytes(r: ClusterRecord) -> Seq<u8> {
    le32(r.mesh_index) + le32(r.primitive_index)
        + le32(match r.material_index { Some(m) => m, None => 0xffff_ffffu32 })
        + le32(r.flags) + le32(r.page_index) + le32(r.vertex_count) + le32(r.triangle_count) + le32(r.lod_level)
}

/// The payload offsets and bounds of a cluster record.
#[verifier::opaque]
pub open spec fn cluster_bounds_bytes(r: ClusterRecord) -> Seq<u8> {
    le64(r.vertex_offset) + le64(r.index_offset)
        + le32x3(r.aabb_min) + le32x3(r.aabb_max) + le32x3(r.sphere_center) + le32(r.sphere_radius)
        + le32x3(r.normal_cone_axis) + le32(r.normal_cone_cutoff) + le32(r.geometric_error)
}

/// The hierarchy relations and stride of a cluster record.
#[verifier::opaque]
pub open spec fn cluster_links_bytes(r: ClusterRecord) -> Seq<u8> {
    le32(r.parent) + le32(r.first_child) + le32(r.child_count) + le32(r.vertex_stride) + le32(r.parent_count)
}

/// The bytes of a cluster record, field by field.
pub open spec fn cluster_record_bytes(r: ClusterRecord) -> Seq<u8> {
    cluster_ids_bytes(r) + cluster_bounds_bytes(r) + cluster_links_bytes(r)
}

/// The bytes of a page record: offset, length, clusters, a zero word, the
/// page's SHA-256 and eight zero bytes.
pub open spec fn page_record_bytes(r: PageRecord) -> Seq<u8> {
    le64(r.payload_offset) + le32(r.payload_bytes) + le32(r.first_cluster) + le32(r.cluster_count) + le32(0)
        + r.sha256@ + le64(0)
}

fn push_u32x3(output: &mut Vec<u8>, v: Vec3Bits)
    ensures
        final(output)@ == old(output)@ + le32x3(v),
{
    push_u32(output, v.x);
    push_u32(output, v.y);
    push_u32(output, v.z);
    assert(final(output)@ =~= old(output)@ + le32x3(v));
}

fn push_cluster_ids(output: &mut Vec<u8>, record: &ClusterRecord)
    ensures
        final(output)@ == old(output)@ + cluster_ids_bytes(*record),
{
    let ghost start = output@;
    push_u32(output, record.mesh_index);
    push_u32(output, record.primitive_index);
    push_u32(output, match record.material_index { Some(m) => m, None => 0xffff_ffff });
    push_u32(output, record.flags);
    push_u32(output, record.page_index);
    push_u32(output, record.vertex_count);
    push_u32(output, record.triangle_count);
    push_u32(output, record.lod_level);
    reveal(cluster_ids_bytes);
    assert(output@ =~= start + cluster_ids_bytes(*record));
}

fn push_cluster_bounds(output: &mut Vec<u8>, record: &ClusterRecord)
    ensures
        final(output)@ == old(output)@ + cluster_bounds_bytes(*record),
{
    let ghost start = output@;
    push_u64(output, record.vertex_offset);
    push_u64(output, record.index_offset);
    push_u32x3(output, record.aabb_min);
    push_u32x3(output, record.aabb_max);
    push_u32x3(output, record.sphere_center);
    push_u32(output, record.sphere_radius);
    push_u32x3(output, record.normal_cone_axis);
    push_u32(output, record.normal_cone_cutoff);
    push_u32(output, record.geometric_error);
    reveal(cluster_bounds_bytes);
    assert(output@ =~= start + cluster_bounds_bytes(*record));
}

fn push_cluster_links(output: &mut Vec<u8>, record: &ClusterRecord)
    ensures
        final(output)@ == old(output)@ + cluster_links_bytes(*record),
{
    let ghost start = output@;
    push_u32(output, record.parent);
    push_u32(output, record.first_child);
    push_u32(output, record.child_count);
    push_u32(output, record.vertex_stride);
    push_u32(output, record.parent_count);
    reveal(cluster_links_bytes);
    assert(output@ =~= start + cluster_links_bytes(*record));
}

/// Appends a cluster record.
pub fn encode_cluster_record(output: &mut Vec<u8>, record: &ClusterRecord)
    ensures
        final(output)@ == old(output)@ + cluster_record_bytes(*record),
        cluster_record_bytes(*record).len() == CLUSTER_RECORD_BYTES,
{
    let ghost start = output@;
    push_cluster_ids(output, record);
    push_cluster_bounds(output, record);
    push_cluster_links(output, record);
    assert(output@ =~= start + cluster_record_bytes(*record));
    proof {
        lemma_cluster_record_len(*record);
    }
}

pub proof fn lemma_cluster_record_len(r: ClusterRecord)
    ensures
        cluster_record_bytes(r).len() == CLUSTER_RECORD_BYTES,
{
    assert(cluster_ids_bytes(r).len() == 32) by {
        reveal(cluster_ids_bytes);
    }
    assert(cluster_bounds_bytes(r).len() == 76) by {
        reveal(cluster_bounds_bytes);
    }
    assert(cluster_links_bytes(r).len() == 20) by {
        reveal(cluster_links_bytes);
    }
}

/// Appends a page record.
pub fn encode_page_record(output: &mut Vec<u8>, record: &PageRecord)
    ensures
        final(output)@ == old(output)@ + page_record_bytes(*record),
        page_record_bytes(*record).len() == PAGE_RECORD_BYTES,
{
    let ghost start = output@;
    push_u64(output, record.payload_offset);
    push_u32(output, record.payload_bytes);
    push_u32(output, record.first_cluster);
    push_u32(output, record.cluster_count);
    push_u32(output, 0);
    push_bytes(output, &record.sha256);
    push_u64(output, 0);
    assert(output@ =~= start + page_record_bytes(*record));
}

/// The record of a planned page: its extent and the SHA-256 of its bytes.
pub fn hash_page(plan: PagePlan, payload: &[u8]) -> (record: PageRecord)
    requires
        plan.payload_offset + plan.payload_bytes <= payload@.len(),
    ensures
        record.payload_offset == plan.payload_offset,
        record.payload_bytes == plan.payload_bytes,
        record.first_cluster == plan.first_cluster,
        record.cluster_count == plan.cluster_count,
        record.sha256@ == sha256_digest(payload@.subrange(
            plan.payload_offset as int,
            plan.payload_offset + plan.payload_bytes,
        )),
{
    let n = payload.len();
    assert(plan.payload_offset + plan.payload_bytes <= n);
    let start = plan.payload_offset as usize;
    let end = start + plan.payload_bytes as usize;
    let slice = vstd::slice::slice_subrange(payload, start, end);
    PageRecord {
        payload_offset: plan.payload_offset,
        payload_bytes: plan.payload_bytes,
        first_cluster: plan.first_cluster,
        cluster_count: plan.cluster_count,
        sha256: sha256(slice),
    }
}

} // verus!

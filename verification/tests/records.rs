use bloom_cook::bytes::Vec3Bits;
use bloom_cook::pages::PagePlan;
use bloom_cook::records::{
    encode_cluster_record, encode_page_record, hash_page, ClusterRecord, CLUSTER_RECORD_BYTES, PAGE_RECORD_BYTES,
};
use sha2::{Digest, Sha256};

fn bits(x: f32, y: f32, z: f32) -> Vec3Bits {
    Vec3Bits { x: x.to_bits(), y: y.to_bits(), z: z.to_bits() }
}

fn record() -> ClusterRecord {
    ClusterRecord {
        mesh_index: 1,
        primitive_index: 2,
        material_index: None,
        flags: 4,
        page_index: 5,
        vertex_count: 6,
        triangle_count: 7,
        lod_level: 8,
        vertex_offset: 0x1_0000_0009,
        index_offset: 10,
        aabb_min: bits(-1.0, -2.0, -3.0),
        aabb_max: bits(1.0, 2.0, 3.0),
        sphere_center: bits(0.0, 0.0, 0.0),
        sphere_radius: 4.0f32.to_bits(),
        normal_cone_axis: bits(0.0, 0.0, 1.0),
        normal_cone_cutoff: 0.5f32.to_bits(),
        geometric_error: 0.25f32.to_bits(),
        parent: u32::MAX,
        first_child: 11,
        child_count: 12,
        vertex_stride: 13,
        parent_count: 14,
    }
}

#[test]
fn cluster_records_are_little_endian_and_fixed_size() {
    let mut out = vec![0xaa];
    encode_cluster_record(&mut out, &record());
    assert_eq!(out.len(), 1 + CLUSTER_RECORD_BYTES);
    let r = &out[1..];
    assert_eq!(&r[0..4], &1u32.to_le_bytes());
    assert_eq!(&r[8..12], &u32::MAX.to_le_bytes());
    assert_eq!(&r[28..32], &8u32.to_le_bytes());
    assert_eq!(&r[32..40], &0x1_0000_0009u64.to_le_bytes());
    assert_eq!(&r[48..52], &(-1.0f32).to_le_bytes());
    assert_eq!(&r[84..88], &4.0f32.to_le_bytes());
    assert_eq!(&r[104..108], &0.25f32.to_le_bytes());
    assert_eq!(&r[108..112], &u32::MAX.to_le_bytes());
    assert_eq!(&r[124..128], &14u32.to_le_bytes());
    let mut with_material = Vec::new();
    encode_cluster_record(&mut with_material, &ClusterRecord { material_index: Some(3), ..record() });
    assert_eq!(&with_material[8..12], &3u32.to_le_bytes());
}

#[test]
fn page_records_carry_the_page_hash() {
    let payload: Vec<u8> = (0..40).collect();
    let page = hash_page(PagePlan { payload_offset: 16, payload_bytes: 24, first_cluster: 3, cluster_count: 2 }, &payload);
    assert_eq!((page.payload_offset, page.payload_bytes, page.first_cluster, page.cluster_count), (16, 24, 3, 2));
    let digest: [u8; 32] = Sha256::digest(&payload[16..]).into();
    assert_eq!(page.sha256, digest);

    let mut out = Vec::new();
    encode_page_record(&mut out, &page);
    assert_eq!(out.len(), PAGE_RECORD_BYTES);
    assert_eq!(&out[0..8], &16u64.to_le_bytes());
    assert_eq!(&out[8..12], &24u32.to_le_bytes());
    assert_eq!(&out[20..24], &[0, 0, 0, 0]);
    assert_eq!(&out[24..56], &digest);
    assert_eq!(&out[56..64], &[0; 8]);
}

use bloom_cook::bytes::Vec3Bits;
use bloom_cook::container::{assemble_container, build_payload, CompatibilityEntry, FormatWords};
use bloom_cook::pages::{plan_pages, ClusterFootprint};
use bloom_cook::records::{hash_page, ClusterRecord, CLUSTER_RECORD_BYTES, PAGE_RECORD_BYTES};
use sha2::{Digest, Sha256};

const MAGIC: &[u8] = b"BLMGEO\0\x01";

fn footprint(vertex_count: usize, triangles: usize, lod_level: u32) -> ClusterFootprint {
    let local_indices = (0..triangles * 3).map(|i| (i % vertex_count) as u8).collect();
    ClusterFootprint { vertex_count, local_indices, coarse_root: false, lod_level, bounds_valid: true }
}

fn zero3() -> Vec3Bits {
    Vec3Bits { x: 0, y: 0, z: 0 }
}

fn cluster(page_index: u32, vertex_offset: u64, index_offset: u64) -> ClusterRecord {
    ClusterRecord {
        mesh_index: 0,
        primitive_index: 0,
        material_index: None,
        flags: 0,
        page_index,
        vertex_count: 3,
        triangle_count: 1,
        lod_level: 0,
        vertex_offset,
        index_offset,
        aabb_min: zero3(),
        aabb_max: zero3(),
        sphere_center: zero3(),
        sphere_radius: 0,
        normal_cone_axis: zero3(),
        normal_cone_cutoff: 0,
        geometric_error: 0,
        parent: u32::MAX,
        first_child: u32::MAX,
        child_count: 0,
        vertex_stride: 12,
        parent_count: 0,
    }
}

#[test]
fn planned_offsets_point_into_the_built_payload() {
    let footprints = vec![footprint(3, 1, 0), footprint(4, 2, 0), footprint(3, 1, 1)];
    let stride = 12u32;
    let layout = plan_pages(&footprints, stride, 4096).unwrap();
    let vertices: Vec<Vec<u8>> = footprints
        .iter()
        .enumerate()
        .map(|(c, f)| (0..f.vertex_count * stride as usize).map(|b| (b + 17 * c) as u8).collect())
        .collect();
    let indices: Vec<Vec<u8>> = footprints.iter().map(|f| f.local_indices.clone()).collect();
    let payload = build_payload(&vertices, &indices);
    assert_eq!(payload.len() as u64, layout.payload_bytes);
    assert_eq!(payload.len() % 16, 0);
    for (k, placement) in layout.placements.iter().enumerate() {
        let v = placement.vertex_offset as usize;
        assert_eq!(&payload[v..v + vertices[k].len()], &vertices[k][..]);
        let i = placement.index_offset as usize;
        assert_eq!(&payload[i..i + indices[k].len()], &indices[k][..]);
    }
    // Two LOD levels never share a page.
    assert_eq!(layout.pages.len(), 2);
    let page = hash_page(layout.pages[1], &payload);
    let start = layout.pages[1].payload_offset as usize;
    let end = start + layout.pages[1].payload_bytes as usize;
    let digest: [u8; 32] = Sha256::digest(&payload[start..end]).into();
    assert_eq!(page.sha256, digest);
}

#[test]
fn containers_lay_out_header_tables_and_payload() {
    let payload: Vec<u8> = (0..48).collect();
    let clusters = vec![cluster(0, 0, 36), cluster(0, 48, 84)];
    let page = hash_page(
        bloom_cook::pages::PagePlan { payload_offset: 0, payload_bytes: 48, first_cluster: 0, cluster_count: 2 },
        &payload,
    );
    let compatibility = vec![CompatibilityEntry { mesh_index: 1, primitive_index: 2, reason: 3, detail: 4 }];
    let words = FormatWords { version: 1, endian_tag: 0x0102_0304 };
    let out = assemble_container(MAGIC, words, [9; 32], &clusters, &vec![page], &compatibility, &payload, 65536).unwrap();
    let header = MAGIC.len() + 152;
    assert_eq!(&out[0..8], MAGIC);
    assert_eq!(&out[8..12], &1u32.to_le_bytes());
    assert_eq!(&out[12..16], &(header as u32).to_le_bytes());
    assert_eq!(&out[16..20], &0x0102_0304u32.to_le_bytes());
    assert_eq!(&out[24..56], &[9; 32]);
    let digest: [u8; 32] = Sha256::digest(&payload).into();
    assert_eq!(&out[56..88], &digest);
    assert_eq!(&out[88..92], &2u32.to_le_bytes());
    assert_eq!(&out[92..96], &1u32.to_le_bytes());
    assert_eq!(&out[96..100], &1u32.to_le_bytes());
    let page_table = header + 2 * CLUSTER_RECORD_BYTES;
    let compat_table = page_table + PAGE_RECORD_BYTES;
    let tables_end = compat_table + 16;
    let payload_at = (tables_end + 15) / 16 * 16;
    assert_eq!(&out[104..112], &(header as u64).to_le_bytes());
    assert_eq!(&out[112..120], &(page_table as u64).to_le_bytes());
    assert_eq!(&out[120..128], &(compat_table as u64).to_le_bytes());
    assert_eq!(&out[128..136], &(payload_at as u64).to_le_bytes());
    assert_eq!(&out[136..144], &48u64.to_le_bytes());
    assert_eq!(&out[144..152], &((payload_at + 48) as u64).to_le_bytes());
    assert_eq!(&out[152..156], &65536u32.to_le_bytes());
    assert_eq!(out.len(), payload_at + 48);
    assert_eq!(&out[compat_table..compat_table + 4], &1u32.to_le_bytes());
    assert_eq!(&out[compat_table + 12..compat_table + 16], &4u32.to_le_bytes());
    assert!(out[tables_end..payload_at].iter().all(|b| *b == 0));
    assert_eq!(&out[payload_at..], &payload[..]);
}

#[test]
fn compatibility_routes_must_not_overlap_clusters_or_repeat() {
    let words = FormatWords { version: 1, endian_tag: 0x0102_0304 };
    let clusters = vec![cluster(0, 0, 36)];
    let entry = |mesh_index, primitive_index| CompatibilityEntry { mesh_index, primitive_index, reason: 1, detail: 0 };
    let overlap = assemble_container(MAGIC, words, [9; 32], &clusters, &vec![], &vec![entry(0, 0)], &vec![0; 48], 65536)
        .unwrap_err();
    assert!(overlap.contains("overlaps eligible mesh 0 primitive 0"), "{overlap}");
    assert_eq!(overlap, "compatibility route overlaps eligible mesh 0 primitive 0");

    let duplicate =
        assemble_container(MAGIC, words, [9; 32], &vec![], &vec![], &vec![entry(3, 2), entry(3, 2)], &vec![], 65536)
            .unwrap_err();
    assert!(duplicate.contains("duplicates mesh 3 primitive 2"), "{duplicate}");

    // Records are checked in order; the first fault is reported.
    let first = assemble_container(
        MAGIC,
        words,
        [9; 32],
        &clusters,
        &vec![],
        &vec![entry(3, 2), entry(3, 2), entry(0, 0)],
        &vec![0; 48],
        65536,
    )
    .unwrap_err();
    assert_eq!(first, "compatibility route duplicates mesh 3 primitive 2");

    let distinct = assemble_container(MAGIC, words, [9; 32], &clusters, &vec![], &vec![entry(3, 2), entry(3, 1)], &vec![0; 48], 65536);
    assert!(distinct.is_ok());
}

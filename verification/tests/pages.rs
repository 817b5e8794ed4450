use bloom_cook::pages::{
    align_up, checked_table_end, checked_u32, plan_pages, ClusterFootprint, ClusterPlacement, PageError, PagePlan,
};

fn cluster(vertex_count: usize, triangles: usize, coarse_root: bool, lod_level: u32) -> ClusterFootprint {
    let local_indices = (0..triangles * 3).map(|i| (i % vertex_count) as u8).collect();
    ClusterFootprint { vertex_count, local_indices, coarse_root, lod_level, bounds_valid: true }
}

#[test]
fn alignment_and_checked_sizes() {
    assert_eq!(align_up(0, 16), 0);
    assert_eq!(align_up(1, 16), 16);
    assert_eq!(align_up(16, 16), 16);
    assert_eq!(align_up(147, 16), 160);
    assert_eq!(checked_table_end(128, 3, 96, "cluster table"), Ok(416));
    assert_eq!(checked_table_end(1, usize::MAX, 2, "page table").unwrap_err(), "page table range overflow");
    assert_eq!(checked_u32(7, "page count"), Ok(7));
    assert_eq!(checked_u32(1usize << 32, "page count").unwrap_err(), "page count exceeds u32");
}

#[test]
fn clusters_fill_pages_up_to_the_budget() {
    // Each cluster: 3 vertices of 48 bytes and 3 indices, padded to 160.
    let clusters: Vec<_> = (0..5).map(|_| cluster(3, 1, false, 0)).collect();
    let layout = plan_pages(&clusters, 48, 320).unwrap();
    assert_eq!(layout.payload_bytes, 800);
    assert_eq!(
        layout.pages,
        vec![
            PagePlan { payload_offset: 0, payload_bytes: 320, first_cluster: 0, cluster_count: 2 },
            PagePlan { payload_offset: 320, payload_bytes: 320, first_cluster: 2, cluster_count: 2 },
            PagePlan { payload_offset: 640, payload_bytes: 160, first_cluster: 4, cluster_count: 1 },
        ]
    );
    assert_eq!(layout.placements[3], ClusterPlacement { page_index: 1, vertex_offset: 480, index_offset: 624 });
    assert!(layout.pages.iter().all(|page| page.payload_bytes <= 320));
}

#[test]
fn pinned_roots_of_different_lod_levels_share_a_page() {
    let clusters = vec![cluster(3, 1, true, 1), cluster(3, 1, true, 3)];
    let layout = plan_pages(&clusters, 48, 65536).unwrap();
    assert_eq!(layout.pages.len(), 1);
    assert_eq!(layout.pages[0].cluster_count, 2);
}

#[test]
fn streamable_levels_and_roots_never_share_a_page() {
    let clusters = vec![cluster(3, 1, true, 1), cluster(3, 1, false, 0), cluster(3, 1, false, 0), cluster(3, 1, false, 1)];
    let layout = plan_pages(&clusters, 48, 65536).unwrap();
    let counts: Vec<_> = layout.pages.iter().map(|page| (page.first_cluster, page.cluster_count)).collect();
    assert_eq!(counts, vec![(0, 1), (1, 2), (3, 1)]);
    assert_eq!(layout.placements[3].page_index, 2);
}

#[test]
fn oversized_and_malformed_clusters_are_refused() {
    let big = vec![cluster(200, 1, false, 0)];
    let error = plan_pages(&big, 48, 4096).unwrap_err();
    assert_eq!(error, PageError::ExceedsBudget { bytes: 9616, budget: 4096 });
    assert_eq!(error.message(), "meshlet payload 9616 bytes exceeds page budget 4096");
    assert_eq!(plan_pages(&vec![cluster(2, 1, false, 0)], 48, 4096).unwrap_err().message(), "meshlet vertex count 2 is outside 3..=255");
    let mut empty = cluster(3, 1, false, 0);
    empty.local_indices.clear();
    assert_eq!(plan_pages(&vec![empty], 48, 4096).unwrap_err(), PageError::NotTriangleList);
    let mut wild = cluster(3, 1, false, 0);
    wild.local_indices[1] = 3;
    assert_eq!(plan_pages(&vec![wild], 48, 4096).unwrap_err(), PageError::LocalIndexOutOfRange);
    let mut nan = cluster(3, 1, false, 0);
    nan.bounds_valid = false;
    assert_eq!(plan_pages(&vec![nan], 48, 4096).unwrap_err().message(), "meshlet bounds/error contain invalid values");
    let empty_layout = plan_pages(&vec![], 48, 4096).unwrap();
    assert!(empty_layout.pages.is_empty() && empty_layout.placements.is_empty());
}

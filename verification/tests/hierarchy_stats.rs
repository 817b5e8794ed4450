use bloom_cook::hierarchy_stats::{hierarchy_stats, ClusterSummary, HierarchyStats};

fn cluster(triangles: u32, payload_bytes: u64, lod_level: u8, error: f32) -> ClusterSummary {
    ClusterSummary { triangles, payload_bytes, lod_level, error_bits: error.to_bits() }
}

#[test]
fn stats_total_leaves_roots_and_levels() {
    let nodes = vec![
        cluster(10, 400, 0, 0.0),
        cluster(12, 480, 0, 0.0),
        cluster(8, 320, 0, 0.0),
        cluster(6, 250, 1, 0.25),
        cluster(3, 120, 2, 0.75),
    ];
    let roots = vec![2, 4];
    let stats = hierarchy_stats(&nodes, 3, &roots, 2);
    assert_eq!(stats.leaf_clusters, 3);
    assert_eq!(stats.leaf_triangles, 30);
    assert_eq!(stats.leaf_payload_bytes, 1200);
    assert_eq!(stats.parent_clusters, 2);
    assert_eq!(stats.root_clusters, 2);
    assert_eq!(stats.root_triangles, 11);
    assert_eq!(stats.root_payload_bytes, 440);
    assert_eq!(stats.maximum_level, 2);
    assert_eq!(f32::from_bits(stats.maximum_error_bits), 0.75);
    let mut by_level = [0u32; 17];
    by_level[0] = 1;
    by_level[2] = 1;
    assert_eq!(stats.root_clusters_by_level, by_level);
    let mut payload_by_level = [0u64; 17];
    payload_by_level[0] = 320;
    payload_by_level[2] = 120;
    assert_eq!(stats.root_payload_bytes_by_level, payload_by_level);
    assert_eq!(stats.root_clusters_by_level.iter().sum::<u32>(), stats.root_clusters);
    assert_eq!(stats.root_payload_bytes_by_level.iter().sum::<u64>(), stats.root_payload_bytes);
}

#[test]
fn a_hierarchy_of_leaves_alone_has_them_all_as_roots() {
    let nodes = vec![cluster(4, 90, 0, 0.0), cluster(5, 100, 0, 0.0)];
    let stats = hierarchy_stats(&nodes, 2, &vec![0, 1], 0);
    assert_eq!(stats.parent_clusters, 0);
    assert_eq!(stats.root_clusters, 2);
    assert_eq!(stats.root_triangles, stats.leaf_triangles);
    assert_eq!(stats.root_clusters_by_level[0], 2);
    assert_eq!(stats.maximum_error_bits, 0);
}

#[test]
fn merged_stats_add_counts_and_keep_the_larger_extremes() {
    let first = hierarchy_stats(&vec![cluster(4, 90, 0, 0.5), cluster(2, 40, 1, 1.5)], 1, &vec![1], 1);
    let second = hierarchy_stats(&vec![cluster(7, 150, 0, 0.25)], 1, &vec![0], 0);
    let mut total = HierarchyStats::default();
    total.merge(first);
    total.merge(second);
    assert_eq!(total.leaf_clusters, 2);
    assert_eq!(total.leaf_triangles, 11);
    assert_eq!(total.parent_clusters, 1);
    assert_eq!(total.root_clusters, 2);
    assert_eq!(total.root_payload_bytes, 190);
    assert_eq!(total.maximum_level, 1);
    assert_eq!(f32::from_bits(total.maximum_error_bits), 1.5);
    assert_eq!(total.root_clusters_by_level[0], 1);
    assert_eq!(total.root_clusters_by_level[1], 1);
    assert_eq!(total.root_payload_bytes_by_level[1], 40);

    let mut reversed = HierarchyStats::default();
    reversed.merge(second);
    reversed.merge(first);
    assert_eq!(reversed, total);
}

#[test]
fn merging_empty_stats_changes_nothing() {
    let stats = hierarchy_stats(&vec![cluster(4, 90, 0, 0.5)], 1, &vec![0], 0);
    let mut merged = stats;
    merged.merge(HierarchyStats::default());
    assert_eq!(merged, stats);
}

use bloom_cook::meshlet::{
    build_leaf_partitions, collect_attribute, partition_triangles, validate_primitive, MeshletError, NonFiniteComponent,
    PrimitiveTopology,
};
use bloom_cook::options::MeshletLimits;

fn topology(vertex_count: usize, indices: Vec<u32>) -> PrimitiveTopology {
    PrimitiveTopology { mesh_index: 2, primitive_index: 3, vertex_count, indices, non_finite: None }
}

#[test]
fn partition_preserves_triangle_order_and_limits() {
    let mut positions: Vec<[f32; 3]> = Vec::new();
    let mut indices = Vec::new();
    for triangle in 0..11 {
        let base = positions.len() as u32;
        positions.push([triangle as f32, 0.0, 0.0]);
        positions.push([triangle as f32, 1.0, 0.0]);
        positions.push([triangle as f32, 0.0, 1.0]);
        indices.extend([base, base + 1, base + 2]);
    }
    let source = topology(positions.len(), indices.clone());
    let meshlets = build_leaf_partitions(&source, MeshletLimits { max_vertices: 9, max_triangles: 4 }).unwrap();
    assert_eq!(meshlets.len(), 4);
    assert!(meshlets.iter().all(|meshlet| meshlet.source_vertices.len() <= 9 && meshlet.triangle_count() <= 4));

    let reconstructed: Vec<_> = meshlets
        .iter()
        .flat_map(|meshlet| {
            meshlet
                .local_indices
                .iter()
                .map(|index| positions[meshlet.source_vertices[*index as usize] as usize])
        })
        .collect();
    let expected: Vec<_> = indices.iter().map(|index| positions[*index as usize]).collect();
    assert_eq!(reconstructed, expected);
}

#[test]
fn invalid_source_is_rejected_before_indexing() {
    let mut source = topology(3, vec![0, 1, 4]);
    let limits = MeshletLimits::default_limits();
    assert!(build_leaf_partitions(&source, limits).unwrap_err().message().contains("exceeds"));
    source.indices = vec![0, 1];
    assert!(build_leaf_partitions(&source, limits).unwrap_err().message().contains("triangle list"));
    source.indices = vec![0, 1, 2];
    source.non_finite = Some(NonFiniteComponent {
        vertex: 1,
        attribute: "POSITION".to_string(),
        component: 0,
        value: format!("{:?}", f32::NAN),
    });
    let error = build_leaf_partitions(&source, limits).unwrap_err().message();
    assert!(error.contains("vertex 1 POSITION[0]=NaN"), "{error}");
    assert!(error.contains("NaN/Inf"), "{error}");
}

#[test]
fn shared_vertices_are_listed_once_in_first_use_order() {
    let parts = partition_triangles(&vec![5, 6, 7, 7, 6, 8], MeshletLimits { max_vertices: 64, max_triangles: 124 });
    assert_eq!(parts.len(), 1);
    assert_eq!(parts[0].source_vertices, vec![5, 6, 7, 8]);
    assert_eq!(parts[0].local_indices, vec![0, 1, 2, 2, 1, 3]);
    assert_eq!(parts[0].triangle_count(), 2);
}

#[test]
fn vertex_limit_closes_a_meshlet_before_the_overflowing_triangle() {
    let parts = partition_triangles(&vec![0, 1, 2, 0, 2, 3, 4, 5, 6], MeshletLimits { max_vertices: 4, max_triangles: 10 });
    assert_eq!(parts.len(), 2);
    assert_eq!(parts[0].source_vertices, vec![0, 1, 2, 3]);
    assert_eq!(parts[1].source_vertices, vec![4, 5, 6]);
    assert_eq!(parts[1].local_indices, vec![0, 1, 2]);
    assert!(partition_triangles(&vec![], MeshletLimits { max_vertices: 3, max_triangles: 1 }).is_empty());
}

#[test]
fn primitive_errors_follow_the_check_order() {
    let limits = MeshletLimits::default_limits();
    assert_eq!(
        build_leaf_partitions(&topology(0, vec![0, 1, 2]), limits).unwrap_err().message(),
        "mesh 2 primitive 3 has no vertices"
    );
    assert_eq!(
        build_leaf_partitions(&topology(3, vec![]), limits).unwrap_err().message(),
        "mesh 2 primitive 3 index count 0 is not a non-empty triangle list"
    );
    assert_eq!(
        build_leaf_partitions(&topology(3, vec![0, 9, 7]), limits).unwrap_err().message(),
        "mesh 2 primitive 3 index 9 exceeds 3 vertices"
    );
    let error = build_leaf_partitions(&topology(3, vec![0, 1, 2]), MeshletLimits { max_vertices: 2, max_triangles: 1 })
        .unwrap_err();
    assert!(matches!(error, MeshletError::Limits(_)));
    assert_eq!(error.message(), "meshlet max vertices must be in 3..=255, got 2");
    assert!(validate_primitive(&topology(3, vec![0, 1, 2])).is_ok());
}

#[test]
fn attribute_counts_must_match_positions() {
    assert_eq!(collect_attribute(vec![1, 2, 3], 3, 0, 1, "NORMAL").unwrap(), vec![1, 2, 3]);
    assert_eq!(
        collect_attribute(vec![1, 2], 3, 0, 1, "TEXCOORD_0").unwrap_err(),
        "mesh 0 primitive 1 TEXCOORD_0 count 2 does not match POSITION count 3"
    );
}

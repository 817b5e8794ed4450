use bloom_cook::primitive_rules::{
    classify_primitive, keep_usable_triangles, mode_code, AlphaMode, CompatibilityReason, PrimitiveTraits, Topology,
};
use bloom_cook::readback::BakedAtlas;

fn traits(topology: Topology) -> PrimitiveTraits {
    PrimitiveTraits { topology, skinned: false, has_morph_targets: false, alpha_mode: AlphaMode::Opaque, material_index: Some(3) }
}

#[test]
fn plain_triangle_primitives_take_the_meshlet_path() {
    assert_eq!(classify_primitive(&traits(Topology::Triangles)), None);
    let masked = PrimitiveTraits { alpha_mode: AlphaMode::Mask, ..traits(Topology::Triangles) };
    assert_eq!(classify_primitive(&masked), None);
}

#[test]
fn compatibility_reasons_are_checked_in_order() {
    assert_eq!(
        classify_primitive(&PrimitiveTraits { skinned: true, ..traits(Topology::TriangleStrip) }),
        Some((CompatibilityReason::NonTriangleTopology, 5))
    );
    assert_eq!(mode_code(Topology::Points), 0);
    assert_eq!(mode_code(Topology::TriangleFan), 6);
    assert_eq!(
        classify_primitive(&PrimitiveTraits { skinned: true, has_morph_targets: true, ..traits(Topology::Triangles) }),
        Some((CompatibilityReason::Skinned, 0))
    );
    assert_eq!(
        classify_primitive(&PrimitiveTraits {
            has_morph_targets: true,
            alpha_mode: AlphaMode::Blend,
            ..traits(Topology::Triangles)
        }),
        Some((CompatibilityReason::MorphTargets, 0))
    );
    assert_eq!(
        classify_primitive(&PrimitiveTraits { alpha_mode: AlphaMode::Blend, ..traits(Topology::Triangles) }),
        Some((CompatibilityReason::AlphaBlend, 3))
    );
    assert_eq!(
        classify_primitive(&PrimitiveTraits {
            alpha_mode: AlphaMode::Blend,
            material_index: None,
            ..traits(Topology::Triangles)
        }),
        Some((CompatibilityReason::AlphaBlend, u32::MAX))
    );
}

#[test]
fn triangles_with_unusable_vertices_are_dropped() {
    let invalid = vec![false, true, false, false];
    let kept = keep_usable_triangles(&invalid, &vec![0, 2, 3, 0, 1, 2, 2, 3, 9, 3, 2, 0, 1]);
    assert_eq!(kept.indices, vec![0, 2, 3, 3, 2, 0]);
    assert_eq!(kept.dropped_triangles, 2);
    let none = keep_usable_triangles(&invalid, &vec![1, 1, 1]);
    assert!(none.indices.is_empty());
    assert_eq!(none.dropped_triangles, 1);
}

#[test]
fn a_baked_atlas_holds_its_planes() {
    let atlas = BakedAtlas { width: 2, height: 1, color: Some(vec![0; 8]), normal: None, depth: Some(vec![0; 2]) };
    assert_eq!(atlas.color.as_ref().map(Vec::len), Some((atlas.width * atlas.height * 4) as usize));
    assert!(atlas.normal.is_none());
}

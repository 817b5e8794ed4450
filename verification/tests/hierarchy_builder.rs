use bloom_cook::hierarchy::{validate_same_primitive, ClusterGroup, ClusterIdentity, ClusterLinks, HierarchyError, NO_RELATION};
use bloom_cook::hierarchy_builder::{sorted_distinct, HierarchyBuilder, HierarchyStep, GROUP_FANOUT};

#[test]
fn accepted_group_links_children_to_their_parents() {
    let mut builder = HierarchyBuilder::new(3, 2).unwrap();
    assert!(!builder.is_done());
    assert_eq!(
        builder.step(),
        Ok(HierarchyStep::Simplify { group: ClusterGroup { start: 0, count: 3 }, level: 1 })
    );
    builder.simplified(Some(1)).unwrap();
    assert_eq!(builder.step(), Ok(HierarchyStep::LevelComplete));
    assert_eq!(builder.next_level(), Ok(true));
    assert_eq!(builder.step(), Ok(HierarchyStep::Rooted));
    assert_eq!(builder.step(), Ok(HierarchyStep::LevelComplete));
    assert_eq!(builder.next_level(), Ok(false));
    assert!(builder.is_done());
    let outline = builder.finish().unwrap();
    assert_eq!(outline.maximum_level, 1);
    assert_eq!(outline.roots, vec![3]);
    let child = ClusterLinks { parent: 3, parent_count: 1, first_child: NO_RELATION, child_count: 0 };
    let parent = ClusterLinks { parent: NO_RELATION, parent_count: 0, first_child: 0, child_count: 3 };
    assert_eq!(outline.links, vec![child, child, child, parent]);
}

#[test]
fn rejected_group_makes_every_child_a_root() {
    let mut builder = HierarchyBuilder::new(3, 4).unwrap();
    assert!(matches!(builder.step(), Ok(HierarchyStep::Simplify { .. })));
    builder.simplified(None).unwrap();
    assert_eq!(builder.step(), Ok(HierarchyStep::LevelComplete));
    assert_eq!(builder.next_level(), Ok(false));
    let outline = builder.finish().unwrap();
    assert_eq!(outline.roots, vec![0, 1, 2]);
    assert_eq!(outline.maximum_level, 0);
}

#[test]
fn as_many_parents_as_children_is_a_rejection() {
    let mut builder = HierarchyBuilder::new(2, 4).unwrap();
    assert!(matches!(builder.step(), Ok(HierarchyStep::Simplify { .. })));
    builder.simplified(Some(2)).unwrap();
    assert_eq!(builder.next_level(), Ok(false));
    let outline = builder.finish().unwrap();
    assert_eq!(outline.roots, vec![0, 1]);
    assert_eq!(outline.links.len(), 2);
}

#[test]
fn groups_are_offered_eight_at_a_time() {
    assert_eq!(GROUP_FANOUT, 8);
    let mut builder = HierarchyBuilder::new(17, 1).unwrap();
    let mut offered = Vec::new();
    let mut rooted = 0;
    loop {
        match builder.step().unwrap() {
            HierarchyStep::Simplify { group, level } => {
                assert_eq!(level, 1);
                offered.push(group);
                builder.simplified(None).unwrap();
            }
            HierarchyStep::Rooted => rooted += 1,
            HierarchyStep::LevelComplete => break,
        }
    }
    assert_eq!(offered, vec![ClusterGroup { start: 0, count: 8 }, ClusterGroup { start: 8, count: 8 }]);
    assert_eq!(rooted, 1);
    assert_eq!(builder.next_level(), Ok(false));
    let outline = builder.finish().unwrap();
    assert_eq!(outline.roots, (0..17).collect::<Vec<usize>>());
}

#[test]
fn an_empty_or_zero_level_hierarchy_builds_nothing() {
    let builder = HierarchyBuilder::new(0, 4).unwrap();
    assert!(builder.is_done());
    let outline = builder.finish().unwrap();
    assert!(outline.roots.is_empty() && outline.links.is_empty());

    let builder = HierarchyBuilder::new(3, 0).unwrap();
    assert!(builder.is_done());
    let outline = builder.finish().unwrap();
    assert_eq!(outline.roots, vec![0, 1, 2]);
}

#[test]
fn roots_come_out_sorted_once_each() {
    assert_eq!(sorted_distinct(&vec![5, 1, 5, 3, 1]), vec![1, 3, 5]);
    assert_eq!(sorted_distinct(&vec![]), Vec::<usize>::new());
}

#[test]
fn hierarchy_link_errors_have_texts() {
    assert_eq!(HierarchyError::ParentCountExceedsU32.message(), "parent group count exceeds u32");
    assert_eq!(HierarchyError::ChildStartExceedsU32.message(), "child group start exceeds u32");
    assert_eq!(HierarchyError::ChildCountExceedsU32.message(), "child group count exceeds u32");
    assert_eq!(HierarchyError::ParentStartExceedsU32.message(), "parent group start exceeds u32");
}

#[test]
fn a_hierarchy_stays_within_one_primitive() {
    let a = ClusterIdentity { mesh_index: 0, primitive_index: 1, material_index: Some(2), flags_without_root: 0 };
    assert_eq!(validate_same_primitive(&[a, a]), Ok(()));
    let other_material = ClusterIdentity { material_index: None, ..a };
    assert_eq!(
        validate_same_primitive(&[a, other_material]).unwrap_err(),
        "a hierarchy may not cross mesh, primitive, material, or flag boundaries"
    );
    let other_flags = ClusterIdentity { flags_without_root: 1, ..a };
    assert!(validate_same_primitive(&[a, other_flags]).is_err());
}

use bloom_cook::hierarchy::{
    merge_contiguous_groups, offset_relations, ClusterGroup, ClusterLinks, HierarchyError, NO_RELATION,
};

#[test]
fn group_ends_are_checked() {
    assert_eq!(ClusterGroup { start: 3, count: 4 }.end(), Ok(7));
    assert_eq!(ClusterGroup { start: usize::MAX, count: 1 }.end(), Err(HierarchyError::GroupRangeOverflow));
    assert_eq!(HierarchyError::GroupRangeOverflow.message(), "cluster group range overflow");
}

#[test]
fn contiguous_groups_merge_into_one_run() {
    let groups = [ClusterGroup { start: 2, count: 3 }, ClusterGroup { start: 5, count: 1 }, ClusterGroup { start: 6, count: 4 }];
    assert_eq!(merge_contiguous_groups(&groups), Ok(ClusterGroup { start: 2, count: 8 }));
    assert_eq!(merge_contiguous_groups(&groups[..1]), Ok(ClusterGroup { start: 2, count: 3 }));
    assert_eq!(merge_contiguous_groups(&[]), Err(HierarchyError::EmptyGroupSet));
    let gap = [ClusterGroup { start: 0, count: 1 }, ClusterGroup { start: 2, count: 1 }];
    assert_eq!(merge_contiguous_groups(&gap), Err(HierarchyError::NotContiguous));
    assert_eq!(HierarchyError::NotContiguous.message(), "hierarchy child groups are not contiguous");
    assert_eq!(HierarchyError::EmptyGroupSet.message(), "cannot merge an empty cluster-group set");
}

fn links(parent: u32, first_child: u32) -> ClusterLinks {
    ClusterLinks { parent, parent_count: 1, first_child, child_count: 2 }
}

#[test]
fn relations_move_by_the_base_and_absent_ones_stay() {
    let mut all = vec![links(0, NO_RELATION), links(NO_RELATION, 4)];
    offset_relations(&mut all, 10).unwrap();
    assert_eq!(all, vec![links(10, NO_RELATION), links(NO_RELATION, 14)]);

    let mut overflow = vec![links(1, 1), links(2, u32::MAX - 1), links(3, 3)];
    assert_eq!(offset_relations(&mut overflow, 5), Err(HierarchyError::ChildOverflow));
    assert_eq!(overflow, vec![links(6, 6), links(7, u32::MAX - 1), links(3, 3)]);
    assert_eq!(HierarchyError::ChildOverflow.message(), "global child index overflow");

    let mut parent_overflow = vec![links(u32::MAX - 2, 0)];
    assert_eq!(offset_relations(&mut parent_overflow, 5), Err(HierarchyError::ParentOverflow));
    assert_eq!(parent_overflow, vec![links(u32::MAX - 2, 0)]);

    let mut big = vec![links(0, 0)];
    assert_eq!(offset_relations(&mut big, 1usize << 33), Err(HierarchyError::BaseExceedsU32));
    assert_eq!(big, vec![links(0, 0)]);
}

use bloom_cook::bvh::{BvhBuilder, BvhEntry, BvhLayout, BvhStep, CentroidKeys, LEAF_LIMIT};

fn entries(n: u32) -> Vec<BvhEntry> {
    (0..n)
        .map(|t| BvhEntry { keys: CentroidKeys { x: (t * 7919) % 101, y: t, z: 1000 - t }, triangle: t })
        .collect()
}

fn build(items: Vec<BvhEntry>, axis: u32) -> BvhLayout {
    let mut builder = BvhBuilder::new(items);
    loop {
        match builder.step() {
            BvhStep::Leaf => {}
            BvhStep::ChooseAxis { start, end } => {
                assert!(end - start > LEAF_LIMIT);
                assert!(builder.entries().len() >= end);
                builder.split(axis).unwrap();
            }
            BvhStep::Done => break,
        }
    }
    builder.finish()
}

fn key(e: &BvhEntry, axis: u32) -> u32 {
    match axis {
        0 => e.keys.x,
        1 => e.keys.y,
        _ => e.keys.z,
    }
}

fn check(layout: &BvhLayout, n: u32) {
    let mut order = layout.order.clone();
    order.sort();
    assert_eq!(order, (0..n).collect::<Vec<u32>>());
    assert_eq!(layout.order, layout.entries.iter().map(|e| e.triangle).collect::<Vec<u32>>());
    assert_eq!((layout.nodes[0].start, layout.nodes[0].end), (0, n as usize));
    for (k, node) in layout.nodes.iter().enumerate() {
        let size = node.end - node.start;
        if size <= LEAF_LIMIT {
            assert_eq!(node.count as usize, size);
            assert_eq!(node.first as usize, node.start);
        } else {
            assert_eq!(node.count, 0);
            let c = node.first as usize;
            assert!(c > k);
            let m = node.start + size / 2;
            assert_eq!((layout.nodes[c].start, layout.nodes[c].end), (node.start, m));
            assert_eq!((layout.nodes[c + 1].start, layout.nodes[c + 1].end), (m, node.end));
            for i in node.start..m {
                assert!(key(&layout.entries[i], node.axis) <= node.pivot);
            }
            for i in m..node.end {
                assert!(key(&layout.entries[i], node.axis) >= node.pivot);
            }
        }
    }
}

#[test]
fn small_sets_are_one_leaf() {
    let layout = build(entries(3), 0);
    assert_eq!(layout.nodes.len(), 1);
    assert_eq!((layout.nodes[0].first, layout.nodes[0].count), (0, 3));
    assert_eq!(layout.order, vec![0, 1, 2]);
    let empty = build(Vec::new(), 0);
    assert_eq!(empty.nodes.len(), 1);
    assert_eq!(empty.nodes[0].count, 0);
}

#[test]
fn larger_sets_split_at_the_median_depth_first() {
    for axis in 0..3 {
        let layout = build(entries(37), axis);
        check(&layout, 37);
        assert!(layout.nodes.len() > 1);
    }
    let layout = build(entries(9), 1);
    // Root over 9 splits into 4 and 5; 5 splits again into 2 and 3.
    assert_eq!(layout.nodes.len(), 5);
    assert_eq!((layout.nodes[0].first, layout.nodes[0].count), (1, 0));
    assert_eq!((layout.nodes[1].start, layout.nodes[1].end, layout.nodes[1].count), (0, 4, 4));
    assert_eq!((layout.nodes[2].start, layout.nodes[2].end, layout.nodes[2].first), (4, 9, 3));
    assert_eq!(layout.order, vec![0, 1, 2, 3, 4, 5, 6, 7, 8]);
    check(&layout, 9);
}

use bloom_cook::vertex_dedup::weld_vertices;

fn key(v: u32) -> Vec<u32> {
    let mut k = vec![0u32; 18];
    k[0] = v;
    k[17] = v * 3;
    k
}

#[test]
fn identical_vertices_are_welded_in_first_reference_order() {
    let keys = vec![key(5), key(2), key(5), key(9), key(2), key(2)];
    let (first, indices) = weld_vertices(&keys);
    assert_eq!(first, vec![0, 1, 3]);
    assert_eq!(indices, vec![0, 1, 0, 2, 1, 1]);
}

#[test]
fn distinct_vertices_keep_their_own_numbers() {
    let keys: Vec<Vec<u32>> = (0..10).map(key).collect();
    let (first, indices) = weld_vertices(&keys);
    assert_eq!(first, (0..10).collect::<Vec<usize>>());
    assert_eq!(indices, (0..10).collect::<Vec<u32>>());
    let (first, indices) = weld_vertices(&Vec::new());
    assert!(first.is_empty() && indices.is_empty());
}

#[test]
fn keys_differing_in_any_word_stay_apart() {
    let mut a = key(1);
    let mut b = key(1);
    b[9] = 1;
    a[9] = 0;
    let (first, indices) = weld_vertices(&vec![a.clone(), b, a]);
    assert_eq!(first, vec![0, 1]);
    assert_eq!(indices, vec![0, 1, 0]);
}

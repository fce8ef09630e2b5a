use meshlet_renderer::triangles::{same_triangles, triangle_list};

#[test]
fn triangle_list_groups_indices_in_threes() {
    assert_eq!(triangle_list(&vec![0, 1, 2, 2, 1, 3, 9]), vec![(0, 1, 2), (2, 1, 3)]);
    assert!(triangle_list(&vec![]).is_empty());
}

#[test]
fn same_triangles_ignores_order_but_not_corners() {
    let a = vec![(0, 1, 2), (2, 1, 3), (4, 5, 6)];
    assert!(same_triangles(&a, &vec![(4, 5, 6), (0, 1, 2), (2, 1, 3)]));
    assert!(!same_triangles(&a, &vec![(1, 2, 0), (2, 1, 3), (4, 5, 6)]));
    assert!(!same_triangles(&a, &vec![(0, 1, 2), (2, 1, 3)]));
    assert!(!same_triangles(&vec![(0, 1, 2), (0, 1, 2)], &vec![(0, 1, 2), (3, 4, 5)]));
    assert!(same_triangles(&vec![], &vec![]));
}

#[test]
fn same_triangles_on_a_large_shuffle() {
    let a: Vec<(u32, u32, u32)> = (0..5000u32).map(|i| (i % 97, (i * 7) % 101, i)).collect();
    let mut b = a.clone();
    b.reverse();
    b.swap(0, 2500);
    assert!(same_triangles(&a, &b));
    b[17].2 += 1;
    assert!(!same_triangles(&a, &b));
}

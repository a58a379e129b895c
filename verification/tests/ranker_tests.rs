use img_dedup::{pair_le, sort_ham, Fingerprint, HashMethod, SimilarImage, SimilarPair};

fn entry(bytes: Vec<u8>, path: &str) -> (Fingerprint, SimilarImage) {
    (
        Fingerprint::from_bytes(HashMethod::Mean, &bytes),
        SimilarImage::test_image(path.to_string()),
    )
}

fn lib_test_entries() -> Vec<(Fingerprint, SimilarImage)> {
    vec![
        entry(vec![73, 96, 39, 31, 219, 255, 177, 191], "test/rustBsquish500.jpg"),
        entry(vec![227, 235, 255, 249, 243, 120, 62, 60], "test/rustA500.jpg"),
        entry(vec![227, 235, 255, 249, 243, 120, 62, 60], "test/rustA500_copy.jpg"),
        entry(vec![137, 107, 126, 63, 190, 185, 243, 187], "test/rustB250.jpg"),
    ]
}

#[test]
fn lib_test_sort_ham() {
    let expected: Vec<(usize, &str, &str)> = vec![
        (0, "test/rustA500.jpg", "test/rustA500_copy.jpg"),
        (20, "test/rustB250.jpg", "test/rustBsquish500.jpg"),
        (27, "test/rustA500.jpg", "test/rustB250.jpg"),
        (27, "test/rustA500_copy.jpg", "test/rustB250.jpg"),
        (31, "test/rustA500.jpg", "test/rustBsquish500.jpg"),
        (31, "test/rustA500_copy.jpg", "test/rustBsquish500.jpg"),
    ];
    let actual = sort_ham(lib_test_entries()).into_sorted_vec();
    assert_eq!(actual.len(), expected.len());
    for ((e_dist, e_left, e_right), a) in expected.into_iter().zip(actual.into_iter()) {
        assert_eq!(a.similarity, e_dist);
        assert_eq!(a.left.path.as_str(), e_left);
        assert_eq!(a.right.path.as_str(), e_right);
    }
}

#[test]
fn pair_count_is_quadratic() {
    // Five entries give exactly 5 * 4 / 2 = 10 pairs.
    let entries = vec![
        entry(vec![1, 2, 3, 4], "a.jpg"),
        entry(vec![5, 6, 7, 8], "b.jpg"),
        entry(vec![9, 10, 11, 12], "c.jpg"),
        entry(vec![13, 14, 15, 16], "d.jpg"),
        entry(vec![17, 18, 19, 20], "e.jpg"),
    ];
    assert_eq!(sort_ham(entries).len(), 10);
    // Fewer than two entries give an empty result, not an error.
    assert_eq!(sort_ham(vec![entry(vec![1], "a.jpg")]).len(), 0);
    assert_eq!(sort_ham(Vec::new()).len(), 0);
}

#[test]
fn distances_are_non_decreasing() {
    let pairs = sort_ham(lib_test_entries()).into_sorted_vec();
    for w in pairs.windows(2) {
        assert!(w[0].similarity <= w[1].similarity);
    }
}

#[test]
fn ranking_ignores_entry_order() {
    let mut reversed = lib_test_entries();
    reversed.reverse();
    let a = sort_ham(lib_test_entries()).into_sorted_vec();
    let b = sort_ham(reversed).into_sorted_vec();
    assert_eq!(a.len(), b.len());
    for (x, y) in a.iter().zip(b.iter()) {
        assert_eq!(x, y);
    }
}

#[test]
fn pop_most_similar_returns_front_first() {
    let mut rs = sort_ham(lib_test_entries());
    let first = rs.pop_most_similar().unwrap();
    assert_eq!(first.similarity, 0);
    assert_eq!(first.left.path.as_str(), "test/rustA500.jpg");
    assert_eq!(first.right.path.as_str(), "test/rustA500_copy.jpg");
    let second = rs.pop_most_similar().unwrap();
    assert_eq!(second.similarity, 20);
    assert_eq!(rs.len(), 4);
}

#[test]
fn report_filters_split_exact_and_near() {
    let entries = vec![
        entry(vec![0, 0, 0, 0, 0, 0, 0, 0], "a.jpg"),
        entry(vec![0, 0, 0, 0, 0, 0, 0, 0], "b.jpg"),
        entry(vec![255, 0, 0, 0, 0, 0, 0, 0], "c.jpg"),
    ];
    let rs = sort_ham(entries);
    // Distances: (a, b) = 0, (a, c) = 8, (b, c) = 8.
    let exact = rs.exact_duplicates();
    assert_eq!(exact.len(), 1);
    assert_eq!(exact[0].similarity, 0);
    assert_eq!(exact[0].left.path.as_str(), "a.jpg");
    // The fingerprints hold 64 bits; the cutoff keeps positive distances of
    // at most three tenths of that (19 and below), so 8 stays in.
    let near = rs.near_duplicates(64);
    assert_eq!(near.len(), 2);
    assert_eq!(near[0].similarity, 8);
    assert_eq!(near[1].similarity, 8);
    // With the lib entries the smallest positive distance is 20, which is
    // just above three tenths of 64, so nothing is near.
    let rs2 = sort_ham(lib_test_entries());
    assert_eq!(rs2.near_duplicates(64).len(), 0);
    assert_eq!(rs2.near_duplicates(67).len(), 1);
}

#[test]
fn similar_pair_new_keeps_fields() {
    let left = SimilarImage::test_image("l.png".to_string());
    let right = SimilarImage::test_image("r.png".to_string());
    let pair = SimilarPair::new(7, left, right);
    assert_eq!(pair.similarity, 7);
    assert_eq!(pair.left.path.as_str(), "l.png");
    assert_eq!(pair.right.path.as_str(), "r.png");
}

#[test]
fn pair_order_breaks_ties_by_paths() {
    let a = SimilarPair::new(5, SimilarImage::test_image("a.png".to_string()),
        SimilarImage::test_image("b.png".to_string()));
    let b = SimilarPair::new(5, SimilarImage::test_image("a.png".to_string()),
        SimilarImage::test_image("c.png".to_string()));
    let c = SimilarPair::new(4, SimilarImage::test_image("z.png".to_string()),
        SimilarImage::test_image("z2.png".to_string()));
    // Smaller distance first, whatever the paths.
    assert!(pair_le(&c, &a));
    assert!(!pair_le(&a, &c));
    // Equal distance and left path: the right path decides.
    assert!(pair_le(&a, &b));
    assert!(!pair_le(&b, &a));
    // Reflexive.
    assert!(pair_le(&a, &a));
}

#[test]
fn pop_on_empty_result_set_returns_nothing() {
    let mut rs = sort_ham(Vec::new());
    assert!(rs.is_empty());
    assert!(rs.pop_most_similar().is_none());
}

use std::sync::mpsc::channel;

use image::{DynamicImage, ImageBuffer, Luma};
use img_dedup::{
    dist, hash_files, scan_files, sort_ham, DecodedFile, Fingerprint, HashMethod, HashType,
    ScanError, SimilarImage, StatusMsg,
};

/// A 64x64 grayscale image that is dark on the left, bright on the right.
fn image_vertical_split() -> DynamicImage {
    let buf: ImageBuffer<Luma<u8>, Vec<u8>> =
        ImageBuffer::from_fn(64, 64, |x, _y| if x < 32 { Luma([0u8]) } else { Luma([255u8]) });
    DynamicImage::ImageLuma8(buf)
}

/// A 64x64 grayscale image that is dark on top, bright at the bottom.
fn image_horizontal_split() -> DynamicImage {
    let buf: ImageBuffer<Luma<u8>, Vec<u8>> =
        ImageBuffer::from_fn(64, 64, |_x, y| if y < 32 { Luma([0u8]) } else { Luma([255u8]) });
    DynamicImage::ImageLuma8(buf)
}

fn decoded(path: &str, image: Option<DynamicImage>) -> DecodedFile {
    DecodedFile { path: path.to_string(), image }
}

fn mean() -> HashType {
    HashType::from_name("Mean").unwrap()
}

#[test]
fn test_hash_files() {
    let (sender, receiver) = channel();
    let files = vec![
        decoded("test/rustBsquish500.jpg", Some(image_horizontal_split())),
        decoded("test/rustA500.jpg", Some(image_vertical_split())),
        decoded("test/rustA500_copy.jpg", Some(image_vertical_split())),
        decoded("test/rustB250.jpg", Some(image_horizontal_split())),
    ];
    let hashed = hash_files(files, 8, &mean(), &sender);
    drop(sender);

    assert_eq!(hashed.len(), 4);
    let paths: Vec<&str> = hashed.iter().map(|(_, img)| img.path.as_str()).collect();
    assert_eq!(
        paths,
        vec![
            "test/rustBsquish500.jpg",
            "test/rustA500.jpg",
            "test/rustA500_copy.jpg",
            "test/rustB250.jpg"
        ]
    );
    // Hashing the same image twice yields bit-identical fingerprints.
    assert_eq!(hashed[1].0, hashed[2].0);
    // Different images yield different fingerprints here.
    assert_ne!(hashed[0].0, hashed[1].0);
    for (fp, img) in &hashed {
        assert_eq!(fp.len(), 64);
        // The candidates carry the decoded images' real dimensions.
        assert_eq!(img.width, 64);
        assert_eq!(img.height, 64);
    }
    let processed = receiver.iter().count();
    assert_eq!(processed, 4);
}

#[test]
fn hashing_is_deterministic_across_calls() {
    let (sender, _receiver) = channel();
    let first = hash_files(
        vec![decoded("one.png", Some(image_vertical_split()))],
        8,
        &mean(),
        &sender,
    );
    let second = hash_files(
        vec![decoded("one.png", Some(image_vertical_split()))],
        8,
        &mean(),
        &sender,
    );
    assert_eq!(first[0].0, second[0].0);
}

#[test]
fn decode_failures_are_dropped_silently() {
    let (sender, receiver) = channel();
    let files = vec![
        decoded("good.png", Some(image_vertical_split())),
        decoded("broken.png", None),
        decoded("other.png", Some(image_horizontal_split())),
    ];
    let hashed = hash_files(files, 8, &mean(), &sender);
    drop(sender);
    assert_eq!(hashed.len(), 2);
    assert_eq!(hashed[0].1.path.as_str(), "good.png");
    assert_eq!(hashed[1].1.path.as_str(), "other.png");
    // One progress event per successfully hashed file.
    assert_eq!(receiver.iter().count(), 2);
}

#[test]
fn similar_image_new_reads_dimensions() {
    let img = image_vertical_split();
    let si = SimilarImage::new("x.png".to_string(), &img);
    assert_eq!(si.path.as_str(), "x.png");
    assert_eq!(si.width, 64);
    assert_eq!(si.height, 64);
}

#[test]
fn empty_images_are_dropped_like_failed_decodes() {
    let (sender, receiver) = channel();
    let empty = DynamicImage::ImageLuma8(ImageBuffer::new(0, 0));
    let files = vec![
        decoded("empty.png", Some(empty)),
        decoded("good.png", Some(image_vertical_split())),
    ];
    let hashed = hash_files(files, 8, &mean(), &sender);
    drop(sender);
    assert_eq!(hashed.len(), 1);
    assert_eq!(hashed[0].1.path.as_str(), "good.png");
    assert_eq!(receiver.iter().count(), 1);
}

#[test]
fn test_scanner_test_sort_ham() {
    let bitvecs: Vec<Vec<u8>> = vec![
        vec![
            0b0000_0001,
            0b0000_0000,
            0b0000_1110,
            0b0001_1111,
            0b1011_1111,
            0b1011_1001,
            0b1011_1011,
            0b1011_1111,
        ],
        vec![
            0b1110_0011,
            0b1111_0011,
            0b1110_1111,
            0b1110_0001,
            0b0111_0011,
            0b0111_1010,
            0b0011_1110,
            0b0011_1100,
        ],
        vec![
            0b1110_0011,
            0b1111_0011,
            0b1110_1111,
            0b1110_0001,
            0b0111_0011,
            0b0111_1010,
            0b0011_1110,
            0b0011_1100,
        ],
        vec![
            0b0100_0001,
            0b0000_0000,
            0b0000_1110,
            0b0001_1111,
            0b1011_1111,
            0b1011_1001,
            0b1011_0011,
            0b1011_1011,
        ],
    ];
    let paths = vec![
        "test/rustBsquish500.jpg",
        "test/rustA500.jpg",
        "test/rustA500_copy.jpg",
        "test/rustB250.jpg",
    ];
    let test_data: Vec<(Fingerprint, SimilarImage)> = bitvecs
        .into_iter()
        .zip(paths.into_iter())
        .map(|(bytes, path)| {
            (
                Fingerprint::from_bytes(HashMethod::Mean, &bytes),
                SimilarImage::test_image(path.to_string()),
            )
        })
        .collect();
    let expected_result: Vec<(usize, (&str, &str))> = vec![
        (0, ("test/rustA500.jpg", "test/rustA500_copy.jpg")),
        (3, ("test/rustBsquish500.jpg", "test/rustB250.jpg")),
        (35, ("test/rustBsquish500.jpg", "test/rustA500.jpg")),
        (35, ("test/rustBsquish500.jpg", "test/rustA500_copy.jpg")),
        (36, ("test/rustA500.jpg", "test/rustB250.jpg")),
        (36, ("test/rustA500_copy.jpg", "test/rustB250.jpg")),
    ];
    let actual_results = sort_ham(test_data).into_sorted_vec();
    assert_eq!(actual_results.len(), expected_result.len());
    for ((e_dist, e_paths), a) in expected_result.into_iter().zip(actual_results.into_iter()) {
        let a_paths = (a.left.path.as_str(), a.right.path.as_str());
        assert_eq!(a.similarity, e_dist);
        assert!(a_paths == e_paths || (a_paths.1, a_paths.0) == e_paths);
    }
}

#[test]
fn scan_of_empty_discovery_fails() {
    let (sender, _receiver) = channel();
    let result = scan_files("./photos", Vec::new(), &mean(), 8, sender);
    match result {
        Err(ScanError::NoImagesFound { directory }) => {
            assert_eq!(directory.as_str(), "./photos");
        },
        Ok(_) => panic!("an empty scan must fail, never succeed empty"),
    }
}

#[test]
fn no_images_found_message_names_the_directory() {
    let (sender, _receiver) = channel();
    let err = scan_files("pics", Vec::new(), &mean(), 8, sender).unwrap_err();
    assert_eq!(err.message().as_str(), "No readable image files found in pics");
}

#[test]
fn end_to_end_scan_ranks_the_exact_duplicate_first() {
    let a = image_vertical_split();
    let a_copy = image_vertical_split();
    let b = image_horizontal_split();
    let bsquish = b.resize_exact(32, 48, image::imageops::FilterType::Triangle);

    // The fingerprints of the byte-identical images must coincide.
    let (sender, _receiver) = channel();
    let hashed = hash_files(
        vec![decoded("A.jpg", Some(image_vertical_split())), decoded(
            "A_copy.jpg",
            Some(image_vertical_split()),
        )],
        8,
        &mean(),
        &sender,
    );
    assert_eq!(dist(&hashed[0].0, &hashed[1].0), 0);

    let (sender, receiver) = channel();
    let files = vec![
        decoded("A.jpg", Some(a)),
        decoded("A_copy.jpg", Some(a_copy)),
        decoded("B.jpg", Some(b)),
        decoded("Bsquish.jpg", Some(bsquish)),
    ];
    let result = scan_files(".", files, &mean(), 8, sender).unwrap();
    let events: Vec<StatusMsg> = receiver.iter().collect();
    assert!(matches!(events[0], StatusMsg::Total(4)));
    let processed = events[1..]
        .iter()
        .filter(|e| matches!(e, StatusMsg::ImageProcessed))
        .count();
    assert_eq!(processed, 4);

    let pairs = result.into_sorted_vec();
    // All six pairs appear exactly once.
    assert_eq!(pairs.len(), 6);
    let mut combos: Vec<(String, String)> = pairs
        .iter()
        .map(|p| (p.left.path.clone(), p.right.path.clone()))
        .collect();
    combos.sort();
    combos.dedup();
    assert_eq!(combos.len(), 6);
    // The most similar entry is the exact duplicate at distance zero.
    assert_eq!(pairs[0].similarity, 0);
    assert_eq!(pairs[0].left.path.as_str(), "A.jpg");
    assert_eq!(pairs[0].right.path.as_str(), "A_copy.jpg");
    // Distances never decrease from front to back, and the least similar
    // pair is genuinely apart.
    for w in pairs.windows(2) {
        assert!(w[0].similarity <= w[1].similarity);
    }
    assert!(pairs[5].similarity > 0);
}

use img_dedup::{discover_files, is_image_path, FileEntry};

fn entry(path: &str, is_dir: bool) -> FileEntry {
    FileEntry { path: path.to_string(), is_dir }
}

#[test]
fn keeps_only_image_files_case_insensitively() {
    let entries = vec![
        entry("pics/photo.JPG", false),
        entry("pics/note.txt", false),
        entry("pics/sub", true),
    ];
    let found = discover_files(&entries);
    assert_eq!(found.len(), 1);
    assert_eq!(found[0].as_str(), "pics/photo.JPG");
}

#[test]
fn excludes_directories_even_with_image_extension() {
    let entries = vec![entry("album.jpg", true), entry("album.jpg/inner.png", false)];
    let found = discover_files(&entries);
    assert_eq!(found.len(), 1);
    assert_eq!(found[0].as_str(), "album.jpg/inner.png");
}

#[test]
fn keeps_input_order() {
    let entries = vec![
        entry("c.png", false),
        entry("a.gif", false),
        entry("b.txt", false),
        entry("d.webp", false),
    ];
    let found = discover_files(&entries);
    let names: Vec<&str> = found.iter().map(|p| p.as_str()).collect();
    assert_eq!(names, vec!["c.png", "a.gif", "d.webp"]);
}

#[test]
fn recognizes_every_allowed_extension() {
    for ext in [
        "jpg", "jpeg", "png", "gif", "webp", "tif", "tiff", "tga", "bmp", "ico", "hdr", "pbm",
        "pam", "pgm", "ppm",
    ] {
        let lower = format!("photo.{}", ext);
        assert!(is_image_path(&lower), "{}", lower);
        let upper = format!("photo.{}", ext.to_uppercase());
        assert!(is_image_path(&upper), "{}", upper);
    }
}

#[test]
fn rejects_paths_without_image_extension() {
    assert!(!is_image_path("noextension"));
    assert!(!is_image_path("archive.tar"));
    assert!(!is_image_path("dotless/"));
    // A hidden file whose only dot starts its name has no extension.
    assert!(!is_image_path(".jpg"));
    assert!(!is_image_path("dir/.png"));
    // The dot must be in the file name, not in a directory on the way.
    assert!(!is_image_path("photos.jpg/readme"));
    // Trailing-dot names have an empty extension.
    assert!(!is_image_path("photo."));
}

#[test]
fn extension_is_taken_after_the_last_dot() {
    assert!(is_image_path("backup.2020.png"));
    assert!(!is_image_path("image.png.bak"));
    assert!(is_image_path("a/b.c/d.TIFF"));
}

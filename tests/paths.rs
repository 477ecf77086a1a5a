use reader::{archive_ext_matches, compare_paths, extension_is, extension_start, is_image_supported};

#[test]
fn extension_follows_the_last_dot_of_the_name() {
    assert_eq!(extension_start(b"a/b.tar.gz"), Some(8));
    assert_eq!(extension_start(b"a.d/file"), None);
    assert_eq!(extension_start(b".hidden"), None);
    assert_eq!(extension_start(b"dir/.."), None);
    assert_eq!(extension_start(b"name."), Some(5));
    assert_eq!(extension_start(b""), None);
}

#[test]
fn extension_ignores_ascii_case() {
    assert!(extension_is(b"x.PnG", b"png"));
    assert!(!extension_is(b"x.pngx", b"png"));
    assert!(!extension_is(b"png", b"png"));
    assert!(archive_ext_matches(b"x.CBZ"));
    assert!(!archive_ext_matches(b"x.rar"));
}

#[test]
fn supported_images_are_png_and_jpeg() {
    assert!(is_image_supported(b"a.png"));
    assert!(is_image_supported(b"a.JPG"));
    assert!(is_image_supported(b"a.jpeg"));
    assert!(!is_image_supported(b"a.gif"));
    assert!(!is_image_supported(b"a"));
}

#[test]
fn path_comparison_puts_the_separator_first() {
    assert_eq!(compare_paths(b"a/b", b"a-b"), -1);
    assert_eq!(compare_paths(b"a-b", b"a/b"), 1);
    assert_eq!(compare_paths(b"a", b"a/b"), -1);
    assert_eq!(compare_paths(b"abc", b"abc"), 0);
    assert_eq!(compare_paths(b"B", b"a"), -1);
}

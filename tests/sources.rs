use reader::{
    load_image_source, select_pages, ContainerEntry, EmptySource, Generation, ImageDirectory,
    ImageSource, PageError, PathInfo, SourceError, SourceKind, ZipFile,
};

fn file(path: &str) -> ContainerEntry {
    ContainerEntry { path: Some(path.as_bytes().to_vec()), is_file: true }
}

fn page_paths<S: ImageSource>(source: &S) -> Vec<String> {
    (0..source.total_pages())
        .map(|i| String::from_utf8(source.locate_page(i).unwrap().path.clone()).unwrap())
        .collect()
}

#[test]
fn directory_keeps_supported_images_sorted() {
    let listing = vec![
        file("/books/b.png"),
        file("/books/a.jpg"),
        file("/books/notes.txt"),
        file("/books/c.PNG"),
    ];
    let dir = ImageDirectory::load(listing);
    assert_eq!(dir.total_pages(), 3);
    assert_eq!(page_paths(&dir), vec!["/books/a.jpg", "/books/b.png", "/books/c.PNG"]);
}

#[test]
fn directory_skips_subdirectories_and_hidden_names() {
    let listing = vec![
        ContainerEntry { path: Some(b"/d/sub.png".to_vec()), is_file: false },
        file("/d/.png"),
        file("/d/x.jpeg"),
        file("/d/y.JPG"),
        file("/d/z.png.txt"),
        file("/d/noext"),
    ];
    let dir = ImageDirectory::load(listing);
    assert_eq!(page_paths(&dir), vec!["/d/x.jpeg", "/d/y.JPG"]);
}

#[test]
fn empty_directory_has_no_pages() {
    let dir = ImageDirectory::load(Vec::new());
    assert_eq!(dir.total_pages(), 0);
    assert_eq!(dir.locate_page(0).err(), Some(PageError::NotFound { page: 0 }));
}

#[test]
fn archive_pages_keep_member_indexes() {
    let members = vec![
        file("ch2/01.png"),
        ContainerEntry { path: None, is_file: true },
        file("ch1/02.png"),
        ContainerEntry { path: Some(b"ch1/".to_vec()), is_file: false },
        file("ch1/01.jpg"),
        file("readme.md"),
    ];
    let zip = ZipFile::load(b"/books/x.cbz".to_vec(), members);
    assert_eq!(zip.path(), b"/books/x.cbz");
    assert_eq!(zip.total_pages(), 3);
    assert_eq!(page_paths(&zip), vec!["ch1/01.jpg", "ch1/02.png", "ch2/01.png"]);
    let entries: Vec<usize> = (0..3).map(|i| zip.locate_page(i).unwrap().entry).collect();
    assert_eq!(entries, vec![4, 2, 0]);
}

#[test]
fn paths_sort_component_by_component() {
    let pages = select_pages(vec![file("a-b.png"), file("a/b.png"), file("a.png")]);
    let names: Vec<&[u8]> = pages.iter().map(|p| p.path.as_slice()).collect();
    assert_eq!(names, vec![&b"a/b.png"[..], &b"a-b.png"[..], &b"a.png"[..]]);
}

#[test]
fn load_page_past_the_end_fails_and_table_is_untouched() {
    let listing: Vec<ContainerEntry> =
        (0..10).map(|i| file(&format!("/p/{i:02}.png"))).collect();
    let dir = ImageDirectory::load(listing);
    assert_eq!(dir.total_pages(), 10);
    let table: Generation<Vec<u8>> = Generation::new(dir.total_pages());
    assert_eq!(dir.locate_page(10).err(), Some(PageError::NotFound { page: 10 }));
    assert!(dir.locate_page(9).is_ok());
    assert_eq!(table.page_count(), 10);
    for i in 0..10 {
        assert!(table.snapshot(i).is_none());
    }
}

#[test]
fn empty_source_has_nothing() {
    let empty = EmptySource::new();
    assert_eq!(empty.total_pages(), 0);
    assert_eq!(empty.locate_page(0).err(), Some(PageError::NotFound { page: 0 }));
    let info = PathInfo { path: b"/x".to_vec(), is_dir: true, is_file: false };
    assert!(!EmptySource::item_matches(&info));
    assert!(matches!(EmptySource::load(&info), Err(SourceError::EmptyCannotLoad)));
}

#[test]
fn directories_come_before_archives() {
    let dir = PathInfo { path: b"/books/x.zip".to_vec(), is_dir: true, is_file: false };
    assert_eq!(load_image_source(&dir), Ok(SourceKind::Directory));
    let zip = PathInfo { path: b"/books/x.ZIP".to_vec(), is_dir: false, is_file: true };
    assert_eq!(load_image_source(&zip), Ok(SourceKind::Archive));
    let cbz = PathInfo { path: b"comic.cbz".to_vec(), is_dir: false, is_file: true };
    assert_eq!(load_image_source(&cbz), Ok(SourceKind::Archive));
}

#[test]
fn other_paths_are_not_supported() {
    let text = PathInfo { path: b"/books/x.txt".to_vec(), is_dir: false, is_file: true };
    assert_eq!(load_image_source(&text), Err(SourceError::NotSupported));
    let missing = PathInfo { path: b"/books/x.zip".to_vec(), is_dir: false, is_file: false };
    assert_eq!(load_image_source(&missing), Err(SourceError::NotSupported));
    let dotdir = PathInfo { path: b"/books.zip/".to_vec(), is_dir: false, is_file: true };
    assert_eq!(load_image_source(&dotdir), Err(SourceError::NotSupported));
}

#[test]
fn equal_archive_names_keep_archive_order() {
    let members = vec![file("b.png"), file("a.png"), file("b.png"), file("a.png")];
    let pages = select_pages(members);
    let order: Vec<(&[u8], usize)> = pages.iter().map(|p| (p.path.as_slice(), p.entry)).collect();
    assert_eq!(
        order,
        vec![(&b"a.png"[..], 1), (&b"a.png"[..], 3), (&b"b.png"[..], 0), (&b"b.png"[..], 2)]
    );
}

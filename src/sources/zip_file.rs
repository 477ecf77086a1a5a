use super::{
    clone_pages, page_order, select_pages, ContainerEntry, ImageSource, Page, PageError, PathInfo,
};
use crate::paths::{extension_is, has_extension};
use vstd::prelude::*;

verus! {

/// `zip`.
pub open spec fn zip_ext() -> Seq<u8> {
    seq![0x7au8, 0x69, 0x70]
}

/// `cbz`.
pub open spec fn cbz_ext() -> Seq<u8> {
    seq![0x63u8, 0x62, 0x7a]
}

/// Whether the extension of `path` is `zip` or `cbz`, in any ASCII case.
pub fn archive_ext_matches(path: &[u8]) -> (r: bool)
    ensures
        r == (has_extension(path@, zip_ext()) || has_extension(path@, cbz_ext())),
{
    let zip: [u8; 3] = [0x7a, 0x69, 0x70];
    let cbz: [u8; 3] = [0x63, 0x62, 0x7a];
    assert(zip@ =~= zip_ext());
    assert(cbz@ =~= cbz_ext());
    extension_is(path, zip.as_slice()) || extension_is(path, cbz.as_slice())
}

/// A ZIP (or CBZ) archive: the path it was opened from and its image
/// members, sorted by path; each page keeps the member's index in the
/// archive.
pub struct ZipFile {
    path: Vec<u8>,
    pages: Vec<Page>,
}

impl ZipFile {
    /// Builds the source from the archive's members, listed in archive
    /// order: its regular files with a safe path of a supported image type,
    /// sorted by path.
    pub fn load(path: Vec<u8>, entries: Vec<ContainerEntry>) -> (r: Self)
        ensures
            r.archive_path() == path@,
            page_order(entries@, r.pages()),
    {
        ZipFile { path, pages: select_pages(entries) }
    }

    /// The path the archive was opened from.
    pub closed spec fn archive_path(&self) -> Seq<u8> {
        self.path@
    }

    /// The path the archive was opened from, for opening it again.
    pub fn path(&self) -> (r: &[u8])
        ensures
            r@ == self.archive_path(),
    {
        self.path.as_slice()
    }
}

impl ImageSource for ZipFile {
    open spec fn accepts(info: PathInfo) -> bool {
        info.is_file && (has_extension(info.path@, zip_ext()) || has_extension(
            info.path@,
            cbz_ext(),
        ))
    }

    closed spec fn pages(&self) -> Seq<Page> {
        self.pages@
    }

    fn item_matches(info: &PathInfo) -> (r: bool) {
        info.is_file && archive_ext_matches(info.path.as_slice())
    }

    fn total_pages(&self) -> (r: usize) {
        self.pages.len()
    }

    /// Copies the index; the application opens the archive again for the copy.
    fn quick_clone(&self) -> (r: Self)
        ensures
            r.archive_path() == self.archive_path(),
    {
        let path = self.path.clone();
        proof {
            assert(path@ =~= self.path@);
        }
        ZipFile { path, pages: clone_pages(&self.pages) }
    }

    fn locate_page(&self, page: usize) -> (r: Result<&Page, PageError>) {
        if page < self.pages.len() {
            Ok(&self.pages[page])
        } else {
            Err(PageError::NotFound { page })
        }
    }
}

} // verus!

use super::{
    clone_pages, page_order, select_pages, ContainerEntry, ImageSource, Page, PageError, PathInfo,
};
use vstd::prelude::*;

verus! {

/// A directory of images: its image files, sorted by path.
pub struct ImageDirectory {
    image_files: Vec<Page>,
}

impl ImageDirectory {
    /// Builds the source from the directory's listing: its regular files of
    /// a supported image type, sorted by path.
    pub fn load(entries: Vec<ContainerEntry>) -> (r: Self)
        ensures
            page_order(entries@, r.pages()),
    {
        ImageDirectory { image_files: select_pages(entries) }
    }
}

impl ImageSource for ImageDirectory {
    open spec fn accepts(info: PathInfo) -> bool {
        info.is_dir
    }

    closed spec fn pages(&self) -> Seq<Page> {
        self.image_files@
    }

    fn item_matches(info: &PathInfo) -> (r: bool) {
        info.is_dir
    }

    fn total_pages(&self) -> (r: usize) {
        self.image_files.len()
    }

    fn quick_clone(&self) -> (r: Self) {
        ImageDirectory { image_files: clone_pages(&self.image_files) }
    }

    fn locate_page(&self, page: usize) -> (r: Result<&Page, PageError>) {
        if page < self.image_files.len() {
            Ok(&self.image_files[page])
        } else {
            Err(PageError::NotFound { page })
        }
    }
}

} // verus!

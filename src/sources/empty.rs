use super::{ImageSource, Page, PageError, PathInfo, SourceError};
use vstd::prelude::*;

verus! {

/// An empty set of pages, for when no document is open.
pub struct EmptySource;

impl EmptySource {
    /// The empty source.
    pub fn new() -> (r: Self)
        ensures
            r.pages().len() == 0,
    {
        EmptySource
    }

    /// The empty source is never opened from a path.
    pub fn load(info: &PathInfo) -> (r: Result<Self, SourceError>)
        ensures
            r == Err::<Self, SourceError>(SourceError::EmptyCannotLoad),
    {
        Err(SourceError::EmptyCannotLoad)
    }
}

impl ImageSource for EmptySource {
    open spec fn accepts(info: PathInfo) -> bool {
        false
    }

    open spec fn pages(&self) -> Seq<Page> {
        Seq::empty()
    }

    fn item_matches(info: &PathInfo) -> (r: bool) {
        false
    }

    fn total_pages(&self) -> (r: usize) {
        0
    }

    fn quick_clone(&self) -> (r: Self) {
        EmptySource
    }

    fn locate_page(&self, page: usize) -> (r: Result<&Page, PageError>) {
        Err(PageError::NotFound { page })
    }
}

} // verus!

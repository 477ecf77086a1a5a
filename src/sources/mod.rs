//! Sources of pages: what a container holds, which of its members are
//! pages, and in what order.
mod empty;
mod image_directory;
mod zip_file;

pub use empty::EmptySource;
pub use image_directory::ImageDirectory;
pub use zip_file::{archive_ext_matches, ZipFile};

use crate::decoders::{image_supported, is_image_supported};
use crate::paths::{
    compare_paths, lemma_path_cmp_antisymmetric, lemma_path_cmp_transitive, lemma_path_cmp_zero,
    path_cmp,
};
use vstd::multiset::Multiset;
use vstd::prelude::*;

verus! {

/// What the file system says of a path.
pub struct PathInfo {
    pub path: Vec<u8>,
    pub is_dir: bool,
    pub is_file: bool,
}

/// One member of a container (a directory or an archive), at its position
/// in the container's own listing.
pub struct ContainerEntry {
    /// The member's path; `None` when it cannot be used safely, such as an
    /// archive member whose name escapes the archive.
    pub path: Option<Vec<u8>>,
    /// Whether the member is a regular file.
    pub is_file: bool,
}

/// A page: the path of its file, which also names it for decoding, and its
/// position in the container's listing.
pub struct Page {
    pub path: Vec<u8>,
    pub entry: usize,
}

/// Why a path could not be opened as a source.
#[derive(Debug, PartialEq, Eq, Structural)]
pub enum SourceError {
    /// The path is neither a directory nor a `.zip` / `.cbz` archive.
    NotSupported,
    /// The empty source stands for no document and opens nothing.
    EmptyCannotLoad,
}

/// Why a page could not be located.
#[derive(Debug, PartialEq, Eq, Structural)]
pub enum PageError {
    /// The index is not below the number of pages.
    NotFound { page: usize },
}

/// The kind of source that a path opens as.
#[derive(Clone, Copy, Debug, PartialEq, Eq, Structural)]
pub enum SourceKind {
    Directory,
    Archive,
}

/// The members of `entries` that are pages, in listing order: regular files
/// with a usable path of a supported image type.
pub open spec fn selected(entries: Seq<ContainerEntry>) -> Seq<Page>
    decreases entries.len(),
{
    if entries.len() == 0 {
        Seq::empty()
    } else {
        let prev = selected(entries.drop_last());
        let e = entries.last();
        if e.is_file && e.path is Some && image_supported(e.path.unwrap()@) {
            prev.push(Page { path: e.path.unwrap(), entry: (entries.len() - 1) as usize })
        } else {
            prev
        }
    }
}

/// Pages are ordered by path, then by position in the listing.
pub open spec fn page_le(a: Page, b: Page) -> bool {
    path_cmp(a.path@, b.path@) < 0 || (path_cmp(a.path@, b.path@) == 0 && a.entry <= b.entry)
}

/// `a` comes strictly before `b`.
pub open spec fn page_lt(a: Page, b: Page) -> bool {
    path_cmp(a.path@, b.path@) < 0 || (path_cmp(a.path@, b.path@) == 0 && a.entry < b.entry)
}

/// Each page comes no later than every page after it.
pub open spec fn sorted_pages(s: Seq<Page>) -> bool {
    forall|i: int, j: int| 0 <= i < j < s.len() ==> page_le(#[trigger] s[i], #[trigger] s[j])
}

/// The pages of a container: its members that are pages, sorted by path
/// and, for equal paths, kept in listing order.
pub open spec fn page_order(entries: Seq<ContainerEntry>, pages: Seq<Page>) -> bool {
    &&& pages.to_multiset() == selected(entries).to_multiset()
    &&& sorted_pages(pages)
}

proof fn lemma_page_total(a: Page, b: Page)
    ensures
        page_lt(a, b) || page_le(b, a),
        page_lt(a, b) ==> page_le(a, b),
{
    lemma_path_cmp_antisymmetric(a.path@, b.path@);
}

proof fn lemma_page_transitive(a: Page, b: Page, c: Page)
    requires
        page_le(a, b),
        page_le(b, c),
    ensures
        page_le(a, c),
{
    lemma_path_cmp_antisymmetric(a.path@, b.path@);
    lemma_path_cmp_antisymmetric(b.path@, c.path@);
    lemma_path_cmp_antisymmetric(a.path@, c.path@);
    lemma_path_cmp_transitive(a.path@, b.path@, c.path@);
    if path_cmp(a.path@, b.path@) == 0 {
        lemma_path_cmp_zero(a.path@, b.path@);
    } else if path_cmp(a.path@, c.path@) == 0 {
        lemma_path_cmp_zero(a.path@, c.path@);
    }
}

/// Keeps the members of a container that are pages and sorts them by path.
pub fn select_pages(entries: Vec<ContainerEntry>) -> (r: Vec<Page>)
    ensures
        page_order(entries@, r@),
{
    broadcast use vstd::seq_lib::group_to_multiset_ensures;

    let ghost all = entries@;
    let mut entries = entries;
    let mut found: Vec<Page> = Vec::new();
    while entries.len() > 0
        invariant
            entries@.len() <= all.len(),
            entries@ == all.subrange(0, entries@.len() as int),
            found@.to_multiset().add(selected(entries@).to_multiset()) == selected(
                all,
            ).to_multiset(),
        decreases entries@.len(),
    {
        let ghost before = entries@;
        let idx = entries.len() - 1;
        let e = entries.pop().unwrap();
        proof {
            assert(entries@ =~= before.drop_last());
            assert(entries@ =~= all.subrange(0, entries@.len() as int));
        }
        let ContainerEntry { path, is_file } = e;
        if is_file {
            match path {
                Some(p) => {
                    if is_image_supported(p.as_slice()) {
                        let ghost page = Page { path: p, entry: idx };
                        let ghost fb = found@;
                        found.push(Page { path: p, entry: idx });
                        proof {
                            assert(selected(before) == selected(entries@).push(page));
                            selected(entries@).to_multiset_ensures();
                            fb.to_multiset_ensures();
                            assert(found@ == fb.push(page));
                            assert(fb.push(page).to_multiset() =~= fb.to_multiset().insert(page));
                            assert(selected(entries@).push(page).to_multiset()
                                =~= selected(entries@).to_multiset().insert(page));
                            assert(found@.to_multiset().add(selected(entries@).to_multiset())
                                =~= selected(all).to_multiset());
                        }
                    }
                },
                None => {},
            }
        }
    }
    assert(selected(entries@) =~= Seq::<Page>::empty());
    assert(found@.to_multiset() =~= selected(all).to_multiset());
    sort_pages(found)
}

/// Sorts pages by path, then by listing position, moving the first
/// remaining one to the end of the result each time.
fn sort_pages(pages: Vec<Page>) -> (r: Vec<Page>)
    ensures
        r@.to_multiset() == pages@.to_multiset(),
        sorted_pages(r@),
{
    broadcast use vstd::seq_lib::group_to_multiset_ensures;

    let mut rest = pages;
    let mut out: Vec<Page> = Vec::new();
    while rest.len() > 0
        invariant
            out@.to_multiset().add(rest@.to_multiset()) == pages@.to_multiset(),
            sorted_pages(out@),
            out@.len() > 0 ==> forall|j: int|
                0 <= j < rest@.len() ==> page_le(out@.last(), #[trigger] rest@[j]),
        decreases rest@.len(),
    {
        let mut m: usize = 0;
        let mut j: usize = 1;
        proof {
            lemma_page_total(rest@[0], rest@[0]);
        }
        while j < rest.len()
            invariant
                0 <= m < rest@.len(),
                1 <= j <= rest@.len(),
                forall|i: int| 0 <= i < j ==> page_le(rest@[m as int], #[trigger] rest@[i]),
            decreases rest@.len() - j,
        {
            proof {
                lemma_path_cmp_antisymmetric(rest@[j as int].path@, rest@[m as int].path@);
                lemma_page_total(rest@[j as int], rest@[m as int]);
            }
            let c = compare_paths(rest[j].path.as_slice(), rest[m].path.as_slice());
            if c < 0 || (c == 0 && rest[j].entry < rest[m].entry) {
                let ghost old_m = m;
                m = j;
                assert forall|i: int| 0 <= i < j + 1 implies page_le(
                    rest@[m as int],
                    #[trigger] rest@[i],
                ) by {
                    if i < j {
                        lemma_page_transitive(rest@[m as int], rest@[old_m as int], rest@[i]);
                    } else {
                        lemma_page_total(rest@[m as int], rest@[m as int]);
                    }
                }
            }
            j = j + 1;
        }
        let ghost before = rest@;
        let ghost outs = out@;
        let least = rest.remove(m);
        proof {
            before.remove_ensures(m as int);
            assert(rest@ == before.remove(m as int));
        }
        out.push(least);
        proof {
            assert(out@ == outs.push(least));
            assert(before[m as int] == least);
            assert forall|a: int, b: int| 0 <= a < b < out@.len() implies page_le(
                #[trigger] out@[a],
                #[trigger] out@[b],
            ) by {
                if b < outs.len() {
                    assert(out@[a] == outs[a] && out@[b] == outs[b]);
                } else {
                    assert(out@[b] == least);
                    assert(page_le(outs.last(), least));
                    if a < outs.len() - 1 {
                        assert(page_le(outs[a], outs[outs.len() - 1]));
                        lemma_page_transitive(outs[a], outs.last(), least);
                    }
                }
            }
            assert forall|k: int| 0 <= k < rest@.len() implies page_le(
                out@.last(),
                #[trigger] rest@[k],
            ) by {
                if k < m {
                    assert(rest@[k] == before[k]);
                } else {
                    assert(rest@[k] == before[k + 1]);
                }
            }
            outs.to_multiset_ensures();
            before.to_multiset_ensures();
            assert(outs.push(least).to_multiset() =~= outs.to_multiset().insert(least));
            assert(before.remove(m as int).to_multiset() =~= before.to_multiset().remove(
                before[m as int],
            ));
            assert(before.to_multiset().count(least) > 0) by {
                assert(before.contains(least));
            }
            assert(out@.to_multiset().add(rest@.to_multiset()) =~= pages@.to_multiset());
        }
    }
    assert(rest@.to_multiset() =~= Multiset::empty());
    assert(out@.to_multiset() =~= pages@.to_multiset());
    out
}

/// The source's page at `page`, or the error for an index out of range.
pub open spec fn located(pages: Seq<Page>, page: usize, r: Result<&Page, PageError>) -> bool {
    if page < pages.len() {
        r matches Ok(p) && *p == pages[page as int]
    } else {
        r == Err::<&Page, PageError>(PageError::NotFound { page })
    }
}

/// `a` and `b` hold the same pages: equal paths and entries, in order.
pub open spec fn same_pages(a: Seq<Page>, b: Seq<Page>) -> bool {
    &&& a.len() == b.len()
    &&& forall|i: int|
        0 <= i < a.len() ==> (#[trigger] a[i]).path@ == b[i].path@ && a[i].entry == b[i].entry
}

/// Copies a list of pages.
pub(crate) fn clone_pages(pages: &Vec<Page>) -> (r: Vec<Page>)
    ensures
        same_pages(r@, pages@),
{
    let mut out: Vec<Page> = Vec::with_capacity(pages.len());
    let mut i: usize = 0;
    while i < pages.len()
        invariant
            i <= pages@.len(),
            out@.len() == i,
            forall|j: int|
                0 <= j < i ==> (#[trigger] out@[j]).path@ == pages@[j].path@ && out@[j].entry
                    == pages@[j].entry,
        decreases pages@.len() - i,
    {
        let path = pages[i].path.clone();
        proof {
            assert(path@ =~= pages@[i as int].path@);
        }
        out.push(Page { path, entry: pages[i].entry });
        i = i + 1;
    }
    out
}

/// A source of pages.
pub trait ImageSource {
    /// Whether a path that the file system describes as `info` opens as
    /// this kind of source.
    spec fn accepts(info: PathInfo) -> bool;

    /// The source's pages, in order.
    spec fn pages(&self) -> Seq<Page>;

    /// Checks whether `info` opens as this kind of source.
    fn item_matches(info: &PathInfo) -> (r: bool)
        ensures
            r == Self::accepts(*info),
    ;

    /// Number of pages; constant for the source's lifetime.
    fn total_pages(&self) -> (r: usize)
        ensures
            r == self.pages().len(),
    ;

    /// An independent copy, for another reader: the same pages.
    fn quick_clone(&self) -> (r: Self) where Self: Sized
        ensures
            same_pages(r.pages(), self.pages()),
    ;

    /// Where the page at `page` is to be read from.
    fn locate_page(&self, page: usize) -> (r: Result<&Page, PageError>)
        ensures
            located(self.pages(), page, r),
    ;
}

/// Which kind of source a path opens as: a directory first, then an
/// archive; any other path is refused.
pub fn load_image_source(info: &PathInfo) -> (r: Result<SourceKind, SourceError>)
    ensures
        ImageDirectory::accepts(*info) ==> r == Ok::<SourceKind, SourceError>(
            SourceKind::Directory,
        ),
        !ImageDirectory::accepts(*info) && ZipFile::accepts(*info) ==> r == Ok::<
            SourceKind,
            SourceError,
        >(SourceKind::Archive),
        !ImageDirectory::accepts(*info) && !ZipFile::accepts(*info) ==> r == Err::<
            SourceKind,
            SourceError,
        >(SourceError::NotSupported),
{
    if ImageDirectory::item_matches(info) {
        Ok(SourceKind::Directory)
    } else if ZipFile::item_matches(info) {
        Ok(SourceKind::Archive)
    } else {
        Err(SourceError::NotSupported)
    }
}

} // verus!

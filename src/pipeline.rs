//! The consumer's side of one loading generation: the page count, the
//! results table and the priority cursor.
use crate::gap_vec::GapVec;
use vstd::prelude::*;

verus! {

/// Most workers a generation runs, whatever the machine offers.
pub const MAX_WORKERS: usize = 16;

/// How many workers to run when the machine offers `available` cores.
pub fn worker_count(available: usize) -> (r: usize)
    ensures
        r == if available < MAX_WORKERS {
            available
        } else {
            MAX_WORKERS
        },
{
    if available < MAX_WORKERS {
        available
    } else {
        MAX_WORKERS
    }
}

/// The state of one generation that its consumer sees: how many pages the
/// document has, the result of each page loaded so far, and the page the
/// consumer looks at.
pub struct Generation<T> {
    total_pages: usize,
    results: GapVec<T>,
    cursor: usize,
}

/// The mathematical content of a [`Generation`].
pub ghost struct GenerationView<T> {
    pub total_pages: nat,
    pub results: Seq<Option<T>>,
    pub cursor: usize,
}

impl<T> View for Generation<T> {
    type V = GenerationView<T>;

    closed spec fn view(&self) -> GenerationView<T> {
        GenerationView {
            total_pages: self.total_pages as nat,
            results: self.results@,
            cursor: self.cursor,
        }
    }
}

/// A fresh generation of `total` pages: nothing loaded, cursor on the first page.
pub open spec fn fresh<T>(g: GenerationView<T>, total: nat) -> bool {
    &&& g.total_pages == total
    &&& g.results.len() == total
    &&& g.cursor == 0
    &&& forall|i: int| 0 <= i < total ==> g.results[i] is None
}

/// `after` is `before` with page `index` recorded as `value`.
pub open spec fn recorded<T>(
    before: GenerationView<T>,
    index: int,
    value: T,
    after: GenerationView<T>,
) -> bool {
    after == (GenerationView { results: before.results.update(index, Some(value)), ..before })
}

/// `after` and `r` are what restarting `before` gives when opening the new
/// document gave `opened`.
pub open spec fn restarted<T, E>(
    before: GenerationView<T>,
    opened: Result<usize, E>,
    after: GenerationView<T>,
    r: Result<(), E>,
) -> bool {
    match opened {
        Ok(total) => r is Ok && fresh(after, total as nat),
        Err(e) => r == Err::<(), E>(e) && after == before,
    }
}

impl<T> Generation<T> {
    /// One slot of results per page.
    pub open spec fn wf(&self) -> bool {
        self@.results.len() == self@.total_pages
    }

    /// A generation for a document of `total_pages` pages.
    pub fn new(total_pages: usize) -> (r: Self)
        ensures
            r.wf(),
            fresh(r@, total_pages as nat),
    {
        Generation { total_pages, results: GapVec::new(total_pages), cursor: 0 }
    }

    /// Number of pages of the document.
    pub fn page_count(&self) -> (r: usize)
        ensures
            r == self@.total_pages,
    {
        self.total_pages
    }

    /// The result of page `index`, or `None` while it is loading.
    pub fn snapshot(&self, index: usize) -> (r: Option<&T>)
        requires
            self.wf(),
            index < self@.total_pages,
        ensures
            r is None <==> self@.results[index as int] is None,
            r matches Some(v) ==> self@.results[index as int] == Some(*v),
    {
        self.results.get(index)
    }

    /// Stores the result of page `index`; nothing else changes.
    pub fn record(&mut self, index: usize, value: T)
        requires
            old(self).wf(),
            index < old(self)@.total_pages,
        ensures
            final(self).wf(),
            recorded(old(self)@, index as int, value, final(self)@),
    {
        self.results.set(index, value);
    }

    /// The page the consumer looks at, which workers load first.
    pub fn priority(&self) -> (r: usize)
        ensures
            r == self@.cursor,
    {
        self.cursor
    }

    /// Moves the cursor to `page`; nothing else changes.
    pub fn set_priority(&mut self, page: usize)
        ensures
            final(self)@ == (GenerationView { cursor: page, ..old(self)@ }),
            final(self).wf() == old(self).wf(),
    {
        self.cursor = page;
    }

    /// Switches to a new document once it opened (`Ok` with its page
    /// count): every prior result goes. When it did not open, the
    /// generation stays as it was and the error is handed back.
    pub fn restart<E>(&mut self, opened: Result<usize, E>) -> (r: Result<(), E>)
        requires
            old(self).wf(),
        ensures
            final(self).wf(),
            restarted(old(self)@, opened, final(self)@, r),
    {
        match opened {
            Ok(total) => {
                *self = Generation::new(total);
                Ok(())
            },
            Err(e) => Err(e),
        }
    }
}

/// Before a generation's worker records a page, the page reads as loading;
/// once recorded it reads as its result, and keeps reading so while other
/// pages are recorded.
pub proof fn lemma_record_then_snapshot<T>(
    g0: GenerationView<T>,
    g1: GenerationView<T>,
    g2: GenerationView<T>,
    total: nat,
    index: int,
    value: T,
    other: int,
    later: T,
)
    requires
        fresh(g0, total),
        0 <= index < total,
        0 <= other < total,
        other != index,
        recorded(g0, index, value, g1),
        recorded(g1, other, later, g2),
    ensures
        g0.results[index] is None,
        g1.results[index] == Some(value),
        g1.results[other] is None,
        g2.results[index] == Some(value),
        g2.results[other] == Some(later),
{
}

/// Restarting is atomic for the consumer: when the new document did not
/// open, the page count and every result stay as they were; when it did,
/// the page count is the new document's and no result of the previous one
/// is left.
pub proof fn lemma_restart_atomic<T, E>(
    before: GenerationView<T>,
    opened: Result<usize, E>,
    after: GenerationView<T>,
    r: Result<(), E>,
)
    requires
        restarted(before, opened, after, r),
    ensures
        opened is Err ==> r is Err && after.total_pages == before.total_pages && after.results
            == before.results,
        opened matches Ok(total) ==> r is Ok && after.total_pages == total && forall|i: int|
            0 <= i < after.results.len() ==> after.results[i] is None,
{
}

} // verus!

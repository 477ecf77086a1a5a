use vstd::prelude::*;

verus! {

/// The pages of `[0, total)` that worker `worker` out of `workers` owns: its
/// residue class `{ p : p % workers == worker }`, in ascending order.
pub open spec fn owned_pages(total: nat, workers: nat, worker: nat) -> Seq<usize>
    decreases total,
{
    if total == 0 {
        Seq::empty()
    } else {
        let prev = owned_pages((total - 1) as nat, workers, worker);
        if (total - 1) % (workers as int) == worker as int {
            prev.push((total - 1) as usize)
        } else {
            prev
        }
    }
}

/// Each element is smaller than the next one (so none is repeated).
pub open spec fn strictly_ascending(s: Seq<usize>) -> bool {
    forall|i: int, j: int| 0 <= i < j < s.len() ==> s[i] < s[j]
}

/// `k` is the position a worker picks in its remaining pages `s` when the
/// consumer looks at page `cursor`: the first position whose page is at or
/// after the cursor, or the front when there is none.
pub open spec fn is_pick(s: Seq<usize>, cursor: usize, k: int) -> bool {
    &&& 0 <= k < s.len()
    &&& forall|j: int| 0 <= j < k ==> s[j] < cursor
    &&& (s[k] >= cursor || (k == 0 && forall|j: int| 0 <= j < s.len() ==> s[j] < cursor))
}

proof fn lemma_owned_pages(total: nat, workers: nat, worker: nat)
    requires
        workers > 0,
        total <= usize::MAX + 1,
    ensures
        strictly_ascending(owned_pages(total, workers, worker)),
        forall|p: usize| #[trigger]
            owned_pages(total, workers, worker).contains(p) <==> (p < total && p as int
                % workers as int == worker as int),
        forall|i: int|
            0 <= i < owned_pages(total, workers, worker).len() ==> #[trigger] owned_pages(
                total,
                workers,
                worker,
            )[i] < total,
    decreases total,
{
    if total > 0 {
        let t = (total - 1) as nat;
        lemma_owned_pages(t, workers, worker);
        let prev = owned_pages(t, workers, worker);
        if t as int % (workers as int) == worker as int {
            let cur = prev.push(t as usize);
            assert forall|p: usize|
                cur.contains(p) <==> (p < total && p as int % workers as int == worker as int) by {
                if cur.contains(p) {
                    let i = choose|i: int| 0 <= i < cur.len() && cur[i] == p;
                    if i < prev.len() {
                        assert(prev[i] == p);
                        assert(prev.contains(p));
                    } else {
                        assert(p == t);
                    }
                }
                if p < total && p as int % workers as int == worker as int {
                    if p < t {
                        assert(prev.contains(p));
                        let i = choose|i: int| 0 <= i < prev.len() && prev[i] == p;
                        assert(cur[i] == p);
                    } else {
                        assert(cur[prev.len() as int] == p);
                    }
                    assert(cur.contains(p));
                }
            }
        }
    }
}

/// Every page of `[0, total)` belongs to exactly one worker's static
/// partition, the one numbered `page % workers`; no partition holds a page
/// outside the range, nor one page twice.
pub proof fn lemma_partition_covers_once(total: usize, workers: usize)
    requires
        workers > 0,
    ensures
        forall|p: usize, w: nat|
            w < workers ==> (owned_pages(total as nat, workers as nat, w).contains(p) <==> (p
                < total && p as int % workers as int == w as int)),
        forall|p: usize| p < total ==> #[trigger] (p % workers) < workers,
        forall|w: nat| #[trigger]
            strictly_ascending(owned_pages(total as nat, workers as nat, w)),
{
    assert forall|p: usize, w: nat| w < workers implies (owned_pages(
        total as nat,
        workers as nat,
        w,
    ).contains(p) <==> (p < total && p as int % workers as int == w as int)) by {
        lemma_owned_pages(total as nat, workers as nat, w);
    }
    assert forall|w: nat| #[trigger]
        strictly_ascending(owned_pages(total as nat, workers as nat, w)) by {
        lemma_owned_pages(total as nat, workers as nat, w);
    }
}

/// The pages one worker still has to load, in the order it took them up.
pub struct Worker {
    remaining: Vec<usize>,
}

impl View for Worker {
    type V = Seq<usize>;

    closed spec fn view(&self) -> Seq<usize> {
        self.remaining@
    }
}

impl Worker {
    /// Remaining pages only ever lose elements, so they stay ascending.
    pub open spec fn wf(&self) -> bool {
        strictly_ascending(self@)
    }

    /// Worker `worker` of `workers`, starting with its whole static
    /// partition of a collection of `total` pages.
    pub fn new(total: usize, workers: usize, worker: usize) -> (r: Self)
        requires
            workers > 0,
        ensures
            r.wf(),
            r@ == owned_pages(total as nat, workers as nat, worker as nat),
    {
        let mut pages: Vec<usize> = Vec::new();
        let mut p: usize = 0;
        while p < total
            invariant
                p <= total,
                workers > 0,
                pages@ == owned_pages(p as nat, workers as nat, worker as nat),
                strictly_ascending(pages@),
                forall|i: int| 0 <= i < pages@.len() ==> pages@[i] < p,
            decreases total - p,
        {
            if p % workers == worker {
                pages.push(p);
            }
            p = p + 1;
        }
        Worker { remaining: pages }
    }

    /// Pages still to load.
    pub fn remaining(&self) -> (r: &[usize])
        ensures
            r@ == self@,
    {
        self.remaining.as_slice()
    }

    /// Whether every page of the partition has been handed out.
    pub fn is_done(&self) -> (r: bool)
        ensures
            r == (self@.len() == 0),
    {
        self.remaining.len() == 0
    }

    /// Takes the next page to load while the consumer looks at `cursor`:
    /// the smallest remaining page at or after the cursor, or else the
    /// oldest remaining page. `None` once nothing remains.
    pub fn next_page(&mut self, cursor: usize) -> (r: Option<usize>)
        requires
            old(self).wf(),
        ensures
            final(self).wf(),
            old(self)@.len() == 0 ==> r is None && final(self)@ == old(self)@,
            old(self)@.len() > 0 ==> exists|k: int|
                is_pick(old(self)@, cursor, k) && r == Some(old(self)@[k]) && final(self)@
                    == old(self)@.remove(k),
            r matches Some(page) ==> (exists|j: int|
                0 <= j < old(self)@.len() && old(self)@[j] >= cursor) ==> (page >= cursor
                && forall|j: int|
                0 <= j < old(self)@.len() && old(self)@[j] >= cursor ==> page <= old(self)@[j]),
            r matches Some(page) ==> (forall|j: int|
                0 <= j < old(self)@.len() ==> old(self)@[j] < cursor) ==> page == old(self)@[0],
    {
        if self.remaining.len() == 0 {
            return None;
        }
        let ghost s = self.remaining@;
        let mut k: usize = 0;
        while k < self.remaining.len() && self.remaining[k] < cursor
            invariant
                self.remaining@ == s,
                k <= s.len(),
                forall|j: int| 0 <= j < k ==> s[j] < cursor,
            decreases s.len() - k,
        {
            k = k + 1;
        }
        if k == self.remaining.len() {
            k = 0;
        }
        assert(is_pick(s, cursor, k as int));
        let page = self.remaining.remove(k);
        proof {
            s.remove_ensures(k as int);
        }
        Some(page)
    }
}

} // verus!

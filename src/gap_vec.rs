use vstd::prelude::*;

verus! {

/// A fixed-size vector with gaps: each index holds a value or nothing yet.
///
/// Useful for a list of values that are filled in progressively, such as
/// pages that load one after another.
pub struct GapVec<T> {
    items: Vec<Option<T>>,
}

impl<T> View for GapVec<T> {
    type V = Seq<Option<T>>;

    closed spec fn view(&self) -> Seq<Option<T>> {
        self.items@
    }
}

impl<T> GapVec<T> {
    /// Creates a gap vector of `size` empty slots.
    pub fn new(size: usize) -> (r: Self)
        ensures
            r@.len() == size,
            forall|i: int| 0 <= i < size ==> r@[i] is None,
    {
        let mut items: Vec<Option<T>> = Vec::with_capacity(size);
        let mut n: usize = 0;
        while n < size
            invariant
                n <= size,
                items@.len() == n,
                forall|i: int| 0 <= i < n ==> items@[i] is None,
            decreases size - n,
        {
            items.push(None);
            n = n + 1;
        }
        GapVec { items }
    }

    /// Number of slots, filled or not.
    pub fn len(&self) -> (r: usize)
        ensures
            r == self@.len(),
    {
        self.items.len()
    }

    /// The value at `index`, or `None` while the slot is empty.
    pub fn get(&self, index: usize) -> (r: Option<&T>)
        requires
            index < self@.len(),
        ensures
            r is None <==> self@[index as int] is None,
            r matches Some(v) ==> self@[index as int] == Some(*v),
    {
        match &self.items[index] {
            Some(v) => Some(v),
            None => None,
        }
    }

    /// Fills the slot at `index` with `value`; the other slots keep theirs.
    pub fn set(&mut self, index: usize, value: T)
        requires
            index < old(self)@.len(),
        ensures
            final(self)@ == old(self)@.update(index as int, Some(value)),
    {
        self.items.set(index, Some(value));
    }
}

} // verus!

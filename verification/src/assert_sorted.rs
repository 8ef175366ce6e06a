//! A "speedbump type" wrapping rows that are known to be sorted.

use vstd::prelude::*;
use crate::index::{GenericRowId, sort_rows, sorted_rows};

verus! {

/// Wraps items that are sorted.
pub struct AssertSorted<T>(pub T);

impl<R> AssertSorted<Vec<GenericRowId<R>>> {
    /// Sorts `vec` and wraps it.
    pub fn from(vec: Vec<GenericRowId<R>>) -> (r: Self)
        ensures
            sorted_rows(r.0@),
            r.0@.to_multiset() == vec@.to_multiset(),
    {
        let mut vec = vec;
        sort_rows(&mut vec);
        AssertSorted(vec)
    }
}

impl<T> AssertSorted<T> {
    /// The wrapped items.
    pub fn into_iter(self) -> (r: T)
        ensures
            r == self.0,
    {
        self.0
    }
}

} // verus!

//! Column storage: every column type exposes a `Vec`-like interface through
//! `TCol`, and `RefA`/`MutA`/`EditA` give out access to a column.

use vstd::prelude::*;
use core::marker::PhantomData;
use crate::index::GenericRowId;

verus! {

/// A column: a sequence of elements with a `Vec`-like interface.
pub trait TCol: Sized {
    type Element;

    /// The elements of the column, in order.
    spec fn view(&self) -> Seq<Self::Element>;

    /// The column's own invariant.
    spec fn wf(&self) -> bool;

    /// Whether elements may be modified in place.
    spec fn allows_mut() -> bool;

    /// An empty column.
    fn new() -> (r: Self)
        ensures
            r.wf(),
            r.view().len() == 0,
    ;

    /// The number of elements.
    fn len(&self) -> (r: usize)
        requires
            self.wf(),
        ensures
            r == self.view().len(),
    ;

    /// Keeps the first `len` elements (all of them if there are fewer).
    fn truncate(&mut self, len: usize)
        requires
            old(self).wf(),
        ensures
            final(self).wf(),
            final(self).view() == (if len < old(self).view().len() {
                old(self).view().take(len as int)
            } else {
                old(self).view()
            }),
    ;

    /// The element at `i`.
    fn unchecked_index(&self, i: usize) -> (r: &Self::Element)
        requires
            self.wf(),
            i < self.view().len(),
        ensures
            *r == self.view()[i as int],
    ;

    /// The element at `i`, to modify in place.
    fn unchecked_index_mut(&mut self, i: usize) -> (r: &mut Self::Element)
        requires
            Self::allows_mut(),
            old(self).wf(),
            i < old(self).view().len(),
        ensures
            *r == old(self).view()[i as int],
            final(self).wf(),
            final(self).view() == old(self).view().update(i as int, *final(r)),
    ;

    /// Makes room for `n` more elements.
    fn reserve(&mut self, n: usize)
        requires
            old(self).wf(),
            old(self).view().len() + n <= usize::MAX,
        ensures
            final(self).wf(),
            final(self).view() == old(self).view(),
    ;

    /// Removes every element.
    fn clear(&mut self)
        requires
            old(self).wf(),
        ensures
            final(self).wf(),
            final(self).view().len() == 0,
    ;

    /// Appends `v`.
    fn push(&mut self, v: Self::Element)
        requires
            old(self).wf(),
            old(self).view().len() < usize::MAX,
        ensures
            final(self).wf(),
            final(self).view() == old(self).view().push(v),
    ;

    /// Exchanges the element at `i` with `*new`.
    fn unchecked_swap_out(&mut self, i: usize, new: &mut Self::Element)
        requires
            old(self).wf(),
            i < old(self).view().len(),
        ensures
            final(self).wf(),
            final(self).view() == old(self).view().update(i as int, *old(new)),
            *final(new) == old(self).view()[i as int],
    ;

    /// Exchanges the elements at `a` and `b`.
    fn unchecked_swap(&mut self, a: usize, b: usize)
        requires
            old(self).wf(),
            a < old(self).view().len(),
            b < old(self).view().len(),
        ensures
            final(self).wf(),
            final(self).view() == old(self).view().update(a as int, old(self).view()[b as int]).update(
                b as int,
                old(self).view()[a as int],
            ),
    ;

    /// Called when the element at `i` is deleted.
    fn deleted(&mut self, i: usize)
        requires
            old(self).wf(),
            i < old(self).view().len(),
        ensures
            final(self).wf(),
            final(self).view() == old(self).view(),
    ;

    /// The element at `i`, which must be in range.
    fn checked_index(&self, i: usize) -> (r: &Self::Element)
        requires
            self.wf(),
            i < self.view().len(),
        ensures
            *r == self.view()[i as int],
    ;
}

/// A column of table `T`, indexed by the table's row ids.
pub struct Col<C, T> {
    inner: C,
    table: PhantomData<T>,
}

impl<C: TCol, T> Col<C, T> {
    /// The column's storage.
    pub closed spec fn storage(&self) -> C {
        self.inner
    }

    /// An empty column.
    pub fn new() -> (r: Self)
        ensures
            r.storage().wf(),
            r.storage().view().len() == 0,
    {
        Col { inner: C::new(), table: PhantomData }
    }

    /// The index `i`, which must be in range.
    fn check(&self, i: usize) -> (r: usize)
        requires
            self.inner.wf(),
            i < self.inner.view().len(),
        ensures
            r == i,
    {
        i
    }

    pub fn inner(&self) -> (r: &C)
        ensures
            *r == self.storage(),
    {
        &self.inner
    }

    pub fn inner_mut(&mut self) -> (r: &mut C)
        ensures
            *r == old(self).storage(),
            final(self).storage() == *final(r),
    {
        &mut self.inner
    }

    /// The element of row `i`.
    pub fn index(&self, i: GenericRowId<T>) -> (r: &C::Element)
        requires
            self.storage().wf(),
            i.i < self.storage().view().len(),
        ensures
            *r == self.storage().view()[i.i as int],
    {
        let k = self.check(i.to_usize());
        self.inner.unchecked_index(k)
    }

    /// The element of row `i`, to modify in place.
    pub fn index_mut(&mut self, i: GenericRowId<T>) -> (r: &mut C::Element)
        requires
            C::allows_mut(),
            old(self).storage().wf(),
            i.i < old(self).storage().view().len(),
        ensures
            *r == old(self).storage().view()[i.i as int],
            final(self).storage().wf(),
            final(self).storage().view() == old(self).storage().view().update(i.i as int, *final(r)),
    {
        let k = self.check(i.to_usize());
        self.inner.unchecked_index_mut(k)
    }
}

/// A column that can be indexed.
pub struct RefA<'a, T>(pub &'a T);

/// A column that can be indexed and mutated.
pub struct MutA<'a, T>(pub &'a mut T);

/// A column whose elements can be mutated, but which takes no structural changes.
pub struct EditA<'a, T>(pub &'a mut T);

impl<'a, T> RefA<'a, T> {
    pub fn new(t: &'a T) -> (r: Self)
        ensures
            *r.0 == *t,
    {
        RefA(t)
    }

    pub fn deref(&self) -> (r: &T)
        ensures
            *r == *self.0,
    {
        self.0
    }
}

impl<'a, T> MutA<'a, T> {
    pub fn new(t: &'a mut T) -> (r: Self)
        ensures
            *r.0 == *old(t),
            *final(r.0) == *final(t),
    {
        MutA(t)
    }

    pub fn deref(&self) -> (r: &T)
        ensures
            *r == *old(self.0),
    {
        self.0
    }

    pub fn deref_mut(&mut self) -> (r: &mut T)
        ensures
            *r == *old(self).0,
            *final(self).0 == *final(r),
    {
        self.0
    }
}

impl<'a, T> EditA<'a, T> {
    pub fn new(t: &'a mut T) -> (r: Self)
        ensures
            *r.0 == *old(t),
            *final(r.0) == *final(t),
    {
        EditA(t)
    }

    pub fn deref(&self) -> (r: &T)
        ensures
            *r == *old(self.0),
    {
        self.0
    }

    pub fn deref_mut(&mut self) -> (r: &mut T)
        ensures
            *r == *old(self).0,
            *final(self).0 == *final(r),
    {
        self.0
    }
}

} // verus!
